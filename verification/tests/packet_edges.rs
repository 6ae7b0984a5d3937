use rft::packets::{
    check_packet_type, get_connection_id, get_packet_type, get_packet_type_client,
    get_packet_type_server, AckPacket, DataPacket, ErrorPacket, MetadataPacket, PacketType,
    RequestPacket, ResponsePacket,
};

#[test]
fn request_wire_layout_is_big_endian() {
    let ser = RequestPacket::serialize(&0x0102030405060708, &0x090a, &String::from("ab"));
    assert_eq!(ser, vec![0, 0, 0, 0, 1, 2, 3, 4, 5, 6, 7, 8, 0x09, 0x0a, b'a', b'b']);
}

#[test]
fn request_roundtrip_keeps_utf8_names() {
    let name = String::from("fïlé-名前.txt");
    let ser = RequestPacket::serialize(&77, &3, &name);
    let deser = RequestPacket::deserialize(&ser).unwrap();
    assert_eq!(deser.file_name, name);
    assert_eq!(deser.byte_offset, 77);
    assert_eq!(deser.flow_window, 3);
}

#[test]
fn request_with_invalid_utf8_is_read_lossily() {
    let mut ser = RequestPacket::serialize(&0, &1, &String::from("a"));
    ser.push(0xff);
    let deser = RequestPacket::deserialize(&ser).unwrap();
    assert_eq!(deser.file_name, String::from("a\u{FFFD}"));
}

#[test]
fn request_too_long_is_refused() {
    let name: String = std::iter::repeat('x').take(266).collect();
    let ser = RequestPacket::serialize(&0, &1, &name);
    assert_eq!(ser.len(), 280);
    assert_eq!(RequestPacket::deserialize(&ser).unwrap_err(), "Parsing Request Packet failed.");
    let name: String = std::iter::repeat('x').take(265).collect();
    let ser = RequestPacket::serialize(&0, &1, &name);
    assert!(RequestPacket::deserialize(&ser).is_ok());
}

#[test]
fn request_with_connection_id_is_refused() {
    let mut ser = RequestPacket::serialize(&0, &1, &String::from("f"));
    ser[2] = 1;
    assert_eq!(
        RequestPacket::deserialize(&ser).unwrap_err(),
        "Parsing Request Packet failed. Invalid ID."
    );
}

#[test]
fn connection_id_keeps_24_bits_on_the_wire() {
    let ser = ErrorPacket::serialize(&0x12345678, &1, &2);
    assert_eq!(&ser[0..4], &[0x34, 0x56, 0x78, 0x40]);
    let deser = ErrorPacket::deserialize(&ser).unwrap();
    assert_eq!(deser.connection_id, 0x345678);
    assert_eq!(get_connection_id(&ser), Ok(0x345678));
}

#[test]
fn get_connection_id_needs_four_bytes() {
    assert_eq!(get_connection_id(&vec![1, 2, 3]), Err(()));
    assert_eq!(get_connection_id(&vec![1, 2, 3, 4]), Ok(0x010203));
}

#[test]
fn response_of_wrong_length_is_refused() {
    assert_eq!(ResponsePacket::deserialize(&[0u8; 47]).unwrap_err(), "Parsing Response Packet");
    let hash = [7u8; 32];
    let ser = ResponsePacket::serialize(&5, &6, &hash, &0x0102030405060708);
    assert_eq!(ser.len(), 48);
    let deser = ResponsePacket::deserialize(&ser).unwrap();
    assert_eq!(deser.file_size, 0x0102030405060708);
    assert_eq!(deser.block_id, 6);
}

#[test]
fn data_with_sequence_zero_is_refused() {
    let ser = DataPacket::serialize(&1, &2, &0, &vec![1, 2, 3]);
    assert_eq!(DataPacket::deserialize(&ser).unwrap_err(), "Parsing Data Packet");
}

#[test]
fn data_payload_too_large_gives_empty_packet() {
    let big = vec![0u8; 1271];
    assert!(DataPacket::serialize(&1, &2, &3, &big).is_empty());
    let full = vec![9u8; 1270];
    let ser = DataPacket::serialize(&1, &2, &3, &full);
    assert_eq!(ser.len(), 1280);
    assert_eq!(DataPacket::deserialize(&ser).unwrap().data, full);
}

#[test]
fn ack_with_odd_list_is_refused() {
    let mut ser = AckPacket::serialize(&1, &2, &3, &0, &vec![]);
    ser.push(0);
    assert_eq!(AckPacket::deserialize(&ser).unwrap_err(), "Parsing ACK Packet");
}

#[test]
fn ack_reads_only_the_announced_ids() {
    let ser = AckPacket::serialize(&1, &2, &3, &2, &vec![10, 11, 12]);
    let deser = AckPacket::deserialize(&ser).unwrap();
    assert_eq!(deser.sid_list, vec![10, 11]);
    assert_eq!(deser.length, 2);
}

#[test]
fn metadata_errors() {
    let ser = MetadataPacket::serialize(&0x1000000, &2, &3);
    assert_eq!(
        MetadataPacket::deserialize(&ser).unwrap_err(),
        "ConnectionID 0 is invalid for Metadata"
    );
    assert_eq!(
        MetadataPacket::deserialize(&ser[0..13]).unwrap_err(),
        "Malformed metadata packet could not be parsed."
    );
}

#[test]
fn error_of_wrong_length_is_refused() {
    assert_eq!(ErrorPacket::deserialize(&[0u8; 13]).unwrap_err(), "Malformed error packet");
}

#[test]
fn header_type_by_flags() {
    let ack = AckPacket::serialize(&5, &0, &0, &0, &vec![]);
    let mut p = ack.clone();
    p[7] = 0x80;
    assert_eq!(get_packet_type(&p), PacketType::Ack);
    p[7] = 0x40;
    assert_eq!(get_packet_type(&p), PacketType::Error);
    p[7] = 0x00;
    assert_eq!(get_packet_type(&p), PacketType::Data);
    p[7] = 0x20;
    assert_eq!(get_packet_type(&p), PacketType::Unknown);
    p[0] = 0;
    p[1] = 0;
    p[2] = 0;
    assert_eq!(get_packet_type(&p), PacketType::Request);
}

#[test]
fn check_packet_type_by_flags() {
    let ack = AckPacket::serialize(&5, &0, &0, &0, &vec![]);
    assert!(check_packet_type(&ack, PacketType::Ack));
    assert!(check_packet_type(&ack, PacketType::Response));
    assert!(!check_packet_type(&ack, PacketType::Request));
    assert!(!check_packet_type(&ack, PacketType::Unknown));
    let err = ErrorPacket::serialize(&5, &0, &0);
    assert!(check_packet_type(&err, PacketType::Error));
    assert!(!check_packet_type(&err, PacketType::Data));
    let data = DataPacket::serialize(&5, &0, &1, &vec![1]);
    assert!(check_packet_type(&data, PacketType::Data));
    let mut meta = MetadataPacket::serialize(&5, &0, &1);
    meta[3] = 0x20;
    assert!(check_packet_type(&meta, PacketType::Metadata));
    let req = RequestPacket::serialize(&0, &1, &String::from("x"));
    assert!(check_packet_type(&req, PacketType::Request));
}

#[test]
fn client_type_of_short_or_unknown_packets() {
    assert_eq!(get_packet_type_client(&vec![0u8; 9]), PacketType::Unknown);
    let mut p = vec![0u8; 12];
    p[3] = 0x20;
    assert_eq!(get_packet_type_client(&p), PacketType::Unknown);
}

#[test]
fn server_type_of_unknown_flags() {
    let mut p = ErrorPacket::serialize(&5, &0, &0);
    p[3] = 0x00;
    assert_eq!(get_packet_type_server(&p), PacketType::Unknown);
}

#[test]
fn short_buffers_are_refused() {
    assert_eq!(RequestPacket::deserialize(&[0u8; 13]).unwrap_err(), "Parsing Request Packet failed.");
    assert_eq!(RequestPacket::deserialize(&[]).unwrap_err(), "Parsing Request Packet failed.");
    assert_eq!(DataPacket::deserialize(&[0, 0, 1, 0, 0, 0, 0, 0, 0]).unwrap_err(), "Parsing Data Packet too small");
    assert_eq!(AckPacket::deserialize(&[0u8; 11]).unwrap_err(), "Parsing ACK Packet");
    let mut ser = AckPacket::serialize(&1, &2, &3, &3, &vec![1, 2]);
    assert_eq!(AckPacket::deserialize(&ser).unwrap_err(), "Parsing ACK Packet");
    ser.truncate(12);
    ser[10] = 0xff;
    ser[11] = 0xff;
    assert_eq!(AckPacket::deserialize(&ser).unwrap_err(), "Parsing ACK Packet");
}

#[test]
fn three_bytes_tell_a_request() {
    assert!(check_packet_type(&vec![0, 0, 0], PacketType::Request));
    assert!(!check_packet_type(&vec![0, 0, 1], PacketType::Request));
    assert!(!check_packet_type(&vec![0, 0, 1], PacketType::Unknown));
    assert!(!check_packet_type(&vec![0, 0, 0], PacketType::Response));
}
