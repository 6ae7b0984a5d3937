use rft::packets::{
    get_packet_type_client, get_packet_type_server, AckPacket, DataPacket, ErrorPacket,
    MetadataPacket, PacketType, RequestPacket, ResponsePacket,
};

#[test]
fn test_request_packet() {
    let base: RequestPacket = RequestPacket {
        connection_id: 0x0,
        fields: 0x0,
        byte_offset: 0x0,
        flow_window: 0x10,
        file_name: String::from("testfile.txt"),
    };
    let ser = RequestPacket::serialize(&base.byte_offset, &base.flow_window, &base.file_name);
    let deser = RequestPacket::deserialize(&ser).unwrap();
    assert_eq!(deser.connection_id, base.connection_id);
    assert_eq!(deser.fields, base.fields);
    assert_eq!(deser.byte_offset, base.byte_offset);
    assert_eq!(deser.flow_window, base.flow_window);
    assert_eq!(deser.file_name, base.file_name);
}

#[test]
fn test_response_packet() {
    let file_hash: [u8; 32] = [
        0x1, 0x2, 0x3, 0x4, 0x5, 0x6, 0x7, 0x8, 0x11, 0x12, 0x13, 0x14, 0x15, 0x16, 0x17, 0x18, 0x1,
        0x2, 0x3, 0x4, 0x5, 0x6, 0x7, 0x8, 0x21, 0x22, 0x23, 0x24, 0x25, 0x26, 0x27, 0x28,
    ];
    let base: ResponsePacket = ResponsePacket {
        connection_id: 0x0,
        fields: 0b10000000,
        block_id: 0x22334455,
        file_hash: file_hash,
        file_size: 0x40000,
    };
    let ser = ResponsePacket::serialize(&base.connection_id, &base.block_id, &base.file_hash, &base.file_size);
    let deser = ResponsePacket::deserialize(&ser).unwrap();
    assert_eq!(deser.connection_id, base.connection_id);
    assert_eq!(deser.fields, base.fields);
    assert_eq!(deser.block_id, base.block_id);
    assert_eq!(deser.file_hash, base.file_hash);
    assert_eq!(deser.file_size, base.file_size);
}

#[test]
fn test_data_packet() {
    let mut data: Vec<u8> = Vec::new();
    for i in 0..32 {
        data.push(i);
    }
    let base: DataPacket = DataPacket {
        connection_id: 0x0,
        fields: 0x0,
        block_id: 0x22334455,
        sequence_id: 0x3355,
        data: data,
    };
    let ser = DataPacket::serialize(&base.connection_id, &base.block_id, &base.sequence_id, &base.data);
    let deser = DataPacket::deserialize(&ser).unwrap();
    assert_eq!(deser.connection_id, base.connection_id);
    assert_eq!(deser.fields, base.fields);
    assert_eq!(deser.block_id, base.block_id);
    assert_eq!(deser.sequence_id, base.sequence_id);
    assert_eq!(deser.data, base.data);
}

#[test]
fn test_ack_packet() {
    let mut sid_list: Vec<u16> = Vec::new();
    for i in 0..32 {
        sid_list.push(i);
    }
    let base: AckPacket = AckPacket {
        connection_id: 0x3355,
        fields: 0b10000000,
        block_id: 0x22334455,
        flow_window: 0x4,
        length: 0x20,
        sid_list: sid_list,
    };
    let ser = AckPacket::serialize(&base.connection_id, &base.block_id, &base.flow_window, &base.length, &base.sid_list);
    let deser = AckPacket::deserialize(&ser).unwrap();
    assert_eq!(deser.connection_id, base.connection_id);
    assert_eq!(deser.block_id, base.block_id);
    assert_eq!(deser.fields, base.fields);
    assert_eq!(deser.flow_window, base.flow_window);
    assert_eq!(deser.length, base.length);
    assert_eq!(deser.sid_list, base.sid_list)
}

#[test]
fn test_metadata_packet() {
    let base: MetadataPacket = MetadataPacket {
        connection_id: 0x2244,
        fields: 0b00000000,
        block_id: 0x22334455,
        sequence_id: 0x0,
        new_block_size: 0x8,
    };
    let ser = MetadataPacket::serialize(&base.connection_id, &base.block_id, &base.new_block_size);
    let deser = MetadataPacket::deserialize(&ser).unwrap();
    assert_eq!(deser.connection_id, base.connection_id);
    assert_eq!(deser.fields, base.fields);
    assert_eq!(deser.block_id, base.block_id);
    assert_eq!(deser.sequence_id, base.sequence_id);
    assert_eq!(deser.new_block_size, base.new_block_size);
}

#[test]
fn test_error_packet() {
    let base: ErrorPacket = ErrorPacket {
        connection_id: 0x2244,
        fields: 0b01000000,
        block_id: 0x22334455,
        error_code: 0x12,
    };
    let ser = ErrorPacket::serialize(&base.connection_id, &base.block_id, &base.error_code);
    let deser = ErrorPacket::deserialize(&ser).unwrap();
    assert_eq!(deser.connection_id, base.connection_id);
    assert_eq!(deser.fields, base.fields);
    assert_eq!(deser.block_id, base.block_id);
    assert_eq!(deser.error_code, base.error_code);
}

#[test]
fn test_get_packet_client() {
    let base: ErrorPacket = ErrorPacket {
        connection_id: 0x2244,
        fields: 0b01000000,
        block_id: 0x22334455,
        error_code: 0x12,
    };
    let ser = ErrorPacket::serialize(&base.connection_id, &base.block_id, &base.error_code);
    let mut check: PacketType = get_packet_type_client(&ser);
    println!("{:?}", check);
    assert_eq!(check, PacketType::Error);
    let base: MetadataPacket = MetadataPacket {
        connection_id: 0x2244,
        fields: 0b00000000,
        block_id: 0x22334455,
        sequence_id: 0x0,
        new_block_size: 0x8,
    };
    let ser = MetadataPacket::serialize(&base.connection_id, &base.block_id, &base.new_block_size);
    check = get_packet_type_client(&ser);
    assert_eq!(check, PacketType::Metadata);
    let mut data: Vec<u8> = Vec::new();
    for i in 0..32 {
        data.push(i);
    }
    let base: DataPacket = DataPacket {
        connection_id: 0x0,
        fields: 0x0,
        block_id: 0x22334455,
        sequence_id: 0x3355,
        data: data,
    };
    let ser = DataPacket::serialize(&base.connection_id, &base.block_id, &base.sequence_id, &base.data);
    check = get_packet_type_client(&ser);
    assert_eq!(check, PacketType::Data);
    let file_hash: [u8; 32] = [
        0x1, 0x2, 0x3, 0x4, 0x5, 0x6, 0x7, 0x8, 0x11, 0x12, 0x13, 0x14, 0x15, 0x16, 0x17, 0x18, 0x1,
        0x2, 0x3, 0x4, 0x5, 0x6, 0x7, 0x8, 0x21, 0x22, 0x23, 0x24, 0x25, 0x26, 0x27, 0x28,
    ];
    let base: ResponsePacket = ResponsePacket {
        connection_id: 0x0,
        fields: 0b10000000,
        block_id: 0x22334455,
        file_hash: file_hash,
        file_size: 0x40000,
    };
    let ser = ResponsePacket::serialize(&base.connection_id, &base.block_id, &base.file_hash, &base.file_size);
    check = get_packet_type_client(&ser);
    assert_eq!(check, PacketType::Response);
}

#[test]
fn test_get_packet_server() {
    let base: ErrorPacket = ErrorPacket {
        connection_id: 0x2244,
        fields: 0b01000000,
        block_id: 0x22334455,
        error_code: 0x12,
    };
    let ser = ErrorPacket::serialize(&base.connection_id, &base.block_id, &base.error_code);
    let mut check: PacketType = get_packet_type_server(&ser);
    assert_eq!(check, PacketType::Error);
    let base: RequestPacket = RequestPacket {
        connection_id: 0x0,
        fields: 0x0,
        byte_offset: 0x0,
        flow_window: 0x10,
        file_name: String::from("testfile.txt"),
    };
    let ser = RequestPacket::serialize(&base.byte_offset, &base.flow_window, &base.file_name);
    check = get_packet_type_server(&ser);
    assert_eq!(check, PacketType::Request);
    let mut sid_list: Vec<u16> = Vec::new();
    for i in 0..32 {
        sid_list.push(i);
    }
    let base: AckPacket = AckPacket {
        connection_id: 0x3355,
        fields: 0b10000000,
        block_id: 0x22334455,
        flow_window: 0x4,
        length: 0x20,
        sid_list: sid_list,
    };
    let ser = AckPacket::serialize(&base.connection_id, &base.block_id, &base.flow_window, &base.length, &base.sid_list);
    check = get_packet_type_server(&ser);
    assert_eq!(check, PacketType::Ack);
}
