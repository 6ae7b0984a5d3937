use rft::packets::{ErrorPacket, ErrorTypes};
use rft::utils::{
    after_bind_attempt, bind_attempts, compare_hashes, BindStep, compute_hash, compute_hostname, create_next_packet,
    error_message, first_usable_interface, info_file_name, interface_up, local_address,
    parse_state, part_file_name, state_record, InterfaceInfo, DATA_SIZE,
};

#[test]
fn hostname_is_trimmed_and_joined_with_port() {
    assert_eq!(compute_hostname(&String::from(" 127.0.0.1\n"), &5001), "127.0.0.1:5001");
    assert_eq!(compute_hostname(&String::from("\0\0host\0"), &0), "host:0");
    assert_eq!(compute_hostname(&String::from(" \0 a \0 "), &4294967295), " a :4294967295");
    assert_eq!(compute_hostname(&String::from(""), &80), ":80");
}

#[test]
fn hash_of_known_input() {
    let h = compute_hash(&b"abc".to_vec()).unwrap();
    assert_eq!(
        h.to_vec(),
        vec![
            0xba, 0x78, 0x16, 0xbf, 0x8f, 0x01, 0xcf, 0xea, 0x41, 0x41, 0x40, 0xde, 0x5d, 0xae,
            0x22, 0x23, 0xb0, 0x03, 0x61, 0xa3, 0x96, 0x17, 0x7a, 0x9c, 0xb4, 0x10, 0xff, 0x61,
            0xf2, 0x00, 0x15, 0xad
        ]
    );
}

#[test]
fn hashes_compare_by_content() {
    assert!(compare_hashes(&vec![1, 2, 3], &vec![1, 2, 3]));
    assert!(!compare_hashes(&vec![1, 2, 3], &vec![1, 2, 4]));
    assert!(!compare_hashes(&vec![1, 2], &vec![1, 2, 3]));
    assert!(compare_hashes(&vec![], &vec![]));
}

#[test]
fn next_packet_cuts_the_block() {
    let block: Vec<u8> = (0..3000u32).map(|i| (i % 251) as u8).collect();
    let (p, size) = create_next_packet(&5000, &block, &1).unwrap();
    assert_eq!(size, DATA_SIZE);
    assert_eq!(p, block[1270..2540].to_vec());
    let (p, size) = create_next_packet(&460, &block, &2).unwrap();
    assert_eq!(size, 460);
    assert_eq!(p, block[2540..3000].to_vec());
    assert!(create_next_packet(&461, &block, &2).is_err());
    assert!(create_next_packet(&1270, &block, &3).is_err());
    assert_eq!(create_next_packet(&461, &block, &2).unwrap_err().message, "Invalid size");
}

#[test]
fn error_messages_carry_their_codes() {
    let codes = [
        (ErrorTypes::FileUnavailable, 1),
        (ErrorTypes::ConnectionRefused, 2),
        (ErrorTypes::FileModified, 3),
        (ErrorTypes::Abort, 4),
    ];
    for (e, code) in codes {
        let msg = error_message(&0x42, e);
        let p = ErrorPacket::deserialize(&msg).unwrap();
        assert_eq!(p.error_code, code);
        assert_eq!(p.block_id, 0);
        assert_eq!(p.connection_id, 0x42);
        assert_eq!(p.fields, 0x40);
    }
}

#[test]
fn state_record_reads_back() {
    let hash = vec![9u8; 32];
    let rec = state_record(&0x1122, Some(hash.clone()));
    assert_eq!(&rec[0..8], &[0, 0, 0, 0, 0, 0, 0x11, 0x22]);
    assert_eq!(rec.len(), 40);
    let (offset, h) = parse_state(&rec, 5000);
    assert_eq!(offset, 5000);
    assert_eq!(h, hash);
    let rec = state_record(&7, None);
    assert_eq!(rec, vec![0, 0, 0, 0, 0, 0, 0, 7]);
    let (offset, h) = parse_state(&rec, 7);
    assert_eq!(offset, 7);
    assert!(h.is_empty());
}

#[test]
fn side_file_names() {
    assert_eq!(info_file_name(&String::from("a.txt")), "a.txt.info");
    assert_eq!(part_file_name(&String::from("a.txt")), "a.txt.part");
}

#[test]
fn bind_is_tried_at_least_once() {
    assert_eq!(bind_attempts(0), 1);
    assert_eq!(bind_attempts(1), 1);
    assert_eq!(bind_attempts(3), 3);
}

fn iface(up: bool, loopback: bool, ips: Vec<Vec<u8>>) -> InterfaceInfo {
    InterfaceInfo { up, loopback, ips }
}

#[test]
fn local_address_prefers_first_ipv4_of_first_usable_interface() {
    let v6 = vec![0xfe, 0x80, 0, 0, 0, 0, 0, 0, 0, 0, 0, 0, 0, 0, 0, 1];
    let ifaces = vec![
        iface(true, true, vec![vec![127, 0, 0, 1]]),
        iface(false, false, vec![vec![10, 0, 0, 1]]),
        iface(true, false, vec![]),
        iface(true, false, vec![v6.clone(), vec![192, 168, 1, 2], vec![192, 168, 1, 3]]),
        iface(true, false, vec![vec![172, 16, 0, 1]]),
    ];
    assert_eq!(first_usable_interface(&ifaces), Some(3));
    assert_eq!(local_address(&ifaces), Some(vec![192, 168, 1, 2]));
    let only_v6 = vec![iface(true, false, vec![v6.clone()])];
    assert_eq!(local_address(&only_v6), Some(v6));
    assert_eq!(local_address(&vec![iface(true, true, vec![vec![127, 0, 0, 1]])]), None);
}

#[test]
fn interface_of_a_socket_decides_whether_it_is_up() {
    let ifaces = vec![
        iface(false, false, vec![vec![10, 0, 0, 1]]),
        iface(true, false, vec![vec![10, 0, 0, 2], vec![10, 0, 0, 1]]),
        iface(true, false, vec![vec![10, 0, 0, 3]]),
    ];
    assert!(!interface_up(&ifaces, &vec![10, 0, 0, 1]));
    assert!(interface_up(&ifaces, &vec![10, 0, 0, 2]));
    assert!(interface_up(&ifaces, &vec![10, 0, 0, 3]));
    assert!(!interface_up(&ifaces, &vec![10, 0, 0, 4]));
}

#[test]
fn binding_stops_at_first_success_or_after_the_last_attempt() {
    assert_eq!(after_bind_attempt(3, 1, true), BindStep::Return);
    assert_eq!(after_bind_attempt(3, 1, false), BindStep::TryAgain);
    assert_eq!(after_bind_attempt(3, 2, false), BindStep::TryAgain);
    assert_eq!(after_bind_attempt(3, 3, false), BindStep::Return);
    assert_eq!(after_bind_attempt(0, 1, false), BindStep::Return);
    assert_eq!(after_bind_attempt(1, 1, false), BindStep::Return);
}
