use rft::client::{ClientSession, PacketCheck, ReceiveStep, ResponseAction, Verdict, START_FLOW_WINDOW};
use rft::packets::{AckPacket, DataPacket, MetadataPacket, ResponsePacket};

fn session(file_size: u64, offset: u64, flow: u16) -> ClientSession {
    let mut s = ClientSession::create();
    s.file_size = file_size;
    s.offset = offset;
    s.received = offset;
    s.flow_window = flow;
    s.connection_id = 9;
    s
}

fn data(seq: u16, payload: Vec<u8>) -> DataPacket {
    DataPacket { connection_id: 9, fields: 0, block_id: 0, sequence_id: seq, data: payload }
}

#[test]
fn new_session_and_reset() {
    let mut s = session(100, 50, 3);
    assert_eq!(ClientSession::create().flow_window, START_FLOW_WINDOW);
    s.retransmission = true;
    s.reset_client();
    assert_eq!(s.received, 0);
    assert_eq!(s.offset, 0);
    assert_eq!(s.flow_window, 8);
    assert!(s.slow_start);
    assert!(!s.retransmission);
    assert_eq!(s.connection_id, 9);
}

#[test]
fn expected_ids_include_metadata() {
    let s = session(0, 0, 8);
    assert_eq!(s.create_new_sid(3), vec![0, 1, 2, 3]);
    assert_eq!(s.remove_from_list(&vec![0, 1, 2, 1], 1), vec![0, 2]);
    assert_eq!(s.remove_from_list(&vec![0, 1, 2], 5), vec![0, 1, 2]);
}

#[test]
fn block_params_of_full_and_last_blocks() {
    let s = session(100000, 0, 8);
    assert_eq!(s.compute_block_params(), (8, 10160));
    let s = session(3000, 0, 8);
    assert_eq!(s.compute_block_params(), (3, 3000));
    let s = session(2540, 0, 2);
    assert_eq!(s.compute_block_params(), (2, 2540));
}

#[test]
fn payloads_land_where_they_belong() {
    let mut s = session(3000, 0, 8);
    let mut buf = vec![0u8; 3000];
    assert_eq!(s.fill_window_buffer(&mut buf, &data(2, vec![7; 1270])), 1270);
    assert!(buf[1270..2540].iter().all(|b| *b == 7));
    assert!(buf[0..1270].iter().all(|b| *b == 0));
    assert_eq!(s.fill_window_buffer(&mut buf, &data(3, vec![5; 1270])), 460);
    assert!(buf[2540..3000].iter().all(|b| *b == 5));
    assert_eq!(s.fill_window_buffer(&mut buf, &data(3, vec![5; 100])), 0);
    assert_eq!(s.fill_window_buffer(&mut buf, &data(4, vec![5; 1270])), 0);
}

#[test]
fn accepted_data_counts_as_received() {
    let mut s = session(3000, 0, 8);
    let mut buf = vec![0u8; 3000];
    let sid = vec![0, 1, 2, 3];
    let sid = s.accept_data(&mut buf, &data(1, vec![1; 1270]), &sid);
    assert_eq!(sid, vec![0, 2, 3]);
    assert_eq!(s.received, 1270);
    let md = MetadataPacket { connection_id: 9, fields: 0, block_id: 0, sequence_id: 0, new_block_size: 12 };
    let sid = s.accept_metadata(&md, &sid);
    assert_eq!(sid, vec![2, 3]);
    assert_eq!(s.congestion_window, 12);
    assert_eq!(s.check_packet(9, 0), PacketCheck::Matches);
    assert_eq!(s.check_packet(8, 0), PacketCheck::WrongConnection);
    assert_eq!(s.check_packet(9, 1), PacketCheck::WrongBlock);
}

#[test]
fn missing_packets_are_reported() {
    let mut s = session(1_000_000, 0, 8);
    let (nack, sid) = s.missing_report(&vec![2, 5]);
    let a = AckPacket::deserialize(&nack).unwrap();
    assert_eq!(a.length, 2);
    assert_eq!(a.sid_list, vec![2, 5]);
    assert_eq!(a.flow_window, 50);
    assert_eq!(sid, vec![2, 5]);
    assert!(!s.repair_mode);
}

#[test]
fn hard_loss_enters_repair_mode() {
    let mut s = session(10_000_000, 5000, 51);
    s.received = 9000;
    let many: Vec<u16> = (0..611).collect();
    let (nack, sid) = s.missing_report(&many);
    assert_eq!(nack.len(), 12);
    assert_eq!(&nack[10..12], &[0xff, 0xff]);
    assert_eq!(sid, (1..=26).collect::<Vec<u16>>());
    assert_eq!(s.flow_window, 26);
    assert_eq!(s.received, 5000);
    assert!(s.repair_mode);
}

#[test]
fn completed_block_moves_on() {
    let mut s = session(1_000_000, 0, 8);
    s.congestion_window = 16;
    let (ack, slice, trunc) = s.complete_block(10160);
    let a = AckPacket::deserialize(&ack).unwrap();
    assert_eq!(a.length, 0);
    assert_eq!(a.block_id, 1);
    assert_eq!(slice, 10160);
    assert!(trunc);
    assert_eq!(s.offset, 10160);
    assert_eq!(s.flow_window, 16);
    assert_eq!(s.block_id, 1);
}

#[test]
fn first_block_of_a_fresh_download_truncates() {
    let mut s = session(1_000_000, 0, 8);
    s.block_id = 0;
    let (_, _, trunc) = s.complete_block(100);
    assert!(trunc);
    let mut s = session(1_000_000, 1270, 8);
    let (_, _, trunc) = s.complete_block(100);
    assert!(!trunc);
    let mut s = ClientSession::create();
    s.block_id = u32::MAX - 1;
    let (_, slice, trunc) = s.complete_block(100);
    assert_eq!(slice, 100);
    assert!(!trunc);
}

#[test]
fn completed_block_after_loss_halves_the_window() {
    let mut s = session(1_000_000, 0, 9);
    s.retransmission = true;
    s.complete_block(10000);
    assert_eq!(s.flow_window, 5);
    assert!(!s.slow_start);
    let mut s = session(1_000_000, 0, 9);
    s.retransmission = true;
    s.repair_mode = true;
    s.complete_block(10000);
    assert_eq!(s.flow_window, 9);
    assert_eq!(s.congestion_window, 9);
    assert!(!s.repair_mode);
}

#[test]
fn response_decides_how_to_go_on() {
    let res = ResponsePacket { connection_id: 77, fields: 0x80, block_id: 3, file_hash: [4; 32], file_size: 999 };
    let mut s = ClientSession::create();
    assert_eq!(s.on_response(&res, &vec![], 500), ResponseAction::NewDownload);
    assert_eq!(s.connection_id, 77);
    assert_eq!(s.offset, 0);
    let mut s = ClientSession::create();
    assert_eq!(s.on_response(&res, &vec![5; 32], 500), ResponseAction::Restart);
    assert_eq!(s.connection_id, 0);
    let mut s = ClientSession::create();
    assert_eq!(s.on_response(&res, &vec![4; 32], 500), ResponseAction::Resume);
    assert_eq!(s.offset, 500);
    assert_eq!(s.received, 500);
    assert_eq!(s.file_size, 999);
    assert_eq!(s.block_id, 3);
}

#[test]
fn verdict_compares_the_hashes() {
    let mut s = ClientSession::create();
    s.file_hash = [1; 32];
    assert_eq!(s.transfer_verdict(&vec![1; 32]), Verdict::Verified);
    assert_eq!(s.transfer_verdict(&vec![2; 32]), Verdict::Corrupted);
    s.retransmission = true;
    assert_eq!(s.transfer_verdict(&vec![1; 32]), Verdict::Incomplete);
}

#[test]
fn missing_packets_are_asked_for_three_times() {
    let mut s = session(100, 0, 8);
    assert_eq!(s.after_receive(false, 0), ReceiveStep::Retry);
    assert!(s.retransmission);
    assert_eq!(s.after_receive(false, 1), ReceiveStep::Retry);
    assert_eq!(s.after_receive(false, 2), ReceiveStep::Retry);
    assert_eq!(s.after_receive(false, 3), ReceiveStep::GiveUp);
    assert!(s.retransmission);
    assert_eq!(s.after_receive(true, 2), ReceiveStep::NextBlock);
    assert!(!s.retransmission);
    s.received = 100;
    assert_eq!(s.after_receive(true, 0), ReceiveStep::Finished);
}
