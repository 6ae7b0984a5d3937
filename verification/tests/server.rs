use rft::packets::{AckPacket, DataPacket, MetadataPacket};
use rft::server::{AckOutcome, ServerCore};

fn core_with(size: u64, flow: u16, offset: u64) -> ServerCore<String> {
    let mut core: ServerCore<String> = ServerCore::create();
    core.create_state(7, "file.bin", size, flow, offset, String::from("peer"));
    core
}

fn ack(connection_id: u32, length: u16, sids: Vec<u16>) -> AckPacket {
    AckPacket { connection_id, fields: 0x80, block_id: 0, flow_window: 50, length, sid_list: sids }
}

#[test]
fn connection_ids_are_fresh_and_in_range() {
    let core = core_with(10, 8, 0);
    for _ in 0..200 {
        if let Some(id) = core.try_conn_id() {
            assert!(id >= 1 && id < (1 << 23));
            assert_ne!(id, 7);
        }
    }
}

#[test]
fn drawn_id_is_handed_out_unless_taken() {
    let core = core_with(10, 8, 0);
    assert_eq!(core.admit_conn_id(7), None);
    assert_eq!(core.admit_conn_id(8), Some(8));
    let empty: ServerCore<String> = ServerCore::create();
    assert!(empty.try_conn_id().is_some());
}

#[test]
fn requested_flow_window_is_capped_by_the_default() {
    assert_eq!(ServerCore::<String>::request_flow_window(0), 0);
    assert_eq!(ServerCore::<String>::request_flow_window(4), 4);
    assert_eq!(ServerCore::<String>::request_flow_window(100), 8);
}

#[test]
fn new_connection_starts_in_slow_start() {
    let core = core_with(5000, 20, 100);
    let c = core.states.get(&7).unwrap();
    assert_eq!(c.flow_window, 8);
    assert_eq!(c.sent, 100);
    assert_eq!(c.block_id, 0);
    assert!(c.slow_start);
    assert_eq!(c.slow_start_next_block, 8);
    assert_eq!(c.client_max_flow, u16::MAX);
    assert_eq!(c.file, "file.bin");
    assert_eq!(c.endpoint, "peer");
    assert!(core.has_connection(7));
    assert!(!core.has_connection(8));
}

#[test]
fn block_plan_of_a_short_file() {
    let core = core_with(10000, 8, 0);
    let plan = core.next_block_plan(&7).unwrap();
    assert_eq!(plan.sids, (1..=8).collect::<Vec<u16>>());
    assert_eq!(plan.file_offset, 0);
    assert_eq!(plan.flow_window, 8);
    let m = MetadataPacket::deserialize(&plan.metadata).unwrap();
    assert_eq!(m.new_block_size, 0);
    assert!(core.next_block_plan(&8).is_none());
}

#[test]
fn block_plan_announces_a_doubled_window() {
    let core = core_with(100000, 8, 0);
    let plan = core.next_block_plan(&7).unwrap();
    assert_eq!(plan.sids.len(), 8);
    let m = MetadataPacket::deserialize(&plan.metadata).unwrap();
    assert_eq!(m.new_block_size, 16);
    assert_eq!(m.block_id, 0);
    assert_eq!(m.connection_id, 7);
}

#[test]
fn window_doubles_in_slow_start_until_the_maximum() {
    let mut core = core_with(10_000_000, 8, 0);
    assert_eq!(core.acknowledge_block(7, 50), AckOutcome::NextBlock);
    let c = core.states.get(&7).unwrap();
    assert_eq!(c.flow_window, 16);
    assert_eq!(c.sent, 8 * 1270);
    assert_eq!(c.block_id, 1);
    assert_eq!(core.acknowledge_block(7, 50), AckOutcome::NextBlock);
    assert_eq!(core.states.get(&7).unwrap().flow_window, 32);
    assert_eq!(core.acknowledge_block(7, 50), AckOutcome::NextBlock);
    let c = core.states.get(&7).unwrap();
    assert_eq!(c.flow_window, 50);
    assert_eq!(c.slow_start_next_block, 50);
    assert_eq!(c.sent, (8 + 16 + 32) * 1270);
}

#[test]
fn window_is_capped_by_the_client() {
    let mut core = core_with(10_000_000, 8, 0);
    assert_eq!(core.acknowledge_block(7, 10), AckOutcome::NextBlock);
    let c = core.states.get(&7).unwrap();
    assert_eq!(c.flow_window, 10);
    assert_eq!(c.client_max_flow, 10);
}

#[test]
fn loss_halves_the_window_and_ends_slow_start() {
    let mut core = core_with(10_000_000, 8, 0);
    core.acknowledge_block(7, 50);
    let (sids, offset, flow) = core.prepare_retransmission(&ack(7, 2, vec![3, 5])).unwrap();
    assert_eq!(sids, vec![3, 5]);
    assert_eq!(offset, 8 * 1270);
    assert_eq!(flow, 16);
    assert!(core.states.get(&7).unwrap().retransmission);
    assert_eq!(core.acknowledge_block(7, 50), AckOutcome::NextBlock);
    let c = core.states.get(&7).unwrap();
    assert_eq!(c.flow_window, 8);
    assert!(!c.slow_start);
    assert!(!c.retransmission);
    assert_eq!(core.acknowledge_block(7, 50), AckOutcome::NextBlock);
    assert_eq!(core.states.get(&7).unwrap().flow_window, 9);
}

#[test]
fn repair_mode_resends_the_whole_halved_block() {
    let mut core = core_with(10_000_000, 8, 0);
    core.acknowledge_block(7, 50);
    let (sids, _, flow) = core.prepare_retransmission(&ack(7, 0xffff, vec![])).unwrap();
    assert_eq!(flow, 8);
    assert_eq!(sids, (1..=8).collect::<Vec<u16>>());
    let c = core.states.get(&7).unwrap();
    assert!(c.repair_mode);
    assert_eq!(c.slow_start_next_block, 8);
    assert_eq!(core.acknowledge_block(7, 50), AckOutcome::NextBlock);
    let c = core.states.get(&7).unwrap();
    assert!(!c.repair_mode);
    assert!(!c.slow_start);
    assert_eq!(c.flow_window, 8);
}

#[test]
fn last_block_finishes_the_connection() {
    let mut core = core_with(5000, 8, 0);
    assert_eq!(core.acknowledge_block(7, 50), AckOutcome::Finished);
    assert!(!core.has_connection(7));
    assert_eq!(core.acknowledge_block(7, 50), AckOutcome::UnknownConnection);
    assert!(core.prepare_retransmission(&ack(7, 1, vec![1])).is_none());
}

#[test]
fn endpoint_follows_the_client() {
    let mut core = core_with(5000, 8, 0);
    assert!(core.set_endpoint(7, String::from("elsewhere")));
    assert_eq!(core.states.get(&7).unwrap().endpoint, "elsewhere");
    assert!(!core.set_endpoint(9, String::from("x")));
    core.remove_state(7);
    assert!(!core.has_connection(7));
}

#[test]
fn block_packets_cover_the_block() {
    let core = core_with(3000, 8, 0);
    let size = core.block_window_size(&7, 8).unwrap();
    assert_eq!(size, 3000);
    let block: Vec<u8> = (0..3000u32).map(|i| (i % 253) as u8).collect();
    let mut rebuilt = Vec::new();
    for seq in 1..=3u16 {
        let p = core.block_packet(&7, seq, &block, 0, 8).unwrap();
        let d = DataPacket::deserialize(&p).unwrap();
        assert_eq!(d.sequence_id, seq);
        rebuilt.extend_from_slice(&d.data);
    }
    assert_eq!(rebuilt, block);
    let m = core.block_packet(&7, 0, &block, 0, 8).unwrap();
    let m = MetadataPacket::deserialize(&m).unwrap();
    assert_eq!(m.new_block_size, 3);
    assert!(core.block_packet(&7, 3, &block[0..2000].to_vec(), 0, 8).is_err());
    assert!(core.block_window_size(&8, 8).is_none());
}

#[test]
fn new_sids_count_payloads() {
    let core = core_with(3000, 8, 0);
    assert_eq!(core.create_new_sid(3000, 0, 8), vec![1, 2, 3]);
    assert_eq!(core.create_new_sid(3000, 3000, 8), Vec::<u16>::new());
    assert_eq!(core.create_new_sid(100000, 0, 2), vec![1, 2]);
}
