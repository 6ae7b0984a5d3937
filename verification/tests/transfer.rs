use rft::client::ClientSession;
use rft::packets::{DataPacket, MetadataPacket};
use rft::server::ServerCore;

#[test]
fn client_rebuilds_the_block_the_server_cut() {
    for (size, offset) in [(3000u64, 0u64), (25400, 0), (30000, 1270 * 3), (1, 0)] {
        let mut core: ServerCore<u8> = ServerCore::create();
        core.create_state(1, "f", size, 8, offset, 0);
        let plan = core.next_block_plan(&1).unwrap();
        let window = core.block_window_size(&1, plan.flow_window).unwrap();
        let block: Vec<u8> = (0..window as u32).map(|i| (i % 241) as u8 + 1).collect();

        let mut s = ClientSession::create();
        s.file_size = size;
        s.offset = offset;
        s.received = offset;
        s.flow_window = plan.flow_window;
        s.connection_id = 1;
        let mut buf = vec![0u8; window];
        for seq in plan.sids.iter().rev() {
            let p = core.block_packet(&1, *seq, &block, plan.file_offset, plan.flow_window).unwrap();
            let d = DataPacket::deserialize(&p).unwrap();
            s.fill_window_buffer(&mut buf, &d);
        }
        assert_eq!(buf, block);
    }
}

#[test]
fn announced_size_is_the_next_window() {
    let mut core: ServerCore<u8> = ServerCore::create();
    core.create_state(1, "f", 100_000_000, 8, 0, 0);
    core.acknowledge_block(1, 50);
    for _ in 0..5 {
        let plan = core.next_block_plan(&1).unwrap();
        let announced = MetadataPacket::deserialize(&plan.metadata).unwrap().new_block_size;
        core.acknowledge_block(1, 50);
        assert_eq!(core.states.get(&1).unwrap().flow_window, announced);
    }
}
