//! What the two ends of a transfer promise together: the packets the server
//! cuts a block into cover the block exactly, and the client puts each
//! payload back where the server cut it from.

use vstd::prelude::*;
use crate::client::ClientSession;
use crate::server::{block_sids, ceil_div, data_start, min_u16, ConnectionStore, MAX_FLOW_WINDOW};
use crate::utils::{packet_size, DATA_SIZE};

verus! {

/// The arithmetic of one data packet of a block of `b` bytes out of a window
/// of `w` bytes and `r` remaining bytes: it starts within the block, ends
/// within it, and the last one ends at the end of the block.
proof fn lemma_packet_span(w: nat, r: nat, b: nat, n: nat, flow: nat, seq: nat)
    requires
        w == flow * 1270,
        b == if w > r {
            r
        } else {
            w
        },
        n == ceil_div(b, 1270),
        1 <= seq <= n,
    ensures
        (seq - 1) * 1270 < b,
        r < seq * 1270 ==> b == r && r - (seq - 1) * 1270 < 1270,
        r >= seq * 1270 ==> seq * 1270 <= b,
        seq == n && r >= seq * 1270 ==> seq * 1270 == b,
        n <= flow,
{
    assert(n * 1270 >= b && (n - 1) * 1270 < b) by (nonlinear_arith)
        requires
            n == (b + 1269) / 1270,
            n >= 1,
    ;
    assert((seq - 1) * 1270 <= (n - 1) * 1270) by (nonlinear_arith)
        requires
            seq <= n,
            seq >= 1,
    ;
    assert(n <= flow) by (nonlinear_arith)
        requires
            n == (b + 1269) / 1270,
            b <= flow * 1270,
    ;
    assert(seq * 1270 <= flow * 1270) by (nonlinear_arith)
        requires
            seq <= n,
            n <= flow,
    ;
    if r < seq * 1270 {
        assert(r - (seq - 1) * 1270 < 1270) by (nonlinear_arith)
            requires
                r < seq * 1270,
        ;
        if w <= r {
            assert(false) by (nonlinear_arith)
                requires
                    w == flow * 1270,
                    w <= r,
                    r < seq * 1270,
                    seq * 1270 <= flow * 1270,
            ;
        }
    }
    if seq == n && r >= seq * 1270 {
        assert(seq * 1270 == b) by (nonlinear_arith)
            requires
                seq == n,
                n * 1270 >= b,
                r >= seq * 1270,
                seq * 1270 <= flow * 1270,
                w == flow * 1270,
                b == if w > r {
                    r
                } else {
                    w
                },
        ;
    }
}

/// The data packets of a block, as the server plans them, tile the block:
/// packet `k` starts `k` payloads in, none reaches past the end, the last
/// one ends where the block ends, and the block is never wider than the
/// server's maximum window. Cutting them never runs past the end of the
/// file.
pub proof fn block_tiling<E>(c: ConnectionStore<E>)
    requires
        c.wf(),
    ensures
        ({
            let sids = block_sids(c.file_size, c.sent, c.flow_window);
            let b = c.block_bytes(c.flow_window);
            &&& sids.len() <= MAX_FLOW_WINDOW
            &&& b > 0 ==> sids.len() > 0
            &&& forall|k: int|
                0 <= k < sids.len() ==> {
                    &&& #[trigger] sids[k] == k + 1
                    &&& data_start(sids[k]) == k * DATA_SIZE
                    &&& data_start(sids[k]) < b
                    &&& data_start(sids[k]) + c.data_len(c.sent, sids[k]) <= b
                    &&& (c.file_size < c.sent + sids[k] * DATA_SIZE ==> c.sent + data_start(sids[k])
                        <= c.file_size)
                }
            &&& sids.len() > 0 ==> data_start(sids.last()) + c.data_len(c.sent, sids.last()) == b
        }),
{
    let sids = block_sids(c.file_size, c.sent, c.flow_window);
    let w = c.flow_window as nat * 1270;
    let r = (c.file_size - c.sent) as nat;
    let b = c.block_bytes(c.flow_window);
    let n = ceil_div(b, 1270);
    assert(sids.len() == n);
    if n >= 1 {
        lemma_packet_span(w, r, b, n, c.flow_window as nat, n);
    } else {
        assert(b == 0) by (nonlinear_arith)
            requires
                n == (b + 1269) / 1270,
                n == 0,
        ;
    }
    if b > 0 {
        assert(n >= 1) by (nonlinear_arith)
            requires
                n == (b + 1269) / 1270,
                b > 0,
        ;
    }
    assert forall|k: int| 0 <= k < sids.len() implies {
        &&& #[trigger] sids[k] == k + 1
        &&& data_start(sids[k]) == k * DATA_SIZE
        &&& data_start(sids[k]) < b
        &&& data_start(sids[k]) + c.data_len(c.sent, sids[k]) <= b
        &&& (c.file_size < c.sent + sids[k] * DATA_SIZE ==> c.sent + data_start(sids[k]) <= c.file_size)
    } by {
        let seq = (k + 1) as nat;
        lemma_packet_span(w, r, b, n, c.flow_window as nat, seq);
        assert(sids[k] == k + 1);
    }
    if n >= 1 {
        let seq = n;
        lemma_packet_span(w, r, b, n, c.flow_window as nat, seq);
        assert(sids.last() == n);
    }
}

/// The client puts each payload of a block back where the server cut it
/// from: where both ends agree on the file size, the window and the offset
/// of the block, the client's block has the server's size and every data
/// packet of the server's plan fills exactly the span it was cut from.
pub proof fn client_reassembles_block<E>(c: ConnectionStore<E>, session: ClientSession)
    requires
        c.wf(),
        session.file_size == c.file_size,
        session.offset == c.sent,
        session.flow_window == c.flow_window,
    ensures
        session.block_limit() == c.block_bytes(c.flow_window),
        forall|k: int|
            0 <= k < block_sids(c.file_size, c.sent, c.flow_window).len() ==> {
                let seq = #[trigger] block_sids(c.file_size, c.sent, c.flow_window)[k];
                &&& ClientSession::fill_start(seq) == data_start(seq)
                &&& session.fill_end(seq) == data_start(seq) + c.data_len(c.sent, seq)
            },
{
    let sids = block_sids(c.file_size, c.sent, c.flow_window);
    let w = c.flow_window as nat * 1270;
    let r = (c.file_size - c.sent) as nat;
    let b = c.block_bytes(c.flow_window);
    let n = ceil_div(b, 1270);
    assert forall|k: int| 0 <= k < sids.len() implies {
        let seq = #[trigger] sids[k];
        &&& ClientSession::fill_start(seq) == data_start(seq)
        &&& session.fill_end(seq) == data_start(seq) + c.data_len(c.sent, seq)
    } by {
        let seq = (k + 1) as nat;
        assert(sids[k] == k + 1);
        lemma_packet_span(w, r, b, n, c.flow_window as nat, seq);
        if r < seq * 1270 {
            assert(packet_size((r - (seq - 1) * 1270) as nat) == r - (seq - 1) * 1270);
        }
    }
}

/// Without loss, the size a block's metadata announces is the window the
/// next block is sent with, as far as packets are left: where the window
/// follows its slow start value and the client keeps announcing the same
/// window, acknowledging the block sets the window the metadata announced.
pub proof fn announced_window_is_next_window<E>(c: ConnectionStore<E>, client_flow: u16, still_to_send: u16)
    requires
        c.wf(),
        !c.retransmission,
        !c.repair_mode,
        c.slow_start_next_block == c.flow_window,
        c.client_max_flow == client_flow,
    ensures
        c.announced_block_size(c.flow_window, still_to_send) == min_u16(
            c.after_ack(client_flow).flow_window,
            still_to_send,
        ),
        c.after_ack(client_flow).flow_window <= MAX_FLOW_WINDOW,
{
}

/// How an acknowledged block (not the last one) moves a connection's window:
/// - after a block that needed retransmission, outside repair mode, the
///   window is half the slow start window, rounded up, but no more than the
///   client takes, whether or not slow start was still on; slow start is
///   over;
/// - after a block without loss in slow start, the window doubles, within
///   the server's maximum and what the client takes;
/// - after a block without loss past slow start, it grows by one, within the
///   same limits;
/// - at the end of repair mode the window stays as it is.
/// In every case the next block starts where this one ended.
pub proof fn window_after_acknowledged_block<E>(c: ConnectionStore<E>, client_flow: u16)
    requires
        c.wf(),
        !c.completes(),
        c.block_id < u32::MAX,
    ensures
        ({
            let n = c.after_ack(client_flow);
            let old_ss = c.slow_start_next_block as int;
            &&& c.retransmission && !c.repair_mode ==> {
                &&& n.flow_window <= (old_ss + 1) / 2
                &&& n.flow_window <= client_flow
                &&& (n.flow_window == (old_ss + 1) / 2 || n.flow_window == client_flow)
                &&& n.slow_start_next_block == n.flow_window
                &&& !n.slow_start
                &&& !n.retransmission
            }
            &&& !c.retransmission && !c.repair_mode && c.slow_start ==> {
                &&& n.flow_window <= 2 * old_ss
                &&& n.flow_window <= MAX_FLOW_WINDOW
                &&& n.flow_window <= client_flow
                &&& (n.flow_window == 2 * old_ss || n.flow_window == MAX_FLOW_WINDOW
                    || n.flow_window == client_flow)
                &&& n.slow_start
            }
            &&& !c.retransmission && !c.repair_mode && !c.slow_start ==> {
                &&& n.flow_window <= old_ss + 1
                &&& n.flow_window <= MAX_FLOW_WINDOW
                &&& n.flow_window <= client_flow
                &&& (n.flow_window == old_ss + 1 || n.flow_window == MAX_FLOW_WINDOW
                    || n.flow_window == client_flow)
                &&& !n.slow_start
            }
            &&& c.repair_mode ==> n.flow_window == c.flow_window && !n.repair_mode && !n.slow_start
            &&& n.sent == c.sent + 1270 * c.flow_window
            &&& n.block_id == c.block_id + 1
        }),
{
}

} // verus!
