//! The client side of a transfer: what it expects of each block, where the
//! data of each packet lands, what it reports as missing, and how it adapts
//! its flow window.

use vstd::prelude::*;
use crate::packets::{ack_wire, AckPacket, DataPacket, MetadataPacket, ResponsePacket};
use crate::server::{first_sids, half_up, min_u16, saturate_u16, ceil_div};
use crate::utils::{compare_hashes, DATA_SIZE};

verus! {

/// Flow window a download starts with.
pub const START_FLOW_WINDOW: u16 = 8;

/// Flow window the client announces in its acknowledgments.
pub const MAX_FLOW_WINDOW: u16 = 50;

/// How many times the missing packets of a block are asked for again.
pub const MAX_RETRANSMISSION: usize = 3;

/// More missing packets than this send the transfer into repair mode.
pub const REPAIR_THRESHOLD: usize = 610;

/// What a client keeps of the download in progress.
pub struct ClientSession {
    pub received: u64,
    pub offset: u64,
    pub connection_id: u32,
    pub flow_window: u16,
    pub congestion_window: u16,
    pub block_id: u32,
    pub file_hash: [u8; 32],
    pub file_size: u64,
    pub server: String,
    pub filename: String,
    pub retransmission: bool,
    pub slow_start: bool,
    pub repair_mode: bool,
}

/// How a packet relates to the block being received.
#[derive(Clone, Copy, Debug, PartialEq, Eq, Structural)]
pub enum PacketCheck {
    WrongConnection,
    WrongBlock,
    Matches,
}

/// What the client does on the server's response.
#[derive(Clone, Copy, Debug, PartialEq, Eq, Structural)]
pub enum ResponseAction {
    /// No earlier download: start from the beginning.
    NewDownload,
    /// The file changed since the earlier download: ask for it anew.
    Restart,
    /// The file is unchanged: go on from where the earlier download ended.
    Resume,
}

/// What the hash of a downloaded file shows.
#[derive(Clone, Copy, Debug, PartialEq, Eq, Structural)]
pub enum Verdict {
    /// The transfer ended without all packets: nothing to check.
    Incomplete,
    /// The hash differs from the server's.
    Corrupted,
    /// The hash is the server's.
    Verified,
}

/// What follows one reception of a block.
#[derive(Clone, Copy, Debug, PartialEq, Eq, Structural)]
pub enum ReceiveStep {
    /// The whole file has arrived.
    Finished,
    /// The block is complete; the next one follows.
    NextBlock,
    /// Packets are missing; they are asked for again.
    Retry,
    /// Packets are still missing after every retransmission; the file is
    /// given up.
    GiveUp,
}

/// The ids `0 ..= count`: the metadata packet and the data packets of a
/// block.
pub open spec fn expected_sids(count: nat) -> Seq<u16> {
    Seq::new(count + 1, |i: int| i as u16)
}

/// `list` without `element`.
pub open spec fn without(list: Seq<u16>, element: u16) -> Seq<u16> {
    list.filter(|x: u16| x != element)
}

impl ClientSession {
    pub open spec fn block_limit(&self) -> nat {
        let window = self.flow_window as nat * DATA_SIZE as nat;
        let remain = (self.file_size - self.offset) as nat;
        if window > remain {
            remain
        } else {
            window
        }
    }

    /// Where the payload of data packet `seq` goes in the block buffer:
    /// its share of the block, cut at the end of the block.
    pub open spec fn fill_start(seq: u16) -> nat {
        ((seq - 1) * DATA_SIZE as int) as nat
    }

    pub open spec fn fill_end(&self, seq: u16) -> nat {
        let end = seq as nat * DATA_SIZE as nat;
        if end > self.block_limit() {
            self.block_limit()
        } else {
            end
        }
    }

    /// Whether the payload of `seq` can be put in place: it starts within
    /// the block and the buffer, and carries enough bytes.
    pub open spec fn fill_fits(&self, seq: u16, buf_len: nat, data_len: nat) -> bool {
        let start = Self::fill_start(seq);
        let end = self.fill_end(seq);
        &&& start <= self.block_limit()
        &&& start <= buf_len
        &&& end <= buf_len
        &&& end - start <= data_len
    }

    pub fn create() -> (r: Self)
        ensures
            r.received == 0,
            r.offset == 0,
            r.connection_id == 0,
            r.flow_window == START_FLOW_WINDOW,
            r.congestion_window == START_FLOW_WINDOW,
            r.block_id == 0,
            r.file_hash@ == Seq::new(32, |i: int| 0u8),
            r.file_size == 0,
            r.server@ == Seq::<char>::empty(),
            r.filename@ == Seq::<char>::empty(),
            !r.retransmission,
            r.slow_start,
            !r.repair_mode,
    {
        let r = ClientSession {
            received: 0,
            offset: 0,
            connection_id: 0,
            flow_window: START_FLOW_WINDOW,
            congestion_window: START_FLOW_WINDOW,
            block_id: 0,
            file_hash: [0; 32],
            file_size: 0,
            server: String::new(),
            filename: String::new(),
            retransmission: false,
            slow_start: true,
            repair_mode: false,
        };
        assert(r.file_hash@ =~= Seq::new(32, |i: int| 0u8));
        r
    }

    /// Forgets the progress of the previous file, keeping the connection's
    /// identity.
    pub fn reset_client(&mut self)
        ensures
            *final(self) == (ClientSession {
                received: 0,
                offset: 0,
                flow_window: START_FLOW_WINDOW,
                congestion_window: START_FLOW_WINDOW,
                slow_start: true,
                repair_mode: false,
                retransmission: false,
                ..*old(self)
            }),
    {
        self.received = 0;
        self.offset = 0;
        self.flow_window = START_FLOW_WINDOW;
        self.congestion_window = START_FLOW_WINDOW;
        self.slow_start = true;
        self.repair_mode = false;
        self.retransmission = false;
    }

    /// The ids expected in a block of `flow_window` data packets: zero for
    /// the metadata packet, then one per data packet.
    pub fn create_new_sid(&self, flow_window: u16) -> (r: Vec<u16>)
        requires
            flow_window < u16::MAX,
        ensures
            r@ == expected_sids(flow_window as nat),
    {
        let mut list: Vec<u16> = Vec::new();
        let mut i: u16 = 0;
        while i < flow_window + 1
            invariant
                i <= flow_window + 1,
                flow_window < u16::MAX,
                list@ == expected_sids(i as nat).take(i as int),
            decreases flow_window + 1 - i,
        {
            list.push(i);
            i = i + 1;
            assert(list@ =~= expected_sids(i as nat).take(i as int));
        }
        assert(list@ =~= expected_sids(flow_window as nat));
        list
    }

    /// `list` without the entries equal to `element`, in order.
    pub fn remove_from_list(&self, list: &Vec<u16>, element: u16) -> (r: Vec<u16>)
        ensures
            r@ == without(list@, element),
    {
        let mut new_list: Vec<u16> = Vec::new();
        let mut i: usize = 0;
        while i < list.len()
            invariant
                i <= list@.len(),
                new_list@ == without(list@.take(i as int), element),
            decreases list@.len() - i,
        {
            let seq = list[i];
            let ghost next = list@.take(i + 1);
            proof {
                assert(next.drop_last() =~= list@.take(i as int));
                assert(next.last() == seq);
            }
            if seq != element {
                new_list.push(seq);
            }
            proof {
                reveal(Seq::filter);
            }
            assert(new_list@ == without(next, element));
            i = i + 1;
        }
        assert(list@.take(list@.len() as int) =~= list@);
        new_list
    }

    /// The number of data packets of the next block and the bytes it holds:
    /// a full window, or what is left of the file.
    pub fn compute_block_params(&self) -> (r: (u16, usize))
        requires
            self.received <= self.file_size,
        ensures
            ({
                let remain = (self.file_size - self.received) as nat;
                let window = self.flow_window as nat * DATA_SIZE as nat;
                let bytes = if window > remain {
                    remain
                } else {
                    window
                };
                &&& r.1 == bytes
                &&& r.0 == if bytes == remain {
                    saturate_u16(ceil_div(remain, DATA_SIZE as nat))
                } else {
                    self.flow_window
                }
            }),
    {
        let remain = self.file_size - self.received;
        assert(self.flow_window as u64 * DATA_SIZE as u64 <= 1270 * 65535) by (nonlinear_arith)
            requires
                DATA_SIZE == 1270,
        ;
        let mut window_size = self.flow_window as u64 * DATA_SIZE as u64;
        if window_size > remain {
            window_size = remain;
        }
        let mut iterations = self.flow_window;
        if window_size == remain {
            let packets = (remain + DATA_SIZE as u64 - 1) / DATA_SIZE as u64;
            iterations = if packets > 65535 {
                65535
            } else {
                packets as u16
            };
        }
        (iterations, window_size as usize)
    }

    /// Copies the payload of a data packet into its place in the block
    /// buffer and says how many bytes it placed; nothing where it does not
    /// fit.
    pub fn fill_window_buffer(&mut self, buf: &mut Vec<u8>, data: &DataPacket) -> (r: u64)
        requires
            data.sequence_id >= 1,
            old(self).offset <= old(self).file_size,
        ensures
            *final(self) == *old(self),
            ({
                let start = Self::fill_start(data.sequence_id);
                let end = old(self).fill_end(data.sequence_id);
                if old(self).fill_fits(data.sequence_id, old(buf)@.len(), data.data@.len()) {
                    &&& r == end - start
                    &&& final(buf)@ == old(buf)@.subrange(0, start as int) + data.data@.subrange(
                        0,
                        end - start,
                    ) + old(buf)@.subrange(end as int, old(buf)@.len() as int)
                } else {
                    &&& r == 0
                    &&& final(buf)@ == old(buf)@
                }
            }),
    {
        let start = (data.sequence_id - 1) as usize * DATA_SIZE;
        let remain = self.file_size - self.offset;
        assert(self.flow_window as u64 * DATA_SIZE as u64 <= 1270 * 65535) by (nonlinear_arith)
            requires
                DATA_SIZE == 1270,
        ;
        let mut block_size = self.flow_window as u64 * DATA_SIZE as u64;
        if block_size > remain {
            block_size = remain;
        }
        let block_size = block_size as usize;
        if start > block_size {
            return 0;
        }
        let mut end = data.sequence_id as usize * DATA_SIZE;
        if end > block_size {
            end = block_size;
        }
        let p_size = end - start;
        if start > buf.len() || end > buf.len() {
            return 0;
        }
        if p_size > data.data.len() {
            return 0;
        }
        let ghost before = buf@;
        let mut k: usize = 0;
        while k < p_size
            invariant
                start + p_size == end <= buf@.len(),
                p_size <= data.data@.len(),
                k <= p_size,
                buf@.len() == before.len(),
                forall|j: int| 0 <= j < start ==> buf@[j] == before[j],
                forall|j: int| end <= j < before.len() ==> buf@[j] == before[j],
                forall|j: int| start <= j < start + k ==> buf@[j] == data.data@[j - start],
            decreases p_size - k,
        {
            buf.set(start + k, data.data[k]);
            k = k + 1;
        }
        assert(buf@ =~= before.subrange(0, start as int) + data.data@.subrange(0, p_size as int)
            + before.subrange(end as int, before.len() as int));
        p_size as u64
    }

    /// Tells whether a data or metadata packet belongs to the block being
    /// received.
    pub fn check_packet(&self, connection_id: u32, block_id: u32) -> (r: PacketCheck)
        ensures
            r == if connection_id != self.connection_id {
                PacketCheck::WrongConnection
            } else if block_id != self.block_id {
                PacketCheck::WrongBlock
            } else {
                PacketCheck::Matches
            },
    {
        if connection_id != self.connection_id {
            PacketCheck::WrongConnection
        } else if block_id != self.block_id {
            PacketCheck::WrongBlock
        } else {
            PacketCheck::Matches
        }
    }

    /// Takes in a data packet of the block: its payload is put in place, its
    /// id is no longer expected and the bytes placed count as received.
    pub fn accept_data(&mut self, buf: &mut Vec<u8>, data: &DataPacket, sid: &Vec<u16>) -> (r: Vec<u16>)
        requires
            data.sequence_id >= 1,
            old(self).offset <= old(self).file_size,
            old(self).received + DATA_SIZE <= u64::MAX,
        ensures
            r@ == without(sid@, data.sequence_id),
            ({
                let placed = if old(self).fill_fits(data.sequence_id, old(buf)@.len(), data.data@.len()) {
                    old(self).fill_end(data.sequence_id) - Self::fill_start(data.sequence_id)
                } else {
                    0
                };
                *final(self) == (ClientSession { received: (old(self).received + placed) as u64, ..*old(self) })
            }),
            final(buf)@.len() == old(buf)@.len(),
    {
        let size = self.fill_window_buffer(buf, data);
        let new_sid = self.remove_from_list(sid, data.sequence_id);
        assert(size <= DATA_SIZE);
        self.received = self.received + size;
        new_sid
    }

    /// Takes in the metadata packet of the block: the size it announces is
    /// the window of the next block, and its id is no longer expected.
    pub fn accept_metadata(&mut self, metadata: &MetadataPacket, sid: &Vec<u16>) -> (r: Vec<u16>)
        ensures
            *final(self) == (ClientSession { congestion_window: metadata.new_block_size, ..*old(self) }),
            metadata.sequence_id <= 65535 ==> r@ == without(sid@, metadata.sequence_id as u16),
            metadata.sequence_id > 65535 ==> r@ == sid@,
    {
        self.congestion_window = metadata.new_block_size;
        if metadata.sequence_id <= 65535 {
            self.remove_from_list(sid, metadata.sequence_id as u16)
        } else {
            sid.clone()
        }
    }

    /// Reports the packets of a block that did not arrive. More than
    /// `REPAIR_THRESHOLD` missing ones enter repair mode: the block is
    /// received again from its start with the window halved, and the report
    /// carries the length `0xffff` and no ids. Otherwise the report lists the
    /// missing ids. Gives the report and the ids expected from now on.
    pub fn missing_report(&mut self, sid: &Vec<u16>) -> (r: (Vec<u8>, Vec<u16>))
        requires
            sid@.len() > 0,
        ensures
            sid@.len() > REPAIR_THRESHOLD ==> {
                &&& *final(self) == (ClientSession {
                    received: old(self).offset,
                    flow_window: half_up(old(self).flow_window),
                    repair_mode: true,
                    ..*old(self)
                })
                &&& r.0@ == ack_wire(
                    old(self).connection_id,
                    old(self).block_id,
                    MAX_FLOW_WINDOW,
                    0xffff,
                    Seq::empty(),
                )
                &&& r.1@ == first_sids(half_up(old(self).flow_window) as nat)
            },
            sid@.len() <= REPAIR_THRESHOLD ==> {
                &&& *final(self) == *old(self)
                &&& r.0@ == ack_wire(
                    old(self).connection_id,
                    old(self).block_id,
                    MAX_FLOW_WINDOW,
                    sid@.len() as u16,
                    sid@,
                )
                &&& r.1@ == sid@
            },
    {
        let missing_len: u16;
        let mut vec: Vec<u16> = Vec::with_capacity(sid.len());
        let new_sid: Vec<u16>;
        if sid.len() > REPAIR_THRESHOLD {
            missing_len = 0xffff;
            self.received = self.offset;
            self.flow_window = ((self.flow_window as u32 + 1) / 2) as u16;
            self.repair_mode = true;
            let mut fresh: Vec<u16> = Vec::new();
            let mut i: u16 = 1;
            while i < self.flow_window + 1
                invariant
                    1 <= i <= self.flow_window + 1,
                    self.flow_window < u16::MAX,
                    fresh@ == first_sids((i - 1) as nat),
                decreases self.flow_window + 1 - i,
            {
                fresh.push(i);
                i = i + 1;
                assert(fresh@ =~= first_sids((i - 1) as nat));
            }
            new_sid = fresh;
        } else {
            missing_len = sid.len() as u16;
            let mut k: usize = 0;
            while k < sid.len()
                invariant
                    k <= sid@.len(),
                    vec@ == sid@.take(k as int),
                decreases sid@.len() - k,
            {
                vec.push(sid[k]);
                k = k + 1;
                assert(vec@ =~= sid@.take(k as int));
            }
            assert(vec@ =~= sid@);
            new_sid = sid.clone();
        }
        let nack = AckPacket::serialize(&self.connection_id, &self.block_id, &MAX_FLOW_WINDOW, &missing_len, &vec);
        (nack, new_sid)
    }

    /// Closes a block whose packets all arrived: the offset moves past the
    /// block, the window is halved after a retransmission (kept after
    /// repair mode, where the next window becomes the halved one), or takes
    /// the size the server announced; the next block begins. Gives the
    /// acknowledgment, the bytes of the block to write out, and whether the
    /// partial file is started anew (on the first block of a fresh download).
    pub fn complete_block(&mut self, window_len: usize) -> (r: (Vec<u8>, usize, bool))
        requires
            old(self).offset + DATA_SIZE * old(self).flow_window <= u64::MAX,
            old(self).block_id < u32::MAX,
        ensures
            ({
                let o = *old(self);
                let flow = if o.retransmission && !o.repair_mode {
                    half_up(o.flow_window)
                } else if o.retransmission && o.repair_mode {
                    o.flow_window
                } else {
                    o.congestion_window
                };
                let congestion = if o.retransmission && o.repair_mode {
                    o.flow_window
                } else {
                    o.congestion_window
                };
                let slow = if o.retransmission && !o.repair_mode {
                    false
                } else {
                    o.slow_start
                };
                let block_bytes = o.flow_window as nat * DATA_SIZE as nat;
                &&& *final(self) == (ClientSession {
                    offset: (o.offset + block_bytes) as u64,
                    flow_window: flow,
                    congestion_window: congestion,
                    slow_start: slow,
                    block_id: (o.block_id + 1) as u32,
                    repair_mode: false,
                    ..o
                })
                &&& r.0@ == ack_wire(o.connection_id, (o.block_id + 1) as u32, MAX_FLOW_WINDOW, 0, Seq::empty())
                &&& r.1 == if block_bytes < window_len {
                    block_bytes
                } else {
                    window_len as nat
                }
                &&& r.2 == !(o.block_id + 1 > 1 || o.offset > 0)
            }),
    {
        let pre_offset = self.offset;
        assert(self.flow_window as u64 * DATA_SIZE as u64 <= 1270 * 65535) by (nonlinear_arith)
            requires
                DATA_SIZE == 1270,
        ;
        let block_bytes = self.flow_window as usize * DATA_SIZE;
        let slice_size = if block_bytes < window_len {
            block_bytes
        } else {
            window_len
        };
        self.offset = self.offset + self.flow_window as u64 * DATA_SIZE as u64;
        if self.retransmission && !self.repair_mode {
            if self.slow_start {
                self.flow_window = ((self.flow_window as u32 + 1) / 2) as u16;
                self.slow_start = false;
            } else {
                self.flow_window = ((self.flow_window as u32 + 1) / 2) as u16;
            }
        } else if self.retransmission && self.repair_mode {
            self.congestion_window = self.flow_window;
        } else {
            self.flow_window = self.congestion_window;
        }
        self.block_id = self.block_id + 1;
        let sid: Vec<u16> = Vec::new();
        let ack = AckPacket::serialize(&self.connection_id, &self.block_id, &MAX_FLOW_WINDOW, &0, &sid);
        if self.repair_mode {
            self.repair_mode = false;
        }
        let trunc = !(self.block_id > 1 || pre_offset > 0);
        (ack, slice_size, trunc)
    }

    /// Takes in the server's response to a request sent with an earlier
    /// download's `stored_hash` and `offset`: no earlier download starts
    /// anew, a different hash restarts the transfer, the same hash resumes
    /// it at `offset`. Unless restarting, the connection, block, hash and
    /// size of the response are kept.
    pub fn on_response(&mut self, res: &ResponsePacket, stored_hash: &Vec<u8>, offset: u64) -> (r: ResponseAction)
        ensures
            r == if stored_hash@.len() == 0 {
                ResponseAction::NewDownload
            } else if res.file_hash@ != stored_hash@ {
                ResponseAction::Restart
            } else {
                ResponseAction::Resume
            },
            r == ResponseAction::Restart ==> *final(self) == *old(self),
            r == ResponseAction::NewDownload ==> *final(self) == (ClientSession {
                connection_id: res.connection_id,
                block_id: res.block_id,
                file_hash: res.file_hash,
                file_size: res.file_size,
                ..*old(self)
            }),
            r == ResponseAction::Resume ==> *final(self) == (ClientSession {
                offset: offset,
                received: offset,
                connection_id: res.connection_id,
                block_id: res.block_id,
                file_hash: res.file_hash,
                file_size: res.file_size,
                ..*old(self)
            }),
    {
        let r;
        if stored_hash.len() == 0 {
            r = ResponseAction::NewDownload;
        } else if !compare_hashes(&vstd::slice::slice_to_vec(res.file_hash.as_slice()), stored_hash) {
            return ResponseAction::Restart;
        } else {
            self.offset = offset;
            self.received = offset;
            r = ResponseAction::Resume;
        }
        self.connection_id = res.connection_id;
        self.block_id = res.block_id;
        self.file_hash = res.file_hash;
        self.file_size = res.file_size;
        r
    }

    /// What the hash of the downloaded file shows about the transfer.
    pub fn transfer_verdict(&self, computed: &Vec<u8>) -> (r: Verdict)
        ensures
            r == if self.retransmission {
                Verdict::Incomplete
            } else if self.file_hash@ != computed@ {
                Verdict::Corrupted
            } else {
                Verdict::Verified
            },
    {
        if self.retransmission {
            Verdict::Incomplete
        } else if !compare_hashes(&vstd::slice::slice_to_vec(self.file_hash.as_slice()), computed) {
            Verdict::Corrupted
        } else {
            Verdict::Verified
        }
    }

    /// Decides what follows a reception of the current block: `all_arrived`
    /// tells whether every expected packet came, `attempt` counts the
    /// retransmissions of the block tried so far (zero for its first
    /// reception). A block with missing packets is asked for again up to
    /// `MAX_RETRANSMISSION` times; the transfer is in retransmission from the
    /// first loss until the block is complete.
    pub fn after_receive(&mut self, all_arrived: bool, attempt: usize) -> (r: ReceiveStep)
        ensures
            all_arrived && old(self).received >= old(self).file_size ==> r == ReceiveStep::Finished
                && *final(self) == (ClientSession { retransmission: false, ..*old(self) }),
            all_arrived && old(self).received < old(self).file_size ==> r == ReceiveStep::NextBlock
                && *final(self) == (ClientSession { retransmission: false, ..*old(self) }),
            !all_arrived && attempt == 0 ==> r == ReceiveStep::Retry && *final(self) == (ClientSession {
                retransmission: true,
                ..*old(self)
            }),
            !all_arrived && 0 < attempt < MAX_RETRANSMISSION ==> r == ReceiveStep::Retry && *final(self)
                == *old(self),
            !all_arrived && attempt >= MAX_RETRANSMISSION ==> r == ReceiveStep::GiveUp && *final(self)
                == *old(self),
    {
        if all_arrived {
            self.retransmission = false;
            if self.received >= self.file_size {
                ReceiveStep::Finished
            } else {
                ReceiveStep::NextBlock
            }
        } else if attempt == 0 {
            self.retransmission = true;
            ReceiveStep::Retry
        } else if attempt < MAX_RETRANSMISSION {
            ReceiveStep::Retry
        } else {
            ReceiveStep::GiveUp
        }
    }
}

} // verus!
