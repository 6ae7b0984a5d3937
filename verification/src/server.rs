//! The server side of a transfer: the state of each connection and the
//! decisions taken on requests and acknowledgments — how a file is cut into
//! blocks, which packets a block is made of, and how the flow window grows
//! in slow start, grows additively afterwards, is halved after losses and
//! is rebuilt in repair mode.

use vstd::prelude::*;
use std::collections::HashMap;
use rand::Rng;
use crate::packets::{data_wire, metadata_wire, AckPacket, DataPacket, MetadataPacket};
use crate::utils::{create_next_packet, packet_size, DATA_SIZE};

verus! {

broadcast use vstd::std_specs::hash::group_hash_axioms;

/// Largest flow window the server sends with.
pub const MAX_FLOW_WINDOW: u16 = 50;

/// Flow window of a new connection.
pub const DEFAULT_FLOW_WINDOW: u16 = 8;

/// Slow start threshold.
pub const SLOW_START_THRESH: u16 = 65535;

/// Largest file size whose transfer arithmetic cannot overflow.
pub const MAX_FILE_SIZE: u64 = 0xFFFF_FFFF_FFF0_0000;

/// What the server keeps of one connection.
pub struct ConnectionStore<E> {
    pub block_id: u32,
    pub flow_window: u16,
    pub file_size: u64,
    pub file: String,
    pub sent: u64,
    pub endpoint: E,
    pub retransmission: bool,
    pub slow_start_next_block: u16,
    pub ssthresh: u16,
    pub slow_start: bool,
    pub client_max_flow: u16,
    pub repair_mode: bool,
}

/// `x / 2` rounded up.
pub open spec fn half_up(x: u16) -> u16 {
    ((x as nat + 1) / 2) as u16
}

pub open spec fn min_u16(a: u16, b: u16) -> u16 {
    if a <= b {
        a
    } else {
        b
    }
}

/// `a / b` rounded up.
pub open spec fn ceil_div(a: nat, b: nat) -> nat {
    ((a + b - 1) / (b as int)) as nat
}

/// A count saturated to sixteen bits, as a float is cast to `u16`.
pub open spec fn saturate_u16(n: nat) -> u16 {
    if n > 65535 {
        65535
    } else {
        n as u16
    }
}

impl<E> ConnectionStore<E> {
    /// The flow windows stay within the server's maximum, nothing has been
    /// sent beyond the end of the file, and the file is small enough for the
    /// transfer arithmetic.
    pub open spec fn wf(&self) -> bool {
        &&& self.flow_window <= MAX_FLOW_WINDOW
        &&& self.slow_start_next_block <= MAX_FLOW_WINDOW
        &&& self.ssthresh == SLOW_START_THRESH
        &&& self.sent <= self.file_size
        &&& self.file_size <= MAX_FILE_SIZE
    }

    /// The bytes sent once the current block is acknowledged.
    pub open spec fn sent_after_block(&self) -> nat {
        (self.sent + DATA_SIZE as nat * self.flow_window) as nat
    }

    /// Whether acknowledging the current block completes the file.
    pub open spec fn completes(&self) -> bool {
        self.sent_after_block() >= self.file_size
    }

    /// The window parameters after a block that needed retransmission is
    /// acknowledged: the window is halved, but not beyond what the client
    /// takes, and slow start is over.
    pub open spec fn after_loss(self, client_flow: u16) -> Self {
        let halved = half_up(self.slow_start_next_block);
        let next = if halved > client_flow {
            client_flow
        } else {
            halved
        };
        ConnectionStore {
            slow_start: false,
            slow_start_next_block: next,
            flow_window: next,
            retransmission: false,
            client_max_flow: client_flow,
            ..self
        }
    }

    /// The window parameters after a block received without loss: doubled in
    /// slow start (until the threshold), one more otherwise, capped by the
    /// server's maximum and by what the client takes.
    pub open spec fn after_success(self, client_flow: u16) -> Self {
        let doubled = self.slow_start_next_block * 2;
        let (grown, slow) = if self.slow_start {
            if doubled > self.ssthresh {
                (self.ssthresh, false)
            } else {
                (doubled as u16, true)
            }
        } else {
            ((self.slow_start_next_block + 1) as u16, false)
        };
        let next = if grown > MAX_FLOW_WINDOW || grown > client_flow {
            min_u16(MAX_FLOW_WINDOW, client_flow)
        } else {
            grown
        };
        ConnectionStore {
            slow_start: slow,
            slow_start_next_block: next,
            flow_window: next,
            client_max_flow: client_flow,
            ..self
        }
    }

    /// The state after the current block is acknowledged and the file is not
    /// complete yet: the window is adapted (left as it is at the end of repair
    /// mode), and the next block begins.
    pub open spec fn after_ack(self, client_flow: u16) -> Self {
        let adapted = if self.retransmission && !self.repair_mode {
            self.after_loss(client_flow)
        } else if !self.repair_mode {
            self.after_success(client_flow)
        } else {
            ConnectionStore { repair_mode: false, slow_start: false, client_max_flow: client_flow, ..self }
        };
        ConnectionStore {
            sent: self.sent_after_block() as u64,
            block_id: (self.block_id + 1) as u32,
            ..adapted
        }
    }

    /// The state on entering repair mode: the window is halved and the whole
    /// block is sent again.
    pub open spec fn entering_repair(self) -> Self {
        ConnectionStore {
            flow_window: half_up(self.flow_window),
            slow_start_next_block: half_up(self.flow_window),
            repair_mode: true,
            retransmission: true,
            ..self
        }
    }

    /// The size of the next block announced in a metadata packet: the window
    /// doubled in slow start, one more otherwise, within the server's
    /// maximum, what the client takes and the packets still to send.
    pub open spec fn announced_block_size(&self, flow_window: u16, still_to_send: u16) -> u16 {
        let grown = if self.slow_start {
            min_u16(min_u16((flow_window * 2) as u16, MAX_FLOW_WINDOW), self.client_max_flow)
        } else {
            min_u16(min_u16((flow_window + 1) as u16, MAX_FLOW_WINDOW), self.client_max_flow)
        };
        min_u16(grown, still_to_send)
    }

    /// How many bytes data packet `seq` of a block starting at
    /// `file_offset` carries: a full payload, or what is left of the file.
    pub open spec fn data_len(&self, file_offset: u64, seq: u16) -> nat {
        if self.file_size < file_offset + seq * DATA_SIZE {
            packet_size((self.file_size - (file_offset + data_start(seq))) as nat)
        } else {
            DATA_SIZE as nat
        }
    }

    /// The bytes of the current block: the window, or what is left of the
    /// file.
    pub open spec fn block_bytes(&self, flow_window: u16) -> nat {
        let window = flow_window as nat * DATA_SIZE as nat;
        let remain = (self.file_size - self.sent) as nat;
        if window > remain {
            remain
        } else {
            window
        }
    }

    fn announced_size(&self, flow_window: u16, still_to_send: u16) -> (r: u16)
        requires
            flow_window <= MAX_FLOW_WINDOW,
        ensures
            r == self.announced_block_size(flow_window, still_to_send),
    {
        let mut new_block_size;
        if self.slow_start {
            new_block_size = min16(flow_window * 2, MAX_FLOW_WINDOW);
            new_block_size = min16(new_block_size, self.client_max_flow);
        } else {
            new_block_size = min16(flow_window + 1, MAX_FLOW_WINDOW);
            new_block_size = min16(new_block_size, self.client_max_flow);
        }
        min16(new_block_size, still_to_send)
    }

    fn advance(&mut self, client_flow: u16)
        requires
            old(self).wf(),
            !old(self).completes(),
            old(self).block_id < u32::MAX,
        ensures
            *final(self) == old(self).after_ack(client_flow),
            final(self).wf(),
    {
        let sent = DATA_SIZE as u64 * self.flow_window as u64;
        self.client_max_flow = client_flow;
        if self.retransmission && !self.repair_mode {
            self.slow_start = false;
            self.slow_start_next_block = ceil_half(self.slow_start_next_block);
            self.flow_window = self.slow_start_next_block;
            if self.flow_window > self.client_max_flow {
                self.flow_window = self.client_max_flow;
                self.slow_start_next_block = self.client_max_flow;
                self.slow_start = false;
            }
            self.retransmission = false;
        } else if !self.repair_mode {
            let mut flow_window;
            if self.slow_start {
                self.slow_start_next_block = self.slow_start_next_block * 2;
                if self.slow_start_next_block > self.ssthresh {
                    self.slow_start_next_block = self.ssthresh;
                    self.slow_start = false;
                }
                flow_window = self.slow_start_next_block;
            } else {
                self.slow_start_next_block = self.slow_start_next_block + 1;
                flow_window = self.slow_start_next_block;
            }
            if flow_window > MAX_FLOW_WINDOW || flow_window > self.client_max_flow {
                let new_flow = min16(MAX_FLOW_WINDOW, self.client_max_flow);
                flow_window = new_flow;
                self.slow_start_next_block = new_flow;
            }
            self.flow_window = flow_window;
        } else {
            self.repair_mode = false;
            self.slow_start = false;
        }
        self.sent = self.sent + sent;
        self.block_id = self.block_id + 1;
    }
}

fn min16(a: u16, b: u16) -> (r: u16)
    ensures
        r == min_u16(a, b),
{
    if a <= b {
        a
    } else {
        b
    }
}

/// `x / 2` rounded up, as `ceil(x as f64 / 2.0)` computes it.
fn ceil_half(x: u16) -> (r: u16)
    ensures
        r == half_up(x),
{
    ((x as u32 + 1) / 2) as u16
}

/// Where the payload of data packet `seq` starts in its block.
pub open spec fn data_start(seq: u16) -> nat {
    ((seq - 1) * DATA_SIZE as int) as nat
}

/// The plan for sending the next block of a connection: the sequence ids of
/// its packets, the metadata packet announcing the block after it, and where
/// in the file the block starts.
pub struct BlockPlan {
    pub sids: Vec<u16>,
    pub metadata: Vec<u8>,
    pub file_offset: u64,
    pub flow_window: u16,
}

/// What an acknowledgment of a whole block leads to.
#[derive(Clone, Copy, Debug, PartialEq, Eq, Structural)]
pub enum AckOutcome {
    /// No connection has the acknowledged id.
    UnknownConnection,
    /// The file is complete and the connection is forgotten.
    Finished,
    /// The next block is to be sent.
    NextBlock,
}

/// The sequence ids `1 ..= count`.
pub open spec fn first_sids(count: nat) -> Seq<u16> {
    Seq::new(count, |i: int| (i + 1) as u16)
}

/// The sequence ids of a block: one for each `DATA_SIZE` bytes of it,
/// counting from one.
pub open spec fn block_sids(file_size: u64, sent: u64, flow_window: u16) -> Seq<u16> {
    let window = flow_window as nat * DATA_SIZE as nat;
    let remain = (file_size - sent) as nat;
    let bytes = if window > remain {
        remain
    } else {
        window
    };
    first_sids(ceil_div(bytes, DATA_SIZE as nat))
}

/// The ids `1 ..= count`.
fn sids_up_to(count: u16) -> (r: Vec<u16>)
    requires
        count < u16::MAX,
    ensures
        r@ == first_sids(count as nat),
{
    let mut sid: Vec<u16> = Vec::with_capacity(count as usize);
    let mut i: u16 = 1;
    while i < count + 1
        invariant
            1 <= i <= count + 1,
            count < u16::MAX,
            sid@ == first_sids((i - 1) as nat),
        decreases count + 1 - i,
    {
        sid.push(i);
        i = i + 1;
        assert(sid@ =~= first_sids((i - 1) as nat));
    }
    sid
}

/// The server's connections, each under its id; `E` is how a client is
/// reached.
pub struct ServerCore<E> {
    pub states: HashMap<u32, ConnectionStore<E>>,
}

/// `rng.gen_range(low..high)` of the rand crate on the thread's generator:
/// a random number in the half-open range. Only its range is stated.
#[verifier::external_body]
fn random_in_range(low: u32, high: u32) -> (r: u32)
    requires
        low < high,
    ensures
        low <= r < high,
{
    rand::thread_rng().gen_range(low..high)
}

/// The flow window a new connection starts with: what the client asks for,
/// within the default and the server's maximum.
pub open spec fn admitted_flow_window(requested: u16) -> u16 {
    min_u16(min_u16(DEFAULT_FLOW_WINDOW, requested), MAX_FLOW_WINDOW)
}

impl<E> ServerCore<E> {
    /// Every connection is well formed and has an id the server hands out:
    /// one of `1 .. 2^23`.
    pub open spec fn wf(&self) -> bool {
        forall|id: u32| #[trigger] self.states@.contains_key(id) ==> 1 <= id < 0x800000 && self.states@[id].wf()
    }

    pub fn create() -> (r: Self)
        ensures
            r.states@ == Map::<u32, ConnectionStore<E>>::empty(),
            r.wf(),
    {
        ServerCore { states: HashMap::new() }
    }

    /// The flow window a request is granted.
    pub fn request_flow_window(requested: u16) -> (r: u16)
        ensures
            r == admitted_flow_window(requested),
    {
        let mut flow_window = DEFAULT_FLOW_WINDOW;
        if flow_window > requested {
            flow_window = requested;
        }
        if flow_window > MAX_FLOW_WINDOW {
            flow_window = MAX_FLOW_WINDOW;
        }
        flow_window
    }

    /// What becomes of a drawn connection id: it is handed out when no
    /// connection has it.
    pub open spec fn admitted_id(&self, drawn: u32) -> Option<u32> {
        if self.states@.contains_key(drawn) {
            None
        } else {
            Some(drawn)
        }
    }

    /// Hands out a drawn connection id where no connection has it.
    pub fn admit_conn_id(&self, drawn: u32) -> (r: Option<u32>)
        ensures
            r == self.admitted_id(drawn),
    {
        if self.states.contains_key(&drawn) {
            None
        } else {
            Some(drawn)
        }
    }

    /// Draws a random connection id in `1 .. 2^23` and hands it out when no
    /// connection has it. Where the id drawn is taken, the lowest free id is
    /// handed out instead, so none comes back only when every id in the
    /// range is taken.
    pub fn try_conn_id(&self) -> (r: Option<u32>)
        ensures
            exists|drawn: u32| 1 <= drawn < 0x800000 && r == #[trigger] self.admitted_id(drawn),
            r matches Some(id) ==> 1 <= id < 0x800000 && !self.states@.contains_key(id),
            r is None ==> exists|id: u32| 1 <= id < 0x800000 && #[trigger] self.states@.contains_key(id),
            r is None <==> forall|id: u32| 1 <= id < 0x800000 ==> #[trigger] self.states@.contains_key(id),
    {
        let drawn = random_in_range(1, 0x800000);
        let r = self.admit_conn_id(drawn);
        if r.is_some() {
            assert(1 <= drawn < 0x800000 && r == self.admitted_id(drawn));
            return r;
        }
        assert(self.states@.contains_key(drawn));
        let mut id: u32 = 1;
        while id < 0x800000
            invariant
                1 <= id <= 0x800000,
                forall|j: u32| 1 <= j < id ==> #[trigger] self.states@.contains_key(j),
            decreases 0x800000 - id,
        {
            if !self.states.contains_key(&id) {
                assert(self.admitted_id(id) == Some(id));
                return Some(id);
            }
            id = id + 1;
        }
        assert(self.admitted_id(drawn) is None);
        None
    }

    pub fn has_connection(&self, connection_id: u32) -> (r: bool)
        ensures
            r == self.states@.contains_key(connection_id),
    {
        self.states.contains_key(&connection_id)
    }

    pub fn remove_state(&mut self, connection_id: u32)
        requires
            old(self).wf(),
        ensures
            final(self).states@ == old(self).states@.remove(connection_id),
            final(self).wf(),
    {
        self.states.remove(&connection_id);
    }

    /// Starts a connection on `file_name` of `size` bytes from `offset` on,
    /// with a flow window of at most the default.
    pub fn create_state(&mut self, connection_id: u32, file_name: &str, size: u64, flow: u16, offset: u64, remote: E)
        requires
            old(self).wf(),
            1 <= connection_id < 0x800000,
            offset <= size <= MAX_FILE_SIZE,
        ensures
            final(self).wf(),
            final(self).states@ == old(self).states@.insert(
                connection_id,
                ConnectionStore {
                    block_id: 0,
                    flow_window: min_u16(flow, DEFAULT_FLOW_WINDOW),
                    file: final(self).states@[connection_id].file,
                    file_size: size,
                    sent: offset,
                    endpoint: remote,
                    retransmission: false,
                    slow_start_next_block: DEFAULT_FLOW_WINDOW,
                    ssthresh: SLOW_START_THRESH,
                    slow_start: true,
                    client_max_flow: u16::MAX,
                    repair_mode: false,
                },
            ),
            final(self).states@[connection_id].file@ == file_name@,
    {
        let flow = min16(flow, DEFAULT_FLOW_WINDOW);
        let state = ConnectionStore {
            block_id: 0,
            flow_window: flow,
            file: file_name.to_owned(),
            file_size: size,
            sent: offset,
            endpoint: remote,
            retransmission: false,
            slow_start_next_block: DEFAULT_FLOW_WINDOW,
            ssthresh: SLOW_START_THRESH,
            slow_start: true,
            client_max_flow: u16::MAX,
            repair_mode: false,
        };
        self.states.insert(connection_id, state);
    }

    /// Records where a client was last heard from.
    pub fn set_endpoint(&mut self, connection_id: u32, endpoint: E) -> (r: bool)
        requires
            old(self).wf(),
        ensures
            r == old(self).states@.contains_key(connection_id),
            final(self).wf(),
            r ==> final(self).states@ == old(self).states@.insert(
                connection_id,
                ConnectionStore { endpoint: endpoint, ..old(self).states@[connection_id] },
            ),
            !r ==> final(self).states@ == old(self).states@,
    {
        match self.states.remove(&connection_id) {
            Some(c) => {
                let c = ConnectionStore { endpoint: endpoint, ..c };
                self.states.insert(connection_id, c);
                true
            },
            None => false,
        }
    }

    /// The sequence ids of the next block of a file of `file_size` bytes of
    /// which `sent` are sent.
    pub fn create_new_sid(&self, file_size: u64, sent: u64, flow_window: u16) -> (r: Vec<u16>)
        requires
            sent <= file_size,
            flow_window < u16::MAX,
        ensures
            r@ == block_sids(file_size, sent, flow_window),
    {
        let remain = file_size - sent;
        assert(flow_window as u64 * DATA_SIZE as u64 <= 65535 * 1270) by (nonlinear_arith)
            requires
                flow_window < 65535,
        ;
        let mut window_size = flow_window as u64 * DATA_SIZE as u64;
        if window_size > remain {
            window_size = remain;
        }
        let packets = ((window_size + DATA_SIZE as u64 - 1) / DATA_SIZE as u64) as u16;
        assert(packets <= flow_window) by (nonlinear_arith)
            requires
                window_size <= flow_window * 1270,
                packets == (window_size + 1269) / 1270,
        ;
        sids_up_to(packets)
    }

    /// How the next block of a connection is sent, if the connection exists.
    pub fn next_block_plan(&self, connection_id: &u32) -> (r: Option<BlockPlan>)
        requires
            self.wf(),
        ensures
            r is None <==> !self.states@.contains_key(*connection_id),
            r matches Some(plan) ==> {
                let c = self.states@[*connection_id];
                let sids = block_sids(c.file_size, c.sent, c.flow_window);
                let full_send = sids.len() * DATA_SIZE as nat + c.sent;
                let after = if full_send >= c.file_size {
                    0
                } else {
                    (c.file_size - full_send) as nat
                };
                let still_to_send = saturate_u16(ceil_div(after, DATA_SIZE as nat));
                &&& plan.sids@ == sids
                &&& plan.metadata@ == metadata_wire(
                    *connection_id,
                    c.block_id,
                    c.announced_block_size(c.flow_window, still_to_send),
                )
                &&& plan.file_offset == c.sent
                &&& plan.flow_window == c.flow_window
            },
    {
        let connection = match self.states.get(connection_id) {
            Some(v) => v,
            None => {
                return None;
            },
        };
        let sid_list = self.create_new_sid(connection.file_size, connection.sent, connection.flow_window);
        assert(sid_list@.len() <= MAX_FLOW_WINDOW);
        let mut full_send = (sid_list.len() as u64 * DATA_SIZE as u64) + connection.sent;
        if full_send >= connection.file_size {
            full_send = connection.file_size;
        }
        let sent_after_this_round = connection.file_size - full_send;
        let packets_left = (sent_after_this_round + DATA_SIZE as u64 - 1) / DATA_SIZE as u64;
        let still_to_send: u16 = if packets_left > 65535 {
            65535
        } else {
            packets_left as u16
        };
        let new_block_size = connection.announced_size(connection.flow_window, still_to_send);
        let m_d = MetadataPacket::serialize(connection_id, &connection.block_id, &new_block_size);
        Some(
            BlockPlan {
                sids: sid_list,
                metadata: m_d,
                file_offset: connection.sent,
                flow_window: connection.flow_window,
            },
        )
    }

    /// On an acknowledgment listing lost packets: the ids to send again,
    /// where the block starts and its window. A length of `0xffff` asks for
    /// repair mode: the window is halved and the whole block is sent again.
    pub fn prepare_retransmission(&mut self, ack: &AckPacket) -> (r: Option<(Vec<u16>, u64, u16)>)
        requires
            old(self).wf(),
        ensures
            final(self).wf(),
            r is None <==> !old(self).states@.contains_key(ack.connection_id),
            r is None ==> final(self).states@ == old(self).states@,
            r matches Some((sids, offset, flow)) ==> {
                let c = old(self).states@[ack.connection_id];
                let c2 = if ack.length == 0xffff {
                    c.entering_repair()
                } else {
                    ConnectionStore { retransmission: true, ..c }
                };
                &&& final(self).states@ == old(self).states@.insert(ack.connection_id, c2)
                &&& sids@ == if ack.length == 0xffff {
                    first_sids(c2.flow_window as nat)
                } else {
                    ack.sid_list@
                }
                &&& offset == c.sent
                &&& flow == c2.flow_window
            },
    {
        let mut connection = match self.states.remove(&ack.connection_id) {
            Some(s) => s,
            None => {
                return None;
            },
        };
        let new_sid_list;
        if ack.length == 0xffff {
            connection.flow_window = ceil_half(connection.flow_window);
            connection.slow_start_next_block = connection.flow_window;
            let new_block_size = connection.flow_window;
            connection.repair_mode = true;
            new_sid_list = sids_up_to(new_block_size);
        } else {
            new_sid_list = ack.sid_list.clone();
        }
        connection.retransmission = true;
        let sent = connection.sent;
        let flow_window = connection.flow_window;
        self.states.insert(ack.connection_id, connection);
        Some((new_sid_list, sent, flow_window))
    }

    /// On an acknowledgment of the whole block: forget the connection when
    /// the file is complete, otherwise adapt the window to the client's and
    /// move on to the next block.
    pub fn acknowledge_block(&mut self, connection_id: u32, client_flow: u16) -> (r: AckOutcome)
        requires
            old(self).wf(),
            old(self).states@.contains_key(connection_id) ==> old(self).states@[connection_id].block_id
                < u32::MAX,
        ensures
            final(self).wf(),
            r == AckOutcome::UnknownConnection <==> !old(self).states@.contains_key(connection_id),
            r == AckOutcome::UnknownConnection ==> final(self).states@ == old(self).states@,
            r == AckOutcome::Finished <==> old(self).states@.contains_key(connection_id)
                && old(self).states@[connection_id].completes(),
            r == AckOutcome::Finished ==> final(self).states@ == old(self).states@.remove(connection_id),
            r == AckOutcome::NextBlock ==> final(self).states@ == old(self).states@.insert(
                connection_id,
                old(self).states@[connection_id].after_ack(client_flow),
            ),
    {
        let mut connection = match self.states.remove(&connection_id) {
            Some(s) => s,
            None => {
                return AckOutcome::UnknownConnection;
            },
        };
        assert(old(self).states@.contains_key(connection_id));
        assert(connection.wf());
        assert(DATA_SIZE as u64 * connection.flow_window as u64 <= 1270 * 50) by (nonlinear_arith)
            requires
                connection.flow_window <= 50,
                DATA_SIZE == 1270,
        ;
        let sent = DATA_SIZE as u64 * connection.flow_window as u64;
        if connection.sent + sent >= connection.file_size {
            return AckOutcome::Finished;
        }
        connection.advance(client_flow);
        self.states.insert(connection_id, connection);
        AckOutcome::NextBlock
    }

    /// The bytes of the block that is read from the file before its packets
    /// are sent.
    pub fn block_window_size(&self, connection_id: &u32, flow_window: u16) -> (r: Option<usize>)
        requires
            self.wf(),
        ensures
            r is None <==> !self.states@.contains_key(*connection_id),
            r matches Some(n) ==> n == self.states@[*connection_id].block_bytes(flow_window),
    {
        let connection = match self.states.get(connection_id) {
            Some(s) => s,
            None => {
                return None;
            },
        };
        let mut window_size = flow_window as u64 * DATA_SIZE as u64;
        let remain = connection.file_size - connection.sent;
        if window_size > remain {
            window_size = remain;
        }
        Some(window_size as usize)
    }

    /// The packet with sequence id `seq` of a block read into
    /// `window_buffer`: a metadata packet for id zero, otherwise the data
    /// packet carrying its share of the block. Fails where the block is too
    /// short for it.
    pub fn block_packet(&self, connection_id: &u32, seq: u16, window_buffer: &Vec<u8>, file_offset: u64, flow_window: u16) -> (r: Result<Vec<u8>, ()>)
        requires
            self.wf(),
            self.states@.contains_key(*connection_id),
            flow_window <= MAX_FLOW_WINDOW,
            file_offset <= MAX_FILE_SIZE,
            seq != 0 && self.states@[*connection_id].file_size < file_offset + seq * DATA_SIZE
                ==> file_offset + (seq - 1) * DATA_SIZE <= self.states@[*connection_id].file_size,
        ensures
            ({
                let c = self.states@[*connection_id];
                if seq == 0 {
                    let still = saturate_u16(
                        ceil_div((c.sent + c.block_bytes(flow_window)) as nat, DATA_SIZE as nat),
                    );
                    r matches Ok(p) && p@ == metadata_wire(
                        *connection_id,
                        c.block_id,
                        c.announced_block_size(flow_window, still),
                    )
                } else {
                    let start = data_start(seq);
                    let size = c.data_len(file_offset, seq);
                    &&& r is Err <==> start + size > window_buffer@.len()
                    &&& r matches Ok(p) ==> p@ == data_wire(
                        *connection_id,
                        c.block_id,
                        seq,
                        window_buffer@.subrange(start as int, (start + size) as int),
                    )
                }
            }),
    {
        let connection = self.states.get(connection_id).unwrap();
        if seq == 0 {
            let mut window_size = flow_window as u64 * DATA_SIZE as u64;
            let remain = connection.file_size - connection.sent;
            if window_size > remain {
                window_size = remain;
            }
            let packets = (connection.sent + window_size + DATA_SIZE as u64 - 1) / DATA_SIZE as u64;
            let still_to_send: u16 = if packets > 65535 {
                65535
            } else {
                packets as u16
            };
            let new_block_size = connection.announced_size(flow_window, still_to_send);
            return Ok(MetadataPacket::serialize(connection_id, &connection.block_id, &new_block_size));
        }
        let mut size = DATA_SIZE;
        let offset = file_offset + ((seq - 1) as u64 * DATA_SIZE as u64);
        if connection.file_size < file_offset + (seq as u64 * DATA_SIZE as u64) {
            size = (connection.file_size - offset) as usize;
        }
        let packet = match create_next_packet(&size, window_buffer, &((seq - 1) as usize)) {
            Ok((p, _)) => p,
            Err(_) => {
                return Err(());
            },
        };
        Ok(DataPacket::serialize(connection_id, &connection.block_id, &seq, &packet))
    }
}

} // verus!
