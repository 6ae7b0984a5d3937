//! The computations around file transfer that sit between the network and
//! the disk: host names, file hashes, cutting a block into packets, the
//! state record of a partial download and the choice of a local address.

use vstd::prelude::*;
use sha2::Digest;
use crate::packets::{error_wire, ErrorPacket, ErrorTypes, MAX_DATA_PAYLOAD};
use crate::text::{chars_of, clean_name, clean_text, decimal_text, push_char, push_chars, push_decimal, push_str};
use crate::wire::{be_bytes, be_value, append_be};

verus! {

/// Bytes of a data packet on the wire.
pub const PACKET_SIZE: usize = 1280;

/// Bytes of the header of a data packet.
pub const DATA_HEADER: usize = 10;

/// Bytes of file data one data packet carries.
pub const DATA_SIZE: usize = 1270;

/// An input that cannot be what it claims to be: the kind of failure that
/// `std::io::ErrorKind::InvalidData` names, with its message.
#[derive(Debug)]
pub struct InvalidDataError {
    pub message: String,
}

/// The failure reported when a block is too short for the packet asked of
/// it: invalid data, "Invalid size".
pub fn invalid_size() -> (e: InvalidDataError)
    ensures
        e.message@ == "Invalid size"@,
{
    InvalidDataError { message: String::from_str("Invalid size") }
}

/// The address `ip:port` of a host: the cleaned host text, a colon and the
/// port in decimal.
pub open spec fn hostname_text(ip: Seq<char>, port: u32) -> Seq<char> {
    clean_text(ip) + seq![':'] + decimal_text(port as nat)
}

/// Joins a host and a port into an address, stripping whitespace and NULs
/// around the host.
pub fn compute_hostname(ip: &String, port: &u32) -> (r: String)
    ensures
        r@ == hostname_text(ip@, *port),
{
    let host = clean_name(ip);
    let mut addr = String::new();
    push_chars(&mut addr, &host, 0, host.len());
    push_char(&mut addr, ':');
    push_decimal(&mut addr, *port);
    assert(host@.subrange(0, host@.len() as int) == host@);
    assert(Seq::<char>::empty() + host@ == host@);
    addr
}

/// The SHA-256 digest of a byte sequence.
pub uninterp spec fn sha256(bytes: Seq<u8>) -> Seq<u8>;

/// `Sha256::digest` of the sha2 crate, as a vector. Its result is named by
/// `sha256`; a SHA-256 digest is 32 bytes long.
#[verifier::external_body]
fn sha256_digest(bytes: &[u8]) -> (r: Vec<u8>)
    ensures
        r@ == sha256(bytes@),
        r@.len() == 32,
{
    sha2::Sha256::digest(bytes).to_vec()
}

/// The SHA-256 hash of a file's contents.
pub fn compute_hash(buf: &Vec<u8>) -> (r: Result<[u8; 32], ()>)
    ensures
        r matches Ok(h) && h@ == sha256(buf@),
{
    let digest = sha256_digest(buf.as_slice());
    if digest.len() != 32 {
        return Err(());
    }
    let mut filehash: [u8; 32] = [0; 32];
    let mut i: usize = 0;
    while i < 32
        invariant
            digest@.len() == 32,
            i <= 32,
            forall|k: int| 0 <= k < i ==> filehash@[k] == digest@[k],
        decreases 32 - i,
    {
        filehash[i] = digest[i];
        i = i + 1;
    }
    assert(filehash@ == digest@);
    Ok(filehash)
}

/// Whether two hashes are the same byte sequence.
pub fn compare_hashes(org: &Vec<u8>, new: &Vec<u8>) -> (r: bool)
    ensures
        r == (org@ == new@),
{
    if org.len() != new.len() {
        return false;
    }
    let mut i: usize = 0;
    while i < org.len()
        invariant
            org@.len() == new@.len(),
            i <= org@.len(),
            forall|k: int| 0 <= k < i ==> org@[k] == new@[k],
        decreases org@.len() - i,
    {
        if org[i] != new[i] {
            return false;
        }
        i = i + 1;
    }
    assert(org@ == new@);
    true
}

/// Where the payload of packet `seq` of a block starts in the block.
pub open spec fn packet_start(seq: nat) -> nat {
    seq * DATA_SIZE as nat
}

/// How many bytes the packet carries when `remain` bytes are left: a full
/// payload, or what is left.
pub open spec fn packet_size(remain: nat) -> nat {
    if remain < DATA_SIZE as nat {
        remain
    } else {
        DATA_SIZE as nat
    }
}

/// Cuts the payload of packet `seq` out of a block read from a file:
/// `min(remain, DATA_SIZE)` bytes from `seq * DATA_SIZE` on. Fails where the
/// block is too short.
pub fn create_next_packet(remain: &usize, window_buffer: &Vec<u8>, seq: &usize) -> (r: Result<(Vec<u8>, usize), InvalidDataError>)
    requires
        packet_start(*seq as nat) + DATA_SIZE <= usize::MAX,
    ensures
        r is Err <==> packet_start(*seq as nat) + packet_size(*remain as nat) > window_buffer@.len(),
        r matches Err(e) ==> e.message@ == "Invalid size"@,
        r matches Ok((p, size)) ==> {
            &&& size == packet_size(*remain as nat)
            &&& p@ == window_buffer@.subrange(
                packet_start(*seq as nat) as int,
                packet_start(*seq as nat) + size,
            )
        },
{
    let start = *seq * DATA_SIZE;
    let mut end = start + DATA_SIZE;
    if *remain < DATA_SIZE {
        end = start + *remain;
    }
    let size = end - start;
    if size > DATA_SIZE {
        return Err(invalid_size());
    }
    if end > window_buffer.len() {
        return Err(invalid_size());
    }
    let part = vstd::slice::slice_subrange(window_buffer.as_slice(), start, end);
    let packet = vstd::slice::slice_to_vec(part);
    Ok((packet, size))
}

/// The code an error packet carries for each kind of error.
pub open spec fn error_code_of(e: ErrorTypes) -> u32 {
    match e {
        ErrorTypes::FileUnavailable => 0x01,
        ErrorTypes::ConnectionRefused => 0x02,
        ErrorTypes::FileModified => 0x03,
        ErrorTypes::Abort => 0x04,
    }
}

/// The error packet sent to report `e` on a connection: block id zero and
/// the code of `e`.
pub fn error_message(connection_id: &u32, e: ErrorTypes) -> (r: Vec<u8>)
    ensures
        r@ == error_wire(*connection_id, 0, error_code_of(e)),
{
    let val: u32 = match e {
        ErrorTypes::FileUnavailable => 0x01,
        ErrorTypes::ConnectionRefused => 0x02,
        ErrorTypes::FileModified => 0x03,
        ErrorTypes::Abort => 0x04,
    };
    ErrorPacket::serialize(connection_id, &0, &val)
}

// ---------------------------------------------------------------------------
// The state record of a partial download.

/// The bytes of a state record: the offset reached, then the file hash
/// where one is recorded.
pub open spec fn state_bytes(offset: u64, hash: Option<Seq<u8>>) -> Seq<u8> {
    match hash {
        Some(h) => be_bytes(offset as nat, 8) + h,
        None => be_bytes(offset as nat, 8),
    }
}

/// The bytes written to a state file: the offset, followed by the hash when
/// a new record is started. The hash is moved into the record.
pub fn state_record(offset: &u64, hash: Option<Vec<u8>>) -> (r: Vec<u8>)
    ensures
        r@ == state_bytes(*offset, match hash {
            Some(h) => Some(h@),
            None => None,
        }),
{
    let mut vec: Vec<u8> = Vec::new();
    append_be(&mut vec, *offset, 8);
    assert(Seq::<u8>::empty() + be_bytes(*offset as nat, 8) == be_bytes(*offset as nat, 8));
    match hash {
        Some(mut h) => {
            vec.append(&mut h);
        },
        None => {},
    }
    vec
}

/// Reads the first eight bytes of `bytes` as a big-endian integer.
fn decode_u64(bytes: &Vec<u8>) -> (r: u64)
    requires
        bytes@.len() >= 8,
    ensures
        r == be_value(bytes@.subrange(0, 8)),
{
    let mut v: u64 = 0;
    let mut i: usize = 0;
    while i < 8
        invariant
            bytes@.len() >= 8,
            i <= 8,
            v == be_value(bytes@.subrange(0, i as int)),
            v < crate::wire::pow256(i as nat),
        decreases 8 - i,
    {
        assert(bytes@.subrange(0, i + 1).drop_last() == bytes@.subrange(0, i as int));
        proof {
            reveal_with_fuel(crate::wire::pow256, 9);
        }
        assert(v * 256 + bytes@[i as int] < crate::wire::pow256((i + 1) as nat)) by (nonlinear_arith)
            requires
                v < crate::wire::pow256(i as nat),
                bytes@[i as int] < 256,
                crate::wire::pow256((i + 1) as nat) == 256 * crate::wire::pow256(i as nat),
        ;
        v = v * 256 + bytes[i] as u64;
        i = i + 1;
    }
    v
}

/// What is read back from a state file of `info` bytes next to a partial
/// file of `part_len` bytes: the download goes on from the end of the
/// partial file, and the rest of the record is the file hash.
pub open spec fn state_read_back(info: Seq<u8>, part_len: u64) -> (u64, Seq<u8>) {
    (part_len, info.subrange(8, info.len() as int))
}

/// Reads a state record back: the offset to go on from and the file hash.
pub fn parse_state(info: &Vec<u8>, part_len: u64) -> (r: (u64, Vec<u8>))
    requires
        info@.len() >= 8,
    ensures
        (r.0, r.1@) == state_read_back(info@, part_len),
{
    let mut offset = decode_u64(info);
    if part_len != offset {
        offset = part_len;
    }
    let rest = vstd::slice::slice_subrange(info.as_slice(), 8, info.len());
    (offset, vstd::slice::slice_to_vec(rest))
}

/// A state record written with a hash reads back that hash, and the
/// download goes on from the end of the partial file, whatever offset was
/// recorded.
pub proof fn state_roundtrip(offset: u64, hash: Seq<u8>, part_len: u64)
    ensures
        state_bytes(offset, Some(hash)).len() >= 8,
        state_read_back(state_bytes(offset, Some(hash)), part_len) == (part_len, hash),
{
    crate::wire::lemma_be_bytes_len(offset as nat, 8);
    let s = state_bytes(offset, Some(hash));
    assert(s.subrange(8, s.len() as int) =~= hash);
}

/// `filename` followed by `suffix`.
fn with_suffix(filename: &String, suffix: &str) -> (r: String)
    ensures
        r@ == filename@ + suffix@,
{
    let mut file = String::new();
    push_str(&mut file, filename);
    assert(Seq::<char>::empty() + filename@ == filename@);
    file.append(suffix);
    file
}

/// The name of the state file kept beside a partial download.
pub fn info_file_name(filename: &String) -> (r: String)
    ensures
        r@ == filename@ + ".info"@,
{
    with_suffix(filename, ".info")
}

/// The name under which a download is written until it is complete.
pub fn part_file_name(filename: &String) -> (r: String)
    ensures
        r@ == filename@ + ".part"@,
{
    with_suffix(filename, ".part")
}

/// How many times binding a socket is tried before its error is returned.
pub open spec fn bind_attempt_limit(retry: u32) -> u32 {
    if retry == 0 {
        1
    } else {
        retry
    }
}

/// How many times binding a socket is tried before its error is returned.
pub fn bind_attempts(retry: u32) -> (r: u32)
    ensures
        r == bind_attempt_limit(retry),
{
    if retry == 0 {
        1
    } else {
        retry
    }
}

/// What follows an attempt at binding a socket.
#[derive(Clone, Copy, Debug, PartialEq, Eq, Structural)]
pub enum BindStep {
    /// Hand the outcome of this attempt to the caller.
    Return,
    /// Bind once more.
    TryAgain,
}

/// Decides what follows the attempt numbered `attempts` (counting from one)
/// of binding with `retry` retries: the first success is returned; a
/// failure is tried again until the limit of attempts is reached, and the
/// last failure is returned.
pub fn after_bind_attempt(retry: u32, attempts: u32, bound: bool) -> (r: BindStep)
    ensures
        r == if bound || attempts >= bind_attempt_limit(retry) {
            BindStep::Return
        } else {
            BindStep::TryAgain
        },
{
    if bound || attempts >= bind_attempts(retry) {
        BindStep::Return
    } else {
        BindStep::TryAgain
    }
}

// ---------------------------------------------------------------------------
// Choosing a local address among the network interfaces.

/// A network interface as the address choice sees it: whether it is up,
/// whether it is the loopback interface, and the octets of its addresses
/// (four for IPv4, sixteen for IPv6).
#[derive(Clone, Debug)]
pub struct InterfaceInfo {
    pub up: bool,
    pub loopback: bool,
    pub ips: Vec<Vec<u8>>,
}

/// An interface that can carry the transfer: up, not loopback, with an
/// address.
pub open spec fn usable(i: InterfaceInfo) -> bool {
    i.up && !i.loopback && i.ips@.len() > 0
}

/// Whether `k` is the first usable interface.
pub open spec fn is_first_usable(ifaces: Seq<InterfaceInfo>, k: int) -> bool {
    &&& 0 <= k < ifaces.len()
    &&& usable(ifaces[k])
    &&& forall|j: int| 0 <= j < k ==> !usable(#[trigger] ifaces[j])
}

/// The first usable interface, if any.
pub fn first_usable_interface(ifaces: &Vec<InterfaceInfo>) -> (r: Option<usize>)
    ensures
        r matches Some(k) ==> is_first_usable(ifaces@, k as int),
        r is None ==> forall|j: int| 0 <= j < ifaces@.len() ==> !usable(#[trigger] ifaces@[j]),
{
    let mut k: usize = 0;
    while k < ifaces.len()
        invariant
            k <= ifaces@.len(),
            forall|j: int| 0 <= j < k ==> !usable(#[trigger] ifaces@[j]),
        decreases ifaces@.len() - k,
    {
        let i = &ifaces[k];
        if i.up && !i.loopback && i.ips.len() > 0 {
            return Some(k);
        }
        k = k + 1;
    }
    None
}

/// The address an interface is reached at: its first IPv4 address, or its
/// first address where it has none.
pub open spec fn preferred_address(ips: Seq<Vec<u8>>) -> Seq<u8>
    recommends
        ips.len() > 0,
{
    if exists|k: int| 0 <= k < ips.len() && ips[k]@.len() == 4 {
        let k = choose|k: int|
            0 <= k < ips.len() && ips[k]@.len() == 4 && forall|j: int|
                0 <= j < k ==> #[trigger] ips[j]@.len() != 4;
        ips[k]@
    } else {
        ips[0]@
    }
}

/// The local address to bind to: the preferred address of the first usable
/// interface, or none where no interface is usable (the caller then falls
/// back to 127.0.0.1).
pub fn local_address(ifaces: &Vec<InterfaceInfo>) -> (r: Option<Vec<u8>>)
    ensures
        r matches Some(a) ==> exists|k: int|
            is_first_usable(ifaces@, k) && a@ == preferred_address(#[trigger] ifaces@[k].ips@),
        r is None ==> forall|j: int| 0 <= j < ifaces@.len() ==> !usable(#[trigger] ifaces@[j]),
{
    match first_usable_interface(ifaces) {
        None => None,
        Some(k) => {
            let ips = &ifaces[k].ips;
            let mut m: usize = 0;
            while m < ips.len()
                invariant
                    is_first_usable(ifaces@, k as int),
                    *ips == ifaces@[k as int].ips,
                    m <= ips@.len(),
                    ips@.len() > 0,
                    forall|j: int| 0 <= j < m ==> #[trigger] ips@[j]@.len() != 4,
                decreases ips@.len() - m,
            {
                if ips[m].len() == 4 {
                    let a = ips[m].clone();
                    proof {
                        let c = choose|c: int|
                            0 <= c < ips@.len() && ips@[c]@.len() == 4 && forall|j: int|
                                0 <= j < c ==> #[trigger] ips@[j]@.len() != 4;
                        assert(0 <= m < ips@.len() && ips@[m as int]@.len() == 4);
                        if c < m {
                            assert(ips@[c]@.len() != 4);
                        } else if c > m {
                            assert(ips@[m as int]@.len() != 4);
                        }
                    }
                    assert(is_first_usable(ifaces@, k as int) && a@ == preferred_address(ifaces@[k as int].ips@));
                    return Some(a);
                }
                m = m + 1;
            }
            let a = ips[0].clone();
            assert(is_first_usable(ifaces@, k as int) && a@ == preferred_address(ifaces@[k as int].ips@));
            Some(a)
        },
    }
}

/// Whether an interface holds the address `local`.
pub open spec fn holds_address(i: InterfaceInfo, local: Seq<u8>) -> bool {
    exists|j: int| 0 <= j < i.ips@.len() && #[trigger] i.ips@[j]@ == local
}

/// Whether the socket bound to `local` can still carry traffic: the first
/// interface holding the address is up; no interface holding it means no.
pub open spec fn address_up(ifaces: Seq<InterfaceInfo>, local: Seq<u8>) -> bool {
    exists|k: int|
        0 <= k < ifaces.len() && holds_address(ifaces[k], local) && ifaces[k].up && forall|j: int|
            0 <= j < k ==> !holds_address(#[trigger] ifaces[j], local)
}

/// Decides whether the interface of a socket bound to `local` is up.
pub fn interface_up(ifaces: &Vec<InterfaceInfo>, local: &Vec<u8>) -> (r: bool)
    ensures
        r == address_up(ifaces@, local@),
{
    let mut k: usize = 0;
    while k < ifaces.len()
        invariant
            k <= ifaces@.len(),
            forall|j: int| 0 <= j < k ==> !holds_address(#[trigger] ifaces@[j], local@),
        decreases ifaces@.len() - k,
    {
        let ips = &ifaces[k].ips;
        let mut m: usize = 0;
        while m < ips.len()
            invariant
                k < ifaces@.len(),
                *ips == ifaces@[k as int].ips,
                forall|j: int| 0 <= j < k ==> !holds_address(#[trigger] ifaces@[j], local@),
                m <= ips@.len(),
                forall|j: int| 0 <= j < m ==> #[trigger] ips@[j]@ != local@,
            decreases ips@.len() - m,
        {
            if compare_hashes(local, &ips[m]) {
                let up = ifaces[k].up;
                proof {
                    assert(holds_address(ifaces@[k as int], local@));
                    if !up {
                        assert forall|k2: int|
                            0 <= k2 < ifaces@.len() && holds_address(ifaces@[k2], local@)
                                && ifaces@[k2].up implies exists|j: int|
                            0 <= j < k2 && holds_address(#[trigger] ifaces@[j], local@) by {
                            assert(k2 != k);
                            if k2 < k {
                                assert(!holds_address(ifaces@[k2], local@));
                            }
                        }
                    }
                }
                return up;
            }
            m = m + 1;
        }
        k = k + 1;
    }
    false
}

} // verus!
