//! The six packet kinds of the protocol, their byte layout on the wire and
//! the codecs between the two.
//!
//! Every packet opens with a three-byte connection id and a one-byte field
//! of flags; all integers are big-endian.

use vstd::prelude::*;
use vstd::utf8::*;
use crate::wire::{
    append_be, append_bytes, be_bytes, be_value, read_u16_be, read_u24_be, read_u32_be, read_u64_be,
    text_from_bytes, text_of_bytes,
};

verus! {

/// Largest packet the codecs are sized for.
pub const MAX_PACKET_SIZE: u64 = 1300;

/// Largest payload a data packet carries.
pub const MAX_DATA_PAYLOAD: usize = 1270;

/// The kind of a packet, as the classifiers tell it from its header.
#[derive(Debug, Clone, PartialEq, Eq, Structural)]
pub enum PacketType {
    Request,
    Response,
    Data,
    Ack,
    Metadata,
    Error,
    /// No kind could be told from the header.
    Unknown,
}

/// Representation of the Request Packet in memory
#[derive(Clone, Debug)]
pub struct RequestPacket {
    pub connection_id: u32,
    pub fields: u8,
    pub byte_offset: u64,
    pub flow_window: u16,
    pub file_name: String,
}

/// Representation of the Response Packet in memory
#[derive(Clone, Debug)]
pub struct ResponsePacket {
    pub connection_id: u32,
    pub fields: u8,
    pub block_id: u32,
    pub file_hash: [u8; 32],
    pub file_size: u64,
}

/// Representation of the Data Packet in memory
#[derive(Clone, Debug)]
pub struct DataPacket {
    pub connection_id: u32,
    pub fields: u8,
    pub block_id: u32,
    pub sequence_id: u16,
    pub data: Vec<u8>,
}

/// Representation of the ACK Packet in memory
#[derive(Clone, Debug)]
pub struct AckPacket {
    pub connection_id: u32,
    pub fields: u8,
    pub block_id: u32,
    pub flow_window: u16,
    pub length: u16,
    pub sid_list: Vec<u16>,
}

/// Representation of the Metadata Packet in memory
#[derive(Clone, Debug)]
pub struct MetadataPacket {
    pub connection_id: u32,
    pub fields: u8,
    pub block_id: u32,
    pub sequence_id: u32,
    pub new_block_size: u16,
}

/// The reasons a transfer can be refused or ended, as carried by an error
/// packet.
#[derive(Clone, Copy, Debug, PartialEq, Eq, Structural)]
pub enum ErrorTypes {
    FileUnavailable,
    ConnectionRefused,
    FileModified,
    Abort,
}

/// Representation of the Error Packet in memory
#[derive(Clone, Copy, Debug)]
pub struct ErrorPacket {
    pub connection_id: u32,
    pub fields: u8,
    pub block_id: u32,
    pub error_code: u32,
}

// ---------------------------------------------------------------------------
// Mathematical views of the packets whose fields hold text or sequences.

pub struct RequestView {
    pub connection_id: u32,
    pub fields: u8,
    pub byte_offset: u64,
    pub flow_window: u16,
    pub file_name: Seq<char>,
}

pub struct ResponseView {
    pub connection_id: u32,
    pub fields: u8,
    pub block_id: u32,
    pub file_hash: Seq<u8>,
    pub file_size: u64,
}

pub struct DataView {
    pub connection_id: u32,
    pub fields: u8,
    pub block_id: u32,
    pub sequence_id: u16,
    pub data: Seq<u8>,
}

pub struct AckView {
    pub connection_id: u32,
    pub fields: u8,
    pub block_id: u32,
    pub flow_window: u16,
    pub length: u16,
    pub sid_list: Seq<u16>,
}

impl View for RequestPacket {
    type V = RequestView;

    open spec fn view(&self) -> RequestView {
        RequestView {
            connection_id: self.connection_id,
            fields: self.fields,
            byte_offset: self.byte_offset,
            flow_window: self.flow_window,
            file_name: self.file_name@,
        }
    }
}

impl View for ResponsePacket {
    type V = ResponseView;

    open spec fn view(&self) -> ResponseView {
        ResponseView {
            connection_id: self.connection_id,
            fields: self.fields,
            block_id: self.block_id,
            file_hash: self.file_hash@,
            file_size: self.file_size,
        }
    }
}

impl View for DataPacket {
    type V = DataView;

    open spec fn view(&self) -> DataView {
        DataView {
            connection_id: self.connection_id,
            fields: self.fields,
            block_id: self.block_id,
            sequence_id: self.sequence_id,
            data: self.data@,
        }
    }
}

impl View for AckPacket {
    type V = AckView;

    open spec fn view(&self) -> AckView {
        AckView {
            connection_id: self.connection_id,
            fields: self.fields,
            block_id: self.block_id,
            flow_window: self.flow_window,
            length: self.length,
            sid_list: self.sid_list@,
        }
    }
}

/// A parse outcome seen through the views of the packet and of the message.
pub open spec fn view_parse<T: View>(r: Result<T, &'static str>) -> Result<T::V, Seq<char>> {
    match r {
        Ok(p) => Ok(p@),
        Err(e) => Err(e@),
    }
}

/// A parse outcome of a packet kind without a view.
pub open spec fn view_err<T>(r: Result<T, &'static str>) -> Result<T, Seq<char>> {
    match r {
        Ok(p) => Ok(p),
        Err(e) => Err(e@),
    }
}

// ---------------------------------------------------------------------------
// Field access on received bytes.

/// The connection id of a received packet: its first three bytes.
pub open spec fn wire_connection_id(s: Seq<u8>) -> nat {
    be_value(s.subrange(0, 3))
}

/// The big-endian integer in bytes `from .. to` of `s`.
pub open spec fn field(s: Seq<u8>, from: int, to: int) -> nat {
    be_value(s.subrange(from, to))
}

/// The three bytes that carry a connection id: its 24 low-order bits.
pub open spec fn connection_id_bytes(connection_id: u32) -> Seq<u8> {
    be_bytes(connection_id as nat, 3)
}

/// The id a connection id turns into on the wire.
pub open spec fn wire_id(connection_id: u32) -> u32 {
    (connection_id as nat % 0x1000000) as u32
}

// ---------------------------------------------------------------------------
// Layouts on the wire.

/// Request: a zero connection id, zero flags, the byte offset, the flow
/// window and the UTF-8 bytes of the file name.
pub open spec fn request_wire(byte_offset: u64, flow_window: u16, file_name: Seq<char>) -> Seq<u8> {
    seq![0u8, 0u8, 0u8, 0u8] + be_bytes(byte_offset as nat, 8) + be_bytes(flow_window as nat, 2)
        + encode_utf8(file_name)
}

/// Response: connection id, the flag 0x80, block id, file hash, file size.
pub open spec fn response_wire(connection_id: u32, block_id: u32, file_hash: Seq<u8>, file_size: u64) -> Seq<u8> {
    connection_id_bytes(connection_id) + seq![0x80u8] + be_bytes(block_id as nat, 4) + file_hash
        + be_bytes(file_size as nat, 8)
}

/// Data: connection id, zero flags, block id, sequence id, payload; nothing
/// at all where the payload is longer than a packet can carry.
pub open spec fn data_wire(connection_id: u32, block_id: u32, sequence_id: u16, data: Seq<u8>) -> Seq<u8> {
    if data.len() > MAX_DATA_PAYLOAD {
        Seq::empty()
    } else {
        connection_id_bytes(connection_id) + seq![0u8] + be_bytes(block_id as nat, 4) + be_bytes(
            sequence_id as nat,
            2,
        ) + data
    }
}

/// The two-byte encodings of a list of sequence ids, one after the other.
pub open spec fn sid_list_wire(sids: Seq<u16>) -> Seq<u8>
    decreases sids.len(),
{
    if sids.len() == 0 {
        Seq::empty()
    } else {
        sid_list_wire(sids.drop_last()) + be_bytes(sids.last() as nat, 2)
    }
}

/// Ack: connection id, the flag 0x80, block id, flow window, list length
/// and the listed sequence ids.
pub open spec fn ack_wire(connection_id: u32, block_id: u32, flow_window: u16, length: u16, sids: Seq<u16>) -> Seq<u8> {
    connection_id_bytes(connection_id) + seq![0x80u8] + be_bytes(block_id as nat, 4) + be_bytes(
        flow_window as nat,
        2,
    ) + be_bytes(length as nat, 2) + sid_list_wire(sids)
}

/// Metadata: connection id, zero flags, block id, a zero sequence id and
/// the size of the next block.
pub open spec fn metadata_wire(connection_id: u32, block_id: u32, new_block_size: u16) -> Seq<u8> {
    connection_id_bytes(connection_id) + seq![0u8] + be_bytes(block_id as nat, 4) + be_bytes(0, 4)
        + be_bytes(new_block_size as nat, 2)
}

/// Error: connection id, the flag 0x40, block id, error code.
pub open spec fn error_wire(connection_id: u32, block_id: u32, error_code: u32) -> Seq<u8> {
    connection_id_bytes(connection_id) + seq![0x40u8] + be_bytes(block_id as nat, 4) + be_bytes(
        error_code as nat,
        4,
    )
}

// ---------------------------------------------------------------------------
// What the parsers make of received bytes.

pub open spec fn parse_request(s: Seq<u8>) -> Result<RequestView, Seq<char>> {
    if s.len() > 279 || s.len() < 14 {
        Err("Parsing Request Packet failed."@)
    } else if wire_connection_id(s) != 0 {
        Err("Parsing Request Packet failed. Invalid ID."@)
    } else {
        Ok(
            RequestView {
                connection_id: 0,
                fields: s[3],
                byte_offset: field(s, 4, 12) as u64,
                flow_window: field(s, 12, 14) as u16,
                file_name: text_of_bytes(s.subrange(14, s.len() as int)),
            },
        )
    }
}

pub open spec fn parse_response(s: Seq<u8>) -> Result<ResponseView, Seq<char>> {
    if s.len() != 48 {
        Err("Parsing Response Packet"@)
    } else {
        Ok(
            ResponseView {
                connection_id: wire_connection_id(s) as u32,
                fields: s[3],
                block_id: field(s, 4, 8) as u32,
                file_hash: s.subrange(8, 40),
                file_size: field(s, 40, 48) as u64,
            },
        )
    }
}

pub open spec fn parse_data(s: Seq<u8>) -> Result<DataView, Seq<char>> {
    if s.len() < 10 {
        Err("Parsing Data Packet too small"@)
    } else if field(s, 8, 10) == 0 {
        Err("Parsing Data Packet"@)
    } else {
        Ok(
            DataView {
                connection_id: wire_connection_id(s) as u32,
                fields: s[3],
                block_id: field(s, 4, 8) as u32,
                sequence_id: field(s, 8, 10) as u16,
                data: s.subrange(10, s.len() as int),
            },
        )
    }
}

/// The `count` sequence ids listed from byte 12 on.
pub open spec fn listed_sids(s: Seq<u8>, count: nat) -> Seq<u16> {
    Seq::new(count, |k: int| field(s, 12 + 2 * k, 14 + 2 * k) as u16)
}

/// The bytes of an ack hold every sequence id its length field announces.
pub open spec fn ack_list_fits(s: Seq<u8>) -> bool {
    12 + 2 * field(s, 10, 12) <= s.len()
}

pub open spec fn parse_ack(s: Seq<u8>) -> Result<AckView, Seq<char>> {
    if s.len() < 12 || (s.len() - 12) % 2 != 0 || !ack_list_fits(s) {
        Err("Parsing ACK Packet"@)
    } else {
        Ok(
            AckView {
                connection_id: wire_connection_id(s) as u32,
                fields: s[3],
                block_id: field(s, 4, 8) as u32,
                flow_window: field(s, 8, 10) as u16,
                length: field(s, 10, 12) as u16,
                sid_list: listed_sids(s, field(s, 10, 12)),
            },
        )
    }
}

pub open spec fn parse_metadata(s: Seq<u8>) -> Result<MetadataPacket, Seq<char>> {
    if s.len() != 14 {
        Err("Malformed metadata packet could not be parsed."@)
    } else if wire_connection_id(s) == 0 {
        Err("ConnectionID 0 is invalid for Metadata"@)
    } else {
        Ok(
            MetadataPacket {
                connection_id: wire_connection_id(s) as u32,
                fields: s[3],
                block_id: field(s, 4, 8) as u32,
                sequence_id: field(s, 8, 12) as u32,
                new_block_size: field(s, 12, 14) as u16,
            },
        )
    }
}

pub open spec fn parse_error(s: Seq<u8>) -> Result<ErrorPacket, Seq<char>> {
    if s.len() != 12 {
        Err("Malformed error packet"@)
    } else {
        Ok(
            ErrorPacket {
                connection_id: wire_connection_id(s) as u32,
                fields: s[3],
                block_id: field(s, 4, 8) as u32,
                error_code: field(s, 8, 12) as u32,
            },
        )
    }
}

// ---------------------------------------------------------------------------
// Encoders and decoders.

/// Appends the three bytes of a connection id.
fn append_connection_id(buf: &mut Vec<u8>, connection_id: u32)
    ensures
        final(buf)@ == old(buf)@ + connection_id_bytes(connection_id),
{
    append_be(buf, connection_id as u64, 3);
}

/// The big-endian integer in bytes `from .. to` of `buf`, read by
/// byteorder.
fn read_field_u16(buf: &[u8], from: usize) -> (r: u16)
    requires
        from + 2 <= buf@.len(),
    ensures
        r == field(buf@, from as int, from + 2),
{
    let total = buf.len();
    assert(from + 2 <= total);
    let part = vstd::slice::slice_subrange(buf, from, from + 2);
    assert(part@.subrange(0, 2) == buf@.subrange(from as int, from + 2));
    read_u16_be(part)
}

fn read_field_u32(buf: &[u8], from: usize) -> (r: u32)
    requires
        from + 4 <= buf@.len(),
    ensures
        r == field(buf@, from as int, from + 4),
{
    let total = buf.len();
    assert(from + 4 <= total);
    let part = vstd::slice::slice_subrange(buf, from, from + 4);
    assert(part@.subrange(0, 4) == buf@.subrange(from as int, from + 4));
    read_u32_be(part)
}

fn read_field_u64(buf: &[u8], from: usize) -> (r: u64)
    requires
        from + 8 <= buf@.len(),
    ensures
        r == field(buf@, from as int, from + 8),
{
    let total = buf.len();
    assert(from + 8 <= total);
    let part = vstd::slice::slice_subrange(buf, from, from + 8);
    assert(part@.subrange(0, 8) == buf@.subrange(from as int, from + 8));
    read_u64_be(part)
}

impl RequestPacket {
    /// Creates a byte representation of a request packet with given parameters in an u8 vector
    pub fn serialize(byte_offset: &u64, flow_window: &u16, file_name: &String) -> (r: Vec<u8>)
        ensures
            r@ == request_wire(*byte_offset, *flow_window, file_name@),
    {
        let mut buffer: Vec<u8> = Vec::with_capacity(MAX_PACKET_SIZE as usize);
        buffer.push(0);
        buffer.push(0);
        buffer.push(0);
        buffer.push(0);
        append_be(&mut buffer, *byte_offset, 8);
        append_be(&mut buffer, *flow_window as u64, 2);
        let name_bytes = file_name.as_str().as_bytes();
        append_bytes(&mut buffer, name_bytes);
        assert(seq![0u8, 0u8, 0u8, 0u8] == Seq::<u8>::empty().push(0).push(0).push(0).push(0));
        buffer
    }

    /// Parses a slice of u8 received over the network and returns a request packet or Failure
    pub fn deserialize(buffer: &[u8]) -> (r: Result<RequestPacket, &'static str>)
        ensures
            view_parse(r) == parse_request(buffer@),
    {
        if buffer.len() > 279 || buffer.len() < 14 {
            return Err("Parsing Request Packet failed.");
        }
        let connection_id = read_u24_be(buffer);
        if connection_id != 0 {
            return Err("Parsing Request Packet failed. Invalid ID.");
        }
        let name = vstd::slice::slice_subrange(buffer, 14, buffer.len());
        Ok(
            RequestPacket {
                connection_id: connection_id,
                fields: buffer[3],
                byte_offset: read_field_u64(buffer, 4),
                flow_window: read_field_u16(buffer, 12),
                file_name: text_from_bytes(name),
            },
        )
    }
}

impl ResponsePacket {
    /// Creates a byte representation of a response packet with given parameters in an u8 vector
    pub fn serialize(connection_id: &u32, block_id: &u32, file_hash: &[u8; 32], file_size: &u64) -> (r: Vec<u8>)
        ensures
            r@ == response_wire(*connection_id, *block_id, file_hash@, *file_size),
    {
        let mut buffer: Vec<u8> = Vec::with_capacity(48);
        append_connection_id(&mut buffer, *connection_id);
        buffer.push(0x80);
        append_be(&mut buffer, *block_id as u64, 4);
        append_bytes(&mut buffer, file_hash.as_slice());
        append_be(&mut buffer, *file_size, 8);
        buffer
    }

    /// Parses a slice of u8 received over the network and returns a response packet or Failure
    pub fn deserialize(buffer: &[u8]) -> (r: Result<ResponsePacket, &'static str>)
        ensures
            view_parse(r) == parse_response(buffer@),
    {
        if buffer.len() != 48 {
            return Err("Parsing Response Packet");
        }
        let mut file_hash: [u8; 32] = [0; 32];
        let mut i: usize = 0;
        while i < 32
            invariant
                buffer@.len() == 48,
                i <= 32,
                forall|k: int| 0 <= k < i ==> file_hash@[k] == buffer@[8 + k],
            decreases 32 - i,
        {
            file_hash[i] = buffer[8 + i];
            i = i + 1;
        }
        assert(file_hash@ == buffer@.subrange(8, 40));
        Ok(
            ResponsePacket {
                connection_id: read_u24_be(buffer),
                fields: buffer[3],
                block_id: read_field_u32(buffer, 4),
                file_hash: file_hash,
                file_size: read_field_u64(buffer, 40),
            },
        )
    }
}

impl DataPacket {
    /// Creates a byte representation of a data packet with given parameters in an u8 vector
    pub fn serialize(connection_id: &u32, block_id: &u32, sequence_id: &u16, data: &Vec<u8>) -> (r: Vec<u8>)
        ensures
            r@ == data_wire(*connection_id, *block_id, *sequence_id, data@),
    {
        if data.len() > MAX_DATA_PAYLOAD {
            return Vec::new();
        }
        let mut buffer: Vec<u8> = Vec::with_capacity(MAX_PACKET_SIZE as usize);
        append_connection_id(&mut buffer, *connection_id);
        buffer.push(0);
        append_be(&mut buffer, *block_id as u64, 4);
        append_be(&mut buffer, *sequence_id as u64, 2);
        append_bytes(&mut buffer, data.as_slice());
        buffer
    }

    /// Parses a slice of u8 received over the network and returns a data packet or Failure
    pub fn deserialize(buffer: &[u8]) -> (r: Result<DataPacket, &'static str>)
        ensures
            view_parse(r) == parse_data(buffer@),
    {
        if buffer.len() < 10 {
            return Err("Parsing Data Packet too small");
        }
        let seq_id = read_field_u16(buffer, 8);
        if seq_id == 0 {
            return Err("Parsing Data Packet");
        }
        let payload = vstd::slice::slice_subrange(buffer, 10, buffer.len());
        Ok(
            DataPacket {
                connection_id: read_u24_be(buffer),
                fields: buffer[3],
                block_id: read_field_u32(buffer, 4),
                sequence_id: seq_id,
                data: vstd::slice::slice_to_vec(payload),
            },
        )
    }
}

impl AckPacket {
    /// Creates a byte representation of a ACK packet with given parameters in an u8 vector
    pub fn serialize(connection_id: &u32, block_id: &u32, flow_window: &u16, length: &u16, sid_list: &Vec<u16>) -> (r: Vec<u8>)
        ensures
            r@ == ack_wire(*connection_id, *block_id, *flow_window, *length, sid_list@),
    {
        let mut buffer: Vec<u8> = Vec::with_capacity(MAX_PACKET_SIZE as usize);
        append_connection_id(&mut buffer, *connection_id);
        buffer.push(0x80);
        append_be(&mut buffer, *block_id as u64, 4);
        append_be(&mut buffer, *flow_window as u64, 2);
        append_be(&mut buffer, *length as u64, 2);
        let ghost header = buffer@;
        let mut i: usize = 0;
        while i < sid_list.len()
            invariant
                i <= sid_list@.len(),
                buffer@ == header + sid_list_wire(sid_list@.subrange(0, i as int)),
            decreases sid_list@.len() - i,
        {
            append_be(&mut buffer, sid_list[i] as u64, 2);
            i = i + 1;
            assert(sid_list@.subrange(0, i as int).drop_last() == sid_list@.subrange(0, i - 1));
        }
        assert(sid_list@.subrange(0, sid_list@.len() as int) == sid_list@);
        buffer
    }

    /// Parses a slice of u8 received over the network and returns a ACK packet or Failure
    pub fn deserialize(buffer: &[u8]) -> (r: Result<AckPacket, &'static str>)
        ensures
            view_parse(r) == parse_ack(buffer@),
    {
        if buffer.len() < 12 || (buffer.len() - 12) % 2 != 0 {
            return Err("Parsing ACK Packet");
        }
        let ack_length = read_field_u16(buffer, 10);
        if 12 + 2 * (ack_length as usize) > buffer.len() {
            return Err("Parsing ACK Packet");
        }
        let mut sid_list: Vec<u16> = Vec::new();
        let mut k: usize = 0;
        while k < ack_length as usize
            invariant
                k <= ack_length,
                ack_length == field(buffer@, 10, 12),
                12 + 2 * ack_length <= buffer@.len(),
                sid_list@ == listed_sids(buffer@, k as nat),
            decreases ack_length - k,
        {
            let n = 12 + 2 * k;
            let cur_sid = read_field_u16(buffer, n);
            sid_list.push(cur_sid);
            k = k + 1;
            assert(sid_list@ == listed_sids(buffer@, k as nat));
        }
        Ok(
            AckPacket {
                connection_id: read_u24_be(buffer),
                fields: buffer[3],
                block_id: read_field_u32(buffer, 4),
                flow_window: read_field_u16(buffer, 8),
                length: ack_length,
                sid_list: sid_list,
            },
        )
    }
}

impl MetadataPacket {
    /// Creates a byte representation of a metadata packet with given parameters in an u8 vector
    pub fn serialize(connection_id: &u32, block_id: &u32, new_block_size: &u16) -> (r: Vec<u8>)
        ensures
            r@ == metadata_wire(*connection_id, *block_id, *new_block_size),
    {
        let mut buffer: Vec<u8> = Vec::with_capacity(MAX_PACKET_SIZE as usize);
        let sequence_id: u32 = 0x0;
        append_connection_id(&mut buffer, *connection_id);
        buffer.push(0);
        append_be(&mut buffer, *block_id as u64, 4);
        append_be(&mut buffer, sequence_id as u64, 4);
        append_be(&mut buffer, *new_block_size as u64, 2);
        buffer
    }

    /// Parses a slice of u8 received over the network and returns a Metadata packet or Failure
    pub fn deserialize(buffer: &[u8]) -> (r: Result<MetadataPacket, &'static str>)
        ensures
            view_err(r) == parse_metadata(buffer@),
    {
        if buffer.len() != 14 {
            return Err("Malformed metadata packet could not be parsed.");
        }
        let connection_id = read_u24_be(buffer);
        if connection_id == 0 {
            return Err("ConnectionID 0 is invalid for Metadata");
        }
        Ok(
            MetadataPacket {
                connection_id: connection_id,
                fields: buffer[3],
                block_id: read_field_u32(buffer, 4),
                sequence_id: read_field_u32(buffer, 8),
                new_block_size: read_field_u16(buffer, 12),
            },
        )
    }
}

impl ErrorPacket {
    /// Creates a byte representation of a error packet with given parameters in an u8 vector
    pub fn serialize(connection_id: &u32, block_id: &u32, error_code: &u32) -> (r: Vec<u8>)
        ensures
            r@ == error_wire(*connection_id, *block_id, *error_code),
    {
        let mut buffer: Vec<u8> = Vec::with_capacity(MAX_PACKET_SIZE as usize);
        append_connection_id(&mut buffer, *connection_id);
        buffer.push(0x40);
        append_be(&mut buffer, *block_id as u64, 4);
        append_be(&mut buffer, *error_code as u64, 4);
        buffer
    }

    /// Parses a slice of u8 received over the network and returns a error packet or Failure
    pub fn deserialize(buffer: &[u8]) -> (r: Result<ErrorPacket, &'static str>)
        ensures
            view_err(r) == parse_error(buffer@),
    {
        if buffer.len() != 12 {
            return Err("Malformed error packet");
        }
        Ok(
            ErrorPacket {
                connection_id: read_u24_be(buffer),
                fields: buffer[3],
                block_id: read_field_u32(buffer, 4),
                error_code: read_field_u32(buffer, 8),
            },
        )
    }
}

/// The connection id of a packet, read from its first three bytes.
pub fn get_connection_id(packet: &Vec<u8>) -> (r: Result<u32, ()>)
    ensures
        packet@.len() < 4 ==> r == Err::<u32, ()>(()),
        packet@.len() >= 4 ==> r == Ok::<u32, ()>(wire_connection_id(packet@) as u32),
{
    if packet.len() < 4 {
        Err(())
    } else {
        Ok(read_u24_be(packet.as_slice()))
    }
}

/// Flag tests on the byte that follows the block id, read as ranges.
proof fn lemma_flag_ranges(f: u8)
    by (bit_vector)
    ensures
        (f & 0x80 == 0x80) == (f >= 0x80),
        f < 0x80 ==> ((f & 0x40 == 0x40) == (f >= 0x40)),
        (f & 0xE0 == 0) == (f < 0x20),
{
}

/// The kind `get_packet_type` reads from a header: a zero connection id
/// means a request; otherwise byte 7 decides. No header is told to be
/// metadata.
pub open spec fn header_packet_type(s: Seq<u8>) -> PacketType {
    if wire_connection_id(s) == 0 {
        PacketType::Request
    } else if s[7] >= 0x80 {
        PacketType::Ack
    } else if s[7] >= 0x40 {
        PacketType::Error
    } else if s[7] == 0 {
        PacketType::Data
    } else {
        PacketType::Unknown
    }
}

pub fn get_packet_type(packet: &Vec<u8>) -> (r: PacketType)
    requires
        packet@.len() >= 3,
        wire_connection_id(packet@) != 0 ==> packet@.len() >= 8,
    ensures
        r == header_packet_type(packet@),
{
    let connection_id = read_u24_be(packet.as_slice());
    if connection_id == 0 {
        return PacketType::Request;
    }
    let flags = packet[7];
    proof {
        lemma_flag_ranges(flags);
    }
    if flags & 0x80 == 0x80 {
        return PacketType::Ack;
    } else if flags & 0x40 == 0x40 {
        return PacketType::Error;
    } else if flags % 0x20 == 0x20 {
        return PacketType::Metadata;
    } else if flags % 0xE0 == 0 {
        return PacketType::Data;
    }
    PacketType::Unknown
}

/// Whether the flags (byte 3) and connection id of a packet fit the kind.
pub open spec fn packet_has_type(s: Seq<u8>, p_type: PacketType) -> bool {
    match p_type {
        PacketType::Ack => s[3] & 0x80 == 0x80,
        PacketType::Data => s[3] & 0xE0 == 0x00,
        PacketType::Error => s[3] & 0x40 == 0x40,
        PacketType::Metadata => s[3] & 0x20 == 0x20,
        PacketType::Request => wire_connection_id(s) == 0,
        PacketType::Response => wire_connection_id(s) != 0 && s[3] & 0x80 == 0x80,
        PacketType::Unknown => false,
    }
}

pub fn check_packet_type(packet: &Vec<u8>, p_type: PacketType) -> (r: bool)
    requires
        packet@.len() >= 3,
        p_type != PacketType::Request && p_type != PacketType::Unknown && !(p_type
            == PacketType::Response && wire_connection_id(packet@) == 0) ==> packet@.len() >= 4,
    ensures
        r == packet_has_type(packet@, p_type),
{
    let connection_id = read_u24_be(packet.as_slice());
    match p_type {
        PacketType::Ack => packet[3] & 0x80 == 0x80,
        PacketType::Data => packet[3] & 0xE0 == 0x00,
        PacketType::Error => packet[3] & 0x40 == 0x40,
        PacketType::Metadata => packet[3] & 0x20 == 0x20,
        PacketType::Request => connection_id == 0,
        PacketType::Response => connection_id != 0 && packet[3] & 0b10000000 == 0b10000000,
        PacketType::Unknown => false,
    }
}

/// The kind a client tells a packet to be: by its flags, and a zero
/// sequence id telling metadata from data.
pub open spec fn client_packet_type(s: Seq<u8>) -> PacketType {
    if s.len() < 10 {
        PacketType::Unknown
    } else if s[3] == 0x40 {
        PacketType::Error
    } else if s[3] == 0x80 {
        PacketType::Response
    } else if s[3] == 0 {
        if field(s, 8, 10) == 0 {
            PacketType::Metadata
        } else {
            PacketType::Data
        }
    } else {
        PacketType::Unknown
    }
}

pub fn get_packet_type_client(packet: &Vec<u8>) -> (r: PacketType)
    ensures
        r == client_packet_type(packet@),
{
    if packet.len() < 10 {
        return PacketType::Unknown;
    }
    let fields: u8 = packet[3];
    match fields {
        0b01000000 => PacketType::Error,
        0b10000000 => PacketType::Response,
        0b00000000 => {
            let sequence_id: u16 = read_field_u16(packet.as_slice(), 8);
            if sequence_id == 0 {
                return PacketType::Metadata;
            }
            PacketType::Data
        },
        _ => PacketType::Unknown,
    }
}

/// The kind a server tells a packet to be: a zero connection id means a
/// request; otherwise the flags decide.
pub open spec fn server_packet_type(s: Seq<u8>) -> PacketType {
    if wire_connection_id(s) == 0 {
        PacketType::Request
    } else if s[3] == 0x40 {
        PacketType::Error
    } else if s[3] == 0x80 {
        PacketType::Ack
    } else {
        PacketType::Unknown
    }
}

pub fn get_packet_type_server(packet: &Vec<u8>) -> (r: PacketType)
    requires
        packet@.len() >= 3,
        wire_connection_id(packet@) != 0 ==> packet@.len() >= 4,
    ensures
        r == server_packet_type(packet@),
{
    let connection_id = read_u24_be(packet.as_slice());
    if connection_id == 0 {
        return PacketType::Request;
    }
    let fields: u8 = packet[3];
    match fields {
        0b01000000 => PacketType::Error,
        0b10000000 => PacketType::Ack,
        _ => PacketType::Unknown,
    }
}

} // verus!
