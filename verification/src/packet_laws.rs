//! What the codecs promise together: a packet that is serialized and parsed
//! again comes back field by field, and the classifiers tell each kind of
//! serialized packet for what it is.

use vstd::prelude::*;
use vstd::utf8::*;
use crate::wire::{be_bytes, be_value, pow256, lemma_be_bytes_len, lemma_be_value_of_bytes, lemma_be_value_3};
use crate::packets::{
    ack_list_fits, ack_wire, client_packet_type, connection_id_bytes, data_wire, error_wire, field,
    header_packet_type, listed_sids, metadata_wire, packet_has_type, parse_ack, parse_data, parse_error, parse_metadata, parse_request,
    parse_response, request_wire, response_wire, server_packet_type, sid_list_wire, wire_connection_id,
    wire_id, AckView, DataView, ErrorPacket, MetadataPacket, PacketType, RequestView, ResponseView,
    MAX_DATA_PAYLOAD,
};

verus! {

proof fn lemma_pow256_values()
    ensures
        pow256(2) == 0x10000,
        pow256(3) == 0x1000000,
        pow256(4) == 0x1_0000_0000,
        pow256(8) == 0x1_0000_0000_0000_0000,
{
    reveal_with_fuel(pow256, 9);
}

/// The `n`-byte encoding of a value below `256^n` has length `n` and reads
/// back as the value.
proof fn lemma_be_roundtrip(v: nat, n: nat)
    requires
        v < pow256(n),
    ensures
        be_bytes(v, n).len() == n,
        be_value(be_bytes(v, n)) == v,
{
    lemma_be_bytes_len(v, n);
    lemma_be_value_of_bytes(v, n);
    vstd::arithmetic::div_mod::lemma_small_mod(v, pow256(n));
}

/// The three connection-id bytes read back as the 24 low-order bits.
proof fn lemma_connection_id_bytes(c: u32)
    ensures
        connection_id_bytes(c).len() == 3,
        be_value(connection_id_bytes(c)) == wire_id(c),
{
    lemma_be_bytes_len(c as nat, 3);
    lemma_be_value_of_bytes(c as nat, 3);
    lemma_pow256_values();
}

proof fn lemma_sid_list_wire(sids: Seq<u16>)
    ensures
        sid_list_wire(sids).len() == 2 * sids.len(),
        forall|k: int|
            0 <= k < sids.len() ==> #[trigger] sid_list_wire(sids).subrange(2 * k, 2 * k + 2)
                == be_bytes(sids[k] as nat, 2),
    decreases sids.len(),
{
    if sids.len() > 0 {
        let front = sids.drop_last();
        lemma_sid_list_wire(front);
        lemma_be_bytes_len(sids.last() as nat, 2);
        let w = sid_list_wire(sids);
        assert(w == sid_list_wire(front) + be_bytes(sids.last() as nat, 2));
        assert forall|k: int| 0 <= k < sids.len() implies #[trigger] sid_list_wire(sids).subrange(
            2 * k,
            2 * k + 2,
        ) == be_bytes(sids[k] as nat, 2) by {
            if k < sids.len() - 1 {
                assert(w.subrange(2 * k, 2 * k + 2) =~= sid_list_wire(front).subrange(2 * k, 2 * k + 2));
                assert(front[k] == sids[k]);
            } else {
                assert(w.subrange(2 * k, 2 * k + 2) =~= be_bytes(sids.last() as nat, 2));
            }
        }
    }
}

/// A request read back from its own bytes gives the offset, flow window and
/// file name it was made from, under the zero connection id, as long as the
/// name's UTF-8 bytes keep the packet within 279 bytes.
pub proof fn request_roundtrip(byte_offset: u64, flow_window: u16, file_name: Seq<char>)
    requires
        encode_utf8(file_name).len() <= 265,
    ensures
        request_wire(byte_offset, flow_window, file_name).len() >= 14,
        parse_request(request_wire(byte_offset, flow_window, file_name)) == Ok::<RequestView, Seq<char>>(
            RequestView {
                connection_id: 0,
                fields: 0,
                byte_offset: byte_offset,
                flow_window: flow_window,
                file_name: file_name,
            },
        ),
{
    lemma_pow256_values();
    lemma_be_roundtrip(byte_offset as nat, 8);
    lemma_be_roundtrip(flow_window as nat, 2);
    let name = encode_utf8(file_name);
    let w = request_wire(byte_offset, flow_window, file_name);
    let zeros = seq![0u8, 0u8, 0u8, 0u8];
    assert(w.subrange(0, 3) =~= seq![0u8, 0u8, 0u8]);
    reveal_with_fuel(be_value, 4);
    assert(be_value(seq![0u8, 0u8, 0u8]) == 0) by {
        assert(seq![0u8, 0u8, 0u8].drop_last() =~= seq![0u8, 0u8]);
        assert(seq![0u8, 0u8].drop_last() =~= seq![0u8]);
        assert(seq![0u8].drop_last() =~= Seq::<u8>::empty());
    }
    assert(w.subrange(4, 12) =~= be_bytes(byte_offset as nat, 8));
    assert(w.subrange(12, 14) =~= be_bytes(flow_window as nat, 2));
    assert(w.subrange(14, w.len() as int) =~= name);
    encode_utf8_valid_utf8(file_name);
    encode_utf8_decode_utf8(file_name);
}

/// A response read back from its own bytes gives its fields, the
/// connection id cut to its 24 low-order bits.
pub proof fn response_roundtrip(connection_id: u32, block_id: u32, file_hash: Seq<u8>, file_size: u64)
    requires
        file_hash.len() == 32,
    ensures
        parse_response(response_wire(connection_id, block_id, file_hash, file_size)) == Ok::<
            ResponseView,
            Seq<char>,
        >(
            ResponseView {
                connection_id: wire_id(connection_id),
                fields: 0x80,
                block_id: block_id,
                file_hash: file_hash,
                file_size: file_size,
            },
        ),
{
    lemma_pow256_values();
    lemma_connection_id_bytes(connection_id);
    lemma_be_roundtrip(block_id as nat, 4);
    lemma_be_roundtrip(file_size as nat, 8);
    let w = response_wire(connection_id, block_id, file_hash, file_size);
    assert(w.subrange(0, 3) =~= connection_id_bytes(connection_id));
    assert(w.subrange(4, 8) =~= be_bytes(block_id as nat, 4));
    assert(w.subrange(8, 40) =~= file_hash);
    assert(w.subrange(40, 48) =~= be_bytes(file_size as nat, 8));
}

/// A data packet read back from its own bytes gives its fields, the
/// connection id cut to its 24 low-order bits, whenever the payload fits a
/// packet and the sequence id is not zero.
pub proof fn data_roundtrip(connection_id: u32, block_id: u32, sequence_id: u16, data: Seq<u8>)
    requires
        data.len() <= MAX_DATA_PAYLOAD,
        sequence_id != 0,
    ensures
        data_wire(connection_id, block_id, sequence_id, data).len() >= 10,
        parse_data(data_wire(connection_id, block_id, sequence_id, data)) == Ok::<DataView, Seq<char>>(
            DataView {
                connection_id: wire_id(connection_id),
                fields: 0,
                block_id: block_id,
                sequence_id: sequence_id,
                data: data,
            },
        ),
{
    lemma_pow256_values();
    lemma_connection_id_bytes(connection_id);
    lemma_be_roundtrip(block_id as nat, 4);
    lemma_be_roundtrip(sequence_id as nat, 2);
    let w = data_wire(connection_id, block_id, sequence_id, data);
    assert(w.subrange(0, 3) =~= connection_id_bytes(connection_id));
    assert(w.subrange(4, 8) =~= be_bytes(block_id as nat, 4));
    assert(w.subrange(8, 10) =~= be_bytes(sequence_id as nat, 2));
    assert(w.subrange(10, w.len() as int) =~= data);
}

/// An ack read back from its own bytes gives its fields and its list of
/// sequence ids, the connection id cut to its 24 low-order bits, whenever
/// the length field counts the listed ids.
pub proof fn ack_roundtrip(connection_id: u32, block_id: u32, flow_window: u16, length: u16, sids: Seq<u16>)
    requires
        sids.len() == length,
    ensures
        ack_wire(connection_id, block_id, flow_window, length, sids).len() >= 12,
        ack_list_fits(ack_wire(connection_id, block_id, flow_window, length, sids)),
        parse_ack(ack_wire(connection_id, block_id, flow_window, length, sids)) == Ok::<AckView, Seq<char>>(
            AckView {
                connection_id: wire_id(connection_id),
                fields: 0x80,
                block_id: block_id,
                flow_window: flow_window,
                length: length,
                sid_list: sids,
            },
        ),
{
    lemma_pow256_values();
    lemma_connection_id_bytes(connection_id);
    lemma_be_roundtrip(block_id as nat, 4);
    lemma_be_roundtrip(flow_window as nat, 2);
    lemma_be_roundtrip(length as nat, 2);
    lemma_sid_list_wire(sids);
    let w = ack_wire(connection_id, block_id, flow_window, length, sids);
    let list = sid_list_wire(sids);
    assert(w.subrange(0, 3) =~= connection_id_bytes(connection_id));
    assert(w.subrange(4, 8) =~= be_bytes(block_id as nat, 4));
    assert(w.subrange(8, 10) =~= be_bytes(flow_window as nat, 2));
    assert(w.subrange(10, 12) =~= be_bytes(length as nat, 2));
    assert forall|k: int| 0 <= k < sids.len() implies field(w, 12 + 2 * k, 14 + 2 * k) == sids[k] by {
        assert(w.subrange(12 + 2 * k, 14 + 2 * k) =~= list.subrange(2 * k, 2 * k + 2));
        assert(list.subrange(2 * k, 2 * k + 2) == be_bytes(sids[k] as nat, 2));
        lemma_be_roundtrip(sids[k] as nat, 2);
    }
    assert(listed_sids(w, length as nat) =~= sids);
}

/// A metadata packet read back from its own bytes gives its fields with a
/// zero sequence id, the connection id cut to its 24 low-order bits; one
/// whose id is zero on the wire is refused.
pub proof fn metadata_roundtrip(connection_id: u32, block_id: u32, new_block_size: u16)
    ensures
        wire_id(connection_id) != 0 ==> parse_metadata(metadata_wire(connection_id, block_id, new_block_size))
            == Ok::<MetadataPacket, Seq<char>>(
            MetadataPacket {
                connection_id: wire_id(connection_id),
                fields: 0,
                block_id: block_id,
                sequence_id: 0,
                new_block_size: new_block_size,
            },
        ),
        wire_id(connection_id) == 0 ==> parse_metadata(metadata_wire(connection_id, block_id, new_block_size))
            == Err::<MetadataPacket, Seq<char>>("ConnectionID 0 is invalid for Metadata"@),
{
    lemma_pow256_values();
    lemma_connection_id_bytes(connection_id);
    lemma_be_roundtrip(block_id as nat, 4);
    lemma_be_roundtrip(0, 4);
    lemma_be_roundtrip(new_block_size as nat, 2);
    let w = metadata_wire(connection_id, block_id, new_block_size);
    assert(w.subrange(0, 3) =~= connection_id_bytes(connection_id));
    assert(w.subrange(4, 8) =~= be_bytes(block_id as nat, 4));
    assert(w.subrange(8, 12) =~= be_bytes(0, 4));
    assert(w.subrange(12, 14) =~= be_bytes(new_block_size as nat, 2));
}

/// An error packet read back from its own bytes gives its fields, the
/// connection id cut to its 24 low-order bits.
pub proof fn error_roundtrip(connection_id: u32, block_id: u32, error_code: u32)
    ensures
        parse_error(error_wire(connection_id, block_id, error_code)) == Ok::<ErrorPacket, Seq<char>>(
            ErrorPacket {
                connection_id: wire_id(connection_id),
                fields: 0x40,
                block_id: block_id,
                error_code: error_code,
            },
        ),
{
    lemma_pow256_values();
    lemma_connection_id_bytes(connection_id);
    lemma_be_roundtrip(block_id as nat, 4);
    lemma_be_roundtrip(error_code as nat, 4);
    let w = error_wire(connection_id, block_id, error_code);
    assert(w.subrange(0, 3) =~= connection_id_bytes(connection_id));
    assert(w.subrange(4, 8) =~= be_bytes(block_id as nat, 4));
    assert(w.subrange(8, 12) =~= be_bytes(error_code as nat, 4));
}

/// The server tells its own kinds of packets apart: a request is a request,
/// an error and an ack whose connection id is not zero on the wire are an
/// error and an ack.
pub proof fn server_classifies_serialized(
    connection_id: u32,
    block_id: u32,
    flow_window: u16,
    length: u16,
    sids: Seq<u16>,
    error_code: u32,
    byte_offset: u64,
    file_name: Seq<char>,
)
    requires
        wire_id(connection_id) != 0,
    ensures
        server_packet_type(request_wire(byte_offset, flow_window, file_name)) == PacketType::Request,
        server_packet_type(error_wire(connection_id, block_id, error_code)) == PacketType::Error,
        server_packet_type(ack_wire(connection_id, block_id, flow_window, length, sids))
            == PacketType::Ack,
{
    request_roundtrip_header(byte_offset, flow_window, file_name);
    lemma_connection_id_bytes(connection_id);
    let e = error_wire(connection_id, block_id, error_code);
    let a = ack_wire(connection_id, block_id, flow_window, length, sids);
    assert(e.subrange(0, 3) =~= connection_id_bytes(connection_id));
    assert(a.subrange(0, 3) =~= connection_id_bytes(connection_id));
}

/// The first four bytes of a request: zero connection id and zero flags.
proof fn request_roundtrip_header(byte_offset: u64, flow_window: u16, file_name: Seq<char>) -> (w: Seq<u8>)
    ensures
        w == request_wire(byte_offset, flow_window, file_name),
        w.len() >= 4,
        wire_connection_id(w) == 0,
        w[3] == 0,
{
    let w = request_wire(byte_offset, flow_window, file_name);
    lemma_be_bytes_len(byte_offset as nat, 8);
    assert(w.subrange(0, 3) =~= seq![0u8, 0u8, 0u8]);
    reveal_with_fuel(be_value, 4);
    assert(be_value(seq![0u8, 0u8, 0u8]) == 0) by {
        assert(seq![0u8, 0u8, 0u8].drop_last() =~= seq![0u8, 0u8]);
        assert(seq![0u8, 0u8].drop_last() =~= seq![0u8]);
        assert(seq![0u8].drop_last() =~= Seq::<u8>::empty());
    }
    w
}

/// The client tells the packets a server sends apart: errors, metadata,
/// data with a payload that fits and a nonzero sequence id, and responses.
pub proof fn client_classifies_serialized(
    connection_id: u32,
    block_id: u32,
    error_code: u32,
    new_block_size: u16,
    sequence_id: u16,
    data: Seq<u8>,
    file_hash: Seq<u8>,
    file_size: u64,
)
    requires
        data.len() <= MAX_DATA_PAYLOAD,
        sequence_id != 0,
        file_hash.len() == 32,
    ensures
        client_packet_type(error_wire(connection_id, block_id, error_code)) == PacketType::Error,
        client_packet_type(metadata_wire(connection_id, block_id, new_block_size))
            == PacketType::Metadata,
        client_packet_type(data_wire(connection_id, block_id, sequence_id, data))
            == PacketType::Data,
        client_packet_type(response_wire(connection_id, block_id, file_hash, file_size))
            == PacketType::Response,
{
    lemma_pow256_values();
    lemma_connection_id_bytes(connection_id);
    lemma_be_bytes_len(block_id as nat, 4);
    lemma_be_bytes_len(error_code as nat, 4);
    lemma_be_bytes_len(file_size as nat, 8);
    lemma_be_roundtrip(0, 4);
    lemma_be_bytes_len(new_block_size as nat, 2);
    lemma_be_roundtrip(sequence_id as nat, 2);
    let m = metadata_wire(connection_id, block_id, new_block_size);
    assert(m.subrange(8, 10) =~= be_bytes(0, 4).subrange(0, 2));
    reveal_with_fuel(be_bytes, 5);
    reveal_with_fuel(be_value, 3);
    assert(be_bytes(0, 4).subrange(0, 2) =~= seq![0u8, 0u8]);
    assert(seq![0u8, 0u8].drop_last() =~= seq![0u8]);
    assert(seq![0u8].drop_last() =~= Seq::<u8>::empty());
    let d = data_wire(connection_id, block_id, sequence_id, data);
    assert(d.subrange(8, 10) =~= be_bytes(sequence_id as nat, 2));
}

/// The flag bits of a byte, read as ranges.
proof fn lemma_flag_bits(f: u8)
    by (bit_vector)
    ensures
        (f & 0x80 == 0x80) == (f >= 0x80),
        (f & 0xE0 == 0) == (f < 0x20),
        (f & 0x40 == 0x40) == ((f >= 0x40 && f < 0x80) || f >= 0xC0),
        (f & 0x20 == 0x20) == ((f >= 0x20 && f < 0x40) || (f >= 0x60 && f < 0x80) || (f >= 0xA0
            && f < 0xC0) || f >= 0xE0),
        (f & 0xC0 == 0x40) == (f >= 0x40 && f < 0x80),
        (f & 0xC0 == 0) == (f < 0x40),
{
}

/// What `check_packet_type` tests of the flags byte (byte 3): an ack has
/// the top bit set, an error the bit 0x40, metadata the bit 0x20, and data
/// none of the top three bits; so a packet with its ack bit set is never
/// data.
pub proof fn flags_decide_the_kind(s: Seq<u8>)
    requires
        s.len() >= 4,
    ensures
        packet_has_type(s, PacketType::Ack) <==> s[3] & 0x80 == 0x80,
        packet_has_type(s, PacketType::Data) <==> s[3] & 0xE0 == 0,
        packet_has_type(s, PacketType::Error) <==> s[3] & 0x40 == 0x40,
        packet_has_type(s, PacketType::Metadata) <==> s[3] & 0x20 == 0x20,
        packet_has_type(s, PacketType::Data) <==> s[3] < 0x20,
        packet_has_type(s, PacketType::Ack) ==> !packet_has_type(s, PacketType::Data),
        packet_has_type(s, PacketType::Error) ==> !packet_has_type(s, PacketType::Data),
        packet_has_type(s, PacketType::Metadata) ==> !packet_has_type(s, PacketType::Data),
        !packet_has_type(s, PacketType::Unknown),
        packet_has_type(s, PacketType::Request) <==> (s[0] == 0 && s[1] == 0 && s[2] == 0),
        packet_has_type(s, PacketType::Response) <==> (!(s[0] == 0 && s[1] == 0 && s[2] == 0)
            && s[3] & 0x80 == 0x80),
{
    lemma_flag_bits(s[3]);
    lemma_be_value_3(s.subrange(0, 3));
}

/// Serialized packets pass the flag tests of their own kind and not those
/// that would mistake them: an ack is an ack and not data or an error; an
/// error is an error and not data or an ack; data and metadata are data and
/// not an ack or an error.
pub proof fn serialized_flags_fit_their_kind(
    connection_id: u32,
    block_id: u32,
    flow_window: u16,
    length: u16,
    sids: Seq<u16>,
    error_code: u32,
    new_block_size: u16,
    sequence_id: u16,
    data: Seq<u8>,
)
    requires
        data.len() <= MAX_DATA_PAYLOAD,
    ensures
        ({
            let a = ack_wire(connection_id, block_id, flow_window, length, sids);
            &&& packet_has_type(a, PacketType::Ack)
            &&& !packet_has_type(a, PacketType::Data)
            &&& !packet_has_type(a, PacketType::Error)
            &&& !packet_has_type(a, PacketType::Metadata)
        }),
        ({
            let e = error_wire(connection_id, block_id, error_code);
            &&& packet_has_type(e, PacketType::Error)
            &&& !packet_has_type(e, PacketType::Data)
            &&& !packet_has_type(e, PacketType::Ack)
            &&& !packet_has_type(e, PacketType::Metadata)
        }),
        ({
            let m = metadata_wire(connection_id, block_id, new_block_size);
            &&& packet_has_type(m, PacketType::Data)
            &&& !packet_has_type(m, PacketType::Ack)
            &&& !packet_has_type(m, PacketType::Error)
        }),
        ({
            let d = data_wire(connection_id, block_id, sequence_id, data);
            &&& packet_has_type(d, PacketType::Data)
            &&& !packet_has_type(d, PacketType::Ack)
            &&& !packet_has_type(d, PacketType::Error)
        }),
{
    lemma_connection_id_bytes(connection_id);
    let a = ack_wire(connection_id, block_id, flow_window, length, sids);
    let e = error_wire(connection_id, block_id, error_code);
    let m = metadata_wire(connection_id, block_id, new_block_size);
    let d = data_wire(connection_id, block_id, sequence_id, data);
    assert(a[3] == 0x80u8);
    assert(e[3] == 0x40u8);
    assert(m[3] == 0u8);
    assert(d[3] == 0u8);
    flags_decide_the_kind(a);
    flags_decide_the_kind(e);
    lemma_flag_bits(0x80u8);
    lemma_flag_bits(0x40u8);
    flags_decide_the_kind(m);
    flags_decide_the_kind(d);
}

/// What `get_packet_type` reads from byte 7 of a header whose connection id
/// is not zero: its top bit set means an ack; otherwise the bit 0x40 means
/// an error; a zero byte means data; anything else is not known. No header
/// is told to be metadata, and a zero connection id means a request.
pub proof fn header_flags_decide_the_kind(s: Seq<u8>)
    requires
        s.len() >= 8,
    ensures
        wire_connection_id(s) == 0 ==> header_packet_type(s) == PacketType::Request,
        wire_connection_id(s) != 0 ==> {
            &&& header_packet_type(s) == PacketType::Ack <==> s[7] & 0x80 == 0x80
            &&& header_packet_type(s) == PacketType::Error <==> s[7] & 0xC0 == 0x40
            &&& header_packet_type(s) == PacketType::Data <==> s[7] == 0
            &&& header_packet_type(s) == PacketType::Unknown <==> (0 < s[7] && s[7] & 0xC0 == 0)
            &&& header_packet_type(s) != PacketType::Metadata
        },
{
    lemma_flag_bits(s[7]);
}

} // verus!
