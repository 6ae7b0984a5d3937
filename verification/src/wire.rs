//! Big-endian integer encodings and the byte-level helpers the packet codecs
//! are built from.

use vstd::prelude::*;
use byteorder::ByteOrder;
use vstd::utf8::*;

verus! {

/// The `n` low-order bytes of `v`, most significant first.
pub open spec fn be_bytes(v: nat, n: nat) -> Seq<u8>
    decreases n,
{
    if n == 0 {
        Seq::empty()
    } else {
        be_bytes(v / 256, (n - 1) as nat).push((v % 256) as u8)
    }
}

/// The unsigned integer whose big-endian representation is `s`.
pub open spec fn be_value(s: Seq<u8>) -> nat
    decreases s.len(),
{
    if s.len() == 0 {
        0
    } else {
        be_value(s.drop_last()) * 256 + s.last() as nat
    }
}

/// `256` to the power `n`.
pub open spec fn pow256(n: nat) -> nat
    decreases n,
{
    if n == 0 {
        1
    } else {
        256 * pow256((n - 1) as nat)
    }
}

pub proof fn lemma_be_bytes_len(v: nat, n: nat)
    ensures
        be_bytes(v, n).len() == n,
    decreases n,
{
    if n > 0 {
        lemma_be_bytes_len(v / 256, (n - 1) as nat);
    }
}

/// Decoding the `n`-byte encoding of `v` gives back `v` modulo `256^n`.
pub proof fn lemma_be_value_of_bytes(v: nat, n: nat)
    ensures
        be_value(be_bytes(v, n)) == v % pow256(n),
    decreases n,
{
    lemma_be_bytes_len(v, n);
    if n > 0 {
        lemma_be_value_of_bytes(v / 256, (n - 1) as nat);
        let p = pow256((n - 1) as nat);
        assert(be_bytes(v, n).drop_last() == be_bytes(v / 256, (n - 1) as nat));
        assert(p > 0) by {
            lemma_pow256_pos((n - 1) as nat);
        }
        assert(((v / 256) % p) * 256 + v % 256 == v % (256 * p)) by (nonlinear_arith)
            requires
                p > 0,
        {
            vstd::arithmetic::div_mod::lemma_breakdown(v as int, 256, p as int);
        }
    }
}

pub proof fn lemma_pow256_pos(n: nat)
    ensures
        pow256(n) > 0,
    decreases n,
{
    if n > 0 {
        lemma_pow256_pos((n - 1) as nat);
    }
}

/// Appends the `n` low-order bytes of `v`, most significant first.
pub fn append_be(buf: &mut Vec<u8>, v: u64, n: usize)
    ensures
        final(buf)@ == old(buf)@ + be_bytes(v as nat, n as nat),
    decreases n,
{
    if n > 0 {
        append_be(buf, v / 256, n - 1);
        buf.push((v % 256) as u8);
        proof {
            assert(be_bytes(v as nat, n as nat) == be_bytes((v / 256) as nat, (n - 1) as nat).push((v % 256) as u8));
        }
    } else {
        assert(old(buf)@ + be_bytes(v as nat, 0) == old(buf)@);
    }
}

/// Appends every byte of `bytes`, in order.
pub fn append_bytes(buf: &mut Vec<u8>, bytes: &[u8])
    ensures
        final(buf)@ == old(buf)@ + bytes@,
{
    let ghost start = buf@;
    let mut i: usize = 0;
    while i < bytes.len()
        invariant
            i <= bytes@.len(),
            buf@ == start + bytes@.subrange(0, i as int),
        decreases bytes@.len() - i,
    {
        buf.push(bytes[i]);
        i = i + 1;
        assert(bytes@.subrange(0, i as int) == bytes@.subrange(0, i - 1).push(bytes@[i - 1]));
    }
    assert(bytes@.subrange(0, bytes@.len() as int) == bytes@);
}

pub proof fn lemma_be_value_2(s: Seq<u8>)
    requires
        s.len() == 2,
    ensures
        be_value(s) == s[0] as nat * 256 + s[1] as nat,
{
    assert(s.drop_last().drop_last().len() == 0);
    assert(be_value(s.drop_last()) == be_value(s.drop_last().drop_last()) * 256 + s[0] as nat);
}

pub proof fn lemma_be_value_3(s: Seq<u8>)
    requires
        s.len() == 3,
    ensures
        be_value(s) == s[0] as nat * 65536 + s[1] as nat * 256 + s[2] as nat,
{
    lemma_be_value_2(s.drop_last());
}

/// Reads the three-byte connection id that opens every packet.
pub fn read_u24_be(buf: &[u8]) -> (r: u32)
    requires
        buf@.len() >= 3,
    ensures
        r == be_value(buf@.subrange(0, 3)),
        r < 0x1000000,
{
    proof {
        lemma_be_value_3(buf@.subrange(0, 3));
    }
    (buf[0] as u32) * 65536 + (buf[1] as u32) * 256 + (buf[2] as u32)
}

/// `BigEndian::read_u16` of the byteorder crate: the first two bytes of
/// `buf` read as a big-endian integer. It panics on a shorter slice, which
/// the precondition rules out.
#[verifier::external_body]
pub(crate) fn read_u16_be(buf: &[u8]) -> (r: u16)
    requires
        buf@.len() >= 2,
    ensures
        r == be_value(buf@.subrange(0, 2)),
{
    byteorder::BigEndian::read_u16(buf)
}

/// `BigEndian::read_u32` of the byteorder crate: the first four bytes of
/// `buf` read as a big-endian integer. It panics on a shorter slice, which
/// the precondition rules out.
#[verifier::external_body]
pub(crate) fn read_u32_be(buf: &[u8]) -> (r: u32)
    requires
        buf@.len() >= 4,
    ensures
        r == be_value(buf@.subrange(0, 4)),
{
    byteorder::BigEndian::read_u32(buf)
}

/// `BigEndian::read_u64` of the byteorder crate: the first eight bytes of
/// `buf` read as a big-endian integer. It panics on a shorter slice, which
/// the precondition rules out.
#[verifier::external_body]
pub(crate) fn read_u64_be(buf: &[u8]) -> (r: u64)
    requires
        buf@.len() >= 8,
    ensures
        r == be_value(buf@.subrange(0, 8)),
{
    byteorder::BigEndian::read_u64(buf)
}

/// What `String::from_utf8_lossy` makes of a byte sequence: the decoded text
/// with every invalid sequence replaced by U+FFFD.
pub uninterp spec fn utf8_lossy(bytes: Seq<u8>) -> Seq<char>;

/// The text that `String::from_utf8_lossy` reads out of `bytes`: the
/// decoding where `bytes` is valid UTF-8, the lossy replacement otherwise.
pub open spec fn text_of_bytes(bytes: Seq<u8>) -> Seq<char> {
    if valid_utf8(bytes) {
        decode_utf8(bytes)
    } else {
        utf8_lossy(bytes)
    }
}

/// `String::from_utf8_lossy` of std, made owned. Its result is named by
/// `utf8_lossy`; on valid UTF-8 the documentation promises the text is
/// unchanged, so its UTF-8 bytes are the input. How invalid sequences are
/// replaced is left unsaid.
#[verifier::external_body]
pub(crate) fn string_from_utf8_lossy(bytes: &[u8]) -> (s: String)
    ensures
        s@ == utf8_lossy(bytes@),
        valid_utf8(bytes@) ==> encode_utf8(s@) == bytes@,
{
    String::from_utf8_lossy(bytes).into_owned()
}

/// Decodes bytes received over the wire into text, as `from_utf8_lossy` does.
pub fn text_from_bytes(bytes: &[u8]) -> (s: String)
    ensures
        s@ == text_of_bytes(bytes@),
{
    let s = string_from_utf8_lossy(bytes);
    proof {
        if valid_utf8(bytes@) {
            encode_utf8_decode_utf8(s@);
        }
    }
    s
}

} // verus!
