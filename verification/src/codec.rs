//! Byte-level building blocks of the wire format: big-endian 32-bit
//! integers, byte appends, UTF-8 decoding and string comparison.
use vstd::prelude::*;
use vstd::utf8::{decode_utf8, encode_utf8, encode_utf8_decode_utf8, valid_utf8};
use vstd::string::StringSliceAdditionalSpecFns;
use vstd::arithmetic::div_mod::lemma_fundamental_div_mod_converse;

verus! {

/// The four bytes of `v`, most significant first (`u32::to_be_bytes`).
pub open spec fn be_bytes(v: u32) -> Seq<u8> {
    seq![
        (v / 0x100_0000) as u8,
        ((v / 0x1_0000) % 0x100) as u8,
        ((v / 0x100) % 0x100) as u8,
        (v % 0x100) as u8,
    ]
}

/// The 32-bit value that the four bytes of `s` starting at `at` encode,
/// most significant first (`u32::from_be_bytes`).
pub open spec fn be_value(s: Seq<u8>, at: int) -> u32 {
    (s[at] as int * 0x100_0000 + s[at + 1] as int * 0x1_0000 + s[at + 2] as int * 0x100
        + s[at + 3] as int) as u32
}

/// Encoding a value and decoding the bytes gives the value back.
pub proof fn lemma_be_roundtrip(v: u32)
    ensures
        be_value(be_bytes(v), 0) == v,
        be_bytes(v).len() == 4,
{
    let b = be_bytes(v);
    assert(b[0] as int == v / 0x100_0000);
    assert(b[1] as int == (v / 0x1_0000) % 0x100);
    assert(b[2] as int == (v / 0x100) % 0x100);
    assert(b[3] as int == v % 0x100);
}

/// Decoding four bytes and encoding the value gives the bytes back.
pub proof fn lemma_be_value_bytes(s: Seq<u8>, at: int)
    requires
        0 <= at,
        at + 4 <= s.len(),
    ensures
        be_bytes(be_value(s, at)) == s.subrange(at, at + 4),
{
    let b0 = s[at] as int;
    let b1 = s[at + 1] as int;
    let b2 = s[at + 2] as int;
    let b3 = s[at + 3] as int;
    let x = b0 * 0x100_0000 + b1 * 0x1_0000 + b2 * 0x100 + b3;
    assert(0 <= x < 0x1_0000_0000);
    let v = be_value(s, at);
    assert(v as int == x);
    lemma_fundamental_div_mod_converse(x, 0x100_0000, b0, b1 * 0x1_0000 + b2 * 0x100 + b3);
    lemma_fundamental_div_mod_converse(x, 0x1_0000, b0 * 0x100 + b1, b2 * 0x100 + b3);
    lemma_fundamental_div_mod_converse(b0 * 0x100 + b1, 0x100, b0, b1);
    lemma_fundamental_div_mod_converse(x, 0x100, b0 * 0x1_0000 + b1 * 0x100 + b2, b3);
    lemma_fundamental_div_mod_converse(b0 * 0x1_0000 + b1 * 0x100 + b2, 0x100, b0 * 0x100 + b1, b2);
    assert(be_bytes(v) =~= s.subrange(at, at + 4));
}

/// Appends the big-endian bytes of `v` to `buf`.
pub fn push_u32_be(buf: &mut Vec<u8>, v: u32)
    ensures
        final(buf)@ == old(buf)@ + be_bytes(v),
{
    buf.push((v / 0x100_0000) as u8);
    buf.push(((v / 0x1_0000) % 0x100) as u8);
    buf.push(((v / 0x100) % 0x100) as u8);
    buf.push((v % 0x100) as u8);
    assert(final(buf)@ =~= old(buf)@ + be_bytes(v));
}

/// Reads the big-endian 32-bit value stored at `at`.
pub fn read_u32_be(bytes: &[u8], at: usize) -> (v: u32)
    requires
        at + 4 <= bytes@.len(),
    ensures
        v == be_value(bytes@, at as int),
{
    let b0 = bytes[at] as u32;
    let b1 = bytes[at + 1] as u32;
    let b2 = bytes[at + 2] as u32;
    let b3 = bytes[at + 3] as u32;
    b0 * 0x100_0000 + b1 * 0x1_0000 + b2 * 0x100 + b3
}

/// Appends every byte of `src` to `buf`.
pub fn push_bytes(buf: &mut Vec<u8>, src: &[u8])
    ensures
        final(buf)@ == old(buf)@ + src@,
{
    let ghost start = buf@;
    let mut i: usize = 0;
    while i < src.len()
        invariant
            i <= src@.len(),
            buf@ == start + src@.subrange(0, i as int),
        decreases src@.len() - i,
    {
        buf.push(src[i]);
        i = i + 1;
        assert(buf@ =~= start + src@.subrange(0, i as int));
    }
    assert(src@.subrange(0, src@.len() as int) =~= src@);
}

/// Copies `len` bytes of `bytes` starting at `start`.
pub fn copy_range(bytes: &[u8], start: usize, len: usize) -> (out: Vec<u8>)
    requires
        start + len <= bytes.len(),
    ensures
        out@ == bytes@.subrange(start as int, start + len),
{
    let mut out: Vec<u8> = Vec::new();
    let mut i: usize = 0;
    while i < len
        invariant
            i <= len,
            start + len <= bytes.len(),
            out@ == bytes@.subrange(start as int, start + i),
        decreases len - i,
    {
        out.push(bytes[start + i]);
        i = i + 1;
        assert(out@ =~= bytes@.subrange(start as int, start + i));
    }
    out
}

/// Whether two strings hold the same characters.
pub fn str_equals(a: &str, b: &str) -> (same: bool)
    ensures
        same == (a@ == b@),
{
    let x = a.as_bytes();
    let y = b.as_bytes();
    proof {
        encode_utf8_decode_utf8(a@);
        encode_utf8_decode_utf8(b@);
    }
    assert(a@ == b@ ==> x@ == y@);
    if x.len() != y.len() {
        return false;
    }
    let mut i: usize = 0;
    while i < x.len()
        invariant
            x@.len() == y@.len(),
            i <= x@.len(),
            a@ == b@ ==> x@ == y@,
            decode_utf8(x@) == a@,
            decode_utf8(y@) == b@,
            forall|k: int| 0 <= k < i ==> x@[k] == y@[k],
        decreases x@.len() - i,
    {
        if x[i] != y[i] {
            assert(x@[i as int] != y@[i as int]);
            return false;
        }
        i = i + 1;
    }
    assert(x@ =~= y@);
    true
}

/// Decodes `bytes` as UTF-8 (`String::from_utf8`): `None` when they are not
/// valid UTF-8, else the characters they encode.
#[verifier::external_body]
pub(crate) fn utf8_decode(bytes: Vec<u8>) -> (text: Option<String>)
    ensures
        text is Some <==> valid_utf8(bytes@),
        text matches Some(s) ==> s@ == decode_utf8(bytes@),
{
    String::from_utf8(bytes).ok()
}

/// Names what `String::from_utf8_lossy` makes of bytes that are not all valid
/// UTF-8 (each invalid sequence becomes U+FFFD).
pub uninterp spec fn utf8_lossy(bytes: Seq<u8>) -> Seq<char>;

/// Decodes `bytes` as UTF-8, replacing invalid sequences by U+FFFD
/// (`String::from_utf8_lossy`). On valid UTF-8 the result is exactly the
/// decoded text; otherwise it is named by `utf8_lossy`.
#[verifier::external_body]
pub(crate) fn utf8_decode_lossy(bytes: &[u8]) -> (text: String)
    ensures
        text@ == utf8_lossy(bytes@),
        valid_utf8(bytes@) ==> text@ == decode_utf8(bytes@),
{
    String::from_utf8_lossy(bytes).to_string()
}

/// The bytes of a string are its UTF-8 encoding, which decodes back to it.
pub proof fn lemma_str_bytes_decode(s: &str)
    ensures
        s.spec_bytes() == encode_utf8(s@),
        valid_utf8(s.spec_bytes()),
        decode_utf8(s.spec_bytes()) == s@,
{
    vstd::utf8::encode_utf8_valid_utf8(s@);
    encode_utf8_decode_utf8(s@);
}

} // verus!
