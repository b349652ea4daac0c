//! Little-endian integer fields of on-disk structures.

use vstd::prelude::*;

verus! {

/// The value of a two-byte little-endian field.
pub open spec fn u16_le(b: Seq<u8>) -> int
    recommends
        b.len() == 2,
{
    b[0] + 0x100 * b[1]
}

/// The value of a four-byte little-endian field.
pub open spec fn u32_le(b: Seq<u8>) -> int
    recommends
        b.len() == 4,
{
    b[0] + 0x100 * b[1] + 0x1_0000 * b[2] + 0x100_0000 * b[3]
}

/// Reads the two-byte little-endian field at the start of `bytes`.
pub fn load_u16_le(bytes: &[u8]) -> (r: u16)
    requires
        bytes@.len() == 2,
    ensures
        r as int == u16_le(bytes@),
{
    bytes[0] as u16 + 0x100 * (bytes[1] as u16)
}

/// Reads the four-byte little-endian field at the start of `bytes`.
pub fn load_u32_le(bytes: &[u8]) -> (r: u32)
    requires
        bytes@.len() == 4,
    ensures
        r as int == u32_le(bytes@),
{
    bytes[0] as u32 + 0x100 * (bytes[1] as u32) + 0x1_0000 * (bytes[2] as u32) + 0x100_0000
        * (bytes[3] as u32)
}

/// A product of bounded non-negative factors is bounded by the product of
/// the bounds.
pub proof fn lemma_mul_le(a: int, b: int, amax: int, bmax: int)
    requires
        0 <= a <= amax,
        0 <= b <= bmax,
    ensures
        a * b <= amax * bmax,
{
    assert(a * b <= amax * bmax) by (nonlinear_arith)
        requires
            0 <= a <= amax,
            0 <= b <= bmax,
    ;
}

/// The characters encoded by a UTF-16 code unit sequence: basic-plane
/// units decode to themselves, a high surrogate followed by a low
/// surrogate combines into one supplementary character, and an unpaired
/// surrogate is dropped.
pub open spec fn utf16_decode(units: Seq<u16>) -> Seq<char>
    decreases units.len(),
{
    if units.len() == 0 {
        Seq::empty()
    } else {
        let u = units[0];
        if u < 0xD800 || u >= 0xE000 {
            seq![(u as u32) as char] + utf16_decode(units.skip(1))
        } else if u < 0xDC00 {
            if units.len() >= 2 && 0xDC00 <= units[1] < 0xE000 {
                let c = 0x10000 + (u - 0xD800) * 0x400 + (units[1] - 0xDC00);
                seq![(c as u32) as char] + utf16_decode(units.skip(2))
            } else {
                utf16_decode(units.skip(1))
            }
        } else {
            utf16_decode(units.skip(1))
        }
    }
}

/// Relies on char::decode_utf16 dropping the unpaired-surrogate errors:
/// the characters are the UTF-16 decoding of the code units, surrogate
/// pairs combined, unpaired surrogates dropped.
#[verifier::external_body]
pub fn utf16_to_string(units: &Vec<u16>) -> (r: String)
    ensures
        r@ == utf16_decode(units@),
{
    char::decode_utf16(units.iter().copied()).filter_map(|x| x.ok()).collect()
}

/// Relies on String::from_utf8: ASCII bytes are UTF-8 and decode to the
/// characters with the same values.
#[verifier::external_body]
pub fn ascii_to_string(bytes: Vec<u8>) -> (r: String)
    requires
        forall|i: int| 0 <= i < bytes@.len() ==> bytes@[i] < 128,
    ensures
        r@.len() == bytes@.len(),
        forall|i: int| 0 <= i < bytes@.len() ==> r@[i] == bytes@[i] as char,
{
    String::from_utf8(bytes).unwrap_or_default()
}

/// Relies on std::str::from_utf8: it succeeds exactly on UTF-8 input, and
/// the characters of the result are the UTF-8 decoding of the bytes.
#[verifier::external_body]
pub fn bytes_as_str(bytes: &[u8]) -> (r: Option<&str>)
    ensures
        r is Some <==> vstd::utf8::valid_utf8(bytes@),
        r is Some ==> r->Some_0@ == vstd::utf8::decode_utf8(bytes@),
{
    std::str::from_utf8(bytes).ok()
}

} // verus!
