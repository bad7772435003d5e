//! Big-endian integers and text fields as they appear inside a payload.

use vstd::prelude::*;
use vstd::slice::{slice_subrange, slice_to_vec};
use vstd::utf8::{decode_utf8, encode_utf8, encode_utf8_decode_utf8, valid_utf8};

use crate::error::PayloadFault;

verus! {

/// The 16-bit value whose big-endian bytes are `hi`, `lo`.
pub open spec fn be16(hi: u8, lo: u8) -> u16 {
    (hi as int * 256 + lo as int) as u16
}

/// The two big-endian bytes of `x`.
pub open spec fn be16_bytes(x: u16) -> Seq<u8> {
    seq![(x / 256) as u8, (x % 256) as u8]
}

/// The 32-bit value whose big-endian bytes are `b0`, `b1`, `b2`, `b3`.
pub open spec fn be32(b0: u8, b1: u8, b2: u8, b3: u8) -> u32 {
    (((b0 as int * 256 + b1 as int) * 256 + b2 as int) * 256 + b3 as int) as u32
}

/// The four big-endian bytes of `x`.
pub open spec fn be32_bytes(x: u32) -> Seq<u8> {
    seq![
        (x / 0x100_0000) as u8,
        ((x / 0x1_0000) % 256) as u8,
        ((x / 0x100) % 256) as u8,
        (x % 256) as u8,
    ]
}

/// Reading back the bytes of a 16-bit value gives the value.
pub proof fn lemma_be16_of_bytes(x: u16)
    ensures
        be16_bytes(x).len() == 2,
        be16(be16_bytes(x)[0], be16_bytes(x)[1]) == x,
{
}

/// Reading back the bytes of a 32-bit value gives the value.
pub proof fn lemma_be32_of_bytes(x: u32)
    ensures
        be32_bytes(x).len() == 4,
        be32(be32_bytes(x)[0], be32_bytes(x)[1], be32_bytes(x)[2], be32_bytes(x)[3]) == x,
{
}

/// The 16-bit value of two big-endian bytes.
pub fn read_be16(hi: u8, lo: u8) -> (x: u16)
    ensures
        x == be16(hi, lo),
{
    (hi as u16) * 256 + (lo as u16)
}

/// Appends the two big-endian bytes of `x` to `out`.
pub fn push_be16(out: &mut Vec<u8>, x: u16)
    ensures
        final(out)@ == old(out)@ + be16_bytes(x),
{
    out.push((x / 256) as u8);
    out.push((x % 256) as u8);
    assert(out@ =~= old(out)@ + be16_bytes(x));
}

/// The 32-bit value of four big-endian bytes.
pub fn read_be32(b0: u8, b1: u8, b2: u8, b3: u8) -> (x: u32)
    ensures
        x == be32(b0, b1, b2, b3),
{
    (((b0 as u32) * 256 + (b1 as u32)) * 256 + (b2 as u32)) * 256 + (b3 as u32)
}

/// Appends the four big-endian bytes of `x` to `out`.
pub fn push_be32(out: &mut Vec<u8>, x: u32)
    ensures
        final(out)@ == old(out)@ + be32_bytes(x),
{
    out.push((x / 0x100_0000) as u8);
    out.push(((x / 0x1_0000) % 256) as u8);
    out.push(((x / 0x100) % 256) as u8);
    out.push((x % 256) as u8);
    assert(out@ =~= old(out)@ + be32_bytes(x));
}

/// Appends `bytes` to `out`.
pub fn push_bytes(out: &mut Vec<u8>, bytes: &[u8])
    ensures
        final(out)@ == old(out)@ + bytes@,
{
    out.extend_from_slice(bytes);
    assert(out@ =~= old(out)@ + bytes@);
}

/// Appends the UTF-8 bytes of `text` to `out`.
pub fn push_text(out: &mut Vec<u8>, text: &String)
    ensures
        final(out)@ == old(out)@ + encode_utf8(text@),
{
    push_bytes(out, text.as_str().as_bytes());
}

/// The number of bytes that `text` takes in UTF-8.
pub fn text_len(text: &String) -> (n: usize)
    ensures
        n == encode_utf8(text@).len(),
{
    text.as_str().as_bytes().len()
}

/// The text that `bytes` spell in UTF-8, if they spell any.
pub open spec fn text_of(bytes: Seq<u8>) -> Option<Seq<char>> {
    if valid_utf8(bytes) {
        Some(decode_utf8(bytes))
    } else {
        None
    }
}

/// The text field of `len` bytes that starts at `start` inside `p`.
pub open spec fn text_field(p: Seq<u8>, start: int, len: int) -> Result<Seq<char>, PayloadFault> {
    if start + len > p.len() {
        Err(PayloadFault::LengthOverrun)
    } else {
        match text_of(p.subrange(start, start + len)) {
            Some(text) => Ok(text),
            None => Err(PayloadFault::InvalidText),
        }
    }
}

/// The text field that starts at `pos` with a one-byte length, together with
/// the position just behind it.
pub open spec fn counted_text(p: Seq<u8>, pos: int) -> Result<(Seq<char>, int), PayloadFault> {
    if pos >= p.len() {
        Err(PayloadFault::LengthOverrun)
    } else {
        match text_field(p, pos + 1, p[pos] as int) {
            Ok(text) => Ok((text, pos + 1 + p[pos] as int)),
            Err(fault) => Err(fault),
        }
    }
}

/// Encoding a text and reading it back gives the text.
pub proof fn lemma_text_of_encoded(text: Seq<char>)
    ensures
        text_of(encode_utf8(text)) == Some(text),
{
    vstd::utf8::encode_utf8_valid_utf8(text);
    encode_utf8_decode_utf8(text);
}

/// `String::from_utf8` of the standard library. It accepts exactly the byte
/// strings that are valid UTF-8, and the string it then returns consists of
/// the very bytes it was given.
#[verifier::external_body]
fn string_from_utf8(bytes: Vec<u8>) -> (r: Option<String>)
    ensures
        match r {
            Some(s) => valid_utf8(bytes@) && encode_utf8(s@) == bytes@,
            None => !valid_utf8(bytes@),
        },
{
    match String::from_utf8(bytes) {
        Ok(s) => Some(s),
        Err(_) => None,
    }
}

/// Turns bytes into text, or reports that they are not valid UTF-8.
pub fn text_from_bytes(bytes: Vec<u8>) -> (r: Option<String>)
    ensures
        match r {
            Some(s) => text_of(bytes@) == Some(s@),
            None => text_of(bytes@) is None,
        },
{
    let r = string_from_utf8(bytes);
    proof {
        if r is Some {
            encode_utf8_decode_utf8(r->0@);
        }
    }
    r
}

/// Reads the text field of `len` bytes that starts at `start`.
pub fn read_text(p: &[u8], start: usize, len: usize) -> (r: Result<String, PayloadFault>)
    ensures
        match r {
            Ok(s) => text_field(p@, start as int, len as int) == Ok::<Seq<char>, PayloadFault>(s@),
            Err(e) => text_field(p@, start as int, len as int) == Err::<Seq<char>, PayloadFault>(e),
        },
{
    if start > p.len() || len > p.len() - start {
        return Err(PayloadFault::LengthOverrun);
    }
    let bytes = slice_to_vec(slice_subrange(p, start, start + len));
    match text_from_bytes(bytes) {
        Some(s) => Ok(s),
        None => Err(PayloadFault::InvalidText),
    }
}

/// Reads the text field that starts at `pos` with a one-byte length, and
/// returns it with the position just behind it.
pub fn read_counted_text(p: &[u8], pos: usize) -> (r: Result<(String, usize), PayloadFault>)
    ensures
        match r {
            Ok((s, next)) => counted_text(p@, pos as int) == Ok::<(Seq<char>, int), PayloadFault>(
                (s@, next as int),
            ) && next <= p@.len(),
            Err(e) => counted_text(p@, pos as int) == Err::<(Seq<char>, int), PayloadFault>(e),
        },
{
    if pos >= p.len() {
        return Err(PayloadFault::LengthOverrun);
    }
    let len: usize = p[pos] as usize;
    match read_text(p, pos + 1, len) {
        Ok(s) => Ok((s, pos + 1 + len)),
        Err(e) => Err(e),
    }
}

/// A text field that holds the encoding of `text` reads as `text`.
pub proof fn lemma_text_field_of_encoded(p: Seq<u8>, start: int, text: Seq<char>)
    requires
        0 <= start,
        start + encode_utf8(text).len() <= p.len(),
        p.subrange(start, start + encode_utf8(text).len()) == encode_utf8(text),
    ensures
        text_field(p, start, encode_utf8(text).len() as int) == Ok::<Seq<char>, PayloadFault>(text),
{
    lemma_text_of_encoded(text);
}

/// A length byte followed by the encoding of `text` reads as `text`, and
/// reading ends just behind it.
pub proof fn lemma_counted_text_of_encoded(p: Seq<u8>, pos: int, text: Seq<char>)
    requires
        0 <= pos,
        encode_utf8(text).len() <= u8::MAX,
        pos + 1 + encode_utf8(text).len() <= p.len(),
        p[pos] == encode_utf8(text).len(),
        p.subrange(pos + 1, pos + 1 + encode_utf8(text).len()) == encode_utf8(text),
    ensures
        counted_text(p, pos) == Ok::<(Seq<char>, int), PayloadFault>(
            (text, pos + 1 + encode_utf8(text).len()),
        ),
{
    lemma_text_field_of_encoded(p, pos + 1, text);
}

/// A text field that reads as `text` holds exactly the encoding of `text`.
pub proof fn lemma_text_field_holds_encoding(p: Seq<u8>, start: int, len: int)
    requires
        0 <= start,
        0 <= len,
        text_field(p, start, len) is Ok,
    ensures
        start + len <= p.len(),
        encode_utf8(text_field(p, start, len)->Ok_0) == p.subrange(start, start + len),
        encode_utf8(text_field(p, start, len)->Ok_0).len() == len,
{
    vstd::utf8::decode_utf8_encode_utf8(p.subrange(start, start + len));
}

/// A counted text field that reads holds one length byte and the encoding
/// of the text, and reading ends just behind them.
pub proof fn lemma_counted_text_holds_encoding(p: Seq<u8>, pos: int)
    requires
        0 <= pos,
        counted_text(p, pos) is Ok,
    ensures
        encode_utf8(counted_text(p, pos)->Ok_0.0).len() <= u8::MAX,
        counted_text(p, pos)->Ok_0.1 == pos + 1 + encode_utf8(counted_text(p, pos)->Ok_0.0).len(),
        counted_text(p, pos)->Ok_0.1 <= p.len(),
{
    lemma_text_field_holds_encoding(p, pos + 1, p[pos] as int);
}

} // verus!
