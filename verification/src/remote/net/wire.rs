//! The fields of a frame as bytes.
//!
//! Every kind of field has the bytes that stand for it (`*_wire`) and the way
//! back (`parse_*`), which reads one field off the front of a byte string and
//! gives what is left behind it. Numbers are little-endian; byte strings and
//! texts carry their length in four bytes before them, texts are UTF-8.
use vstd::bytes::{
    lemma_auto_spec_u128_to_from_le_bytes, lemma_auto_spec_u32_to_from_le_bytes,
    lemma_auto_spec_u64_to_from_le_bytes, spec_u128_from_le_bytes, spec_u128_to_le_bytes,
    spec_u32_from_le_bytes, spec_u32_to_le_bytes, spec_u64_from_le_bytes, spec_u64_to_le_bytes,
    u128_from_le_bytes, u128_to_le_bytes, u32_from_le_bytes, u32_to_le_bytes, u64_from_le_bytes,
    u64_to_le_bytes,
};
use vstd::prelude::*;
use vstd::slice::{slice_subrange, slice_to_vec};
use vstd::string::StrSliceExecFns;
use vstd::utf8::{
    decode_utf8, decode_utf8_encode_utf8, encode_utf8, encode_utf8_decode_utf8,
    encode_utf8_valid_utf8, valid_utf8,
};

verus! {

/// One byte off the front.
pub open spec fn parse_u8(bytes: Seq<u8>) -> Option<(u8, Seq<u8>)> {
    if bytes.len() >= 1 {
        Some((bytes[0], bytes.skip(1)))
    } else {
        None
    }
}

pub open spec fn u32_wire(value: u32) -> Seq<u8> {
    spec_u32_to_le_bytes(value)
}

pub open spec fn parse_u32(bytes: Seq<u8>) -> Option<(u32, Seq<u8>)> {
    if bytes.len() >= 4 {
        Some((spec_u32_from_le_bytes(bytes.take(4)), bytes.skip(4)))
    } else {
        None
    }
}

pub open spec fn u64_wire(value: u64) -> Seq<u8> {
    spec_u64_to_le_bytes(value)
}

pub open spec fn parse_u64(bytes: Seq<u8>) -> Option<(u64, Seq<u8>)> {
    if bytes.len() >= 8 {
        Some((spec_u64_from_le_bytes(bytes.take(8)), bytes.skip(8)))
    } else {
        None
    }
}

pub open spec fn u128_wire(value: u128) -> Seq<u8> {
    spec_u128_to_le_bytes(value)
}

pub open spec fn parse_u128(bytes: Seq<u8>) -> Option<(u128, Seq<u8>)> {
    if bytes.len() >= 16 {
        Some((spec_u128_from_le_bytes(bytes.take(16)), bytes.skip(16)))
    } else {
        None
    }
}

/// A byte string behind its length. The length has to fit in four bytes.
pub open spec fn blob_wire(blob: Seq<u8>) -> Seq<u8> {
    u32_wire(blob.len() as u32) + blob
}

#[verifier::opaque]
pub open spec fn parse_blob(bytes: Seq<u8>) -> Option<(Seq<u8>, Seq<u8>)> {
    match parse_u32(bytes) {
        Some((len, rest)) => if rest.len() >= len {
            Some((rest.take(len as int), rest.skip(len as int)))
        } else {
            None
        },
        None => None,
    }
}

/// A text as the byte string of its UTF-8 encoding.
pub open spec fn text_wire(text: Seq<char>) -> Seq<u8> {
    blob_wire(encode_utf8(text))
}

#[verifier::opaque]
pub open spec fn parse_text(bytes: Seq<u8>) -> Option<(Seq<char>, Seq<u8>)> {
    match parse_blob(bytes) {
        Some((blob, rest)) => if valid_utf8(blob) {
            Some((decode_utf8(blob), rest))
        } else {
            None
        },
        None => None,
    }
}

/// Whether a byte string is short enough to stand behind its length.
pub open spec fn blob_fits(blob: Seq<u8>) -> bool {
    blob.len() <= u32::MAX
}

/// Whether a text is short enough, encoded, to stand behind its length.
pub open spec fn text_fits(text: Seq<char>) -> bool {
    blob_fits(encode_utf8(text))
}

pub proof fn lemma_u8_round_trip(value: u8, rest: Seq<u8>)
    ensures
        parse_u8(seq![value] + rest) == Some((value, rest)),
{
    assert((seq![value] + rest).skip(1) =~= rest);
}

pub proof fn lemma_u32_round_trip(value: u32, rest: Seq<u8>)
    ensures
        u32_wire(value).len() == 4,
        parse_u32(u32_wire(value) + rest) == Some((value, rest)),
{
    lemma_auto_spec_u32_to_from_le_bytes();
    let wire = u32_wire(value);
    assert((wire + rest).take(4) =~= wire);
    assert((wire + rest).skip(4) =~= rest);
}

pub proof fn lemma_u64_round_trip(value: u64, rest: Seq<u8>)
    ensures
        u64_wire(value).len() == 8,
        parse_u64(u64_wire(value) + rest) == Some((value, rest)),
{
    lemma_auto_spec_u64_to_from_le_bytes();
    let wire = u64_wire(value);
    assert((wire + rest).take(8) =~= wire);
    assert((wire + rest).skip(8) =~= rest);
}

pub proof fn lemma_u128_round_trip(value: u128, rest: Seq<u8>)
    ensures
        u128_wire(value).len() == 16,
        parse_u128(u128_wire(value) + rest) == Some((value, rest)),
{
    lemma_auto_spec_u128_to_from_le_bytes();
    let wire = u128_wire(value);
    assert((wire + rest).take(16) =~= wire);
    assert((wire + rest).skip(16) =~= rest);
}

pub proof fn lemma_blob_round_trip(blob: Seq<u8>, rest: Seq<u8>)
    requires
        blob_fits(blob),
    ensures
        parse_blob(blob_wire(blob) + rest) == Some((blob, rest)),
{
    reveal(parse_blob);
    let len = blob.len() as u32;
    lemma_u32_round_trip(len, blob + rest);
    assert(blob_wire(blob) + rest =~= u32_wire(len) + (blob + rest));
    assert((blob + rest).take(len as int) =~= blob);
    assert((blob + rest).skip(len as int) =~= rest);
}

pub proof fn lemma_text_round_trip(text: Seq<char>, rest: Seq<u8>)
    requires
        text_fits(text),
    ensures
        parse_text(text_wire(text) + rest) == Some((text, rest)),
{
    reveal(parse_text);
    lemma_blob_round_trip(encode_utf8(text), rest);
    encode_utf8_valid_utf8(text);
    encode_utf8_decode_utf8(text);
}

pub proof fn lemma_u8_inverse(bytes: Seq<u8>)
    ensures
        parse_u8(bytes) matches Some((value, rest)) ==> bytes == seq![value] + rest,
{
    if let Some((value, rest)) = parse_u8(bytes) {
        assert(bytes =~= seq![value] + rest);
    }
}

pub proof fn lemma_u32_inverse(bytes: Seq<u8>)
    ensures
        parse_u32(bytes) matches Some((value, rest)) ==> bytes == u32_wire(value) + rest,
{
    if let Some((value, rest)) = parse_u32(bytes) {
        lemma_auto_spec_u32_to_from_le_bytes();
        assert(bytes.take(4).len() == 4);
        assert(bytes =~= bytes.take(4) + rest);
    }
}

pub proof fn lemma_u64_inverse(bytes: Seq<u8>)
    ensures
        parse_u64(bytes) matches Some((value, rest)) ==> bytes == u64_wire(value) + rest,
{
    if let Some((value, rest)) = parse_u64(bytes) {
        lemma_auto_spec_u64_to_from_le_bytes();
        assert(bytes.take(8).len() == 8);
        assert(bytes =~= bytes.take(8) + rest);
    }
}

pub proof fn lemma_u128_inverse(bytes: Seq<u8>)
    ensures
        parse_u128(bytes) matches Some((value, rest)) ==> bytes == u128_wire(value) + rest,
{
    if let Some((value, rest)) = parse_u128(bytes) {
        lemma_auto_spec_u128_to_from_le_bytes();
        assert(bytes.take(16).len() == 16);
        assert(bytes =~= bytes.take(16) + rest);
    }
}

pub proof fn lemma_blob_inverse(bytes: Seq<u8>)
    ensures
        parse_blob(bytes) matches Some((blob, rest)) ==> blob_fits(blob) && bytes == blob_wire(blob)
            + rest,
{
    reveal(parse_blob);
    if let Some((blob, rest)) = parse_blob(bytes) {
        lemma_u32_inverse(bytes);
        let (len, behind) = parse_u32(bytes)->Some_0;
        assert(behind =~= blob + rest);
        assert(bytes =~= blob_wire(blob) + rest);
    }
}

pub proof fn lemma_text_inverse(bytes: Seq<u8>)
    ensures
        parse_text(bytes) matches Some((text, rest)) ==> text_fits(text) && bytes == text_wire(text)
            + rest,
{
    reveal(parse_text);
    if let Some((text, rest)) = parse_text(bytes) {
        lemma_blob_inverse(bytes);
        let (blob, behind) = parse_blob(bytes)->Some_0;
        decode_utf8_encode_utf8(blob);
    }
}

/// What is left of `bytes` behind the first `at`, and behind `more` more.
pub proof fn lemma_skip_further(bytes: Seq<u8>, at: int, more: int)
    requires
        0 <= at,
        0 <= more,
        at + more <= bytes.len(),
    ensures
        bytes.skip(at).skip(more) == bytes.skip(at + more),
        bytes.skip(at).take(more) == bytes.subrange(at, at + more),
{
    assert(bytes.skip(at).skip(more) =~= bytes.skip(at + more));
    assert(bytes.skip(at).take(more) =~= bytes.subrange(at, at + more));
}

/// `String::from_utf8`: the text whose UTF-8 encoding `bytes` are, and `None`
/// where `bytes` are the encoding of no text.
#[verifier::external_body]
fn text_from_utf8(bytes: Vec<u8>) -> (text: Option<String>)
    ensures
        match text {
            Some(text) => valid_utf8(bytes@) && encode_utf8(text@) == bytes@,
            None => !valid_utf8(bytes@),
        },
{
    String::from_utf8(bytes).ok()
}

pub fn put_u8(out: &mut Vec<u8>, value: u8)
    ensures
        final(out)@ == old(out)@ + seq![value],
{
    out.push(value);
    assert(out@ =~= old(out)@ + seq![value]);
}

pub fn put_u32(out: &mut Vec<u8>, value: u32)
    ensures
        final(out)@ == old(out)@ + u32_wire(value),
{
    let mut bytes = u32_to_le_bytes(value);
    out.append(&mut bytes);
}

pub fn put_u64(out: &mut Vec<u8>, value: u64)
    ensures
        final(out)@ == old(out)@ + u64_wire(value),
{
    let mut bytes = u64_to_le_bytes(value);
    out.append(&mut bytes);
}

pub fn put_u128(out: &mut Vec<u8>, value: u128)
    ensures
        final(out)@ == old(out)@ + u128_wire(value),
{
    let mut bytes = u128_to_le_bytes(value);
    out.append(&mut bytes);
}

/// Appends a byte string behind its length; `false`, and nothing appended,
/// where the length does not fit.
pub fn put_blob(out: &mut Vec<u8>, blob: &Vec<u8>) -> (done: bool)
    ensures
        done == blob_fits(blob@),
        done ==> final(out)@ == old(out)@ + blob_wire(blob@),
        !done ==> final(out)@ == old(out)@,
{
    if blob.len() > u32::MAX as usize {
        return false;
    }
    put_u32(out, blob.len() as u32);
    let mut copy = slice_to_vec(blob.as_slice());
    out.append(&mut copy);
    assert(out@ =~= old(out)@ + blob_wire(blob@));
    true
}

/// Appends a text; `false`, and nothing appended, where its encoding is too
/// long.
pub fn put_text(out: &mut Vec<u8>, text: &String) -> (done: bool)
    ensures
        done == text_fits(text@),
        done ==> final(out)@ == old(out)@ + text_wire(text@),
        !done ==> final(out)@ == old(out)@,
{
    let encoded = text.as_str().as_bytes_vec();
    put_blob(out, &encoded)
}

pub fn take_u8(bytes: &[u8], at: usize) -> (field: Option<(u8, usize)>)
    requires
        at <= bytes@.len(),
    ensures
        match field {
            Some((value, next)) => at <= next <= bytes@.len() && parse_u8(bytes@.skip(at as int))
                == Some((value, bytes@.skip(next as int))),
            None => parse_u8(bytes@.skip(at as int)) is None,
        },
{
    if bytes.len() - at < 1 {
        return None;
    }
    proof {
        lemma_skip_further(bytes@, at as int, 1);
    }
    Some((bytes[at], at + 1))
}

pub fn take_u32(bytes: &[u8], at: usize) -> (field: Option<(u32, usize)>)
    requires
        at <= bytes@.len(),
    ensures
        match field {
            Some((value, next)) => at <= next <= bytes@.len() && parse_u32(bytes@.skip(at as int))
                == Some((value, bytes@.skip(next as int))),
            None => parse_u32(bytes@.skip(at as int)) is None,
        },
{
    if bytes.len() - at < 4 {
        return None;
    }
    proof {
        lemma_skip_further(bytes@, at as int, 4);
    }
    Some((u32_from_le_bytes(slice_subrange(bytes, at, at + 4)), at + 4))
}

pub fn take_u64(bytes: &[u8], at: usize) -> (field: Option<(u64, usize)>)
    requires
        at <= bytes@.len(),
    ensures
        match field {
            Some((value, next)) => at <= next <= bytes@.len() && parse_u64(bytes@.skip(at as int))
                == Some((value, bytes@.skip(next as int))),
            None => parse_u64(bytes@.skip(at as int)) is None,
        },
{
    if bytes.len() - at < 8 {
        return None;
    }
    proof {
        lemma_skip_further(bytes@, at as int, 8);
    }
    Some((u64_from_le_bytes(slice_subrange(bytes, at, at + 8)), at + 8))
}

pub fn take_u128(bytes: &[u8], at: usize) -> (field: Option<(u128, usize)>)
    requires
        at <= bytes@.len(),
    ensures
        match field {
            Some((value, next)) => at <= next <= bytes@.len() && parse_u128(
                bytes@.skip(at as int),
            ) == Some((value, bytes@.skip(next as int))),
            None => parse_u128(bytes@.skip(at as int)) is None,
        },
{
    if bytes.len() - at < 16 {
        return None;
    }
    proof {
        lemma_skip_further(bytes@, at as int, 16);
    }
    Some((u128_from_le_bytes(slice_subrange(bytes, at, at + 16)), at + 16))
}

pub fn take_blob(bytes: &[u8], at: usize) -> (field: Option<(Vec<u8>, usize)>)
    requires
        at <= bytes@.len(),
    ensures
        match field {
            Some((value, next)) => at <= next <= bytes@.len() && parse_blob(
                bytes@.skip(at as int),
            ) == Some((value@, bytes@.skip(next as int))),
            None => parse_blob(bytes@.skip(at as int)) is None,
        },
{
    proof {
        reveal(parse_blob);
    }
    let (len, start) = match take_u32(bytes, at) {
        Some(field) => field,
        None => {
            return None;
        },
    };
    if bytes.len() - start < len as usize {
        return None;
    }
    proof {
        lemma_skip_further(bytes@, start as int, len as int);
    }
    let end = start + len as usize;
    Some((slice_to_vec(slice_subrange(bytes, start, end)), end))
}

pub fn take_text(bytes: &[u8], at: usize) -> (field: Option<(String, usize)>)
    requires
        at <= bytes@.len(),
    ensures
        match field {
            Some((value, next)) => at <= next <= bytes@.len() && parse_text(
                bytes@.skip(at as int),
            ) == Some((value@, bytes@.skip(next as int))),
            None => parse_text(bytes@.skip(at as int)) is None,
        },
{
    proof {
        reveal(parse_text);
    }
    let (blob, next) = match take_blob(bytes, at) {
        Some(field) => field,
        None => {
            return None;
        },
    };
    let ghost encoded = blob@;
    match text_from_utf8(blob) {
        Some(text) => {
            proof {
                encode_utf8_decode_utf8(text@);
            }
            Some((text, next))
        },
        None => None,
    }
}

} // verus!
