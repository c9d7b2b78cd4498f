//! File-content decoding with multi-encoding fallback: UTF-8 first, then
//! GBK, then Windows-1252, then lossy UTF-8 — a decode never fails
//! outright, so indexing stays resilient to legacy-encoded files.

use vstd::prelude::*;

verus! {

/// What `encoding_rs::UTF_8.decode` yields for the given bytes: the
/// decoded characters and whether any malformed sequence was replaced.
/// A function of the bytes alone.
pub uninterp spec fn utf8_decoding(bytes: Seq<u8>) -> (Seq<char>, bool);

/// What `encoding_rs::GBK.decode` yields for the given bytes: the decoded
/// characters and whether any malformed sequence was replaced.  A
/// function of the bytes alone.
pub uninterp spec fn gbk_decoding(bytes: Seq<u8>) -> (Seq<char>, bool);

/// What `encoding_rs::WINDOWS_1252.decode` yields for the given bytes:
/// the decoded characters and whether any malformed sequence was
/// replaced.  A function of the bytes alone.
pub uninterp spec fn windows1252_decoding(bytes: Seq<u8>) -> (Seq<char>, bool);

/// Relies on `encoding_rs::UTF_8.decode`: decodes the whole input with
/// BOM removal, replacing malformed sequences and reporting whether any
/// replacement happened.
#[verifier::external_body]
fn decode_utf8(bytes: &Vec<u8>) -> (r: (String, bool))
    ensures
        r.0@ == utf8_decoding(bytes@).0,
        r.1 == utf8_decoding(bytes@).1,
{
    let (cow, _, had_errors) = encoding_rs::UTF_8.decode(bytes);
    (cow.into_owned(), had_errors)
}

/// Relies on `encoding_rs::GBK.decode`: decodes the whole input with BOM
/// removal, replacing malformed sequences and reporting whether any
/// replacement happened.
#[verifier::external_body]
fn decode_gbk(bytes: &Vec<u8>) -> (r: (String, bool))
    ensures
        r.0@ == gbk_decoding(bytes@).0,
        r.1 == gbk_decoding(bytes@).1,
{
    let (cow, _, had_errors) = encoding_rs::GBK.decode(bytes);
    (cow.into_owned(), had_errors)
}

/// Relies on `encoding_rs::WINDOWS_1252.decode`: decodes the whole input
/// with BOM removal, replacing malformed sequences and reporting whether
/// any replacement happened.
#[verifier::external_body]
fn decode_windows1252(bytes: &Vec<u8>) -> (r: (String, bool))
    ensures
        r.0@ == windows1252_decoding(bytes@).0,
        r.1 == windows1252_decoding(bytes@).1,
{
    let (cow, _, had_errors) = encoding_rs::WINDOWS_1252.decode(bytes);
    (cow.into_owned(), had_errors)
}

/// The decode cascade: strict UTF-8, then GBK, then Windows-1252, and as
/// the last resort UTF-8 with replacement characters kept.
pub open spec fn decode_cascade_spec(bytes: Seq<u8>) -> Seq<char> {
    if !utf8_decoding(bytes).1 {
        utf8_decoding(bytes).0
    } else if !gbk_decoding(bytes).1 {
        gbk_decoding(bytes).0
    } else if !windows1252_decoding(bytes).1 {
        windows1252_decoding(bytes).0
    } else {
        utf8_decoding(bytes).0
    }
}

/// Decodes file bytes to text, trying UTF-8, GBK and Windows-1252 in
/// turn and falling back to lossy UTF-8: a decode never fails outright.
pub fn decode_file_content(bytes: &Vec<u8>) -> (r: String)
    ensures
        r@ == decode_cascade_spec(bytes@),
{
    let (text, had_errors) = decode_utf8(bytes);
    if !had_errors {
        return text;
    }
    let (text, had_errors) = decode_gbk(bytes);
    if !had_errors {
        return text;
    }
    let (text, had_errors) = decode_windows1252(bytes);
    if !had_errors {
        return text;
    }
    let (text, _) = decode_utf8(bytes);
    text
}

} // verus!
