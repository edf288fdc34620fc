//! The wire format of the primitive fields, as functions on byte sequences.
//!
//! | field           | bytes                                                  |
//! |-----------------|--------------------------------------------------------|
//! | byte            | the byte itself                                        |
//! | flag            | one byte, `0` for false, anything else for true        |
//! | string          | 8-byte little-endian byte count, then the UTF-8 bytes  |
//! | optional string | one presence flag, then the string when it is present  |
//!
//! Each field has an encoder from a value to bytes and a parser from bytes to
//! a value together with the number of bytes it took. A parser looks only at
//! the front of its input, so fields can be laid end to end.

use vstd::prelude::*;
use vstd::bytes::*;
use vstd::utf8::*;
use crate::util::QError;

verus! {

/// The outcome of parsing one field from the front of a byte sequence.
pub struct Parsed<T> {
    /// The value, or the reason there is none.
    pub result: Result<T, QError>,
    /// How many bytes were taken from the input, also on failure.
    pub consumed: nat,
}

/// A string can be framed when its byte count fits the length prefix.
pub open spec fn fits(s: Seq<char>) -> bool {
    encode_utf8(s).len() <= u64::MAX
}

/// An optional string can be framed when it is absent or fits.
pub open spec fn option_fits(o: Option<Seq<char>>) -> bool {
    o matches Some(s) ==> fits(s)
}

/// A flag on the wire: `1` for true, `0` for false.
pub open spec fn encode_flag(b: bool) -> Seq<u8> {
    seq![if b { 1u8 } else { 0u8 }]
}

/// A string on the wire: the count of its UTF-8 bytes, then those bytes.
pub open spec fn encode_string(s: Seq<char>) -> Seq<u8> {
    spec_u64_to_le_bytes(encode_utf8(s).len() as u64) + encode_utf8(s)
}

/// An optional string on the wire: a presence flag, then the string if it
/// is present.
pub open spec fn encode_option_string(o: Option<Seq<char>>) -> Seq<u8> {
    match o {
        None => encode_flag(false),
        Some(s) => encode_flag(true) + encode_string(s),
    }
}

/// One byte, if there is one.
pub open spec fn parse_byte(input: Seq<u8>) -> Parsed<u8> {
    if input.len() >= 1 {
        Parsed { result: Ok(input[0]), consumed: 1 }
    } else {
        Parsed { result: Err(QError::Truncated), consumed: 0 }
    }
}

/// One byte read as a flag: true unless the byte is zero.
pub open spec fn parse_flag(input: Seq<u8>) -> Parsed<bool> {
    if input.len() >= 1 {
        Parsed { result: Ok(input[0] != 0), consumed: 1 }
    } else {
        Parsed { result: Err(QError::Truncated), consumed: 0 }
    }
}

/// The byte count that the first eight bytes of `input` declare.
pub open spec fn declared_len(input: Seq<u8>) -> nat
    recommends
        input.len() >= 8,
{
    spec_u64_from_le_bytes(input.subrange(0, 8)) as nat
}

/// A string is taken in three steps: the length prefix, then as many bytes as
/// it declares, then the UTF-8 check on those bytes. A source that runs out in
/// the prefix gives up nothing; one that runs out in the payload gives up the
/// prefix; bytes that fail the check have been taken all the same.
pub open spec fn parse_string(input: Seq<u8>) -> Parsed<Seq<char>> {
    if input.len() < 8 {
        Parsed { result: Err(QError::Truncated), consumed: 0 }
    } else if input.len() - 8 < declared_len(input) {
        Parsed { result: Err(QError::Truncated), consumed: 8 }
    } else {
        let end = 8 + declared_len(input);
        let payload = input.subrange(8, end as int);
        if valid_utf8(payload) {
            Parsed { result: Ok(decode_utf8(payload)), consumed: end }
        } else {
            Parsed { result: Err(QError::InvalidEncoding), consumed: end }
        }
    }
}

/// A presence flag, and a string after it if the flag is set.
pub open spec fn parse_option_string(input: Seq<u8>) -> Parsed<Option<Seq<char>>> {
    let flag = parse_flag(input);
    match flag.result {
        Err(e) => Parsed { result: Err(e), consumed: flag.consumed },
        Ok(false) => Parsed { result: Ok(None), consumed: 1 },
        Ok(true) => {
            let s = parse_string(input.skip(1));
            Parsed {
                result: match s.result {
                    Ok(v) => Ok(Some(v)),
                    Err(e) => Err(e),
                },
                consumed: 1 + s.consumed,
            }
        },
    }
}

/// A framed string is its payload and eight bytes more.
pub proof fn lemma_string_length(s: Seq<char>)
    ensures
        encode_string(s).len() == 8 + encode_utf8(s).len(),
{
    lemma_auto_spec_u64_to_from_le_bytes();
}

/// Parsing what `encode_flag` wrote gives the flag back, whatever follows.
pub proof fn lemma_flag_round_trip(b: bool, rest: Seq<u8>)
    ensures
        parse_flag(encode_flag(b) + rest) == (Parsed { result: Ok(b), consumed: 1 }),
{
}

/// Parsing what `encode_string` wrote gives the string back and takes
/// exactly the bytes that were written, whatever follows them.
pub proof fn lemma_string_round_trip(s: Seq<char>, rest: Seq<u8>)
    requires
        fits(s),
    ensures
        parse_string(encode_string(s) + rest) == (Parsed {
            result: Ok(s),
            consumed: encode_string(s).len(),
        }),
        encode_string(s).len() == 8 + encode_utf8(s).len(),
{
    lemma_auto_spec_u64_to_from_le_bytes();
    let payload = encode_utf8(s);
    let prefix = spec_u64_to_le_bytes(payload.len() as u64);
    let input = encode_string(s) + rest;
    assert(input.subrange(0, 8) =~= prefix);
    assert(declared_len(input) == payload.len());
    assert(input.subrange(8, 8 + payload.len() as int) =~= payload);
    encode_utf8_valid_utf8(s);
    encode_utf8_decode_utf8(s);
}

/// Parsing what `encode_option_string` wrote gives the value back.
pub proof fn lemma_option_string_round_trip(o: Option<Seq<char>>, rest: Seq<u8>)
    requires
        option_fits(o),
    ensures
        parse_option_string(encode_option_string(o) + rest) == (Parsed {
            result: Ok(o),
            consumed: encode_option_string(o).len(),
        }),
{
    match o {
        None => {},
        Some(s) => {
            let input = encode_option_string(o) + rest;
            assert(input.skip(1) =~= encode_string(s) + rest);
            lemma_string_round_trip(s, rest);
        },
    }
}

/// Declared bytes that are not UTF-8 are refused, once they have been taken.
pub proof fn lemma_string_invalid_encoding(payload: Seq<u8>, rest: Seq<u8>)
    requires
        payload.len() <= u64::MAX,
        !valid_utf8(payload),
    ensures
        parse_string(spec_u64_to_le_bytes(payload.len() as u64) + payload + rest) == (Parsed::<
            Seq<char>,
        > {
            result: Err(QError::InvalidEncoding),
            consumed: 8 + payload.len(),
        }),
{
    lemma_auto_spec_u64_to_from_le_bytes();
    let prefix = spec_u64_to_le_bytes(payload.len() as u64);
    let input = prefix + payload + rest;
    assert(input.subrange(0, 8) =~= prefix);
    assert(input.subrange(8, 8 + payload.len() as int) =~= payload);
}

/// A string has one wire form: the bytes that a successful parse took are
/// the encoding of the string it returned.
pub proof fn lemma_string_unique_form(input: Seq<u8>)
    requires
        parse_string(input).result is Ok,
    ensures
        fits(parse_string(input).result.unwrap()),
        encode_string(parse_string(input).result.unwrap()) == input.take(
            parse_string(input).consumed as int,
        ),
{
    lemma_auto_spec_u64_to_from_le_bytes();
    let n = declared_len(input) as int;
    let payload = input.subrange(8, 8 + n);
    decode_utf8_encode_utf8(payload);
    assert(spec_u64_to_le_bytes(n as u64) == input.subrange(0, 8));
    assert(input.take(8 + n) =~= input.subrange(0, 8) + payload);
}

/// An optional string that was parsed can be framed again.
pub proof fn lemma_option_string_fits(input: Seq<u8>)
    requires
        parse_option_string(input).result is Ok,
    ensures
        option_fits(parse_option_string(input).result.unwrap()),
{
    if input[0] != 0 {
        lemma_string_unique_form(input.skip(1));
    }
}

/// A parser that succeeded does not look past the bytes it took.
pub proof fn lemma_string_ignores_rest(input: Seq<u8>, k: int)
    requires
        parse_string(input).result is Ok,
        parse_string(input).consumed <= k <= input.len(),
    ensures
        parse_string(input.take(k)) == parse_string(input),
{
    let short = input.take(k);
    assert(short.subrange(0, 8) =~= input.subrange(0, 8));
    let end: int = 8 + declared_len(input) as int;
    assert(short.subrange(8, end) =~= input.subrange(8, end));
}

/// Cutting a well-formed string field short is detected as truncation.
pub proof fn lemma_string_truncated(input: Seq<u8>, k: int)
    requires
        parse_string(input).result is Ok,
        0 <= k < parse_string(input).consumed,
    ensures
        parse_string(input.take(k)).result == Err::<Seq<char>, QError>(QError::Truncated),
{
    let short = input.take(k);
    if k >= 8 {
        assert(short.subrange(0, 8) =~= input.subrange(0, 8));
    }
}

/// An optional string that was parsed does not depend on what follows it.
pub proof fn lemma_option_string_ignores_rest(input: Seq<u8>, k: int)
    requires
        parse_option_string(input).result is Ok,
        parse_option_string(input).consumed <= k <= input.len(),
    ensures
        parse_option_string(input.take(k)) == parse_option_string(input),
{
    if input[0] != 0 {
        assert(input.take(k).skip(1) =~= input.skip(1).take(k - 1));
        lemma_string_ignores_rest(input.skip(1), k - 1);
    }
}

/// Cutting a well-formed optional string short is detected as truncation.
pub proof fn lemma_option_string_truncated(input: Seq<u8>, k: int)
    requires
        parse_option_string(input).result is Ok,
        0 <= k < parse_option_string(input).consumed,
    ensures
        parse_option_string(input.take(k)).result == Err::<Option<Seq<char>>, QError>(
            QError::Truncated,
        ),
{
    if k >= 1 && input[0] != 0 {
        assert(input.take(k).skip(1) =~= input.skip(1).take(k - 1));
        lemma_string_truncated(input.skip(1), k - 1);
    }
}

} // verus!
