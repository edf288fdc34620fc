//! What holds of the message format as a whole: decoding inverts encoding,
//! a message cut short is recognised as such, and a tag byte that announces
//! no operation stops the decode at once.

use vstd::prelude::*;
use vstd::bytes::*;
use vstd::utf8::*;
use crate::qdb::protocol::{
    known_tag, parse_fields, parse_request, parse_response, BodyView, RequestView, ResponseView,
    QDB_REQUEST_DELETE, QDB_REQUEST_READ, QDB_REQUEST_WRITE,
};
use crate::qdb::wire::{
    encode_flag, encode_option_string, encode_string, fits, lemma_flag_round_trip,
    lemma_option_string_fits, lemma_option_string_ignores_rest, lemma_option_string_round_trip,
    lemma_option_string_truncated, lemma_string_ignores_rest, lemma_string_invalid_encoding,
    lemma_string_round_trip, lemma_string_truncated, lemma_string_unique_form,
    parse_option_string, parse_string, Parsed,
};
use crate::util::QError;

verus! {

/// Parsing the fields of an operation after its own tag gives the operation
/// back and takes exactly the bytes of the fields, whatever follows them.
pub proof fn fields_round_trip(body: BodyView, rest: Seq<u8>)
    requires
        body.fits(),
    ensures
        parse_fields(body.tag(), body.encode_fields() + rest) == (Parsed {
            result: Ok(body),
            consumed: body.encode_fields().len(),
        }),
{
    let input = body.encode_fields() + rest;
    match body {
        BodyView::Read { key } => {
            lemma_string_round_trip(key, rest);
        },
        BodyView::Write { key, value, overwrite } => {
            let after_key = encode_string(value) + encode_flag(overwrite) + rest;
            let after_value = encode_flag(overwrite) + rest;
            assert(input =~= encode_string(key) + after_key);
            lemma_string_round_trip(key, after_key);
            assert(input.skip(encode_string(key).len() as int) =~= after_key);
            assert(after_key =~= encode_string(value) + after_value);
            lemma_string_round_trip(value, after_value);
            assert(input.skip((encode_string(key).len() + encode_string(value).len()) as int)
                =~= after_value);
            lemma_flag_round_trip(overwrite, rest);
        },
        BodyView::Delete { key } => {
            lemma_string_round_trip(key, rest);
        },
        BodyView::CreateNamespace => {},
        BodyView::DeleteNamespace => {},
    }
}

/// Decoding an encoded request gives the request back, for each of the five
/// operations, and consumes exactly the bytes of the encoding, whatever
/// follows them in the source.
pub proof fn request_round_trip(request: RequestView, rest: Seq<u8>)
    requires
        request.fits(),
    ensures
        parse_request(request.encode() + rest) == (Parsed {
            result: Ok(request),
            consumed: request.encode().len(),
        }),
{
    let input = request.encode() + rest;
    let namespace = encode_string(request.namespace);
    let after_namespace = seq![request.body.tag()] + request.body.encode_fields() + rest;
    let after_tag = request.body.encode_fields() + rest;
    assert(input =~= namespace + after_namespace);
    lemma_string_round_trip(request.namespace, after_namespace);
    assert(input.skip(namespace.len() as int) =~= after_namespace);
    assert(input.skip(namespace.len() as int + 1) =~= after_tag);
    fields_round_trip(request.body, rest);
}

/// Decoding an encoded response gives the response back, with or without a
/// message and with or without a result, and consumes exactly the bytes of
/// the encoding.
pub proof fn response_round_trip(response: ResponseView, rest: Seq<u8>)
    requires
        response.fits(),
    ensures
        parse_response(response.encode() + rest) == (Parsed {
            result: Ok(response),
            consumed: response.encode().len(),
        }),
{
    let input = response.encode() + rest;
    let message = encode_option_string(response.message);
    let result = encode_option_string(response.result);
    let after_flag = message + (result + rest);
    let after_message = result + rest;
    assert(input =~= encode_flag(response.success) + after_flag);
    lemma_flag_round_trip(response.success, after_flag);
    assert(input.skip(1) =~= after_flag);
    lemma_option_string_round_trip(response.message, after_message);
    assert(input.skip(1 + message.len() as int) =~= after_message);
    lemma_option_string_round_trip(response.result, rest);
}

/// The encoding is unambiguous: where two requests, each followed by
/// whatever bytes, give the same byte sequence, they are the same request.
pub proof fn request_encoding_unambiguous(
    a: RequestView,
    b: RequestView,
    after_a: Seq<u8>,
    after_b: Seq<u8>,
)
    requires
        a.fits(),
        b.fits(),
        a.encode() + after_a == b.encode() + after_b,
    ensures
        a == b,
        after_a == after_b,
{
    request_round_trip(a, after_a);
    request_round_trip(b, after_b);
    let n = a.encode().len() as int;
    assert(after_a =~= (a.encode() + after_a).skip(n));
    assert(after_b =~= (b.encode() + after_b).skip(n));
}

/// The encoding is unambiguous: where two responses, each followed by
/// whatever bytes, give the same byte sequence, they are the same response.
pub proof fn response_encoding_unambiguous(
    a: ResponseView,
    b: ResponseView,
    after_a: Seq<u8>,
    after_b: Seq<u8>,
)
    requires
        a.fits(),
        b.fits(),
        a.encode() + after_a == b.encode() + after_b,
    ensures
        a == b,
        after_a == after_b,
{
    response_round_trip(a, after_a);
    response_round_trip(b, after_b);
    let n = a.encode().len() as int;
    assert(after_a =~= (a.encode() + after_a).skip(n));
    assert(after_b =~= (b.encode() + after_b).skip(n));
}

/// Every request that decoding returns can be encoded, and so decoded
/// again.
pub proof fn decoded_request_fits(input: Seq<u8>)
    requires
        parse_request(input).result is Ok,
    ensures
        parse_request(input).result.unwrap().fits(),
{
    lemma_string_unique_form(input);
    let n = parse_string(input).consumed as int;
    let tag = input[n];
    let fields = input.skip(n + 1);
    if tag == QDB_REQUEST_READ || tag == QDB_REQUEST_DELETE {
        lemma_string_unique_form(fields);
    } else if tag == QDB_REQUEST_WRITE {
        lemma_string_unique_form(fields);
        lemma_string_unique_form(fields.skip(parse_string(fields).consumed as int));
    }
}

/// Every response that decoding returns can be encoded, and so decoded
/// again.
pub proof fn decoded_response_fits(input: Seq<u8>)
    requires
        parse_response(input).result is Ok,
    ensures
        parse_response(input).result.unwrap().fits(),
{
    lemma_option_string_fits(input.skip(1));
    let n = 1 + parse_option_string(input.skip(1)).consumed as int;
    lemma_option_string_fits(input.skip(n));
}

/// A source that holds a whole request, cut anywhere before the request's
/// last byte, is reported as truncated.
pub proof fn request_prefix_truncated(input: Seq<u8>, k: int)
    requires
        parse_request(input).result is Ok,
        0 <= k < parse_request(input).consumed,
    ensures
        parse_request(input.take(k)).result == Err::<RequestView, QError>(QError::Truncated),
{
    let short = input.take(k);
    let namespace = parse_string(input);
    let n = namespace.consumed as int;
    if k < n {
        lemma_string_truncated(input, k);
    } else {
        lemma_string_ignores_rest(input, k);
        if k > n {
            let tag = input[n];
            assert(short.skip(n)[0] == tag);
            let fields = input.skip(n + 1);
            assert(short.skip(n + 1) =~= fields.take(k - n - 1));
            fields_prefix_truncated(tag, fields, k - n - 1);
        } else {
            assert(short.skip(n).len() == 0);
        }
    }
}

/// The fields of an operation, cut short, are reported as truncated.
pub proof fn fields_prefix_truncated(tag: u8, input: Seq<u8>, k: int)
    requires
        parse_fields(tag, input).result is Ok,
        0 <= k < parse_fields(tag, input).consumed,
    ensures
        parse_fields(tag, input.take(k)).result == Err::<BodyView, QError>(QError::Truncated),
{
    let short = input.take(k);
    if tag == QDB_REQUEST_READ || tag == QDB_REQUEST_DELETE {
        lemma_string_truncated(input, k);
    } else if tag == QDB_REQUEST_WRITE {
        let key = parse_string(input).consumed as int;
        if k < key {
            lemma_string_truncated(input, k);
        } else {
            lemma_string_ignores_rest(input, k);
            let value = parse_string(input.skip(key)).consumed as int;
            assert(short.skip(key) =~= input.skip(key).take(k - key));
            if k < key + value {
                lemma_string_truncated(input.skip(key), k - key);
            } else {
                lemma_string_ignores_rest(input.skip(key), k - key);
                assert(short.skip(key + value).len() == 0);
            }
        }
    }
}

/// A source that holds a whole response, cut anywhere before the response's
/// last byte, is reported as truncated.
pub proof fn response_prefix_truncated(input: Seq<u8>, k: int)
    requires
        parse_response(input).result is Ok,
        0 <= k < parse_response(input).consumed,
    ensures
        parse_response(input.take(k)).result == Err::<ResponseView, QError>(QError::Truncated),
{
    let short = input.take(k);
    if k >= 1 {
        let message = parse_option_string(input.skip(1)).consumed as int;
        assert(short.skip(1) =~= input.skip(1).take(k - 1));
        if k < 1 + message {
            lemma_option_string_truncated(input.skip(1), k - 1);
        } else {
            lemma_option_string_ignores_rest(input.skip(1), k - 1);
            assert(short.skip(1 + message) =~= input.skip(1 + message).take(k - 1 - message));
            lemma_option_string_truncated(input.skip(1 + message), k - 1 - message);
        }
    }
}

/// Decoding any proper prefix of an encoded request fails with `Truncated`,
/// for every operation and every length of the prefix.
pub proof fn request_truncation(request: RequestView, k: int)
    requires
        request.fits(),
        0 <= k < request.encode().len(),
    ensures
        parse_request(request.encode().take(k)).result == Err::<RequestView, QError>(
            QError::Truncated,
        ),
{
    request_round_trip(request, Seq::empty());
    assert(request.encode() + Seq::<u8>::empty() =~= request.encode());
    request_prefix_truncated(request.encode(), k);
}

/// Decoding any proper prefix of an encoded response fails with `Truncated`,
/// for every length of the prefix.
pub proof fn response_truncation(response: ResponseView, k: int)
    requires
        response.fits(),
        0 <= k < response.encode().len(),
    ensures
        parse_response(response.encode().take(k)).result == Err::<ResponseView, QError>(
            QError::Truncated,
        ),
{
    response_round_trip(response, Seq::empty());
    assert(response.encode() + Seq::<u8>::empty() =~= response.encode());
    response_prefix_truncated(response.encode(), k);
}

/// A request whose tag byte announces no operation fails with `UnknownTag`,
/// and the tag byte is the last byte consumed.
pub proof fn unknown_tag_rejected(namespace: Seq<char>, tag: u8, rest: Seq<u8>)
    requires
        fits(namespace),
        !known_tag(tag),
    ensures
        parse_request(encode_string(namespace) + seq![tag] + rest) == (Parsed::<RequestView> {
            result: Err(QError::UnknownTag),
            consumed: encode_string(namespace).len() + 1,
        }),
{
    let input = encode_string(namespace) + seq![tag] + rest;
    assert(input =~= encode_string(namespace) + (seq![tag] + rest));
    lemma_string_round_trip(namespace, seq![tag] + rest);
    assert(input.skip(encode_string(namespace).len() as int) =~= seq![tag] + rest);
}

/// A request whose namespace is declared with bytes that are not UTF-8 fails
/// with `InvalidEncoding`.
pub proof fn invalid_namespace_rejected(payload: Seq<u8>, rest: Seq<u8>)
    requires
        payload.len() <= u64::MAX,
        !valid_utf8(payload),
    ensures
        parse_request(spec_u64_to_le_bytes(payload.len() as u64) + payload + rest).result == Err::<
            RequestView,
            QError,
        >(QError::InvalidEncoding),
{
    lemma_string_invalid_encoding(payload, rest);
}

} // verus!
