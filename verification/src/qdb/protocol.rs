//! Requests to the key-value store and its responses, and their wire form.
//!
//! A request is `string(namespace) | byte(tag) | fields`, where the tag
//! selects the operation and with it the fields that follow:
//!
//! | tag | operation        | fields                                      |
//! |-----|------------------|---------------------------------------------|
//! | 1   | read             | `string(key)`                               |
//! | 2   | write            | `string(key) string(value) flag(overwrite)` |
//! | 3   | delete           | `string(key)`                               |
//! | 4   | create namespace | none                                        |
//! | 5   | delete namespace | none                                        |
//!
//! A response is `flag(success) | optional string(message) | optional
//! string(result)`.

use vstd::prelude::*;
use crate::qdb::codec::{
    option_view, outcome, read_byte, read_option_string, read_string, write_byte,
    write_option_string, write_string, ByteSource,
};
use crate::qdb::wire::{
    encode_flag, encode_option_string, encode_string, fits, option_fits, parse_byte, parse_flag,
    parse_option_string, parse_string, Parsed,
};
use crate::util::{QError, QResult};

verus! {

pub const QDB_REQUEST_READ: u8 = 1;

pub const QDB_REQUEST_WRITE: u8 = 2;

pub const QDB_REQUEST_DELETE: u8 = 3;

pub const QDB_REQUEST_CREATE_NAMESPACE: u8 = 4;

pub const QDB_REQUEST_DELETE_NAMESPACE: u8 = 5;

/// The operation that a request asks for.
#[derive(Debug, Clone, PartialEq, Eq)]
pub enum QDBRequestBody {
    Read { key: String },
    Write { key: String, value: String, overwrite: bool },
    Delete { key: String },
    CreateNamespace,
    DeleteNamespace,
}

/// One operation on one namespace.
#[derive(Debug, Clone, PartialEq, Eq)]
pub struct QDBRequest {
    pub namespace: String,
    pub body: QDBRequestBody,
}

/// The outcome of one request.
#[derive(Debug, Clone, PartialEq, Eq)]
pub struct QDBResponse {
    pub success: bool,
    pub message: Option<String>,
    pub result: Option<String>,
}

/// A request body with its strings as character sequences.
pub enum BodyView {
    Read { key: Seq<char> },
    Write { key: Seq<char>, value: Seq<char>, overwrite: bool },
    Delete { key: Seq<char> },
    CreateNamespace,
    DeleteNamespace,
}

/// A request with its strings as character sequences.
pub struct RequestView {
    pub namespace: Seq<char>,
    pub body: BodyView,
}

/// A response with its strings as character sequences.
pub struct ResponseView {
    pub success: bool,
    pub message: Option<Seq<char>>,
    pub result: Option<Seq<char>>,
}

impl View for QDBRequestBody {
    type V = BodyView;

    open spec fn view(&self) -> BodyView {
        match *self {
            QDBRequestBody::Read { key } => BodyView::Read { key: key@ },
            QDBRequestBody::Write { key, value, overwrite } => BodyView::Write {
                key: key@,
                value: value@,
                overwrite,
            },
            QDBRequestBody::Delete { key } => BodyView::Delete { key: key@ },
            QDBRequestBody::CreateNamespace => BodyView::CreateNamespace,
            QDBRequestBody::DeleteNamespace => BodyView::DeleteNamespace,
        }
    }
}

impl View for QDBRequest {
    type V = RequestView;

    open spec fn view(&self) -> RequestView {
        RequestView { namespace: self.namespace@, body: self.body@ }
    }
}

impl View for QDBResponse {
    type V = ResponseView;

    open spec fn view(&self) -> ResponseView {
        ResponseView {
            success: self.success,
            message: option_view(self.message),
            result: option_view(self.result),
        }
    }
}

impl BodyView {
    /// The tag byte that announces this operation.
    pub open spec fn tag(self) -> u8 {
        match self {
            BodyView::Read { .. } => QDB_REQUEST_READ,
            BodyView::Write { .. } => QDB_REQUEST_WRITE,
            BodyView::Delete { .. } => QDB_REQUEST_DELETE,
            BodyView::CreateNamespace => QDB_REQUEST_CREATE_NAMESPACE,
            BodyView::DeleteNamespace => QDB_REQUEST_DELETE_NAMESPACE,
        }
    }

    /// The fields that follow the tag byte.
    pub open spec fn encode_fields(self) -> Seq<u8> {
        match self {
            BodyView::Read { key } => encode_string(key),
            BodyView::Write { key, value, overwrite } => encode_string(key) + encode_string(value)
                + encode_flag(overwrite),
            BodyView::Delete { key } => encode_string(key),
            BodyView::CreateNamespace => Seq::empty(),
            BodyView::DeleteNamespace => Seq::empty(),
        }
    }

    /// Every string of the operation can be framed.
    pub open spec fn fits(self) -> bool {
        match self {
            BodyView::Read { key } => fits(key),
            BodyView::Write { key, value, .. } => fits(key) && fits(value),
            BodyView::Delete { key } => fits(key),
            BodyView::CreateNamespace => true,
            BodyView::DeleteNamespace => true,
        }
    }
}

/// A tag byte that announces an operation.
pub open spec fn known_tag(tag: u8) -> bool {
    QDB_REQUEST_READ <= tag <= QDB_REQUEST_DELETE_NAMESPACE
}

impl RequestView {
    /// The bytes of the request on the wire.
    pub open spec fn encode(self) -> Seq<u8> {
        encode_string(self.namespace) + seq![self.body.tag()] + self.body.encode_fields()
    }

    /// Every string of the request can be framed.
    pub open spec fn fits(self) -> bool {
        fits(self.namespace) && self.body.fits()
    }
}

impl ResponseView {
    /// The bytes of the response on the wire.
    pub open spec fn encode(self) -> Seq<u8> {
        encode_flag(self.success) + encode_option_string(self.message) + encode_option_string(
            self.result,
        )
    }

    /// Every string of the response can be framed.
    pub open spec fn fits(self) -> bool {
        option_fits(self.message) && option_fits(self.result)
    }
}

/// The same outcome for a value built from the parsed one.
pub open spec fn map_parsed<A, B>(p: Parsed<A>, f: spec_fn(A) -> B) -> Parsed<B> {
    Parsed {
        result: match p.result {
            Ok(v) => Ok(f(v)),
            Err(e) => Err(e),
        },
        consumed: p.consumed,
    }
}

/// The fields of a write: key, value and overwrite flag, in that order.
pub open spec fn parse_write_fields(input: Seq<u8>) -> Parsed<BodyView> {
    let key = parse_string(input);
    match key.result {
        Err(e) => Parsed { result: Err(e), consumed: key.consumed },
        Ok(k) => {
            let value = parse_string(input.skip(key.consumed as int));
            match value.result {
                Err(e) => Parsed { result: Err(e), consumed: key.consumed + value.consumed },
                Ok(v) => {
                    let flag = parse_flag(input.skip((key.consumed + value.consumed) as int));
                    Parsed {
                        result: match flag.result {
                            Ok(overwrite) => Ok(BodyView::Write { key: k, value: v, overwrite }),
                            Err(e) => Err(e),
                        },
                        consumed: key.consumed + value.consumed + flag.consumed,
                    }
                },
            }
        },
    }
}

/// The fields that `tag` calls for, taken from the front of `input`. A tag
/// that announces no operation takes nothing.
pub open spec fn parse_fields(tag: u8, input: Seq<u8>) -> Parsed<BodyView> {
    if tag == QDB_REQUEST_READ {
        map_parsed(parse_string(input), |key: Seq<char>| BodyView::Read { key })
    } else if tag == QDB_REQUEST_WRITE {
        parse_write_fields(input)
    } else if tag == QDB_REQUEST_DELETE {
        map_parsed(parse_string(input), |key: Seq<char>| BodyView::Delete { key })
    } else if tag == QDB_REQUEST_CREATE_NAMESPACE {
        Parsed { result: Ok(BodyView::CreateNamespace), consumed: 0 }
    } else if tag == QDB_REQUEST_DELETE_NAMESPACE {
        Parsed { result: Ok(BodyView::DeleteNamespace), consumed: 0 }
    } else {
        Parsed { result: Err(QError::UnknownTag), consumed: 0 }
    }
}

/// A request from the front of `input`: the namespace, the tag byte, then
/// the fields of the operation that the tag announces and no others.
pub open spec fn parse_request(input: Seq<u8>) -> Parsed<RequestView> {
    let namespace = parse_string(input);
    match namespace.result {
        Err(e) => Parsed { result: Err(e), consumed: namespace.consumed },
        Ok(ns) => {
            let tag = parse_byte(input.skip(namespace.consumed as int));
            match tag.result {
                Err(e) => Parsed { result: Err(e), consumed: namespace.consumed },
                Ok(t) => {
                    let fields = parse_fields(t, input.skip(namespace.consumed as int + 1));
                    Parsed {
                        result: match fields.result {
                            Ok(body) => Ok(RequestView { namespace: ns, body }),
                            Err(e) => Err(e),
                        },
                        consumed: namespace.consumed + 1 + fields.consumed,
                    }
                },
            }
        },
    }
}

/// A response from the front of `input`: success flag, message, result.
pub open spec fn parse_response(input: Seq<u8>) -> Parsed<ResponseView> {
    let success = parse_flag(input);
    match success.result {
        Err(e) => Parsed { result: Err(e), consumed: 0 },
        Ok(ok) => {
            let message = parse_option_string(input.skip(1));
            match message.result {
                Err(e) => Parsed { result: Err(e), consumed: 1 + message.consumed },
                Ok(m) => {
                    let result = parse_option_string(input.skip(1 + message.consumed as int));
                    Parsed {
                        result: match result.result {
                            Ok(r) => Ok(ResponseView { success: ok, message: m, result: r }),
                            Err(e) => Err(e),
                        },
                        consumed: 1 + message.consumed + result.consumed,
                    }
                },
            }
        },
    }
}

impl QDBRequest {
    pub fn read_request(namespace: String, key: String) -> (request: Self)
        ensures
            request == (QDBRequest { namespace, body: QDBRequestBody::Read { key } }),
    {
        Self { namespace, body: QDBRequestBody::Read { key } }
    }

    pub fn write_request(
        namespace: String,
        key: String,
        value: String,
        overwrite: bool,
    ) -> (request: Self)
        ensures
            request == (QDBRequest {
                namespace,
                body: QDBRequestBody::Write { key, value, overwrite },
            }),
    {
        Self { namespace, body: QDBRequestBody::Write { key, value, overwrite } }
    }

    pub fn delete_request(namespace: String, key: String) -> (request: Self)
        ensures
            request == (QDBRequest { namespace, body: QDBRequestBody::Delete { key } }),
    {
        Self { namespace, body: QDBRequestBody::Delete { key } }
    }

    pub fn create_namespace(namespace: String) -> (request: Self)
        ensures
            request == (QDBRequest { namespace, body: QDBRequestBody::CreateNamespace }),
    {
        Self { namespace, body: QDBRequestBody::CreateNamespace }
    }

    pub fn delete_namespace(namespace: String) -> (request: Self)
        ensures
            request == (QDBRequest { namespace, body: QDBRequestBody::DeleteNamespace }),
    {
        Self { namespace, body: QDBRequestBody::DeleteNamespace }
    }

    /// Decodes one request from the unread bytes of `input`.
    ///
    /// The result and the number of bytes consumed are those of
    /// [`parse_request`]: the request on success; `Truncated` where the source
    /// ends inside a field, `InvalidEncoding` where a string is not UTF-8,
    /// `UnknownTag` where the tag byte, which is then the last byte consumed,
    /// announces no operation.
    pub fn read(input: &mut ByteSource) -> (r: QResult<Self>)
        ensures
            outcome(r) == parse_request(old(input).remaining()).result,
            final(input).advanced_by(*old(input), parse_request(old(input).remaining()).consumed),
    {
        let ghost start = *input;
        let ghost unread = input.remaining();
        let namespace = read_string(input)?;
        let ghost after_namespace = parse_string(unread).consumed;
        proof {
            input.lemma_unread(start, after_namespace);
        }
        let kind = read_byte(input)?;
        let ghost fields = unread.skip(after_namespace as int + 1);
        let ghost at_fields = *input;
        proof {
            input.lemma_unread(start, after_namespace + 1);
        }
        if kind == QDB_REQUEST_READ {
            let key = read_string(input)?;
            Ok(Self::read_request(namespace, key))
        } else if kind == QDB_REQUEST_WRITE {
            let key = read_string(input)?;
            let ghost after_key = parse_string(fields).consumed;
            proof {
                input.lemma_unread(at_fields, after_key);
            }
            let value = read_string(input)?;
            let ghost after_value = after_key + parse_string(
                fields.skip(after_key as int),
            ).consumed;
            proof {
                input.lemma_unread(at_fields, after_value);
            }
            let overwrite = read_byte(input)? != 0;
            Ok(Self::write_request(namespace, key, value, overwrite))
        } else if kind == QDB_REQUEST_DELETE {
            let key = read_string(input)?;
            Ok(Self::delete_request(namespace, key))
        } else if kind == QDB_REQUEST_CREATE_NAMESPACE {
            Ok(Self::create_namespace(namespace))
        } else if kind == QDB_REQUEST_DELETE_NAMESPACE {
            Ok(Self::delete_namespace(namespace))
        } else {
            Err(QError::UnknownTag)
        }
    }

    /// Appends the wire form of the request to `output`.
    pub fn write(&self, output: &mut Vec<u8>)
        ensures
            final(output)@ == old(output)@ + self@.encode(),
            self@.fits(),
    {
        write_string(output, self.namespace.as_str());
        match &self.body {
            QDBRequestBody::Read { key } => {
                write_byte(output, QDB_REQUEST_READ);
                write_string(output, key.as_str());
            },
            QDBRequestBody::Write { key, value, overwrite } => {
                write_byte(output, QDB_REQUEST_WRITE);
                write_string(output, key.as_str());
                write_string(output, value.as_str());
                write_byte(output, if *overwrite { 1 } else { 0 });
            },
            QDBRequestBody::Delete { key } => {
                write_byte(output, QDB_REQUEST_DELETE);
                write_string(output, key.as_str());
            },
            QDBRequestBody::CreateNamespace => {
                write_byte(output, QDB_REQUEST_CREATE_NAMESPACE);
            },
            QDBRequestBody::DeleteNamespace => {
                write_byte(output, QDB_REQUEST_DELETE_NAMESPACE);
            },
        }
        assert(output@ =~= old(output)@ + self@.encode());
    }
}

impl QDBResponse {
    /// A success that carries no value.
    pub fn success() -> (response: Self)
        ensures
            response == (QDBResponse { success: true, message: None, result: None }),
    {
        Self { success: true, message: None, result: None }
    }

    /// A successful read and the value that was found.
    pub fn success_with_result(result: String) -> (response: Self)
        ensures
            response == (QDBResponse { success: true, message: None, result: Some(result) }),
    {
        Self { success: true, message: None, result: Some(result) }
    }

    /// A failure and its reason.
    pub fn failure(reason: String) -> (response: Self)
        ensures
            response == (QDBResponse { success: false, message: Some(reason), result: None }),
    {
        Self { success: false, message: Some(reason), result: None }
    }

    /// Decodes one response from the unread bytes of `input`.
    ///
    /// The result and the number of bytes consumed are those of
    /// [`parse_response`]. Any combination of success flag, message and result
    /// is accepted.
    pub fn read(input: &mut ByteSource) -> (r: QResult<Self>)
        ensures
            outcome(r) == parse_response(old(input).remaining()).result,
            final(input).advanced_by(*old(input), parse_response(old(input).remaining()).consumed),
    {
        let ghost start = *input;
        let ghost unread = input.remaining();
        let success = read_byte(input)? != 0;
        proof {
            input.lemma_unread(start, 1);
        }
        let message = read_option_string(input)?;
        let ghost after_message = 1 + parse_option_string(unread.skip(1)).consumed;
        proof {
            input.lemma_unread(start, after_message);
        }
        let result = read_option_string(input)?;
        Ok(Self { success, message, result })
    }

    /// Appends the wire form of the response to `output`.
    pub fn write(&self, output: &mut Vec<u8>)
        ensures
            final(output)@ == old(output)@ + self@.encode(),
            self@.fits(),
    {
        write_byte(output, if self.success { 1 } else { 0 });
        write_option_string(output, &self.message);
        write_option_string(output, &self.result);
        assert(output@ =~= old(output)@ + self@.encode());
    }
}

} // verus!
