//! Small shared definitions.

use vstd::prelude::*;
use vstd::hash_map::StringHashMap;
use vstd::string::*;

verus! {

/// Why a decode stopped.
#[derive(Debug, Clone, Copy, PartialEq, Eq)]
pub enum QError {
    /// The source holds fewer bytes than a field needs.
    Truncated,
    /// The bytes of a string field are not valid UTF-8.
    InvalidEncoding,
    /// The tag byte of a request names no operation.
    UnknownTag,
}

pub type QResult<T> = Result<T, QError>;

impl QError {
    /// What `message` returns.
    pub open spec fn message_text(self) -> Seq<char> {
        match self {
            QError::Truncated => "[qdb/protocol] Truncated message"@,
            QError::InvalidEncoding => "[qdb/protocol] Invalid string encoding"@,
            QError::UnknownTag => "[qdb/protocol] Invalid request type"@,
        }
    }

    /// The error in words.
    pub fn message(&self) -> (text: String)
        ensures
            text@ == self.message_text(),
    {
        match self {
            QError::Truncated => String::from_str("[qdb/protocol] Truncated message"),
            QError::InvalidEncoding => String::from_str("[qdb/protocol] Invalid string encoding"),
            QError::UnknownTag => String::from_str("[qdb/protocol] Invalid request type"),
        }
    }
}

/// The header that announces a plain-text body.
pub fn content_type_text() -> (header: (String, String))
    ensures
        header.0@ == "Content-Type"@,
        header.1@ == "text/plain; charset=utf-8"@,
{
    (String::from_str("Content-Type"), String::from_str("text/plain; charset=utf-8"))
}

/// The header that announces a JSON body.
pub fn content_type_json() -> (header: (String, String))
    ensures
        header.0@ == "Content-Type"@,
        header.1@ == "application/json; charset=utf-8"@,
{
    (String::from_str("Content-Type"), String::from_str("application/json; charset=utf-8"))
}

/// The lowercase form of a string, as `str::to_lowercase` computes it.
pub uninterp spec fn lowercase(s: Seq<char>) -> Seq<char>;

/// `str::to_lowercase` returns the lowercase form of its argument, which
/// depends on the characters of the argument alone.
#[verifier::external_body]
fn to_lowercase(s: &str) -> (lower: String)
    ensures
        lower@ == lowercase(s@),
{
    s.to_lowercase()
}

/// The table that a list of headers stands for: each value under the
/// lowercase form of its name, a later header in place of an earlier one of
/// the same name.
pub open spec fn headers_map(headers: Seq<(String, String)>) -> Map<Seq<char>, String>
    decreases headers.len(),
{
    if headers.len() == 0 {
        Map::empty()
    } else {
        headers_map(headers.drop_last()).insert(lowercase(headers.last().0@), headers.last().1)
    }
}

/// Collects headers into a table by lowercase name.
pub fn to_headers_map(input: &Vec<(String, String)>) -> (map: StringHashMap<String>)
    ensures
        map@ == headers_map(input@),
{
    let mut ret: StringHashMap<String> = StringHashMap::new();
    let mut i: usize = 0;
    while i < input.len()
        invariant
            i <= input@.len(),
            ret@ == headers_map(input@.take(i as int)),
        decreases input@.len() - i,
    {
        let name = to_lowercase(input[i].0.as_str());
        let value = input[i].1.clone();
        ret.insert(name, value);
        assert(input@.take(i + 1).drop_last() =~= input@.take(i as int));
        i = i + 1;
    }
    assert(input@.take(i as int) =~= input@);
    ret
}

/// The text of a random UUID: 32 lowercase hexadecimal digits in groups of
/// 8, 4, 4, 4 and 12, with a hyphen between groups. The first digit of the
/// third group is the version, 4, and the first digit of the fourth group
/// holds the variant.
pub open spec fn is_uuid_text(s: Seq<char>) -> bool {
    &&& s.len() == 36
    &&& forall|i: int|
        0 <= i < 36 ==> if i == 8 || i == 13 || i == 18 || i == 23 {
            s[i] == '-'
        } else {
            is_lower_hex(#[trigger] s[i])
        }
    &&& s[14] == '4'
    &&& (s[19] == '8' || s[19] == '9' || s[19] == 'a' || s[19] == 'b')
}

pub open spec fn is_lower_hex(c: char) -> bool {
    ('0' <= c <= '9') || ('a' <= c <= 'f')
}

/// A fresh random identifier.
///
/// This is `uuid::Uuid::new_v4` followed by `to_string`. Which identifier
/// comes back is left open; its shape is what every version 4 UUID has when
/// printed in the hyphenated lowercase form that `Display` uses. The call
/// panics if the operating system gives no random bytes.
#[verifier::external_body]
pub fn uuid() -> (id: String)
    ensures
        is_uuid_text(id@),
{
    uuid::Uuid::new_v4().to_string()
}

/// The envelope of a reply that carries no data.
#[derive(Debug, Clone, PartialEq, Eq)]
pub struct ResponseNoData {
    pub success: bool,
    pub message: Option<String>,
}

/// The envelope of a successful reply and its data.
#[derive(Debug, Clone, PartialEq, Eq)]
pub struct ResponseData<T> {
    pub success: bool,
    pub result: T,
}

/// Builds reply envelopes.
pub struct ResponseUtil();

impl ResponseUtil {
    /// Success, with nothing to report.
    pub fn success() -> (reply: ResponseNoData)
        ensures
            reply == (ResponseNoData { success: true, message: None }),
    {
        ResponseNoData { success: true, message: None }
    }

    /// Success, with `result` as the data.
    pub fn data<T>(result: T) -> (reply: ResponseData<T>)
        ensures
            reply == (ResponseData { success: true, result }),
    {
        ResponseData { success: true, result }
    }

    /// Failure, with `message` as the reason.
    pub fn error(message: &str) -> (reply: ResponseNoData)
        ensures
            !reply.success,
            reply.message is Some,
            reply.message.unwrap()@ == message@,
    {
        ResponseNoData { success: false, message: Some(message.to_owned()) }
    }
}

} // verus!
