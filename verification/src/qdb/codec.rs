//! Reading and writing the primitive fields of the wire format.
//!
//! The sink is a growable byte buffer that each writer appends to. The source
//! is a [`ByteSource`], a borrowed buffer with a cursor that each reader
//! advances. What a reader returns and how far it advances is exactly what
//! the matching parser of [`crate::qdb::wire`] says of the unread bytes.

use vstd::prelude::*;
use vstd::bytes::*;
use vstd::slice::*;
use vstd::string::*;
use vstd::utf8::*;
use core::str::Utf8Error;
use crate::qdb::wire::{
    encode_option_string, encode_string, fits, option_fits, parse_byte, parse_option_string,
    parse_string,
};
use crate::util::{QError, QResult};

verus! {

/// The error of `core::str::from_utf8`, carried through without a look inside.
#[verifier::external_type_specification]
#[verifier::external_body]
pub struct ExUtf8Error(Utf8Error);

/// `core::str::from_utf8` accepts exactly the well-formed UTF-8 byte strings,
/// and the string slice it returns has the given bytes as its encoding.
pub assume_specification[ core::str::from_utf8 ](v: &[u8]) -> (r: Result<&str, Utf8Error>)
    ensures
        r is Ok <==> valid_utf8(v@),
        r matches Ok(s) ==> s.spec_bytes() == v@,
;

/// A byte source: a borrowed buffer and the offset of the next unread byte.
pub struct ByteSource<'a> {
    data: &'a [u8],
    pos: usize,
}

/// The value that a read returned, seen as the parser's result.
pub open spec fn outcome<T: View>(r: QResult<T>) -> Result<T::V, QError> {
    match r {
        Ok(v) => Ok(v@),
        Err(e) => Err(e),
    }
}

impl<'a> ByteSource<'a> {
    #[verifier::type_invariant]
    spec fn in_bounds(self) -> bool {
        self.pos <= self.data@.len()
    }

    /// All bytes of the underlying buffer, read or not.
    pub closed spec fn bytes(self) -> Seq<u8> {
        self.data@
    }

    /// How many bytes have been consumed.
    pub closed spec fn consumed(self) -> nat {
        self.pos as nat
    }

    /// The bytes that have not been consumed yet.
    pub open spec fn remaining(self) -> Seq<u8> {
        self.bytes().skip(self.consumed() as int)
    }

    /// `self` is `before` with `n` more bytes consumed.
    pub open spec fn advanced_by(self, before: Self, n: nat) -> bool {
        &&& self.bytes() == before.bytes()
        &&& self.consumed() == before.consumed() + n
        &&& self.consumed() <= self.bytes().len()
    }

    /// After an advance by `n`, the unread bytes are the earlier unread
    /// bytes without their first `n`.
    pub proof fn lemma_unread(self, before: Self, n: nat)
        requires
            self.advanced_by(before, n),
        ensures
            self.remaining() == before.remaining().skip(n as int),
    {
        assert(self.remaining() =~= before.remaining().skip(n as int));
    }

    /// A source at the start of `data`.
    pub fn new(data: &'a [u8]) -> (source: Self)
        ensures
            source.bytes() == data@,
            source.consumed() == 0,
    {
        ByteSource { data, pos: 0 }
    }

    /// The offset of the next unread byte.
    pub fn position(&self) -> (pos: usize)
        ensures
            pos == self.consumed(),
            pos <= self.bytes().len(),
    {
        proof {
            use_type_invariant(self);
        }
        self.pos
    }

    /// How many bytes are still unread.
    pub fn available(&self) -> (n: usize)
        ensures
            n == self.remaining().len(),
    {
        proof {
            use_type_invariant(self);
        }
        self.data.len() - self.pos
    }

    /// Takes the next `n` bytes, which the caller has checked are there.
    fn take(&mut self, n: usize) -> (taken: &'a [u8])
        requires
            n <= old(self).remaining().len(),
        ensures
            final(self).bytes() == old(self).bytes(),
            final(self).consumed() == old(self).consumed() + n,
            taken@ == old(self).remaining().take(n as int),
            final(self).remaining() == old(self).remaining().skip(n as int),
    {
        proof {
            use_type_invariant(&*self);
        }
        let start = self.pos;
        assert(start + n <= self.data.len());
        let taken = slice_subrange(self.data, start, start + n);
        self.pos = start + n;
        assert(taken@ =~= old(self).remaining().take(n as int));
        assert(self.remaining() =~= old(self).remaining().skip(n as int));
        taken
    }
}

/// Reads one byte.
pub fn read_byte(input: &mut ByteSource) -> (r: QResult<u8>)
    ensures
        r == parse_byte(old(input).remaining()).result,
        final(input).advanced_by(*old(input), parse_byte(old(input).remaining()).consumed),
{
    proof {
        use_type_invariant(&*input);
    }
    if input.available() < 1 {
        return Err(QError::Truncated);
    }
    let taken = input.take(1);
    Ok(taken[0])
}

/// Reads a length-prefixed UTF-8 string.
pub fn read_string(input: &mut ByteSource) -> (r: QResult<String>)
    ensures
        outcome(r) == parse_string(old(input).remaining()).result,
        final(input).advanced_by(*old(input), parse_string(old(input).remaining()).consumed),
{
    proof {
        use_type_invariant(&*input);
    }
    let ghost unread = input.remaining();
    if input.available() < 8 {
        return Err(QError::Truncated);
    }
    let prefix = input.take(8);
    let declared = u64_from_le_bytes(prefix);
    assert(prefix@ == unread.subrange(0, 8));
    if declared > input.available() as u64 {
        return Err(QError::Truncated);
    }
    let payload = input.take(declared as usize);
    assert(payload@ == unread.subrange(8, 8 + declared as int));
    match core::str::from_utf8(payload) {
        Ok(s) => {
            proof {
                encode_utf8_decode_utf8(s@);
            }
            Ok(s.to_owned())
        },
        Err(_) => Err(QError::InvalidEncoding),
    }
}

/// Reads an optional string: a presence byte, then the string if the byte is
/// not zero.
pub fn read_option_string(input: &mut ByteSource) -> (r: QResult<Option<String>>)
    ensures
        option_outcome(r) == parse_option_string(old(input).remaining()).result,
        final(input).advanced_by(
            *old(input),
            parse_option_string(old(input).remaining()).consumed,
        ),
{
    let ghost start = *input;
    let present = read_byte(input)?;
    if present == 0 {
        return Ok(None);
    }
    proof {
        input.lemma_unread(start, 1);
    }
    let s = read_string(input)?;
    Ok(Some(s))
}

/// The optional string that a read returned, seen as the parser's result.
pub open spec fn option_outcome(r: QResult<Option<String>>) -> Result<Option<Seq<char>>, QError> {
    match r {
        Ok(Some(s)) => Ok(Some(s@)),
        Ok(None) => Ok(None),
        Err(e) => Err(e),
    }
}

/// Appends one byte.
pub fn write_byte(output: &mut Vec<u8>, b: u8)
    ensures
        final(output)@ == old(output)@ + seq![b],
{
    output.push(b);
    assert(output@ =~= old(output)@ + seq![b]);
}

/// Appends a string: its byte count in eight little-endian bytes, then its
/// UTF-8 bytes.
pub fn write_string(output: &mut Vec<u8>, s: &str)
    ensures
        final(output)@ == old(output)@ + encode_string(s@),
        fits(s@),
{
    let payload = s.as_bytes();
    let prefix = u64_to_le_bytes(payload.len() as u64);
    output.extend_from_slice(prefix.as_slice());
    output.extend_from_slice(payload);
    assert(output@ =~= old(output)@ + encode_string(s@));
}

/// Appends an optional string: a presence byte, then the string if there is
/// one.
pub fn write_option_string(output: &mut Vec<u8>, s: &Option<String>)
    ensures
        final(output)@ == old(output)@ + encode_option_string(option_view(*s)),
        option_fits(option_view(*s)),
{
    match s {
        Some(s) => {
            write_byte(output, 1);
            write_string(output, s.as_str());
            assert(output@ =~= old(output)@ + encode_option_string(Some(s@)));
        },
        None => {
            write_byte(output, 0);
        },
    }
}

/// An optional string as a value of the wire format.
pub open spec fn option_view(s: Option<String>) -> Option<Seq<char>> {
    match s {
        Some(s) => Some(s@),
        None => None,
    }
}

} // verus!
