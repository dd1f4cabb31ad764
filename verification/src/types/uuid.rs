use crate::convert::string_from_utf8;
use crate::text::push_bytes;
use vstd::prelude::*;
use vstd::utf8::{decode_utf8, valid_utf8};

verus! {

/// A UUID, held as its text.
#[derive(Debug, PartialEq, Eq)]
pub struct Uuid(pub String);

/// Whether what was encoded is the null value.
#[derive(Clone, Copy, Debug, PartialEq, Eq)]
pub enum IsNull {
    Yes,
    No,
}

/// The form in which the store hands a value over.
#[derive(Clone, Copy, Debug, PartialEq, Eq)]
pub enum PgValueFormat {
    Text,
    Binary,
}

/// A value as the store hands it over: its form, and its bytes where it is
/// not null.
#[derive(Debug)]
pub struct PgValue {
    pub format: PgValueFormat,
    pub value: Option<Vec<u8>>,
}

/// Why a UUID was not encoded or decoded.
#[derive(Clone, Copy, Debug, PartialEq, Eq)]
pub enum Error {
    /// The text is not that of a UUID.
    InvalidUuid,
    /// The bytes are not valid UTF-8.
    InvalidUtf8,
    /// The value is null.
    UnexpectedNull,
}

/// The sixteen bytes of the UUID that a text denotes, where it denotes one.
pub uninterp spec fn uuid_bytes_of(text: Seq<char>) -> Option<Seq<u8>>;

/// The `FromStr` of `uuid::Uuid`, with `as_bytes` on what it gives: the
/// sixteen bytes of the UUID that the text denotes, and nothing where the text
/// denotes none.
#[verifier::external_body]
fn parse_uuid(text: &str) -> (r: Option<Vec<u8>>)
    ensures
        match r {
            Some(b) => uuid_bytes_of(text@) == Some(b@) && b@.len() == 16,
            None => uuid_bytes_of(text@) is None,
        },
{
    match text.parse::<::uuid::Uuid>() {
        Ok(id) => Some(id.as_bytes().to_vec()),
        Err(_) => None,
    }
}

/// Appends the bytes of a parsed UUID to the buffer; without them the buffer
/// stays as it is and the text was none of a UUID.
pub fn put_uuid(parsed: Option<Vec<u8>>, buf: &mut Vec<u8>) -> (r: Result<IsNull, Error>)
    ensures
        match parsed {
            Some(b) => r == Ok::<IsNull, Error>(IsNull::No) && final(buf)@ == old(buf)@ + b@,
            None => r == Err::<IsNull, Error>(Error::InvalidUuid) && final(buf)@ == old(buf)@,
        },
{
    match parsed {
        Some(b) => {
            push_bytes(buf, b.as_slice());
            Ok(IsNull::No)
        },
        None => Err(Error::InvalidUuid),
    }
}

impl Uuid {
    /// Appends the sixteen bytes of the UUID to the buffer.
    pub fn encode(self, buf: &mut Vec<u8>) -> (r: Result<IsNull, Error>)
        ensures
            match uuid_bytes_of(self.0@) {
                Some(b) => r == Ok::<IsNull, Error>(IsNull::No) && final(buf)@ == old(buf)@ + b
                    && b.len() == 16,
                None => r == Err::<IsNull, Error>(Error::InvalidUuid) && final(buf)@ == old(
                    buf,
                )@,
            },
    {
        let parsed = parse_uuid(self.0.as_str());
        put_uuid(parsed, buf)
    }

    /// The UUID whose text the bytes of the value are, in either form.
    pub fn decode(value: PgValue) -> (r: Result<Uuid, Error>)
        ensures
            match value.value {
                None => r == Err::<Uuid, Error>(Error::UnexpectedNull),
                Some(b) => if valid_utf8(b@) {
                    r matches Ok(id) && id.0@ == decode_utf8(b@)
                } else {
                    r == Err::<Uuid, Error>(Error::InvalidUtf8)
                },
            },
    {
        match value.value {
            None => Err(Error::UnexpectedNull),
            Some(b) => match string_from_utf8(b) {
                Some(s) => Ok(Uuid(s)),
                None => Err(Error::InvalidUtf8),
            },
        }
    }
}

} // verus!
