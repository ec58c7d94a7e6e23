//! Text codecs and the date-time parser. The decoding itself is the work
//! of `std`, `encoding` and `chrono`; nothing in this module is proved.

use chrono::{DateTime, Utc};
use encoding::all::ISO_8859_1;
use encoding::{DecoderTrap, Encoding};
use std::str::FromStr;
use vstd::prelude::*;
use vstd::utf8::*;

verus! {

#[verifier::external_type_specification]
#[verifier::external_body]
pub struct ExUtf8Error(std::str::Utf8Error);

#[verifier::external_type_specification]
#[verifier::external_body]
pub struct ExDateTimeError(chrono::ParseError);

/// A point in time: whole seconds since the start of 1970 in UTC, and
/// the nanoseconds within the second.
#[derive(Clone, Copy, Debug, PartialEq, Eq, Structural)]
pub struct Timestamp {
    pub secs: i64,
    pub nanos: u32,
}

/// `String::from_utf8`: the text that the bytes encode, where they are
/// well-formed UTF-8.
#[verifier::external_body]
pub(crate) fn utf8_text(bytes: Vec<u8>) -> (r: Result<String, std::str::Utf8Error>)
    ensures
        match r {
            Ok(s) => valid_utf8(bytes@) && s@ == decode_utf8(bytes@),
            Err(_) => !valid_utf8(bytes@),
        },
{
    match String::from_utf8(bytes) {
        Ok(s) => Ok(s),
        Err(e) => Err(e.utf8_error()),
    }
}

/// The text that bytes denote in ISO 8859-1: each byte is the character
/// with the same number.
pub open spec fn latin1_text(bytes: Seq<u8>) -> Seq<char> {
    Seq::new(bytes.len(), |i: int| bytes[i] as char)
}

/// `ISO_8859_1.decode` with `DecoderTrap::Strict`. Every byte has a
/// character in this encoding, so the decoder accepts every input.
#[verifier::external_body]
pub(crate) fn latin1_decode(bytes: &[u8]) -> (r: Result<String, String>)
    ensures
        r is Ok,
        r.unwrap()@ == latin1_text(bytes@),
{
    match ISO_8859_1.decode(bytes, DecoderTrap::Strict) {
        Ok(s) => Ok(s),
        Err(e) => Err(e.into_owned()),
    }
}

/// What `DateTime::<Utc>::from_str` makes of a text: the instant as
/// seconds and nanoseconds, or `None` where it rejects the text.
pub uninterp spec fn utc_instant(text: Seq<char>) -> Option<(int, int)>;

/// `DateTime::<Utc>::from_str`, the instant read off with `timestamp` and
/// `timestamp_subsec_nanos`.
#[verifier::external_body]
pub(crate) fn parse_utc(text: &str) -> (r: Result<Timestamp, chrono::ParseError>)
    ensures
        match r {
            Ok(t) => utc_instant(text@) == Some((t.secs as int, t.nanos as int)),
            Err(_) => utc_instant(text@) is None,
        },
{
    match DateTime::<Utc>::from_str(text) {
        Ok(t) => Ok(Timestamp { secs: t.timestamp(), nanos: t.timestamp_subsec_nanos() }),
        Err(e) => Err(e),
    }
}

} // verus!
