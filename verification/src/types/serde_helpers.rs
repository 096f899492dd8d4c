//! Reading values that the exchange writes in more than one shape.
//!
//! The exchange sends some numbers now as numbers and now as text. Decoding
//! the wire format is not done here: these functions take what was decoded
//! and settle on one value.

use crate::decimal::{as_value, decimal_of_text, Dec, DecimalValue};
use crate::error::Error;
use crate::text::{digit_value, digits_value};
use crate::time::{rfc3339_instant, Timestamp};
use vstd::prelude::*;

verus! {

/// A whole number that arrived as text or as a number.
#[derive(Debug, Clone)]
pub enum StringOrNumber {
    String(String),
    Number(u64),
}

/// A decimal that arrived as text or as a whole number.
#[derive(Debug, Clone)]
pub enum DecimalRepr {
    Str(String),
    U64(u64),
    I64(i64),
}

/// The number that a text denotes for `u64`: an optional `+`, then one or
/// more decimal digits and nothing else, the number fitting 64 bits.
pub open spec fn u64_of_text(s: Seq<char>) -> Option<u64> {
    let body = if s.len() > 0 && s[0] == '+' {
        s.skip(1)
    } else {
        s
    };
    if body.len() > 0 && (forall|i: int| 0 <= i < body.len() ==> (#[trigger] digit_value(body[i]))
        is Some) && digits_value(body) is Some && digits_value(body)->0 <= u64::MAX {
        Some(digits_value(body)->0 as u64)
    } else {
        None
    }
}

/// A number from either a string or a number; `InvalidParameter` where the
/// string is no number.
pub fn deserialize_number_from_string(value: StringOrNumber) -> (r: Result<u64, Error>)
    ensures
        match value {
            StringOrNumber::Number(n) => r == Ok::<u64, Error>(n),
            StringOrNumber::String(s) => match u64_of_text(s@) {
                Some(n) => r == Ok::<u64, Error>(n),
                None => r matches Err(Error::InvalidParameter(_)),
            },
        },
{
    match value {
        StringOrNumber::String(s) => match parse_u64(s.as_str()) {
            Some(n) => Ok(n),
            None => Err(Error::InvalidParameter("invalid number".to_owned())),
        },
        StringOrNumber::Number(n) => Ok(n),
    }
}

/// The decimal that each shape denotes.
pub open spec fn decimal_of_repr(repr: DecimalRepr) -> Option<DecimalValue> {
    match repr {
        DecimalRepr::Str(s) => as_value(decimal_of_text(s@)),
        DecimalRepr::U64(u) => Some(DecimalValue { mantissa: u as int, scale: 0 }),
        DecimalRepr::I64(i) => Some(DecimalValue { mantissa: i as int, scale: 0 }),
    }
}

/// A decimal from either a string or a whole number; `InvalidParameter`
/// where the string is no decimal.
pub fn deserialize_decimal(repr: DecimalRepr) -> (r: Result<Dec, Error>)
    ensures
        match decimal_of_repr(repr) {
            Some(value) => r matches Ok(d) && d@ == value,
            None => r matches Err(Error::InvalidParameter(_)),
        },
{
    let read = match repr {
        DecimalRepr::Str(s) => Dec::from_str(s.as_str()),
        DecimalRepr::U64(u) => Dec::from_parts(u as i128, 0),
        DecimalRepr::I64(i) => Dec::from_parts(i as i128, 0),
    };
    match read {
        Some(d) => Ok(d),
        None => Err(Error::InvalidParameter("invalid decimal".to_owned())),
    }
}

/// An optional instant from an optional RFC 3339 string; `InvalidParameter`
/// where a string is there and is no such instant.
pub fn deserialize_optional_datetime(opt: Option<String>) -> (r: Result<Option<Timestamp>, Error>)
    ensures
        match opt {
            None => r matches Ok(None),
            Some(s) => match rfc3339_instant(s@) {
                Some((secs, nanos)) => r matches Ok(Some(t)) && t.secs == secs && t.nanos
                    == nanos,
                None => r matches Err(Error::InvalidParameter(_)),
            },
        },
{
    match opt {
        Some(s) => match Timestamp::parse_from_rfc3339(s.as_str()) {
            Some(t) => Ok(Some(t)),
            None => Err(Error::InvalidParameter("invalid date and time".to_owned())),
        },
        None => Ok(None),
    }
}

/// `str::parse::<u64>` of the standard library, which accepts an optional
/// `+` followed by decimal digits, and refuses the empty text, every other
/// character, and a number beyond 64 bits.
#[verifier::external_body]
fn parse_u64(s: &str) -> (r: Option<u64>)
    ensures
        r == u64_of_text(s@),
{
    s.parse::<u64>().ok()
}

} // verus!
