//! The time signature of a Live set: the `Value` of its first `EnumEvent`,
//! decoded by `TimeSignature::from_encoded`.
use vstd::prelude::*;
use crate::errors::{LiveSetError, TimeSignatureError, XmlParseError};
use crate::numbers::{i32_of, parse_i32};
use crate::tags::{attribute_value, empty_event_spec, find_empty_event, last_value};
use crate::types::{denominator_of, encoded_in_range, numerator_of, TimeSignature};

verus! {

/// Reads an encoded time signature as an `i32` (as `i32::from_str` does).
pub fn parse_encoded_time_signature(value: &str) -> (res: Result<i32, TimeSignatureError>)
    ensures
        match (res, i32_of(value@)) {
            (Ok(v), Ok(w)) => v == w,
            (Err(TimeSignatureError::ParseEncodedError(k)), Err(j)) => k == j,
            _ => false,
        },
{
    match parse_i32(value) {
        Ok(v) => Ok(v),
        Err(k) => Err(TimeSignatureError::ParseEncodedError(k)),
    }
}

/// `res` is the time signature that an encoded value gives.
pub open spec fn decoded_matches(res: Result<TimeSignature, LiveSetError>, v: int) -> bool {
    if encoded_in_range(v) {
        res matches Ok(ts) && ts.numerator == numerator_of(v) && ts.denominator == denominator_of(v)
    } else {
        res matches Err(LiveSetError::TimeSignatureError(TimeSignatureError::InvalidEncodedValue(x))) && x == v
    }
}

/// `res` is what `load_time_signature` gives for `source`: the first empty
/// `EnumEvent` decides; its last `Value` attribute is read as an `i32` and decoded.
pub open spec fn time_signature_matches(res: Result<TimeSignature, LiveSetError>, source: Seq<u8>) -> bool {
    match empty_event_spec(source, "EnumEvent"@) {
        None => res matches Err(LiveSetError::TimeSignatureError(TimeSignatureError::EnumEventNotFound)),
        Some(Err(e)) => if e is EventNotFound {
            res matches Err(LiveSetError::TimeSignatureError(TimeSignatureError::EnumEventNotFound))
        } else {
            res matches Err(LiveSetError::XmlError(f)) && f == e
        },
        Some(Ok(pairs)) => match last_value(pairs, "Value"@) {
            None => res matches Err(LiveSetError::TimeSignatureError(TimeSignatureError::ValueAttributeNotFound)),
            Some(text) => match i32_of(text) {
                Err(k) => res matches Err(LiveSetError::TimeSignatureError(TimeSignatureError::ParseEncodedError(j))) && j == k,
                Ok(v) => decoded_matches(res, v),
            },
        },
    }
}

/// Reads the time signature of a Live set (see `time_signature_matches`).
pub fn load_time_signature(xml_data: &[u8]) -> (res: Result<TimeSignature, LiveSetError>)
    ensures
        time_signature_matches(res, xml_data@),
{
    let attributes = match find_empty_event(xml_data, "EnumEvent") {
        Ok(a) => a,
        Err(XmlParseError::EventNotFound(_)) => {
            return Err(LiveSetError::TimeSignatureError(TimeSignatureError::EnumEventNotFound));
        },
        Err(e) => return Err(LiveSetError::XmlError(e)),
    };
    let value = match attribute_value(&attributes, "Value") {
        None => return Err(LiveSetError::TimeSignatureError(TimeSignatureError::ValueAttributeNotFound)),
        Some(v) => v,
    };
    let encoded = match parse_encoded_time_signature(value.as_str()) {
        Ok(v) => v,
        Err(e) => return Err(LiveSetError::TimeSignatureError(e)),
    };
    match TimeSignature::from_encoded(encoded) {
        Ok(ts) => Ok(ts),
        Err(e) => Err(LiveSetError::TimeSignatureError(e)),
    }
}

} // verus!
