//! Default decoders of stored JSON field payloads.
use vstd::prelude::*;

verus! {

/// The declaration of `serde_json::Error` for signatures.
#[verifier::external_type_specification]
#[verifier::external_body]
pub struct ExJsonError(serde_json::Error);

/// The string that a complete JSON string literal denotes, or `None` when
/// the text is not exactly one JSON string.
pub uninterp spec fn json_string_value(raw: Seq<char>) -> Option<Seq<char>>;

/// `serde_json::from_str::<String>`: decodes one complete JSON value that
/// must be a string, with standard escapes resolved. The claim is that it
/// succeeds exactly when `json_string_value` has a value for the text, and
/// then returns that value.
#[verifier::external_body]
fn parse_json_string(raw: &str) -> (r: Result<String, serde_json::Error>)
    ensures
        r is Ok <==> json_string_value(raw@) is Some,
        r matches Ok(s) ==> json_string_value(raw@) == Some(s@),
{
    serde_json::from_str(raw)
}

/// `<serde_json::Error as Display>::to_string`: the error's message. Nothing
/// is stated of the text.
#[verifier::external_body]
fn json_error_message(error: &serde_json::Error) -> String {
    error.to_string()
}

/// A stored payload that did not decode.
#[derive(Debug)]
pub struct PayloadDecodeError {
    /// The decoder's description of the failure.
    pub message: String,
}

/// Stateless default decoder for payloads stored as strings.
///
/// The payload must be one JSON string, quotes included; escapes are
/// resolved, and nothing is trimmed or normalized. `null`, numbers,
/// booleans, arrays and objects are rejected.
#[derive(Clone, Copy, Debug, Default)]
pub struct JsonStringDecoder;

impl JsonStringDecoder {
    /// Decodes one complete JSON string into an owned string.
    pub fn decode_json_payload(&self, raw_json: &str) -> (r: Result<String, PayloadDecodeError>)
        ensures
            r is Ok <==> json_string_value(raw_json@) is Some,
            r matches Ok(s) ==> json_string_value(raw_json@) == Some(s@),
    {
        match parse_json_string(raw_json) {
            Ok(s) => Ok(s),
            Err(e) => Err(PayloadDecodeError { message: json_error_message(&e) }),
        }
    }
}

/// Stateless default decoder for payloads stored as arrays of `f64`. Its
/// decoding works on floating-point values and lives with the application.
#[derive(Clone, Copy, Debug, Default)]
pub struct JsonVecF64Decoder;

} // verus!
