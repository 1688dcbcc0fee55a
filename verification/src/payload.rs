//! The string payload codec: user payloads are opaque bytes to the engine,
//! and string values travel as JSON text.

use vstd::prelude::*;

verus! {

/// The JSON text of a string value, as `serde_json` writes it.  The bytes
/// are a function of the characters alone.
pub uninterp spec fn json_of_str(s: Seq<char>) -> Seq<u8>;

/// Relies on `serde_json::to_vec` applied to a string value: the result is
/// that string's JSON text, and depends on the characters alone.  Writing a
/// string value never fails (`serde_json` fails only when a `Serialize`
/// implementation fails or a map key is not a string).
#[verifier::external_body]
pub fn json_encode_str(s: &str) -> (r: Vec<u8>)
    ensures
        r@ == json_of_str(s@),
{
    serde_json::to_vec(s).unwrap_or_default()
}

/// Relies on `serde_json::from_slice::<String>`: parsing the JSON text that
/// `serde_json` wrote for a string yields that string back; any other input
/// may be refused.
#[verifier::external_body]
pub fn json_decode_string(bytes: &[u8]) -> (r: Option<String>)
    ensures
        forall|s: Seq<char>| bytes@ == #[trigger] json_of_str(s) ==> r is Some && r.unwrap()@ == s,
{
    serde_json::from_slice::<String>(bytes).ok()
}

} // verus!
