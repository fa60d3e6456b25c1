//! The save-point catalog update. The UI hands the shell a JSON text for the
//! catalog file; the shell writes it out only after this module has checked
//! that it is one well-formed JSON document, so a broken text never reaches
//! the file.

use vstd::prelude::*;

verus! {

/// Whether `s` is one well-formed JSON document. What counts as well-formed
/// is what the JSON parser accepts; the verdict depends on the bytes alone.
pub uninterp spec fn json_document(s: Seq<u8>) -> bool;

/// Relies on serde_json::from_slice::<Value>: it returns `Ok` exactly on the
/// texts that hold one well-formed JSON document, and its verdict is a
/// function of the bytes alone. The error carries the parser's own words.
#[verifier::external_body]
fn parse_json_document(s: &[u8]) -> (r: Result<(), String>)
    ensures
        r is Ok <==> json_document(s@),
{
    match serde_json::from_slice::<serde_json::Value>(s) {
        Ok(_) => Ok(()),
        Err(e) => Err(format!("Invalid JSON: {}", e)),
    }
}

/// Accepts a catalog update exactly when the text is one well-formed JSON
/// document; a rejection carries the parser's words.
pub fn validate_points_json(s: &[u8]) -> (r: Result<(), String>)
    ensures
        r is Ok <==> json_document(s@),
{
    parse_json_document(s)
}

} // verus!
