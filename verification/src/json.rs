//! Trusted bindings to `serde_json`, through which manifest text is read.
//!
//! A parsed JSON value is opaque to the library, so what the bindings read
//! out of one is given names: `rows_of` for the row objects that the text's
//! `diff_map` array holds, and `str_field_of` / `u64_field_of` for the
//! fields of one row object. All three are functions of the text or value
//! and the key alone, as JSON parsing and field access are deterministic.
//! The field keys are passed in by the verified callers, so the manifest
//! format itself stays in the library's code.

use vstd::prelude::*;

verus! {

/// `serde_json::Value`, declared so it can stand in signatures; the
/// library never looks inside one except through the bindings below.
#[verifier::external_type_specification]
#[verifier::external_body]
pub struct ExValue(serde_json::Value);

/// The string field `key` of the JSON object `v`: its characters when `v`
/// is an object whose field `key` holds a string, `None` otherwise.
pub uninterp spec fn str_field_of(v: serde_json::Value, key: Seq<char>) -> Option<Seq<char>>;

/// The unsigned-integer field `key` of the JSON object `v`: `None` when
/// `v` is not an object with field `key`; `Some(None)` when the field is
/// present but not an unsigned integer that fits 64 bits; `Some(Some(n))`
/// when it holds the number `n`.
pub uninterp spec fn u64_field_of(v: serde_json::Value, key: Seq<char>) -> Option<Option<u64>>;

/// What one row object of the manifest's array holds, read through
/// `str_field_of` and `u64_field_of`: the three file names and the
/// optional expected source size, or `None` where a name field is missing
/// or mis-typed, or a present size field is not an unsigned integer.
pub open spec fn spec_row_of(v: serde_json::Value) -> Option<
    (Seq<char>, Seq<char>, Seq<char>, Option<u64>),
> {
    match (
        str_field_of(v, "source_file_name"@),
        str_field_of(v, "target_file_name"@),
        str_field_of(v, "patch_file_name"@),
        u64_field_of(v, "source_file_size"@),
    ) {
        (Some(s), Some(t), Some(p), None) => Some((s, t, p, None)),
        (Some(s), Some(t), Some(p), Some(Some(n))) => Some((s, t, p, Some(n))),
        _ => None,
    }
}

/// The rows of the array that field `key` of the JSON text `s` holds: one
/// entry per array element, each the element's row content as `spec_row_of`
/// reads it; `None` when `s` is not JSON that the parser accepts, not an
/// object, has no field `key`, or that field is not an array.
pub uninterp spec fn rows_of(s: Seq<char>, key: Seq<char>) -> Option<
    Seq<Option<(Seq<char>, Seq<char>, Seq<char>, Option<u64>)>>,
>;

/// Relies on `serde_json::from_str::<Value>`, `Value::get` and
/// `Value::as_array`: the array that field `key` of the JSON text holds,
/// exactly when the text parses to an object with such an array field —
/// the very rows that `rows_of` names, element by element.
#[verifier::external_body]
pub(crate) fn diff_map_array(text: &str, key: &str) -> (r: Option<Vec<serde_json::Value>>)
    ensures
        (r is Some) == (rows_of(text@, key@) is Some),
        r matches Some(arr) ==> (rows_of(text@, key@) matches Some(rows) && arr@.len()
            == rows.len() && (forall|i: int|
            0 <= i < rows.len() ==> spec_row_of(#[trigger] arr@[i]) == rows[i])),
{
    let parsed: serde_json::Value = match serde_json::from_str(text) {
        Ok(v) => v,
        Err(_) => {
            return None;
        },
    };
    match parsed.get(key) {
        Some(d) => d.as_array().cloned(),
        None => None,
    }
}

/// Relies on `Value::get` and `Value::as_str`: the string field `key` of
/// the object `v`, exactly as `str_field_of` names it.
#[verifier::external_body]
pub(crate) fn get_str_field(v: &serde_json::Value, key: &str) -> (r: Option<String>)
    ensures
        match str_field_of(*v, key@) {
            Some(s) => r matches Some(x) && x@ == s,
            None => r is None,
        },
{
    match v.get(key) {
        Some(x) => x.as_str().map(|s| s.to_owned()),
        None => None,
    }
}

/// Relies on `Value::get` and `Value::as_u64`: the unsigned-integer field
/// `key` of the object `v`, exactly as `u64_field_of` names it.
#[verifier::external_body]
pub(crate) fn get_u64_field(v: &serde_json::Value, key: &str) -> (r: Option<Option<u64>>)
    ensures
        r == u64_field_of(*v, key@),
{
    match v.get(key) {
        Some(x) => Some(x.as_u64()),
        None => None,
    }
}

} // verus!
