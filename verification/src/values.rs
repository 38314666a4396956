//! The values a schedule prescribes are arbitrary JSON values. The crate never
//! inspects them: it stores them, compares nothing inside them, and hands
//! copies back to callers, so `serde_json::Value` is carried opaquely.

use vstd::prelude::*;

verus! {

/// Declares `serde_json::Value` so that it can appear in signatures and
/// fields. The crate treats such values as opaque.
#[verifier::external_type_specification]
#[verifier::external_body]
pub struct ExValue(serde_json::Value);

/// Relies on `serde_json::Value::clone` (a derived `Clone`): the copy equals
/// the original.
pub assume_specification[ <serde_json::Value as Clone>::clone ](v: &serde_json::Value) -> (r:
    serde_json::Value)
    ensures
        r == *v,
;

} // verus!
