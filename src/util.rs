//! An error type that can cross into a front end as plain text.

use vstd::prelude::*;

verus! {

#[verifier::external_type_specification]
#[verifier::external_body]
pub struct ExAnyhowError(anyhow::Error);

/// Wraps an error so that a front end can receive it serialized as its
/// message with the full cause chain.
#[derive(Debug)]
pub struct SerdeError(pub anyhow::Error);

impl From<anyhow::Error> for SerdeError {
    fn from(error: anyhow::Error) -> (r: SerdeError) {
        SerdeError(error)
    }
}

impl vstd::std_specs::convert::FromSpecImpl<anyhow::Error> for SerdeError {
    open spec fn obeys_from_spec() -> bool {
        true
    }

    open spec fn from_spec(v: anyhow::Error) -> SerdeError {
        SerdeError(v)
    }
}

} // verus!
