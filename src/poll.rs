//! The non-blocking result of `nb`: a poll either fails, or asks to be
//! repeated later with `WouldBlock`.

use vstd::prelude::*;

verus! {

/// `nb::Error`, with its two variants visible to proofs.
#[verifier::external_type_specification]
#[verifier::reject_recursive_types(E)]
pub struct ExNbError<E>(nb::Error<E>);

} // verus!
