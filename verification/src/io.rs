//! `std::io::Error` as this crate carries it: a value that a backend or the
//! application hands through, and that is never looked into.

use vstd::prelude::*;

verus! {

/// `std::io::Error`. Its contents stay opaque here.
#[verifier::external_type_specification]
#[verifier::external_body]
pub struct ExIoError(std::io::Error);

/// `<std::io::Error as Display>::fmt`, through `format!`: the text that the
/// error prints as. Nothing is claimed of the text.
#[verifier::external_body]
pub(crate) fn describe(e: &std::io::Error) -> String {
    format!("{}", e)
}

} // verus!
