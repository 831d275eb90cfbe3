//! The standard I/O error, which the loading errors carry through.
use vstd::prelude::*;

verus! {

/// `std::io::Error`, carried opaquely by the loading errors.
#[verifier::external_type_specification]
#[verifier::external_body]
pub struct ExIoError(std::io::Error);

/// The text of an I/O error (its `Display`). What it says depends on the
/// operating system that raised the error, so nothing is stated of it.
#[verifier::external_body]
pub(crate) fn io_error_text(e: &std::io::Error) -> String {
    e.to_string()
}

} // verus!
