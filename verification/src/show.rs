//! Writing to a formatter.

use vstd::prelude::*;

verus! {

/// The formatter of the standard library, which is only passed on.
#[verifier::external_type_specification]
#[verifier::external_body]
pub struct ExFormatter<'a>(std::fmt::Formatter<'a>);

/// The error of a formatter, which is only passed on.
#[verifier::external_type_specification]
#[verifier::external_body]
pub struct ExFmtError(std::fmt::Error);

/// Calls `std::fmt::Display::fmt` on `text`. Nothing is promised of what the formatter holds
/// afterwards, nor of whether it failed, which its output decides.
#[verifier::external_body]
pub fn display(text: &str, f: &mut std::fmt::Formatter<'_>) -> std::fmt::Result {
    std::fmt::Display::fmt(text, f)
}

/// Calls `std::fmt::Debug::fmt` on the `uuid::Uuid` of these bits. Nothing is promised of what the
/// formatter holds afterwards, nor of whether it failed, which its output decides.
#[verifier::external_body]
pub fn debug_uuid(bits: u128, f: &mut std::fmt::Formatter<'_>) -> std::fmt::Result {
    std::fmt::Debug::fmt(&uuid::Uuid::from_u128(bits), f)
}

} // verus!
