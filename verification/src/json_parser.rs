//! JSON text parsed into a borrowed document by `simd_json`, where the CPU has the vector
//! instructions it needs.
use vstd::prelude::*;

verus! {

#[verifier::external_type_specification]
#[verifier::external_body]
pub struct ExBorrowedValue<'a>(simd_json::BorrowedValue<'a>);

#[verifier::external_type_specification]
#[verifier::external_body]
pub struct ExSimdJsonError(simd_json::Error);

/// Whether `simd_json` reads the bytes `data` as one JSON document.
pub uninterp spec fn simd_accepts(data: Seq<u8>) -> bool;

/// Calls `simd_json::to_borrowed_value`, which reads the bytes as a JSON document (and
/// rewrites them in place to unescape strings). Claimed: it succeeds exactly on the
/// documents it accepts, a function of the bytes alone. What the document holds and what
/// the bytes hold afterwards are left unsaid.
#[verifier::external_body]
fn simd_parse(data: &mut [u8]) -> (r: Result<simd_json::BorrowedValue<'_>, simd_json::Error>)
    ensures
        r is Ok <==> simd_accepts(old(data)@),
{
    simd_json::to_borrowed_value(data)
}

/// Calls `simd_json::Error::generic` with the kind `InvalidUtf8`: the error given when no
/// vector parser can be used. Nothing is claimed of its contents.
#[verifier::external_body]
fn simd_unavailable_error() -> (r: simd_json::Error) {
    simd_json::Error::generic(simd_json::ErrorType::InvalidUtf8)
}

/// Parses `data` as JSON with the vector parser when `simd_available` says the CPU has
/// it; without it the input is refused.
pub fn parse_json(data: &mut [u8], simd_available: bool) -> (r: Result<simd_json::BorrowedValue<'_>, simd_json::Error>)
    ensures
        !simd_available ==> r is Err,
        simd_available ==> (r is Ok <==> simd_accepts(old(data)@)),
{
    if simd_available {
        simd_parse(data)
    } else {
        Err(simd_unavailable_error())
    }
}

} // verus!
