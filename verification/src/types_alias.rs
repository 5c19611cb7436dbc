//! Type aliases: shortening a result type whose error is fixed.

use vstd::prelude::*;

verus! {

/// Declares `std::io::Error` so that it can appear in signatures; the
/// verifier treats values of it as opaque.
#[verifier::external_type_specification]
#[verifier::external_body]
pub struct ExIoError(std::io::Error);

/// A result whose error side is always an I/O error.
pub type IoResult<T> = std::result::Result<T, std::io::Error>;

/// The alias in use: hands back a fixed string, successfully.
pub fn use_result() -> (r: IoResult<&'static str>)
    ensures
        r matches Ok(s) && s@ == "Result"@,
{
    IoResult::Ok("Result")
}

} // verus!
