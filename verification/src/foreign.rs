//! Outside types that library values carry through unchanged.
use vstd::prelude::*;

verus! {

/// `std::io::Error`, carried inside error values; the library never looks inside.
#[verifier::external_type_specification]
#[verifier::external_body]
pub struct ExIoError(std::io::Error);

/// `toml::de::Error`, the manifest parser's error, carried inside `CatalogError::Parse`.
#[verifier::external_type_specification]
#[verifier::external_body]
pub struct ExTomlError(toml::de::Error);

} // verus!
