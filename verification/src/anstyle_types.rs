//! The types of the `anstyle` crate that the library carries.

use vstd::prelude::*;
use anstyle::Color as AnstyleColor;
use anstyle::Style as AnstyleStyle;

verus! {

/// `anstyle::Color`, carried opaquely.
#[verifier::external_type_specification]
#[verifier::external_body]
pub struct ExAnstyleColor(AnstyleColor);

/// `anstyle::Style`, carried opaquely.
#[verifier::external_type_specification]
#[verifier::external_body]
pub struct ExAnstyleStyle(AnstyleStyle);

} // verus!
