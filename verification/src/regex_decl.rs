//! Declares the regex crate's compiled-pattern type so that it can stand
//! in fields and signatures. The value is opaque; everything the engine
//! knows about it is stated on the trusted wrappers in `pattern`.

use vstd::prelude::*;

verus! {

#[verifier::external_type_specification]
#[verifier::external_body]
pub struct ExRegex(regex::Regex);

} // verus!
