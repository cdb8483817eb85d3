//! Versions and version ranges as dependency resolvers use them: parsing
//! from text, the range order, temporal precedence, range normalisation,
//! membership and canonical rendering.
use vstd::prelude::*;

pub mod base36;
pub mod grammar;
pub mod laws;
pub mod range;
pub mod version;

pub use base36::{Base36, FieldError};
pub use grammar::ParseError;
pub use range::{Op, Range};
pub use version::Version;

verus! {

/// A named dependency and the range of versions it accepts.
#[derive(Debug)]
pub struct Dependency {
    pub name: String,
    pub range: Range,
}

impl PartialEq for Dependency {
    fn eq(&self, other: &Self) -> (r: bool) {
        self.name.eq(&other.name) && self.range == other.range
    }
}

impl vstd::std_specs::cmp::PartialEqSpecImpl for Dependency {
    open spec fn obeys_eq_spec() -> bool {
        true
    }

    open spec fn eq_spec(&self, other: &Self) -> bool {
        self.name@ == other.name@ && self.range@ == other.range@
    }
}

} // verus!
