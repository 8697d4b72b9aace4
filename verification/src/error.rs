//! The errors of this crate.

use crate::text::{decimal, push_decimal};
use vstd::prelude::*;

verus! {

/// What can go wrong when data is read in or a drawing is emitted.
#[derive(Debug, Clone, PartialEq, Eq)]
pub enum GraphicsError {
    /// Interchange data broke the tagged-tuple format; the number is the
    /// position of the first offending entry.
    MalformedInterchange(usize),
    /// An emitter could not produce its output: the cache tag held here is
    /// referenced by an item but has no definition.
    EmissionFailure(String),
}

impl GraphicsError {
    /// The message that describes the error.
    pub open spec fn text(self) -> Seq<char> {
        match self {
            GraphicsError::MalformedInterchange(index) => {
                "malformed interchange data at entry "@ + decimal(index as nat)
            },
            GraphicsError::EmissionFailure(tag) => {
                "emission failure: no definition for cache tag "@ + tag@
            },
        }
    }

    /// The message that describes the error.
    pub fn to_string(&self) -> (r: String)
        ensures
            r@ == self.text(),
    {
        match self {
            GraphicsError::MalformedInterchange(index) => {
                let mut out = String::from_str("malformed interchange data at entry ");
                push_decimal(&mut out, *index as u64);
                out
            },
            GraphicsError::EmissionFailure(tag) => {
                let mut out = String::from_str("emission failure: no definition for cache tag ");
                out.append(tag.as_str());
                out
            },
        }
    }
}

} // verus!
