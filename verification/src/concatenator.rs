//! Splicing two argument lists into one.
//!
//! Variadic operators take their arguments as one positional list on the
//! wire. A `Concatenator` holds a fixed prefix and a spliced-in list and
//! flattens them eagerly, so the serialized form is a single array holding
//! the prefix's elements followed by the list's.
use vstd::prelude::*;
use crate::ast::{Ast, asts_view, lemma_asts_view_concat};

verus! {

/// A pair of argument lists serialized as one.
pub struct Concatenator(pub Vec<Ast>, pub Vec<Ast>);

impl Concatenator {
    /// Flatten into a single positional-argument list.
    pub fn into_args(self) -> (r: Vec<Ast>)
        ensures
            asts_view(r@) == asts_view(self.0@) + asts_view(self.1@),
    {
        let mut prefix = self.0;
        let mut spliced = self.1;
        proof {
            lemma_asts_view_concat(prefix@, spliced@);
        }
        prefix.append(&mut spliced);
        prefix
    }
}

} // verus!
