//! Resolves the `cache_diff` annotations of a record type into a descriptor and turns that
//! descriptor into a human readable list of differences between two instances of the record.
//!
//! The pipeline: annotation blocks (already split into tokens by the host compiler) are parsed
//! by [`annotation`] and gathered per item by [`lookup`], each field is resolved by [`field`],
//! the record as a whole by [`container`], and problems are reported as
//! [`diagnostic::Diagnostic`]s. [`generate`] states what the comparison returns and [`emit`]
//! writes the implementation that performs it. [`laws`] proves what holds of every record.

pub mod annotation;
pub mod container;
pub mod diagnostic;
pub mod emit;
pub mod example;
pub mod field;
pub mod generate;
pub mod laws;
pub mod lookup;

use vstd::prelude::*;

verus! {

/// Centralized cache invalidation logic with human readable differences.
///
/// An empty list means the cached value is still valid; each entry explains one reason to
/// invalidate it.
pub trait CacheDiff {
    /// The differences between `self` and the `previous` value.
    fn diff(&self, previous: &Self) -> Vec<String>;

    /// How a value is shown inside an entry: in backticks.
    fn fmt_value(&self, value: &str) -> (r: String)
        ensures
            r@ == generate::wrap_value(generate::ValueStyle::Backticks, value@),
    {
        generate::fmt_value(generate::ValueStyle::Backticks, value)
    }
}

} // verus!
