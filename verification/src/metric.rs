//! The closed set of string-similarity metrics a caller may select.

use vstd::prelude::*;

verus! {

/// Selector for the string metric used when comparing two keys.
///
/// Every metric denotes a deterministic, total function of two text values
/// returning a score between 0 and 1, where 1 means maximal similarity.
/// Evaluating a metric is the caller's business: the buffer in this crate
/// only consumes the boolean verdicts `score >= threshold`.
#[derive(Clone, Copy, Debug, PartialEq, Eq, Structural)]
pub enum Metric {
    /// Damerau-Levenshtein distance, normalized to a score in 0 to 1.
    DamerauLevenshtein,
    /// Levenshtein distance, normalized to a score in 0 to 1.
    Levenshtein,
    /// Jaro similarity.
    Jaro,
    /// Jaro-Winkler similarity.
    JaroWinkler,
}

} // verus!
