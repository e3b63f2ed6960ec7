//! Suppress (or isolate) lines of text that are approximate duplicates of
//! recently seen lines.
//!
//! The crate keeps a bounded, recency-ordered buffer of comparison keys and,
//! for each incoming key, reports whether a sufficiently similar key was seen
//! recently.  The comparison key itself is derived from a raw line by an
//! optional pipeline of field skipping, character skipping, truncation and
//! case folding, all counted in Unicode code points.
//!
//! Similarity scores come from a string metric chosen by the caller; the
//! caller evaluates the metric against the buffered keys and hands the
//! resulting verdicts in, so the buffer update and the emit decision are
//! independent of the metric's numeric representation.

pub mod buffer;
pub mod filter;
pub mod key;
pub mod metric;
