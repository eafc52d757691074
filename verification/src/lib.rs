//! A minimal metrics-exposition library.
//!
//! Histograms with fixed bucket boundaries record observations keyed by
//! label tuples; a registry keeps uniquely named metric families; and an
//! encoder turns a registry snapshot into the text exposition format that
//! scraping clients read. Observation values and bucket boundaries are
//! fixed-point numbers in thousandths of a unit, so every count, sum and
//! boundary is exact.

use vstd::prelude::*;

pub mod encode;
pub mod family;
pub mod histogram;
pub mod registry;
pub mod text;

verus! {

/// The ways a metrics operation can fail.
///
/// Encoding a snapshot cannot fail: the encoder is total, so no variant
/// exists for it.
#[derive(Clone, Copy, Debug, PartialEq, Eq, Structural)]
pub enum MetricsError {
    /// A family with the same name is already registered.
    DuplicateMetricName,
    /// An observation supplied a label tuple whose arity differs from the
    /// family's declared label names.
    LabelCardinalityMismatch,
}

impl MetricsError {
    /// A short human-readable description of the error.
    pub fn message(&self) -> (s: &'static str)
        ensures
            *self is DuplicateMetricName ==> s@ == "duplicate metric name"@,
            *self is LabelCardinalityMismatch ==> s@ == "label cardinality mismatch"@,
    {
        match self {
            MetricsError::DuplicateMetricName => "duplicate metric name",
            MetricsError::LabelCardinalityMismatch => "label cardinality mismatch",
        }
    }
}

} // verus!
