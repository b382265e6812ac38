//! A validation type that accumulates every failure instead of stopping at
//! the first one, together with the algebra that combines such results.

mod append;
mod cause;
mod error;
mod text;
mod valid;

pub use append::Append;
pub use cause::Cause;
pub use cause::CauseView;
pub use cause::cause_text;
pub use error::{
    PathSegment, ValidationError, aggregate_view, bullet_line, error_report, path_trace,
    segment_text, serde_error_segments,
};
pub use text::{
    all_digits, comma_join, dec_digit, dec_rep, decimal_string, is_digit, location_suffix,
    joined_labels, location_witness, strip_from, strip_location, strip_location_spec,
};
pub use valid::{
    Fusion, Valid, ValidView, Validator, causes_of, collected_causes, collected_values,
    lemma_zip_accumulation_associative, lemma_zip_success_identity, traced, zip_view,
};

use vstd::prelude::*;

verus! {

/// The validating counterpart of `TryFrom`: a conversion whose outcome is a
/// validation rather than a plain result.
pub trait ValidFrom<T>: Sized {
    /// The error payload the conversion reports.
    type Error;

    /// The trace label type the conversion reports.
    type Trace;

    /// Validates a value of type `T` into one of type `Self`.
    fn valid_from(a: T) -> Valid<Self, Self::Error, Self::Trace>;
}

/// The validating counterpart of `TryInto`, gained for free wherever a
/// `ValidFrom` conversion exists.
pub trait ValidInto<T> {
    /// The error payload the conversion reports.
    type Error;

    /// The trace label type the conversion reports.
    type Trace;

    /// Validates this value into one of type `T`.
    fn valid_into(self) -> Valid<T, Self::Error, Self::Trace>;
}

impl<S, T: ValidFrom<S>> ValidInto<T> for S {
    type Error = <T as ValidFrom<S>>::Error;

    type Trace = <T as ValidFrom<S>>::Trace;

    fn valid_into(self) -> Valid<T, Self::Error, Self::Trace> {
        T::valid_from(self)
    }
}

} // verus!
