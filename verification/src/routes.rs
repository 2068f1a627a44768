//! The `?range=` parameter shared by the historical endpoints.

use vstd::prelude::*;
use crate::error::{ApiError, ErrorView};
use crate::range::{TimeRange, range_from_text, range_text, lemma_parse_inverts_text};

verus! {

/// Shared `?range=` parameter for historical endpoints.
pub struct RangeParams {
    pub range: Option<String>,
}

/// The range a `?range=` parameter selects: one hour when absent, the
/// named range when it names one, otherwise an invalid-range error
/// echoing the text.
pub open spec fn selected_range(param: Option<Seq<char>>) -> Result<TimeRange, ErrorView> {
    match param {
        None => Ok(TimeRange::OneHour),
        Some(s) => match range_from_text(s) {
            Some(r) => Ok(r),
            None => Err(ErrorView::InvalidRange(s)),
        },
    }
}

/// A result with its error as plain values.
pub open spec fn result_view(r: Result<TimeRange, ApiError>) -> Result<TimeRange, ErrorView> {
    match r {
        Ok(t) => Ok(t),
        Err(e) => Err(e@),
    }
}

impl RangeParams {
    /// Validates and converts the range parameter.
    pub fn parse_range(&self) -> (r: Result<TimeRange, ApiError>)
        ensures
            result_view(r) == selected_range(match self.range {
                Some(s) => Some(s@),
                None => None,
            }),
    {
        match &self.range {
            None => Ok(TimeRange::OneHour),
            Some(s) => match TimeRange::parse(s.as_str()) {
                Some(r) => Ok(r),
                None => Err(ApiError::InvalidTimeRange(s.clone())),
            },
        }
    }
}

/// Every range can be asked for by its canonical text, and asking for no
/// range gives one hour.
pub proof fn lemma_canonical_texts_select_their_range(r: TimeRange)
    ensures
        selected_range(Some(range_text(r))) == Ok::<TimeRange, ErrorView>(r),
        selected_range(None) == Ok::<TimeRange, ErrorView>(TimeRange::OneHour),
{
    lemma_parse_inverts_text(r);
}

} // verus!
