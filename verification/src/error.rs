//! Errors of the dashboard API and the JSON error body clients receive.

use vstd::prelude::*;
use crate::text::{decimal_text, join2, join3, owned, u64_text};

verus! {

/// Errors that can occur while serving dashboard API requests.
#[derive(Debug)]
pub enum ApiError {
    /// Prometheus could not be reached at all (network / DNS / timeout).
    PrometheusUnreachable(String),
    /// Prometheus responded, but with a non-2xx status.
    PrometheusStatus { status: u16, body: String },
    /// Prometheus responded 2xx but the body could not be parsed as expected.
    PrometheusBadResponse(String),
    /// The requested time range is not one of the supported values.
    InvalidTimeRange(String),
    /// Anything unexpected during request handling.
    Internal(String),
}

/// What an error says, as plain values.
pub enum ErrorView {
    Unreachable(Seq<char>),
    Status(u16, Seq<char>),
    BadResponse(Seq<char>),
    InvalidRange(Seq<char>),
    Internal(Seq<char>),
}

impl View for ApiError {
    type V = ErrorView;

    open spec fn view(&self) -> ErrorView {
        match self {
            ApiError::PrometheusUnreachable(m) => ErrorView::Unreachable(m@),
            ApiError::PrometheusStatus { status, body } => ErrorView::Status(*status, body@),
            ApiError::PrometheusBadResponse(m) => ErrorView::BadResponse(m@),
            ApiError::InvalidTimeRange(m) => ErrorView::InvalidRange(m@),
            ApiError::Internal(m) => ErrorView::Internal(m@),
        }
    }
}

/// The error a failed HTTP exchange with Prometheus stands for: a timeout
/// or a refused connection means Prometheus is unreachable; anything else
/// is an unexpected response.
pub open spec fn transport_error_view(timed_out: bool, connect: bool, text: Seq<char>) -> ErrorView {
    if timed_out {
        ErrorView::Unreachable("request timed out"@)
    } else if connect {
        ErrorView::Unreachable(text)
    } else {
        ErrorView::BadResponse(text)
    }
}

/// JSON body returned for every API error.
pub struct ErrorBody {
    pub error: ErrorDetail,
}

/// Error detail payload.
pub struct ErrorDetail {
    pub code: String,
    pub message: String,
}

/// The full description of an error, as written to the server log.
pub open spec fn error_text(e: ApiError) -> Seq<char> {
    match e {
        ApiError::PrometheusUnreachable(m) => "prometheus is unreachable: "@ + m@,
        ApiError::PrometheusStatus { status, body } => "prometheus returned status "@
            + decimal_text(status as nat) + ": "@ + body@,
        ApiError::PrometheusBadResponse(m) => "unexpected prometheus response: "@ + m@,
        ApiError::InvalidTimeRange(m) => "invalid time range: "@ + m@,
        ApiError::Internal(m) => "internal error: "@ + m@,
    }
}

/// Whether the error means telemetry data cannot be trusted right now.
pub open spec fn is_telemetry_failure(e: ApiError) -> bool {
    ||| e is PrometheusUnreachable
    ||| e is PrometheusStatus
    ||| e is PrometheusBadResponse
}

/// HTTP status of the reply for an error.
pub open spec fn http_status(e: ApiError) -> u16 {
    match e {
        ApiError::InvalidTimeRange(_) => 400,
        ApiError::Internal(_) => 500,
        _ => 502,
    }
}

/// Machine-readable code of the reply for an error.
pub open spec fn public_code(e: ApiError) -> Seq<char> {
    match e {
        ApiError::InvalidTimeRange(_) => "invalid_time_range"@,
        ApiError::Internal(_) => "internal_error"@,
        _ => "prometheus_error"@,
    }
}

/// Message shown to clients: only a bad range is echoed; every other
/// failure gets a fixed text and its details stay in the server log.
pub open spec fn public_message(e: ApiError) -> Seq<char> {
    match e {
        ApiError::InvalidTimeRange(m) => "invalid time range: "@ + m@,
        ApiError::PrometheusUnreachable(_) => "telemetry backend is unreachable"@,
        ApiError::PrometheusStatus { .. } => "telemetry backend returned an error"@,
        ApiError::PrometheusBadResponse(_) => "telemetry backend returned an unexpected response"@,
        ApiError::Internal(_) => "internal error"@,
    }
}

impl ApiError {
    /// True when the failure means telemetry data cannot be trusted right now.
    pub fn is_prometheus_failure(&self) -> (r: bool)
        ensures
            r == is_telemetry_failure(*self),
    {
        match self {
            ApiError::PrometheusUnreachable(_) => true,
            ApiError::PrometheusStatus { .. } => true,
            ApiError::PrometheusBadResponse(_) => true,
            _ => false,
        }
    }

    /// The full description of the error.
    pub fn message(&self) -> (s: String)
        ensures
            s@ == error_text(*self),
    {
        match self {
            ApiError::PrometheusUnreachable(m) => join2("prometheus is unreachable: ", m.as_str()),
            ApiError::PrometheusStatus { status, body } => {
                let code = u64_text(*status as u64);
                let mut s = join2("prometheus returned status ", code.as_str());
                s.append(": ");
                s.append(body.as_str());
                s
            },
            ApiError::PrometheusBadResponse(m) => join2(
                "unexpected prometheus response: ",
                m.as_str(),
            ),
            ApiError::InvalidTimeRange(m) => join2("invalid time range: ", m.as_str()),
            ApiError::Internal(m) => join2("internal error: ", m.as_str()),
        }
    }

    /// The HTTP status and JSON body the client receives for this error.
    pub fn error_response(&self) -> (r: (u16, ErrorBody))
        ensures
            r.0 == http_status(*self),
            r.1.error.code@ == public_code(*self),
            r.1.error.message@ == public_message(*self),
    {
        let (status, code, message) = match self {
            ApiError::InvalidTimeRange(m) => (
                400u16,
                "invalid_time_range",
                join2("invalid time range: ", m.as_str()),
            ),
            ApiError::PrometheusUnreachable(_) => (
                502u16,
                "prometheus_error",
                owned("telemetry backend is unreachable"),
            ),
            ApiError::PrometheusStatus { .. } => (
                502u16,
                "prometheus_error",
                owned("telemetry backend returned an error"),
            ),
            ApiError::PrometheusBadResponse(_) => (
                502u16,
                "prometheus_error",
                owned("telemetry backend returned an unexpected response"),
            ),
            ApiError::Internal(_) => (500u16, "internal_error", owned("internal error")),
        };
        (status, ErrorBody { error: ErrorDetail { code: owned(code), message } })
    }
}

/// The error for a failed exchange with Prometheus, from what the HTTP
/// client reports: whether it timed out, whether connecting failed, and
/// its description.
pub fn transport_error(timed_out: bool, connect: bool, text: String) -> (e: ApiError)
    ensures
        e@ == transport_error_view(timed_out, connect, text@),
{
    if timed_out {
        ApiError::PrometheusUnreachable(owned("request timed out"))
    } else if connect {
        ApiError::PrometheusUnreachable(text)
    } else {
        ApiError::PrometheusBadResponse(text)
    }
}

/// A request is answered with 502 exactly when the error is a Prometheus
/// failure, with 400 exactly for a bad range, and with 500 otherwise.
pub proof fn lemma_status_classes(e: ApiError)
    ensures
        http_status(e) == 502 <==> is_telemetry_failure(e),
        http_status(e) == 400 <==> e is InvalidTimeRange,
        http_status(e) == 500 <==> e is Internal,
{
}

/// Apart from a bad range, what a client sees of an error depends only on
/// its kind, never on the details it carries.
pub proof fn lemma_details_stay_private(a: ApiError, b: ApiError)
    requires
        !(a is InvalidTimeRange),
        a is PrometheusUnreachable <==> b is PrometheusUnreachable,
        a is PrometheusStatus <==> b is PrometheusStatus,
        a is PrometheusBadResponse <==> b is PrometheusBadResponse,
        a is Internal <==> b is Internal,
    ensures
        http_status(a) == http_status(b),
        public_code(a) == public_code(b),
        public_message(a) == public_message(b),
{
}

} // verus!
