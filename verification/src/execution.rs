//! Errors of executing pipeline steps: their retryability, their text, and
//! how each maps onto a [`DomainError`].
use vstd::prelude::*;

use crate::error::{code_retryable_by_default, DomainError, ErrorCode};
use crate::resilience::{is_retryable_status, retryable_status, Delay};
use crate::text::{decimal, push_decimal, push_usize};

verus! {

/// The ways executing a pipeline step can fail.
#[derive(Debug)]
#[non_exhaustive]
pub enum ExecutionError {
    /// HTTP-transport failure.
    Http {
        /// HTTP status code returned by the failed request.
        status: u16,
        /// Human-readable failure message.
        message: String,
        /// Server-supplied retry delay, if the caller already parsed one.
        retry_after: Option<Delay>,
    },
    /// A step attempt exceeded its configured timeout.
    Timeout {
        /// Milliseconds elapsed before the attempt was aborted.
        elapsed_ms: u64,
    },
    /// Generic step failure not tied to HTTP transport.
    Failed {
        /// Human-readable failure message.
        message: String,
        /// Whether this failure is worth retrying.
        retryable: bool,
    },
    /// The circuit breaker short-circuited the call without invoking the step.
    CircuitOpen {
        /// Milliseconds remaining until the circuit may allow a probe call.
        retry_after_ms: u64,
    },
    /// A pipeline step failed, wrapping which step and its underlying cause.
    StepFailed {
        /// The failed step's id.
        step_id: String,
        /// The failed step's name.
        step_name: String,
        /// The underlying error that caused this step to fail.
        source: Box<ExecutionError>,
    },
    /// The number of runners did not match the number of pipeline steps.
    StepCountMismatch {
        /// Expected runner count.
        expected: usize,
        /// Actual runner count supplied.
        got: usize,
    },
}

/// Whether retrying is worthwhile: by status for HTTP, always for timeouts
/// and an open circuit, as flagged for generic failures, as the cause for a
/// failed step, never for a runner count mismatch.
pub open spec fn execution_retryable(e: ExecutionError) -> bool
    decreases e,
{
    match e {
        ExecutionError::Http { status, .. } => retryable_status(status),
        ExecutionError::Timeout { .. } => true,
        ExecutionError::Failed { retryable, .. } => retryable,
        ExecutionError::CircuitOpen { .. } => true,
        ExecutionError::StepFailed { source, .. } => execution_retryable(*source),
        ExecutionError::StepCountMismatch { .. } => false,
    }
}

/// `step timed out after {ms}ms`.
pub open spec fn timeout_text(elapsed_ms: u64) -> Seq<char> {
    "step timed out after "@ + decimal(elapsed_ms as nat) + "ms"@
}

/// `circuit open, retry after {ms}ms`.
pub open spec fn circuit_open_text(retry_after_ms: u64) -> Seq<char> {
    "circuit open, retry after "@ + decimal(retry_after_ms as nat) + "ms"@
}

/// `expected {expected} runners, got {got}`.
pub open spec fn mismatch_text(expected: usize, got: usize) -> Seq<char> {
    "expected "@ + decimal(expected as nat) + " runners, got "@ + decimal(got as nat)
}

/// The human-readable text of an error.
pub open spec fn execution_text(e: ExecutionError) -> Seq<char>
    decreases e,
{
    match e {
        ExecutionError::Http { status, message, .. } => "http "@ + decimal(status as nat) + seq![':', ' ']
            + message@,
        ExecutionError::Timeout { elapsed_ms } => timeout_text(elapsed_ms),
        ExecutionError::Failed { message, .. } => message@,
        ExecutionError::CircuitOpen { retry_after_ms } => circuit_open_text(retry_after_ms),
        ExecutionError::StepFailed { step_id, step_name, source } => "step "@ + step_id@ + seq![' ', '(']
            + step_name@ + ") failed: "@ + execution_text(*source),
        ExecutionError::StepCountMismatch { expected, got } => mismatch_text(expected, got),
    }
}

/// The error code of an HTTP failure: 429 is rate limiting, 502 to 504
/// unavailability, anything else an external failure.
pub open spec fn http_code(status: u16) -> ErrorCode {
    if status == 429 {
        ErrorCode::RateLimited
    } else if 502 <= status <= 504 {
        ErrorCode::Unavailable
    } else {
        ErrorCode::ExternalFailure
    }
}

/// The code of the domain error an execution error maps to.
pub open spec fn domain_code(e: ExecutionError) -> ErrorCode {
    match e {
        ExecutionError::Http { status, .. } => http_code(status),
        ExecutionError::Timeout { .. } => ErrorCode::Timeout,
        ExecutionError::Failed { .. } => ErrorCode::ExternalFailure,
        ExecutionError::CircuitOpen { .. } => ErrorCode::Unavailable,
        ExecutionError::StepFailed { .. } => ErrorCode::ExternalFailure,
        ExecutionError::StepCountMismatch { .. } => ErrorCode::InvalidInput,
    }
}

/// The message of the domain error an execution error maps to. A failed
/// step maps to the fixed message `placeholder`, without its cause.
pub open spec fn domain_message(e: ExecutionError) -> Seq<char> {
    match e {
        ExecutionError::Http { message, .. } => message@,
        ExecutionError::Timeout { elapsed_ms } => timeout_text(elapsed_ms),
        ExecutionError::Failed { message, .. } => message@,
        ExecutionError::CircuitOpen { retry_after_ms } => circuit_open_text(retry_after_ms),
        ExecutionError::StepFailed { .. } => "placeholder"@,
        ExecutionError::StepCountMismatch { expected, got } => mismatch_text(expected, got),
    }
}

/// The retryability of the domain error an execution error maps to:
/// by status for HTTP, set for timeouts and an open circuit, cleared for a
/// count mismatch, and the code's default otherwise.
pub open spec fn domain_retryable(e: ExecutionError) -> bool {
    match e {
        ExecutionError::Http { status, .. } => retryable_status(status),
        ExecutionError::Timeout { .. } => true,
        ExecutionError::CircuitOpen { .. } => true,
        ExecutionError::StepCountMismatch { .. } => false,
        _ => code_retryable_by_default(domain_code(e)),
    }
}

/// The retry delay, in nanoseconds, of the domain error an execution error
/// maps to: the parsed one for HTTP, the remaining wait for an open circuit.
pub open spec fn domain_retry_after(e: ExecutionError) -> Option<nat> {
    match e {
        ExecutionError::Http { retry_after, .. } => match retry_after {
            Some(d) => Some(d@),
            None => None,
        },
        ExecutionError::CircuitOpen { retry_after_ms } => Some((retry_after_ms * 1_000_000) as nat),
        _ => None,
    }
}

/// The view of an optional delay.
pub open spec fn delay_view(d: Option<Delay>) -> Option<nat> {
    match d {
        Some(d) => Some(d@),
        None => None,
    }
}

impl ExecutionError {
    /// Whether retrying is worthwhile for this error.
    pub fn is_retryable(&self) -> (b: bool)
        ensures
            b == execution_retryable(*self),
        decreases self,
    {
        match self {
            ExecutionError::Http { status, .. } => is_retryable_status(*status),
            ExecutionError::Timeout { .. } => true,
            ExecutionError::Failed { retryable, .. } => *retryable,
            ExecutionError::CircuitOpen { .. } => true,
            ExecutionError::StepFailed { source, .. } => source.is_retryable(),
            ExecutionError::StepCountMismatch { .. } => false,
        }
    }

    /// The human-readable text of this error.
    pub fn message(&self) -> (s: String)
        ensures
            s@ == execution_text(*self),
    {
        let mut out = String::new();
        self.push_text(&mut out);
        out
    }

    fn push_text(&self, out: &mut String)
        ensures
            final(out)@ == old(out)@ + execution_text(*self),
        decreases self,
    {
        match self {
            ExecutionError::Http { status, message, .. } => {
                out.append("http ");
                push_decimal(out, *status as u64);
                out.push(':');
                out.push(' ');
                out.append(message.as_str());
            },
            ExecutionError::Timeout { elapsed_ms } => {
                out.append("step timed out after ");
                push_decimal(out, *elapsed_ms);
                out.append("ms");
            },
            ExecutionError::Failed { message, .. } => {
                out.append(message.as_str());
            },
            ExecutionError::CircuitOpen { retry_after_ms } => {
                out.append("circuit open, retry after ");
                push_decimal(out, *retry_after_ms);
                out.append("ms");
            },
            ExecutionError::StepFailed { step_id, step_name, source } => {
                out.append("step ");
                out.append(step_id.as_str());
                out.push(' ');
                out.push('(');
                out.append(step_name.as_str());
                out.append(") failed: ");
                source.push_text(out);
            },
            ExecutionError::StepCountMismatch { expected, got } => {
                out.append("expected ");
                push_usize(out, *expected);
                out.append(" runners, got ");
                push_usize(out, *got);
            },
        }
    }
}

impl From<ExecutionError> for DomainError {
    fn from(err: ExecutionError) -> (d: Self)
        ensures
            d.code == domain_code(err),
            d.message@ == domain_message(err),
            d.retryable == domain_retryable(err),
            delay_view(d.retry_after) == domain_retry_after(err),
            d.hints@.len() == 0,
            d.recovery is None,
    {
        match err {
            ExecutionError::Http { status, message, retry_after } => {
                let code = if status == 429 {
                    ErrorCode::RateLimited
                } else if 502 <= status && status <= 504 {
                    ErrorCode::Unavailable
                } else {
                    ErrorCode::ExternalFailure
                };
                let retryable = is_retryable_status(status);
                let d = DomainError::new(code, message.as_str()).retryable(retryable);
                match retry_after {
                    Some(delay) => d.retry_after(delay),
                    None => d,
                }
            },
            ExecutionError::Timeout { elapsed_ms } => {
                let mut text = String::new();
                text.append("step timed out after ");
                push_decimal(&mut text, elapsed_ms);
                text.append("ms");
                DomainError::new(ErrorCode::Timeout, text.as_str()).retryable(true)
            },
            ExecutionError::Failed { message, .. } => {
                DomainError::new(ErrorCode::ExternalFailure, message.as_str())
            },
            ExecutionError::CircuitOpen { retry_after_ms } => {
                let mut text = String::new();
                text.append("circuit open, retry after ");
                push_decimal(&mut text, retry_after_ms);
                text.append("ms");
                DomainError::new(ErrorCode::Unavailable, text.as_str()).retryable(true).retry_after(
                    Delay::from_millis(retry_after_ms),
                )
            },
            ExecutionError::StepFailed { .. } => {
                DomainError::new(ErrorCode::ExternalFailure, "placeholder")
            },
            ExecutionError::StepCountMismatch { expected, got } => {
                let mut text = String::new();
                text.append("expected ");
                push_usize(&mut text, expected);
                text.append(" runners, got ");
                push_usize(&mut text, got);
                DomainError::new(ErrorCode::InvalidInput, text.as_str()).retryable(false)
            },
        }
    }
}

impl vstd::std_specs::convert::FromSpecImpl<ExecutionError> for DomainError {
    open spec fn obeys_from_spec() -> bool {
        false
    }

    open spec fn from_spec(err: ExecutionError) -> Self {
        arbitrary()
    }
}

/// Converting never loses retryability: a retryable execution error becomes
/// a retryable domain error, and for HTTP failures, timeouts, an open
/// circuit and a count mismatch the two agree exactly.
pub proof fn law_conversion_keeps_retryability(e: ExecutionError)
    ensures
        execution_retryable(e) ==> domain_retryable(e),
        !(e is Failed || e is StepFailed) ==> domain_retryable(e) == execution_retryable(e),
{
}

/// An HTTP failure's code follows its status class: the error is worth
/// retrying exactly when its code is rate limiting or unavailability, rate
/// limiting is exactly status 429, so every other retryable status (the
/// gateway failures 502, 503 and 504) is unavailability and every
/// non-retryable status an external failure.
pub proof fn law_http_code_follows_status(status: u16, message: String, retry_after: Option<Delay>)
    ensures
        ({
            let e = ExecutionError::Http { status, message, retry_after };
            &&& domain_retryable(e) <==> (domain_code(e) == ErrorCode::RateLimited || domain_code(e)
                == ErrorCode::Unavailable)
            &&& domain_code(e) == ErrorCode::RateLimited <==> status == 429
            &&& retryable_status(status) && status != 429 ==> domain_code(e) == ErrorCode::Unavailable
            &&& !retryable_status(status) ==> domain_code(e) == ErrorCode::ExternalFailure
        }),
{
}

} // verus!
