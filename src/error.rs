use vstd::prelude::*;

verus! {

pub const JOB_INVALID_ARGS: &'static str = "job_invalid_args";

pub const JOB_ALREADY_RUNNING: &'static str = "job_already_running";

pub const JOB_EXCLUSIVE_BLOCKED: &'static str = "job_exclusive_blocked";

pub const JOB_CONCURRENCY_LIMIT: &'static str = "job_concurrency_limit";

pub const JOB_OUTPUT_INVALID: &'static str = "job_output_invalid";

pub const JOB_CANCELLED: &'static str = "job_cancelled";

pub const JOB_COMPLETE: &'static str = "job_complete";

pub const JOB_FAILED: &'static str = "job_failed";

/// An error with a stable machine-readable code and a human-readable message.
#[derive(Debug, Clone)]
pub struct AppError {
    pub code: &'static str,
    pub message: String,
}

impl AppError {
    /// Builds an error from a code and anything that converts into a message;
    /// for a `&str` or a `String` the message is that text.
    pub fn new<M: Into<String>>(code: &'static str, message: M) -> (r: AppError)
        ensures
            r.code == code,
            call_ensures(<M as Into<String>>::into, (message,), r.message),
    {
        AppError { code, message: message.into() }
    }
}

/// std's `String: From<&str>` copies the text.
pub assume_specification<'a>[ <String as core::convert::From<&'a str>>::from ](s: &str) -> (r: String)
    ensures
        r@ == s@,
;

/// core's reflexive `From<T> for T` returns its argument unchanged.
pub assume_specification<Val>[ <Val as core::convert::From<Val>>::from ](t: Val) -> (r: Val)
    ensures
        r == t,
;

#[verifier::external_type_specification]
#[verifier::external_body]
pub struct ExIoError(std::io::Error);

/// An I/O failure reported as `io_error` with the failure's own description.
impl From<std::io::Error> for AppError {
    fn from(value: std::io::Error) -> AppError {
        AppError { code: "io_error", message: value.to_string() }
    }
}

impl vstd::std_specs::convert::FromSpecImpl<std::io::Error> for AppError {
    open spec fn obeys_from_spec() -> bool {
        false
    }

    open spec fn from_spec(v: std::io::Error) -> AppError {
        arbitrary()
    }
}

} // verus!
