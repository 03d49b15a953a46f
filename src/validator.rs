//! Guards applied to a job request before anything is started.
use crate::error::{AppError, JOB_INVALID_ARGS};
use crate::registry::{Admission, JobRegistry, admission, admission_code};
use crate::text::chars_of;
use vstd::prelude::*;
use vstd::string::*;

verus! {

/// Whether an argument holds a shell metacharacter (`;`, `|`, `&`, a
/// backtick) or begins with the command-substitution opener `$(`.
pub open spec fn is_unsafe_arg(a: Seq<char>) -> bool {
    a.contains(';') || a.contains('|') || a.contains('&') || a.contains('`') || (a.len() >= 2
        && a[0] == '$' && a[1] == '(')
}

/// The views of a list of strings.
pub open spec fn texts(args: Seq<String>) -> Seq<Seq<char>> {
    args.map_values(|s: String| s@)
}

/// An argument list is acceptable when it is non-empty and every argument is safe.
pub open spec fn args_acceptable(args: Seq<Seq<char>>) -> bool {
    args.len() > 0 && forall|i: int| 0 <= i < args.len() ==> !is_unsafe_arg(#[trigger] args[i])
}

/// Whether one argument is unsafe.
pub fn arg_is_unsafe(arg: &str) -> (r: bool)
    ensures
        r == is_unsafe_arg(arg@),
{
    let v = chars_of(arg);
    let mut i: usize = 0;
    while i < v.len()
        invariant
            v@ == arg@,
            i <= v@.len(),
            forall|k: int| 0 <= k < i ==> v@[k] != ';' && v@[k] != '|' && v@[k] != '&' && v@[k] != '`',
        decreases v@.len() - i,
    {
        let c = v[i];
        if c == ';' || c == '|' || c == '&' || c == '`' {
            assert(v@[i as int] == c);
            return true;
        }
        i = i + 1;
    }
    v.len() >= 2 && v[0] == '$' && v[1] == '('
}

/// The stateless guard on job requests.
#[derive(Debug, Clone, Copy)]
pub struct JobValidator;

impl JobValidator {
    pub fn new() -> JobValidator {
        JobValidator
    }

    /// Accepts a non-empty list of arguments none of which is unsafe.
    pub fn validate_args(&self, args: &[String]) -> (r: Result<&Self, AppError>)
        ensures
            r is Ok <==> args_acceptable(texts(args@)),
            r matches Err(e) ==> e.code == JOB_INVALID_ARGS,
    {
        if args.len() == 0 {
            return Err(
                AppError {
                    code: JOB_INVALID_ARGS,
                    message: String::from_str("FFmpeg arguments must not be empty."),
                },
            );
        }
        let mut i: usize = 0;
        while i < args.len()
            invariant
                i <= args@.len(),
                forall|k: int| 0 <= k < i ==> !is_unsafe_arg(#[trigger] texts(args@)[k]),
            decreases args@.len() - i,
        {
            if arg_is_unsafe(args[i].as_str()) {
                assert(texts(args@)[i as int] == args@[i as int]@);
                let message = String::from_str("Unsafe argument detected: ").concat(
                    args[i].as_str(),
                );
                return Err(AppError { code: JOB_INVALID_ARGS, message });
            }
            i = i + 1;
        }
        Ok(self)
    }

    /// Applies the admission rules to the job `job_id` against the active jobs.
    pub fn validate_concurrency<H>(
        &self,
        job_id: &str,
        active_jobs: &JobRegistry<H>,
        max_concurrency: usize,
        exclusive: bool,
    ) -> (r: Result<&Self, AppError>)
        requires
            active_jobs.wf(),
        ensures
            r is Ok <==> admission(active_jobs.entries(), job_id@, exclusive, max_concurrency)
                == Admission::Admitted,
            r matches Err(e) ==> e.code == admission_code(
                admission(active_jobs.entries(), job_id@, exclusive, max_concurrency),
            ),
    {
        match active_jobs.check_admission(job_id, exclusive, max_concurrency) {
            Ok(()) => Ok(self),
            Err(e) => Err(e),
        }
    }
}

impl Default for JobValidator {
    fn default() -> JobValidator {
        JobValidator
    }
}

} // verus!
