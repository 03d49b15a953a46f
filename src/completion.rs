//! What a job reports when its process has ended: success, cancellation,
//! status code, message and logs.
use crate::error::{AppError, JOB_CANCELLED, JOB_COMPLETE, JOB_FAILED};
use crate::events::{CompletionPayload, ProgressPayload};
use crate::process::{RunningProcess, push_bounded};
use vstd::prelude::*;
use vstd::string::*;

verus! {

/// How waiting for a job's process ended.
pub enum WaitOutcome {
    /// The process exited; `success` is whether its exit status reports success.
    Exited { success: bool, code: Option<i32>, signal: Option<i32> },
    /// Waiting failed, for instance because the process handle was already taken.
    Failed(AppError),
}

/// The decimal digits of `n`.
pub open spec fn nat_text(n: nat) -> Seq<char>
    decreases n,
{
    if n < 10 {
        seq![digit_char(n)]
    } else {
        nat_text(n / 10).push(digit_char(n % 10))
    }
}

pub open spec fn digit_char(d: nat) -> char {
    ((d + '0' as u32) as u32) as char
}

/// `n` in decimal notation, with a leading `-` when negative.
pub open spec fn int_text(n: int) -> Seq<char> {
    if n < 0 {
        seq!['-'] + nat_text((-n) as nat)
    } else {
        nat_text(n as nat)
    }
}

/// The explanation offered for well-known exit codes of the converter.
pub open spec fn explanation(code: i32) -> Option<&'static str> {
    if code == 1 {
        Some("Encoding failed. Check input file format and codec support.")
    } else if code == 2 {
        Some("Invalid FFmpeg arguments. Please report this issue.")
    } else if code == 69 {
        Some("Output file already exists and cannot be overwritten.")
    } else {
        None
    }
}

/// The message for a failed exit with status `code`.
pub open spec fn exit_message(code: i32) -> Seq<char> {
    let head = "ffmpeg exited with status "@ + int_text(code as int);
    match explanation(code) {
        Some(e) => head + ": "@ + e@,
        None => head,
    }
}

/// Whether the process exited with a successful status.
pub open spec fn exited_ok(wait: WaitOutcome) -> bool {
    match wait {
        WaitOutcome::Exited { success, .. } => success,
        WaitOutcome::Failed(_) => false,
    }
}

/// The output is finalized only after a successful exit of a job that was not
/// cancelled; on every other path the temporary file is discarded.
pub open spec fn finalizes(wait: WaitOutcome, cancelled: bool) -> bool {
    exited_ok(wait) && !cancelled
}

pub open spec fn exit_code_of(wait: WaitOutcome) -> Option<i32> {
    match wait {
        WaitOutcome::Exited { code, .. } => code,
        WaitOutcome::Failed(_) => None,
    }
}

pub open spec fn signal_of(wait: WaitOutcome) -> Option<i32> {
    match wait {
        WaitOutcome::Exited { signal, .. } => signal,
        WaitOutcome::Failed(_) => None,
    }
}

/// Whether the job succeeded: a successful exit, no cancellation, and a
/// finalization that did not fail.
pub open spec fn succeeded(wait: WaitOutcome, cancelled: bool, finalize_error: Option<AppError>) -> bool {
    finalizes(wait, cancelled) && finalize_error is None
}

/// The status code reported: the wait error's code, else `job_cancelled`,
/// else the finalization error's code, else `job_complete` or `job_failed`.
pub open spec fn status_code(wait: WaitOutcome, cancelled: bool, finalize_error: Option<AppError>) -> &'static str {
    match wait {
        WaitOutcome::Failed(e) => e.code,
        WaitOutcome::Exited { .. } => if cancelled {
            JOB_CANCELLED
        } else {
            match finalize_error {
                Some(f) => f.code,
                None => if exited_ok(wait) {
                    JOB_COMPLETE
                } else {
                    JOB_FAILED
                },
            }
        },
    }
}

/// The message reported: the wait error, else the finalization error, else
/// for an uncancelled failure with an exit code a message naming that code.
pub open spec fn status_message(wait: WaitOutcome, cancelled: bool, finalize_error: Option<AppError>) -> Option<Seq<char>> {
    match wait {
        WaitOutcome::Failed(e) => Some("ffmpeg wait error: "@ + e.message@),
        WaitOutcome::Exited { code, .. } => match finalize_error {
            Some(f) => Some(f.message@),
            None => if !succeeded(wait, cancelled, finalize_error) && !cancelled && code is Some {
                Some(exit_message(code->0))
            } else {
                None
            },
        },
    }
}

/// A job that was cancelled never finalizes its output (its temporary file is
/// discarded), never reports success, and, once its process has exited, reports
/// `job_cancelled`, whatever the exit status and code were.
pub proof fn lemma_cancellation_wins(wait: WaitOutcome, finalize_error: Option<AppError>)
    ensures
        !finalizes(wait, true),
        !succeeded(wait, true, finalize_error),
        wait is Exited ==> status_code(wait, true, finalize_error) == JOB_CANCELLED,
        wait is Exited && finalize_error is None ==> status_message(wait, true, finalize_error) is None,
{
}

/// A failed finalization turns any outcome into a failure reported with the
/// finalization's own code and message.
pub proof fn lemma_finalize_failure_reported(wait: WaitOutcome, cancelled: bool, f: AppError)
    requires
        finalizes(wait, cancelled),
    ensures
        !succeeded(wait, cancelled, Some(f)),
        status_code(wait, cancelled, Some(f)) == f.code,
        status_message(wait, cancelled, Some(f)) == Some(f.message@),
{
}

/// The decimal digits of `n`.
pub fn u64_text(n: u64) -> (r: String)
    ensures
        r@ == nat_text(n as nat),
{
    let mut m: u64 = n;
    let mut rest: Vec<char> = Vec::new();
    assert(nat_text(n as nat) =~= nat_text(m as nat) + rest@);
    loop
        invariant
            m <= n,
            nat_text(n as nat) == nat_text(m as nat) + rest@,
        decreases m,
    {
        let c = char_of_digit((m % 10) as u32);
        let mut next: Vec<char> = Vec::new();
        next.push(c);
        let mut i: usize = 0;
        while i < rest.len()
            invariant
                i <= rest@.len(),
                next@ == seq![c] + rest@.subrange(0, i as int),
            decreases rest@.len() - i,
        {
            next.push(rest[i]);
            assert(next@ =~= seq![c] + rest@.subrange(0, i + 1));
            i = i + 1;
        }
        assert(rest@.subrange(0, i as int) =~= rest@);
        if m < 10 {
            assert(nat_text(m as nat) =~= seq![c]);
            assert(next@ =~= nat_text(n as nat));
            return crate::text::string_of(&next);
        }
        assert(nat_text(m as nat) == nat_text((m / 10) as nat).push(digit_char((m % 10) as nat)));
        assert(nat_text(n as nat) =~= nat_text((m / 10) as nat) + next@);
        rest = next;
        m = m / 10;
    }
}

/// The decimal text of `n`.
pub fn i32_text(n: i32) -> (r: String)
    ensures
        r@ == int_text(n as int),
{
    if n < 0 {
        let digits = u64_text((-(n as i64)) as u64);
        let r = String::from_str("-").concat(digits.as_str());
        proof {
            reveal_strlit("-");
            assert(r@ =~= seq!['-'] + nat_text((-(n as int)) as nat));
        }
        r
    } else {
        u64_text(n as u64)
    }
}

fn char_of_digit(d: u32) -> (c: char)
    requires
        d < 10,
    ensures
        c == digit_char(d as nat),
{
    if d == 0 { '0' } else if d == 1 { '1' } else if d == 2 { '2' } else if d == 3 { '3' }
    else if d == 4 { '4' } else if d == 5 { '5' } else if d == 6 { '6' } else if d == 7 { '7' }
    else if d == 8 { '8' } else { '9' }
}

/// The explanation of a well-known exit code of the converter.
pub fn explain_ffmpeg_exit_code(code: i32) -> (r: Option<&'static str>)
    ensures
        r == explanation(code),
{
    if code == 1 {
        Some("Encoding failed. Check input file format and codec support.")
    } else if code == 2 {
        Some("Invalid FFmpeg arguments. Please report this issue.")
    } else if code == 69 {
        Some("Output file already exists and cannot be overwritten.")
    } else {
        None
    }
}

/// The message for a failed exit with status `code`.
pub fn exit_message_text(code: i32) -> (r: String)
    ensures
        r@ == exit_message(code),
{
    let digits = i32_text(code);
    let head = String::from_str("ffmpeg exited with status ").concat(digits.as_str());
    match explain_ffmpeg_exit_code(code) {
        Some(e) => head.concat(": ").concat(e),
        None => head,
    }
}

/// Whether to move the output into place (otherwise the temporary file is discarded).
pub fn should_finalize(wait: &WaitOutcome, cancelled: bool) -> (r: bool)
    ensures
        r == finalizes(*wait, cancelled),
{
    match wait {
        WaitOutcome::Exited { success, .. } => *success && !cancelled,
        WaitOutcome::Failed(_) => false,
    }
}

/// The logs a completion carries: the retained lines, plus its message when it has one.
pub open spec fn final_logs(logs: Seq<Seq<char>>, message: Option<Seq<char>>) -> Seq<Seq<char>> {
    match message {
        Some(m) => push_bounded(logs, m),
        None => logs,
    }
}

/// Concludes a job whose process has ended: `wait` is how waiting ended and
/// `finalize_error` the failure, if any, of moving the output into place
/// (attempted only where `finalizes` holds). Logs the outcome's message,
/// drains the log into the completion event, clears exclusivity, and returns
/// that event together with the progress update that reports a failed wait.
pub fn complete_job(
    job_id: &str,
    wait: WaitOutcome,
    finalize_error: Option<AppError>,
    process: &mut RunningProcess,
) -> (r: (CompletionPayload, Option<ProgressPayload>))
    requires
        old(process).wf(),
        finalize_error is Some ==> finalizes(wait, old(process).cancelled_view()),
    ensures
        final(process).wf(),
        final(process).log_view() == Seq::<Seq<char>>::empty(),
        final(process).cancelled_view() == old(process).cancelled_view(),
        !final(process).exclusive_view(),
        r.0.job_id@ == job_id@,
        r.0.cancelled == old(process).cancelled_view(),
        r.0.success == succeeded(wait, old(process).cancelled_view(), finalize_error),
        r.0.exit_code == exit_code_of(wait),
        r.0.signal == signal_of(wait),
        r.0.code@ == status_code(wait, old(process).cancelled_view(), finalize_error)@,
        r.0.message is Some == status_message(wait, old(process).cancelled_view(), finalize_error) is Some,
        r.0.message matches Some(m) ==> m@ == status_message(
            wait,
            old(process).cancelled_view(),
            finalize_error,
        )->0,
        r.0.logs@.map_values(|s: String| s@) == final_logs(
            old(process).log_view(),
            status_message(wait, old(process).cancelled_view(), finalize_error),
        ),
        r.1 is Some <==> wait is Failed,
        r.1 matches Some(p) ==> p.job_id@ == job_id@ && p.progress is None && Some(p.raw@)
            == status_message(wait, old(process).cancelled_view(), finalize_error),
{
    let cancelled = process.is_cancelled();
    let exit_ok = match &wait {
        WaitOutcome::Exited { success, .. } => *success,
        WaitOutcome::Failed(_) => false,
    };
    let (exit_code, signal) = match &wait {
        WaitOutcome::Exited { code, signal, .. } => (*code, *signal),
        WaitOutcome::Failed(_) => (None, None),
    };
    let success = exit_ok && !cancelled && finalize_error.is_none();
    let code: &'static str = match &wait {
        WaitOutcome::Failed(e) => e.code,
        WaitOutcome::Exited { .. } => if cancelled {
            JOB_CANCELLED
        } else {
            match &finalize_error {
                Some(f) => f.code,
                None => if exit_ok {
                    JOB_COMPLETE
                } else {
                    JOB_FAILED
                },
            }
        },
    };
    let message: Option<String> = match &wait {
        WaitOutcome::Failed(e) => Some(
            String::from_str("ffmpeg wait error: ").concat(e.message.as_str()),
        ),
        WaitOutcome::Exited { code: c, .. } => match &finalize_error {
            Some(f) => Some(f.message.clone()),
            None => if !success && !cancelled {
                match c {
                    Some(x) => Some(exit_message_text(*x)),
                    None => None,
                }
            } else {
                None
            },
        },
    };
    let progress = match &wait {
        WaitOutcome::Failed(_) => match &message {
            Some(m) => Some(ProgressPayload { job_id: String::from_str(job_id), progress: None, raw: m.clone() }),
            None => None,
        },
        WaitOutcome::Exited { .. } => None,
    };
    match &message {
        Some(m) => process.push_log(m.as_str()),
        None => {},
    }
    let logs = process.drain_logs();
    process.set_exclusive(false);
    let payload = CompletionPayload {
        job_id: String::from_str(job_id),
        success,
        cancelled,
        exit_code,
        signal,
        code: String::from_str(code),
        message,
        logs,
    };
    (payload, progress)
}

} // verus!
