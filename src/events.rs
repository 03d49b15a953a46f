//! Payloads of the events a job emits while it runs and when it ends.
use crate::progress::ProgressMetrics;
use vstd::prelude::*;

verus! {

/// One progress update: the metrics recognised on a diagnostic line, and the line.
#[derive(Debug, Clone)]
pub struct ProgressPayload {
    pub job_id: String,
    pub progress: Option<ProgressMetrics>,
    pub raw: String,
}

/// The final event of a job.
#[derive(Debug, Clone)]
pub struct CompletionPayload {
    pub job_id: String,
    pub success: bool,
    pub cancelled: bool,
    pub exit_code: Option<i32>,
    pub signal: Option<i32>,
    pub code: String,
    pub message: Option<String>,
    pub logs: Vec<String>,
}

} // verus!
