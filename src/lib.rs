//! Job orchestration core for a desktop media converter: argument
//! validation, atomic admission of jobs under exclusivity and a concurrency
//! ceiling, live progress parsing, bounded job logs, and the completion
//! outcome of each external transcoding process. Alongside it, the pure
//! helpers of the application: the job lifecycle, capability listings,
//! subtitle classification, license keys and file-picker filters.

pub mod error;
pub mod text;
pub mod decimal;
pub mod sorted;

pub mod validator;
pub mod registry;
pub mod concurrency;
pub mod progress;
pub mod events;
pub mod process;
pub mod completion;
pub mod output;
pub mod coordinator;

pub mod binary;
pub mod capabilities;
pub mod dialogs;
pub mod job_lifecycle;
pub mod license;
pub mod probe;
