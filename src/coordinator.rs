//! The façade that admits, starts, cancels and retires jobs.
use crate::concurrency::ConcurrencyManager;
use crate::error::{AppError, JOB_INVALID_ARGS};
use crate::registry::{
    Admission, EntryView, JobRecord, JobRegistry, admission, admission_code, has_id,
};
use crate::validator::{JobValidator, args_acceptable, texts};
use vstd::prelude::*;

verus! {

/// The outside work behind a job, supplied by the embedding application (or
/// by a test double): locating the converter binary, preparing the output
/// location, starting the process, and stopping it.
pub trait SpawnController<H> {
    /// The converter's executable path.
    fn resolve_ffmpeg(&self) -> Result<String, AppError>;

    /// Creates the output's directories and probes that the temporary path is
    /// writable; returns the final and temporary paths.
    fn prepare_output(&self, output_path: &str, exclusive: bool) -> Result<(String, String), AppError>;

    /// Starts the converter with `args` followed by `temp_output`.
    fn spawn_job(&self, ffmpeg_path: String, args: &[String], temp_output: &str) -> Result<H, AppError>;

    /// Marks the process cancelled and stops it; `false` when its handle has
    /// already been taken by the supervising task.
    fn cancel_process(&self, process: &H) -> Result<bool, AppError>;

    /// Removes a temporary output file, ignoring failure.
    fn cleanup_temp(&self, temp_path: &str);
}

/// Of two back-to-back `start_job` calls with one id, when the first succeeds
/// (leaving `after` as its `start_job` postcondition describes) the second is
/// refused as a duplicate, whatever its flags and the ceiling.
pub proof fn lemma_back_to_back_starts(
    before: Seq<EntryView>,
    after: Seq<EntryView>,
    id: Seq<char>,
    exclusive: bool,
    limit: usize,
    exclusive2: bool,
    limit2: usize,
)
    requires
        admission(before, id, exclusive, limit) == Admission::Admitted,
        after.len() == before.len() + 1,
        after.subrange(0, before.len() as int) == before,
        after.last().0 == id,
        after.last().1 == exclusive,
    ensures
        admission(after, id, exclusive2, limit2) == Admission::AlreadyRunning,
        admission_code(admission(after, id, exclusive2, limit2)) == crate::error::JOB_ALREADY_RUNNING,
{
    assert(after =~= before.push(after.last()));
    crate::registry::lemma_duplicate_id_refused(before, after.last(), limit, exclusive2, limit2);
}

/// Ties validation, admission, the concurrency ceiling and the registry of
/// active jobs to the outside work of a `SpawnController`.
pub struct JobCoordinator<H, S: SpawnController<H>> {
    registry: JobRegistry<H>,
    concurrency: ConcurrencyManager,
    spawner: S,
}

impl<H, S: SpawnController<H>> JobCoordinator<H, S> {
    /// The active jobs.
    pub closed spec fn entries(&self) -> Seq<EntryView> {
        self.registry.entries()
    }

    /// The concurrency ceiling in force.
    pub closed spec fn limit(&self) -> nat {
        self.concurrency.limit()
    }

    pub closed spec fn wf(&self) -> bool {
        self.registry.wf()
    }

    /// A coordinator with no active job and the default ceiling.
    pub fn with_spawner(spawner: S) -> (r: JobCoordinator<H, S>)
        ensures
            r.wf(),
            r.entries() == Seq::<EntryView>::empty(),
            r.limit() == crate::concurrency::DEFAULT_CONCURRENCY,
    {
        JobCoordinator { registry: JobRegistry::new(), concurrency: ConcurrencyManager::new(), spawner }
    }

    /// The registry of active jobs.
    pub fn registry(&self) -> (r: &JobRegistry<H>)
        ensures
            r.entries() == self.entries(),
            self.wf() ==> r.wf(),
    {
        &self.registry
    }

    /// Starts a job: validates the arguments, applies the admission rules,
    /// then locates the binary, prepares the output, spawns the process and
    /// registers it. Nothing is started when validation or admission fails,
    /// and the registry changes only when the job is registered.
    pub fn start_job(&mut self, job_id: String, args: Vec<String>, output_path: String, exclusive: bool) -> (r: Result<(), AppError>)
        requires
            old(self).wf(),
        ensures
            final(self).wf(),
            final(self).limit() == old(self).limit(),
            !args_acceptable(texts(args@)) ==> (r matches Err(e) && e.code == JOB_INVALID_ARGS),
            args_acceptable(texts(args@)) && admission(old(self).entries(), job_id@, exclusive, old(self).limit() as usize) != Admission::Admitted
                ==> (r matches Err(e) && e.code == admission_code(admission(old(self).entries(), job_id@, exclusive, old(self).limit() as usize))),
            r is Ok ==> args_acceptable(texts(args@)) && admission(old(self).entries(), job_id@, exclusive, old(self).limit() as usize) == Admission::Admitted,
            r is Ok ==> final(self).entries().len() == old(self).entries().len() + 1
                && final(self).entries().subrange(0, old(self).entries().len() as int) == old(self).entries()
                && final(self).entries().last().0 == job_id@
                && final(self).entries().last().1 == exclusive,
            r is Err ==> final(self).entries() == old(self).entries(),
    {
        let validator = JobValidator::new();
        match validator.validate_args(args.as_slice()) {
            Err(e) => { return Err(e); },
            Ok(_) => {},
        }
        let limit = self.concurrency.get_limit();
        match self.registry.check_admission(job_id.as_str(), exclusive, limit) {
            Err(e) => { return Err(e); },
            Ok(()) => {},
        }
        let ffmpeg_path = match self.spawner.resolve_ffmpeg() {
            Err(e) => { return Err(e); },
            Ok(p) => p,
        };
        let (final_path, temp_path) = match self.spawner.prepare_output(output_path.as_str(), exclusive) {
            Err(e) => { return Err(e); },
            Ok(paths) => paths,
        };
        let process = match self.spawner.spawn_job(ffmpeg_path, args.as_slice(), temp_path.as_str()) {
            Err(e) => { return Err(e); },
            Ok(h) => h,
        };
        let record = JobRecord::new(process, final_path, temp_path, exclusive);
        let r = self.registry.register(job_id, record, limit);
        proof {
            if r is Ok {
                assert(self.entries().subrange(0, old(self).entries().len() as int) =~= old(self).entries());
            }
        }
        r
    }

    /// Cancels the job `job_id`: `Ok(false)` with nothing changed when it is not
    /// active; otherwise hands the registered handle to the spawner to stop the
    /// process and concludes with its answer (`conclude_cancel`), removing the
    /// temporary file of a stopped job.
    pub fn cancel_job(&mut self, job_id: &str) -> (r: Result<bool, AppError>)
        where H: Clone
        requires
            old(self).wf(),
        ensures
            final(self).wf(),
            final(self).limit() == old(self).limit(),
            !has_id(old(self).entries(), job_id@) ==> r == Ok::<bool, AppError>(false)
                && final(self).entries() == old(self).entries(),
            r != Ok::<bool, AppError>(true) ==> final(self).entries() == old(self).entries(),
            r == Ok::<bool, AppError>(true) ==> !has_id(final(self).entries(), job_id@)
                && exists|i: int| 0 <= i < old(self).entries().len() && old(self).entries()[i].0 == job_id@
                    && final(self).entries() == old(self).entries().remove(i),
    {
        let snapshot = match self.registry.snapshot(job_id) {
            None => { return Ok(false); },
            Some(s) => s,
        };
        let stopped = self.spawner.cancel_process(&snapshot.process);
        let (r, temp) = self.conclude_cancel(job_id, stopped);
        match temp {
            Some(t) => self.spawner.cleanup_temp(t.as_str()),
            None => {},
        }
        r
    }

    /// Concludes the cancellation of the job `job_id` once the spawner has
    /// answered `stopped`: on `Ok(true)` the job is deregistered and its
    /// temporary path returned, to be removed; on any other answer nothing
    /// changes. The answer is handed back as the result.
    pub fn conclude_cancel(&mut self, job_id: &str, stopped: Result<bool, AppError>) -> (r: (
        Result<bool, AppError>,
        Option<String>,
    ))
        requires
            old(self).wf(),
        ensures
            final(self).wf(),
            final(self).limit() == old(self).limit(),
            r.0 == stopped,
            stopped != Ok::<bool, AppError>(true) ==> r.1 is None && final(self).entries()
                == old(self).entries(),
            stopped == Ok::<bool, AppError>(true) && !has_id(old(self).entries(), job_id@) ==> r.1 is None
                && final(self).entries() == old(self).entries(),
            stopped == Ok::<bool, AppError>(true) && has_id(old(self).entries(), job_id@) ==> exists|i: int|
                0 <= i < old(self).entries().len() && old(self).entries()[i].0 == job_id@
                    && final(self).entries() == old(self).entries().remove(i)
                    && (r.1 matches Some(t) && t@ == old(self).entries()[i].3),
            stopped == Ok::<bool, AppError>(true) ==> !has_id(final(self).entries(), job_id@),
    {
        match stopped {
            Ok(true) => match self.registry.remove(job_id) {
                Some(rec) => (Ok(true), Some(rec.temp_path)),
                None => (Ok(true), None),
            },
            other => (other, None),
        }
    }

    /// Deregisters the job `job_id` once its completion has been handled.
    pub fn finish_job(&mut self, job_id: &str) -> (r: Option<JobRecord<H>>)
        requires
            old(self).wf(),
        ensures
            final(self).wf(),
            final(self).limit() == old(self).limit(),
            r is Some <==> has_id(old(self).entries(), job_id@),
            !has_id(final(self).entries(), job_id@),
            r is None ==> final(self).entries() == old(self).entries(),
            r is Some ==> exists|i: int|
                0 <= i < old(self).entries().len() && old(self).entries()[i].0 == job_id@
                    && final(self).entries() == old(self).entries().remove(i),
    {
        self.registry.remove(job_id)
    }

    /// Sets the concurrency ceiling; zero acts as one.
    pub fn set_max_concurrency(&mut self, limit: usize)
        ensures
            final(self).limit() == (if limit == 0 { 1 } else { limit as nat }),
            final(self).entries() == old(self).entries(),
            final(self).wf() == old(self).wf(),
    {
        self.concurrency.set_limit(limit);
    }

    /// The concurrency ceiling in force.
    pub fn max_concurrency(&self) -> (r: usize)
        ensures
            r == self.limit(),
    {
        self.concurrency.get_limit()
    }
}

} // verus!
