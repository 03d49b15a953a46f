//! The set of active jobs and the admission rules that guard it.
use crate::error::{AppError, JOB_ALREADY_RUNNING, JOB_CONCURRENCY_LIMIT, JOB_EXCLUSIVE_BLOCKED};
use vstd::prelude::*;
use vstd::string::*;

verus! {

/// What the registry knows of one active job: its id, whether it is
/// exclusive, its final output path and its temporary output path.
pub type EntryView = (Seq<char>, bool, Seq<char>, Seq<char>);

/// Whether some entry has the id `id`.
pub open spec fn has_id(es: Seq<EntryView>, id: Seq<char>) -> bool {
    exists|i: int| 0 <= i < es.len() && (#[trigger] es[i]).0 == id
}

/// Whether some active job is exclusive.
pub open spec fn has_exclusive(es: Seq<EntryView>) -> bool {
    exists|i: int| 0 <= i < es.len() && (#[trigger] es[i]).1
}

/// No two entries share an id.
pub open spec fn unique_ids(es: Seq<EntryView>) -> bool {
    forall|i: int, j: int| 0 <= i < j < es.len() ==> (#[trigger] es[i]).0 != (#[trigger] es[j]).0
}

/// The ceiling in force for a requested limit: never below one.
pub open spec fn effective_limit(limit: usize) -> nat {
    if limit == 0 {
        1
    } else {
        limit as nat
    }
}

/// The outcome of asking to admit a job.
#[derive(PartialEq, Eq)]
pub enum Admission {
    Admitted,
    AlreadyRunning,
    ExclusiveRequested,
    ExclusiveActive,
    AtLimit,
}

/// The admission rules, checked in this order: a duplicate id; an exclusive
/// job while others run; any job while an exclusive one runs; the ceiling.
pub open spec fn admission(es: Seq<EntryView>, id: Seq<char>, exclusive: bool, limit: usize) -> Admission {
    if has_id(es, id) {
        Admission::AlreadyRunning
    } else if exclusive && es.len() > 0 {
        Admission::ExclusiveRequested
    } else if has_exclusive(es) {
        Admission::ExclusiveActive
    } else if es.len() >= effective_limit(limit) {
        Admission::AtLimit
    } else {
        Admission::Admitted
    }
}

/// The error code reported for a refused admission.
pub open spec fn admission_code(a: Admission) -> &'static str {
    match a {
        Admission::AlreadyRunning => JOB_ALREADY_RUNNING,
        Admission::ExclusiveRequested => JOB_EXCLUSIVE_BLOCKED,
        Admission::ExclusiveActive => JOB_EXCLUSIVE_BLOCKED,
        _ => JOB_CONCURRENCY_LIMIT,
    }
}

/// Once a job is admitted under an id, a second request with the same id,
/// whatever its flags and ceiling, is refused as a duplicate.
pub proof fn lemma_duplicate_id_refused(
    es: Seq<EntryView>,
    job: EntryView,
    limit: usize,
    exclusive: bool,
    limit2: usize,
)
    requires
        admission(es, job.0, job.1, limit) == Admission::Admitted,
    ensures
        admission(es.push(job), job.0, exclusive, limit2) == Admission::AlreadyRunning,
        admission_code(admission(es.push(job), job.0, exclusive, limit2)) == JOB_ALREADY_RUNNING,
{
    assert(es.push(job)[es.len() as int].0 == job.0);
}

/// An exclusive job is refused while any other job is active, and any job is
/// refused while an exclusive job is active.
pub proof fn lemma_exclusive_blocks(es: Seq<EntryView>, id: Seq<char>, exclusive: bool, limit: usize)
    requires
        !has_id(es, id),
        (exclusive && es.len() >= 1) || has_exclusive(es),
    ensures
        admission(es, id, exclusive, limit) == Admission::ExclusiveRequested || admission(
            es,
            id,
            exclusive,
            limit,
        ) == Admission::ExclusiveActive,
        admission_code(admission(es, id, exclusive, limit)) == JOB_EXCLUSIVE_BLOCKED,
{
}

/// With ceiling `n`, a new job is admitted while fewer than `n` jobs run and
/// refused at the ceiling once `n` run; a ceiling of zero acts as one.
pub proof fn lemma_ceiling(es: Seq<EntryView>, id: Seq<char>, limit: usize)
    requires
        !has_id(es, id),
        !has_exclusive(es),
    ensures
        es.len() < effective_limit(limit) ==> admission(es, id, false, limit)
            == Admission::Admitted,
        es.len() >= effective_limit(limit) ==> admission(es, id, false, limit)
            == Admission::AtLimit,
        es.len() >= effective_limit(limit) ==> admission_code(admission(es, id, false, limit))
            == JOB_CONCURRENCY_LIMIT,
        admission(es, id, false, 0) == admission(es, id, false, 1),
{
}

/// An active job as the registry holds it; `process` is the caller's handle
/// on the running process.
pub struct JobRecord<H> {
    pub process: H,
    pub final_path: String,
    pub temp_path: String,
    pub exclusive: bool,
}

impl<H> JobRecord<H> {
    pub fn new(process: H, final_path: String, temp_path: String, exclusive: bool) -> (r:
        JobRecord<H>)
        ensures
            r.process == process,
            r.final_path == final_path,
            r.temp_path == temp_path,
            r.exclusive == exclusive,
    {
        JobRecord { process, final_path, temp_path, exclusive }
    }
}

/// What cancellation needs of an active job.
pub struct JobSnapshot<H> {
    pub process: H,
    pub temp_path: String,
}

/// The active jobs, in order of admission.
pub struct JobRegistry<H> {
    ids: Vec<String>,
    records: Vec<JobRecord<H>>,
}

pub open spec fn entry_of<H>(id: String, r: JobRecord<H>) -> EntryView {
    (id@, r.exclusive, r.final_path@, r.temp_path@)
}

impl<H> JobRegistry<H> {
    /// The active jobs, in order of admission.
    pub closed spec fn entries(&self) -> Seq<EntryView> {
        Seq::new(self.ids@.len(), |i: int| entry_of(self.ids@[i], self.records@[i]))
    }

    /// The handle that the registry holds for the `i`-th job.
    pub closed spec fn handle(&self, i: int) -> H {
        self.records@[i].process
    }

    pub closed spec fn wf(&self) -> bool {
        &&& self.ids@.len() == self.records@.len()
        &&& unique_ids(self.entries())
    }

    /// An empty registry.
    pub fn new() -> (r: JobRegistry<H>)
        ensures
            r.wf(),
            r.entries() == Seq::<EntryView>::empty(),
    {
        let r = JobRegistry { ids: Vec::new(), records: Vec::new() };
        assert(r.entries() =~= Seq::<EntryView>::empty());
        r
    }

    /// The number of active jobs.
    pub fn len(&self) -> (r: usize)
        requires
            self.wf(),
        ensures
            r == self.entries().len(),
    {
        self.ids.len()
    }

    /// The position of the job `job_id`, if it is active.
    fn position(&self, job_id: &str) -> (r: Option<usize>)
        requires
            self.wf(),
        ensures
            r is None <==> !has_id(self.entries(), job_id@),
            r matches Some(i) ==> i < self.entries().len() && self.entries()[i as int].0
                == job_id@,
    {
        let key = String::from_str(job_id);
        let mut i: usize = 0;
        while i < self.ids.len()
            invariant
                self.wf(),
                key@ == job_id@,
                i <= self.ids@.len(),
                forall|k: int| 0 <= k < i ==> (#[trigger] self.entries()[k]).0 != job_id@,
            decreases self.ids@.len() - i,
        {
            if self.ids[i] == key {
                assert(self.entries()[i as int].0 == self.ids@[i as int]@);
                return Some(i);
            }
            i = i + 1;
        }
        None
    }

    /// Whether some active job is exclusive.
    fn any_exclusive(&self) -> (r: bool)
        requires
            self.wf(),
        ensures
            r == has_exclusive(self.entries()),
    {
        let mut i: usize = 0;
        while i < self.records.len()
            invariant
                self.wf(),
                i <= self.records@.len(),
                forall|k: int| 0 <= k < i ==> !(#[trigger] self.entries()[k]).1,
            decreases self.records@.len() - i,
        {
            if self.records[i].exclusive {
                assert(self.entries()[i as int].1);
                return true;
            }
            i = i + 1;
        }
        false
    }

    /// Applies the admission rules to a job `job_id` without admitting it.
    pub fn check_admission(&self, job_id: &str, exclusive: bool, max_concurrency: usize) -> (r:
        Result<(), AppError>)
        requires
            self.wf(),
        ensures
            r is Ok <==> admission(self.entries(), job_id@, exclusive, max_concurrency)
                == Admission::Admitted,
            r matches Err(e) ==> e.code == admission_code(
                admission(self.entries(), job_id@, exclusive, max_concurrency),
            ),
    {
        if self.position(job_id).is_some() {
            let message = String::from_str("Job ").concat(job_id).concat(" is already running.");
            return Err(AppError { code: JOB_ALREADY_RUNNING, message });
        }
        if exclusive && self.ids.len() > 0 {
            return Err(
                AppError {
                    code: JOB_EXCLUSIVE_BLOCKED,
                    message: String::from_str(
                        "Exclusive job requested while other jobs are active.",
                    ),
                },
            );
        }
        if self.any_exclusive() {
            return Err(
                AppError {
                    code: JOB_EXCLUSIVE_BLOCKED,
                    message: String::from_str("Another exclusive job is currently running."),
                },
            );
        }
        let limit = if max_concurrency == 0 {
            1
        } else {
            max_concurrency
        };
        if self.ids.len() >= limit {
            return Err(
                AppError {
                    code: JOB_CONCURRENCY_LIMIT,
                    message: String::from_str("Concurrency limit reached (").concat(
                        crate::completion::u64_text(limit as u64).as_str(),
                    ).concat("); defer job start."),
                },
            );
        }
        Ok(())
    }

    /// Admits `record` as the job `job_id` if the admission rules allow it; the
    /// checks and the insertion form one step on the registry.
    pub fn register(&mut self, job_id: String, record: JobRecord<H>, max_concurrency: usize) -> (r:
        Result<(), AppError>)
        requires
            old(self).wf(),
        ensures
            final(self).wf(),
            unique_ids(final(self).entries()),
            r is Ok <==> admission(old(self).entries(), job_id@, record.exclusive, max_concurrency)
                == Admission::Admitted,
            r matches Err(e) ==> e.code == admission_code(
                admission(old(self).entries(), job_id@, record.exclusive, max_concurrency),
            ),
            r is Ok ==> final(self).entries() == old(self).entries().push(entry_of(job_id, record)),
            r is Ok ==> final(self).handle(old(self).entries().len() as int) == record.process,
            r is Ok ==> forall|i: int|
                0 <= i < old(self).entries().len() ==> final(self).handle(i) == old(self).handle(i),
            r is Err ==> final(self).entries() == old(self).entries(),
    {
        match self.check_admission(job_id.as_str(), record.exclusive, max_concurrency) {
            Err(e) => Err(e),
            Ok(()) => {
                let ghost before = self.entries();
                let ghost e = entry_of(job_id, record);
                self.ids.push(job_id);
                self.records.push(record);
                assert(self.entries() =~= before.push(e));
                assert(unique_ids(self.entries())) by {
                    assert forall|i: int, j: int|
                        0 <= i < j < self.entries().len() implies (#[trigger] self.entries()[i]).0
                        != (#[trigger] self.entries()[j]).0 by {
                        if j == before.len() {
                            assert(before[i] == self.entries()[i]);
                        } else {
                            assert(before[i] == self.entries()[i]);
                            assert(before[j] == self.entries()[j]);
                        }
                    }
                }
                Ok(())
            },
        }
    }

    /// The handle and temporary path of the job `job_id`; `None` when it is not active.
    pub fn snapshot(&self, job_id: &str) -> (r: Option<JobSnapshot<H>>) where H: Clone
        requires
            self.wf(),
        ensures
            r is Some <==> has_id(self.entries(), job_id@),
            r matches Some(s) ==> exists|i: int|
                0 <= i < self.entries().len() && self.entries()[i].0 == job_id@ && s.temp_path@
                    == self.entries()[i].3 && vstd::pervasive::cloned::<H>(self.handle(i), s.process),
    {
        match self.position(job_id) {
            None => None,
            Some(i) => {
                let rec = &self.records[i];
                let process = rec.process.clone();
                let snap = JobSnapshot { process, temp_path: rec.temp_path.clone() };
                assert(self.entries()[i as int].3 == self.records@[i as int].temp_path@);
                assert(vstd::pervasive::cloned::<H>(self.handle(i as int), snap.process));
                Some(snap)
            },
        }
    }

    /// Deregisters the job `job_id`, returning its record; nothing happens when
    /// it is not active.
    pub fn remove(&mut self, job_id: &str) -> (r: Option<JobRecord<H>>)
        requires
            old(self).wf(),
        ensures
            final(self).wf(),
            unique_ids(final(self).entries()),
            r is Some <==> has_id(old(self).entries(), job_id@),
            !has_id(final(self).entries(), job_id@),
            r is None ==> final(self).entries() == old(self).entries(),
            r matches Some(rec) ==> exists|i: int|
                0 <= i < old(self).entries().len() && old(self).entries()[i].0 == job_id@
                    && final(self).entries() == old(self).entries().remove(i) && old(
                    self,
                ).entries()[i] == (job_id@, rec.exclusive, rec.final_path@, rec.temp_path@),
    {
        match self.position(job_id) {
            None => None,
            Some(i) => {
                let ghost before = self.entries();
                let _id = self.ids.remove(i);
                let rec = self.records.remove(i);
                assert(self.entries() =~= before.remove(i as int));
                assert(unique_ids(self.entries())) by {
                    assert forall|a: int, b: int|
                        0 <= a < b < self.entries().len() implies (#[trigger] self.entries()[a]).0
                        != (#[trigger] self.entries()[b]).0 by {
                        let a2 = if a < i { a } else { a + 1 };
                        let b2 = if b < i { b } else { b + 1 };
                        assert(self.entries()[a] == before[a2]);
                        assert(self.entries()[b] == before[b2]);
                    }
                }
                assert(!has_id(self.entries(), job_id@)) by {
                    if has_id(self.entries(), job_id@) {
                        let k = choose|k: int|
                            0 <= k < self.entries().len() && (#[trigger] self.entries()[k]).0
                                == job_id@;
                        let k2 = if k < i { k } else { k + 1 };
                        assert(self.entries()[k] == before[k2]);
                    }
                }
                Some(rec)
            },
        }
    }
}

} // verus!
