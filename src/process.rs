//! The mutable state of one running job: its cancellation and exclusivity
//! flags and a bounded log of its most recent diagnostic lines.
use crate::events::ProgressPayload;
use crate::progress::{parse_progress_line, progress_of};
use std::collections::VecDeque;
use vstd::prelude::*;

verus! {

/// The number of log lines a job keeps.
pub const LOG_CAPACITY: usize = 500;

/// `logs` after appending `line`, the oldest line evicted when the log is full.
pub open spec fn push_bounded(logs: Seq<Seq<char>>, line: Seq<char>) -> Seq<Seq<char>> {
    if logs.len() >= LOG_CAPACITY {
        logs.drop_first().push(line)
    } else {
        logs.push(line)
    }
}

/// `logs` after pushing each of `lines` in turn.
pub open spec fn push_all(logs: Seq<Seq<char>>, lines: Seq<Seq<char>>) -> Seq<Seq<char>>
    decreases lines.len(),
{
    if lines.len() == 0 {
        logs
    } else {
        push_all(push_bounded(logs, lines[0]), lines.drop_first())
    }
}

/// The last `n` items of `s`, or all of them when there are fewer.
pub open spec fn last_n<T>(s: Seq<T>, n: nat) -> Seq<T> {
    if s.len() <= n {
        s
    } else {
        s.subrange(s.len() - n, s.len() as int)
    }
}

proof fn lemma_last_n_absorbs<T>(a: Seq<T>, b: Seq<T>, n: nat)
    ensures
        last_n(last_n(a, n) + b, n) == last_n(a + b, n),
{
    if a.len() > n {
        let c = last_n(a, n) + b;
        let d = a + b;
        if c.len() <= n {
            assert(b.len() == 0);
            assert(c =~= d.subrange(d.len() - n, d.len() as int));
        } else {
            assert(c.subrange(c.len() - n, c.len() as int) =~= d.subrange(
                d.len() - n,
                d.len() as int,
            ));
        }
    }
}

/// Pushing any sequence of lines onto a log of at most `LOG_CAPACITY` lines
/// leaves exactly the most recent `LOG_CAPACITY` of all lines, in order.
pub proof fn lemma_log_keeps_most_recent(logs: Seq<Seq<char>>, lines: Seq<Seq<char>>)
    requires
        logs.len() <= LOG_CAPACITY,
    ensures
        push_all(logs, lines) == last_n(logs + lines, LOG_CAPACITY as nat),
    decreases lines.len(),
{
    if lines.len() == 0 {
        assert(logs + lines =~= logs);
    } else {
        let first = lines[0];
        let rest = lines.drop_first();
        let next = push_bounded(logs, first);
        assert(next == last_n(logs.push(first), LOG_CAPACITY as nat)) by {
            if logs.len() >= LOG_CAPACITY {
                assert(logs.drop_first().push(first) =~= logs.push(first).subrange(
                    logs.push(first).len() - LOG_CAPACITY,
                    logs.push(first).len() as int,
                ));
            }
        }
        lemma_log_keeps_most_recent(next, rest);
        lemma_last_n_absorbs(logs.push(first), rest, LOG_CAPACITY as nat);
        assert(logs.push(first) + rest =~= logs + lines);
    }
}

/// State of an active job, shared by its supervising task and by cancellation.
pub struct RunningProcess {
    cancelled: bool,
    exclusive: bool,
    logs: VecDeque<String>,
}

impl RunningProcess {
    /// The retained log lines, oldest first.
    pub closed spec fn log_view(&self) -> Seq<Seq<char>> {
        self.logs@.map_values(|s: String| s@)
    }

    pub closed spec fn cancelled_view(&self) -> bool {
        self.cancelled
    }

    pub closed spec fn exclusive_view(&self) -> bool {
        self.exclusive
    }

    /// The log never holds more than `LOG_CAPACITY` lines.
    pub open spec fn wf(&self) -> bool {
        self.log_view().len() <= LOG_CAPACITY
    }

    /// A job that is not cancelled and has logged nothing.
    pub fn new(exclusive: bool) -> (r: RunningProcess)
        ensures
            r.wf(),
            !r.cancelled_view(),
            r.exclusive_view() == exclusive,
            r.log_view() == Seq::<Seq<char>>::empty(),
    {
        let r = RunningProcess { cancelled: false, exclusive, logs: VecDeque::new() };
        assert(r.log_view() =~= Seq::<Seq<char>>::empty());
        r
    }

    pub fn set_exclusive(&mut self, exclusive: bool)
        ensures
            final(self).exclusive_view() == exclusive,
            final(self).cancelled_view() == old(self).cancelled_view(),
            final(self).log_view() == old(self).log_view(),
            final(self).wf() == old(self).wf(),
    {
        self.exclusive = exclusive;
    }

    pub fn is_exclusive(&self) -> (r: bool)
        ensures
            r == self.exclusive_view(),
    {
        self.exclusive
    }

    /// Records a cancellation request; it stays recorded.
    pub fn mark_cancelled(&mut self)
        ensures
            final(self).cancelled_view(),
            final(self).exclusive_view() == old(self).exclusive_view(),
            final(self).log_view() == old(self).log_view(),
            final(self).wf() == old(self).wf(),
    {
        self.cancelled = true;
    }

    pub fn is_cancelled(&self) -> (r: bool)
        ensures
            r == self.cancelled_view(),
    {
        self.cancelled
    }

    /// Appends a line to the log, evicting the oldest once `LOG_CAPACITY` are held.
    pub fn push_log(&mut self, line: &str)
        requires
            old(self).wf(),
        ensures
            final(self).wf(),
            final(self).log_view() == push_bounded(old(self).log_view(), line@),
            final(self).cancelled_view() == old(self).cancelled_view(),
            final(self).exclusive_view() == old(self).exclusive_view(),
    {
        let ghost before = self.logs@;
        if self.logs.len() >= LOG_CAPACITY {
            self.logs.pop_front();
        }
        let ghost mid = self.logs@;
        self.logs.push_back(line.to_owned());
        proof {
            if before.len() >= LOG_CAPACITY {
                assert(mid =~= before.drop_first());
                assert(self.logs@.map_values(|s: String| s@) =~= before.map_values(
                    |s: String| s@,
                ).drop_first().push(line@));
            } else {
                assert(self.logs@.map_values(|s: String| s@) =~= before.map_values(
                    |s: String| s@,
                ).push(line@));
            }
        }
    }

    /// Takes every retained line, oldest first, leaving the log empty.
    pub fn drain_logs(&mut self) -> (r: Vec<String>)
        requires
            old(self).wf(),
        ensures
            final(self).wf(),
            r@.map_values(|s: String| s@) == old(self).log_view(),
            r@.len() == old(self).log_view().len(),
            final(self).log_view() == Seq::<Seq<char>>::empty(),
            final(self).cancelled_view() == old(self).cancelled_view(),
            final(self).exclusive_view() == old(self).exclusive_view(),
    {
        let ghost all = self.logs@;
        let mut out: Vec<String> = Vec::new();
        while self.logs.len() > 0
            invariant
                all == out@ + self.logs@,
                self.cancelled == old(self).cancelled,
                self.exclusive == old(self).exclusive,
                all == old(self).logs@,
            decreases self.logs@.len(),
        {
            let ghost before = self.logs@;
            match self.logs.pop_front() {
                Some(line) => {
                    out.push(line);
                    assert(all =~= out@ + self.logs@);
                },
                None => {},
            }
        }
        assert(out@ =~= all);
        assert(self.logs@.map_values(|s: String| s@) =~= Seq::<Seq<char>>::empty());
        out
    }

    /// Handles one diagnostic line of the job: logs it and returns the
    /// progress update to emit for it.
    pub fn record_line(&mut self, job_id: &str, line: String) -> (r: ProgressPayload)
        requires
            old(self).wf(),
        ensures
            final(self).wf(),
            final(self).log_view() == push_bounded(old(self).log_view(), line@),
            final(self).cancelled_view() == old(self).cancelled_view(),
            final(self).exclusive_view() == old(self).exclusive_view(),
            r.job_id@ == job_id@,
            r.raw@ == line@,
            r.progress == progress_of(line@),
    {
        self.push_log(line.as_str());
        let progress = parse_progress_line(line.as_str());
        ProgressPayload { job_id: job_id.to_owned(), progress, raw: line }
    }
}

} // verus!
