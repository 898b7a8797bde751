//! Fire-and-forget ledger of named background jobs.
//!
//! A caller `start`s a named job, hands the actual unit of work to whatever
//! thread runs it, and observes completion by polling: `poll` never blocks
//! and never requires a started job to still be running.  The worker
//! reports its terminal state through `complete`; a later `start` of the
//! same name overwrites the old record, so the ledger holds at most one
//! entry per name.

use vstd::prelude::*;

verus! {

/// Status of a named background job.
#[derive(Clone, Debug)]
pub enum JobStatus {
    /// Never started, or started and still running.
    Pending,
    /// Finished with the given detail.
    Succeeded(String),
    /// Finished with the given reason.
    Failed(String),
}

/// Mathematical shape of a job status.
pub enum JobOutcome {
    Pending,
    Succeeded(Seq<char>),
    Failed(Seq<char>),
}

impl View for JobStatus {
    type V = JobOutcome;

    open spec fn view(&self) -> JobOutcome {
        match self {
            JobStatus::Pending => JobOutcome::Pending,
            JobStatus::Succeeded(d) => JobOutcome::Succeeded(d@),
            JobStatus::Failed(r) => JobOutcome::Failed(r@),
        }
    }
}

/// The job ledger: at most one record per job name.
pub struct AsyncJobTracker {
    jobs: Vec<(String, JobStatus)>,
}

impl AsyncJobTracker {
    /// Well-formed: job names are unique, so each name has one record.
    pub closed spec fn wf(&self) -> bool {
        forall|i: int, j: int|
            0 <= i < j < self.jobs@.len() ==> self.jobs@[i].0@ != self.jobs@[j].0@
    }

    /// Whether some record exists for `name`.
    pub closed spec fn has_job(&self, name: Seq<char>) -> bool {
        exists|i: int| 0 <= i < self.jobs@.len() && self.jobs@[i].0@ == name
    }

    spec fn job_index(&self, name: Seq<char>) -> int {
        choose|i: int| 0 <= i < self.jobs@.len() && self.jobs@[i].0@ == name
    }

    /// The status recorded for `name`; a job never started is `Pending`.
    pub closed spec fn status_of(&self, name: Seq<char>) -> JobOutcome {
        if self.has_job(name) {
            self.jobs@[self.job_index(name)].1@
        } else {
            JobOutcome::Pending
        }
    }

    proof fn lemma_job_index_is(&self, name: Seq<char>, i: int)
        requires
            self.wf(),
            0 <= i < self.jobs@.len(),
            self.jobs@[i].0@ == name,
        ensures
            self.has_job(name),
            self.job_index(name) == i,
            self.status_of(name) == self.jobs@[i].1@,
    {
        assert(self.has_job(name));
        let j = self.job_index(name);
        assert(0 <= j < self.jobs@.len() && self.jobs@[j].0@ == name);
        if i < j {
            assert(self.jobs@[i].0@ != self.jobs@[j].0@);
        } else if j < i {
            assert(self.jobs@[j].0@ != self.jobs@[i].0@);
        }
    }

    /// A fresh ledger: every name polls as `Pending`.
    pub fn new() -> (r: AsyncJobTracker)
        ensures
            r.wf(),
            forall|n: Seq<char>| r.status_of(n) == JobOutcome::Pending,
    {
        let r = AsyncJobTracker { jobs: Vec::new() };
        proof {
            assert(forall|n: Seq<char>| !r.has_job(n));
        }
        r
    }

    /// Records `status` for `name`, replacing any prior record.
    fn set_status(&mut self, name: String, status: JobStatus)
        requires
            old(self).wf(),
        ensures
            final(self).wf(),
            final(self).status_of(name@) == status@,
            forall|n: Seq<char>|
                n != name@ ==> final(self).status_of(n) == old(self).status_of(n),
    {
        let ghost orig = self.jobs@;
        let n = self.jobs.len();
        let mut i: usize = 0;
        while i < n
            invariant
                0 <= i <= n,
                n == self.jobs@.len(),
                self.jobs@ == orig,
                old(self).jobs@ == orig,
                old(self).wf(),
                forall|j: int| 0 <= j < i ==> orig[j].0@ != name@,
            decreases n - i,
        {
            if self.jobs[i].0 == name {
                let ghost idx = i as int;
                self.jobs[i] = (name, status);
                proof {
                    assert(self.jobs@ =~= orig.update(idx, self.jobs@[idx]));
                    assert(self.jobs@[idx].0@ == name@);
                    assert forall|a: int, b: int|
                        0 <= a < b < self.jobs@.len() implies self.jobs@[a].0@
                        != self.jobs@[b].0@ by {
                        assert(self.jobs@[a].0@ == orig[a].0@);
                        assert(self.jobs@[b].0@ == orig[b].0@);
                    }
                    self.lemma_job_index_is(name@, idx);
                    assert forall|n2: Seq<char>| n2 != name@ implies self.status_of(n2) == old(
                        self,
                    ).status_of(n2) by {
                        assert(forall|j: int|
                            0 <= j < self.jobs@.len() ==> self.jobs@[j].0@ == orig[j].0@);
                        if old(self).has_job(n2) {
                            let j = old(self).job_index(n2);
                            assert(orig[j].0@ == n2);
                            assert(j != idx);
                            old(self).lemma_job_index_is(n2, j);
                            self.lemma_job_index_is(n2, j);
                            assert(self.jobs@[j].1@ == orig[j].1@);
                        } else {
                            assert(!self.has_job(n2));
                        }
                    }
                }
                return ;
            }
            i = i + 1;
        }
        let ghost st = status@;
        self.jobs.push((name, status));
        proof {
            let len = orig.len() as int;
            assert(self.jobs@ == orig.push(self.jobs@[len]));
            assert(self.jobs@[len].0@ == name@);
            assert(self.jobs@[len].1@ == st);
            assert(forall|j: int| 0 <= j < len ==> self.jobs@[j] == orig[j]);
            assert(forall|j: int| 0 <= j < len ==> orig[j].0@ != name@);
            assert forall|a: int, b: int|
                0 <= a < b < self.jobs@.len() implies self.jobs@[a].0@ != self.jobs@[b].0@ by {
                if b < len {
                    assert(orig[a].0@ != orig[b].0@);
                } else {
                    assert(self.jobs@[b].0@ == name@);
                    assert(self.jobs@[a].0@ != name@);
                }
            }
            self.lemma_job_index_is(name@, len);
            assert forall|n2: Seq<char>| n2 != name@ implies self.status_of(n2) == old(
                self,
            ).status_of(n2) by {
                if old(self).has_job(n2) {
                    let j = old(self).job_index(n2);
                    old(self).lemma_job_index_is(n2, j);
                    self.lemma_job_index_is(n2, j);
                } else {
                    assert(!self.has_job(n2)) by {
                        if self.has_job(n2) {
                            let j = self.job_index(n2);
                            assert(0 <= j < self.jobs@.len() && self.jobs@[j].0@ == n2);
                            assert(j != len);
                            assert(old(self).has_job(n2));
                        }
                    }
                }
            }
        }
    }

    /// Starts (or restarts) the named job: its status becomes `Pending` at
    /// once, overwriting any prior terminal status of the same name.  The
    /// unit of work itself runs outside this ledger and reports through
    /// [`AsyncJobTracker::complete`].
    pub fn start(&mut self, name: String)
        requires
            old(self).wf(),
        ensures
            final(self).wf(),
            final(self).status_of(name@) == JobOutcome::Pending,
            forall|n: Seq<char>|
                n != name@ ==> final(self).status_of(n) == old(self).status_of(n),
    {
        self.set_status(name, JobStatus::Pending);
    }

    /// The worker's single terminal write: records success with its detail
    /// or failure with its reason.
    pub fn complete(&mut self, name: String, outcome: Result<String, String>)
        requires
            old(self).wf(),
        ensures
            final(self).wf(),
            final(self).status_of(name@) == match outcome {
                Ok(d) => JobOutcome::Succeeded(d@),
                Err(r) => JobOutcome::Failed(r@),
            },
            forall|n: Seq<char>|
                n != name@ ==> final(self).status_of(n) == old(self).status_of(n),
    {
        match outcome {
            Ok(detail) => self.set_status(name, JobStatus::Succeeded(detail)),
            Err(reason) => self.set_status(name, JobStatus::Failed(reason)),
        }
    }

    /// Non-blocking read of the named job's status: `Pending` if never
    /// started or still running, else the terminal status the worker wrote.
    pub fn poll(&self, name: &String) -> (r: JobStatus)
        requires
            self.wf(),
        ensures
            r@ == self.status_of(name@),
    {
        let n = self.jobs.len();
        let mut i: usize = 0;
        while i < n
            invariant
                0 <= i <= n,
                n == self.jobs@.len(),
                self.wf(),
                forall|j: int| 0 <= j < i ==> self.jobs@[j].0@ != name@,
            decreases n - i,
        {
            if self.jobs[i].0 == *name {
                proof {
                    self.lemma_job_index_is(name@, i as int);
                }
                let r = match &self.jobs[i].1 {
                    JobStatus::Pending => JobStatus::Pending,
                    JobStatus::Succeeded(d) => JobStatus::Succeeded(d.clone()),
                    JobStatus::Failed(e) => JobStatus::Failed(e.clone()),
                };
                return r;
            }
            i = i + 1;
        }
        proof {
            assert(!self.has_job(name@));
        }
        JobStatus::Pending
    }
}

} // verus!
