//! Job controller state: the table of background or stopped pipelines.
//! Each job holds a process-group id and its member processes with their
//! last-known status. A job is `Running` until a member stops, `Stopped`
//! until every member is resumed or has exited, and `Done` once every
//! member has exited; a finished job leaves the table when it is reaped
//! after being reported. Status changes arrive as events from the caller,
//! which collects them from the operating system.

use vstd::prelude::*;

verus! {

/// Last-known status of one member process.
#[derive(Clone, Copy, PartialEq, Eq, Structural, Debug)]
pub enum ProcState {
    Running,
    Exited(i32),
    Signaled(i32),
    Stopped,
}

/// One member process of a job.
#[derive(Clone, Copy, PartialEq, Eq, Structural, Debug)]
pub struct Proc {
    pub pid: i32,
    pub state: ProcState,
}

/// A status-change notification for one child process.
#[derive(Clone, Copy, PartialEq, Eq, Structural, Debug)]
pub enum ChildStatus {
    Exited(i32),
    Signaled(i32),
    Stopped,
    Continued,
}

/// Overall state of a job.
#[derive(Clone, Copy, PartialEq, Eq, Structural, Debug)]
pub enum JobState {
    Running,
    Stopped,
    Done,
}

/// A tracked job: its id, its process group, and its members.
#[derive(Debug)]
pub struct Job {
    pub id: u64,
    pub pgid: i32,
    pub procs: Vec<Proc>,
    pub state: JobState,
}

/// A row of the `jobs` listing.
#[derive(Clone, Copy, PartialEq, Eq, Structural, Debug)]
pub struct JobSummary {
    pub id: u64,
    pub pgid: i32,
    pub state: JobState,
}

/// Whether a member process has left the system.
pub open spec fn proc_done(p: Proc) -> bool {
    p.state is Exited || p.state is Signaled
}

/// Whether every member has left the system.
pub open spec fn procs_all_done(s: Seq<Proc>) -> bool {
    forall|i: int| 0 <= i < s.len() ==> proc_done(#[trigger] s[i])
}

/// Whether some member is stopped.
pub open spec fn procs_any_stopped(s: Seq<Proc>) -> bool {
    exists|i: int| 0 <= i < s.len() && (#[trigger] s[i]).state is Stopped
}

/// The job state its members' statuses dictate.
pub open spec fn job_state_of(s: Seq<Proc>) -> JobState {
    if procs_all_done(s) {
        JobState::Done
    } else if procs_any_stopped(s) {
        JobState::Stopped
    } else {
        JobState::Running
    }
}

/// How one member reacts to a status event: the matching live process
/// takes the new status; an already-exited member ignores the event (its
/// id may since have been reused by the system).
pub open spec fn step_proc(p: Proc, pid: i32, ev: ChildStatus) -> Proc {
    if p.pid == pid && !proc_done(p) {
        Proc {
            pid: p.pid,
            state: match ev {
                ChildStatus::Exited(c) => ProcState::Exited(c),
                ChildStatus::Signaled(s) => ProcState::Signaled(s),
                ChildStatus::Stopped => ProcState::Stopped,
                ChildStatus::Continued => ProcState::Running,
            },
        }
    } else {
        p
    }
}

/// The job table: tracked jobs and the next job id to hand out. Ids are
/// monotonic and reused only after reclamation.
pub struct JobTable {
    pub jobs: Vec<Job>,
    pub next_id: u64,
}

impl JobTable {
    /// Well-formedness: ids are unique and below the next id, every job
    /// has a member, a job's state is the one its members dictate, and
    /// process-group ids are unique among jobs still in the system.
    pub open spec fn wf(&self) -> bool {
        &&& forall|i: int, j: int|
            0 <= i < j < self.jobs@.len() ==> (#[trigger] self.jobs@[i]).id != (
            #[trigger] self.jobs@[j]).id
        &&& forall|i: int|
            0 <= i < self.jobs@.len() ==> (#[trigger] self.jobs@[i]).id < self.next_id
        &&& forall|i: int| 0 <= i < self.jobs@.len() ==> (#[trigger] self.jobs@[i]).procs@.len() > 0
        &&& forall|i: int|
            0 <= i < self.jobs@.len() ==> (#[trigger] self.jobs@[i]).state == job_state_of(
                self.jobs@[i].procs@,
            )
        &&& forall|i: int, j: int|
            0 <= i < j < self.jobs@.len() && !((#[trigger] self.jobs@[i]).state is Done) && !((
            #[trigger] self.jobs@[j]).state is Done) ==> self.jobs@[i].pgid != self.jobs@[j].pgid
    }

    /// An empty job table.
    pub fn new() -> (r: JobTable)
        ensures
            r.wf(),
            r.jobs@.len() == 0,
            r.next_id == 1u64,
    {
        JobTable { jobs: Vec::new(), next_id: 1 }
    }

    /// Registers a freshly launched background or stopped pipeline as a
    /// running job and hands out its id.
    pub fn add_job(&mut self, pgid: i32, pids: &Vec<i32>) -> (id: u64)
        requires
            old(self).wf(),
            old(self).next_id < u64::MAX,
            pids@.len() > 0,
            forall|i: int|
                0 <= i < old(self).jobs@.len() && !((#[trigger] old(self).jobs@[i]).state
                    is Done) ==> old(self).jobs@[i].pgid != pgid,
        ensures
            final(self).wf(),
            id == old(self).next_id,
            final(self).next_id == old(self).next_id + 1,
            final(self).jobs@.len() == old(self).jobs@.len() + 1,
            final(self).jobs@.drop_last() == old(self).jobs@,
            final(self).jobs@.last().id == id,
            final(self).jobs@.last().pgid == pgid,
            final(self).jobs@.last().state is Running,
            final(self).jobs@.last().procs@.len() == pids@.len(),
            forall|k: int|
                0 <= k < pids@.len() ==> (#[trigger] final(self).jobs@.last().procs@[k]) == (Proc {
                    pid: pids@[k],
                    state: ProcState::Running,
                }),
    {
        let id = self.next_id;
        let mut procs: Vec<Proc> = Vec::new();
        let n = pids.len();
        let mut k: usize = 0;
        while k < n
            invariant
                n == pids@.len(),
                k <= n,
                procs@.len() == k,
                forall|m: int|
                    0 <= m < k ==> (#[trigger] procs@[m]) == (Proc {
                        pid: pids@[m],
                        state: ProcState::Running,
                    }),
            decreases n - k,
        {
            procs.push(Proc { pid: pids[k], state: ProcState::Running });
            k = k + 1;
        }
        proof {
            assert(!proc_done(procs@[0]));
            assert(!procs_all_done(procs@));
            assert(!procs_any_stopped(procs@));
        }
        let job = Job { id, pgid, procs, state: JobState::Running };
        self.jobs.push(job);
        self.next_id = id + 1;
        proof {
            assert(final(self).jobs@.drop_last() =~= old(self).jobs@);
        }
        id
    }

    /// Applies one child-status notification: the matching live member
    /// takes the status, and each job's state follows its members.
    pub fn on_child_event(&mut self, pid: i32, ev: ChildStatus)
        requires
            old(self).wf(),
        ensures
            final(self).wf(),
            final(self).next_id == old(self).next_id,
            final(self).jobs@.len() == old(self).jobs@.len(),
            forall|j: int|
                0 <= j < old(self).jobs@.len() ==> {
                    let oldjob = #[trigger] old(self).jobs@[j];
                    let newjob = final(self).jobs@[j];
                    &&& newjob.id == oldjob.id
                    &&& newjob.pgid == oldjob.pgid
                    &&& newjob.procs@.len() == oldjob.procs@.len()
                    &&& (forall|k: int|
                        0 <= k < oldjob.procs@.len() ==> (#[trigger] newjob.procs@[k]) == step_proc(
                            oldjob.procs@[k],
                            pid,
                            ev,
                        ))
                    &&& newjob.state == job_state_of(newjob.procs@)
                },
    {
        let n = self.jobs.len();
        let mut j: usize = 0;
        while j < n
            invariant
                old(self).wf(),
                n == self.jobs@.len(),
                n == old(self).jobs@.len(),
                j <= n,
                self.next_id == old(self).next_id,
                forall|m: int| j <= m < n ==> (#[trigger] self.jobs@[m]) == old(self).jobs@[m],
                forall|m: int|
                    0 <= m < j ==> {
                        let oldjob = #[trigger] old(self).jobs@[m];
                        let newjob = self.jobs@[m];
                        &&& newjob.id == oldjob.id
                        &&& newjob.pgid == oldjob.pgid
                        &&& newjob.procs@.len() == oldjob.procs@.len()
                        &&& (forall|k: int|
                            0 <= k < oldjob.procs@.len() ==> (#[trigger] newjob.procs@[k])
                                == step_proc(oldjob.procs@[k], pid, ev))
                        &&& newjob.state == job_state_of(newjob.procs@)
                    },
            decreases n - j,
        {
            let m = self.jobs[j].procs.len();
            let mut procs: Vec<Proc> = Vec::new();
            let mut all_done = true;
            let mut any_stopped = false;
            let mut k: usize = 0;
            while k < m
                invariant
                    j < self.jobs@.len(),
                    m == self.jobs@[j as int].procs@.len(),
                    k <= m,
                    procs@.len() == k,
                    forall|x: int|
                        0 <= x < k ==> (#[trigger] procs@[x]) == step_proc(
                            self.jobs@[j as int].procs@[x],
                            pid,
                            ev,
                        ),
                    all_done == (forall|x: int| 0 <= x < k ==> proc_done(#[trigger] procs@[x])),
                    any_stopped == (exists|x: int|
                        0 <= x < k && (#[trigger] procs@[x]).state is Stopped),
                decreases m - k,
            {
                let p = self.jobs[j].procs[k];
                let q = if p.pid == pid && !(matches!(p.state, ProcState::Exited(_))
                    || matches!(p.state, ProcState::Signaled(_))) {
                    Proc {
                        pid: p.pid,
                        state: match ev {
                            ChildStatus::Exited(c) => ProcState::Exited(c),
                            ChildStatus::Signaled(s) => ProcState::Signaled(s),
                            ChildStatus::Stopped => ProcState::Stopped,
                            ChildStatus::Continued => ProcState::Running,
                        },
                    }
                } else {
                    p
                };
                let ghost procs_pre = procs@;
                procs.push(q);
                let q_done = matches!(q.state, ProcState::Exited(_)) || matches!(
                    q.state,
                    ProcState::Signaled(_),
                );
                all_done = all_done && q_done;
                any_stopped = any_stopped || matches!(q.state, ProcState::Stopped);
                proof {
                    assert(procs@[k as int] == q);
                    assert(forall|x: int| 0 <= x < k ==> procs@[x] == #[trigger] procs_pre[x]);
                    assert(q_done == proc_done(q));
                    assert(all_done == (forall|x: int|
                        0 <= x < k + 1 ==> proc_done(#[trigger] procs@[x])));
                    assert(any_stopped == (exists|x: int|
                        0 <= x < k + 1 && (#[trigger] procs@[x]).state is Stopped));
                }
                k = k + 1;
            }
            let state = if all_done {
                JobState::Done
            } else if any_stopped {
                JobState::Stopped
            } else {
                JobState::Running
            };
            proof {
                assert(state == job_state_of(procs@));
            }
            let id = self.jobs[j].id;
            let pgid = self.jobs[j].pgid;
            self.jobs[j] = Job { id, pgid, procs, state };
            j = j + 1;
        }
        proof {
            lemma_event_preserves_wf(old(self), self, pid, ev);
        }
    }

    /// The `jobs` listing: one row per tracked job, in table order.
    pub fn summaries(&self) -> (r: Vec<JobSummary>)
        ensures
            r@.len() == self.jobs@.len(),
            forall|i: int|
                0 <= i < r@.len() ==> (#[trigger] r@[i]) == (JobSummary {
                    id: self.jobs@[i].id,
                    pgid: self.jobs@[i].pgid,
                    state: self.jobs@[i].state,
                }),
    {
        let mut r: Vec<JobSummary> = Vec::new();
        let n = self.jobs.len();
        let mut i: usize = 0;
        while i < n
            invariant
                n == self.jobs@.len(),
                i <= n,
                r@.len() == i,
                forall|m: int|
                    0 <= m < i ==> (#[trigger] r@[m]) == (JobSummary {
                        id: self.jobs@[m].id,
                        pgid: self.jobs@[m].pgid,
                        state: self.jobs@[m].state,
                    }),
            decreases n - i,
        {
            let jb = &self.jobs[i];
            r.push(JobSummary { id: jb.id, pgid: jb.pgid, state: jb.state });
            i = i + 1;
        }
        r
    }

    /// The finished jobs of a job sequence, in order.
    pub open spec fn done_of(s: Seq<Job>) -> Seq<Job>
        decreases s.len(),
    {
        if s.len() == 0 {
            Seq::empty()
        } else if s.last().state is Done {
            Self::done_of(s.drop_last()).push(s.last())
        } else {
            Self::done_of(s.drop_last())
        }
    }

    /// The unfinished jobs of a job sequence, in order.
    pub open spec fn live_of(s: Seq<Job>) -> Seq<Job>
        decreases s.len(),
    {
        if s.len() == 0 {
            Seq::empty()
        } else if s.last().state is Done {
            Self::live_of(s.drop_last())
        } else {
            Self::live_of(s.drop_last()).push(s.last())
        }
    }

    /// Removes every finished job from the table, after the caller has
    /// reported it, and hands the removed jobs back in order.
    pub fn reap_done(&mut self) -> (r: Vec<Job>)
        requires
            old(self).wf(),
        ensures
            final(self).wf(),
            final(self).next_id == old(self).next_id,
            final(self).jobs@ == Self::live_of(old(self).jobs@),
            r@ == Self::done_of(old(self).jobs@),
    {
        let n = self.jobs.len();
        let mut live: Vec<Job> = Vec::new();
        let mut done: Vec<Job> = Vec::new();
        let mut rev: Vec<Job> = Vec::new();
        let ghost jobs0 = self.jobs@;
        proof {
            assert(self.jobs@ =~= jobs0.take(self.jobs@.len() as int));
            assert(rev@ =~= jobs0.skip(self.jobs@.len() as int).reverse());
        }
        while self.jobs.len() > 0
            invariant
                self.jobs@.len() <= n,
                n == jobs0.len(),
                self.jobs@ == jobs0.take(self.jobs@.len() as int),
                rev@ == jobs0.skip(self.jobs@.len() as int).reverse(),
                self.next_id == old(self).next_id,
            decreases self.jobs@.len(),
        {
            let ghost k = self.jobs@.len() as int;
            let jb = self.jobs.pop().unwrap();
            rev.push(jb);
            proof {
                assert(self.jobs@ =~= jobs0.take(k - 1));
                assert(rev@ =~= jobs0.skip(k - 1).reverse());
            }
        }
        proof {
            assert(rev@ == jobs0.skip(0).reverse());
        }
        let mut i: usize = 0;
        while i < n
            invariant
                n == jobs0.len(),
                i <= n,
                rev@ == jobs0.skip(i as int).reverse(),
                live@ == Self::live_of(jobs0.take(i as int)),
                done@ == Self::done_of(jobs0.take(i as int)),
            decreases n - i,
        {
            proof {
                assert(rev@.len() == n - i);
                assert(rev@.last() == jobs0[i as int]);
                assert(jobs0.take(i as int + 1).drop_last() =~= jobs0.take(i as int));
                assert(jobs0.take(i as int + 1).last() == jobs0[i as int]);
            }
            let jb = rev.pop().unwrap();
            proof {
                assert(rev@ =~= jobs0.skip(i as int + 1).reverse());
            }
            if matches!(jb.state, JobState::Done) {
                done.push(jb);
            } else {
                live.push(jb);
            }
            i = i + 1;
        }
        proof {
            assert(jobs0.take(n as int) =~= jobs0);
        }
        self.jobs = live;
        proof {
            lemma_live_keeps_wf_parts(jobs0, old(self).next_id);
        }
        done
    }
}

/// Every job kept by `live_of` is one of the original jobs.
proof fn lemma_live_of_contains(s: Seq<Job>, x: int)
    requires
        0 <= x < JobTable::live_of(s).len(),
    ensures
        exists|i: int|
            0 <= i < s.len() && #[trigger] s[i] == JobTable::live_of(s)[x],
    decreases s.len(),
{
    if s.len() > 0 {
        let l0 = JobTable::live_of(s.drop_last());
        if !(s.last().state is Done) && x == JobTable::live_of(s).len() - 1 {
            assert(s[s.len() - 1] == JobTable::live_of(s)[x]);
        } else {
            lemma_live_of_contains(s.drop_last(), x);
            let i = choose|i: int|
                0 <= i < s.drop_last().len() && #[trigger] s.drop_last()[i] == l0[x];
            assert(s[i] == JobTable::live_of(s)[x]);
        }
    }
}

/// The well-formedness conditions of a job table survive dropping its
/// finished jobs.
proof fn lemma_live_keeps_wf_parts(s: Seq<Job>, next_id: u64)
    requires
        forall|i: int, j: int| 0 <= i < j < s.len() ==> (#[trigger] s[i]).id != (#[trigger] s[j]).id,
        forall|i: int| 0 <= i < s.len() ==> (#[trigger] s[i]).id < next_id,
        forall|i: int| 0 <= i < s.len() ==> (#[trigger] s[i]).procs@.len() > 0,
        forall|i: int| 0 <= i < s.len() ==> (#[trigger] s[i]).state == job_state_of(s[i].procs@),
        forall|i: int, j: int|
            0 <= i < j < s.len() && !((#[trigger] s[i]).state is Done) && !((
            #[trigger] s[j]).state is Done) ==> s[i].pgid != s[j].pgid,
    ensures
        forall|i: int, j: int|
            0 <= i < j < JobTable::live_of(s).len() ==> (#[trigger] JobTable::live_of(s)[i]).id != (
            #[trigger] JobTable::live_of(s)[j]).id,
        forall|i: int|
            0 <= i < JobTable::live_of(s).len() ==> (#[trigger] JobTable::live_of(s)[i]).id
                < next_id,
        forall|i: int|
            0 <= i < JobTable::live_of(s).len() ==> (#[trigger] JobTable::live_of(s)[i]).procs@.len()
                > 0,
        forall|i: int|
            0 <= i < JobTable::live_of(s).len() ==> (#[trigger] JobTable::live_of(s)[i]).state
                == job_state_of(JobTable::live_of(s)[i].procs@),
        forall|i: int|
            0 <= i < JobTable::live_of(s).len() ==> !((#[trigger] JobTable::live_of(s)[i]).state
                is Done),
        forall|i: int, j: int|
            0 <= i < j < JobTable::live_of(s).len() ==> (#[trigger] JobTable::live_of(s)[i]).pgid
                != (#[trigger] JobTable::live_of(s)[j]).pgid,
    decreases s.len(),
{
    if s.len() > 0 {
        let s0 = s.drop_last();
        lemma_live_keeps_wf_parts(s0, next_id);
        let l0 = JobTable::live_of(s0);
        let l = JobTable::live_of(s);
        if !(s.last().state is Done) {
            assert(l == l0.push(s.last()));
            assert forall|i: int| 0 <= i < l0.len() implies (#[trigger] l0[i]).id != s.last().id
                && (!(l0[i].state is Done) ==> l0[i].pgid != s.last().pgid) by {
                lemma_live_of_contains(s0, i);
                let x = choose|x: int| 0 <= x < s0.len() && #[trigger] s0[x] == l0[i];
                assert(s[x] == l0[i]);
                assert(s[x].id != s[s.len() - 1].id);
            }
        }
    }
}

proof fn lemma_event_preserves_wf(t0: &JobTable, t1: &JobTable, pid: i32, ev: ChildStatus)
    requires
        t0.wf(),
        t1.next_id == t0.next_id,
        t1.jobs@.len() == t0.jobs@.len(),
        forall|j: int|
            0 <= j < t0.jobs@.len() ==> {
                let oldjob = #[trigger] t0.jobs@[j];
                let newjob = t1.jobs@[j];
                &&& newjob.id == oldjob.id
                &&& newjob.pgid == oldjob.pgid
                &&& newjob.procs@.len() == oldjob.procs@.len()
                &&& (forall|k: int|
                    0 <= k < oldjob.procs@.len() ==> (#[trigger] newjob.procs@[k]) == step_proc(
                        oldjob.procs@[k],
                        pid,
                        ev,
                    ))
                &&& newjob.state == job_state_of(newjob.procs@)
            },
    ensures
        t1.wf(),
{
    assert forall|j: int|
        0 <= j < t1.jobs@.len() && !((#[trigger] t1.jobs@[j]).state is Done) implies !(t0.jobs@[j].state
        is Done) by {
        if t0.jobs@[j].state is Done {
            assert(procs_all_done(t0.jobs@[j].procs@));
            assert forall|k: int| 0 <= k < t1.jobs@[j].procs@.len() implies proc_done(
                #[trigger] t1.jobs@[j].procs@[k],
            ) by {
                assert(proc_done(t0.jobs@[j].procs@[k]));
                assert(t1.jobs@[j].procs@[k] == step_proc(t0.jobs@[j].procs@[k], pid, ev));
            }
            assert(procs_all_done(t1.jobs@[j].procs@));
        }
    }
}

} // verus!
