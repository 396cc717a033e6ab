//! The concurrent fan-out core, as a verified state machine.
//!
//! A `Runner` holds the run's configuration: the concurrency bound, the
//! per-request timeout the HTTP client is built with, and which partition
//! of the source registry to use.  `run` lays out one task per
//! (host, source) pair and hands back a `Scheduler`, the state machine the
//! surrounding executor drives: it admits a task only while fewer than
//! `concurrency` are in flight, releases a slot whatever way a fetch
//! ended, and is done exactly when every admitted task has completed and
//! no further task may start.

use vstd::prelude::*;

use crate::error::Error;

verus! {

/// The catalogue of upstream sources, each served by one adapter.
#[derive(Clone, Copy, PartialEq, Eq, Structural, Debug)]
pub enum SourceKind {
    AnubisDb,
    CertSpotter,
    Facebook,
    PassiveTotal,
}

/// The free partition of the registry: sources needing no credentials.
pub open spec fn free_source_list() -> Seq<SourceKind> {
    seq![SourceKind::AnubisDb, SourceKind::CertSpotter]
}

/// The full registry: free and keyed sources.
pub open spec fn all_source_list() -> Seq<SourceKind> {
    seq![SourceKind::AnubisDb, SourceKind::CertSpotter, SourceKind::Facebook, SourceKind::PassiveTotal]
}

/// The partition a run selects.
pub open spec fn selected_sources(all: bool) -> Seq<SourceKind> {
    if all {
        all_source_list()
    } else {
        free_source_list()
    }
}

/// One (host, source) fetch task.
#[derive(Debug)]
pub struct Task {
    pub host: String,
    pub source: SourceKind,
}

impl View for Task {
    type V = (Seq<char>, SourceKind);

    open spec fn view(&self) -> (Seq<char>, SourceKind) {
        (self.host@, self.source)
    }
}

/// The views of a task list.
pub open spec fn task_views(ts: Seq<Task>) -> Seq<(Seq<char>, SourceKind)> {
    ts.map_values(|t: Task| t@)
}

/// One task per source for one host, in registry order.
pub open spec fn pairs_for(h: Seq<char>, srcs: Seq<SourceKind>) -> Seq<(Seq<char>, SourceKind)> {
    srcs.map_values(|k: SourceKind| (h, k))
}

/// The whole task set: every host crossed with every selected source.
pub open spec fn task_product(hosts: Seq<Seq<char>>, srcs: Seq<SourceKind>) -> Seq<
    (Seq<char>, SourceKind),
>
    decreases hosts.len(),
{
    if hosts.len() == 0 {
        Seq::empty()
    } else {
        task_product(hosts.drop_last(), srcs) + pairs_for(hosts.last(), srcs)
    }
}

/// The task set has one entry per (host, source) pair.
pub proof fn lemma_task_product_len(hosts: Seq<Seq<char>>, srcs: Seq<SourceKind>)
    ensures
        task_product(hosts, srcs).len() == hosts.len() * srcs.len(),
    decreases hosts.len(),
{
    if hosts.len() == 0 {
        assert(hosts.len() * srcs.len() == 0) by (nonlinear_arith)
            requires
                hosts.len() == 0,
        ;
    } else {
        lemma_task_product_len(hosts.drop_last(), srcs);
        assert((hosts.len() - 1) * srcs.len() + srcs.len() == hosts.len() * srcs.len())
            by (nonlinear_arith);
    }
}

/// Every task of the product mentions one of the hosts.
proof fn lemma_task_product_hosts(hosts: Seq<Seq<char>>, srcs: Seq<SourceKind>, k: int)
    requires
        0 <= k < task_product(hosts, srcs).len(),
    ensures
        hosts.contains(task_product(hosts, srcs)[k].0),
    decreases hosts.len(),
{
    let front = task_product(hosts.drop_last(), srcs);
    if k < front.len() {
        lemma_task_product_hosts(hosts.drop_last(), srcs, k);
        let h = front[k].0;
        let m = choose|m: int| 0 <= m < hosts.len() - 1 && hosts.drop_last()[m] == h;
        assert(hosts[m] == h);
    } else {
        assert(task_product(hosts, srcs)[k] == pairs_for(hosts.last(), srcs)[k - front.len()]);
        assert(hosts[hosts.len() - 1] == hosts.last());
    }
}

/// With distinct hosts and distinct sources, no (host, source) pair
/// appears twice: each pair is fetched at most once per run.
pub proof fn lemma_task_product_unique(hosts: Seq<Seq<char>>, srcs: Seq<SourceKind>)
    requires
        forall|i: int, j: int|
            0 <= i < j < hosts.len() ==> #[trigger] hosts[i] != #[trigger] hosts[j],
        forall|i: int, j: int| 0 <= i < j < srcs.len() ==> #[trigger] srcs[i] != #[trigger] srcs[j],
    ensures
        forall|i: int, j: int|
            0 <= i < j < task_product(hosts, srcs).len() ==> #[trigger] task_product(hosts, srcs)[i]
                != #[trigger] task_product(hosts, srcs)[j],
    decreases hosts.len(),
{
    if hosts.len() > 0 {
        let p = task_product(hosts, srcs);
        let front = task_product(hosts.drop_last(), srcs);
        let back = pairs_for(hosts.last(), srcs);
        lemma_task_product_unique(hosts.drop_last(), srcs);
        assert forall|i: int, j: int| 0 <= i < j < p.len() implies #[trigger] p[i]
            != #[trigger] p[j] by {
            if j < front.len() {
                assert(front[i] != front[j]);
            } else if i >= front.len() {
                assert(p[i] == back[i - front.len()]);
                assert(p[j] == back[j - front.len()]);
                assert(srcs[i - front.len()] != srcs[j - front.len()]);
            } else {
                lemma_task_product_hosts(hosts.drop_last(), srcs, i);
                let h = front[i].0;
                let m = choose|m: int| 0 <= m < hosts.len() - 1 && hosts.drop_last()[m] == h;
                assert(hosts[m] == h);
                assert(hosts[m] != hosts.last());
                assert(p[j].0 == hosts.last());
            }
        }
    }
}

/// The run configuration.  Building it never issues a request.
pub struct Runner {
    concurrency: usize,
    timeout_secs: u64,
    use_all: bool,
}

impl Default for Runner {
    /// The documented defaults: concurrency 200, a 15 second per-request
    /// timeout, and the free sources only.
    fn default() -> (r: Self)
        ensures
            r.spec_concurrency() == 200,
            r.spec_timeout() == 15,
            !r.spec_all(),
    {
        Runner { concurrency: 200, timeout_secs: 15, use_all: false }
    }
}

impl Runner {
    pub closed spec fn spec_concurrency(&self) -> usize {
        self.concurrency
    }

    pub closed spec fn spec_timeout(&self) -> u64 {
        self.timeout_secs
    }

    pub closed spec fn spec_all(&self) -> bool {
        self.use_all
    }

    /// Sets the concurrency bound.  A bound of zero could never admit a
    /// task, so it is left out.
    pub fn concurrency(self, max_concurrent: usize) -> (r: Self)
        requires
            max_concurrent >= 1,
        ensures
            r.spec_concurrency() == max_concurrent,
            r.spec_timeout() == self.spec_timeout(),
            r.spec_all() == self.spec_all(),
    {
        Runner { concurrency: max_concurrent, ..self }
    }

    /// Sets the per-request timeout, in seconds.
    pub fn timeout(self, seconds: u64) -> (r: Self)
        ensures
            r.spec_concurrency() == self.spec_concurrency(),
            r.spec_timeout() == seconds,
            r.spec_all() == self.spec_all(),
    {
        Runner { timeout_secs: seconds, ..self }
    }

    /// Selects the free partition of the registry.
    pub fn free_sources(self) -> (r: Self)
        ensures
            r.spec_concurrency() == self.spec_concurrency(),
            r.spec_timeout() == self.spec_timeout(),
            !r.spec_all(),
    {
        Runner { use_all: false, ..self }
    }

    /// Selects the whole registry, keyed sources included.
    pub fn all_sources(self) -> (r: Self)
        ensures
            r.spec_concurrency() == self.spec_concurrency(),
            r.spec_timeout() == self.spec_timeout(),
            r.spec_all(),
    {
        Runner { use_all: true, ..self }
    }

    /// The concurrency bound, for the executor and its channel capacity.
    pub fn max_concurrency(&self) -> (r: usize)
        ensures
            r == self.spec_concurrency(),
    {
        self.concurrency
    }

    /// The timeout the shared HTTP client must be built with.
    pub fn timeout_seconds(&self) -> (r: u64)
        ensures
            r == self.spec_timeout(),
    {
        self.timeout_secs
    }

    /// The selected sources, in registry order.
    pub fn sources(&self) -> (r: Vec<SourceKind>)
        ensures
            r@ == selected_sources(self.spec_all()),
    {
        let mut v: Vec<SourceKind> = Vec::new();
        v.push(SourceKind::AnubisDb);
        v.push(SourceKind::CertSpotter);
        if self.use_all {
            v.push(SourceKind::Facebook);
            v.push(SourceKind::PassiveTotal);
            proof {
                assert(v@ =~= all_source_list());
            }
        } else {
            proof {
                assert(v@ =~= free_source_list());
            }
        }
        v
    }

    /// Lays out the run: one task per (host, selected source) pair, under
    /// this configuration's concurrency bound.  Returns at once; driving
    /// the tasks is the executor's affair.
    pub fn run(&self, hosts: &Vec<String>) -> (s: Scheduler)
        requires
            self.spec_concurrency() >= 1,
        ensures
            s.wf(),
            s.spec_tasks() == task_product(hosts.deep_view(), selected_sources(self.spec_all())),
            s.spec_next() == 0,
            s.spec_in_flight() == 0,
            s.spec_completed() == 0,
            s.spec_concurrency() == self.spec_concurrency(),
            s.spec_open(),
    {
        let srcs = self.sources();
        let ghost hd = hosts.deep_view();
        let mut tasks: Vec<Task> = Vec::new();
        proof {
            assert(task_views(tasks@) =~= task_product(hd.take(0), srcs@));
        }
        let mut i: usize = 0;
        while i < hosts.len()
            invariant
                i <= hosts.len(),
                hd == hosts.deep_view(),
                srcs@ == selected_sources(self.spec_all()),
                task_views(tasks@) == task_product(hd.take(i as int), srcs@),
            decreases hosts.len() - i,
        {
            let ghost front = task_product(hd.take(i as int), srcs@);
            proof {
                assert(hd[i as int] == hosts@[i as int]@);
            }
            let mut j: usize = 0;
            while j < srcs.len()
                invariant
                    j <= srcs.len(),
                    hd == hosts.deep_view(),
                    i < hosts.len(),
                    hd[i as int] == hosts@[i as int]@,
                    srcs@ == selected_sources(self.spec_all()),
                    task_views(tasks@) == front + pairs_for(hd[i as int], srcs@.take(j as int)),
                decreases srcs.len() - j,
            {
                let t = Task { host: hosts[i].clone(), source: srcs[j] };
                proof {
                    assert(t@ == (hd[i as int], srcs@[j as int]));
                    assert(front + pairs_for(hd[i as int], srcs@.take(j + 1)) =~= (front + pairs_for(
                        hd[i as int],
                        srcs@.take(j as int),
                    )).push(t@));
                }
                tasks.push(t);
                proof {
                    assert(task_views(tasks@) =~= front + pairs_for(
                        hd[i as int],
                        srcs@.take(j + 1),
                    ));
                }
                j = j + 1;
            }
            proof {
                assert(srcs@.take(srcs.len() as int) =~= srcs@);
                assert(hd.take(i + 1).drop_last() =~= hd.take(i as int));
                assert(hd.take(i + 1).last() == hd[i as int]);
                assert(task_product(hd.take(i + 1), srcs@) == front + pairs_for(
                    hd[i as int],
                    srcs@,
                ));
            }
            i = i + 1;
        }
        proof {
            assert(hd.take(hosts.len() as int) =~= hd);
        }
        Scheduler::new(tasks, self.concurrency)
    }
}

/// The state machine of one run's fan-out.
pub struct Scheduler {
    tasks: Vec<Task>,
    next: usize,
    in_flight: usize,
    completed: usize,
    concurrency: usize,
    receiver_open: bool,
}

impl Scheduler {
    pub closed spec fn spec_tasks(&self) -> Seq<(Seq<char>, SourceKind)> {
        task_views(self.tasks@)
    }

    pub closed spec fn spec_next(&self) -> usize {
        self.next
    }

    pub closed spec fn spec_in_flight(&self) -> usize {
        self.in_flight
    }

    pub closed spec fn spec_completed(&self) -> usize {
        self.completed
    }

    pub closed spec fn spec_concurrency(&self) -> usize {
        self.concurrency
    }

    pub closed spec fn spec_open(&self) -> bool {
        self.receiver_open
    }

    /// The state invariant: tasks are admitted in order, every admitted
    /// task is in flight or completed, and never more than `concurrency`
    /// at once.
    pub open spec fn wf(&self) -> bool {
        &&& self.spec_next() <= self.spec_tasks().len()
        &&& self.spec_completed() + self.spec_in_flight() == self.spec_next()
        &&& self.spec_in_flight() <= self.spec_concurrency()
        &&& self.spec_concurrency() >= 1
    }

    /// Two schedulers agree on everything observable.
    pub open spec fn abs_eq(a: Scheduler, b: Scheduler) -> bool {
        &&& a.spec_tasks() == b.spec_tasks()
        &&& a.spec_next() == b.spec_next()
        &&& a.spec_in_flight() == b.spec_in_flight()
        &&& a.spec_completed() == b.spec_completed()
        &&& a.spec_concurrency() == b.spec_concurrency()
        &&& a.spec_open() == b.spec_open()
    }

    /// A task may start: the consumer is still listening, tasks remain,
    /// and a slot is free.
    pub open spec fn can_admit(&self) -> bool {
        self.spec_open() && self.spec_next() < self.spec_tasks().len() && self.spec_in_flight()
            < self.spec_concurrency()
    }

    /// What completing one fetch does to the state — the outcome of the
    /// fetch appears nowhere: success and every failure release the slot
    /// alike.
    pub open spec fn complete_transition(pre: Scheduler, post: Scheduler) -> bool {
        &&& post.spec_tasks() == pre.spec_tasks()
        &&& post.spec_next() == pre.spec_next()
        &&& post.spec_in_flight() == pre.spec_in_flight() - 1
        &&& post.spec_completed() == pre.spec_completed() + 1
        &&& post.spec_concurrency() == pre.spec_concurrency()
        &&& post.spec_open() == pre.spec_open()
    }

    /// How much can still happen: two steps (admit, complete) for each
    /// task not yet admitted while the consumer listens, one for each in
    /// flight.
    pub open spec fn work_remaining(&self) -> int {
        (if self.spec_open() {
            2 * (self.spec_tasks().len() - self.spec_next())
        } else {
            0
        }) + self.spec_in_flight()
    }

    /// The run is over: nothing in flight and nothing more will start.
    pub open spec fn spec_done(&self) -> bool {
        self.spec_in_flight() == 0 && (!self.spec_open() || self.spec_next()
            == self.spec_tasks().len())
    }

    /// A fresh scheduler: nothing admitted, everything pending.
    pub fn new(tasks: Vec<Task>, concurrency: usize) -> (s: Scheduler)
        requires
            concurrency >= 1,
        ensures
            s.wf(),
            s.spec_tasks() == task_views(tasks@),
            s.spec_next() == 0,
            s.spec_in_flight() == 0,
            s.spec_completed() == 0,
            s.spec_concurrency() == concurrency,
            s.spec_open(),
    {
        Scheduler {
            tasks,
            next: 0,
            in_flight: 0,
            completed: 0,
            concurrency,
            receiver_open: true,
        }
    }

    /// Admits the next task when the bound allows one, and otherwise
    /// changes nothing.  An admitted task occupies a slot until
    /// `complete` is called for it.
    pub fn try_admit(&mut self) -> (r: Option<Task>)
        requires
            old(self).wf(),
        ensures
            final(self).wf(),
            old(self).can_admit() ==> {
                &&& r matches Some(t) && t@ == old(self).spec_tasks()[old(self).spec_next() as int]
                &&& final(self).spec_tasks() == old(self).spec_tasks()
                &&& final(self).spec_next() == old(self).spec_next() + 1
                &&& final(self).spec_in_flight() == old(self).spec_in_flight() + 1
                &&& final(self).spec_completed() == old(self).spec_completed()
                &&& final(self).spec_concurrency() == old(self).spec_concurrency()
                &&& final(self).spec_open() == old(self).spec_open()
                &&& final(self).work_remaining() == old(self).work_remaining() - 1
            },
            !old(self).can_admit() ==> r is None && Self::abs_eq(*final(self), *old(self)),
    {
        if self.receiver_open && self.next < self.tasks.len() && self.in_flight < self.concurrency {
            let ghost pre = *self;
            let t = Task {
                host: self.tasks[self.next].host.clone(),
                source: self.tasks[self.next].source,
            };
            proof {
                assert(t@ == pre.spec_tasks()[pre.spec_next() as int]);
            }
            self.next = self.next + 1;
            self.in_flight = self.in_flight + 1;
            Some(t)
        } else {
            None
        }
    }

    /// Records that one in-flight fetch ended.  The outcome — success,
    /// no results, a failure of any kind — is accepted and plays no part:
    /// one task's fate never touches another's.
    pub fn complete(&mut self, _outcome: &Result<(), Error>)
        requires
            old(self).wf(),
            old(self).spec_in_flight() >= 1,
        ensures
            final(self).wf(),
            Self::complete_transition(*old(self), *final(self)),
            final(self).work_remaining() == old(self).work_remaining() - 1,
    {
        self.in_flight = self.in_flight - 1;
        self.completed = self.completed + 1;
    }

    /// The consumer dropped the result sequence: no further task is
    /// admitted; in-flight fetches still complete.
    pub fn cancel(&mut self)
        requires
            old(self).wf(),
        ensures
            final(self).wf(),
            final(self).spec_tasks() == old(self).spec_tasks(),
            final(self).spec_next() == old(self).spec_next(),
            final(self).spec_in_flight() == old(self).spec_in_flight(),
            final(self).spec_completed() == old(self).spec_completed(),
            final(self).spec_concurrency() == old(self).spec_concurrency(),
            !final(self).spec_open(),
            final(self).work_remaining() <= old(self).work_remaining(),
    {
        self.receiver_open = false;
    }

    /// Whether the run is over.
    pub fn is_done(&self) -> (r: bool)
        ensures
            r == self.spec_done(),
    {
        self.in_flight == 0 && (!self.receiver_open || self.next == self.tasks.len())
    }

    /// How many fetches are in flight right now.
    pub fn active(&self) -> (r: usize)
        ensures
            r == self.spec_in_flight(),
    {
        self.in_flight
    }

    /// How many fetches have completed.
    pub fn completed_count(&self) -> (r: usize)
        ensures
            r == self.spec_completed(),
    {
        self.completed
    }
}

/// Bounded concurrency: in every well-formed state — and every state the
/// scheduler's operations produce is well-formed — no more than
/// `concurrency` fetches are in flight.
pub proof fn lemma_bounded_concurrency(s: Scheduler)
    requires
        s.wf(),
    ensures
        s.spec_in_flight() <= s.spec_concurrency(),
{
}

/// Isolation: however a fetch ended, the scheduler after `complete` is
/// the same; one task's error or panic cannot affect the rest of the run.
pub proof fn lemma_isolation(pre: Scheduler, after_one: Scheduler, after_other: Scheduler)
    requires
        Scheduler::complete_transition(pre, after_one),
        Scheduler::complete_transition(pre, after_other),
    ensures
        Scheduler::abs_eq(after_one, after_other),
{
}

/// Termination: every admit and every completion strictly decreases
/// `work_remaining` (stated on those operations), it never goes below
/// zero, and it reaches zero exactly when the run is done — so any finite
/// task set is driven to completion in finitely many steps.
pub proof fn lemma_termination(s: Scheduler)
    requires
        s.wf(),
    ensures
        s.work_remaining() >= 0,
        (s.work_remaining() == 0) == s.spec_done(),
{
}

} // verus!
