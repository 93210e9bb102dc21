//! The upload scheduler: a pool of at most `limit` uploads in flight that
//! refills itself from the queue once it has drained below half of the limit,
//! records every result and asks for a checkpoint of the cache before each
//! refill.
//!
//! The scheduler decides; its caller performs the uploads. The caller sends
//! what [`Scheduler::new`] and [`Scheduler::harvest`] hand out, waits for
//! whichever upload finishes first, and hands the result back. Before it
//! waits it asks [`Scheduler::is_running`]; when the run has stopped it
//! calls [`Scheduler::finish`] and flushes the cache that comes back.

use crate::cache::{Cache, DataType};
use crate::run::{
    defect, gateway, initial_count, initial_state, lemma_dispatch_keeps_inv,
    lemma_initial_state_inv, lemma_settle_keeps_inv, queued_state, sound_plan, Outcome,
    SchedulerView,
};
use crate::task::{
    copy_failures, failure_views, task_ids, task_views, Completion, FailedUpload, UploadError,
    UploadTask,
};
use vstd::prelude::*;

verus! {

/// The most uploads that a run of the program keeps in flight at once.
pub const PARALLEL_LIMIT: usize = 45;

/// The retrieval link of the file stored under the transaction `id`.
pub fn gateway_link(id: &str) -> (link: String)
    ensures
        link@ == gateway() + id@,
{
    let mut link = "https://arweave.net/".to_owned();
    link.append(id);
    link
}

/// A run of uploads: the cache, the queue of tasks and the pool of uploads in
/// flight.
#[derive(Debug)]
pub struct Scheduler {
    cache: Cache,
    tasks: Vec<UploadTask>,
    kind: DataType,
    limit: usize,
    next: usize,
    in_flight: Vec<String>,
    completed: usize,
    failures: Vec<FailedUpload>,
}

/// A run that has started: the scheduler and the tasks of its first dispatch.
#[derive(Debug)]
pub struct Started {
    pub scheduler: Scheduler,
    pub dispatch: Vec<UploadTask>,
}

/// A plan that was turned down: the cache, untouched, and the reason.
#[derive(Debug)]
pub struct Rejected {
    pub cache: Cache,
    pub error: UploadError,
}

/// The end of a run: the cache, to be flushed to durable storage once more,
/// and how the run ended.
#[derive(Debug)]
pub struct Report {
    pub cache: Cache,
    pub outcome: Outcome,
}

/// What to do after a harvest: if `checkpoint` is set, first flush the cache
/// to durable storage, then send `tasks`.
#[derive(Debug)]
pub struct Refill {
    pub checkpoint: bool,
    pub tasks: Vec<UploadTask>,
}

impl View for Scheduler {
    type V = SchedulerView;

    closed spec fn view(&self) -> SchedulerView {
        SchedulerView {
            cache: self.cache.map(),
            kind: self.kind,
            limit: self.limit as nat,
            total: self.tasks@.len(),
            pending: task_views(self.tasks@).skip(self.next as int),
            in_flight: Seq::new(self.in_flight@.len(), |i: int| self.in_flight@[i]@),
            completed: self.completed as nat,
            failures: failure_views(self.failures@),
        }
    }
}

impl Scheduler {
    /// The scheduler's invariant: its cache is well-formed and its state
    /// satisfies [`SchedulerView::inv`].
    pub closed spec fn wf(&self) -> bool {
        &&& self.cache.wf()
        &&& self.next <= self.tasks@.len()
        &&& self@.inv()
    }

    /// A well-formed scheduler's state satisfies the invariant of a run.
    pub proof fn lemma_inv(&self)
        requires
            self.wf(),
        ensures
            self@.inv(),
    {
    }

    /// Whether the asset of task `i` is that of an earlier task.
    fn occurs_before(tasks: &Vec<UploadTask>, i: usize) -> (b: bool)
        requires
            i < tasks@.len(),
        ensures
            b == task_ids(task_views(tasks@).take(i as int)).contains(tasks@[i as int].asset_id@),
    {
        let ghost earlier = task_ids(task_views(tasks@).take(i as int));
        let mut j: usize = 0;
        while j < i
            invariant
                j <= i,
                i < tasks@.len(),
                earlier == task_ids(task_views(tasks@).take(i as int)),
                forall|k: int| 0 <= k < j ==> earlier[k] != tasks@[i as int].asset_id@,
            decreases i - j,
        {
            if tasks[j].asset_id == tasks[i].asset_id {
                assert(earlier[j as int] == tasks@[i as int].asset_id@);
                return true;
            }
            j += 1;
        }
        false
    }

    /// The defect of task `i`, if it has one.
    fn check_task(cache: &Cache, kind: DataType, tasks: &Vec<UploadTask>, i: usize) -> (r: Option<
        UploadError,
    >)
        requires
            i < tasks@.len(),
        ensures
            match r {
                Some(e) => defect(cache.map().dom(), kind, task_views(tasks@), i as int) == Some(e@),
                None => defect(cache.map().dom(), kind, task_views(tasks@), i as int) is None,
            },
    {
        if tasks[i].data_type != kind {
            Some(UploadError::WrongDataType(tasks[i].asset_id.clone()))
        } else if !cache.contains(tasks[i].asset_id.as_str()) {
            Some(UploadError::MissingCacheItem(tasks[i].asset_id.clone()))
        } else if Self::occurs_before(tasks, i) {
            Some(UploadError::DuplicateAsset(tasks[i].asset_id.clone()))
        } else {
            None
        }
    }

    /// Starts a run over `tasks`, which are files of kind `kind`, with at
    /// most `limit` uploads in flight. The plan is turned down with the
    /// defect of its first defective task; a sound plan is started, and its
    /// first tasks, as many as the limit allows, are handed out to be sent.
    pub fn new(cache: Cache, tasks: Vec<UploadTask>, kind: DataType, limit: usize) -> (r: Result<
        Started,
        Rejected,
    >)
        requires
            cache.wf(),
        ensures
            match r {
                Ok(started) => {
                    &&& sound_plan(cache.map().dom(), kind, task_views(tasks@))
                    &&& started.scheduler.wf()
                    &&& started.scheduler@ == initial_state(
                        cache.map(),
                        kind,
                        limit as nat,
                        task_views(tasks@),
                    )
                    &&& task_views(started.dispatch@) == task_views(tasks@).take(
                        initial_count(limit as nat, task_views(tasks@)),
                    )
                },
                Err(rejected) => {
                    &&& rejected.cache == cache
                    &&& exists|i: int|
                        0 <= i < tasks@.len() && #[trigger] defect(
                            cache.map().dom(),
                            kind,
                            task_views(tasks@),
                            i,
                        ) == Some(rejected.error@) && forall|j: int|
                            0 <= j < i ==> defect(cache.map().dom(), kind, task_views(tasks@), j)
                                is None
                },
            },
    {
        let mut i: usize = 0;
        while i < tasks.len()
            invariant
                i <= tasks@.len(),
                forall|j: int|
                    0 <= j < i ==> defect(cache.map().dom(), kind, task_views(tasks@), j) is None,
            decreases tasks@.len() - i,
        {
            match Self::check_task(&cache, kind, &tasks, i) {
                Some(error) => {
                    return Err(Rejected { cache, error });
                },
                None => {},
            }
            i += 1;
        }
        let k = if tasks.len() <= limit {
            tasks.len()
        } else {
            limit
        };
        let ghost views = task_views(tasks@);
        let ghost map = cache.map();
        let mut scheduler = Scheduler {
            cache,
            tasks,
            kind,
            limit,
            next: 0,
            in_flight: Vec::new(),
            completed: 0,
            failures: Vec::new(),
        };
        proof {
            lemma_initial_state_inv(map, kind, limit as nat, views);
            let s0 = queued_state(map, kind, limit as nat, views);
            assert(scheduler@.pending =~= s0.pending);
            assert(scheduler@.failures =~= s0.failures);
        }
        let dispatch = scheduler.dispatch(k);
        Ok(Started { scheduler, dispatch })
    }

    /// Whether the run goes on: no cancellation was seen and an upload is in
    /// flight. The caller asks before it waits for the next completion.
    pub fn is_running(&self, cancelled: bool) -> (b: bool)
        ensures
            b == (!cancelled && self@.in_flight.len() > 0),
    {
        !cancelled && self.in_flight.len() > 0
    }

    /// The cache as it stands, for a checkpoint.
    pub fn cache(&self) -> (c: &Cache)
        requires
            self.wf(),
        ensures
            c.wf(),
            c.map() == self@.cache,
    {
        &self.cache
    }

    /// The number of tasks not yet dispatched.
    pub fn pending_count(&self) -> (n: usize)
        requires
            self.wf(),
        ensures
            n == self@.pending.len(),
    {
        self.tasks.len() - self.next
    }

    /// The number of uploads in flight.
    pub fn in_flight_count(&self) -> (n: usize)
        ensures
            n == self@.in_flight.len(),
    {
        self.in_flight.len()
    }

    /// The number of uploads that succeeded.
    pub fn completed_count(&self) -> (n: usize)
        ensures
            n == self@.completed,
    {
        self.completed
    }

    /// The uploads that failed so far.
    pub fn failures(&self) -> (f: Vec<FailedUpload>)
        ensures
            failure_views(f@) == self@.failures,
    {
        copy_failures(&self.failures)
    }

    /// How the run ends if it stops now.
    pub fn outcome(&self) -> (o: Outcome)
        requires
            self.wf(),
        ensures
            o@ == self@.outcome(),
    {
        let not_started = self.tasks.len() - self.next;
        let abandoned = self.in_flight.len();
        if not_started > 0 || abandoned > 0 {
            Outcome::Aborted { failures: copy_failures(&self.failures), not_started, abandoned }
        } else if self.failures.len() > 0 {
            Outcome::Failed(copy_failures(&self.failures))
        } else {
            Outcome::Successful
        }
    }

    /// Ends the run: hands back the cache with every link that was
    /// harvested, for the final flush, and says how the run ended.
    pub fn finish(self) -> (report: Report)
        requires
            self.wf(),
        ensures
            report.cache.wf(),
            report.cache.map() == self@.cache,
            report.outcome@ == self@.outcome(),
    {
        let outcome = self.outcome();
        Report { cache: self.cache, outcome }
    }

    /// The position of `id` in the pool.
    fn flight_position(&self, id: &String) -> (r: Option<usize>)
        ensures
            match r {
                Some(p) => p < self@.in_flight.len() && self@.in_flight[p as int] == id@,
                None => !self@.in_flight.contains(id@),
            },
    {
        let mut i: usize = 0;
        while i < self.in_flight.len()
            invariant
                i <= self.in_flight@.len(),
                forall|j: int| 0 <= j < i ==> self@.in_flight[j] != id@,
            decreases self.in_flight@.len() - i,
        {
            if self.in_flight[i] == *id {
                return Some(i);
            }
            i += 1;
        }
        None
    }

    /// Records the completion of an upload and decides on a refill.
    ///
    /// A completion for an asset that is not in flight is handed back and
    /// changes nothing. Otherwise the asset leaves the pool; a success puts
    /// the file's link into the asset's cache entry, a failure is added to
    /// the list of failures. If the pool is then below half of its limit and
    /// tasks are waiting, the answer asks for a checkpoint and hands out the
    /// next tasks, at most half of the limit, in the order of the queue.
    pub fn harvest(&mut self, completion: Completion) -> (r: Result<Refill, Completion>)
        requires
            old(self).wf(),
        ensures
            final(self).wf(),
            final(self)@ == old(self)@.handed(completion@),
            match r {
                Ok(refill) => {
                    &&& old(self)@.in_flight.contains(completion@.asset_id)
                    &&& final(self)@ == old(self)@.after_harvest(completion@)
                    &&& refill.checkpoint == old(self)@.settle(completion@).wants_refill()
                    &&& task_views(refill.tasks@) == old(self)@.refill_tasks(completion@)
                },
                Err(returned) => {
                    &&& !old(self)@.in_flight.contains(completion@.asset_id)
                    &&& final(self)@ == old(self)@
                    &&& returned@ == completion@
                },
            },
    {
        let ghost before = *self;
        let ghost c = completion@;
        let p = match self.flight_position(&completion.asset_id) {
            Some(p) => p,
            None => {
                return Err(completion);
            },
        };
        proof {
            let q = before@.in_flight.index_of(c.asset_id);
            assert((before@.in_flight + task_ids(before@.pending))[q] == c.asset_id);
            assert((before@.in_flight + task_ids(before@.pending))[p as int] == c.asset_id);
            lemma_settle_keeps_inv(before@, c);
        }
        self.in_flight.remove(p);
        let Completion { asset_id, result } = completion;
        match result {
            Ok(id) => {
                let link = gateway_link(id.as_str());
                let found = self.cache.set_link(asset_id.as_str(), self.kind, link);
                assert(found);
                self.completed = self.completed + 1;
            },
            Err(reason) => {
                let mut text = "Bundlr upload error: ".to_owned();
                text.append(reason.as_str());
                self.failures.push(FailedUpload { asset_id, error: UploadError::SendDataFailed(text) });
            },
        }
        proof {
            let goal = before@.settle(c);
            assert(self@.in_flight =~= goal.in_flight);
            assert(self@.failures =~= goal.failures);
        }
        let waiting = self.tasks.len() - self.next;
        let flying = self.in_flight.len();
        if waiting > 0 && self.limit - flying > self.limit / 2 {
            let k = if waiting <= self.limit / 2 {
                waiting
            } else {
                self.limit / 2
            };
            let tasks = self.dispatch(k);
            Ok(Refill { checkpoint: true, tasks })
        } else {
            Ok(Refill { checkpoint: false, tasks: Vec::new() })
        }
    }

    /// Moves the first `k` waiting tasks into the pool and hands out copies
    /// of them to send.
    fn dispatch(&mut self, k: usize) -> (out: Vec<UploadTask>)
        requires
            old(self).wf(),
            k <= old(self)@.pending.len(),
            old(self)@.in_flight.len() + k <= old(self)@.limit,
        ensures
            final(self).wf(),
            final(self)@ == old(self)@.dispatch(k as int),
            task_views(out@) == old(self)@.pending.take(k as int),
    {
        let ghost before = *self;
        let mut out: Vec<UploadTask> = Vec::new();
        let mut i: usize = 0;
        let total = self.tasks.len();
        while i < k
            invariant
                i <= k,
                before.wf(),
                before.next + k <= total,
                total == before.tasks@.len(),
                self.cache == before.cache,
                self.tasks == before.tasks,
                self.kind == before.kind,
                self.limit == before.limit,
                self.next == before.next,
                self.completed == before.completed,
                self.failures == before.failures,
                self.in_flight@.len() == before.in_flight@.len() + i,
                forall|j: int|
                    0 <= j < before.in_flight@.len() ==> self.in_flight@[j] == before.in_flight@[j],
                forall|j: int|
                    0 <= j < i ==> (#[trigger] self.in_flight@[before.in_flight@.len() + j])@
                        == self.tasks@[self.next + j].asset_id@,
                out@.len() == i,
                forall|j: int| 0 <= j < i ==> (#[trigger] out@[j])@ == self.tasks@[self.next + j]@,
            decreases k - i,
        {
            let id = self.tasks[self.next + i].asset_id.clone();
            out.push(self.tasks[self.next + i].duplicate());
            self.in_flight.push(id);
            i += 1;
        }
        self.next = self.next + k;
        proof {
            let goal = before@.dispatch(k as int);
            let n = before.in_flight@.len() as int;
            assert(self@.pending =~= goal.pending);
            assert forall|j: int| 0 <= j < self@.in_flight.len() implies self@.in_flight[j]
                == goal.in_flight[j] by {
                if j >= n {
                    assert(self.in_flight@[n + (j - n)]@ == self.tasks@[before.next + (j - n)].asset_id@);
                }
            }
            assert(self@.in_flight =~= goal.in_flight);
            lemma_dispatch_keeps_inv(before@, k as int);
        }
        out
    }
}

} // verus!
