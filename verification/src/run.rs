//! The course of a run of uploads, as mathematics: the states of a run, the
//! steps between them, what holds of every state, and what a run leaves in
//! the cache.
//!
//! A run starts with every task waiting. As many tasks as the limit allows
//! are dispatched at once. Then completions are harvested one by one, in
//! whatever order they arrive: a success records the file's link, a failure
//! is listed, and when the pool has drained below half of the limit the next
//! tasks of the queue are dispatched, at most half of the limit at a time.

use crate::cache::{CacheItemView, DataType};
use crate::task::{
    failure_views, task_ids, CompletionView, FailedUpload, FailedUploadView, TaskView,
    UploadErrorView,
};
use vstd::prelude::*;

verus! {

/// The prefix that turns a transaction identifier into a retrieval link.
pub open spec fn gateway() -> Seq<char> {
    "https://arweave.net/"@
}

/// The text that precedes the reason of a failed upload.
pub open spec fn failure_prefix() -> Seq<char> {
    "Bundlr upload error: "@
}

/// The cache after one completion for a file of kind `kind`: a success
/// records the link of the asset's file, a failure changes nothing.
pub open spec fn record(
    cache: Map<Seq<char>, CacheItemView>,
    kind: DataType,
    c: CompletionView,
) -> Map<Seq<char>, CacheItemView> {
    match c.result {
        Ok(id) => if cache.dom().contains(c.asset_id) {
            cache.insert(c.asset_id, cache[c.asset_id].with_link(kind, gateway() + id))
        } else {
            cache
        },
        Err(_) => cache,
    }
}

/// The state of a run, as a mathematical value.
pub struct SchedulerView {
    /// The cache, as a map from asset identifier to recorded links.
    pub cache: Map<Seq<char>, CacheItemView>,
    /// The kind of file that this run uploads.
    pub kind: DataType,
    /// The most uploads that may be in flight at once.
    pub limit: nat,
    /// The number of tasks that the run started with.
    pub total: nat,
    /// The tasks not yet dispatched, next first.
    pub pending: Seq<TaskView>,
    /// The assets whose upload is in flight.
    pub in_flight: Seq<Seq<char>>,
    /// The number of uploads that succeeded.
    pub completed: nat,
    /// The uploads that failed, in the order in which they were harvested.
    pub failures: Seq<FailedUploadView>,
}

impl SchedulerView {
    /// What holds of every state of a run: the pool is within its limit, every
    /// task is accounted for exactly once, no asset is both queued and in
    /// flight or in either twice, and every outstanding asset has a cache
    /// entry.
    pub open spec fn inv(self) -> bool {
        &&& self.in_flight.len() <= self.limit
        &&& self.completed + self.failures.len() + self.in_flight.len() + self.pending.len()
            == self.total
        &&& (self.in_flight + task_ids(self.pending)).no_duplicates()
        &&& forall|i: int|
            0 <= i < self.in_flight.len() ==> self.cache.dom().contains(#[trigger] self.in_flight[i])
        &&& forall|i: int|
            0 <= i < self.pending.len() ==> self.cache.dom().contains(
                (#[trigger] self.pending[i]).asset_id,
            ) && self.pending[i].data_type == self.kind
    }

    /// The state after the first `k` pending tasks have been dispatched.
    pub open spec fn dispatch(self, k: int) -> SchedulerView {
        SchedulerView {
            pending: self.pending.skip(k),
            in_flight: self.in_flight + task_ids(self.pending.take(k)),
            ..self
        }
    }

    /// The state after the completion `c` has been recorded, before any
    /// refill.
    pub open spec fn settle(self, c: CompletionView) -> SchedulerView {
        let in_flight = self.in_flight.remove(self.in_flight.index_of(c.asset_id));
        match c.result {
            Ok(_) => SchedulerView {
                in_flight,
                cache: record(self.cache, self.kind, c),
                completed: self.completed + 1,
                ..self
            },
            Err(reason) => SchedulerView {
                in_flight,
                failures: self.failures.push(
                    FailedUploadView {
                        asset_id: c.asset_id,
                        error: UploadErrorView::SendDataFailed(failure_prefix() + reason),
                    },
                ),
                ..self
            },
        }
    }

    /// Whether the pool is to be refilled: it has drained below half of the
    /// limit and tasks are waiting.
    pub open spec fn wants_refill(self) -> bool {
        self.pending.len() > 0 && 2 * self.in_flight.len() < self.limit
    }

    /// How many tasks a refill dispatches: half of the limit, or all that
    /// are waiting if they are fewer.
    pub open spec fn refill_count(self) -> int {
        if self.pending.len() <= self.limit / 2 {
            self.pending.len() as int
        } else {
            (self.limit / 2) as int
        }
    }

    /// The tasks that the refill after `c` dispatches; none if there is no
    /// refill.
    pub open spec fn refill_tasks(self, c: CompletionView) -> Seq<TaskView> {
        let s = self.settle(c);
        if s.wants_refill() {
            s.pending.take(s.refill_count())
        } else {
            Seq::empty()
        }
    }

    /// The state after the completion `c` has been harvested: the result is
    /// recorded and, if the pool wants it, refilled.
    pub open spec fn after_harvest(self, c: CompletionView) -> SchedulerView {
        let s = self.settle(c);
        if s.wants_refill() {
            s.dispatch(s.refill_count())
        } else {
            s
        }
    }

    /// Whether work is left: a task waits or an upload is in flight.
    pub open spec fn incomplete(self) -> bool {
        self.pending.len() + self.in_flight.len() > 0
    }
}

/// Recording a completion for an in-flight asset keeps the invariant of the
/// run.
pub proof fn lemma_settle_keeps_inv(s: SchedulerView, c: CompletionView)
    requires
        s.inv(),
        s.in_flight.contains(c.asset_id),
    ensures
        s.settle(c).inv(),
        s.settle(c).pending == s.pending,
        s.settle(c).in_flight.len() + 1 == s.in_flight.len(),
        s.settle(c).cache.dom() == s.cache.dom(),
{
    let p = s.in_flight.index_of(c.asset_id);
    let t = s.settle(c);
    let whole = s.in_flight + task_ids(s.pending);
    assert(t.in_flight + task_ids(t.pending) =~= whole.remove(p));
}

/// Dispatching `k` waiting tasks into a pool that has room for them keeps the
/// invariant of the run.
pub proof fn lemma_dispatch_keeps_inv(s: SchedulerView, k: int)
    requires
        s.inv(),
        0 <= k <= s.pending.len(),
        s.in_flight.len() + k <= s.limit,
    ensures
        s.dispatch(k).inv(),
{
    let t = s.dispatch(k);
    assert(t.in_flight + task_ids(t.pending) =~= s.in_flight + task_ids(s.pending));
}

/// Harvesting the completion of an in-flight asset keeps the invariant of
/// the run: in particular the pool never exceeds its limit and no asset is
/// ever in flight twice.
pub proof fn lemma_harvest_keeps_inv(s: SchedulerView, c: CompletionView)
    requires
        s.inv(),
        s.in_flight.contains(c.asset_id),
    ensures
        s.after_harvest(c).inv(),
{
    lemma_settle_keeps_inv(s, c);
    let t = s.settle(c);
    if t.wants_refill() {
        lemma_dispatch_keeps_inv(t, t.refill_count());
    }
}

/// How a run ended.
#[derive(Clone, Debug, PartialEq, Eq)]
pub enum Outcome {
    /// Every task was uploaded.
    Successful,
    /// Every task was tried and the listed ones failed.
    Failed(Vec<FailedUpload>),
    /// The run stopped with work left: `not_started` tasks were never
    /// dispatched and `abandoned` uploads were in flight. `failures` lists
    /// what had failed until then.
    Aborted { failures: Vec<FailedUpload>, not_started: usize, abandoned: usize },
}

/// The mathematical value of an [`Outcome`].
pub enum OutcomeView {
    Successful,
    Failed(Seq<FailedUploadView>),
    Aborted { failures: Seq<FailedUploadView>, not_started: nat, abandoned: nat },
}

impl View for Outcome {
    type V = OutcomeView;

    open spec fn view(&self) -> OutcomeView {
        match self {
            Outcome::Successful => OutcomeView::Successful,
            Outcome::Failed(failures) => OutcomeView::Failed(failure_views(failures@)),
            Outcome::Aborted { failures, not_started, abandoned } => OutcomeView::Aborted {
                failures: failure_views(failures@),
                not_started: *not_started as nat,
                abandoned: *abandoned as nat,
            },
        }
    }
}

impl OutcomeView {
    /// The line that tells the user how the run ended.
    pub open spec fn message(self) -> Seq<char> {
        match self {
            OutcomeView::Successful => "Upload successful"@,
            OutcomeView::Failed(_) => "Upload failed"@,
            OutcomeView::Aborted { .. } => "Upload aborted"@,
        }
    }
}

impl Outcome {
    /// The line that tells the user how the run ended: successful, failed
    /// or aborted.
    pub fn message(&self) -> (text: &'static str)
        ensures
            text@ == self@.message(),
    {
        match self {
            Outcome::Successful => "Upload successful",
            Outcome::Failed(_) => "Upload failed",
            Outcome::Aborted { .. } => "Upload aborted",
        }
    }
}

impl SchedulerView {
    /// How a run that stops in this state ends: aborted if work is left,
    /// else failed if an upload failed, else successful.
    pub open spec fn outcome(self) -> OutcomeView {
        if self.incomplete() {
            OutcomeView::Aborted {
                failures: self.failures,
                not_started: self.pending.len(),
                abandoned: self.in_flight.len(),
            }
        } else if self.failures.len() > 0 {
            OutcomeView::Failed(self.failures)
        } else {
            OutcomeView::Successful
        }
    }
}

/// What is wrong with task `i` of a plan, if anything: it is of another kind
/// than the run, its asset has no cache entry, or its asset is that of an
/// earlier task.
pub open spec fn defect(
    cached: Set<Seq<char>>,
    kind: DataType,
    tasks: Seq<TaskView>,
    i: int,
) -> Option<UploadErrorView> {
    let t = tasks[i];
    if t.data_type != kind {
        Some(UploadErrorView::WrongDataType(t.asset_id))
    } else if !cached.contains(t.asset_id) {
        Some(UploadErrorView::MissingCacheItem(t.asset_id))
    } else if task_ids(tasks.take(i)).contains(t.asset_id) {
        Some(UploadErrorView::DuplicateAsset(t.asset_id))
    } else {
        None
    }
}

/// A plan is sound if none of its tasks has a defect.
pub open spec fn sound_plan(cached: Set<Seq<char>>, kind: DataType, tasks: Seq<TaskView>) -> bool {
    forall|i: int| 0 <= i < tasks.len() ==> defect(cached, kind, tasks, i) is None
}

/// The number of tasks that a run dispatches at its start: the limit, or all
/// tasks if they are fewer.
pub open spec fn initial_count(limit: nat, tasks: Seq<TaskView>) -> int {
    if tasks.len() <= limit {
        tasks.len() as int
    } else {
        limit as int
    }
}

/// The state of a run before anything is dispatched: every task waits.
pub open spec fn queued_state(
    cache: Map<Seq<char>, CacheItemView>,
    kind: DataType,
    limit: nat,
    tasks: Seq<TaskView>,
) -> SchedulerView {
    SchedulerView {
        cache,
        kind,
        limit,
        total: tasks.len(),
        pending: tasks,
        in_flight: Seq::empty(),
        completed: 0,
        failures: Seq::empty(),
    }
}

/// The state of a run right after its first dispatch.
pub open spec fn initial_state(
    cache: Map<Seq<char>, CacheItemView>,
    kind: DataType,
    limit: nat,
    tasks: Seq<TaskView>,
) -> SchedulerView {
    queued_state(cache, kind, limit, tasks).dispatch(initial_count(limit, tasks))
}

/// The tasks of a sound plan concern pairwise different assets.
pub proof fn lemma_sound_plan_distinct(
    cached: Set<Seq<char>>,
    kind: DataType,
    tasks: Seq<TaskView>,
)
    requires
        sound_plan(cached, kind, tasks),
    ensures
        task_ids(tasks).no_duplicates(),
{
    let ids = task_ids(tasks);
    assert forall|a: int, b: int| 0 <= a < ids.len() && 0 <= b < ids.len() && a != b implies ids[a]
        != ids[b] by {
        let (lo, hi) = if a < b { (a, b) } else { (b, a) };
        assert(defect(cached, kind, tasks, hi) is None);
        let before = task_ids(tasks.take(hi));
        assert(before[lo] == tasks[lo].asset_id);
    }
}

/// The first state of a run over a sound plan satisfies the invariant, and
/// so does the state before the first dispatch.
pub proof fn lemma_initial_state_inv(
    cache: Map<Seq<char>, CacheItemView>,
    kind: DataType,
    limit: nat,
    tasks: Seq<TaskView>,
)
    requires
        sound_plan(cache.dom(), kind, tasks),
    ensures
        queued_state(cache, kind, limit, tasks).inv(),
        initial_state(cache, kind, limit, tasks).inv(),
{
    let s0 = queued_state(cache, kind, limit, tasks);
    lemma_sound_plan_distinct(cache.dom(), kind, tasks);
    assert forall|i: int| 0 <= i < s0.pending.len() implies s0.cache.dom().contains(
        (#[trigger] s0.pending[i]).asset_id,
    ) && s0.pending[i].data_type == s0.kind by {
        assert(defect(cache.dom(), kind, tasks, i) is None);
    }
    lemma_dispatch_keeps_inv(s0, initial_count(limit, tasks));
}

impl SchedulerView {
    /// Whether the upload of the asset `id` is outstanding: in flight or
    /// waiting.
    pub open spec fn outstanding(self, id: Seq<char>) -> bool {
        self.in_flight.contains(id) || task_ids(self.pending).contains(id)
    }

    /// The state after the completion `c` has been handed in: harvested if
    /// its asset is in flight, and unchanged otherwise.
    pub open spec fn handed(self, c: CompletionView) -> SchedulerView {
        if self.in_flight.contains(c.asset_id) {
            self.after_harvest(c)
        } else {
            self
        }
    }

    /// The state after the completions `cs` have been handed in, in order.
    pub open spec fn harvested(self, cs: Seq<CompletionView>) -> SchedulerView
        decreases cs.len(),
    {
        if cs.len() == 0 {
            self
        } else {
            self.harvested(cs.drop_last()).handed(cs.last())
        }
    }
}

/// An upload that is not outstanding does not become outstanding again when
/// waiting tasks are dispatched.
proof fn lemma_dispatch_keeps_outstanding(s: SchedulerView, k: int, id: Seq<char>)
    requires
        0 <= k <= s.pending.len(),
    ensures
        s.dispatch(k).outstanding(id) == s.outstanding(id),
{
    let t = s.dispatch(k);
    if s.outstanding(id) {
        if s.in_flight.contains(id) {
            let i = s.in_flight.index_of(id);
            assert(t.in_flight[i] == id);
        } else {
            let i = task_ids(s.pending).index_of(id);
            if i < k {
                assert(t.in_flight[s.in_flight.len() + i] == id);
            } else {
                assert(task_ids(t.pending)[i - k] == id);
            }
        }
    }
    if t.outstanding(id) {
        if t.in_flight.contains(id) {
            let i = t.in_flight.index_of(id);
            if i >= s.in_flight.len() {
                assert(task_ids(s.pending)[i - s.in_flight.len()] == id);
            }
        } else {
            let i = task_ids(t.pending).index_of(id);
            assert(task_ids(s.pending)[i + k] == id);
        }
    }
}

/// Handing in a completion keeps the invariant, leaves the cache's domain
/// and the entry of every other asset as they were, and makes no upload
/// outstanding that was not; the upload that it settles is no longer
/// outstanding.
pub proof fn lemma_handed(s: SchedulerView, c: CompletionView, id: Seq<char>)
    requires
        s.inv(),
    ensures
        s.handed(c).inv(),
        s.handed(c).kind == s.kind,
        s.handed(c).limit == s.limit,
        s.handed(c).total == s.total,
        s.handed(c).cache.dom() == s.cache.dom(),
        id != c.asset_id ==> s.handed(c).cache[id] == s.cache[id],
        !s.in_flight.contains(c.asset_id) ==> s.handed(c) == s,
        !s.outstanding(id) ==> !s.handed(c).outstanding(id),
        s.in_flight.contains(c.asset_id) ==> !s.handed(c).outstanding(c.asset_id),
{
    if s.in_flight.contains(c.asset_id) {
        lemma_harvest_keeps_inv(s, c);
        let t = s.settle(c);
        let p = s.in_flight.index_of(c.asset_id);
        let whole = s.in_flight + task_ids(s.pending);
        assert(whole[p] == c.asset_id);
        // No upload becomes outstanding by settling.
        assert forall|x: Seq<char>| t.outstanding(x) implies s.outstanding(x) && x != c.asset_id by {
            if t.in_flight.contains(x) {
                let i = t.in_flight.index_of(x);
                let i0 = if i < p { i } else { i + 1 };
                assert(whole[i0] == x);
            } else {
                let i = task_ids(s.pending).index_of(x);
                assert(whole[s.in_flight.len() + i] == x);
            }
        }
        let k = if t.wants_refill() { t.refill_count() } else { 0 };
        lemma_dispatch_keeps_outstanding(t, k, id);
        lemma_dispatch_keeps_outstanding(t, k, c.asset_id);
    }
}

/// Every harvest settles exactly one upload: the work that is left, waiting
/// or in flight, shrinks by one, so a run of `total` tasks ends after at most
/// `total` harvests.
pub proof fn lemma_harvest_makes_progress(s: SchedulerView, c: CompletionView)
    requires
        s.inv(),
        s.in_flight.contains(c.asset_id),
    ensures
        s.after_harvest(c).pending.len() + s.after_harvest(c).in_flight.len() + 1
            == s.pending.len() + s.in_flight.len(),
        s.after_harvest(c).completed + s.after_harvest(c).failures.len() == s.completed
            + s.failures.len() + 1,
{
}

/// With a limit of two or more a run never stalls: while tasks wait, an
/// upload is in flight, at the start and after every harvest. So a run that
/// stops because nothing is in flight has tried every task, and ends
/// successful or failed, not aborted.
pub proof fn lemma_no_stall(
    cache: Map<Seq<char>, CacheItemView>,
    kind: DataType,
    limit: nat,
    tasks: Seq<TaskView>,
    cs: Seq<CompletionView>,
)
    requires
        sound_plan(cache.dom(), kind, tasks),
        limit >= 2,
    ensures
        ({
            let end = initial_state(cache, kind, limit, tasks).harvested(cs);
            end.in_flight.len() == 0 ==> end.pending.len() == 0 && !(end.outcome() is Aborted)
        }),
    decreases cs.len(),
{
    let start = initial_state(cache, kind, limit, tasks);
    lemma_initial_state_inv(cache, kind, limit, tasks);
    if cs.len() > 0 {
        let earlier = cs.drop_last();
        lemma_no_stall(cache, kind, limit, tasks, earlier);
        lemma_run_keeps_inv(start, earlier);
    }
}

/// Handing in completions keeps the invariant of the run.
pub proof fn lemma_run_keeps_inv(s: SchedulerView, cs: Seq<CompletionView>)
    requires
        s.inv(),
    ensures
        s.harvested(cs).inv(),
        s.harvested(cs).kind == s.kind,
        s.harvested(cs).limit == s.limit,
        s.harvested(cs).total == s.total,
    decreases cs.len(),
{
    if cs.len() > 0 {
        lemma_run_keeps_inv(s, cs.drop_last());
        lemma_handed(s.harvested(cs.drop_last()), cs.last(), cs.last().asset_id);
    }
}

/// The entry of an asset whose upload is not outstanding never changes,
/// whatever completions are handed in.
pub proof fn lemma_settled_entries_stay(s: SchedulerView, cs: Seq<CompletionView>, id: Seq<char>)
    requires
        s.inv(),
        !s.outstanding(id),
    ensures
        s.harvested(cs).inv(),
        s.harvested(cs).kind == s.kind,
        s.harvested(cs).cache.dom() == s.cache.dom(),
        !s.harvested(cs).outstanding(id),
        s.harvested(cs).cache[id] == s.cache[id],
    decreases cs.len(),
{
    if cs.len() > 0 {
        lemma_settled_entries_stay(s, cs.drop_last(), id);
        let t = s.harvested(cs.drop_last());
        lemma_handed(t, cs.last(), id);
    }
}

/// Every successful upload is recorded and stays recorded: once the
/// completion of an in-flight asset with the transaction `id` has been
/// harvested, the asset's cache entry holds the file's link, with its other
/// links as before, and keeps it to the end of the run.
pub proof fn lemma_success_is_recorded(
    s: SchedulerView,
    c: CompletionView,
    id: Seq<char>,
    later: Seq<CompletionView>,
)
    requires
        s.inv(),
        s.in_flight.contains(c.asset_id),
        c.result == Ok::<Seq<char>, Seq<char>>(id),
    ensures
        s.after_harvest(c).harvested(later).cache[c.asset_id] == s.cache[c.asset_id].with_link(
            s.kind,
            gateway() + id,
        ),
{
    lemma_handed(s, c, c.asset_id);
    lemma_settled_entries_stay(s.after_harvest(c), later, c.asset_id);
}

/// A failed upload leaves the asset's cache entry as it was, to the end of
/// the run.
pub proof fn lemma_failure_keeps_entry(
    s: SchedulerView,
    c: CompletionView,
    later: Seq<CompletionView>,
)
    requires
        s.inv(),
        s.in_flight.contains(c.asset_id),
        c.result is Err,
    ensures
        s.after_harvest(c).harvested(later).cache[c.asset_id] == s.cache[c.asset_id],
{
    lemma_handed(s, c, c.asset_id);
    lemma_settled_entries_stay(s.after_harvest(c), later, c.asset_id);
}

/// An asset for which no completion is handed in keeps its cache entry: what
/// was never sent, or was abandoned in flight, changes nothing.
pub proof fn lemma_untried_keeps_entry(s: SchedulerView, cs: Seq<CompletionView>, id: Seq<char>)
    requires
        s.inv(),
        forall|i: int| 0 <= i < cs.len() ==> (#[trigger] cs[i]).asset_id != id,
    ensures
        s.harvested(cs).inv(),
        s.harvested(cs).cache.dom() == s.cache.dom(),
        s.harvested(cs).cache[id] == s.cache[id],
    decreases cs.len(),
{
    if cs.len() > 0 {
        let earlier = cs.drop_last();
        assert forall|i: int| 0 <= i < earlier.len() implies (#[trigger] earlier[i]).asset_id
            != id by {
            assert(earlier[i] == cs[i]);
        }
        lemma_untried_keeps_entry(s, earlier, id);
        lemma_handed(s.harvested(earlier), cs.last(), id);
    }
}

} // verus!
