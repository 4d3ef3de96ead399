//! The bounded task executor: runs the ordered task list, collects each
//! task's documents in task order, and aborts on the first failure in task
//! order. `run_tasks` is the executor's sequential form; `Dispatcher` and
//! `SlotTable` are the scheduling state and the order-preserving result
//! slots a bounded worker pool drives, with the concurrency bound and the
//! collection order proved here.

use vstd::prelude::*;
use crate::document::Document;
use crate::document::DocumentPath;
use crate::document::DocumentView;
use crate::document::LoadError;
use crate::document::LoadErrorView;
use crate::document::docs_view;
use crate::document::spec_task_failure;
use crate::document::task_failure;
use crate::ports::DocumentLoader;
use crate::walker::Task;
use crate::walker::TaskView;

verus! {

/// The parsers of a registry, in registration order.
pub open spec fn parsers_of<P>(loaders: Seq<(String, P)>) -> Seq<P> {
    loaders.map_values(|l: (String, P)| l.1)
}

/// One task's outcome as the executor records it: the parser's documents,
/// or — when the parser fails — a parse failure carrying the task's path
/// joined with the parser's own message.
pub open spec fn spec_task_outcome<P: DocumentLoader>(task: TaskView, parsers: Seq<P>) -> Result<
    Seq<DocumentView>,
    LoadErrorView,
> {
    match parsers[task.parser].spec_load(task.path) {
        Ok(docs) => Ok(docs),
        Err(e) => Err(spec_task_failure(task.path, e)),
    }
}

/// The executor's outcome on the task list from position `i` on, when every
/// task's parser behaves as its model says: the tasks' document lists
/// concatenated in task order, or the outcome of the first failing task in
/// task order, its path attached. One task's documents never interleave
/// with another's.
pub open spec fn run_from<P: DocumentLoader>(
    tasks: Seq<TaskView>,
    parsers: Seq<P>,
    i: int,
) -> Result<Seq<DocumentView>, LoadErrorView>
    decreases tasks.len() - i,
{
    if i < 0 || i >= tasks.len() {
        Ok(Seq::empty())
    } else {
        match spec_task_outcome(tasks[i], parsers) {
            Err(e) => Err(e),
            Ok(docs) => match run_from(tasks, parsers, i + 1) {
                Err(e) => Err(e),
                Ok(rest) => Ok(docs + rest),
            },
        }
    }
}

/// Run one task: invoke its parser on its qualified path; a failure comes
/// back with the task's path attached. This is what a worker deposits into
/// the task's result slot.
pub fn run_task<P: DocumentLoader>(loaders: &Vec<(String, P)>, task: &Task) -> (r: Result<
    Vec<Document>,
    LoadError,
>)
    requires
        0 <= task@.parser < loaders@.len(),
    ensures
        docs_view(r) == spec_task_outcome(task@, parsers_of(loaders@)),
{
    proof {
        assert(parsers_of(loaders@)[task@.parser] == loaders@[task@.parser].1);
    }
    let parser: &P = &loaders[task.parser].1;
    let path = DocumentPath::from_string(task.path.as_str());
    match parser.load(&path) {
        Ok(docs) => Ok(docs),
        Err(e) => Err(task_failure(task.path.as_str(), &e)),
    }
}

/// The executor's outcome on the whole task list.
pub open spec fn run_tasks_spec<P: DocumentLoader>(tasks: Seq<TaskView>, parsers: Seq<P>) -> Result<
    Seq<DocumentView>,
    LoadErrorView,
> {
    run_from(tasks, parsers, 0)
}

/// Execute every task in task order and flatten the results; return the
/// first failure instead when one occurs, with nothing after it executed.
pub fn run_tasks<P: DocumentLoader>(loaders: &Vec<(String, P)>, tasks: &Vec<Task>) -> (r: Result<
    Vec<Document>,
    LoadError,
>)
    requires
        forall|j: int|
            0 <= j < tasks.deep_view().len() ==> 0 <= #[trigger] tasks.deep_view()[j].parser
                < loaders@.len(),
    ensures
        docs_view(r) == run_tasks_spec(tasks.deep_view(), parsers_of(loaders@)),
{
    let ghost tv = tasks.deep_view();
    let ghost pv = parsers_of(loaders@);
    let mut documents: Vec<Document> = Vec::new();
    let mut i: usize = 0;
    while i < tasks.len()
        invariant
            i <= tasks.len(),
            tv == tasks.deep_view(),
            pv == parsers_of(loaders@),
            forall|j: int| 0 <= j < tv.len() ==> 0 <= #[trigger] tv[j].parser < loaders@.len(),
            run_from(tv, pv, i as int) is Ok ==> run_from(tv, pv, 0) == Ok::<
                Seq<DocumentView>,
                LoadErrorView,
            >(documents.deep_view() + run_from(tv, pv, i as int)->Ok_0),
            run_from(tv, pv, i as int) is Err ==> run_from(tv, pv, 0) == run_from(
                tv,
                pv,
                i as int,
            ),
        decreases tasks.len() - i,
    {
        proof {
            assert(tv[i as int] == tasks@[i as int]@);
        }
        let task = &tasks[i];
        match run_task(loaders, task) {
            Err(e) => {
                proof {
                    assert(run_from(tv, pv, i as int) == Err::<Seq<DocumentView>, LoadErrorView>(
                        e@,
                    ));
                }
                return Err(e);
            },
            Ok(mut docs) => {
                let ghost docs_before = documents.deep_view();
                let ghost fresh = docs.deep_view();
                documents.append(&mut docs);
                proof {
                    assert(documents.deep_view() =~= docs_before + fresh);
                    if run_from(tv, pv, i + 1) is Ok {
                        let rest = run_from(tv, pv, i + 1)->Ok_0;
                        assert(run_from(tv, pv, i as int) == Ok::<Seq<DocumentView>, LoadErrorView>(
                            fresh + rest,
                        ));
                        assert((docs_before + fresh) + rest =~= docs_before + (fresh + rest));
                    }
                }
            },
        }
        i = i + 1;
    }
    proof {
        assert(run_from(tv, pv, i as int) == Ok::<Seq<DocumentView>, LoadErrorView>(Seq::empty()));
        assert(documents.deep_view() + Seq::<DocumentView>::empty() =~= documents.deep_view());
    }
    Ok(documents)
}

/// Fail-fast: if the task at position `k` fails while every task before it
/// succeeds, the executor's outcome is exactly task `k`'s failure with its
/// path attached — no document sequence is returned, however the tasks
/// after `k` would have behaved.
pub proof fn lemma_fail_fast<P: DocumentLoader>(tasks: Seq<TaskView>, parsers: Seq<P>, k: int)
    requires
        0 <= k < tasks.len(),
        parsers[tasks[k].parser].spec_load(tasks[k].path) is Err,
        forall|j: int|
            0 <= j < k ==> #[trigger] parsers[tasks[j].parser].spec_load(tasks[j].path) is Ok,
    ensures
        run_tasks_spec(tasks, parsers) == Err::<Seq<DocumentView>, LoadErrorView>(
            spec_task_failure(
                tasks[k].path,
                parsers[tasks[k].parser].spec_load(tasks[k].path)->Err_0,
            ),
        ),
{
    lemma_fail_fast_from(tasks, parsers, k, 0);
}

proof fn lemma_fail_fast_from<P: DocumentLoader>(
    tasks: Seq<TaskView>,
    parsers: Seq<P>,
    k: int,
    i: int,
)
    requires
        0 <= i <= k < tasks.len(),
        parsers[tasks[k].parser].spec_load(tasks[k].path) is Err,
        forall|j: int|
            i <= j < k ==> #[trigger] parsers[tasks[j].parser].spec_load(tasks[j].path) is Ok,
    ensures
        run_from(tasks, parsers, i) == Err::<Seq<DocumentView>, LoadErrorView>(
            spec_task_failure(
                tasks[k].path,
                parsers[tasks[k].parser].spec_load(tasks[k].path)->Err_0,
            ),
        ),
    decreases k - i,
{
    if i < k {
        lemma_fail_fast_from(tasks, parsers, k, i + 1);
    }
}

/// Order preservation: when slot `i` holds exactly task `i`'s outcome for
/// every task, collecting the slots yields the executor's outcome for the
/// whole list — result order follows task order, not completion order,
/// since collection reads only the slots' final contents.
pub proof fn lemma_collect_matches_run<P: DocumentLoader>(
    slots: Seq<Option<Result<Seq<DocumentView>, LoadErrorView>>>,
    tasks: Seq<TaskView>,
    parsers: Seq<P>,
)
    requires
        slots.len() == tasks.len(),
        forall|i: int|
            0 <= i < slots.len() ==> slots[i] == Some(
                #[trigger] spec_task_outcome(tasks[i], parsers),
            ),
    ensures
        collect_from(slots, 0) == run_tasks_spec(tasks, parsers),
{
    lemma_collect_matches_run_from(slots, tasks, parsers, 0);
}

proof fn lemma_collect_matches_run_from<P: DocumentLoader>(
    slots: Seq<Option<Result<Seq<DocumentView>, LoadErrorView>>>,
    tasks: Seq<TaskView>,
    parsers: Seq<P>,
    i: int,
)
    requires
        slots.len() == tasks.len(),
        forall|j: int|
            0 <= j < slots.len() ==> slots[j] == Some(
                #[trigger] spec_task_outcome(tasks[j], parsers),
            ),
    ensures
        collect_from(slots, i) == run_from(tasks, parsers, i),
    decreases slots.len() - i,
{
    if 0 <= i < slots.len() {
        lemma_collect_matches_run_from(slots, tasks, parsers, i + 1);
    }
}

/// Two deposits into different slots commute: the table's final contents —
/// and with them the collected output — do not depend on the order in
/// which tasks completed.
pub proof fn lemma_fill_commutes(
    slots: Seq<Option<Result<Seq<DocumentView>, LoadErrorView>>>,
    i: int,
    x: Option<Result<Seq<DocumentView>, LoadErrorView>>,
    j: int,
    y: Option<Result<Seq<DocumentView>, LoadErrorView>>,
)
    requires
        0 <= i < slots.len(),
        0 <= j < slots.len(),
        i != j,
    ensures
        slots.update(i, x).update(j, y) == slots.update(j, y).update(i, x),
{
    assert(slots.update(i, x).update(j, y) =~= slots.update(j, y).update(i, x));
}

/// Scheduling state of a bounded worker pool running one task list: tasks
/// are handed out strictly in task order, at most `bound` of them are in
/// flight at any point, and no new task is handed out once a failure has
/// been observed. A driver owns one `Dispatcher` per load, asks it for the
/// next task to start, and reports each completion back.
pub struct Dispatcher {
    total: usize,
    bound: usize,
    next: usize,
    active: usize,
    failed: bool,
}

impl Dispatcher {
    /// How many tasks the run has.
    pub closed spec fn spec_total(&self) -> int {
        self.total as int
    }

    /// The concurrency bound the run was configured with.
    pub closed spec fn spec_bound(&self) -> int {
        self.bound as int
    }

    /// How many tasks have been handed out so far; they are exactly the
    /// task indices `0 .. spec_next()`.
    pub closed spec fn spec_next(&self) -> int {
        self.next as int
    }

    /// How many handed-out tasks have not been reported back yet.
    pub closed spec fn spec_active(&self) -> int {
        self.active as int
    }

    /// Whether some completed task has reported a failure.
    pub closed spec fn spec_failed(&self) -> bool {
        self.failed
    }

    /// Every state the operations below can produce satisfies this: in
    /// particular, never more than `bound` tasks in flight.
    pub closed spec fn wf(&self) -> bool {
        &&& 1 <= self.bound
        &&& self.next <= self.total
        &&& self.active <= self.bound
        &&& self.active <= self.next
    }

    /// Start a run of `total` tasks with at most `bound` in flight.
    pub fn new(total: usize, bound: usize) -> (d: Self)
        requires
            bound >= 1,
        ensures
            d.wf(),
            d.spec_total() == total,
            d.spec_bound() == bound,
            d.spec_next() == 0,
            d.spec_active() == 0,
            !d.spec_failed(),
    {
        Dispatcher { total, bound, next: 0, active: 0, failed: false }
    }

    /// The next task to start, in task order: `Some` exactly when tasks
    /// remain, a slot is free, and no failure has been observed yet.
    pub fn start(&mut self) -> (r: Option<usize>)
        requires
            old(self).wf(),
        ensures
            final(self).wf(),
            final(self).spec_total() == old(self).spec_total(),
            final(self).spec_bound() == old(self).spec_bound(),
            final(self).spec_failed() == old(self).spec_failed(),
            r is Some <==> (!old(self).spec_failed() && old(self).spec_next() < old(
                self,
            ).spec_total() && old(self).spec_active() < old(self).spec_bound()),
            r matches Some(i) ==> i == old(self).spec_next() && final(self).spec_next() == old(
                self,
            ).spec_next() + 1 && final(self).spec_active() == old(self).spec_active() + 1,
            r is None ==> final(self).spec_next() == old(self).spec_next()
                && final(self).spec_active() == old(self).spec_active(),
    {
        if !self.failed && self.next < self.total && self.active < self.bound {
            let i = self.next;
            self.next = self.next + 1;
            self.active = self.active + 1;
            Some(i)
        } else {
            None
        }
    }

    /// Report that an in-flight task finished; `ok` says whether it
    /// succeeded. After a failure no further task is ever handed out, but
    /// tasks already in flight may still report back.
    pub fn finish(&mut self, ok: bool)
        requires
            old(self).wf(),
            old(self).spec_active() >= 1,
        ensures
            final(self).wf(),
            final(self).spec_total() == old(self).spec_total(),
            final(self).spec_bound() == old(self).spec_bound(),
            final(self).spec_next() == old(self).spec_next(),
            final(self).spec_active() == old(self).spec_active() - 1,
            final(self).spec_failed() == (old(self).spec_failed() || !ok),
    {
        self.active = self.active - 1;
        if !ok {
            self.failed = true;
        }
    }

    /// How many tasks are in flight right now.
    pub fn active(&self) -> (r: usize)
        ensures
            r == self.spec_active(),
    {
        self.active
    }

    /// The configured concurrency bound.
    pub fn bound(&self) -> (r: usize)
        ensures
            r == self.spec_bound(),
    {
        self.bound
    }

    /// Whether some completed task has reported a failure.
    pub fn has_failed(&self) -> (r: bool)
        ensures
            r == self.spec_failed(),
    {
        self.failed
    }

    /// Whether the run is over: every handed-out task has reported back and
    /// either all tasks were handed out or a failure stopped dispatch.
    pub fn is_done(&self) -> (r: bool)
        requires
            self.wf(),
        ensures
            r == (self.spec_active() == 0 && (self.spec_failed() || self.spec_next()
                == self.spec_total())),
    {
        self.active == 0 && (self.failed || self.next == self.total)
    }
}

/// The concurrency bound holds in every well-formed dispatcher state, and
/// every operation above both requires and re-establishes well-formedness:
/// with bound `W`, at no point are more than `W` tasks in flight.
pub proof fn lemma_concurrency_bounded(d: &Dispatcher)
    requires
        d.wf(),
    ensures
        d.spec_active() <= d.spec_bound(),
{
}

/// View of one result slot.
pub open spec fn slot_view(s: Option<Result<Vec<Document>, LoadError>>) -> Option<
    Result<Seq<DocumentView>, LoadErrorView>,
> {
    match s {
        None => None,
        Some(r) => Some(docs_view(r)),
    }
}

/// Pre-sized result slots, one per task, indexed by the task's position in
/// the task list. Workers fill slots in whatever order their tasks finish;
/// the collected output depends only on the slots' final contents, never on
/// the order they were filled in.
pub struct SlotTable {
    slots: Vec<Option<Result<Vec<Document>, LoadError>>>,
}

impl View for SlotTable {
    type V = Seq<Option<Result<Seq<DocumentView>, LoadErrorView>>>;

    closed spec fn view(&self) -> Seq<Option<Result<Seq<DocumentView>, LoadErrorView>>> {
        self.slots@.map_values(|s: Option<Result<Vec<Document>, LoadError>>| slot_view(s))
    }
}

/// What collecting the slots from position `i` on yields: the first failure
/// in task order, or every slot's documents concatenated in task order. A
/// still-empty slot is reached only in a run that was cut short, and then a
/// failure stands in an earlier slot.
pub open spec fn collect_from(
    slots: Seq<Option<Result<Seq<DocumentView>, LoadErrorView>>>,
    i: int,
) -> Result<Seq<DocumentView>, LoadErrorView>
    decreases slots.len() - i,
{
    if i < 0 || i >= slots.len() {
        Ok(Seq::empty())
    } else {
        match slots[i] {
            None => Ok(Seq::empty()),
            Some(Err(e)) => Err(e),
            Some(Ok(docs)) => match collect_from(slots, i + 1) {
                Err(e) => Err(e),
                Ok(rest) => Ok(docs + rest),
            },
        }
    }
}

/// Copy a document list, element for element.
pub(crate) fn clone_documents(docs: &Vec<Document>) -> (r: Vec<Document>)
    ensures
        r.deep_view() == docs.deep_view(),
{
    let mut out: Vec<Document> = Vec::new();
    let mut i: usize = 0;
    while i < docs.len()
        invariant
            i <= docs.len(),
            out@.len() == i,
            forall|j: int| 0 <= j < i ==> #[trigger] out.deep_view()[j] == docs.deep_view()[j],
        decreases docs.len() - i,
    {
        let ghost dv_before = out.deep_view();
        let copied = docs[i].clone();
        out.push(copied);
        proof {
            assert forall|j: int| 0 <= j < i + 1 implies #[trigger] out.deep_view()[j]
                == docs.deep_view()[j] by {
                if j < i as int {
                    assert(out.deep_view()[j] == dv_before[j]);
                } else {
                    assert(out.deep_view()[j] == copied@);
                    assert(docs.deep_view()[j] == docs@[j]@);
                }
            }
        }
        i = i + 1;
    }
    proof {
        assert(out.deep_view() =~= docs.deep_view());
    }
    out
}

impl SlotTable {
    /// One empty slot per task.
    pub fn new(total: usize) -> (t: Self)
        ensures
            t@.len() == total,
            forall|i: int| 0 <= i < total ==> t@[i] is None,
    {
        let mut slots: Vec<Option<Result<Vec<Document>, LoadError>>> = Vec::new();
        let mut i: usize = 0;
        while i < total
            invariant
                i <= total,
                slots@.len() == i,
                forall|j: int| 0 <= j < i ==> #[trigger] slots@[j] is None,
            decreases total - i,
        {
            slots.push(None);
            i = i + 1;
        }
        SlotTable { slots }
    }

    /// How many slots the table has.
    pub fn len(&self) -> (r: usize)
        ensures
            r == self@.len(),
    {
        self.slots.len()
    }

    /// Deposit the result of task `i` into its slot, exactly once.
    pub fn put(&mut self, i: usize, r: Result<Vec<Document>, LoadError>)
        requires
            i < old(self)@.len(),
            old(self)@[i as int] is None,
        ensures
            final(self)@ == old(self)@.update(i as int, Some(docs_view(r))),
    {
        let ghost before = self@;
        self.slots.remove(i);
        self.slots.insert(i, Some(r));
        proof {
            assert(self@ =~= before.update(i as int, Some(docs_view(r))));
        }
    }

    /// Collect the run's outcome: the first failure in task order, or every
    /// task's documents flattened in task order — regardless of the order
    /// the slots were filled in. Callable once every handed-out task has
    /// reported back, so an empty slot can only follow a failure.
    pub fn collect(&self) -> (r: Result<Vec<Document>, LoadError>)
        requires
            forall|i: int|
                0 <= i < self@.len() && self@[i] is None ==> exists|j: int|
                    0 <= j < i && #[trigger] self@[j] matches Some(Err(_)),
        ensures
            docs_view(r) == collect_from(self@, 0),
    {
        let ghost sv = self@;
        let mut documents: Vec<Document> = Vec::new();
        let mut i: usize = 0;
        while i < self.slots.len()
            invariant
                i <= self.slots.len(),
                sv == self@,
                sv.len() == self.slots@.len(),
                forall|j: int| 0 <= j < i ==> #[trigger] sv[j] matches Some(Ok(_)),
                forall|j: int|
                    0 <= j < sv.len() && sv[j] is None ==> exists|k: int|
                        0 <= k < j && #[trigger] sv[k] matches Some(Err(_)),
                collect_from(sv, i as int) is Ok ==> collect_from(sv, 0) == Ok::<
                    Seq<DocumentView>,
                    LoadErrorView,
                >(documents.deep_view() + collect_from(sv, i as int)->Ok_0),
                collect_from(sv, i as int) is Err ==> collect_from(sv, 0) == collect_from(
                    sv,
                    i as int,
                ),
            decreases self.slots.len() - i,
        {
            proof {
                assert(sv[i as int] == slot_view(self.slots@[i as int]));
            }
            match &self.slots[i] {
                None => {
                    proof {
                        let k = choose|k: int|
                            0 <= k < i && #[trigger] sv[k] matches Some(Err(_));
                        assert(sv[k] matches Some(Ok(_)));
                        assert(false);
                    }
                },
                Some(Err(e)) => {
                    proof {
                        assert(collect_from(sv, i as int) == Err::<
                            Seq<DocumentView>,
                            LoadErrorView,
                        >(e@));
                    }
                    return Err(e.clone());
                },
                Some(Ok(docs)) => {
                    let ghost docs_before = documents.deep_view();
                    let ghost fresh = docs.deep_view();
                    let mut copied = clone_documents(docs);
                    documents.append(&mut copied);
                    proof {
                        assert(documents.deep_view() =~= docs_before + fresh);
                        if collect_from(sv, i + 1) is Ok {
                            let rest = collect_from(sv, i + 1)->Ok_0;
                            assert(collect_from(sv, i as int) == Ok::<
                                Seq<DocumentView>,
                                LoadErrorView,
                            >(fresh + rest));
                            assert((docs_before + fresh) + rest =~= docs_before + (fresh + rest));
                        }
                    }
                },
            }
            i = i + 1;
        }
        proof {
            assert(collect_from(sv, i as int) == Ok::<Seq<DocumentView>, LoadErrorView>(
                Seq::empty(),
            ));
            assert(documents.deep_view() + Seq::<DocumentView>::empty() =~= documents.deep_view());
        }
        Ok(documents)
    }
}

} // verus!
