//! The pool of workers that the blocking server hands tasks to.
//!
//! Each worker carries a connection of type `S`, which the pool stores and
//! hands back but never uses.
use vstd::prelude::*;
use crate::codec::str_equals;
use crate::structs::fragment_request::FragmentRequest;
use crate::utils::random_index;

verus! {

broadcast use vstd::seq_lib::group_seq_properties;

/// A worker known to the pool: its name, the work load it accepts, its
/// connection, and the task it is busy with, if any.
#[derive(Debug)]
pub struct Worker<S> {
    worker_name: String,
    maximal_work_load: u32,
    stream: S,
    pub task: Option<String>,
}

/// The task a worker is busy with, as text.
pub open spec fn task_text(task: Option<String>) -> Option<Seq<char>> {
    match task {
        Some(t) => Some(t@),
        None => None,
    }
}

impl<S> Worker<S> {
    /// The worker's name.
    pub closed spec fn name(&self) -> Seq<char> {
        self.worker_name@
    }

    /// The work load the worker accepts.
    pub closed spec fn work_load(&self) -> u32 {
        self.maximal_work_load
    }

    /// The task the worker is busy with, if any.
    pub closed spec fn current_task(&self) -> Option<Seq<char>> {
        task_text(self.task)
    }

    /// The worker's connection.
    pub closed spec fn connection(&self) -> S {
        self.stream
    }

    /// A free worker named `worker_name`.
    pub fn new(worker_name: &str, maximal_work_load: u32, stream: S) -> (w: Self)
        ensures
            w.name() == worker_name@,
            w.work_load() == maximal_work_load,
            w.connection() == stream,
            w.current_task() is None,
    {
        Self { worker_name: worker_name.to_owned(), maximal_work_load, stream, task: None }
    }

    /// A free worker for the sender of `fragment`.
    pub fn from_fragment_request(fragment: &FragmentRequest, stream: S) -> (w: Self)
        ensures
            w.name() == fragment.worker_name@,
            w.work_load() == fragment.maximal_work_load,
            w.connection() == stream,
            w.current_task() is None,
    {
        Self::new(fragment.worker_name.as_str(), fragment.maximal_work_load, stream)
    }

    /// The worker's name.
    pub fn get_worker_name(&self) -> (n: &str)
        ensures
            n@ == self.name(),
    {
        self.worker_name.as_str()
    }

    /// The work load the worker accepts.
    pub fn get_maximal_work_load(&self) -> (l: u32)
        ensures
            l == self.work_load(),
    {
        self.maximal_work_load
    }

    /// The worker's connection.
    pub fn get_stream(&self) -> (s: &S)
        ensures
            *s == self.connection(),
    {
        &self.stream
    }

    /// Replaces the worker's connection.
    pub fn set_stream(&mut self, stream: S)
        ensures
            final(self).connection() == stream,
            final(self).name() == old(self).name(),
            final(self).work_load() == old(self).work_load(),
            final(self).current_task() == old(self).current_task(),
    {
        self.stream = stream;
    }

    /// Replaces the worker's connection and hands back the one it had.
    pub fn replace_stream(&mut self, stream: S) -> (previous: S)
        ensures
            previous == old(self).connection(),
            final(self).connection() == stream,
            final(self).name() == old(self).name(),
            final(self).work_load() == old(self).work_load(),
            final(self).current_task() == old(self).current_task(),
    {
        let mut previous = stream;
        std::mem::swap(&mut self.stream, &mut previous);
        previous
    }

    /// Records the task the worker is busy with, or that it is free.
    pub fn set_task(&mut self, task: Option<&str>)
        ensures
            final(self).current_task() == match task {
                Some(t) => Some(t@),
                None => None::<Seq<char>>,
            },
            final(self).name() == old(self).name(),
            final(self).work_load() == old(self).work_load(),
            final(self).connection() == old(self).connection(),
    {
        self.task = match task {
            Some(t) => Some(t.to_owned()),
            None => None,
        };
    }
}

/// Whether some worker of `ws` is named `name`.
pub open spec fn has_worker_named<S>(ws: Seq<Worker<S>>, name: Seq<char>) -> bool {
    exists|i: int| 0 <= i < ws.len() && #[trigger] ws[i].name() == name
}

/// Whether no two workers of `ws` share a name.
pub open spec fn names_distinct<S>(ws: Seq<Worker<S>>) -> bool {
    forall|i: int, j: int| 0 <= i < j < ws.len() ==> #[trigger] ws[i].name() != #[trigger] ws[j].name()
}

/// The workers after adding `w`: unchanged when one of them already has
/// its name, else `w` at the end.
pub open spec fn with_worker<S>(ws: Seq<Worker<S>>, w: Worker<S>) -> Seq<Worker<S>> {
    if has_worker_named(ws, w.name()) {
        ws
    } else {
        ws.push(w)
    }
}

/// Whether a worker is not named `name`.
pub open spec fn not_named<S>(name: Seq<char>) -> spec_fn(Worker<S>) -> bool {
    |w: Worker<S>| w.name() != name
}

/// The workers, in order, that are not named `name`.
pub open spec fn without_workers_named<S>(ws: Seq<Worker<S>>, name: Seq<char>) -> Seq<Worker<S>> {
    ws.filter(not_named(name))
}

/// Whether `i` is the first position in `ws` whose worker satisfies `p`.
pub open spec fn first_where<S>(ws: Seq<Worker<S>>, p: spec_fn(Worker<S>) -> bool, i: int) -> bool {
    &&& 0 <= i < ws.len()
    &&& p(ws[i])
    &&& forall|j: int| 0 <= j < i ==> !p(#[trigger] ws[j])
}

/// Whether a worker is named `name`.
pub open spec fn named<S>(name: Seq<char>) -> spec_fn(Worker<S>) -> bool {
    |w: Worker<S>| w.name() == name
}

/// Whether a worker is busy with `task`.
pub open spec fn busy_with<S>(task: Seq<char>) -> spec_fn(Worker<S>) -> bool {
    |w: Worker<S>| w.current_task() == Some(task)
}

/// Whether `after` is the worker `before` made free, with `stream` as its
/// connection.
pub open spec fn freed_with<S>(before: Worker<S>, after: Worker<S>, stream: S) -> bool {
    &&& after.name() == before.name()
    &&& after.work_load() == before.work_load()
    &&& after.current_task() is None
    &&& after.connection() == stream
}

/// The name reported for a result that no worker was busy with.
pub open spec fn unknown_worker_name() -> Seq<char> {
    "[unknown-worker]"@
}

/// A worker counts as busy with a task exactly when the task it records is
/// that task.
pub proof fn lemma_busy_with_is_same_task<S>(w: Worker<S>, task: Seq<char>)
    ensures
        busy_with::<S>(task)(w) <==> w.current_task() == Some(task),
{
}

/// A worker counts as named `name` exactly when its name is `name`, and as
/// not named `name` exactly when it is not.
pub proof fn lemma_named_is_same_name<S>(w: Worker<S>, name: Seq<char>)
    ensures
        named::<S>(name)(w) <==> w.name() == name,
        not_named::<S>(name)(w) <==> w.name() != name,
{
}

/// The worker found for a task is busy with exactly that task, and no
/// worker before it is.
pub proof fn lemma_found_worker_has_task<S>(ws: Seq<Worker<S>>, task: Seq<char>, i: int)
    requires
        first_where(ws, busy_with(task), i),
    ensures
        0 <= i < ws.len(),
        ws[i].current_task() == Some(task),
        forall|j: int| 0 <= j < i ==> (#[trigger] ws[j]).current_task() != Some(task),
{
    assert forall|j: int| 0 <= j < i implies (#[trigger] ws[j]).current_task() != Some(task) by {
        assert(!busy_with::<S>(task)(ws[j]));
    }
}

/// When some worker satisfies `p`, a first one does.
proof fn lemma_first_where_exists<S>(ws: Seq<Worker<S>>, p: spec_fn(Worker<S>) -> bool, i: int)
    requires
        0 <= i < ws.len(),
        p(ws[i]),
    ensures
        exists|k: int| first_where(ws, p, k),
    decreases i,
{
    if forall|j: int| 0 <= j < i ==> !p(#[trigger] ws[j]) {
        assert(first_where(ws, p, i));
    } else {
        let j = choose|j: int| 0 <= j < i && p(#[trigger] ws[j]);
        lemma_first_where_exists(ws, p, j);
    }
}

/// There is no first worker busy with `task` exactly when no worker records
/// `task` as its task.
pub proof fn lemma_no_worker_has_task<S>(ws: Seq<Worker<S>>, task: Seq<char>)
    ensures
        (forall|i: int| !first_where(ws, busy_with(task), i)) <==> (forall|i: int|
            0 <= i < ws.len() ==> (#[trigger] ws[i]).current_task() != Some(task)),
{
    if forall|i: int| !first_where(ws, busy_with(task), i) {
        assert forall|i: int| 0 <= i < ws.len() implies (#[trigger] ws[i]).current_task() != Some(
            task,
        ) by {
            if ws[i].current_task() == Some(task) {
                lemma_first_where_exists(ws, busy_with(task), i);
            }
        }
    }
}

/// A worker picked to hand a task to, by its position in the pool.
#[derive(Debug, Clone, Copy, PartialEq, Eq, Structural)]
pub enum Pick {
    /// The pool has no worker.
    Empty,
    /// The worker picked is busy with a task.
    Busy(usize),
    /// The worker picked is free.
    Free(usize),
}

/// The workers a server can hand tasks to.
#[derive(Debug)]
pub struct Pool<S> {
    pub workers: Vec<Worker<S>>,
}

impl<S> Pool<S> {
    /// An empty pool.
    pub fn new() -> (p: Self)
        ensures
            p.workers@ == Seq::<Worker<S>>::empty(),
    {
        Self { workers: Vec::new() }
    }

    /// Adds `worker`, unless a worker of that name is already there.
    pub fn add_worker(&mut self, worker: Worker<S>)
        ensures
            final(self).workers@ == with_worker(old(self).workers@, worker),
    {
        let mut i: usize = 0;
        while i < self.workers.len()
            invariant
                i <= self.workers@.len(),
                self.workers@ == old(self).workers@,
                forall|j: int| 0 <= j < i ==> #[trigger] self.workers@[j].name() != worker.name(),
            decreases self.workers@.len() - i,
        {
            if str_equals(self.workers[i].worker_name.as_str(), worker.worker_name.as_str()) {
                assert(self.workers@[i as int].name() == worker.name());
                return;
            }
            i = i + 1;
        }
        self.workers.push(worker);
    }

    /// Removes every worker named `worker_name`.
    pub fn remove_worker(&mut self, worker_name: &str)
        ensures
            final(self).workers@ == without_workers_named(old(self).workers@, worker_name@),
    {
        let ghost old_ws = self.workers@;
        let ghost pred = not_named::<S>(worker_name@);
        let ghost mut j: int = 0;
        let mut i: usize = 0;
        assert(old_ws.take(0) =~= Seq::<Worker<S>>::empty());
        proof {
            reveal_with_fuel(Seq::filter, 1);
        }
        assert(old_ws.skip(0) =~= old_ws);
        while i < self.workers.len()
            invariant
                0 <= j <= old_ws.len(),
                pred == not_named::<S>(worker_name@),
                self.workers@ == old_ws.take(j).filter(pred) + old_ws.skip(j),
                i == old_ws.take(j).filter(pred).len(),
            decreases self.workers@.len() - i,
        {
            let ghost prefix = old_ws.take(j).filter(pred);
            assert(self.workers@[i as int] == old_ws[j]);
            proof {
                assert(old_ws.take(j + 1) =~= old_ws.take(j) + seq![old_ws[j]]);
                Seq::filter_distributes_over_add(old_ws.take(j), seq![old_ws[j]], pred);
                reveal_with_fuel(Seq::filter, 2);
                assert(old_ws.skip(j) =~= seq![old_ws[j]] + old_ws.skip(j + 1));
            }
            if str_equals(self.workers[i].worker_name.as_str(), worker_name) {
                let _gone = self.workers.remove(i);
                proof {
                    assert(seq![old_ws[j]].filter(pred) =~= Seq::<Worker<S>>::empty());
                    j = j + 1;
                    assert(self.workers@ =~= old_ws.take(j).filter(pred) + old_ws.skip(j));
                }
            } else {
                i = i + 1;
                proof {
                    assert(seq![old_ws[j]].filter(pred) =~= seq![old_ws[j]]);
                    j = j + 1;
                    assert(self.workers@ =~= old_ws.take(j).filter(pred) + old_ws.skip(j));
                }
            }
        }
        assert(j == old_ws.len());
        assert(old_ws.take(j) =~= old_ws);
        assert(old_ws.skip(j) =~= Seq::<Worker<S>>::empty());
        assert(self.workers@ =~= old_ws.filter(pred));
    }

    /// The first worker named `worker_name`, if any.
    pub fn get_worker(&mut self, worker_name: &str) -> (found: Option<&mut Worker<S>>)
        ensures
            found is None ==> final(self).workers@ == old(self).workers@ && !has_worker_named(
                old(self).workers@,
                worker_name@,
            ),
            found matches Some(w) ==> exists|i: int|
                first_where(old(self).workers@, named(worker_name@), i) && *w == old(self).workers@[i] && final(self).workers@ == old(self).workers@.update(i, *final(w)),
    {
        let mut i: usize = 0;
        while i < self.workers.len()
            invariant
                i <= self.workers@.len(),
                self.workers@ == old(self).workers@,
                forall|j: int| 0 <= j < i ==> #[trigger] self.workers@[j].name() != worker_name@,
            decreases self.workers@.len() - i,
        {
            if str_equals(self.workers[i].worker_name.as_str(), worker_name) {
                assert(first_where(old(self).workers@, named(worker_name@), i as int));
                return Some(&mut self.workers[i]);
            }
            i = i + 1;
        }
        None
    }

    /// The first worker busy with `task`, if any.
    pub fn get_worker_with_task(&mut self, task: &str) -> (found: Option<&mut Worker<S>>)
        ensures
            found is None ==> final(self).workers@ == old(self).workers@ && forall|i: int|
                0 <= i < old(self).workers@.len() ==> #[trigger] old(self).workers@[i].current_task()
                    != Some(task@),
            found matches Some(w) ==> exists|i: int|
                first_where(old(self).workers@, busy_with(task@), i) && *w == old(self).workers@[i] && final(self).workers@ == old(self).workers@.update(i, *final(w)),
    {
        let mut i: usize = 0;
        while i < self.workers.len()
            invariant
                i <= self.workers@.len(),
                self.workers@ == old(self).workers@,
                forall|j: int|
                    0 <= j < i ==> #[trigger] self.workers@[j].current_task() != Some(task@),
            decreases self.workers@.len() - i,
        {
            let busy = match &self.workers[i].task {
                Some(t) => str_equals(t.as_str(), task),
                None => false,
            };
            if busy {
                assert(first_where(old(self).workers@, busy_with(task@), i as int));
                return Some(&mut self.workers[i]);
            }
            i = i + 1;
        }
        None
    }

    /// Marks `task` done. The first worker busy with it becomes free and
    /// takes `stream` as its connection; its name and its previous
    /// connection are returned. When no worker is busy with `task`, the pool
    /// is unchanged, `stream` is dropped, and the name is
    /// `"[unknown-worker]"`.
    pub fn finish_task(&mut self, task: &str, stream: S) -> (r: (String, Option<S>))
        ensures
            (forall|i: int| !first_where(old(self).workers@, busy_with(task@), i)) ==> (
            final(self).workers@ == old(self).workers@ && r.0@ == unknown_worker_name()
                && r.1 is None),
            forall|i: int|
                first_where(old(self).workers@, busy_with(task@), i) ==> {
                    &&& r.0@ == old(self).workers@[i].name()
                    &&& r.1 == Some(old(self).workers@[i].connection())
                    &&& final(self).workers@.len() == old(self).workers@.len()
                    &&& freed_with(old(self).workers@[i], final(self).workers@[i], stream)
                    &&& forall|j: int|
                        0 <= j < old(self).workers@.len() && j != i ==> final(self).workers@[j]
                            == old(self).workers@[j]
                },
            r.1 is None <==> forall|i: int|
                0 <= i < old(self).workers@.len()
                    ==> (#[trigger] old(self).workers@[i]).current_task() != Some(task@),
            r.1 is Some ==> exists|i: int|
                {
                    &&& 0 <= i < old(self).workers@.len()
                    &&& old(self).workers@[i].current_task() == Some(task@)
                    &&& r.0@ == old(self).workers@[i].name()
                    &&& final(self).workers@[i].current_task() is None
                    &&& forall|j: int|
                        0 <= j < i ==> (#[trigger] old(self).workers@[j]).current_task()
                            != Some(task@)
                },
    {
        let ghost before = self.workers@;
        proof {
            lemma_no_worker_has_task(before, task@);
        }
        match self.get_worker_with_task(task) {
            Some(w) => {
                w.set_task(None);
                let previous = w.replace_stream(stream);
                let name = w.get_worker_name().to_owned();
                proof {
                    let i = choose|i: int|
                        first_where(before, busy_with(task@), i) && self.workers@ == before.update(
                            i,
                            *w,
                        );
                    assert forall|k: int| first_where(before, busy_with(task@), k) implies k == i by {
                        if k < i {
                            assert(!busy_with::<S>(task@)(before[k]));
                        } else if i < k {
                            assert(!busy_with::<S>(task@)(before[i]));
                        }
                    }
                    lemma_found_worker_has_task(before, task@, i);
                    assert(self.workers@[i] == *w);
                }
                (name, Some(previous))
            },
            None => {
                proof {
                    assert forall|i: int| !first_where(before, busy_with(task@), i) by {
                        if 0 <= i < before.len() {
                            assert(before[i].current_task() != Some(task@));
                        }
                    }
                }
                ("[unknown-worker]".to_owned(), None)
            },
        }
    }

    /// Registers `worker` anew: every worker of its name leaves, and it
    /// joins at the end.
    pub fn register(&mut self, worker: Worker<S>)
        ensures
            final(self).workers@ == without_workers_named(old(self).workers@, worker.name()).push(
                worker,
            ),
    {
        let ghost before = self.workers@;
        proof {
            lemma_reregister(before, worker);
        }
        self.remove_worker(worker.get_worker_name());
        self.add_worker(worker);
    }

    /// Picks a worker at random to hand a task to, and tells whether it is
    /// busy; the pool is unchanged.
    pub fn pick_worker(&self) -> (pick: Pick)
        ensures
            pick is Empty <==> self.workers@.len() == 0,
            pick matches Pick::Busy(i) ==> i < self.workers@.len()
                && self.workers@[i as int].current_task() is Some,
            pick matches Pick::Free(i) ==> i < self.workers@.len()
                && self.workers@[i as int].current_task() is None,
    {
        if self.workers.len() == 0 {
            return Pick::Empty;
        }
        let index = random_index(self.workers.len());
        if self.workers[index].task.is_some() {
            Pick::Busy(index)
        } else {
            Pick::Free(index)
        }
    }

    /// Records what became of sending `task` to the worker at `index`. When
    /// it was sent, that worker is now busy with it; when it was not, the
    /// pool is unchanged and the task is to be queued again (`true`).
    pub fn record_delivery(&mut self, index: usize, task: &str, sent: bool) -> (requeue: bool)
        requires
            index < old(self).workers@.len(),
        ensures
            requeue == !sent,
            !sent ==> final(self).workers@ == old(self).workers@,
            sent ==> {
                &&& final(self).workers@.len() == old(self).workers@.len()
                &&& final(self).workers@[index as int].current_task() == Some(task@)
                &&& final(self).workers@[index as int].name() == old(
                    self,
                ).workers@[index as int].name()
                &&& final(self).workers@[index as int].work_load() == old(
                    self,
                ).workers@[index as int].work_load()
                &&& final(self).workers@[index as int].connection() == old(
                    self,
                ).workers@[index as int].connection()
                &&& forall|j: int|
                    0 <= j < old(self).workers@.len() && j != index ==> final(self).workers@[j]
                        == old(self).workers@[j]
            },
    {
        if sent {
            self.workers[index].set_task(Some(task));
            false
        } else {
            true
        }
    }

    /// A worker picked at random, or `None` when the pool is empty.
    pub fn get_random_worker(&mut self) -> (found: Option<&mut Worker<S>>)
        ensures
            found is None <==> old(self).workers@.len() == 0,
            found is None ==> final(self).workers@ == old(self).workers@,
            found matches Some(w) ==> exists|i: int|
                0 <= i < old(self).workers@.len() && *w == old(self).workers@[i] && final(self).workers@ == old(self).workers@.update(i, *final(w)),
    {
        if self.workers.len() == 0 {
            return None;
        }
        let index = random_index(self.workers.len());
        Some(&mut self.workers[index])
    }
}

impl<S> Default for Pool<S> {
    fn default() -> (p: Self)
        ensures
            p.workers@ == Seq::<Worker<S>>::empty(),
    {
        Self::new()
    }
}

/// An empty pool has no two workers of the same name.
pub proof fn lemma_empty_pool_names_distinct<S>()
    ensures
        names_distinct(Seq::<Worker<S>>::empty()),
{
}

/// Adding a worker keeps the workers' names distinct.
pub proof fn lemma_add_keeps_names_distinct<S>(ws: Seq<Worker<S>>, w: Worker<S>)
    requires
        names_distinct(ws),
    ensures
        names_distinct(with_worker(ws, w)),
{
    if !has_worker_named(ws, w.name()) {
        let r = ws.push(w);
        assert forall|i: int, j: int| 0 <= i < j < r.len() implies #[trigger] r[i].name()
            != #[trigger] r[j].name() by {
            if j == ws.len() {
                assert(r[i] == ws[i]);
            }
        }
    }
}

/// Every worker kept by a removal was in the pool before it.
pub proof fn lemma_removal_keeps_from<S>(ws: Seq<Worker<S>>, name: Seq<char>, x: Worker<S>)
    requires
        without_workers_named(ws, name).contains(x),
    ensures
        ws.contains(x),
{
    ws.lemma_filter_contains_rev(not_named(name), x);
}

/// Removing workers keeps the workers' names distinct.
pub proof fn lemma_remove_keeps_names_distinct<S>(ws: Seq<Worker<S>>, name: Seq<char>)
    requires
        names_distinct(ws),
    ensures
        names_distinct(without_workers_named(ws, name)),
    decreases ws.len(),
{
    reveal_with_fuel(Seq::filter, 1);
    if ws.len() > 0 {
        let rest = ws.drop_last();
        assert(names_distinct(rest));
        lemma_remove_keeps_names_distinct(rest, name);
        let fr = without_workers_named(rest, name);
        let r = without_workers_named(ws, name);
        if ws.last().name() != name {
            assert(r == fr.push(ws.last()));
            assert forall|i: int, j: int| 0 <= i < j < r.len() implies #[trigger] r[i].name()
                != #[trigger] r[j].name() by {
                if j == fr.len() {
                    assert(fr.contains(fr[i]));
                    rest.lemma_filter_contains_rev(not_named(name), fr[i]);
                    let k = choose|k: int| 0 <= k < rest.len() && rest[k] == fr[i];
                    assert(ws[k] == rest[k]);
                    assert(k < ws.len() - 1);
                }
            }
        }
    }
}

/// After a removal no worker has the removed name.
pub proof fn lemma_removed_name_absent<S>(ws: Seq<Worker<S>>, name: Seq<char>)
    ensures
        !has_worker_named(without_workers_named(ws, name), name),
{
    broadcast use vstd::seq_lib::group_filter_ensures;

    let r = without_workers_named(ws, name);
    assert forall|i: int| 0 <= i < r.len() implies #[trigger] r[i].name() != name by {
        ws.lemma_filter_pred(not_named(name), i);
    }
}

/// Registering a worker anew (removing every worker of its name, then adding
/// it) always succeeds: the worker ends up last, and the only one of its name.
pub proof fn lemma_reregister<S>(ws: Seq<Worker<S>>, w: Worker<S>)
    ensures
        with_worker(without_workers_named(ws, w.name()), w) == without_workers_named(
            ws,
            w.name(),
        ).push(w),
        first_where(
            with_worker(without_workers_named(ws, w.name()), w),
            named(w.name()),
            without_workers_named(ws, w.name()).len() as int,
        ),
{
    lemma_removed_name_absent(ws, w.name());
    let r = without_workers_named(ws, w.name());
    let r2 = r.push(w);
    assert forall|j: int| 0 <= j < r.len() implies !named::<S>(w.name())(#[trigger] r2[j]) by {
        assert(r2[j] == r[j]);
    }
}

} // verus!
