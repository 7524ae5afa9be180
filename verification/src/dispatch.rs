//! The bounded dispatcher: which task may start now, with never more than a
//! fixed number of tasks under way.
//!
//! The dispatcher runs nothing itself. It is asked what to do next and told
//! when a task has ended; whoever drives it starts the tasks and waits for
//! them.

use vstd::prelude::*;

verus! {

/// Where one task stands.
pub enum Slot<T> {
    /// Not started yet.
    Waiting,
    /// Started and not yet ended: it holds one place under the limit.
    Running,
    /// Ended, with what it brought, or with nothing if it failed.
    Finished(Option<T>),
}

/// What to do next.
#[derive(Clone, Copy, Debug, PartialEq, Eq)]
pub enum Step {
    /// Start the task with this number.
    Start(usize),
    /// Nothing can start: wait for a task under way to end.
    Wait,
    /// Every task has ended.
    Done,
}

/// What a dispatcher is: its limit, where each task stands, and
/// how many tasks have been started. Tasks start in the order of their
/// numbers.
pub struct DispatcherView<T> {
    pub limit: nat,
    pub slots: Seq<Slot<T>>,
    pub started: nat,
}

/// The number of tasks under way.
pub open spec fn running_in<T>(slots: Seq<Slot<T>>) -> nat
    decreases slots.len(),
{
    if slots.len() == 0 {
        0
    } else {
        running_in(slots.drop_last()) + if slots.last() is Running {
            1nat
        } else {
            0nat
        }
    }
}

/// What each task brought, in the order of the tasks; nothing for a task
/// that failed or has not ended.
pub open spec fn outcomes_of<T>(slots: Seq<Slot<T>>) -> Seq<Option<T>> {
    Seq::new(
        slots.len(),
        |i: int|
            match slots[i] {
                Slot::Finished(outcome) => outcome,
                _ => None,
            },
    )
}

impl<T> DispatcherView<T> {
    /// The number of tasks under way.
    pub open spec fn running(self) -> nat {
        running_in(self.slots)
    }

    /// The limit admits at least one task, no more tasks are under way than
    /// it admits, and the tasks started are those before `started`.
    pub open spec fn wf(self) -> bool {
        &&& self.limit >= 1
        &&& self.slots.len() <= usize::MAX
        &&& self.started <= self.slots.len()
        &&& self.running() <= self.limit
        &&& forall|i: int| 0 <= i < self.started ==> !(#[trigger] self.slots[i] is Waiting)
        &&& forall|i: int|
            self.started <= i < self.slots.len() ==> #[trigger] self.slots[i] is Waiting
    }

    /// Every task has ended.
    pub open spec fn is_done(self) -> bool {
        forall|i: int| 0 <= i < self.slots.len() ==> #[trigger] self.slots[i] is Finished
    }

    /// The steps left to do: a start and an end for each task not started,
    /// an end for each task under way.
    pub open spec fn work_left(self) -> nat {
        (2 * (self.slots.len() - self.started) + self.running()) as nat
    }

    /// A task can start: one is left and the limit is not reached.
    pub open spec fn can_start(self) -> bool {
        self.started < self.slots.len() && self.running() < self.limit
    }

    /// The next step, and the dispatcher after it.
    pub open spec fn poll(self) -> (Self, Step) {
        if self.can_start() {
            (
                DispatcherView {
                    slots: self.slots.update(self.started as int, Slot::Running),
                    started: self.started + 1,
                    ..self
                },
                Step::Start(self.started as usize),
            )
        } else if self.running() > 0 {
            (self, Step::Wait)
        } else {
            (self, Step::Done)
        }
    }

    /// The dispatcher after task `task` has ended with `outcome`; `None` if
    /// that task is not under way.
    pub open spec fn complete(self, task: int, outcome: Option<T>) -> Option<Self> {
        if 0 <= task < self.slots.len() && self.slots[task] is Running {
            Some(DispatcherView { slots: self.slots.update(task, Slot::Finished(outcome)), ..self })
        } else {
            None
        }
    }
}

/// Changing where one task stands changes the number of tasks under way by
/// that task alone.
pub proof fn lemma_running_update<T>(slots: Seq<Slot<T>>, i: int, slot: Slot<T>)
    requires
        0 <= i < slots.len(),
    ensures
        running_in(slots.update(i, slot)) + (if slots[i] is Running {
            1nat
        } else {
            0nat
        }) == running_in(slots) + (if slot is Running {
            1nat
        } else {
            0nat
        }),
    decreases slots.len(),
{
    let after = slots.update(i, slot);
    if i == slots.len() - 1 {
        assert(after.drop_last() =~= slots.drop_last());
    } else {
        lemma_running_update(slots.drop_last(), i, slot);
        assert(after.drop_last() =~= slots.drop_last().update(i, slot));
    }
}

/// No task is under way exactly when none of them is marked so, and a task
/// under way counts.
pub proof fn lemma_running_none<T>(slots: Seq<Slot<T>>)
    ensures
        running_in(slots) == 0 <==> forall|i: int|
            0 <= i < slots.len() ==> !(#[trigger] slots[i] is Running),
        running_in(slots) <= slots.len(),
    decreases slots.len(),
{
    if slots.len() > 0 {
        let rest = slots.drop_last();
        lemma_running_none(rest);
        if running_in(slots) == 0 {
            assert forall|i: int| 0 <= i < slots.len() implies !(#[trigger] slots[i] is Running) by {
                if i < rest.len() {
                    assert(rest[i] == slots[i]);
                }
            }
        }
        if forall|i: int| 0 <= i < slots.len() ==> !(#[trigger] slots[i] is Running) {
            assert forall|i: int| 0 <= i < rest.len() implies !(#[trigger] rest[i] is Running) by {
                assert(rest[i] == slots[i]);
            }
        }
    }
}

/// The limit holds: after any step, no more tasks are under way than the
/// limit admits, whatever the number of tasks.
pub proof fn lemma_poll_keeps_limit<T>(d: DispatcherView<T>)
    requires
        d.wf(),
    ensures
        d.poll().0.wf(),
        d.poll().0.running() <= d.limit,
        d.poll().0.limit == d.limit,
        d.poll().0.slots.len() == d.slots.len(),
{
    if d.can_start() {
        lemma_running_update(d.slots, d.started as int, Slot::Running);
    }
}

/// The limit holds when a task ends, and the task gives its place back.
pub proof fn lemma_complete_keeps_limit<T>(d: DispatcherView<T>, task: int, outcome: Option<T>)
    requires
        d.wf(),
        d.complete(task, outcome) is Some,
    ensures
        d.complete(task, outcome).unwrap().wf(),
        d.complete(task, outcome).unwrap().running() + 1 == d.running(),
        d.complete(task, outcome).unwrap().slots.len() == d.slots.len(),
{
    lemma_running_update(d.slots, task, Slot::Finished(outcome));
}

/// A task is started once: the step that starts a task names the first task
/// not started yet, and from then on that task is never named again.
pub proof fn lemma_started_once<T>(d: DispatcherView<T>)
    requires
        d.wf(),
    ensures
        d.poll().1 matches Step::Start(task) ==> task == d.started && d.slots[task as int]
            is Waiting && d.poll().0.started == task + 1 && d.poll().0.slots[task as int]
            is Running,
{
}

/// The dispatcher is never stuck and never ends early: it says `Done`
/// exactly when every task has ended, and it says `Wait` only while a task
/// is under way.
pub proof fn lemma_progress<T>(d: DispatcherView<T>)
    requires
        d.wf(),
    ensures
        d.poll().1 == Step::Done <==> d.is_done(),
        d.poll().1 == Step::Wait ==> d.running() > 0,
{
    lemma_running_none(d.slots);
    if d.is_done() {
        if d.started < d.slots.len() {
            assert(d.slots[d.started as int] is Finished);
        }
    }
    if d.poll().1 == Step::Done {
        assert forall|i: int| 0 <= i < d.slots.len() implies #[trigger] d.slots[i] is Finished by {
            assert(!(d.slots[i] is Running));
            assert(!(d.slots[i] is Waiting));
        }
    }
}

/// The dispatcher comes to its end: each start and each end of a task
/// leaves one step less to do, and nothing is left to do exactly when every
/// task has ended. So `tasks` tasks are through after `tasks` starts and
/// `tasks` ends.
pub proof fn lemma_work_left<T>(d: DispatcherView<T>, task: int, outcome: Option<T>)
    requires
        d.wf(),
    ensures
        d.poll().1 is Start ==> d.poll().0.work_left() + 1 == d.work_left(),
        d.complete(task, outcome) is Some ==> d.complete(task, outcome).unwrap().work_left() + 1
            == d.work_left(),
        d.work_left() == 0 <==> d.is_done(),
{
    lemma_progress(d);
    if d.can_start() {
        lemma_running_update(d.slots, d.started as int, Slot::Running);
    }
    if d.complete(task, outcome) is Some {
        lemma_running_update(d.slots, task, Slot::Finished(outcome));
    }
}

/// A task that fails holds nobody up: whether a task ends with something or
/// with nothing, the other tasks stand where they stood, the limit leaves the
/// same room, and the next step is the same.
pub proof fn lemma_failure_is_local<T>(d: DispatcherView<T>, task: int, brought: T)
    requires
        d.wf(),
        d.complete(task, None) is Some,
    ensures
        d.complete(task, Some(brought)) is Some,
        ({
            let failed = d.complete(task, None).unwrap();
            let succeeded = d.complete(task, Some(brought)).unwrap();
            &&& failed.running() == succeeded.running()
            &&& failed.started == succeeded.started
            &&& failed.poll().1 == succeeded.poll().1
            &&& forall|i: int|
                0 <= i < d.slots.len() && i != task ==> failed.slots[i] == d.slots[i]
                    && succeeded.slots[i] == d.slots[i]
        }),
{
    lemma_running_update(d.slots, task, Slot::Finished(None));
    lemma_running_update(d.slots, task, Slot::Finished(Some(brought)));
}

/// A dispatcher of a fixed number of tasks of which a fixed number may be under way.
pub struct Dispatcher<T> {
    limit: usize,
    slots: Vec<Slot<T>>,
    started: usize,
    running: usize,
}

impl<T> View for Dispatcher<T> {
    type V = DispatcherView<T>;

    closed spec fn view(&self) -> DispatcherView<T> {
        DispatcherView {
            limit: self.limit as nat,
            slots: self.slots@,
            started: self.started as nat,
        }
    }
}

impl<T> Dispatcher<T> {
    /// What holds of every dispatcher that this library hands out.
    pub closed spec fn wf(&self) -> bool {
        &&& self@.wf()
        &&& self.running == self@.running()
    }

    /// A well-formed dispatcher has a well-formed view.
    pub proof fn lemma_wf(&self)
        requires
            self.wf(),
        ensures
            self@.wf(),
            self@.running() <= self@.limit,
    {
    }

    /// A dispatcher of `tasks` tasks, none started, of which at most `limit`
    /// may be under way at once. `None` for a limit of zero, which would
    /// admit nothing.
    pub fn new(tasks: usize, limit: usize) -> (r: Option<Self>)
        ensures
            r is Some <==> limit >= 1,
            r matches Some(d) ==> d.wf() && d@ == (DispatcherView::<T> {
                limit: limit as nat,
                slots: Seq::new(tasks as nat, |i: int| Slot::Waiting),
                started: 0,
            }),
    {
        if limit == 0 {
            return None;
        }
        let mut slots: Vec<Slot<T>> = Vec::new();
        let mut i: usize = 0;
        while i < tasks
            invariant
                i <= tasks,
                slots@.len() == i,
                forall|j: int| 0 <= j < i ==> #[trigger] slots@[j] is Waiting,
            decreases tasks - i,
        {
            slots.push(Slot::Waiting);
            i = i + 1;
        }
        proof {
            lemma_running_none(slots@);
            assert(slots@ =~= Seq::new(tasks as nat, |i: int| Slot::<T>::Waiting));
        }
        Some(Dispatcher { limit, slots, started: 0, running: 0 })
    }

    /// The number of tasks.
    pub fn len(&self) -> (n: usize)
        ensures
            n == self@.slots.len(),
    {
        self.slots.len()
    }

    /// How many tasks may be under way at once.
    pub fn limit(&self) -> (n: usize)
        ensures
            n == self@.limit,
    {
        self.limit
    }

    /// The number of tasks under way, which the limit bounds.
    pub fn running(&self) -> (n: usize)
        requires
            self.wf(),
        ensures
            n == self@.running(),
            n <= self@.limit,
    {
        self.running
    }

    /// Whether every task has ended.
    pub fn is_done(&self) -> (b: bool)
        requires
            self.wf(),
        ensures
            b == self@.is_done(),
    {
        proof {
            lemma_progress(self@);
        }
        self.started >= self.slots.len() && self.running == 0
    }

    /// Says what to do next. A task is started as soon as one is left and
    /// the limit is not reached; the task named counts as under way from then on.
    pub fn poll(&mut self) -> (step: Step)
        requires
            old(self).wf(),
        ensures
            final(self).wf(),
            (final(self)@, step) == old(self)@.poll(),
            final(self)@.running() <= final(self)@.limit,
    {
        proof {
            lemma_poll_keeps_limit(self@);
        }
        if self.started < self.slots.len() && self.running < self.limit {
            let task: usize = self.started;
            self.slots[task] = Slot::Running;
            self.started = task + 1;
            self.running = self.running + 1;
            proof {
                lemma_running_update(old(self).slots@, task as int, Slot::Running);
            }
            Step::Start(task)
        } else if self.running > 0 {
            Step::Wait
        } else {
            Step::Done
        }
    }

    /// Records that task `task` has ended, with what it brought or with
    /// nothing if it failed, and gives its place back. Returns
    /// `false`, and changes nothing, if that task is not under way.
    pub fn complete(&mut self, task: usize, outcome: Option<T>) -> (accepted: bool)
        requires
            old(self).wf(),
        ensures
            final(self).wf(),
            accepted == old(self)@.complete(task as int, outcome) is Some,
            accepted ==> Some(final(self)@) == old(self)@.complete(task as int, outcome),
            !accepted ==> final(self)@ == old(self)@,
    {
        if task >= self.slots.len() {
            return false;
        }
        let under_way = match &self.slots[task] {
            Slot::Running => true,
            _ => false,
        };
        if !under_way {
            return false;
        }
        proof {
            lemma_complete_keeps_limit(self@, task as int, outcome);
            lemma_running_update(self.slots@, task as int, Slot::Finished(outcome));
        }
        self.slots[task] = Slot::Finished(outcome);
        self.running = self.running - 1;
        true
    }

    /// What the tasks brought, one outcome for each task in the order of the
    /// tasks, once every task has ended; before that, `None`.
    pub fn into_outcomes(self) -> (r: Option<Vec<Option<T>>>)
        requires
            self.wf(),
        ensures
            r is Some <==> self@.is_done(),
            r matches Some(outcomes) ==> outcomes@ == outcomes_of(self@.slots)
                && outcomes@.len() == self@.slots.len(),
    {
        if !self.is_done() {
            return None;
        }
        let ghost slots = self.slots@;
        let mut outcomes: Vec<Option<T>> = Vec::new();
        for slot in it: self.slots.into_iter()
            invariant
                it.seq() == slots,
                outcomes@ == outcomes_of(slots.take(it.index() as int)),
        {
            assert(outcomes_of(slots.take(it.index() + 1)) =~= outcomes_of(
                slots.take(it.index() as int),
            ).push(
                match slot {
                    Slot::Finished(outcome) => outcome,
                    _ => None,
                },
            ));
            match slot {
                Slot::Finished(outcome) => outcomes.push(outcome),
                _ => outcomes.push(None),
            }
        }
        assert(slots.take(slots.len() as int) == slots);
        Some(outcomes)
    }
}

/// The outcomes that are present, in order.
pub open spec fn present<T>(outcomes: Seq<Option<T>>) -> Seq<T>
    decreases outcomes.len(),
{
    if outcomes.len() == 0 {
        Seq::empty()
    } else {
        match outcomes.last() {
            Some(brought) => present(outcomes.drop_last()).push(brought),
            None => present(outcomes.drop_last()),
        }
    }
}

/// Whatever is present was brought by some task, and whatever a task
/// brought is present.
pub proof fn lemma_present_members<T>(outcomes: Seq<Option<T>>)
    ensures
        forall|k: int|
            0 <= k < present(outcomes).len() ==> exists|i: int|
                0 <= i < outcomes.len() && #[trigger] outcomes[i] == Some(
                    #[trigger] present(outcomes)[k],
                ),
        forall|i: int|
            0 <= i < outcomes.len() && #[trigger] outcomes[i] is Some ==> present(
                outcomes,
            ).contains(outcomes[i].unwrap()),
    decreases outcomes.len(),
{
    let kept = present(outcomes);
    if outcomes.len() > 0 {
        let rest = outcomes.drop_last();
        let last = outcomes.len() - 1;
        lemma_present_members(rest);
        assert forall|k: int| 0 <= k < kept.len() implies exists|i: int|
            0 <= i < outcomes.len() && #[trigger] outcomes[i] == Some(#[trigger] kept[k]) by {
            if k < present(rest).len() {
                assert(kept[k] == present(rest)[k]);
                let i = choose|i: int|
                    0 <= i < rest.len() && #[trigger] rest[i] == Some(present(rest)[k]);
                assert(outcomes[i] == rest[i]);
            } else {
                assert(outcomes[last] == Some(kept[k]));
            }
        }
        assert forall|i: int| 0 <= i < outcomes.len() && #[trigger] outcomes[i] is Some implies kept.contains(
            outcomes[i].unwrap(),
        ) by {
            if i < last {
                assert(rest[i] == outcomes[i]);
                let k = choose|k: int|
                    0 <= k < present(rest).len() && present(rest)[k] == rest[i].unwrap();
                assert(kept[k] == outcomes[i].unwrap());
            } else {
                assert(kept[kept.len() - 1] == outcomes[i].unwrap());
            }
        }
    }
}

/// Drops the tasks that brought nothing and keeps what the others brought,
/// in the order of the tasks.
pub fn successes<T>(outcomes: Vec<Option<T>>) -> (r: Vec<T>)
    ensures
        r@ == present(outcomes@),
{
    let ghost all = outcomes@;
    let mut kept: Vec<T> = Vec::new();
    for outcome in it: outcomes.into_iter()
        invariant
            it.seq() == all,
            kept@ == present(all.take(it.index() as int)),
    {
        assert(all.take(it.index() + 1).drop_last() == all.take(it.index() as int));
        if let Some(brought) = outcome {
            kept.push(brought);
        }
    }
    assert(all.take(all.len() as int) == all);
    kept
}

} // verus!
