//! Cooperative tasks and the executor that polls them.
//!
//! Nothing here wakes a task: a task is a state machine that is polled again
//! and again with the context it works on, until it reports that it is ready.

use vstd::prelude::*;
use crate::table::Table;
use crate::table::first_free;
use crate::table::is_next_free;
use crate::table::lemma_first_free;
use crate::table::lemma_next_free_unique;
use crate::table::occupied;
use crate::table::with_added;

verus! {

/// Outcome of polling a task once.
#[derive(Debug, PartialEq, Eq)]
pub enum Poll<T> {
    Ready(T),
    Pending,
}

impl<T: DeepView> DeepView for Poll<T> {
    type V = Poll<T::V>;

    open spec fn deep_view(&self) -> Poll<T::V> {
        match self {
            Poll::Ready(value) => Poll::Ready(value.deep_view()),
            Poll::Pending => Poll::Pending,
        }
    }
}

/// What tasks work on, with its model: the plain values that a poll can
/// read and change.
pub trait Context {
    type World;

    spec fn world(&self) -> Self::World;
}

/// A suspended operation over a context of type `Cx`.
///
/// One poll is a function of the task's model and of the context's model
/// alone, so whole runs can be stated ahead of time. Implementations outside
/// this crate are trusted to poll as their `polled` says.
pub trait Future<Cx: Context>: Sized {
    type Output;

    /// The task as plain values.
    type Model;

    /// The output as plain values.
    type Yield;

    spec fn model(&self) -> Self::Model;

    spec fn yielded(output: Self::Output) -> Self::Yield;

    /// The task, the context and the outcome after one poll.
    spec fn polled(model: Self::Model, world: Cx::World) -> (
        Self::Model,
        Cx::World,
        Poll<Self::Yield>,
    );

    fn poll(&mut self, cx: &mut Cx) -> (outcome: Poll<Self::Output>)
        ensures
            final(self).model() == Self::polled(old(self).model(), old(cx).world()).0,
            final(cx).world() == Self::polled(old(self).model(), old(cx).world()).1,
            match outcome {
                Poll::Ready(output) => Self::polled(old(self).model(), old(cx).world()).2
                    == Poll::Ready(Self::yielded(output)),
                Poll::Pending => Self::polled(old(self).model(), old(cx).world()).2
                    == Poll::<Self::Yield>::Pending,
            },
    ;
}

/// A task that waits to be polled five times and is ready with the count
/// from then on. It leaves its context alone.
pub struct Task {
    char: char,
    time: u32,
}

impl Task {
    /// A task named `char` that has not been polled yet.
    pub fn new(char: char) -> (task: Task)
        ensures
            task.name() == char,
            task.time() == 0,
    {
        Task { char, time: 0 }
    }

    /// The task's name.
    pub closed spec fn name(&self) -> char {
        self.char
    }

    /// How often the task was polled while it was not ready.
    pub closed spec fn time(&self) -> u32 {
        self.time
    }
}

impl<Cx: Context> Future<Cx> for Task {
    type Output = u32;

    type Model = (char, u32);

    type Yield = u32;

    open spec fn model(&self) -> (char, u32) {
        (self.name(), self.time())
    }

    open spec fn yielded(output: u32) -> u32 {
        output
    }

    open spec fn polled(model: (char, u32), world: Cx::World) -> ((char, u32), Cx::World, Poll<u32>) {
        if model.1 >= 5 {
            (model, world, Poll::Ready(model.1))
        } else {
            ((model.0, (model.1 + 1) as u32), world, Poll::Pending)
        }
    }

    fn poll(&mut self, cx: &mut Cx) -> (outcome: Poll<u32>) {
        if self.time >= 5 {
            Poll::Ready(self.time)
        } else {
            self.time += 1;
            Poll::Pending
        }
    }
}

/// The outcome of a poll as plain values.
pub open spec fn outcome_of<Cx: Context, F: Future<Cx>>(outcome: Poll<F::Output>) -> Poll<F::Yield> {
    match outcome {
        Poll::Ready(output) => Poll::Ready(F::yielded(output)),
        Poll::Pending => Poll::Pending,
    }
}

/// The models of the tasks in a table's slots.
pub open spec fn models<Cx: Context, T: Future<Cx>>(slots: Seq<Option<T>>) -> Seq<Option<T::Model>> {
    Seq::new(
        slots.len(),
        |i: int|
            match slots[i] {
                Some(task) => Some(task.model()),
                None => None,
            },
    )
}

/// The models of the tasks in a staging queue.
pub open spec fn queue_models<Cx: Context, T: Future<Cx>>(queue: Seq<T>) -> Seq<T::Model> {
    Seq::new(queue.len(), |i: int| queue[i].model())
}

/// The slots after the staged tasks moved in, first staged first, each to
/// the lowest free slot.
pub open spec fn staged<M>(slots: Seq<Option<M>>, queue: Seq<M>) -> Seq<Option<M>>
    decreases queue.len(),
{
    if queue.len() == 0 {
        slots
    } else {
        staged(with_added(slots, first_free(slots), queue[0]), queue.drop_first())
    }
}

/// A task that is submitted after others moves in after them: it waits in
/// the queue through whatever happens before the next tick, and that tick
/// gives it the lowest slot that the tasks queued before it left free.
pub proof fn lemma_staged_last<M>(slots: Seq<Option<M>>, queue: Seq<M>, task: M)
    ensures
        staged(slots, queue.push(task)) == with_added(
            staged(slots, queue),
            first_free(staged(slots, queue)),
            task,
        ),
    decreases queue.len(),
{
    if queue.len() == 0 {
        assert(queue.push(task).drop_first() =~= queue);
        assert(staged(slots, queue.push(task)) == staged(
            with_added(slots, first_free(slots), task),
            queue,
        ));
    } else {
        let moved = with_added(slots, first_free(slots), queue[0]);
        assert(queue.push(task).drop_first() =~= queue.drop_first().push(task));
        lemma_staged_last(moved, queue.drop_first(), task);
    }
}

/// Moving the queued tasks in keeps every live task in its slot.
pub proof fn lemma_staged_keeps<M>(slots: Seq<Option<M>>, queue: Seq<M>, index: int)
    requires
        0 <= index < slots.len(),
        slots[index] is Some,
    ensures
        index < staged(slots, queue).len(),
        staged(slots, queue)[index] == slots[index],
    decreases queue.len(),
{
    if queue.len() > 0 {
        lemma_first_free(slots);
        let moved = with_added(slots, first_free(slots), queue[0]);
        lemma_staged_keeps(moved, queue.drop_first(), index);
    }
}

/// The slot of a task after it was polled: emptied when the task was ready,
/// else holding the task as the poll left it.
pub open spec fn after_poll<M, Y>(next: M, outcome: Poll<Y>) -> Option<M> {
    if outcome is Ready {
        None
    } else {
        Some(next)
    }
}

/// The slots and the context after every task from slot `from` on was polled
/// once, in slot order.
pub open spec fn swept<Cx: Context, T: Future<Cx, Output = ()>>(
    slots: Seq<Option<T::Model>>,
    cx: Cx::World,
    from: int,
) -> (Seq<Option<T::Model>>, Cx::World)
    decreases slots.len() - from,
{
    if from < 0 || from >= slots.len() {
        (slots, cx)
    } else {
        match slots[from] {
            None => swept::<Cx, T>(slots, cx, from + 1),
            Some(model) => {
                let step = T::polled(model, cx);
                swept::<Cx, T>(slots.update(from, after_poll(step.0, step.2)), step.1, from + 1)
            },
        }
    }
}

/// The slots and the context after one tick: the staged tasks move in, then
/// every live task is polled once.
pub open spec fn ticked<Cx: Context, T: Future<Cx, Output = ()>>(
    slots: Seq<Option<T::Model>>,
    queue: Seq<T::Model>,
    cx: Cx::World,
) -> (Seq<Option<T::Model>>, Cx::World) {
    swept::<Cx, T>(staged(slots, queue), cx, 0)
}

/// A task and its context after it was polled until ready, at most `budget`
/// times.
pub open spec fn blocked<Cx: Context, F: Future<Cx>>(model: F::Model, cx: Cx::World, budget: nat) -> (
    F::Model,
    Cx::World,
    Poll<F::Yield>,
)
    decreases budget,
{
    if budget == 0 {
        (model, cx, Poll::Pending)
    } else {
        let step = F::polled(model, cx);
        if step.2 is Ready {
            step
        } else {
            blocked::<Cx, F>(step.0, step.1, (budget - 1) as nat)
        }
    }
}

/// Drives tasks without threads: a slab of live tasks and a queue of tasks
/// that wait for the next tick.
pub struct Executor<T> {
    tasks: Table<T>,
    queue: Vec<T>,
}

impl<T> Executor<T> {
    /// The live tasks, slot by slot.
    pub closed spec fn tasks(&self) -> Seq<Option<T>> {
        self.tasks@
    }

    /// The tasks that wait for the next tick, first submitted first.
    pub closed spec fn queue(&self) -> Seq<T> {
        self.queue@
    }

    pub closed spec fn wf(&self) -> bool {
        self.tasks.wf()
    }

    pub fn new() -> (executor: Self)
        ensures
            executor.wf(),
            executor.tasks() == Seq::<Option<T>>::empty(),
            executor.queue() == Seq::<T>::empty(),
    {
        Executor { tasks: Table::new(), queue: Vec::new() }
    }

    /// Submits a task. It waits in the queue, and nothing polls it before
    /// the next tick has moved it in.
    pub fn add_task(&mut self, task: T)
        requires
            old(self).wf(),
        ensures
            final(self).wf(),
            final(self).tasks() == old(self).tasks(),
            final(self).queue() == old(self).queue().push(task),
    {
        self.queue.push(task);
    }

    /// Number of live tasks. Tasks that wait in the queue do not count.
    pub fn live(&self) -> (n: usize)
        requires
            self.wf(),
        ensures
            n == occupied(self.tasks()),
    {
        self.tasks.len()
    }

    /// One tick: moves the waiting tasks in, polls every live task once in
    /// slot order, drops those that are ready, and returns how many are
    /// still live.
    pub fn execute<Cx: Context>(&mut self, cx: &mut Cx) -> (left: usize) where
        T: Future<Cx, Output = ()>,

        requires
            old(self).wf(),
        ensures
            final(self).wf(),
            final(self).queue() == Seq::<T>::empty(),
            (models::<Cx, T>(final(self).tasks()), final(cx).world()) == ticked::<Cx, T>(
                models::<Cx, T>(old(self).tasks()),
                queue_models::<Cx, T>(old(self).queue()),
                old(cx).world(),
            ),
            left == occupied(final(self).tasks()),
    {
        let ghost slots0 = models::<Cx, T>(self.tasks@);
        let ghost queue0 = queue_models::<Cx, T>(self.queue@);
        while self.queue.len() > 0
            invariant
                self.tasks.wf(),
                staged(models::<Cx, T>(self.tasks@), queue_models::<Cx, T>(self.queue@)) == staged(
                    slots0,
                    queue0,
                ),
            decreases self.queue@.len(),
        {
            let ghost slots = self.tasks@;
            let ghost queue = self.queue@;
            let task = self.queue.remove(0);
            let index = self.tasks.add(task);
            proof {
                let m = models::<Cx, T>(slots);
                lemma_first_free(m);
                assert(is_next_free(m, index as int));
                lemma_next_free_unique(m, index as int, first_free(m));
                assert(models::<Cx, T>(self.tasks@) =~= with_added(m, first_free(m), task.model()));
                assert(queue_models::<Cx, T>(self.queue@) =~= queue_models::<Cx, T>(
                    queue,
                ).drop_first());
            }
        }
        let ghost cx0 = cx.world();
        let ghost goal = swept::<Cx, T>(models::<Cx, T>(self.tasks@), cx0, 0);
        assert(self.queue@ =~= Seq::<T>::empty());
        let slots = self.tasks.slots();
        let mut i: usize = 0;
        while i < slots
            invariant
                self.tasks.wf(),
                self.queue@ == Seq::<T>::empty(),
                slots == self.tasks@.len(),
                i <= slots,
                swept::<Cx, T>(models::<Cx, T>(self.tasks@), cx.world(), i as int) == goal,
            decreases slots - i,
        {
            let ghost before = self.tasks@;
            let ghost m = models::<Cx, T>(before);
            match self.tasks.take(i) {
                Some(mut task) => {
                    let ghost model = task.model();
                    let ghost cx_before = cx.world();
                    let outcome = task.poll(cx);
                    match outcome {
                        Poll::Ready(_) => {
                            proof {
                                assert(outcome_of::<Cx, T>(outcome) is Ready);
                                assert(models::<Cx, T>(self.tasks@) =~= m.update(i as int, None));
                            }
                        },
                        Poll::Pending => {
                            self.tasks.put(i, task);
                            proof {
                                assert(outcome_of::<Cx, T>(outcome) is Pending);
                                assert(models::<Cx, T>(self.tasks@) =~= m.update(
                                    i as int,
                                    Some(task.model()),
                                ));
                            }
                        },
                    }
                },
                None => {
                    assert(self.tasks@ =~= before);
                },
            }
            i += 1;
        }
        self.tasks.len()
    }
}

/// Polls `future` until it is ready, at most `budget` times, and returns
/// what the last poll returned.
pub fn block<Cx: Context, F: Future<Cx>>(future: &mut F, cx: &mut Cx, budget: usize) -> (outcome:
    Poll<F::Output>)
    ensures
        (final(future).model(), final(cx).world(), outcome_of::<Cx, F>(outcome)) == blocked::<
            Cx,
            F,
        >(
            old(future).model(),
            old(cx).world(),
            budget as nat,
        ),
{
    let ghost goal = blocked::<Cx, F>(future.model(), cx.world(), budget as nat);
    let mut left: usize = budget;
    while left > 0
        invariant
            goal == blocked::<Cx, F>(old(future).model(), old(cx).world(), budget as nat),
            blocked::<Cx, F>(future.model(), cx.world(), left as nat) == goal,
        decreases left,
    {
        let ghost model = future.model();
        let ghost before = cx.world();
        let outcome = future.poll(cx);
        proof {
            let step = F::polled(model, before);
            assert(step == (future.model(), cx.world(), outcome_of::<Cx, F>(outcome)));
            assert(blocked::<Cx, F>(model, before, left as nat) == if step.2 is Ready {
                step
            } else {
                blocked::<Cx, F>(step.0, step.1, (left - 1) as nat)
            });
        }
        if let Poll::Ready(_) = outcome {
            return outcome;
        }
        left -= 1;
    }
    Poll::Pending
}

/// The models of a set of tasks.
pub open spec fn set_models<Cx: Context, F: Future<Cx>>(futures: Seq<F>) -> Seq<F::Model> {
    Seq::new(futures.len(), |i: int| futures[i].model())
}

/// Every member of the set has produced its output.
pub open spec fn all_done<O>(outputs: Seq<Option<O>>) -> bool {
    forall|i: int| 0 <= i < outputs.len() ==> (#[trigger] outputs[i]) is Some
}

/// The outputs after member `at` was polled with `outcome`.
pub open spec fn recorded<O>(outputs: Seq<Option<O>>, at: int, outcome: Poll<O>) -> Seq<Option<O>> {
    match outcome {
        Poll::Ready(value) => outputs.update(at, Some(value)),
        Poll::Pending => outputs,
    }
}

/// One round over a set of tasks from member `from` on: each member that has
/// no output yet is polled once, in order; the others are left alone.
pub open spec fn round<Cx: Context, F: Future<Cx>>(
    set: Seq<F::Model>,
    outputs: Seq<Option<F::Yield>>,
    cx: Cx::World,
    from: int,
) -> (Seq<F::Model>, Seq<Option<F::Yield>>, Cx::World)
    decreases set.len() - from,
{
    if from < 0 || from >= set.len() {
        (set, outputs, cx)
    } else if outputs[from] is Some {
        round::<Cx, F>(set, outputs, cx, from + 1)
    } else {
        let step = F::polled(set[from], cx);
        round::<Cx, F>(set.update(from, step.0), recorded(outputs, from, step.2), step.1, from + 1)
    }
}

/// Rounds over a set of tasks until every member has its output, at most
/// `budget` of them.
pub open spec fn rounds<Cx: Context, F: Future<Cx>>(
    set: Seq<F::Model>,
    outputs: Seq<Option<F::Yield>>,
    cx: Cx::World,
    budget: nat,
) -> (Seq<F::Model>, Seq<Option<F::Yield>>, Cx::World)
    decreases budget,
{
    if budget == 0 || all_done(outputs) {
        (set, outputs, cx)
    } else {
        let after = round::<Cx, F>(set, outputs, cx, 0);
        rounds::<Cx, F>(after.0, after.1, after.2, (budget - 1) as nat)
    }
}

/// The outputs in submission order, once every member has one.
pub open spec fn gathered<O>(outputs: Seq<Option<O>>) -> Option<Seq<O>> {
    if all_done(outputs) {
        Some(Seq::new(outputs.len(), |i: int| outputs[i]->0))
    } else {
        None
    }
}

/// The outputs recorded so far, as plain values.
pub open spec fn recorded_yields<Cx: Context, F: Future<Cx>>(outputs: Seq<Option<F::Output>>) -> Seq<
    Option<F::Yield>,
> {
    Seq::new(
        outputs.len(),
        |i: int|
            match outputs[i] {
                Some(output) => Some(F::yielded(output)),
                None => None,
            },
    )
}

/// The outputs of a set, member by member, as plain values.
pub open spec fn yields<Cx: Context, F: Future<Cx>>(outputs: Seq<F::Output>) -> Seq<F::Yield> {
    Seq::new(outputs.len(), |i: int| F::yielded(outputs[i]))
}

fn is_all_done<O>(outputs: &Vec<Option<O>>) -> (done: bool)
    ensures
        done == all_done(outputs@),
{
    let mut i: usize = 0;
    while i < outputs.len()
        invariant
            i <= outputs@.len(),
            forall|j: int| 0 <= j < i ==> (#[trigger] outputs@[j]) is Some,
        decreases outputs@.len() - i,
    {
        if outputs[i].is_none() {
            return false;
        }
        i += 1;
    }
    true
}

proof fn lemma_all_done_yields<Cx: Context, F: Future<Cx>>(outputs: Seq<Option<F::Output>>)
    ensures
        all_done(recorded_yields::<Cx, F>(outputs)) == all_done(outputs),
{
    let models = recorded_yields::<Cx, F>(outputs);
    if all_done(outputs) {
        assert forall|i: int| 0 <= i < models.len() implies (#[trigger] models[i]) is Some by {
            assert(outputs[i] is Some);
        }
    }
    if all_done(models) {
        assert forall|i: int| 0 <= i < outputs.len() implies (#[trigger] outputs[i]) is Some by {
            assert(models[i] is Some);
        }
    }
}

/// Drives a set of tasks together: round after round, every member that is
/// not ready yet is polled once, in submission order, until all are ready or
/// `budget` rounds are spent. Returns the outputs in submission order, or
/// `None` when the budget ran out first.
pub fn block_all<Cx: Context, F: Future<Cx>>(futures: &mut Vec<F>, cx: &mut Cx, budget: usize) -> (outputs:
    Option<Vec<F::Output>>)
    ensures
        ({
            let run = rounds::<Cx, F>(
                set_models::<Cx, F>(old(futures)@),
                Seq::new(old(futures)@.len(), |i: int| None),
                old(cx).world(),
                budget as nat,
            );
            &&& set_models::<Cx, F>(final(futures)@) == run.0
            &&& final(cx).world() == run.2
            &&& match outputs {
                Some(all) => gathered(run.1) == Some(yields::<Cx, F>(all@)),
                None => gathered(run.1) is None,
            }
        }),
{
    let n = futures.len();
    let mut slots: Vec<Option<F::Output>> = Vec::new();
    while slots.len() < n
        invariant
            slots@.len() <= n,
            forall|j: int| 0 <= j < slots@.len() ==> (#[trigger] slots@[j]) is None,
        decreases n - slots@.len(),
    {
        slots.push(None);
    }
    let ghost start: Seq<Option<F::Yield>> = Seq::new(old(futures)@.len(), |i: int| None);
    assert(recorded_yields::<Cx, F>(slots@) =~= start);
    let ghost goal = rounds::<Cx, F>(
        set_models::<Cx, F>(futures@),
        start,
        cx.world(),
        budget as nat,
    );
    let mut left: usize = budget;
    let mut done = is_all_done(&slots);
    proof {
        lemma_all_done_yields::<Cx, F>(slots@);
    }
    while left > 0 && !done
        invariant
            futures@.len() == n,
            slots@.len() == n,
            done == all_done(recorded_yields::<Cx, F>(slots@)),
            rounds::<Cx, F>(
                set_models::<Cx, F>(futures@),
                recorded_yields::<Cx, F>(slots@),
                cx.world(),
                left as nat,
            ) == goal,
        decreases left,
    {
        let ghost round_goal = round::<Cx, F>(
            set_models::<Cx, F>(futures@),
            recorded_yields::<Cx, F>(slots@),
            cx.world(),
            0,
        );
        let mut i: usize = 0;
        while i < n
            invariant
                futures@.len() == n,
                slots@.len() == n,
                i <= n,
                round::<Cx, F>(
                    set_models::<Cx, F>(futures@),
                    recorded_yields::<Cx, F>(slots@),
                    cx.world(),
                    i as int,
                ) == round_goal,
            decreases n - i,
        {
            let ghost set = set_models::<Cx, F>(futures@);
            let ghost outs = recorded_yields::<Cx, F>(slots@);
            if slots[i].is_none() {
                assert(outs[i as int] is None);
                let outcome = futures[i].poll(cx);
                proof {
                    assert(set_models::<Cx, F>(futures@) =~= set.update(
                        i as int,
                        futures@[i as int].model(),
                    ));
                }
                match outcome {
                    Poll::Ready(value) => {
                        slots[i] = Some(value);
                        proof {
                            assert(recorded_yields::<Cx, F>(slots@) =~= outs.update(
                                i as int,
                                Some(F::yielded(value)),
                            ));
                        }
                    },
                    Poll::Pending => {},
                }
            } else {
                assert(outs[i as int] is Some);
            }
            i += 1;
        }
        left -= 1;
        done = is_all_done(&slots);
        proof {
            lemma_all_done_yields::<Cx, F>(slots@);
        }
    }
    if !done {
        return None;
    }
    let ghost outs = recorded_yields::<Cx, F>(slots@);
    let mut outputs: Vec<F::Output> = Vec::new();
    let mut k: usize = 0;
    while k < n
        invariant
            slots@.len() == n,
            k <= n,
            outputs@.len() == k,
            all_done(outs),
            outs.len() == n,
            forall|j: int| k <= j < n ==> (#[trigger] recorded_yields::<Cx, F>(slots@)[j]) == outs[j],
            forall|j: int| 0 <= j < k ==> Some(F::yielded(#[trigger] outputs@[j])) == outs[j],
        decreases n - k,
    {
        assert(recorded_yields::<Cx, F>(slots@)[k as int] == outs[k as int]);
        assert(outs[k as int] is Some);
        let ghost before = slots@;
        let mut output: Option<F::Output> = None;
        std::mem::swap(&mut output, &mut slots[k]);
        let value = output.unwrap();
        outputs.push(value);
        proof {
            assert forall|j: int| k + 1 <= j < n implies (#[trigger] recorded_yields::<Cx, F>(
                slots@,
            )[j]) == outs[j] by {
                assert(slots@[j] == before[j]);
                assert(recorded_yields::<Cx, F>(before)[j] == outs[j]);
            }
        }
        k += 1;
    }
    assert(yields::<Cx, F>(outputs@) =~= gathered(outs)->0);
    Some(outputs)
}

} // verus!
