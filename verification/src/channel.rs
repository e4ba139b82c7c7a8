//! Item channels: like string channels, but a queue of whole items, of which
//! a read takes one at a time.

use vstd::prelude::*;
use std::collections::VecDeque;
use std::marker::PhantomData;
use std::rc::Rc;
use crate::future::Context;
use crate::future::Future;
use crate::future::Poll;

verus! {

/// What an item channel is, as plain values.
pub struct QueueState<T> {
    pub buffer: Seq<T>,
    pub closed: bool,
}

/// A channel as it is created: empty and open.
pub open spec fn fresh<T>() -> QueueState<T> {
    QueueState { buffer: Seq::empty(), closed: false }
}

/// The channel after a writer offered `item`: queued while the channel is
/// open, dropped once it is closed.
pub open spec fn sent<T>(state: QueueState<T>, item: T) -> QueueState<T> {
    if state.closed {
        state
    } else {
        QueueState { buffer: state.buffer.push(item), closed: false }
    }
}

/// The channel after either side closed it.
pub open spec fn shut<T>(state: QueueState<T>) -> QueueState<T> {
    QueueState { buffer: state.buffer, closed: true }
}

/// The channel after a reader took the first item, if there was one.
pub open spec fn behead<T>(state: QueueState<T>) -> QueueState<T> {
    if state.buffer.len() > 0 {
        QueueState { buffer: state.buffer.drop_first(), closed: state.closed }
    } else {
        state
    }
}

/// What one poll of a read yields: the first item if there is one, else the
/// closed signal (`None`) on a closed channel, else nothing yet.
pub open spec fn read_outcome<T>(state: QueueState<T>) -> Poll<Option<T>> {
    if state.buffer.len() > 0 {
        Poll::Ready(Some(state.buffer[0]))
    } else if state.closed {
        Poll::Ready(None)
    } else {
        Poll::Pending
    }
}

/// A pool's channels with channel `id` replaced, where there is such a
/// channel.
pub open spec fn with_channel<T>(channels: Seq<QueueState<T>>, id: int, state: QueueState<T>) -> Seq<
    QueueState<T>,
> {
    if 0 <= id < channels.len() {
        channels.update(id, state)
    } else {
        channels
    }
}

/// The pool and the outcome after one poll of a read on channel `id`. A
/// channel that the pool does not hold reads as closed.
pub open spec fn read_polled<T>(channels: Seq<QueueState<T>>, id: int) -> (
    Seq<QueueState<T>>,
    Poll<Option<T>>,
) {
    if 0 <= id < channels.len() {
        (channels.update(id, behead(channels[id])), read_outcome(channels[id]))
    } else {
        (channels, Poll::Ready(None))
    }
}

/// Queue and closed flag of one channel.
pub struct Shared<T> {
    buffer: VecDeque<T>,
    closed: bool,
}

impl<T> View for Shared<T> {
    type V = QueueState<T>;

    closed spec fn view(&self) -> QueueState<T> {
        QueueState { buffer: self.buffer@, closed: self.closed }
    }
}

/// Owner of every item channel's state. A channel's place is never given to
/// another channel.
pub struct Channels<T> {
    channels: Vec<Shared<T>>,
}

impl<T> View for Channels<T> {
    type V = Seq<QueueState<T>>;

    closed spec fn view(&self) -> Seq<QueueState<T>> {
        Seq::new(self.channels@.len(), |i: int| self.channels@[i]@)
    }
}

impl<T> Context for Channels<T> {
    type World = Seq<QueueState<T>>;

    open spec fn world(&self) -> Seq<QueueState<T>> {
        self@
    }
}

impl<T> Channels<T> {
    pub fn new() -> (pool: Self)
        ensures
            pool@ == Seq::<QueueState<T>>::empty(),
    {
        let pool = Channels { channels: Vec::new() };
        assert(pool@ =~= Seq::<QueueState<T>>::empty());
        pool
    }

    /// Channel `id` exists and is not closed.
    pub open spec fn is_open(&self, id: int) -> bool {
        0 <= id < self@.len() && !self@[id].closed
    }

    fn open_channel(&mut self) -> (id: usize)
        ensures
            id == old(self)@.len(),
            final(self)@ == old(self)@.push(fresh()),
    {
        let id = self.channels.len();
        self.channels.push(Shared { buffer: VecDeque::new(), closed: false });
        assert(self@ =~= old(self)@.push(fresh()));
        id
    }

    fn push(&mut self, id: usize, item: T) -> (result: Option<()>)
        ensures
            result is Some <==> old(self).is_open(id as int),
            final(self)@ == with_channel(old(self)@, id as int, sent(old(self)@[id as int], item)),
    {
        if id < self.channels.len() && !self.channels[id].closed {
            self.channels[id].buffer.push_back(item);
            assert(self@ =~= with_channel(old(self)@, id as int, sent(old(self)@[id as int], item)));
            Some(())
        } else {
            assert(self@ =~= with_channel(old(self)@, id as int, sent(old(self)@[id as int], item)));
            None
        }
    }

    fn shut(&mut self, id: usize)
        ensures
            final(self)@ == with_channel(old(self)@, id as int, shut(old(self)@[id as int])),
    {
        if id < self.channels.len() {
            self.channels[id].closed = true;
        }
        assert(self@ =~= with_channel(old(self)@, id as int, shut(old(self)@[id as int])));
    }

    fn take(&mut self, id: usize) -> (outcome: Poll<Option<T>>)
        ensures
            (final(self)@, outcome) == read_polled(old(self)@, id as int),
    {
        if id >= self.channels.len() {
            return Poll::Ready(None);
        }
        let first = self.channels[id].buffer.pop_front();
        assert(self@ =~= old(self)@.update(id as int, behead(old(self)@[id as int]))) by {
            let before = old(self)@[id as int].buffer;
            if before.len() > 0 {
                assert(before.subrange(1, before.len() as int) =~= before.drop_first());
            } else {
                assert(self@[id as int].buffer =~= before);
            }
        }
        match first {
            Some(item) => Poll::Ready(Some(item)),
            None => {
                if self.channels[id].closed {
                    Poll::Ready(None)
                } else {
                    Poll::Pending
                }
            },
        }
    }
}

/// The writing end of an item channel.
pub struct Tx<T> {
    id: usize,
    item: PhantomData<T>,
}

impl<T> Tx<T> {
    pub closed spec fn channel(&self) -> int {
        self.id as int
    }

    /// Queues `data`. Fails, and queues nothing, once the channel is closed.
    pub fn send(&self, pool: &mut Channels<T>, data: T) -> (result: Option<()>)
        ensures
            result is Some <==> old(pool).is_open(self.channel()),
            final(pool)@ == with_channel(
                old(pool)@,
                self.channel(),
                sent(old(pool)@[self.channel()], data),
            ),
    {
        pool.push(self.id, data)
    }

    /// Gives the writing end up: the channel is closed for good.
    pub fn close(self, pool: &mut Channels<T>)
        ensures
            final(pool)@ == with_channel(
                old(pool)@,
                self.channel(),
                shut(old(pool)@[self.channel()]),
            ),
    {
        pool.shut(self.id)
    }
}

/// The reading end of an item channel.
pub struct Rx<T> {
    id: usize,
    item: PhantomData<T>,
}

/// A read of one item in progress.
pub struct ReadingTask<T> {
    id: usize,
    item: PhantomData<T>,
}

impl<T> Future<Channels<T>> for ReadingTask<T> {
    type Output = Option<T>;

    type Model = int;

    type Yield = Option<T>;

    closed spec fn model(&self) -> int {
        self.id as int
    }

    open spec fn yielded(output: Option<T>) -> Option<T> {
        output
    }

    open spec fn polled(model: int, world: Seq<QueueState<T>>) -> (
        int,
        Seq<QueueState<T>>,
        Poll<Option<T>>,
    ) {
        (model, read_polled(world, model).0, read_polled(world, model).1)
    }

    fn poll(&mut self, cx: &mut Channels<T>) -> (outcome: Poll<Option<T>>) {
        cx.take(self.id)
    }
}

impl<T> Rx<T> {
    pub closed spec fn channel(&self) -> int {
        self.id as int
    }

    /// Starts a read of the first queued item.
    pub fn read(&self) -> (task: ReadingTask<T>)
        ensures
            task.model() == self.channel(),
    {
        ReadingTask { id: self.id, item: PhantomData }
    }

    /// Gives the reading end up: the channel is closed for good.
    pub fn close(self, pool: &mut Channels<T>)
        ensures
            final(pool)@ == with_channel(
                old(pool)@,
                self.channel(),
                shut(old(pool)@[self.channel()]),
            ),
    {
        pool.shut(self.id)
    }
}

/// Makes an item channel in `pool` and returns its two ends, the writing
/// end ready to be shared.
pub fn new_channel<T>(pool: &mut Channels<T>) -> (ends: (Rc<Tx<T>>, Rx<T>))
    ensures
        final(pool)@ == old(pool)@.push(fresh()),
        ends.0.channel() == old(pool)@.len(),
        ends.1.channel() == old(pool)@.len(),
{
    let id = pool.open_channel();
    (Rc::new(Tx { id, item: PhantomData }), Rx { id, item: PhantomData })
}

/// Items are read in the order in which they were sent, one per read, and
/// an item that was sent before the channel closed is still read after.
pub proof fn lemma_items_in_order<T>(state: QueueState<T>, first: T, second: T)
    requires
        !state.closed,
        state.buffer.len() == 0,
    ensures
        ({
            let queued = shut(sent(sent(state, first), second));
            &&& read_outcome(queued) == Poll::Ready(Some(first))
            &&& read_outcome(behead(queued)) == Poll::Ready(Some(second))
            &&& read_outcome(behead(behead(queued))) == Poll::<Option<T>>::Ready(None)
        }),
{
}

} // verus!
