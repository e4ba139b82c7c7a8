//! String channels: one buffer of characters and a closed flag per channel,
//! written by any number of writers and drained by one reader.
//!
//! The channels' state lives in a [`ChannelPool`]; the endpoints are small
//! handles that name a channel of the pool. A channel's place in the pool is
//! never given to another channel, so a stale handle can only ever find its
//! own channel, closed.

use vstd::prelude::*;
use vstd::string::StringExecFns;
use crate::future::Poll;
use crate::future::Context;
use crate::future::Future;

verus! {

/// `String::push` appends one character.
pub assume_specification[ String::push ](s: &mut String, ch: char)
    ensures
        final(s)@ == old(s)@.push(ch),
;

/// `String::remove` at byte index 0 of a string that is not empty takes the
/// first character out and returns it.
pub assume_specification[ String::remove ](s: &mut String, idx: usize) -> (ch: char)
    requires
        idx == 0,
        old(s)@.len() > 0,
    ensures
        ch == old(s)@[0],
        final(s)@ == old(s)@.subrange(1, old(s)@.len() as int),
;

/// What a channel is, as plain values.
pub struct ChannelState {
    pub buffer: Seq<char>,
    pub closed: bool,
}

/// A channel as it is created: empty and open.
pub open spec fn fresh() -> ChannelState {
    ChannelState { buffer: Seq::empty(), closed: false }
}

/// The channel after a writer offered `data`: appended while the channel is
/// open, dropped once it is closed.
pub open spec fn sent(state: ChannelState, data: Seq<char>) -> ChannelState {
    if state.closed {
        state
    } else {
        ChannelState { buffer: state.buffer + data, closed: false }
    }
}

/// The channel after either side closed it. What is buffered stays readable.
pub open spec fn shut(state: ChannelState) -> ChannelState {
    ChannelState { buffer: state.buffer, closed: true }
}

/// The channel after a reader took everything that was buffered.
pub open spec fn drained(state: ChannelState) -> ChannelState {
    ChannelState { buffer: Seq::empty(), closed: state.closed }
}

/// What one poll of a read yields: the whole buffer if there is any, else the
/// closed signal (`None`) on a closed channel, else nothing yet.
pub open spec fn read_outcome(state: ChannelState) -> Poll<Option<Seq<char>>> {
    if state.buffer.len() > 0 {
        Poll::Ready(Some(state.buffer))
    } else if state.closed {
        Poll::Ready(None)
    } else {
        Poll::Pending
    }
}

/// The channel after one poll of a character read: the first character
/// leaves, the rest stays buffered in order.
pub open spec fn behead(state: ChannelState) -> ChannelState {
    if state.buffer.len() > 0 {
        ChannelState { buffer: state.buffer.drop_first(), closed: state.closed }
    } else {
        state
    }
}

/// What one poll of a character read yields.
pub open spec fn read_char_outcome(state: ChannelState) -> Poll<Option<char>> {
    if state.buffer.len() > 0 {
        Poll::Ready(Some(state.buffer[0]))
    } else if state.closed {
        Poll::Ready(None)
    } else {
        Poll::Pending
    }
}

/// The pool and the outcome after one poll of a read on channel `id`. A
/// channel that the pool does not hold reads as closed.
pub open spec fn read_polled(channels: Seq<ChannelState>, id: int) -> (
    Seq<ChannelState>,
    Poll<Option<Seq<char>>>,
) {
    if 0 <= id < channels.len() {
        (channels.update(id, drained(channels[id])), read_outcome(channels[id]))
    } else {
        (channels, Poll::Ready(None))
    }
}

/// The pool and the outcome after one poll of a character read on channel
/// `id`.
pub open spec fn read_char_polled(channels: Seq<ChannelState>, id: int) -> (
    Seq<ChannelState>,
    Poll<Option<char>>,
) {
    if 0 <= id < channels.len() {
        (channels.update(id, behead(channels[id])), read_char_outcome(channels[id]))
    } else {
        (channels, Poll::Ready(None))
    }
}

/// A pool's channels with channel `id` replaced, where there is such a
/// channel.
pub open spec fn with_channel(
    channels: Seq<ChannelState>,
    id: int,
    state: ChannelState,
) -> Seq<ChannelState> {
    if 0 <= id < channels.len() {
        channels.update(id, state)
    } else {
        channels
    }
}

/// Buffer and closed flag of one channel.
pub struct Shared {
    buffer: String,
    closed: bool,
}

impl View for Shared {
    type V = ChannelState;

    closed spec fn view(&self) -> ChannelState {
        ChannelState { buffer: self.buffer@, closed: self.closed }
    }
}

/// Owner of every channel's state.
pub struct ChannelPool {
    channels: Vec<Shared>,
}

impl View for ChannelPool {
    type V = Seq<ChannelState>;

    closed spec fn view(&self) -> Seq<ChannelState> {
        Seq::new(self.channels@.len(), |i: int| self.channels@[i]@)
    }
}

impl Context for ChannelPool {
    type World = Seq<ChannelState>;

    open spec fn world(&self) -> Seq<ChannelState> {
        self@
    }
}

impl ChannelPool {
    pub fn new() -> (pool: Self)
        ensures
            pool@ == Seq::<ChannelState>::empty(),
    {
        let pool = ChannelPool { channels: Vec::new() };
        assert(pool@ =~= Seq::<ChannelState>::empty());
        pool
    }

    /// Channel `id` exists and is not closed.
    pub open spec fn is_open(&self, id: int) -> bool {
        0 <= id < self@.len() && !self@[id].closed
    }

    /// Number of channels ever made in this pool.
    pub fn len(&self) -> (n: usize)
        ensures
            n == self@.len(),
    {
        self.channels.len()
    }

    /// Whether channel `id` has been closed. A channel that the pool does
    /// not hold counts as closed.
    pub fn is_closed(&self, id: usize) -> (closed: bool)
        ensures
            closed == !self.is_open(id as int),
    {
        if id < self.channels.len() {
            self.channels[id].closed
        } else {
            true
        }
    }

    fn open_channel(&mut self) -> (id: usize)
        ensures
            id == old(self)@.len(),
            final(self)@ == old(self)@.push(fresh()),
    {
        let id = self.channels.len();
        self.channels.push(Shared { buffer: String::new(), closed: false });
        assert(self@ =~= old(self)@.push(fresh()));
        id
    }

    fn push_str(&mut self, id: usize, data: &str) -> (result: Option<()>)
        ensures
            result is Some <==> old(self).is_open(id as int),
            final(self)@ == with_channel(old(self)@, id as int, sent(old(self)@[id as int], data@)),
    {
        if id < self.channels.len() && !self.channels[id].closed {
            self.channels[id].buffer.append(data);
            assert(self@ =~= with_channel(old(self)@, id as int, sent(old(self)@[id as int], data@)));
            Some(())
        } else {
            assert(self@ =~= with_channel(old(self)@, id as int, sent(old(self)@[id as int], data@)));
            None
        }
    }

    fn push_char(&mut self, id: usize, data: char) -> (result: Option<()>)
        ensures
            result is Some <==> old(self).is_open(id as int),
            final(self)@ == with_channel(
                old(self)@,
                id as int,
                sent(old(self)@[id as int], seq![data]),
            ),
    {
        if id < self.channels.len() && !self.channels[id].closed {
            self.channels[id].buffer.push(data);
            assert(old(self)@[id as int].buffer.push(data) =~= old(self)@[id as int].buffer
                + seq![data]);
            assert(self@ =~= with_channel(
                old(self)@,
                id as int,
                sent(old(self)@[id as int], seq![data]),
            ));
            Some(())
        } else {
            assert(self@ =~= with_channel(
                old(self)@,
                id as int,
                sent(old(self)@[id as int], seq![data]),
            ));
            None
        }
    }

    fn shut(&mut self, id: usize)
        ensures
            final(self)@ == with_channel(old(self)@, id as int, shut(old(self)@[id as int])),
    {
        if id < self.channels.len() {
            self.channels[id].closed = true;
        }
        assert(self@ =~= with_channel(old(self)@, id as int, shut(old(self)@[id as int])));
    }

    fn take_all(&mut self, id: usize) -> (outcome: Poll<Option<String>>)
        ensures
            (final(self)@, outcome.deep_view()) == read_polled(old(self)@, id as int),
    {
        if id >= self.channels.len() {
            return Poll::Ready(None);
        }
        let mut data = String::new();
        std::mem::swap(&mut data, &mut self.channels[id].buffer);
        assert(self@ =~= old(self)@.update(id as int, drained(old(self)@[id as int])));
        if !data.as_str().is_empty() {
            Poll::Ready(Some(data))
        } else if self.channels[id].closed {
            Poll::Ready(None)
        } else {
            Poll::Pending
        }
    }

    fn take_char(&mut self, id: usize) -> (outcome: Poll<Option<char>>)
        ensures
            (final(self)@, outcome.deep_view()) == read_char_polled(old(self)@, id as int),
    {
        if id >= self.channels.len() {
            return Poll::Ready(None);
        }
        if !self.channels[id].buffer.as_str().is_empty() {
            let first = self.channels[id].buffer.remove(0);
            assert(old(self)@[id as int].buffer.subrange(
                1,
                old(self)@[id as int].buffer.len() as int,
            ) =~= old(self)@[id as int].buffer.drop_first());
            assert(self@ =~= old(self)@.update(id as int, behead(old(self)@[id as int])));
            Poll::Ready(Some(first))
        } else {
            assert(self@ =~= old(self)@.update(id as int, behead(old(self)@[id as int])));
            if self.channels[id].closed {
                Poll::Ready(None)
            } else {
                Poll::Pending
            }
        }
    }
}

/// The writing end of a channel. There is one per channel; writers share it
/// by reference count, and the holder of the last reference closes it.
pub struct Tx {
    id: usize,
}

impl Tx {
    /// The channel's place in its pool.
    pub closed spec fn channel(&self) -> int {
        self.id as int
    }

    /// Appends `data` to the channel's buffer. Fails, and appends nothing,
    /// once the channel is closed.
    pub fn send(&self, pool: &mut ChannelPool, data: &str) -> (result: Option<()>)
        ensures
            result is Some <==> old(pool).is_open(self.channel()),
            final(pool)@ == with_channel(
                old(pool)@,
                self.channel(),
                sent(old(pool)@[self.channel()], data@),
            ),
    {
        pool.push_str(self.id, data)
    }

    /// Appends one character to the channel's buffer.
    pub fn send_char(&self, pool: &mut ChannelPool, data: char) -> (result: Option<()>)
        ensures
            result is Some <==> old(pool).is_open(self.channel()),
            final(pool)@ == with_channel(
                old(pool)@,
                self.channel(),
                sent(old(pool)@[self.channel()], seq![data]),
            ),
    {
        pool.push_char(self.id, data)
    }

    /// A writer that can send but never closes the channel.
    pub fn downgrade(&self) -> (weak: WeakTx)
        ensures
            weak.channel() == self.channel(),
    {
        WeakTx { id: self.id }
    }

    /// Gives the writing end up: the channel is closed for good. What is
    /// buffered can still be read.
    pub fn close(self, pool: &mut ChannelPool)
        ensures
            final(pool)@ == with_channel(
                old(pool)@,
                self.channel(),
                shut(old(pool)@[self.channel()]),
            ),
    {
        pool.shut(self.id)
    }
}

/// A writer that does not keep the channel open.
pub struct WeakTx {
    id: usize,
}

impl WeakTx {
    pub closed spec fn channel(&self) -> int {
        self.id as int
    }

    pub fn send(&self, pool: &mut ChannelPool, data: &str) -> (result: Option<()>)
        ensures
            result is Some <==> old(pool).is_open(self.channel()),
            final(pool)@ == with_channel(
                old(pool)@,
                self.channel(),
                sent(old(pool)@[self.channel()], data@),
            ),
    {
        pool.push_str(self.id, data)
    }

    pub fn send_char(&self, pool: &mut ChannelPool, data: char) -> (result: Option<()>)
        ensures
            result is Some <==> old(pool).is_open(self.channel()),
            final(pool)@ == with_channel(
                old(pool)@,
                self.channel(),
                sent(old(pool)@[self.channel()], seq![data]),
            ),
    {
        pool.push_char(self.id, data)
    }
}

/// The reading end of a channel.
pub struct Rx {
    id: usize,
}

/// A read in progress: ready with everything buffered, or with `None` once
/// the channel is closed and drained. A read that has no channel to read
/// from is ready at once, with `None`.
pub struct ReadingTask {
    source: Option<usize>,
}

/// A read of one character in progress.
pub struct CharReadingTask {
    source: Option<usize>,
}

/// The channel that a read's model names, or no channel of any pool.
pub open spec fn source_id(model: Option<int>) -> int {
    match model {
        Some(id) => id,
        None => -1,
    }
}

impl ReadingTask {
    /// A read on nothing.
    pub fn detached() -> (task: Self)
        ensures
            task.model() == None::<int>,
    {
        ReadingTask { source: None }
    }
}

impl CharReadingTask {
    /// A read on nothing.
    pub fn detached() -> (task: Self)
        ensures
            task.model() == None::<int>,
    {
        CharReadingTask { source: None }
    }
}

impl Future<ChannelPool> for ReadingTask {
    type Output = Option<String>;

    type Model = Option<int>;

    type Yield = Option<Seq<char>>;

    open spec fn yielded(output: Option<String>) -> Option<Seq<char>> {
        output.deep_view()
    }

    closed spec fn model(&self) -> Option<int> {
        match self.source {
            Some(id) => Some(id as int),
            None => None,
        }
    }

    open spec fn polled(model: Option<int>, cx: Seq<ChannelState>) -> (
        Option<int>,
        Seq<ChannelState>,
        Poll<Option<Seq<char>>>,
    ) {
        (model, read_polled(cx, source_id(model)).0, read_polled(cx, source_id(model)).1)
    }

    fn poll(&mut self, cx: &mut ChannelPool) -> (outcome: Poll<Option<String>>) {
        match self.source {
            Some(id) => cx.take_all(id),
            None => Poll::Ready(None),
        }
    }
}

impl Future<ChannelPool> for CharReadingTask {
    type Output = Option<char>;

    type Model = Option<int>;

    type Yield = Option<char>;

    open spec fn yielded(output: Option<char>) -> Option<char> {
        output
    }

    closed spec fn model(&self) -> Option<int> {
        match self.source {
            Some(id) => Some(id as int),
            None => None,
        }
    }

    open spec fn polled(model: Option<int>, cx: Seq<ChannelState>) -> (
        Option<int>,
        Seq<ChannelState>,
        Poll<Option<char>>,
    ) {
        (model, read_char_polled(cx, source_id(model)).0, read_char_polled(cx, source_id(model)).1)
    }

    fn poll(&mut self, cx: &mut ChannelPool) -> (outcome: Poll<Option<char>>) {
        match self.source {
            Some(id) => cx.take_char(id),
            None => Poll::Ready(None),
        }
    }
}

impl Rx {
    pub closed spec fn channel(&self) -> int {
        self.id as int
    }

    /// Starts a read of everything that is buffered.
    pub fn read(&self) -> (task: ReadingTask)
        ensures
            task.model() == Some(self.channel()),
    {
        ReadingTask { source: Some(self.id) }
    }

    /// Starts a read of the first buffered character.
    pub fn read_char(&self) -> (task: CharReadingTask)
        ensures
            task.model() == Some(self.channel()),
    {
        CharReadingTask { source: Some(self.id) }
    }

    /// Gives the reading end up: the channel is closed for good and no send
    /// succeeds any more.
    pub fn close(self, pool: &mut ChannelPool)
        ensures
            final(pool)@ == with_channel(
                old(pool)@,
                self.channel(),
                shut(old(pool)@[self.channel()]),
            ),
    {
        pool.shut(self.id)
    }
}

/// Makes a channel in `pool` and returns its two ends.
pub fn new_string_channel(pool: &mut ChannelPool) -> (ends: (Tx, Rx))
    ensures
        final(pool)@ == old(pool)@.push(fresh()),
        ends.0.channel() == old(pool)@.len(),
        ends.1.channel() == old(pool)@.len(),
{
    let id = pool.open_channel();
    (Tx { id }, Rx { id })
}

/// What was sent while the channel was open is delivered by the next read,
/// also when the channel was closed in between.
pub proof fn lemma_sent_before_close_is_read(state: ChannelState, data: Seq<char>)
    requires
        !state.closed,
        data.len() > 0,
    ensures
        read_outcome(shut(sent(state, data))) == Poll::Ready(Some(state.buffer + data)),
        read_outcome(sent(state, data)) == Poll::Ready(Some(state.buffer + data)),
        read_outcome(drained(shut(sent(state, data)))) == Poll::<Option<Seq<char>>>::Ready(None),
{
}

/// Two sends on one open channel both succeed, and one read then returns
/// what was buffered followed by the first and the second data, in that
/// order. Nothing is left behind.
pub proof fn lemma_two_sends_one_read(
    channels: Seq<ChannelState>,
    id: int,
    first: Seq<char>,
    second: Seq<char>,
)
    requires
        0 <= id < channels.len(),
        !channels[id].closed,
        first.len() + second.len() > 0,
    ensures
        ({
            let once = with_channel(channels, id, sent(channels[id], first));
            let twice = with_channel(once, id, sent(once[id], second));
            &&& !once[id].closed
            &&& read_polled(twice, id).1 == Poll::Ready(
                Some(channels[id].buffer + first + second),
            )
            &&& read_polled(twice, id).0[id].buffer.len() == 0
        }),
{
}

/// A character read followed by a read returns the first character and then
/// the rest of the buffer, unchanged and in order.
pub proof fn lemma_read_char_then_read(channels: Seq<ChannelState>, id: int)
    requires
        0 <= id < channels.len(),
        channels[id].buffer.len() >= 2,
    ensures
        ({
            let first = read_char_polled(channels, id);
            let rest = read_polled(first.0, id);
            &&& first.1 == Poll::Ready(Some(channels[id].buffer[0]))
            &&& rest.1 == Poll::Ready(Some(channels[id].buffer.drop_first()))
            &&& seq![channels[id].buffer[0]] + channels[id].buffer.drop_first()
                == channels[id].buffer
        }),
{
    assert(seq![channels[id].buffer[0]] + channels[id].buffer.drop_first()
        =~= channels[id].buffer);
}

/// Closing is final: once a channel is closed no send changes it, and once
/// it is drained too every read yields the closed signal and leaves it as it
/// is.
pub proof fn lemma_closed_is_final(state: ChannelState, data: Seq<char>)
    requires
        state.closed,
    ensures
        sent(state, data) == state,
        shut(state) == state,
        state.buffer.len() == 0 ==> read_outcome(state) == Poll::<Option<Seq<char>>>::Ready(None)
            && drained(state) == state && read_char_outcome(state) == Poll::<Option<char>>::Ready(
            None,
        ) && behead(state) == state,
{
    if state.buffer.len() == 0 {
        assert(state.buffer =~= Seq::<char>::empty());
    }
}

} // verus!
