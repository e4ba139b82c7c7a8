//! Pipes: string channels that count their writers. A pipe is open while it
//! has a reader and at least one writer.

use vstd::prelude::*;
use vstd::string::StringExecFns;
use crate::descriptor::IOError;
use crate::descriptor::ReadableDescriptor;
use crate::descriptor::WritableDescriptor;
use crate::future::Poll;
use crate::future::Context;
use crate::future::Future;

verus! {

/// What a pipe is, as plain values: what is buffered, and how many writers
/// there are, or `None` once the reader is gone.
pub struct PipeState {
    pub buffer: Seq<char>,
    pub writers: Option<nat>,
}

/// A pipe as it is created: empty, with its reader and one writer.
pub open spec fn fresh() -> PipeState {
    PipeState { buffer: Seq::empty(), writers: Some(1) }
}

/// The pipe has its reader and at least one writer.
pub open spec fn open(state: PipeState) -> bool {
    state.writers matches Some(n) && n != 0
}

/// The pipe after a writer offered `data`.
pub open spec fn written(state: PipeState, data: Seq<char>) -> PipeState {
    if open(state) {
        PipeState { buffer: state.buffer + data, writers: state.writers }
    } else {
        state
    }
}

/// The pipe after a writer was cloned: one more writer, while the reader is
/// there.
pub open spec fn writer_added(state: PipeState) -> PipeState {
    match state.writers {
        Some(n) => PipeState { buffer: state.buffer, writers: Some(n + 1) },
        None => state,
    }
}

/// The pipe after a writer left.
pub open spec fn writer_left(state: PipeState) -> PipeState {
    match state.writers {
        Some(n) if n > 0 => PipeState { buffer: state.buffer, writers: Some((n - 1) as nat) },
        _ => state,
    }
}

/// The pipe after its reader left.
pub open spec fn reader_left(state: PipeState) -> PipeState {
    PipeState { buffer: state.buffer, writers: None }
}

/// The pipe after a reader took everything that was buffered.
pub open spec fn drained(state: PipeState) -> PipeState {
    PipeState { buffer: Seq::empty(), writers: state.writers }
}

/// The pipe after a reader took the first buffered character.
pub open spec fn behead(state: PipeState) -> PipeState {
    if state.buffer.len() > 0 {
        PipeState { buffer: state.buffer.drop_first(), writers: state.writers }
    } else {
        state
    }
}

/// What one poll of a read yields: the whole buffer if there is any, else
/// nothing yet on an open pipe, else the closed error.
pub open spec fn read_outcome(state: PipeState) -> Poll<Result<Seq<char>, IOError>> {
    if state.buffer.len() > 0 {
        Poll::Ready(Ok(state.buffer))
    } else if open(state) {
        Poll::Pending
    } else {
        Poll::Ready(Err(IOError::ChannelClosed))
    }
}

/// What one poll of a character read yields.
pub open spec fn read_char_outcome(state: PipeState) -> Poll<Result<char, IOError>> {
    if state.buffer.len() > 0 {
        Poll::Ready(Ok(state.buffer[0]))
    } else if open(state) {
        Poll::Pending
    } else {
        Poll::Ready(Err(IOError::ChannelClosed))
    }
}

/// What a read that does not wait returns where a poll would return
/// `outcome`: an empty open pipe is the error `Empty`.
pub open spec fn sync<T>(outcome: Poll<Result<T, IOError>>) -> Result<T, IOError> {
    match outcome {
        Poll::Ready(result) => result,
        Poll::Pending => Err(IOError::Empty),
    }
}

/// A pool's pipes with pipe `id` replaced, where there is such a pipe.
pub open spec fn with_pipe(pipes: Seq<PipeState>, id: int, state: PipeState) -> Seq<PipeState> {
    if 0 <= id < pipes.len() {
        pipes.update(id, state)
    } else {
        pipes
    }
}

/// The pool and the outcome after one poll of a read on pipe `id`. A pipe
/// that the pool does not hold reads as closed.
pub open spec fn read_polled(pipes: Seq<PipeState>, id: int) -> (
    Seq<PipeState>,
    Poll<Result<Seq<char>, IOError>>,
) {
    if 0 <= id < pipes.len() {
        (pipes.update(id, drained(pipes[id])), read_outcome(pipes[id]))
    } else {
        (pipes, Poll::Ready(Err(IOError::ChannelClosed)))
    }
}

/// The pool and the outcome after one poll of a character read on pipe `id`.
pub open spec fn read_char_polled(pipes: Seq<PipeState>, id: int) -> (
    Seq<PipeState>,
    Poll<Result<char, IOError>>,
) {
    if 0 <= id < pipes.len() {
        (pipes.update(id, behead(pipes[id])), read_char_outcome(pipes[id]))
    } else {
        (pipes, Poll::Ready(Err(IOError::ChannelClosed)))
    }
}

/// A read result as plain values.
pub open spec fn text(result: Result<String, IOError>) -> Result<Seq<char>, IOError> {
    match result {
        Ok(data) => Ok(data@),
        Err(error) => Err(error),
    }
}

/// Buffer and writer count of one pipe.
pub struct Shared {
    buffer: String,
    writers: Option<usize>,
}

impl View for Shared {
    type V = PipeState;

    closed spec fn view(&self) -> PipeState {
        PipeState {
            buffer: self.buffer@,
            writers: match self.writers {
                Some(n) => Some(n as nat),
                None => None,
            },
        }
    }
}

impl Shared {
    /// `Ok` while the pipe has its reader and a writer.
    pub fn is_open(&self) -> (result: Result<(), IOError>)
        ensures
            result is Ok <==> open(self@),
            result is Err ==> result == Err::<(), IOError>(IOError::ChannelClosed),
    {
        let writers = match self.writers {
            Some(n) => n,
            None => 0,
        };
        if writers != 0 {
            Ok(())
        } else {
            Err(IOError::ChannelClosed)
        }
    }
}

/// Owner of every pipe's state. A pipe's place is never given to another
/// pipe.
pub struct PipePool {
    pipes: Vec<Shared>,
}

impl View for PipePool {
    type V = Seq<PipeState>;

    closed spec fn view(&self) -> Seq<PipeState> {
        Seq::new(self.pipes@.len(), |i: int| self.pipes@[i]@)
    }
}

impl Context for PipePool {
    type World = Seq<PipeState>;

    open spec fn world(&self) -> Seq<PipeState> {
        self@
    }
}

impl PipePool {
    pub fn new() -> (pool: Self)
        ensures
            pool@ == Seq::<PipeState>::empty(),
    {
        let pool = PipePool { pipes: Vec::new() };
        assert(pool@ =~= Seq::<PipeState>::empty());
        pool
    }

    /// Pipe `id` exists and is open.
    pub open spec fn is_open(&self, id: int) -> bool {
        0 <= id < self@.len() && open(self@[id])
    }

    /// Pipe `id` exists and its reader has not left.
    pub open spec fn has_reader(&self, id: int) -> bool {
        0 <= id < self@.len() && self@[id].writers is Some
    }

    /// One more writer of pipe `id` can be counted.
    pub open spec fn can_count(&self, id: int) -> bool {
        self.has_reader(id) ==> self@[id].writers->0 < usize::MAX
    }

    /// Number of writers of pipe `id`, or `None` when the reader is gone or
    /// there is no such pipe.
    pub fn writers(&self, id: usize) -> (writers: Option<usize>)
        ensures
            writers is Some <==> self.has_reader(id as int),
            writers matches Some(n) ==> self@[id as int].writers == Some(n as nat),
    {
        if id < self.pipes.len() {
            self.pipes[id].writers
        } else {
            None
        }
    }

    fn open_pipe(&mut self) -> (id: usize)
        ensures
            id == old(self)@.len(),
            final(self)@ == old(self)@.push(fresh()),
    {
        let id = self.pipes.len();
        self.pipes.push(Shared { buffer: String::new(), writers: Some(1) });
        assert(self@ =~= old(self)@.push(fresh()));
        id
    }

    fn push_str(&mut self, id: usize, data: &str) -> (result: Result<(), IOError>)
        ensures
            result is Ok <==> old(self).is_open(id as int),
            result is Err ==> result == Err::<(), IOError>(IOError::ChannelClosed),
            final(self)@ == with_pipe(old(self)@, id as int, written(old(self)@[id as int], data@)),
    {
        if id >= self.pipes.len() {
            return Err(IOError::ChannelClosed);
        }
        match self.pipes[id].is_open() {
            Ok(()) => {
                self.pipes[id].buffer.append(data);
                assert(self@ =~= with_pipe(
                    old(self)@,
                    id as int,
                    written(old(self)@[id as int], data@),
                ));
                Ok(())
            },
            Err(error) => {
                assert(self@ =~= old(self)@);
                assert(old(self)@ =~= with_pipe(
                    old(self)@,
                    id as int,
                    written(old(self)@[id as int], data@),
                ));
                Err(error)
            },
        }
    }

    fn push_char(&mut self, id: usize, data: char) -> (result: Result<(), IOError>)
        ensures
            result is Ok <==> old(self).is_open(id as int),
            result is Err ==> result == Err::<(), IOError>(IOError::ChannelClosed),
            final(self)@ == with_pipe(
                old(self)@,
                id as int,
                written(old(self)@[id as int], seq![data]),
            ),
    {
        if id >= self.pipes.len() {
            return Err(IOError::ChannelClosed);
        }
        match self.pipes[id].is_open() {
            Ok(()) => {
                self.pipes[id].buffer.push(data);
                assert(old(self)@[id as int].buffer.push(data) =~= old(self)@[id as int].buffer
                    + seq![data]);
                assert(self@ =~= with_pipe(
                    old(self)@,
                    id as int,
                    written(old(self)@[id as int], seq![data]),
                ));
                Ok(())
            },
            Err(error) => {
                assert(self@ =~= old(self)@);
                assert(old(self)@ =~= with_pipe(
                    old(self)@,
                    id as int,
                    written(old(self)@[id as int], seq![data]),
                ));
                Err(error)
            },
        }
    }

    fn count_writer(&mut self, id: usize) -> (result: Result<(), IOError>)
        requires
            old(self).can_count(id as int),
        ensures
            result is Ok <==> old(self).has_reader(id as int),
            result is Err ==> result == Err::<(), IOError>(IOError::ChannelClosed),
            final(self)@ == with_pipe(old(self)@, id as int, writer_added(old(self)@[id as int])),
    {
        if id >= self.pipes.len() {
            return Err(IOError::ChannelClosed);
        }
        match self.pipes[id].writers {
            Some(n) => {
                self.pipes[id].writers = Some(n + 1);
                assert(self@ =~= with_pipe(old(self)@, id as int, writer_added(old(self)@[id as int])));
                Ok(())
            },
            None => {
                assert(self@ =~= with_pipe(old(self)@, id as int, writer_added(old(self)@[id as int])));
                Err(IOError::ChannelClosed)
            },
        }
    }

    fn discount_writer(&mut self, id: usize)
        ensures
            final(self)@ == with_pipe(old(self)@, id as int, writer_left(old(self)@[id as int])),
    {
        if id < self.pipes.len() {
            match self.pipes[id].writers {
                Some(n) => {
                    if n > 0 {
                        self.pipes[id].writers = Some(n - 1);
                    }
                },
                None => {},
            }
        }
        assert(self@ =~= with_pipe(old(self)@, id as int, writer_left(old(self)@[id as int])));
    }

    fn forget_reader(&mut self, id: usize)
        ensures
            final(self)@ == with_pipe(old(self)@, id as int, reader_left(old(self)@[id as int])),
    {
        if id < self.pipes.len() {
            self.pipes[id].writers = None;
        }
        assert(self@ =~= with_pipe(old(self)@, id as int, reader_left(old(self)@[id as int])));
    }

    fn take_all(&mut self, id: usize) -> (outcome: Poll<Result<String, IOError>>)
        ensures
            final(self)@ == read_polled(old(self)@, id as int).0,
            match outcome {
                Poll::Ready(result) => read_polled(old(self)@, id as int).1 == Poll::Ready(
                    text(result),
                ),
                Poll::Pending => read_polled(old(self)@, id as int).1 is Pending,
            },
    {
        if id >= self.pipes.len() {
            return Poll::Ready(Err(IOError::ChannelClosed));
        }
        let mut data = String::new();
        std::mem::swap(&mut data, &mut self.pipes[id].buffer);
        assert(self@ =~= old(self)@.update(id as int, drained(old(self)@[id as int])));
        if !data.as_str().is_empty() {
            Poll::Ready(Ok(data))
        } else {
            match self.pipes[id].is_open() {
                Ok(()) => Poll::Pending,
                Err(error) => Poll::Ready(Err(error)),
            }
        }
    }

    fn take_char(&mut self, id: usize) -> (outcome: Poll<Result<char, IOError>>)
        ensures
            (final(self)@, outcome) == read_char_polled(old(self)@, id as int),
    {
        if id >= self.pipes.len() {
            return Poll::Ready(Err(IOError::ChannelClosed));
        }
        if !self.pipes[id].buffer.as_str().is_empty() {
            let first = self.pipes[id].buffer.remove(0);
            assert(old(self)@[id as int].buffer.subrange(
                1,
                old(self)@[id as int].buffer.len() as int,
            ) =~= old(self)@[id as int].buffer.drop_first());
            assert(self@ =~= old(self)@.update(id as int, behead(old(self)@[id as int])));
            Poll::Ready(Ok(first))
        } else {
            assert(self@ =~= old(self)@.update(id as int, behead(old(self)@[id as int])));
            match self.pipes[id].is_open() {
                Ok(()) => Poll::Pending,
                Err(error) => Poll::Ready(Err(error)),
            }
        }
    }
}

/// A writer of a pipe. Each writer counts; `close` takes it off the count.
pub struct PipeWriter {
    id: usize,
}

impl PipeWriter {
    /// This writer leaves. The pipe closes when it was the last.
    pub fn close(self, pool: &mut PipePool)
        ensures
            final(pool)@ == with_pipe(old(pool)@, self.sink(), writer_left(old(pool)@[self.sink()])),
    {
        pool.discount_writer(self.id)
    }
}

impl WritableDescriptor for PipeWriter {
    closed spec fn sink(&self) -> int {
        self.id as int
    }

    fn write(&self, pool: &mut PipePool, data: &str) -> (result: Result<(), IOError>) {
        pool.push_str(self.id, data)
    }

    fn write_char(&self, pool: &mut PipePool, data: char) -> (result: Result<(), IOError>) {
        pool.push_char(self.id, data)
    }

    fn clone(&self, pool: &mut PipePool) -> (result: Result<Self, IOError>) {
        match pool.count_writer(self.id) {
            Ok(()) => Ok(PipeWriter { id: self.id }),
            Err(error) => Err(error),
        }
    }
}

/// The reader of a pipe.
pub struct PipeReader {
    id: usize,
}

/// A read in progress on a pipe.
pub struct ReadingTask {
    id: usize,
}

/// A read of one character in progress on a pipe.
pub struct CharReadingTask {
    id: usize,
}

impl Future<PipePool> for ReadingTask {
    type Output = Result<String, IOError>;

    type Model = int;

    type Yield = Result<Seq<char>, IOError>;

    closed spec fn model(&self) -> int {
        self.id as int
    }

    open spec fn yielded(output: Result<String, IOError>) -> Result<Seq<char>, IOError> {
        text(output)
    }

    open spec fn polled(model: int, cx: Seq<PipeState>) -> (
        int,
        Seq<PipeState>,
        Poll<Result<Seq<char>, IOError>>,
    ) {
        (model, read_polled(cx, model).0, read_polled(cx, model).1)
    }

    fn poll(&mut self, cx: &mut PipePool) -> (outcome: Poll<Result<String, IOError>>) {
        cx.take_all(self.id)
    }
}

impl Future<PipePool> for CharReadingTask {
    type Output = Result<char, IOError>;

    type Model = int;

    type Yield = Result<char, IOError>;

    closed spec fn model(&self) -> int {
        self.id as int
    }

    open spec fn yielded(output: Result<char, IOError>) -> Result<char, IOError> {
        output
    }

    open spec fn polled(model: int, cx: Seq<PipeState>) -> (
        int,
        Seq<PipeState>,
        Poll<Result<char, IOError>>,
    ) {
        (model, read_char_polled(cx, model).0, read_char_polled(cx, model).1)
    }

    fn poll(&mut self, cx: &mut PipePool) -> (outcome: Poll<Result<char, IOError>>) {
        cx.take_char(self.id)
    }
}

impl PipeReader {
    /// The reader leaves: the pipe is closed for good.
    pub fn close(self, pool: &mut PipePool)
        ensures
            final(pool)@ == with_pipe(
                old(pool)@,
                self.source(),
                reader_left(old(pool)@[self.source()]),
            ),
    {
        pool.forget_reader(self.id)
    }
}

impl ReadableDescriptor for PipeReader {
    closed spec fn source(&self) -> int {
        self.id as int
    }

    fn read(&self, len: u32) -> (task: ReadingTask) {
        ReadingTask { id: self.id }
    }

    fn read_char(&self) -> (task: CharReadingTask) {
        CharReadingTask { id: self.id }
    }

    fn read_sync(&self, pool: &mut PipePool, len: u32) -> (result: Result<String, IOError>) {
        match pool.take_all(self.id) {
            Poll::Ready(result) => result,
            Poll::Pending => Err(IOError::Empty),
        }
    }

    fn read_char_sync(&self, pool: &mut PipePool) -> (result: Result<char, IOError>) {
        match pool.take_char(self.id) {
            Poll::Ready(result) => result,
            Poll::Pending => Err(IOError::Empty),
        }
    }
}

/// Makes a pipe in `pool` and returns its reader and its first writer.
pub fn new_pipe(pool: &mut PipePool) -> (ends: (PipeReader, PipeWriter))
    ensures
        final(pool)@ == old(pool)@.push(fresh()),
        ends.0.source() == old(pool)@.len(),
        ends.1.sink() == old(pool)@.len(),
{
    let id = pool.open_pipe();
    (PipeReader { id }, PipeWriter { id })
}

} // verus!
