//! Descriptors: what can be read from, what can be written to, and the pair
//! of both.

use vstd::prelude::*;
use crate::future::Future;
use crate::pipe::writer_added;
use crate::pipe::read_char_polled;
use crate::pipe::read_polled;
use crate::pipe::sync;
use crate::pipe::text;
use crate::pipe::CharReadingTask;
use crate::pipe::ReadingTask;
use crate::pipe::with_pipe;
use crate::pipe::written;
use crate::pipe::PipePool;

verus! {

/// Why a descriptor did not read or write.
#[derive(Debug, PartialEq, Eq, Structural)]
pub enum IOError {
    /// The other side is gone, and nothing is left to read.
    ChannelClosed,
    /// Nothing is buffered right now; more may come.
    Empty,
}

/// The reading side of a descriptor. A descriptor names a pipe of the pool.
pub trait ReadableDescriptor: Sized {
    /// The pipe that is read.
    spec fn source(&self) -> int;

    /// Starts a read of everything that is buffered. The length is a hint
    /// that pipes ignore.
    fn read(&self, len: u32) -> (task: ReadingTask)
        ensures
            task.model() == self.source(),
    ;

    /// Starts a read of the first buffered character.
    fn read_char(&self) -> (task: CharReadingTask)
        ensures
            task.model() == self.source(),
    ;

    /// Takes what is buffered right now, without waiting.
    fn read_sync(&self, pool: &mut PipePool, len: u32) -> (result: Result<String, IOError>)
        ensures
            final(pool)@ == read_polled(old(pool)@, self.source()).0,
            text(result) == sync(read_polled(old(pool)@, self.source()).1),
    ;

    /// Takes the first buffered character, without waiting.
    fn read_char_sync(&self, pool: &mut PipePool) -> (result: Result<char, IOError>)
        ensures
            final(pool)@ == read_char_polled(old(pool)@, self.source()).0,
            result == sync(read_char_polled(old(pool)@, self.source()).1),
    ;
}

/// The writing side of a descriptor.
pub trait WritableDescriptor: Sized {
    /// The pipe that is written.
    spec fn sink(&self) -> int;

    /// Appends `data`, unless the pipe is closed.
    fn write(&self, pool: &mut PipePool, data: &str) -> (result: Result<(), IOError>)
        ensures
            result is Ok <==> old(pool).is_open(self.sink()),
            result is Err ==> result == Err::<(), IOError>(IOError::ChannelClosed),
            final(pool)@ == with_pipe(
                old(pool)@,
                self.sink(),
                written(old(pool)@[self.sink()], data@),
            ),
    ;

    /// Appends one character, unless the pipe is closed.
    fn write_char(&self, pool: &mut PipePool, data: char) -> (result: Result<(), IOError>)
        ensures
            result is Ok <==> old(pool).is_open(self.sink()),
            result is Err ==> result == Err::<(), IOError>(IOError::ChannelClosed),
            final(pool)@ == with_pipe(
                old(pool)@,
                self.sink(),
                written(old(pool)@[self.sink()], seq![data]),
            ),
    ;

    /// Another writer on the same pipe, counted as one more. Fails once the
    /// reader is gone.
    fn clone(&self, pool: &mut PipePool) -> (result: Result<Self, IOError>)
        requires
            old(pool).can_count(self.sink()),
        ensures
            result is Ok <==> old(pool).has_reader(self.sink()),
            result is Err ==> result matches Err(IOError::ChannelClosed),
            result matches Ok(writer) ==> writer.sink() == self.sink(),
            final(pool)@ == with_pipe(old(pool)@, self.sink(), writer_added(old(pool)@[self.sink()])),
    ;
}

/// A reader and a writer held together, as one descriptor for both
/// directions.
pub struct ReadableWritableDescriptor<Reader: ReadableDescriptor, Writer: WritableDescriptor> {
    reader: Reader,
    writer: Writer,
}

impl<R: ReadableDescriptor, W: WritableDescriptor> ReadableWritableDescriptor<R, W> {
    pub closed spec fn reader(&self) -> R {
        self.reader
    }

    pub closed spec fn writer(&self) -> W {
        self.writer
    }

    pub fn new(reader: R, writer: W) -> (descriptor: Self)
        ensures
            descriptor.reader() == reader,
            descriptor.writer() == writer,
    {
        Self { reader, writer }
    }

    pub fn write(&self, pool: &mut PipePool, data: &str) -> (result: Result<(), IOError>)
        ensures
            result is Ok <==> old(pool).is_open(self.writer().sink()),
            result is Err ==> result == Err::<(), IOError>(IOError::ChannelClosed),
            final(pool)@ == with_pipe(
                old(pool)@,
                self.writer().sink(),
                written(old(pool)@[self.writer().sink()], data@),
            ),
    {
        self.writer.write(pool, data)
    }

    pub fn write_char(&self, pool: &mut PipePool, data: char) -> (result: Result<(), IOError>)
        ensures
            result is Ok <==> old(pool).is_open(self.writer().sink()),
            result is Err ==> result == Err::<(), IOError>(IOError::ChannelClosed),
            final(pool)@ == with_pipe(
                old(pool)@,
                self.writer().sink(),
                written(old(pool)@[self.writer().sink()], seq![data]),
            ),
    {
        self.writer.write_char(pool, data)
    }

    /// Another writer on the pipe that this descriptor writes to.
    pub fn clone(&self, pool: &mut PipePool) -> (result: Result<W, IOError>)
        requires
            old(pool).can_count(self.writer().sink()),
        ensures
            result is Ok <==> old(pool).has_reader(self.writer().sink()),
            result is Err ==> result matches Err(IOError::ChannelClosed),
            result matches Ok(writer) ==> writer.sink() == self.writer().sink(),
            final(pool)@ == with_pipe(
                old(pool)@,
                self.writer().sink(),
                writer_added(old(pool)@[self.writer().sink()]),
            ),
    {
        self.writer.clone(pool)
    }

    /// Keeps the writer and hands the reader to the caller to dispose of.
    pub fn close_read(self) -> (parts: (W, R))
        ensures
            parts.0 == self.writer(),
            parts.1 == self.reader(),
    {
        (self.writer, self.reader)
    }

    /// Keeps the reader and hands the writer to the caller to dispose of.
    pub fn close_write(self) -> (parts: (R, W))
        ensures
            parts.0 == self.reader(),
            parts.1 == self.writer(),
    {
        (self.reader, self.writer)
    }
}

impl<R: ReadableDescriptor, W: WritableDescriptor> ReadableDescriptor for ReadableWritableDescriptor<
    R,
    W,
> {
    closed spec fn source(&self) -> int {
        self.reader.source()
    }

    fn read(&self, len: u32) -> (task: ReadingTask) {
        self.reader.read(len)
    }

    fn read_char(&self) -> (task: CharReadingTask) {
        self.reader.read_char()
    }

    fn read_sync(&self, pool: &mut PipePool, len: u32) -> (result: Result<String, IOError>) {
        self.reader.read_sync(pool, len)
    }

    fn read_char_sync(&self, pool: &mut PipePool) -> (result: Result<char, IOError>) {
        self.reader.read_char_sync(pool)
    }
}

} // verus!
