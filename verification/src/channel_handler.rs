//! Channel handles whose type says which of reading and writing is still
//! allowed, over raw handles that hold the ends themselves.

use vstd::prelude::*;
use std::marker::PhantomData;
use std::rc::Rc;
use crate::string_channel::new_string_channel;
use crate::string_channel::sent;
use crate::string_channel::shut;
use crate::string_channel::with_channel;
use crate::string_channel::ChannelPool;
use crate::string_channel::ChannelState;
use crate::string_channel::CharReadingTask;
use crate::string_channel::ReadingTask;
use crate::string_channel::Rx;
use crate::string_channel::Tx;
use crate::future::Future;

verus! {

/// Marks a capability that is held: reading.
pub struct Readable;

/// Marks a capability that is held: writing.
pub struct Writable;

/// Marks a capability that was given up or never granted.
pub struct Closed;

/// `Rc::clone` gives another reference to the same shared value.
#[verifier::external_body]
fn share(tx: &Rc<Tx>) -> (shared: Rc<Tx>)
    ensures
        shared == *tx,
{
    Rc::clone(tx)
}

/// The channel named by an end that may be missing, or no channel.
pub open spec fn end_id(end: Option<int>) -> int {
    match end {
        Some(id) => id,
        None => -1,
    }
}

/// The pool after a handle's ends were released: the reading end always
/// closes its channel; the writing end closes its channel when `last` says
/// that no other handle shares it.
pub open spec fn released(
    channels: Seq<ChannelState>,
    reader: Option<int>,
    writer: Option<int>,
    last: bool,
) -> Seq<ChannelState> {
    let read_closed = with_channel(channels, end_id(reader), shut(channels[end_id(reader)]));
    if last {
        with_channel(read_closed, end_id(writer), shut(read_closed[end_id(writer)]))
    } else {
        read_closed
    }
}

/// The ends of a channel that a handle holds: a writing end shared with
/// other handles, a reading end of its own, either or none.
pub struct RawHandler {
    tx: Option<Rc<Tx>>,
    rx: Option<Rx>,
}

impl RawHandler {
    /// The channel that this handle writes to, if it holds a writing end.
    pub closed spec fn writer(&self) -> Option<int> {
        match self.tx {
            Some(tx) => Some(tx.channel()),
            None => None,
        }
    }

    /// The channel that this handle reads from, if it holds the reading end.
    pub closed spec fn reader(&self) -> Option<int> {
        match self.rx {
            Some(rx) => Some(rx.channel()),
            None => None,
        }
    }

    /// Starts a read. Without a reading end the read is ready at once, with
    /// the closed signal.
    pub fn read(&self) -> (task: ReadingTask)
        ensures
            task.model() == self.reader(),
    {
        match &self.rx {
            Some(rx) => rx.read(),
            None => ReadingTask::detached(),
        }
    }

    /// Starts a read of one character.
    pub fn read_char(&self) -> (task: CharReadingTask)
        ensures
            task.model() == self.reader(),
    {
        match &self.rx {
            Some(rx) => rx.read_char(),
            None => CharReadingTask::detached(),
        }
    }

    /// Sends `data`. Fails without a writing end, and on a closed channel.
    pub fn send(&self, pool: &mut ChannelPool, data: &str) -> (result: Option<()>)
        ensures
            result is Some <==> self.writer() is Some && old(pool).is_open(end_id(self.writer())),
            final(pool)@ == with_channel(
                old(pool)@,
                end_id(self.writer()),
                sent(old(pool)@[end_id(self.writer())], data@),
            ),
    {
        match &self.tx {
            Some(tx) => tx.send(pool, data),
            None => None,
        }
    }

    /// Sends one character.
    pub fn send_char(&self, pool: &mut ChannelPool, data: char) -> (result: Option<()>)
        ensures
            result is Some <==> self.writer() is Some && old(pool).is_open(end_id(self.writer())),
            final(pool)@ == with_channel(
                old(pool)@,
                end_id(self.writer()),
                sent(old(pool)@[end_id(self.writer())], seq![data]),
            ),
    {
        match &self.tx {
            Some(tx) => tx.send_char(pool, data),
            None => None,
        }
    }

    /// Another handle on the same writing end, without the reading end.
    pub fn copy(&self) -> (copy: RawHandler)
        ensures
            copy.writer() == self.writer(),
            copy.reader() is None,
    {
        let tx = match &self.tx {
            Some(tx) => Some(share(tx)),
            None => None,
        };
        RawHandler { tx, rx: None }
    }

    /// Gives the reading end up, which closes the channel.
    pub fn drop_reader(self, pool: &mut ChannelPool) -> (rest: RawHandler)
        ensures
            rest.writer() == self.writer(),
            rest.reader() is None,
            final(pool)@ == released(old(pool)@, self.reader(), None, false),
    {
        let RawHandler { tx, rx } = self;
        if let Some(rx) = rx {
            rx.close(pool);
        }
        RawHandler { tx, rx: None }
    }

    /// Gives this handle's share of the writing end up. The channel closes
    /// when no other handle shared it; whether one did is not known here.
    pub fn drop_writer(self, pool: &mut ChannelPool) -> (rest: RawHandler)
        ensures
            rest.reader() == self.reader(),
            rest.writer() is None,
            exists|last: bool| final(pool)@ == released(old(pool)@, None, self.writer(), last),
    {
        let RawHandler { tx, rx } = self;
        match tx {
            Some(tx) => {
                let last = release(Rc::try_unwrap(tx), pool);
                assert(pool@ == released(old(pool)@, None, self.writer(), last));
            },
            None => {
                assert(pool@ == released(old(pool)@, None, self.writer(), false));
            },
        }
        RawHandler { tx: None, rx }
    }
}

/// Ends the sharing of a writing end, given what taking it out of its
/// reference count returned: the sole holder closes the channel, any other
/// leaves it to those who still share it. Says which it was.
pub fn release(unwrapped: Result<Tx, Rc<Tx>>, pool: &mut ChannelPool) -> (last: bool)
    ensures
        last == unwrapped is Ok,
        unwrapped matches Ok(tx) ==> final(pool)@ == with_channel(
            old(pool)@,
            tx.channel(),
            shut(old(pool)@[tx.channel()]),
        ),
        unwrapped is Err ==> final(pool)@ == old(pool)@,
{
    match unwrapped {
        Ok(tx) => {
            tx.close(pool);
            true
        },
        Err(_) => false,
    }
}

/// A channel handle of which the type parameters say whether reading and
/// writing are allowed.
pub struct ChannelHandler<Readability, Writability> {
    readability: PhantomData<Readability>,
    writability: PhantomData<Writability>,
    raw: RawHandler,
}

impl ChannelHandler<Readable, Writable> {
    /// Makes a channel in `pool` and a handle that may read and write it.
    pub fn new(pool: &mut ChannelPool) -> (handler: Self)
        ensures
            final(pool)@ == old(pool)@.push(crate::string_channel::fresh()),
            handler.reader() == Some(old(pool)@.len() as int),
            handler.writer() == Some(old(pool)@.len() as int),
    {
        let (tx, rx) = new_string_channel(pool);
        ChannelHandler {
            readability: PhantomData,
            writability: PhantomData,
            raw: RawHandler { tx: Some(Rc::new(tx)), rx: Some(rx) },
        }
    }
}

impl ChannelHandler<Readable, Writable> {
    /// Parts the two capabilities: one handle that only reads and one that
    /// only writes. No end is given up, so the channel stays as it is.
    pub fn split(self) -> (parts: (ChannelHandler<Readable, Closed>, ChannelHandler<Closed, Writable>))
        ensures
            parts.0.reader() == self.reader(),
            parts.0.writer() is None,
            parts.1.reader() is None,
            parts.1.writer() == self.writer(),
    {
        let RawHandler { tx, rx } = self.raw;
        (
            ChannelHandler {
                readability: PhantomData,
                writability: PhantomData,
                raw: RawHandler { tx: None, rx },
            },
            ChannelHandler {
                readability: PhantomData,
                writability: PhantomData,
                raw: RawHandler { tx, rx: None },
            },
        )
    }
}

impl<R, W> ChannelHandler<R, W> {
    /// The channel that this handle writes to, if it holds a writing end.
    pub closed spec fn writer(&self) -> Option<int> {
        self.raw.writer()
    }

    /// The channel that this handle reads from, if it holds the reading end.
    pub closed spec fn reader(&self) -> Option<int> {
        self.raw.reader()
    }

    /// The ends themselves, for uses that the capabilities do not cover.
    pub fn raw(&self) -> (raw: &RawHandler)
        ensures
            raw.writer() == self.writer(),
            raw.reader() == self.reader(),
    {
        &self.raw
    }

    /// Gives the capabilities up and keeps the ends.
    pub fn into_raw(self) -> (raw: RawHandler)
        ensures
            raw.writer() == self.writer(),
            raw.reader() == self.reader(),
    {
        self.raw
    }

    /// A sibling handle on the same writing end that cannot read.
    pub fn copy(&self) -> (copy: ChannelHandler<Closed, W>)
        ensures
            copy.writer() == self.writer(),
            copy.reader() is None,
    {
        ChannelHandler { readability: PhantomData, writability: PhantomData, raw: self.raw.copy() }
    }

    pub fn copy_raw(&self) -> (copy: RawHandler)
        ensures
            copy.writer() == self.writer(),
            copy.reader() is None,
    {
        self.raw.copy()
    }
}

impl<T> ChannelHandler<Readable, T> {
    pub fn read(&self) -> (task: ReadingTask)
        ensures
            task.model() == self.reader(),
    {
        self.raw.read()
    }

    pub fn read_char(&self) -> (task: CharReadingTask)
        ensures
            task.model() == self.reader(),
    {
        self.raw.read_char()
    }

    /// Gives the right to read up. The reading end goes with it, which
    /// closes the channel.
    pub fn close_read(self, pool: &mut ChannelPool) -> (rest: ChannelHandler<Closed, T>)
        ensures
            rest.writer() == self.writer(),
            rest.reader() is None,
            final(pool)@ == released(old(pool)@, self.reader(), None, false),
    {
        ChannelHandler {
            readability: PhantomData,
            writability: PhantomData,
            raw: self.raw.drop_reader(pool),
        }
    }
}

impl<T> ChannelHandler<T, Writable> {
    pub fn write(&self, pool: &mut ChannelPool, data: &str) -> (result: Option<()>)
        ensures
            result is Some <==> self.writer() is Some && old(pool).is_open(
                end_id(self.writer()),
            ),
            final(pool)@ == with_channel(
                old(pool)@,
                end_id(self.writer()),
                sent(old(pool)@[end_id(self.writer())], data@),
            ),
    {
        self.raw.send(pool, data)
    }

    pub fn write_char(&self, pool: &mut ChannelPool, data: char) -> (result: Option<()>)
        ensures
            result is Some <==> self.writer() is Some && old(pool).is_open(
                end_id(self.writer()),
            ),
            final(pool)@ == with_channel(
                old(pool)@,
                end_id(self.writer()),
                sent(old(pool)@[end_id(self.writer())], seq![data]),
            ),
    {
        self.raw.send_char(pool, data)
    }

    /// Gives the right to write up. This handle's share of the writing end
    /// goes with it; the channel closes when no copy shares it.
    pub fn close_write(self, pool: &mut ChannelPool) -> (rest: ChannelHandler<T, Closed>)
        ensures
            rest.reader() == self.reader(),
            rest.writer() is None,
            exists|last: bool|
                final(pool)@ == released(old(pool)@, None, self.writer(), last),
    {
        ChannelHandler {
            readability: PhantomData,
            writability: PhantomData,
            raw: self.raw.drop_writer(pool),
        }
    }
}

pub fn new_channel_handler(pool: &mut ChannelPool) -> (handler: ChannelHandler<Readable, Writable>)
    ensures
        final(pool)@ == old(pool)@.push(crate::string_channel::fresh()),
        handler.reader() == Some(old(pool)@.len() as int),
        handler.writer() == Some(old(pool)@.len() as int),
{
    ChannelHandler::new(pool)
}

} // verus!
