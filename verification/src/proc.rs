//! Processes: what every process holds, and what every kind of process can
//! do.

use vstd::prelude::*;
use crate::channel_handler::end_id;
use crate::channel_handler::ChannelHandler;
use crate::channel_handler::Closed;
use crate::channel_handler::RawHandler;
use crate::channel_handler::Readable;
use crate::channel_handler::Writable;
use crate::fs::first_file;
use crate::fs::first_named;
use crate::fs::Directory;
use crate::fs::Fs;
use crate::fs::Inode;
use crate::fs::OpenError;
use crate::future::Future;
use crate::root::Console;
use crate::root::Root;
use crate::string_channel::fresh;
use crate::string_channel::sent;
use crate::string_channel::with_channel;
use crate::string_channel::ChannelPool;
use crate::string_channel::ChannelState;
use crate::string_channel::CharReadingTask;
use crate::string_channel::ReadingTask;
use crate::table::is_next_free;
use crate::table::with_added;
use crate::table::Table;

verus! {

/// A process's index in the registry of processes.
pub type Pid = u32;

/// An index into a process's descriptor table.
pub type FileDescriptor = usize;

pub const STDIN: FileDescriptor = 0;

pub const STDOUT: FileDescriptor = 1;

pub const STDERR: FileDescriptor = 2;

/// What a kind of process can do.
pub trait Process: Sized {
    /// The process is in order: what it holds of tables keeps its counts.
    spec fn wf(&self) -> bool;

    /// The id that the process was made with.
    spec fn pid(&self) -> Pid;

    fn new(proc: Proc) -> (process: Self)
        requires
            proc.wf(),
        ensures
            process.wf(),
            process.pid() == proc.pid,
    ;

    fn get_process_name(&self) -> &str;

    fn get_proc(&self) -> (proc: &Proc)
        ensures
            proc.pid == self.pid(),
    ;

    /// Runs the program. `P` is the kind of task that programs hand to the
    /// executor.
    fn main<P: Future<Console, Output = ()>>(&mut self, args: Vec<String>, root: &mut Root<P>)
        requires
            old(self).wf(),
            old(root).wf(),
        ensures
            final(self).wf(),
            final(self).pid() == old(self).pid(),
            final(root).wf(),
    ;
}

/// What every process holds: its id, its children's ids, its open
/// descriptors, and its standard input and output.
///
/// A fresh process has three descriptors: the writing end of its standard
/// input, both ends of its standard output, and both ends of its standard
/// error. They are what others reach the process through.
pub struct Proc {
    pub pid: Pid,
    pub children: Vec<Pid>,
    pub descriptor_table: Table<RawHandler>,
    pub stdin: ChannelHandler<Readable, Closed>,
    pub stdout: ChannelHandler<Closed, Writable>,
}

/// The channel that descriptor `descriptor` writes to, or no channel.
pub open spec fn writer_of(descriptors: Seq<Option<RawHandler>>, descriptor: int) -> int {
    if 0 <= descriptor < descriptors.len() {
        match descriptors[descriptor] {
            Some(raw) => end_id(raw.writer()),
            None => -1,
        }
    } else {
        -1
    }
}

/// The channel that descriptor `descriptor` reads from, if any.
pub open spec fn reader_of(descriptors: Seq<Option<RawHandler>>, descriptor: int) -> Option<int> {
    if 0 <= descriptor < descriptors.len() {
        match descriptors[descriptor] {
            Some(raw) => raw.reader(),
            None => None,
        }
    } else {
        None
    }
}

impl Proc {
    pub open spec fn wf(&self) -> bool {
        self.descriptor_table.wf()
    }

    /// A process with fresh channels for its standard input, output and
    /// error, which take the next three places of `pool`.
    pub fn new(pid: Pid, pool: &mut ChannelPool) -> (proc: Self)
        ensures
            proc.wf(),
            proc.pid == pid,
            proc.children@.len() == 0,
            final(pool)@ == old(pool)@.push(fresh()).push(fresh()).push(fresh()),
            proc.stdin.reader() == Some(old(pool)@.len() as int),
            proc.stdin.writer() is None,
            proc.stdout.writer() == Some(old(pool)@.len() as int + 1),
            proc.stdout.reader() is None,
            proc.descriptor_table@.len() == 3,
            proc.descriptor_table@[0] matches Some(raw) && raw.writer() == Some(
                old(pool)@.len() as int,
            ) && raw.reader() is None,
            proc.descriptor_table@[1] matches Some(raw) && raw.writer() == Some(old(pool)@.len() as int + 1) && raw.reader() == Some(old(pool)@.len() as int + 1),
            proc.descriptor_table@[2] matches Some(raw) && raw.writer() == Some(old(pool)@.len() as int + 2) && raw.reader() == Some(old(pool)@.len() as int + 2),
    {
        let (stdin, stdin_writer) = ChannelHandler::new(pool).split();
        let output = ChannelHandler::new(pool);
        let stdout = output.copy();
        let error = ChannelHandler::new(pool);

        let mut descriptor_table = Table::new();
        descriptor_table.add(stdin_writer.into_raw());
        descriptor_table.add(output.into_raw());
        descriptor_table.add(error.into_raw());

        Proc { pid, children: Vec::new(), descriptor_table, stdin, stdout }
    }

    pub fn exit(&self) {
    }

    /// Opens a fresh private channel and enters its writing end in the
    /// descriptor table, at the lowest free descriptor.
    pub fn pipe(&mut self, pool: &mut ChannelPool) -> (handler: ChannelHandler<Readable, Writable>)
        requires
            old(self).wf(),
        ensures
            final(self).wf(),
            final(pool)@ == old(pool)@.push(fresh()),
            handler.reader() == Some(old(pool)@.len() as int),
            handler.writer() == Some(old(pool)@.len() as int),
            final(self).pid == old(self).pid,
            final(self).children == old(self).children,
            final(self).stdin == old(self).stdin,
            final(self).stdout == old(self).stdout,
            exists|descriptor: int, raw: RawHandler|
                {
                    &&& is_next_free(old(self).descriptor_table@, descriptor)
                    &&& raw.writer() == Some(old(pool)@.len() as int)
                    &&& raw.reader() is None
                    &&& final(self).descriptor_table@ == with_added(
                        old(self).descriptor_table@,
                        descriptor,
                        raw,
                    )
                },
    {
        let handler = ChannelHandler::new(pool);
        let raw = handler.copy_raw();
        let descriptor = self.descriptor_table.add(raw);
        assert(self.descriptor_table@ == with_added(
            old(self).descriptor_table@,
            descriptor as int,
            raw,
        ));
        handler
    }

    /// Opens the first file called `filename` of the mount table for
    /// reading: a fresh channel that holds the file's content, entered in
    /// the descriptor table as `pipe` does.
    pub fn open(&mut self, fs: &Fs, pool: &mut ChannelPool, filename: String) -> (result: Result<
        ChannelHandler<Readable, Closed>,
        OpenError,
    >)
        requires
            old(self).wf(),
        ensures
            final(self).wf(),
            final(self).pid == old(self).pid,
            final(self).children == old(self).children,
            final(self).stdin == old(self).stdin,
            final(self).stdout == old(self).stdout,
            match first_file(fs.mount().0@, filename@) {
                Some(i) => {
                    &&& result matches Ok(handler) && handler.reader() == Some(
                        old(pool)@.len() as int,
                    ) && handler.writer() is None
                    &&& fs.mount().0@[i].1 matches Inode::File(content) && final(pool)@ == old(pool)@.push(ChannelState { buffer: content@, closed: false })
                    &&& exists|descriptor: int, raw: RawHandler|
                        {
                            &&& is_next_free(old(self).descriptor_table@, descriptor)
                            &&& raw.writer() == Some(old(pool)@.len() as int)
                            &&& raw.reader() is None
                            &&& final(self).descriptor_table@ == with_added(
                                old(self).descriptor_table@,
                                descriptor,
                                raw,
                            )
                        }
                },
                None => {
                    &&& result matches Err(OpenError::NoEntry)
                    &&& final(pool)@ == old(pool)@
                    &&& final(self).descriptor_table@ == old(self).descriptor_table@
                },
            },
    {
        match fs.root().file(&filename) {
            Ok(content) => {
                let handler = self.pipe(pool);
                let ghost opened = pool@;
                handler.write(pool, content.as_str());
                proof {
                    let id = old(pool)@.len() as int;
                    assert(opened[id] == fresh());
                    assert(fresh().buffer + content@ =~= content@);
                    assert(pool@ =~= old(pool)@.push(
                        ChannelState { buffer: content@, closed: false },
                    ));
                }
                let (reader, _writer) = handler.split();
                Ok(reader)
            },
            Err(error) => Err(error),
        }
    }

    /// The directory that is the first entry called `dirname` of the mount
    /// table.
    pub fn open_dir<'a>(&self, fs: &'a Fs, dirname: String) -> (result: Result<
        &'a Directory,
        OpenError,
    >)
        ensures
            match first_named(fs.mount().0@, dirname@) {
                Some(i) => match fs.mount().0@[i].1 {
                    Inode::Directory(directory) => result == Ok::<&Directory, OpenError>(
                        &directory,
                    ),
                    Inode::File(_) => result == Err::<&Directory, OpenError>(OpenError::IsFile),
                },
                None => result == Err::<&Directory, OpenError>(OpenError::NoEntry),
            },
    {
        fs.root().directory(&dirname)
    }

    /// Starts a read on a descriptor. A descriptor that is not open, or
    /// that holds no reading end, reads as closed.
    pub fn read(&self, descriptor: FileDescriptor) -> (task: ReadingTask)
        ensures
            task.model() == reader_of(self.descriptor_table@, descriptor as int),
    {
        match self.descriptor_table.find(descriptor) {
            Some(raw) => raw.read(),
            None => ReadingTask::detached(),
        }
    }

    /// Starts a read of one character on a descriptor.
    pub fn read_char(&self, descriptor: FileDescriptor) -> (task: CharReadingTask)
        ensures
            task.model() == reader_of(self.descriptor_table@, descriptor as int),
    {
        match self.descriptor_table.find(descriptor) {
            Some(raw) => raw.read_char(),
            None => CharReadingTask::detached(),
        }
    }

    /// Writes to a descriptor. Fails when the descriptor is not open, holds
    /// no writing end, or its channel is closed.
    pub fn write(&self, pool: &mut ChannelPool, descriptor: FileDescriptor, data: &str) -> (result:
        Option<()>)
        ensures
            result is Some <==> old(pool).is_open(
                writer_of(self.descriptor_table@, descriptor as int),
            ),
            final(pool)@ == with_channel(
                old(pool)@,
                writer_of(self.descriptor_table@, descriptor as int),
                sent(old(pool)@[writer_of(self.descriptor_table@, descriptor as int)], data@),
            ),
    {
        match self.descriptor_table.find(descriptor) {
            Some(raw) => raw.send(pool, data),
            None => None,
        }
    }

    /// Writes one character to a descriptor.
    pub fn write_char(&self, pool: &mut ChannelPool, descriptor: FileDescriptor, data: char) -> (result:
        Option<()>)
        ensures
            result is Some <==> old(pool).is_open(
                writer_of(self.descriptor_table@, descriptor as int),
            ),
            final(pool)@ == with_channel(
                old(pool)@,
                writer_of(self.descriptor_table@, descriptor as int),
                sent(
                    old(pool)@[writer_of(self.descriptor_table@, descriptor as int)],
                    seq![data],
                ),
            ),
    {
        match self.descriptor_table.find(descriptor) {
            Some(raw) => raw.send_char(pool, data),
            None => None,
        }
    }

    /// Creates a child of this process, starts it, and returns it with its
    /// id. What the child's `main` does to the system is the child's own
    /// affair.
    pub fn spawn<Child: Process, P: Future<Console, Output = ()>>(
        &mut self,
        root: &mut Root<P>,
        args: Vec<String>,
    ) -> (spawned: (Child, Pid))
        requires
            old(root).wf(),
            old(root).spawner.has_room(),
        ensures
            final(root).wf(),
            spawned.0.wf(),
            spawned.0.pid() == spawned.1,
            is_next_free(old(root).spawner.processes@, spawned.1 as int),
            final(self).children@ == old(self).children@.push(spawned.1),
            final(self).pid == old(self).pid,
            final(self).descriptor_table == old(self).descriptor_table,
            final(self).stdin == old(self).stdin,
            final(self).stdout == old(self).stdout,
    {
        let (mut child, pid) = root.spawner.spawn::<Child>(
            &mut root.console.channels,
            Some(self.pid),
        );
        self.children.push(pid);
        child.main(args, root);
        (child, pid)
    }
}

} // verus!
