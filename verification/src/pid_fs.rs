//! Descriptors by process: each process has its own numbering of the
//! descriptors it opened, and each descriptor has readers that are called
//! with every character written to it.

use vstd::prelude::*;

verus! {

pub type FileDescriptor = u32;

pub const STDIN: FileDescriptor = 0;

pub const STDOUT: FileDescriptor = 1;

pub const STDERR: FileDescriptor = 2;

/// The descriptors of all processes: for each process the system-wide
/// descriptors behind its own numbers, and for each system-wide descriptor
/// its readers.
pub struct Fs<F> {
    readers_map: Vec<Vec<F>>,
    pid_map: Vec<Vec<FileDescriptor>>,
}

/// The system-wide descriptor behind a process's descriptor, if the
/// process has it.
pub open spec fn raw_of(pids: Seq<Seq<FileDescriptor>>, pid: int, descriptor: int) -> Option<
    FileDescriptor,
> {
    if 0 <= pid < pids.len() && 0 <= descriptor < pids[pid].len() {
        Some(pids[pid][descriptor])
    } else {
        None
    }
}

impl<F: Fn(char)> Fs<F> {
    /// The readers of each system-wide descriptor.
    pub closed spec fn readers(&self) -> Seq<Seq<F>> {
        Seq::new(self.readers_map@.len(), |i: int| self.readers_map@[i]@)
    }

    /// The descriptors of each process.
    pub closed spec fn pids(&self) -> Seq<Seq<FileDescriptor>> {
        Seq::new(self.pid_map@.len(), |i: int| self.pid_map@[i]@)
    }

    /// Every descriptor of a process names a system-wide descriptor that
    /// exists, and there are no more of those than a descriptor can count.
    pub closed spec fn wf(&self) -> bool {
        &&& self.readers_map@.len() <= u32::MAX
        &&& forall|pid: int, descriptor: int|
            0 <= pid < self.pid_map@.len() && 0 <= descriptor < self.pid_map@[pid]@.len()
                ==> #[trigger] self.pid_map@[pid]@[descriptor] < self.readers_map@.len()
    }

    pub fn new() -> (fs: Self)
        ensures
            fs.wf(),
            fs.readers() == Seq::<Seq<F>>::empty(),
            fs.pids() == Seq::<Seq<FileDescriptor>>::empty(),
    {
        let fs = Fs { readers_map: Vec::new(), pid_map: Vec::new() };
        assert(fs.readers() =~= Seq::<Seq<F>>::empty());
        assert(fs.pids() =~= Seq::<Seq<FileDescriptor>>::empty());
        fs
    }

    /// Number of processes that have descriptors.
    pub fn processes(&self) -> (count: usize)
        ensures
            count == self.pids().len(),
    {
        self.pid_map.len()
    }

    /// Gives the next process its descriptors, none so far. The process
    /// must be the next or an earlier one.
    pub fn add_pid(&mut self, pid: u32)
        requires
            old(self).wf(),
            pid <= old(self).pids().len(),
        ensures
            final(self).wf(),
            final(self).readers() == old(self).readers(),
            final(self).pids() == old(self).pids().push(Seq::empty()),
    {
        self.pid_map.push(Vec::new());
        assert(self.pids() =~= old(self).pids().push(Seq::empty()));
        assert(self.readers() =~= old(self).readers());
    }

    /// Whether one more descriptor can be opened.
    pub open spec fn has_room(&self, pid: int) -> bool {
        &&& self.readers().len() < u32::MAX
        &&& self.pids()[pid].len() < u32::MAX
    }

    /// Opens a descriptor for a process: a new system-wide descriptor
    /// without readers, under the process's next number.
    pub fn open(&mut self, pid: u32) -> (file_id: FileDescriptor)
        requires
            old(self).wf(),
            pid < old(self).pids().len(),
            old(self).has_room(pid as int),
        ensures
            final(self).wf(),
            file_id == old(self).pids()[pid as int].len(),
            final(self).readers() == old(self).readers().push(Seq::empty()),
            final(self).pids() == old(self).pids().update(
                pid as int,
                old(self).pids()[pid as int].push(old(self).readers().len() as u32),
            ),
    {
        let raw_descriptor = self.readers_map.len() as u32;
        self.readers_map.push(Vec::new());
        let file_id = self.pid_map[pid as usize].len() as FileDescriptor;
        self.pid_map[pid as usize].push(raw_descriptor);
        assert(self.readers() =~= old(self).readers().push(Seq::empty()));
        assert(self.pids() =~= old(self).pids().update(
            pid as int,
            old(self).pids()[pid as int].push(old(self).readers().len() as u32),
        ));
        file_id
    }

    /// Adds a reader to a process's descriptor.
    pub fn read(&mut self, pid: u32, descriptor: FileDescriptor, callback: F)
        requires
            old(self).wf(),
            raw_of(old(self).pids(), pid as int, descriptor as int) is Some,
        ensures
            final(self).wf(),
            final(self).pids() == old(self).pids(),
            final(self).readers() == old(self).readers().update(
                raw_of(old(self).pids(), pid as int, descriptor as int)->0 as int,
                old(self).readers_of(pid as int, descriptor as int).push(callback),
            ),
    {
        let raw = self.pid_map[pid as usize][descriptor as usize];
        assert(raw == self.pid_map@[pid as int]@[descriptor as int]);
        self.readers_map[raw as usize].push(callback);
        assert(self.pids() =~= old(self).pids());
        assert(self.readers() =~= old(self).readers().update(
            raw as int,
            old(self).readers()[raw as int].push(callback),
        ));
    }

    /// The readers of a process's descriptor.
    pub open spec fn readers_of(&self, pid: int, descriptor: int) -> Seq<F> {
        self.readers()[raw_of(self.pids(), pid, descriptor)->0 as int]
    }

    /// Writes a character to a process's descriptor: every reader of the
    /// descriptor is called with it, in the order in which they were added.
    pub fn write(&self, pid: u32, descriptor: FileDescriptor, char: char)
        requires
            self.wf(),
            raw_of(self.pids(), pid as int, descriptor as int) is Some,
            forall|i: int|
                0 <= i < self.readers_of(pid as int, descriptor as int).len() ==> call_requires(
                    #[trigger] self.readers_of(pid as int, descriptor as int)[i],
                    (char,),
                ),
        ensures
            forall|i: int|
                0 <= i < self.readers_of(pid as int, descriptor as int).len() ==> call_ensures(
                    #[trigger] self.readers_of(pid as int, descriptor as int)[i],
                    (char,),
                    (),
                ),
    {
        let raw = self.pid_map[pid as usize][descriptor as usize];
        assert(raw == self.pid_map@[pid as int]@[descriptor as int]);
        let ghost readers = self.readers_of(pid as int, descriptor as int);
        assert(readers == self.readers_map@[raw as int]@);
        let mut i: usize = 0;
        while i < self.readers_map[raw as usize].len()
            invariant
                raw < self.readers_map@.len(),
                readers == self.readers_map@[raw as int]@,
                i <= readers.len(),
                forall|j: int| 0 <= j < readers.len() ==> call_requires(#[trigger] readers[j], (char,)),
                forall|j: int| 0 <= j < i ==> call_ensures(#[trigger] readers[j], (char,), ()),
            decreases readers.len() - i,
        {
            let reader = &self.readers_map[raw as usize][i];
            reader(char);
            i += 1;
        }
    }
}

} // verus!
