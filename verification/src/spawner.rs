//! The registry of processes. It gives out process ids and knows every
//! process's name and parent; it owns no process.

use vstd::prelude::*;
use vstd::string::StringExecFns;
use crate::future::Executor;
use crate::future::Future;
use crate::fs::Fs;
use crate::proc::Pid;
use crate::proc::Proc;
use crate::proc::Process;
use crate::root::Console;
use crate::root::Root;
use crate::string_channel::fresh;
use crate::string_channel::ChannelPool;
use crate::table::is_next_free;
use crate::table::lemma_next_free_unique;
use crate::table::with_added;
use crate::table::Table;
use crate::terminal::Terminal;

verus! {

/// What the registry knows of a process.
pub struct Registered {
    pub name: String,
    pub parent: Option<Pid>,
}

pub struct Spawner {
    pub processes: Table<Registered>,
}

impl Spawner {
    pub open spec fn wf(&self) -> bool {
        self.processes.wf()
    }

    /// The next process id fits the type of process ids.
    pub open spec fn has_room(&self) -> bool {
        self.processes@.len() <= u32::MAX
    }

    pub fn new() -> (spawner: Self)
        ensures
            spawner.wf(),
            spawner.processes@ == Seq::<Option<Registered>>::empty(),
    {
        Spawner { processes: Table::new() }
    }

    /// Whether another process can be given an id.
    pub fn check_room(&self) -> (room: bool)
        ensures
            room == self.has_room(),
    {
        self.processes.slots() <= 0xffff_ffff
    }

    /// Builds what the next process will hold: the id that the registry
    /// gives out next, and fresh standard channels. Registers nothing yet.
    pub fn prepare(&self, pool: &mut ChannelPool) -> (proc: Proc)
        requires
            self.has_room(),
        ensures
            proc.wf(),
            is_next_free(self.processes@, proc.pid as int),
            proc.children@.len() == 0,
            final(pool)@ == old(pool)@.push(fresh()).push(fresh()).push(fresh()),
            proc.stdin.reader() == Some(old(pool)@.len() as int),
            proc.stdin.writer() is None,
            proc.stdout.writer() == Some(old(pool)@.len() as int + 1),
            proc.stdout.reader() is None,
            proc.descriptor_table@.len() == 3,
            proc.descriptor_table@[0] matches Some(raw) && raw.writer() == Some(
                old(pool)@.len() as int,
            ) && raw.reader() is None,
            proc.descriptor_table@[1] matches Some(raw) && raw.writer() == Some(
                old(pool)@.len() as int + 1,
            ) && raw.reader() == Some(old(pool)@.len() as int + 1),
            proc.descriptor_table@[2] matches Some(raw) && raw.writer() == Some(
                old(pool)@.len() as int + 2,
            ) && raw.reader() == Some(old(pool)@.len() as int + 2),
    {
        let pid = self.processes.next_free() as Pid;
        Proc::new(pid, pool)
    }

    /// Enters a process in the registry, at the id that `prepare` gave it.
    pub fn enroll(&mut self, name: &str, parent: Option<Pid>) -> (index: usize)
        requires
            old(self).wf(),
        ensures
            final(self).wf(),
            is_next_free(old(self).processes@, index as int),
            final(self).processes@.len() == if index < old(self).processes@.len() {
                old(self).processes@.len()
            } else {
                old(self).processes@.len() + 1
            },
            final(self).processes@[index as int] matches Some(entry) && entry.name@ == name@
                && entry.parent == parent,
            forall|j: int|
                0 <= j < old(self).processes@.len() && j != index ==> final(self).processes@[j]
                    == old(self).processes@[j],
    {
        let entry = Registered { name: String::from_str(name), parent };
        let index = self.processes.add(entry);
        index
    }

    /// Creates a process of kind `Child` and registers it under the next
    /// free id. The registry's index and the process's id are the same.
    pub fn spawn<Child: Process>(
        &mut self,
        pool: &mut ChannelPool,
        parent: Option<Pid>,
    ) -> (spawned: (Child, Pid))
        requires
            old(self).wf(),
            old(self).has_room(),
        ensures
            final(self).wf(),
            spawned.0.wf(),
            spawned.0.pid() == spawned.1,
            is_next_free(old(self).processes@, spawned.1 as int),
            final(pool)@ == old(pool)@.push(fresh()).push(fresh()).push(fresh()),
            final(self).processes@.len() == if spawned.1 < old(self).processes@.len() {
                old(self).processes@.len()
            } else {
                old(self).processes@.len() + 1
            },
            final(self).processes@[spawned.1 as int] matches Some(entry) && entry.parent == parent,
            forall|j: int|
                0 <= j < old(self).processes@.len() && j != spawned.1 ==> final(self).processes@[j] == old(self).processes@[j],
    {
        let child_proc = self.prepare(pool);
        let child_pid = child_proc.pid;
        let child = Child::new(child_proc);
        let id = self.enroll(child.get_process_name(), parent);
        proof {
            lemma_next_free_unique(old(self).processes@, child_pid as int, id as int);
        }
        (child, child_pid)
    }

    /// Builds the system: the root process gets id 0 in a registry of its
    /// own, with fresh standard channels in a pool of its own.
    pub fn spawn_root<P: Future<Console, Output = ()>>() -> (root: Root<P>)
        ensures
            root.wf(),
            root.proc.pid == 0,
            root.spawner.processes@.len() == 1,
            root.spawner.processes@[0] matches Some(entry) && entry.parent == None::<Pid>
                && entry.name@ == "Root"@,
            root.console.channels@ == seq![fresh(), fresh(), fresh()],
            root.console.terminal@ == Seq::<char>::empty(),
            root.executor.tasks() == Seq::<Option<crate::root::Job<P>>>::empty(),
            root.executor.queue() == Seq::<crate::root::Job<P>>::empty(),
    {
        let mut channels = ChannelPool::new();
        let proc = Proc::new(0, &mut channels);
        let mut root = Root {
            console: Console { channels, terminal: Terminal::new() },
            proc,
            fs: Fs::new(),
            executor: Executor::new(),
            spawner: Spawner::new(),
        };
        let id = root.spawner.enroll(root.get_process_name(), None);
        assert(id == 0);
        assert(root.console.channels@ =~= seq![fresh(), fresh(), fresh()]);
        root
    }

    /// What the registry holds for process `pid`, if it is registered.
    pub open spec fn entry(&self, pid: int) -> Option<Registered> {
        if 0 <= pid < self.processes@.len() {
            self.processes@[pid]
        } else {
            None
        }
    }

    /// The name under which process `pid` is registered.
    pub fn name_of(&self, pid: Pid) -> (name: Option<&String>)
        ensures
            name is Some <==> self.entry(pid as int) is Some,
            name matches Some(found) ==> self.entry(pid as int)->0.name == *found,
    {
        match self.processes.find(pid as usize) {
            Some(entry) => Some(&entry.name),
            None => None,
        }
    }

    /// Whether process `pid` is registered as a child of `parent`.
    pub fn is_child_of(&self, pid: Pid, parent: Pid) -> (child: bool)
        ensures
            child <==> (self.entry(pid as int) matches Some(entry) && entry.parent == Some(parent)),
    {
        match self.processes.find(pid as usize) {
            Some(entry) => match entry.parent {
                Some(registered) => registered == parent,
                None => false,
            },
            None => false,
        }
    }
}

} // verus!
