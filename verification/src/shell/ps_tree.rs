//! `pstree`: writes the tree of processes to its output, one process per
//! line, each child two columns further in than its parent.

use vstd::prelude::*;
use vstd::string::StringExecFns;
use crate::decimal::decimal;
use crate::decimal::digits;
use crate::future::Future;
use crate::proc::Pid;
use crate::proc::Proc;
use crate::proc::Process;
use crate::root::Console;
use crate::root::Root;
use crate::shell::printed;
use crate::spawner::Registered;
use crate::spawner::Spawner;

verus! {

/// That many spaces.
pub open spec fn spaces(n: nat) -> Seq<char> {
    Seq::new(n, |i: int| ' ')
}

/// The line of one process.
pub open spec fn line(pid: nat, name: Seq<char>, indent: nat) -> Seq<char> {
    spaces(indent) + seq!['['] + digits(pid) + seq![']'] + name + seq!['\n']
}

/// Process `pid` is registered as a child of `parent`.
pub open spec fn child_of(entries: Seq<Option<Registered>>, pid: int, parent: int) -> bool {
    0 <= pid < entries.len() && pid <= u32::MAX && 0 <= parent <= u32::MAX && (entries[pid] matches Some(
        entry,
    )
        && entry.parent == Some(parent as u32))
}

/// The lines of process `pid` and of what descends from it, down to `fuel`
/// levels.
pub open spec fn tree(entries: Seq<Option<Registered>>, pid: nat, indent: nat, fuel: nat) -> Seq<
    char,
>
    decreases fuel, 0nat,
{
    if fuel == 0 || pid >= entries.len() || pid > u32::MAX {
        Seq::empty()
    } else {
        match entries[pid as int] {
            Some(entry) => line(pid, entry.name@, indent) + children(
                entries,
                pid,
                indent + 2,
                (fuel - 1) as nat,
                0,
            ),
            None => Seq::empty(),
        }
    }
}

/// The lines of the children of `parent` from process `from` on, in the
/// order of their ids.
pub open spec fn children(
    entries: Seq<Option<Registered>>,
    parent: nat,
    indent: nat,
    fuel: nat,
    from: nat,
) -> Seq<char>
    decreases fuel, entries.len() - from + 1,
{
    if from >= entries.len() {
        Seq::empty()
    } else if child_of(entries, from as int, parent as int) {
        tree(entries, from, indent, fuel) + children(entries, parent, indent, fuel, from + 1)
    } else {
        children(entries, parent, indent, fuel, from + 1)
    }
}

/// How many levels are written: as many as there are processes, but no
/// more than the indentation can count.
pub open spec fn levels(processes: nat) -> nat {
    if processes <= usize::MAX / 2 {
        processes
    } else {
        (usize::MAX / 2) as nat
    }
}

fn render_line(text: &mut String, pid: Pid, name: &str, indent: usize)
    ensures
        final(text)@ == old(text)@ + line(pid as nat, name@, indent as nat),
{
    let ghost before = text@;
    let mut i: usize = 0;
    while i < indent
        invariant
            i <= indent,
            text@ == before + spaces(i as nat),
        decreases indent - i,
    {
        text.push(' ');
        assert(text@ =~= before + spaces((i + 1) as nat));
        i += 1;
    }
    text.push('[');
    let number = decimal(pid as u64);
    text.append(number.as_str());
    text.push(']');
    text.append(name);
    text.push('\n');
    assert(text@ =~= before + line(pid as nat, name@, indent as nat));
}

fn render_tree(text: &mut String, spawner: &Spawner, pid: usize, indent: usize, fuel: usize)
    requires
        indent + 2 * fuel <= usize::MAX,
    ensures
        final(text)@ == old(text)@ + tree(
            spawner.processes@,
            pid as nat,
            indent as nat,
            fuel as nat,
        ),
    decreases fuel, 0nat,
{
    if fuel == 0 || pid >= spawner.processes.slots() || pid > 0xffff_ffff {
        assert(text@ + Seq::<char>::empty() =~= text@);
        return ;
    }
    match spawner.processes.find(pid) {
        Some(entry) => {
            let ghost before = text@;
            render_line(text, pid as Pid, entry.name.as_str(), indent);
            render_children(text, spawner, pid, indent + 2, fuel - 1, 0);
            assert(text@ =~= before + tree(
                spawner.processes@,
                pid as nat,
                indent as nat,
                fuel as nat,
            ));
        },
        None => {
            assert(text@ + Seq::<char>::empty() =~= text@);
        },
    }
}

fn render_children(
    text: &mut String,
    spawner: &Spawner,
    parent: usize,
    indent: usize,
    fuel: usize,
    from: usize,
)
    requires
        indent + 2 * fuel <= usize::MAX,
        parent <= u32::MAX,
    ensures
        final(text)@ == old(text)@ + children(
            spawner.processes@,
            parent as nat,
            indent as nat,
            fuel as nat,
            from as nat,
        ),
    decreases fuel, spawner.processes@.len() - from + 1,
{
    if from >= spawner.processes.slots() {
        assert(text@ + Seq::<char>::empty() =~= text@);
        return ;
    }
    let ghost before = text@;
    if from <= 0xffff_ffff && spawner.is_child_of(from as Pid, parent as Pid) {
        render_tree(text, spawner, from, indent, fuel);
    } else {
        assert(!child_of(spawner.processes@, from as int, parent as int));
    }
    let ghost middle = text@;
    render_children(text, spawner, parent, indent, fuel, from + 1);
    assert(text@ =~= before + children(
        spawner.processes@,
        parent as nat,
        indent as nat,
        fuel as nat,
        from as nat,
    ));
}

/// The tree of processes below and including process `pid`.
pub fn render(spawner: &Spawner, pid: Pid) -> (text: String)
    ensures
        text@ == tree(spawner.processes@, pid as nat, 0, levels(spawner.processes@.len())),
{
    let slots = spawner.processes.slots();
    let fuel = if slots <= usize::MAX / 2 {
        slots
    } else {
        usize::MAX / 2
    };
    let mut text = String::new();
    render_tree(&mut text, spawner, pid as usize, 0, fuel);
    assert(Seq::<char>::empty() + tree(spawner.processes@, pid as nat, 0, fuel as nat) =~= tree(
        spawner.processes@,
        pid as nat,
        0,
        fuel as nat,
    ));
    text
}

pub struct PsTreeProgram {
    pub proc: Proc,
}

impl Process for PsTreeProgram {
    open spec fn wf(&self) -> bool {
        self.proc.wf()
    }

    open spec fn pid(&self) -> Pid {
        self.proc.pid
    }

    fn new(proc: Proc) -> (program: Self)
        ensures
            program.proc == proc,
    {
        PsTreeProgram { proc }
    }

    fn get_process_name(&self) -> (name: &str)
        ensures
            name@ == "PsTree"@,
    {
        "PsTree"
    }

    fn get_proc(&self) -> (proc: &Proc)
        ensures
            *proc == self.proc,
    {
        &self.proc
    }

    /// Writes the tree of all processes, from the root down, to the output.
    fn main<P: Future<Console, Output = ()>>(&mut self, args: Vec<String>, root: &mut Root<P>)
        ensures
            final(self).proc == old(self).proc,
            final(root).console.channels@ == printed(
                old(root).console.channels@,
                old(self).proc.stdout.writer(),
                tree(
                    old(root).spawner.processes@,
                    old(root).proc.pid as nat,
                    0,
                    levels(old(root).spawner.processes@.len()),
                ),
            ),
            final(root).console.terminal == old(root).console.terminal,
            final(root).proc == old(root).proc,
            final(root).fs == old(root).fs,
            final(root).spawner == old(root).spawner,
            final(root).executor == old(root).executor,
    {
        self.print(root, root.proc.pid);
        self.proc.exit();
    }
}

impl PsTreeProgram {
    /// Writes the tree of processes below and including process `node` to
    /// the output.
    pub fn print<P: Future<Console, Output = ()>>(&self, root: &mut Root<P>, node: Pid)
        ensures
            final(root).console.channels@ == printed(
                old(root).console.channels@,
                self.proc.stdout.writer(),
                tree(
                    old(root).spawner.processes@,
                    node as nat,
                    0,
                    levels(old(root).spawner.processes@.len()),
                ),
            ),
            final(root).console.terminal == old(root).console.terminal,
            final(root).proc == old(root).proc,
            final(root).fs == old(root).fs,
            final(root).spawner == old(root).spawner,
            final(root).executor == old(root).executor,
    {
        let text = render(&root.spawner, node);
        self.proc.stdout.write(&mut root.console.channels, text.as_str());
    }
}

} // verus!
