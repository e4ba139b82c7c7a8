//! `echo`: writes its arguments to its output, one after the other, and a
//! line feed.

use vstd::prelude::*;
use crate::future::Future;
use crate::proc::Pid;
use crate::proc::Proc;
use crate::proc::Process;
use crate::root::Console;
use crate::root::Root;
use crate::shell::printed;
use crate::string_channel::ChannelState;

verus! {

/// The text that `echo` writes for `args`.
pub open spec fn echoed(args: Seq<Seq<char>>) -> Seq<char>
    decreases args.len(),
{
    if args.len() == 0 {
        seq!['\n']
    } else {
        args[0] + echoed(args.drop_first())
    }
}

/// The channels after each of `args` from `from` on, and then a line feed,
/// was written to a handle's writing end.
pub open spec fn written_each(
    channels: Seq<ChannelState>,
    writer: Option<int>,
    args: Seq<Seq<char>>,
    from: int,
) -> Seq<ChannelState>
    decreases args.len() - from,
{
    if from < 0 || from >= args.len() {
        printed(channels, writer, seq!['\n'])
    } else {
        written_each(printed(channels, writer, args[from]), writer, args, from + 1)
    }
}

pub struct EchoProgram {
    pub proc: Proc,
}

impl Process for EchoProgram {
    open spec fn wf(&self) -> bool {
        self.proc.wf()
    }

    open spec fn pid(&self) -> Pid {
        self.proc.pid
    }

    fn new(proc: Proc) -> (program: Self)
        ensures
            program.proc == proc,
    {
        EchoProgram { proc }
    }

    fn get_process_name(&self) -> (name: &str)
        ensures
            name@ == "Echo"@,
    {
        "Echo"
    }

    fn get_proc(&self) -> (proc: &Proc)
        ensures
            *proc == self.proc,
    {
        &self.proc
    }

    fn main<P: Future<Console, Output = ()>>(&mut self, args: Vec<String>, root: &mut Root<P>)
        ensures
            final(self).proc == old(self).proc,
            final(root).console.channels@ == written_each(
                old(root).console.channels@,
                old(self).proc.stdout.writer(),
                args.deep_view(),
                0,
            ),
            final(root).console.terminal == old(root).console.terminal,
            final(root).proc == old(root).proc,
            final(root).fs == old(root).fs,
            final(root).executor == old(root).executor,
            final(root).spawner == old(root).spawner,
    {
        let mut i: usize = 0;
        while i < args.len()
            invariant
                i <= args@.len(),
                self.proc == old(self).proc,
                written_each(
                    root.console.channels@,
                    self.proc.stdout.writer(),
                    args.deep_view(),
                    i as int,
                ) == written_each(
                    old(root).console.channels@,
                    old(self).proc.stdout.writer(),
                    args.deep_view(),
                    0,
                ),
                root.console.terminal == old(root).console.terminal,
                root.proc == old(root).proc,
                root.fs == old(root).fs,
                root.executor == old(root).executor,
                root.spawner == old(root).spawner,
            decreases args@.len() - i,
        {
            assert(args.deep_view()[i as int] == args@[i as int]@);
            self.proc.stdout.write(&mut root.console.channels, args[i].as_str());
            i += 1;
        }
        self.proc.stdout.write_char(&mut root.console.channels, '\n');
        self.proc.exit();
    }
}

} // verus!
