//! `top`: writes a one-letter heading and a line feed.

use vstd::prelude::*;
use crate::future::Future;
use crate::proc::Pid;
use crate::proc::Proc;
use crate::proc::Process;
use crate::root::Console;
use crate::root::Root;
use crate::shell::printed;

verus! {

pub struct TopProgram {
    pub proc: Proc,
}

impl Process for TopProgram {
    open spec fn wf(&self) -> bool {
        self.proc.wf()
    }

    open spec fn pid(&self) -> Pid {
        self.proc.pid
    }

    fn new(proc: Proc) -> (program: Self)
        ensures
            program.proc == proc,
    {
        TopProgram { proc }
    }

    fn get_process_name(&self) -> (name: &str)
        ensures
            name@ == "Top"@,
    {
        "Top"
    }

    fn get_proc(&self) -> (proc: &Proc)
        ensures
            *proc == self.proc,
    {
        &self.proc
    }

    /// Writes `h` and a line feed to the output.
    fn main<P: Future<Console, Output = ()>>(&mut self, args: Vec<String>, root: &mut Root<P>)
        ensures
            final(self).proc == old(self).proc,
            final(root).console.channels@ == printed(
                printed(old(root).console.channels@, old(self).proc.stdout.writer(), seq!['h']),
                old(self).proc.stdout.writer(),
                seq!['\n'],
            ),
            final(root).console.terminal == old(root).console.terminal,
            final(root).proc == old(root).proc,
            final(root).fs == old(root).fs,
            final(root).spawner == old(root).spawner,
            final(root).executor == old(root).executor,
    {
        self.proc.stdout.write_char(&mut root.console.channels, 'h');
        self.proc.stdout.write_char(&mut root.console.channels, '\n');
        self.proc.exit();
    }
}

} // verus!
