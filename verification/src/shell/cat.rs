//! `cat`: copies a file of the mount table to its output.

use vstd::prelude::*;
use crate::fs::error_name;
use crate::fs::first_file;
use crate::fs::Inode;
use crate::fs::OpenError;
use crate::future::Future;
use crate::proc::Pid;
use crate::proc::Proc;
use crate::proc::Process;
use crate::root::Console;
use crate::root::Job;
use crate::root::JobModel;
use crate::root::Root;
use crate::shell::printed;
use crate::string_channel::ChannelState;

verus! {

pub struct CatProgram {
    pub proc: Proc,
}

impl Process for CatProgram {
    open spec fn wf(&self) -> bool {
        self.proc.wf()
    }

    open spec fn pid(&self) -> Pid {
        self.proc.pid
    }

    fn new(proc: Proc) -> (program: Self)
        ensures
            program.proc == proc,
    {
        CatProgram { proc }
    }

    fn get_process_name(&self) -> (name: &str)
        ensures
            name@ == "Cat"@,
    {
        "Cat"
    }

    fn get_proc(&self) -> (proc: &Proc)
        ensures
            *proc == self.proc,
    {
        &self.proc
    }

    /// With one argument, the name of a file: opens the file and submits
    /// the job that forwards its content to this program's output. A name
    /// that cannot be opened is answered with the error on the output. With
    /// any other number of arguments nothing is done.
    fn main<P: Future<Console, Output = ()>>(&mut self, args: Vec<String>, root: &mut Root<P>)
        ensures
            final(self).proc.pid == old(self).proc.pid,
            final(self).proc.stdout == old(self).proc.stdout,
            final(self).proc.stdin == old(self).proc.stdin,
            final(root).console.terminal == old(root).console.terminal,
            final(root).proc == old(root).proc,
            final(root).fs == old(root).fs,
            final(root).spawner == old(root).spawner,
            final(root).executor.tasks() == old(root).executor.tasks(),
            args@.len() != 1 ==> final(root).console == old(root).console && final(root).executor
                == old(root).executor && final(self).proc == old(self).proc,
            args@.len() == 1 ==> match first_file(old(root).fs.mount().0@, args@[0]@) {
                Some(i) => {
                    &&& old(root).fs.mount().0@[i].1 matches Inode::File(content) && final(root).console.channels@ == old(root).console.channels@.push(
                        ChannelState { buffer: content@, closed: false },
                    )
                    &&& final(root).executor.queue().len() == old(root).executor.queue().len() + 1
                    &&& final(root).executor.queue().last().model() == (JobModel::<
                        P::Model,
                    >::Forward {
                        from: Some(old(root).console.channels@.len() as int),
                        to: old(self).proc.stdout.writer(),
                    })
                },
                None => {
                    &&& final(root).console.channels@ == printed(
                        printed(
                            old(root).console.channels@,
                            old(self).proc.stdout.writer(),
                            "Error: "@,
                        ),
                        old(self).proc.stdout.writer(),
                        error_name(OpenError::NoEntry),
                    )
                    &&& final(root).executor == old(root).executor
                },
            },
    {
        if args.len() != 1 {
            return ;
        }
        let file = args[0].clone();
        match self.proc.open(&root.fs, &mut root.console.channels, file) {
            Ok(descriptor) => {
                let from = descriptor.read();
                let to = self.proc.stdout.copy_raw();
                root.executor.add_task(Job::Forward { from, to });
            },
            Err(error) => {
                self.proc.stdout.write(&mut root.console.channels, "Error: ");
                self.proc.stdout.write(&mut root.console.channels, error.name());
            },
        }
        self.proc.exit();
    }
}

} // verus!
