//! `ls`: lists a directory of the mount table on its output.

use vstd::prelude::*;
use vstd::string::StringExecFns;
use crate::fs::error_name;
use crate::fs::first_named;
use crate::fs::Directory;
use crate::fs::Inode;
use crate::fs::Name;
use crate::fs::OpenError;
use crate::future::Future;
use crate::proc::Pid;
use crate::proc::Proc;
use crate::proc::Process;
use crate::root::Console;
use crate::root::Root;
use crate::shell::printed;

verus! {

/// What Rust's `{:?}` writes for a string: the string between double
/// quotes, with its special characters escaped.
pub uninterp spec fn debug_text(text: Seq<char>) -> Seq<char>;

/// `format!` with `{:?}` on a string slice.
#[verifier::external_body]
fn quoted(text: &str) -> (shown: String)
    ensures
        shown@ == debug_text(text@),
{
    format!("{:?}", text)
}

/// The line that `ls` writes for one entry.
pub open spec fn listed_entry(entry: (Name, Inode)) -> Seq<char> {
    match entry.1 {
        Inode::Directory(_) => "Directory: "@ + debug_text(entry.0.0@) + " \n"@,
        Inode::File(_) => "File: "@ + debug_text(entry.0.0@) + "\n"@,
    }
}

/// What `ls` writes for the entries of a directory.
pub open spec fn listed(entries: Seq<(Name, Inode)>) -> Seq<char>
    decreases entries.len(),
{
    if entries.len() == 0 {
        Seq::empty()
    } else {
        listed_entry(entries[0]) + listed(entries.drop_first())
    }
}

/// The listing of a directory: one line per entry, in the directory's
/// order.
pub fn listing(directory: &Directory) -> (text: String)
    ensures
        text@ == listed(directory.0@),
{
    let mut text = String::new();
    let mut i: usize = 0;
    assert(directory.0@.skip(0) =~= directory.0@);
    assert(text@ + listed(directory.0@) =~= listed(directory.0@));
    while i < directory.0.len()
        invariant
            i <= directory.0@.len(),
            text@ + listed(directory.0@.skip(i as int)) == listed(directory.0@),
        decreases directory.0@.len() - i,
    {
        let ghost before = text@;
        let ghost rest = directory.0@.skip(i as int);
        assert(rest[0] == directory.0@[i as int]);
        assert(rest.drop_first() =~= directory.0@.skip(i + 1));
        let shown = quoted(directory.0[i].0.0.as_str());
        match &directory.0[i].1 {
            Inode::Directory(_) => {
                text.append("Directory: ");
                text.append(shown.as_str());
                text.append(" \n");
            },
            Inode::File(_) => {
                text.append("File: ");
                text.append(shown.as_str());
                text.append("\n");
            },
        }
        assert(text@ =~= before + listed_entry(rest[0]));
        assert((before + listed_entry(rest[0])) + listed(rest.drop_first()) =~= before + (
        listed_entry(rest[0]) + listed(rest.drop_first())));
        i += 1;
    }
    assert(directory.0@.skip(i as int) =~= Seq::<(Name, Inode)>::empty());
    assert(text@ + Seq::<char>::empty() =~= text@);
    text
}

pub struct LsProgram {
    pub proc: Proc,
}

impl Process for LsProgram {
    open spec fn wf(&self) -> bool {
        self.proc.wf()
    }

    open spec fn pid(&self) -> Pid {
        self.proc.pid
    }

    fn new(proc: Proc) -> (program: Self)
        ensures
            program.proc == proc,
    {
        LsProgram { proc }
    }

    fn get_process_name(&self) -> (name: &str)
        ensures
            name@ == "ls"@,
    {
        "ls"
    }

    fn get_proc(&self) -> (proc: &Proc)
        ensures
            *proc == self.proc,
    {
        &self.proc
    }

    /// With one argument, the name of a directory: writes the directory's
    /// listing to the output, or the error if the name cannot be opened as
    /// a directory. With any other number of arguments nothing is done.
    fn main<P: Future<Console, Output = ()>>(&mut self, args: Vec<String>, root: &mut Root<P>)
        ensures
            final(self).proc == old(self).proc,
            final(root).console.terminal == old(root).console.terminal,
            final(root).proc == old(root).proc,
            final(root).fs == old(root).fs,
            final(root).spawner == old(root).spawner,
            final(root).executor == old(root).executor,
            args@.len() != 1 ==> final(root).console == old(root).console,
            args@.len() == 1 ==> final(root).console.channels@ == match first_named(
                old(root).fs.mount().0@,
                args@[0]@,
            ) {
                Some(i) => match old(root).fs.mount().0@[i].1 {
                    Inode::Directory(directory) => printed(
                        old(root).console.channels@,
                        old(self).proc.stdout.writer(),
                        listed(directory.0@),
                    ),
                    Inode::File(_) => printed(
                        printed(
                            old(root).console.channels@,
                            old(self).proc.stdout.writer(),
                            "Error: "@,
                        ),
                        old(self).proc.stdout.writer(),
                        error_name(OpenError::IsFile),
                    ),
                },
                None => printed(
                    printed(
                        old(root).console.channels@,
                        old(self).proc.stdout.writer(),
                        "Error: "@,
                    ),
                    old(self).proc.stdout.writer(),
                    error_name(OpenError::NoEntry),
                ),
            },
    {
        if args.len() != 1 {
            return ;
        }
        let name = args[0].clone();
        match self.proc.open_dir(&root.fs, name) {
            Ok(directory) => {
                let text = listing(directory);
                self.proc.stdout.write(&mut root.console.channels, text.as_str());
            },
            Err(error) => {
                self.proc.stdout.write(&mut root.console.channels, "Error: ");
                self.proc.stdout.write(&mut root.console.channels, error.name());
            },
        }
        self.proc.exit();
    }
}

} // verus!
