//! The shell: a process that collects a line from its input, echoes it, and
//! says which program the line asks for.

use vstd::prelude::*;

pub mod cat;
pub mod echo;
pub mod ls;
pub mod ps_tree;
pub mod top;

use vstd::string::StringExecFns;
use crate::channel_handler::end_id;
use crate::future::Future;
use crate::future::Poll;
use crate::proc::reader_of;
use crate::proc::Pid;
use crate::proc::Proc;
use crate::proc::Process;
use crate::proc::STDOUT;
use crate::root::Console;
use crate::root::Job;
use crate::root::JobModel;
use crate::root::Root;
use crate::shell::cat::CatProgram;
use crate::shell::echo::EchoProgram;
use crate::shell::ps_tree::PsTreeProgram;
use crate::string_channel::read_char_polled;
use crate::string_channel::source_id;
use crate::table::is_next_free;
use crate::string_channel::ChannelState;
use crate::string_channel::sent;
use crate::string_channel::with_channel;
use crate::string_channel::ChannelPool;

verus! {

/// Whether a character has the Unicode property White_Space, which is what
/// `char::is_whitespace` tests.
pub uninterp spec fn whitespace(c: char) -> bool;

/// `char::is_whitespace` tests the Unicode property White_Space.
pub assume_specification[ char::is_whitespace ](c: char) -> (white: bool)
    ensures
        white == whitespace(c),
;

/// `String::clear` empties the string.
pub assume_specification[ String::clear ](s: &mut String)
    ensures
        final(s)@ == Seq::<char>::empty(),
;

/// The word in progress as a list of words: itself if it has a character,
/// else nothing.
pub open spec fn word(current: Seq<char>) -> Seq<Seq<char>> {
    if current.len() > 0 {
        seq![current]
    } else {
        Seq::empty()
    }
}

/// The words of `line` that follow the characters `current` of a word in
/// progress: maximal runs of characters that are not white space.
pub open spec fn split(line: Seq<char>, current: Seq<char>) -> Seq<Seq<char>>
    decreases line.len(),
{
    if line.len() == 0 {
        word(current)
    } else if whitespace(line[0]) {
        word(current) + split(line.drop_first(), Seq::empty())
    } else {
        split(line.drop_first(), current.push(line[0]))
    }
}

/// The words of a line.
pub open spec fn words(line: Seq<char>) -> Seq<Seq<char>> {
    split(line, Seq::empty())
}

/// Splits a line into its words.
pub fn split_whitespace(line: &str) -> (found: Vec<String>)
    ensures
        found.deep_view() == words(line@),
{
    let n = line.unicode_len();
    let mut found: Vec<String> = Vec::new();
    let mut current = String::new();
    let mut i: usize = 0;
    assert(line@.skip(0) =~= line@);
    assert(found.deep_view() =~= Seq::<Seq<char>>::empty());
    while i < n
        invariant
            n == line@.len(),
            i <= n,
            found.deep_view() + split(line@.skip(i as int), current@) == words(line@),
        decreases n - i,
    {
        let c = line.get_char(i);
        let ghost rest = line@.skip(i as int);
        let ghost before = found.deep_view();
        let ghost w = current@;
        assert(rest.drop_first() =~= line@.skip(i + 1));
        assert(rest[0] == c);
        if c.is_whitespace() {
            if !current.as_str().is_empty() {
                let mut finished = String::new();
                std::mem::swap(&mut finished, &mut current);
                found.push(finished);
                assert(found.deep_view() =~= before + word(w));
            } else {
                assert(before + word(w) =~= before);
                assert(current@ =~= Seq::<char>::empty());
            }
            assert((before + word(w)) + split(rest.drop_first(), Seq::empty()) =~= before + (word(
                w,
            ) + split(rest.drop_first(), Seq::empty())));
        } else {
            current.push(c);
        }
        i += 1;
    }
    assert(line@.skip(n as int) =~= Seq::<char>::empty());
    if !current.as_str().is_empty() {
        let ghost before = found.deep_view();
        found.push(current);
        assert(found.deep_view() =~= before + word(current@));
    } else {
        assert(found.deep_view() + word(current@) =~= found.deep_view());
    }
    found
}

/// The programs that the shell knows.
#[derive(Debug, PartialEq, Eq, Structural)]
pub enum Command {
    Echo,
    PsTree,
    Cat,
    Invalid,
}

/// The program that a line's first word asks for.
pub open spec fn command_of(name: Seq<char>) -> Command {
    if name == "echo"@ {
        Command::Echo
    } else if name == "pstree"@ {
        Command::PsTree
    } else if name == "cat"@ {
        Command::Cat
    } else {
        Command::Invalid
    }
}

/// The program that a line's first word asks for.
pub fn parse_command(name: &String) -> (command: Command)
    ensures
        command == command_of(name@),
{
    if *name == String::from_str("echo") {
        Command::Echo
    } else if *name == String::from_str("pstree") {
        Command::PsTree
    } else if *name == String::from_str("cat") {
        Command::Cat
    } else {
        Command::Invalid
    }
}

/// Whether the shell starts the program: it knows the program, there is
/// room for another process, and `cat` has its one argument.
pub open spec fn runnable(command: Command, args: int, room: bool) -> bool {
    match command {
        Command::Echo => room,
        Command::PsTree => room,
        Command::Cat => room && args == 1,
        Command::Invalid => false,
    }
}

/// What the shell writes before each line.
pub open spec fn prompt() -> Seq<char> {
    "fritz@tekenen:~$ "@
}

/// The channels after `text` was written to a handle's writing end.
pub open spec fn printed(channels: Seq<ChannelState>, writer: Option<int>, text: Seq<char>) -> Seq<
    ChannelState,
> {
    with_channel(channels, end_id(writer), sent(channels[end_id(writer)], text))
}

/// The shell process: what every process holds, and the line typed so far.
pub struct Shell {
    pub proc: Proc,
    pub buffer: String,
}

impl Process for Shell {
    open spec fn wf(&self) -> bool {
        self.proc.wf()
    }

    open spec fn pid(&self) -> Pid {
        self.proc.pid
    }

    fn new(proc: Proc) -> (shell: Self)
        ensures
            shell.proc == proc,
            shell.buffer@ == Seq::<char>::empty(),
    {
        Shell { proc, buffer: String::new() }
    }

    fn get_process_name(&self) -> (name: &str)
        ensures
            name@ == "Shell"@,
    {
        "Shell"
    }

    fn get_proc(&self) -> (proc: &Proc)
        ensures
            *proc == self.proc,
    {
        &self.proc
    }

    /// Writes the first prompt. The shell then lives by `step`.
    fn main<P: Future<Console, Output = ()>>(&mut self, args: Vec<String>, root: &mut Root<P>)
        ensures
            *final(self) == *old(self),
            final(root).console.channels@ == printed(
                old(root).console.channels@,
                old(self).proc.stdout.writer(),
                prompt(),
            ),
            final(root).console.terminal == old(root).console.terminal,
            final(root).proc == old(root).proc,
            final(root).fs == old(root).fs,
            final(root).spawner == old(root).spawner,
            final(root).executor == old(root).executor,
    {
        self.prompt(&mut root.console.channels);
    }
}

impl Shell {
    /// Writes the prompt to the shell's output.
    pub fn prompt(&self, pool: &mut ChannelPool) -> (result: Option<()>)
        ensures
            result is Some <==> self.proc.stdout.writer() is Some && old(pool).is_open(
                end_id(self.proc.stdout.writer()),
            ),
            final(pool)@ == printed(old(pool)@, self.proc.stdout.writer(), prompt()),
    {
        self.proc.stdout.write(pool, "fritz@tekenen:~$ ")
    }

    /// Takes one typed character. Every character is echoed. A line feed
    /// ends the line: its words are returned and the line starts over. Any
    /// other character joins the line.
    pub fn key(&mut self, pool: &mut ChannelPool, key: char) -> (line: Option<Vec<String>>)
        ensures
            final(self).proc == old(self).proc,
            final(pool)@ == printed(old(pool)@, old(self).proc.stdout.writer(), seq![key]),
            key == '\n' ==> final(self).buffer@ == Seq::<char>::empty(),
            key == '\n' ==> (line matches Some(found) && found.deep_view() == words(
                old(self).buffer@,
            )),
            key != '\n' ==> final(self).buffer@ == old(self).buffer@.push(key) && line is None,
    {
        self.proc.stdout.write_char(pool, key);
        if key == '\n' {
            let found = split_whitespace(self.buffer.as_str());
            self.buffer.clear();
            Some(found)
        } else {
            self.buffer.push(key);
            None
        }
    }

    /// Starts the program that a line asks for, as a child of the shell
    /// with its output forwarded to the shell's output, and writes the next
    /// prompt. The line's first word names the program, the others are its
    /// arguments. An empty line only gets the prompt. A line that names no
    /// program, `cat` with other than one argument, and any program when
    /// the registry is full, get the answer that the command is invalid.
    pub fn serve<P: Future<Console, Output = ()>>(&mut self, root: &mut Root<P>, line: Vec<String>)
        requires
            old(self).wf(),
            old(root).wf(),
        ensures
            final(self).wf(),
            final(root).wf(),
            final(self).buffer == old(self).buffer,
            final(self).proc.pid == old(self).proc.pid,
            final(self).proc.stdin == old(self).proc.stdin,
            final(self).proc.stdout == old(self).proc.stdout,
            final(self).proc.descriptor_table == old(self).proc.descriptor_table,
            line@.len() == 0 ==> final(self).proc == old(self).proc && final(root).executor == old(root).executor && final(root).spawner == old(root).spawner && final(root).console.channels@ == printed(
                old(root).console.channels@,
                old(self).proc.stdout.writer(),
                prompt(),
            ),
            line@.len() > 0 && !runnable(
                command_of(line@[0]@),
                line@.len() - 1,
                old(root).spawner.has_room(),
            ) ==> final(self).proc == old(self).proc && final(root).executor == old(root).executor
                && final(root).spawner == old(root).spawner && final(root).console.channels@
                == printed(
                printed(
                    old(root).console.channels@,
                    old(self).proc.stdout.writer(),
                    "Invalid command!\n"@,
                ),
                old(self).proc.stdout.writer(),
                prompt(),
            ),
            line@.len() > 0 && runnable(
                command_of(line@[0]@),
                line@.len() - 1,
                old(root).spawner.has_room(),
            ) ==> final(self).proc.children@.len() == old(self).proc.children@.len() + 1
                && is_next_free(old(root).spawner.processes@, final(self).proc.children@.last() as int),
    {
        let mut args = line;
        if args.len() == 0 {
            self.prompt(&mut root.console.channels);
            return ;
        }
        let name = args.remove(0);
        let command = parse_command(&name);
        let room = root.spawner.check_room();
        let count = args.len();
        if !room {
            self.proc.stdout.write(&mut root.console.channels, "Invalid command!\n");
        } else {
            match command {
                Command::Echo => {
                    let (child, _pid) = self.proc.spawn::<EchoProgram, P>(root, args);
                    self.forward(root, &child.proc);
                },
                Command::PsTree => {
                    let (child, _pid) = self.proc.spawn::<PsTreeProgram, P>(root, args);
                    self.forward(root, &child.proc);
                },
                Command::Cat => {
                    if count == 1 {
                        let (child, _pid) = self.proc.spawn::<CatProgram, P>(root, args);
                        self.forward(root, &child.proc);
                    } else {
                        self.proc.stdout.write(&mut root.console.channels, "Invalid command!\n");
                    }
                },
                Command::Invalid => {
                    self.proc.stdout.write(&mut root.console.channels, "Invalid command!\n");
                },
            }
        }
        self.prompt(&mut root.console.channels);
    }

    /// Submits the job that forwards a child's output to the shell's
    /// output.
    pub fn forward<P: Future<Console, Output = ()>>(&self, root: &mut Root<P>, child: &Proc)
        requires
            old(root).wf(),
        ensures
            final(root).wf(),
            final(root).console == old(root).console,
            final(root).proc == old(root).proc,
            final(root).fs == old(root).fs,
            final(root).spawner == old(root).spawner,
            final(root).executor.tasks() == old(root).executor.tasks(),
            final(root).executor.queue().len() == old(root).executor.queue().len() + 1,
            final(root).executor.queue().last().model() == (JobModel::<P::Model>::Forward {
                from: reader_of(child.descriptor_table@, STDOUT as int),
                to: self.proc.stdout.writer(),
            }),
    {
        let from = child.read(STDOUT);
        let to = self.proc.stdout.copy_raw();
        root.executor.add_task(Job::Forward { from, to });
    }

    /// One turn of the shell: takes the next typed character from the
    /// input, if there is one, and serves the line when the character ends
    /// it. The shell is done when its input is closed and drained.
    pub fn step<P: Future<Console, Output = ()>>(&mut self, root: &mut Root<P>) -> (outcome: Poll<()>)
        requires
            old(self).wf(),
            old(root).wf(),
        ensures
            final(self).wf(),
            final(root).wf(),
            final(self).proc.pid == old(self).proc.pid,
            outcome is Ready <==> read_char_polled(
                old(root).console.channels@,
                source_id(old(self).proc.stdin.reader()),
            ).1 == Poll::<Option<char>>::Ready(None),
            read_char_polled(
                old(root).console.channels@,
                source_id(old(self).proc.stdin.reader()),
            ).1 matches Poll::Ready(Some(key)) ==> key != '\n' ==> final(self).buffer@ == old(self).buffer@.push(key) && final(self).proc == old(self).proc && final(root).executor
                == old(root).executor && final(root).spawner == old(root).spawner,
            read_char_polled(
                old(root).console.channels@,
                source_id(old(self).proc.stdin.reader()),
            ).1 matches Poll::Ready(Some(key)) ==> key == '\n' ==> final(self).buffer@
                == Seq::<char>::empty(),
            !(read_char_polled(
                old(root).console.channels@,
                source_id(old(self).proc.stdin.reader()),
            ).1 matches Poll::Ready(Some(key))) ==> *final(self) == *old(self) && final(root).executor
                == old(root).executor && final(root).spawner == old(root).spawner && final(root).console.channels@ == read_char_polled(
                old(root).console.channels@,
                source_id(old(self).proc.stdin.reader()),
            ).0,
    {
        let mut read = self.proc.stdin.read_char();
        match read.poll(&mut root.console.channels) {
            Poll::Ready(Some(key)) => {
                match self.key(&mut root.console.channels, key) {
                    Some(line) => {
                        self.serve(root, line);
                    },
                    None => {},
                }
                Poll::Pending
            },
            Poll::Ready(None) => Poll::Ready(()),
            Poll::Pending => Poll::Pending,
        }
    }
}

} // verus!
