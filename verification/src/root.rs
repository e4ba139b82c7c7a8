//! The root of the system: the console that tasks work on, the jobs that
//! move text between processes, and the root process that ties them to the
//! executor.

use vstd::prelude::*;
use crate::channel_handler::end_id;
use crate::channel_handler::RawHandler;
use crate::fs::Fs;
use crate::future::Context;
use crate::future::Executor;
use crate::future::Future;
use crate::future::Poll;
use crate::future::models;
use crate::future::queue_models;
use crate::future::ticked;
use crate::platforms::Event;
use crate::proc::writer_of;
use crate::proc::Pid;
use crate::proc::Proc;
use crate::proc::Process;
use crate::proc::STDIN;
use crate::proc::STDOUT;
use crate::spawner::Spawner;
use crate::string_channel::fresh;
use crate::string_channel::read_polled;
use crate::string_channel::sent;
use crate::string_channel::source_id;
use crate::string_channel::with_channel;
use crate::string_channel::ChannelPool;
use crate::string_channel::ChannelState;
use crate::string_channel::ReadingTask;
use crate::table::is_next_free;
use crate::table::lemma_next_free_unique;
use crate::table::occupied;
use crate::tekenen::is_lit;
use crate::tekenen::text_lit;
use crate::tekenen::Font;
use crate::tekenen::Tekenen;
use crate::terminal::Terminal;

verus! {

/// What the system's tasks work on: every channel, and the terminal.
pub struct Console {
    pub channels: ChannelPool,
    pub terminal: Terminal,
}

/// A console as plain values.
pub struct ConsoleState {
    pub channels: Seq<ChannelState>,
    pub shown: Seq<char>,
}

impl Context for Console {
    type World = ConsoleState;

    open spec fn world(&self) -> ConsoleState {
        ConsoleState { channels: self.channels@, shown: self.terminal@ }
    }
}

/// A task of the system: one of the two jobs that move text, or a program's
/// own task.
pub enum Job<P> {
    /// Moves what arrives on one channel on to another, until the first is
    /// closed and drained.
    Forward { from: ReadingTask, to: RawHandler },
    /// Shows what arrives on a channel on the terminal, until the channel
    /// is closed and drained.
    Show { from: ReadingTask },
    Program(P),
}

/// A job as plain values.
pub enum JobModel<M> {
    Forward { from: Option<int>, to: Option<int> },
    Show { from: Option<int> },
    Program(M),
}

/// The console and the outcome after one poll of a forwarding job.
pub open spec fn forward_polled(from: Option<int>, to: Option<int>, world: ConsoleState) -> (
    ConsoleState,
    Poll<()>,
) {
    let read = read_polled(world.channels, source_id(from));
    match read.1 {
        Poll::Ready(Some(text)) => (
            ConsoleState {
                channels: with_channel(read.0, end_id(to), sent(read.0[end_id(to)], text)),
                shown: world.shown,
            },
            Poll::Pending,
        ),
        Poll::Ready(None) => (
            ConsoleState { channels: read.0, shown: world.shown },
            Poll::Ready(()),
        ),
        Poll::Pending => (ConsoleState { channels: read.0, shown: world.shown }, Poll::Pending),
    }
}

/// The console and the outcome after one poll of a showing job.
pub open spec fn show_polled(from: Option<int>, world: ConsoleState) -> (ConsoleState, Poll<()>) {
    let read = read_polled(world.channels, source_id(from));
    match read.1 {
        Poll::Ready(Some(text)) => (
            ConsoleState { channels: read.0, shown: world.shown + text },
            Poll::Pending,
        ),
        Poll::Ready(None) => (
            ConsoleState { channels: read.0, shown: world.shown },
            Poll::Ready(()),
        ),
        Poll::Pending => (ConsoleState { channels: read.0, shown: world.shown }, Poll::Pending),
    }
}

/// The outcome of a program's task as the outcome of its job.
pub open spec fn done<Y>(outcome: Poll<Y>) -> Poll<()> {
    match outcome {
        Poll::Ready(_) => Poll::Ready(()),
        Poll::Pending => Poll::Pending,
    }
}

impl<P: Future<Console, Output = ()>> Future<Console> for Job<P> {
    type Output = ();

    type Model = JobModel<P::Model>;

    type Yield = ();

    open spec fn model(&self) -> JobModel<P::Model> {
        match self {
            Job::Forward { from, to } => JobModel::Forward { from: from.model(), to: to.writer() },
            Job::Show { from } => JobModel::Show { from: from.model() },
            Job::Program(program) => JobModel::Program(program.model()),
        }
    }

    open spec fn yielded(output: ()) -> () {
        ()
    }

    open spec fn polled(model: JobModel<P::Model>, world: ConsoleState) -> (
        JobModel<P::Model>,
        ConsoleState,
        Poll<()>,
    ) {
        match model {
            JobModel::Forward { from, to } => (
                model,
                forward_polled(from, to, world).0,
                forward_polled(from, to, world).1,
            ),
            JobModel::Show { from } => (model, show_polled(from, world).0, show_polled(from, world).1),
            JobModel::Program(program) => (
                JobModel::Program(P::polled(program, world).0),
                P::polled(program, world).1,
                done(P::polled(program, world).2),
            ),
        }
    }

    fn poll(&mut self, cx: &mut Console) -> (outcome: Poll<()>) {
        match self {
            Job::Forward { from, to } => {
                match from.poll(&mut cx.channels) {
                    Poll::Ready(Some(text)) => {
                        to.send(&mut cx.channels, text.as_str());
                        Poll::Pending
                    },
                    Poll::Ready(None) => Poll::Ready(()),
                    Poll::Pending => Poll::Pending,
                }
            },
            Job::Show { from } => {
                match from.poll(&mut cx.channels) {
                    Poll::Ready(Some(text)) => {
                        cx.terminal.write(text.as_str());
                        Poll::Pending
                    },
                    Poll::Ready(None) => Poll::Ready(()),
                    Poll::Pending => Poll::Pending,
                }
            },
            Job::Program(program) => {
                match program.poll(cx) {
                    Poll::Ready(_) => Poll::Ready(()),
                    Poll::Pending => Poll::Pending,
                }
            },
        }
    }
}

/// A task that has nothing to do and is ready at once. It stands in where a
/// system's programs hand no tasks of their own to the executor.
pub struct Idle;

impl Future<Console> for Idle {
    type Output = ();

    type Model = ();

    type Yield = ();

    open spec fn model(&self) -> () {
        ()
    }

    open spec fn yielded(output: ()) -> () {
        ()
    }

    open spec fn polled(model: (), world: ConsoleState) -> ((), ConsoleState, Poll<()>) {
        ((), world, Poll::Ready(()))
    }

    fn poll(&mut self, cx: &mut Console) -> (outcome: Poll<()>) {
        Poll::Ready(())
    }
}

/// The channels after the events from `from` on were taken, and whether
/// one of them asked to quit: each key press with a character goes to the
/// channel behind `writer`; the request to quit ends the taking.
pub open spec fn fed(channels: Seq<ChannelState>, writer: int, events: Seq<Event>, from: int) -> (
    Seq<ChannelState>,
    bool,
)
    decreases events.len() - from,
{
    if from < 0 || from >= events.len() {
        (channels, false)
    } else {
        match events[from] {
            Event::Quit => (channels, true),
            Event::KeyDown { char: Some(key), .. } => fed(
                with_channel(channels, writer, sent(channels[writer], seq![key])),
                writer,
                events,
                from + 1,
            ),
            _ => fed(channels, writer, events, from + 1),
        }
    }
}

/// The root process and, with it, the whole system: the console, the mount
/// table, the executor and the registry of processes.
pub struct Root<P> {
    pub console: Console,
    pub proc: Proc,
    pub fs: Fs,
    pub executor: Executor<Job<P>>,
    pub spawner: Spawner,
}

impl<P: Future<Console, Output = ()>> Root<P> {
    pub open spec fn wf(&self) -> bool {
        &&& self.proc.wf()
        &&& self.executor.wf()
        &&& self.spawner.wf()
    }

    pub fn get_process_name(&self) -> (name: &'static str)
        ensures
            name@ == "Root"@,
    {
        "Root"
    }

    pub fn get_proc(&self) -> (proc: &Proc)
        ensures
            *proc == self.proc,
    {
        &self.proc
    }

    /// Submits a program's task to the executor.
    pub fn add_task(&mut self, task: P)
        requires
            old(self).wf(),
        ensures
            final(self).wf(),
            final(self).executor.tasks() == old(self).executor.tasks(),
            final(self).executor.queue() == old(self).executor.queue().push(Job::Program(task)),
            final(self).console == old(self).console,
            final(self).proc == old(self).proc,
            final(self).fs == old(self).fs,
            final(self).spawner == old(self).spawner,
    {
        self.executor.add_task(Job::Program(task));
    }

    /// Prepares the system's first program, of kind `Shell`: spawns it as
    /// a child of the root, and submits the job that forwards the root's
    /// input to the child's input and the job that shows the child's output
    /// on the terminal. The child is not started yet.
    pub fn launch<Shell: Process>(&mut self) -> (spawned: (Shell, Pid))
        requires
            old(self).wf(),
            old(self).spawner.has_room(),
        ensures
            final(self).wf(),
            spawned.0.wf(),
            spawned.0.pid() == spawned.1,
            is_next_free(old(self).spawner.processes@, spawned.1 as int),
            final(self).spawner.entry(spawned.1 as int) matches Some(entry) && entry.parent == Some(
                old(self).proc.pid,
            ),
            final(self).console.channels@ == old(self).console.channels@.push(fresh()).push(
                fresh(),
            ).push(fresh()),
            final(self).console.terminal == old(self).console.terminal,
            final(self).fs == old(self).fs,
            final(self).proc.children@ == old(self).proc.children@.push(spawned.1),
            final(self).proc.pid == old(self).proc.pid,
            final(self).proc.descriptor_table == old(self).proc.descriptor_table,
            final(self).proc.stdin == old(self).proc.stdin,
            final(self).proc.stdout == old(self).proc.stdout,
            final(self).executor.tasks() == old(self).executor.tasks(),
            final(self).executor.queue().len() == old(self).executor.queue().len() + 2,
            final(self).executor.queue().subrange(0, old(self).executor.queue().len() as int)
                == old(self).executor.queue(),
            final(self).executor.queue()[old(self).executor.queue().len() as int].model()
                == (JobModel::<P::Model>::Forward {
                from: old(self).proc.stdin.reader(),
                to: Some(old(self).console.channels@.len() as int),
            }),
            final(self).executor.queue()[old(self).executor.queue().len() as int + 1].model()
                == (JobModel::<P::Model>::Show {
                from: Some(old(self).console.channels@.len() as int + 1),
            }),
    {
        let child_proc = self.spawner.prepare(&mut self.console.channels);
        let child_pid = child_proc.pid;
        let to_child = child_proc.descriptor_table.get(STDIN).copy();
        let from_child = child_proc.read(STDOUT);
        let shell = Shell::new(child_proc);
        let id = self.spawner.enroll(shell.get_process_name(), Some(self.proc.pid));
        proof {
            lemma_next_free_unique(old(self).spawner.processes@, child_pid as int, id as int);
        }
        self.proc.children.push(child_pid);

        let from_root = self.proc.stdin.read();
        self.executor.add_task(Job::Forward { from: from_root, to: to_child });
        self.executor.add_task(Job::Show { from: from_child });
        assert(self.executor.queue().subrange(0, old(self).executor.queue().len() as int)
            =~= old(self).executor.queue());
        (shell, child_pid)
    }

    /// Starts the system: launches the first program, of kind `Shell`, and
    /// runs its `main`. What that does to the system is the program's own
    /// affair.
    pub fn main<Shell: Process>(&mut self) -> (spawned: (Shell, Pid))
        requires
            old(self).wf(),
            old(self).spawner.has_room(),
        ensures
            final(self).wf(),
            spawned.0.wf(),
            spawned.0.pid() == spawned.1,
            is_next_free(old(self).spawner.processes@, spawned.1 as int),
    {
        let (mut shell, pid) = self.launch::<Shell>();
        shell.main(Vec::new(), self);
        (shell, pid)
    }

    /// One tick of the executor over the console. Returns the number of
    /// tasks that are still live.
    pub fn tick(&mut self) -> (left: usize)
        requires
            old(self).wf(),
        ensures
            final(self).wf(),
            final(self).executor.queue() == Seq::<Job<P>>::empty(),
            (models::<Console, Job<P>>(final(self).executor.tasks()), final(self).console.world())
                == ticked::<Console, Job<P>>(
                models::<Console, Job<P>>(old(self).executor.tasks()),
                queue_models::<Console, Job<P>>(old(self).executor.queue()),
                old(self).console.world(),
            ),
            left == occupied(final(self).executor.tasks()),
            final(self).proc == old(self).proc,
            final(self).fs == old(self).fs,
            final(self).spawner == old(self).spawner,
    {
        self.executor.execute(&mut self.console)
    }

    /// One turn of the system: a tick of the executor, then the events that
    /// the platform has read, then the terminal drawn on the frame. Answers
    /// `true`, and draws nothing, when an event asks to quit.
    #[verifier::loop_isolation(false)]
    pub fn update(&mut self, events: Vec<Event>, tekenen: &mut Tekenen, font: &Font) -> (stop: bool)
        requires
            old(self).wf(),
            old(tekenen).wf(),
        ensures
            final(self).wf(),
            final(tekenen).wf(),
            final(tekenen).width() == old(tekenen).width(),
            final(tekenen).height() == old(tekenen).height(),
            final(self).proc == old(self).proc,
            final(self).fs == old(self).fs,
            final(self).spawner == old(self).spawner,
            final(self).executor.queue() == Seq::<Job<P>>::empty(),
            ({
                let turn = ticked::<Console, Job<P>>(
                    models::<Console, Job<P>>(old(self).executor.tasks()),
                    queue_models::<Console, Job<P>>(old(self).executor.queue()),
                    old(self).console.world(),
                );
                let taken = fed(
                    turn.1.channels,
                    writer_of(old(self).proc.descriptor_table@, STDIN as int),
                    events@,
                    0,
                );
                &&& models::<Console, Job<P>>(final(self).executor.tasks()) == turn.0
                &&& final(self).console.terminal@ == turn.1.shown
                &&& final(self).console.channels@ == taken.0
                &&& stop == taken.1
            }),
            stop || !(font.covers(final(self).console.terminal@) && Tekenen::reaches(
                final(self).console.terminal@,
            )) ==> final(tekenen)@ == old(tekenen)@,
            !stop && font.covers(final(self).console.terminal@) && Tekenen::reaches(
                final(self).console.terminal@,
            ) ==> is_lit(
                old(tekenen)@,
                final(tekenen)@,
                old(tekenen).width(),
                old(tekenen).height(),
                |px: int, py: int|
                    text_lit(
                        *font,
                        final(self).console.terminal@,
                        final(self).console.terminal@.len() as int,
                        0,
                        0,
                        px,
                        py,
                    ),
            ),
    {
        self.tick();
        let ghost ticked_channels = self.console.channels@;
        let ghost ticked_executor = self.executor;
        let ghost ticked_terminal = self.console.terminal;
        let ghost writer = writer_of(self.proc.descriptor_table@, STDIN as int);
        let mut events = events;
        let ghost all = events@;
        let mut i: usize = 0;
        let n = events.len();
        while i < n
            invariant
                self.wf(),
                n == all.len(),
                events@.len() == n,
                i <= n,
                forall|j: int| i <= j < n ==> events@[j] == all[j],
                self.proc == old(self).proc,
                self.fs == old(self).fs,
                self.spawner == old(self).spawner,
                writer == writer_of(self.proc.descriptor_table@, STDIN as int),
                self.executor == ticked_executor,
                self.console.terminal == ticked_terminal,
                *tekenen == *old(tekenen),
                fed(self.console.channels@, writer, all, i as int) == fed(
                    ticked_channels,
                    writer,
                    all,
                    0,
                ),
            decreases n - i,
        {
            let mut event = Event::Quit;
            std::mem::swap(&mut event, &mut events[i]);
            assert(event == all[i as int]);
            if self.on_event(event) {
                return true;
            }
            i += 1;
        }
        self.render(tekenen, font);
        false
    }

    /// Draws the terminal on a frame, without the cursor. Nothing is drawn,
    /// and `false` is returned, where the font lacks a character of the
    /// text or the text has more lines than the frame's coordinates count.
    pub fn render(&self, tekenen: &mut Tekenen, font: &Font) -> (drawn: bool)
        requires
            old(tekenen).wf(),
        ensures
            final(tekenen).wf(),
            final(tekenen).width() == old(tekenen).width(),
            final(tekenen).height() == old(tekenen).height(),
            drawn == (font.covers(self.console.terminal@) && Tekenen::reaches(
                self.console.terminal@,
            )),
            !drawn ==> final(tekenen)@ == old(tekenen)@,
            drawn ==> is_lit(
                old(tekenen)@,
                final(tekenen)@,
                old(tekenen).width(),
                old(tekenen).height(),
                |px: int, py: int|
                    text_lit(
                        *font,
                        self.console.terminal@,
                        self.console.terminal@.len() as int,
                        0,
                        0,
                        px,
                        py,
                    ),
            ),
    {
        let text = self.console.terminal.text();
        if !font.check(text) {
            return false;
        }
        if Tekenen::cursor_of(text).is_none() {
            return false;
        }
        self.console.terminal.render(tekenen, font, 0);
        true
    }

    /// Takes one event from the platform. A key press with a character goes
    /// to the root's standard input; the request to quit is answered with
    /// `true`, and everything else with `false`.
    pub fn on_event(&mut self, event: Event) -> (stop: bool)
        ensures
            stop <==> event is Quit,
            final(self).proc == old(self).proc,
            final(self).fs == old(self).fs,
            final(self).spawner == old(self).spawner,
            final(self).executor == old(self).executor,
            final(self).console.terminal == old(self).console.terminal,
            final(self).console.channels@ == match event {
                Event::KeyDown { char: Some(key), .. } => with_channel(
                    old(self).console.channels@,
                    writer_of(old(self).proc.descriptor_table@, STDIN as int),
                    sent(
                        old(self).console.channels@[writer_of(
                            old(self).proc.descriptor_table@,
                            STDIN as int,
                        )],
                        seq![key],
                    ),
                ),
                _ => old(self).console.channels@,
            },
    {
        match event {
            Event::Quit => true,
            Event::KeyDown { char, .. } => {
                if let Some(key) = char {
                    self.proc.write_char(&mut self.console.channels, STDIN, key);
                }
                false
            },
        }
    }
}

} // verus!
