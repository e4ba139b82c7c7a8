use fos::future::block_all;
use fos::future::Context;
use fos::future::Executor;
use fos::future::Poll;
use fos::future::Task;
use fos::future::Future;

/// Reports its id on each poll until its count is used up.
struct Countdown {
    id: char,
    count: i32,
}

/// What the countdowns report to.
struct Report(Vec<char>);

impl Context for Report {
    type World = Vec<char>;

    fn world(&self) -> Vec<char> {
        self.0.clone()
    }
}

/// One poll of a countdown, as a function of plain values.
fn step(model: (char, i32), mut report: Vec<char>) -> ((char, i32), Vec<char>, Poll<char>) {
    if model.1 <= 0 {
        (model, report, Poll::Ready(model.0))
    } else {
        report.push(model.0);
        ((model.0, model.1 - 1), report, Poll::Pending)
    }
}

impl Future<Report> for Countdown {
    type Output = char;
    type Model = (char, i32);
    type Yield = char;

    fn model(&self) -> (char, i32) {
        (self.id, self.count)
    }

    fn yielded(output: char) -> char {
        output
    }

    fn polled(model: (char, i32), report: Vec<char>) -> ((char, i32), Vec<char>, Poll<char>) {
        step(model, report)
    }

    fn poll(&mut self, report: &mut Report) -> Poll<char> {
        let (model, after, outcome) = step((self.id, self.count), std::mem::take(&mut report.0));
        self.count = model.1;
        report.0 = after;
        outcome
    }
}

/// The same, without a value.
struct Global {
    inner: Countdown,
}

impl Global {
    fn new(id: char, count: i32) -> Global {
        Global { inner: Countdown { id, count } }
    }
}

fn forget(outcome: Poll<char>) -> Poll<()> {
    match outcome {
        Poll::Ready(_) => Poll::Ready(()),
        Poll::Pending => Poll::Pending,
    }
}

impl Future<Report> for Global {
    type Output = ();
    type Model = (char, i32);
    type Yield = ();

    fn model(&self) -> (char, i32) {
        self.inner.model()
    }

    fn yielded(_output: ()) {}

    fn polled(model: (char, i32), report: Vec<char>) -> ((char, i32), Vec<char>, Poll<()>) {
        let (model, report, outcome) = step(model, report);
        (model, report, forget(outcome))
    }

    fn poll(&mut self, report: &mut Report) -> Poll<()> {
        forget(self.inner.poll(report))
    }
}

#[test]
fn block() {
    let mut report = Report(vec![]);

    let mut a = Countdown { id: 'a', count: 2 };

    let value = fos::future::block(&mut a, &mut report, usize::MAX);

    assert_eq!(value, Poll::Ready('a'));
    assert_eq!(report.0, vec!['a', 'a']);
}

#[test]
fn block_all_a() {
    let mut report = Report(vec![]);

    let a = Countdown { id: 'a', count: 3 };
    let b = Countdown { id: 'b', count: 2 };

    let value = block_all(&mut vec![a, b], &mut report, usize::MAX);

    assert_eq!(value, Some(vec!['a', 'b']));
    assert_eq!(report.0, vec!['a', 'b', 'a', 'b', 'a']);
}

#[test]
fn block_all_b() {
    let mut report = Report(vec![]);

    let a = Countdown { id: 'a', count: 2 };
    let b = Countdown { id: 'b', count: 3 };

    let value = block_all(&mut vec![a, b], &mut report, usize::MAX);

    assert_eq!(value, Some(vec!['a', 'b']));
    assert_eq!(report.0, vec!['a', 'b', 'a', 'b', 'b']);
}

#[test]
fn simple_executor() {
    let mut executor = Executor::new();
    let mut report = Report(vec![]);

    executor.add_task(Global::new('a', 2));

    loop {
        if executor.execute(&mut report) == 0 {
            break;
        }
    }

    assert_eq!(report.0, vec!['a', 'a']);
}

#[test]
fn executor() {
    let mut executor = Executor::new();
    let mut report = Report(vec![]);

    executor.add_task(Global::new('a', 3));
    executor.add_task(Global::new('b', 2));

    loop {
        if executor.execute(&mut report) == 0 {
            break;
        }
    }

    assert_eq!(report.0, vec!['a', 'b', 'a', 'b', 'a']);
}

#[test]
fn executor_mixed() {
    let mut executor = Executor::new();
    let mut report = Report(vec![]);

    executor.add_task(Global::new('a', 4));
    executor.add_task(Global::new('b', 2));

    executor.execute(&mut report);
    executor.add_task(Global::new('c', 2));

    executor.execute(&mut report);
    executor.execute(&mut report);
    executor.execute(&mut report);

    assert_eq!(report.0, vec!['a', 'b', 'a', 'b', 'c', 'a', 'c', 'a']);
}

#[test]
fn block_gives_up_when_the_budget_is_spent() {
    let mut report = Report(vec![]);
    let mut a = Countdown { id: 'a', count: 5 };

    assert_eq!(fos::future::block(&mut a, &mut report, 3), Poll::Pending);
    assert_eq!(report.0, vec!['a', 'a', 'a']);
    assert_eq!(fos::future::block(&mut a, &mut report, 0), Poll::Pending);
    assert_eq!(fos::future::block(&mut a, &mut report, 3), Poll::Ready('a'));
    assert_eq!(report.0, vec!['a', 'a', 'a', 'a', 'a']);
}

#[test]
fn block_all_gives_up_when_the_budget_is_spent() {
    let mut report = Report(vec![]);
    let mut set = vec![Countdown { id: 'a', count: 1 }, Countdown { id: 'b', count: 4 }];

    assert_eq!(block_all(&mut set, &mut report, 2), None);
    assert_eq!(report.0, vec!['a', 'b', 'b']);
}

#[test]
fn block_all_of_nothing_is_done() {
    let mut report = Report(vec![]);
    let mut set: Vec<Countdown> = vec![];

    assert_eq!(block_all(&mut set, &mut report, 0), Some(vec![]));
    assert_eq!(report.0, Vec::<char>::new());
}

#[test]
fn queued_task_is_not_polled_before_the_next_tick() {
    let mut executor = Executor::new();
    let mut report = Report(vec![]);

    executor.add_task(Global::new('a', 1));
    assert_eq!(executor.live(), 0);
    assert_eq!(report.0, Vec::<char>::new());

    assert_eq!(executor.execute(&mut report), 1);
    assert_eq!(report.0, vec!['a']);

    executor.add_task(Global::new('b', 1));
    assert_eq!(executor.live(), 1);
    assert_eq!(report.0, vec!['a']);

    // 'a' is ready and leaves; 'b' moves in and is polled for the first time.
    assert_eq!(executor.execute(&mut report), 1);
    assert_eq!(report.0, vec!['a', 'b']);
    assert_eq!(executor.execute(&mut report), 0);
}

#[test]
fn finished_task_frees_its_slot_for_the_next() {
    let mut executor = Executor::new();
    let mut report = Report(vec![]);

    executor.add_task(Global::new('a', 0));
    executor.add_task(Global::new('b', 3));
    assert_eq!(executor.execute(&mut report), 1);
    assert_eq!(report.0, vec!['b']);

    // 'c' takes slot 0, ahead of 'b' in slot 1.
    executor.add_task(Global::new('c', 3));
    assert_eq!(executor.execute(&mut report), 2);
    assert_eq!(report.0, vec!['b', 'c', 'b']);
}

#[test]
fn poll_follows_its_model() {
    let mut task = Countdown { id: 'x', count: 1 };
    let mut report = Report(vec!['w']);

    let expected = Countdown::polled(task.model(), report.world());
    let outcome = task.poll(&mut report);

    assert_eq!((task.model(), report.world(), outcome), expected);
}

#[test]
fn task_is_ready_at_the_sixth_poll() {
    let mut report = Report(vec![]);
    let mut task = Task::new('a');

    assert_eq!(fos::future::block(&mut task, &mut report, 5), Poll::Pending);
    assert_eq!(fos::future::block(&mut task, &mut report, 1), Poll::Ready(5));
    assert_eq!(fos::future::block(&mut task, &mut report, 1), Poll::Ready(5));
    assert_eq!(report.0, Vec::<char>::new());

    let mut set = vec![Task::new('b'), Task::new('c')];
    assert_eq!(block_all(&mut set, &mut report, 6), Some(vec![5, 5]));
}
