use fos::pid_fs::Fs;
use fos::pid_fs::STDERR;
use fos::pid_fs::STDIN;
use fos::pid_fs::STDOUT;
use std::cell::RefCell;
use std::rc::Rc;

type Reader = Box<dyn Fn(char)>;

fn recorder(log: &Rc<RefCell<Vec<(u8, char)>>>, id: u8) -> Reader {
    let log = Rc::clone(log);
    Box::new(move |c| log.borrow_mut().push((id, c)))
}

#[test]
fn descriptors_are_numbered_by_process() {
    let mut fs: Fs<Reader> = Fs::new();
    assert_eq!(fs.processes(), 0);

    fs.add_pid(0);
    fs.add_pid(1);
    assert_eq!(fs.processes(), 2);

    assert_eq!(fs.open(0), STDIN);
    assert_eq!(fs.open(0), STDOUT);
    assert_eq!(fs.open(1), STDIN);
    assert_eq!(fs.open(0), STDERR);
    assert_eq!(fs.open(1), STDOUT);
}

#[test]
fn write_calls_every_reader_of_the_descriptor() {
    let log = Rc::new(RefCell::new(vec![]));
    let mut fs: Fs<Reader> = Fs::new();
    fs.add_pid(0);
    fs.add_pid(1);
    fs.open(0);
    fs.open(1);
    fs.open(0);

    fs.read(0, 1, recorder(&log, 1));
    fs.read(1, 0, recorder(&log, 2));
    fs.read(0, 1, recorder(&log, 3));

    fs.write(0, 1, 'a');
    fs.write(0, 0, 'b');
    fs.write(1, 0, 'c');
    fs.write(0, 1, 'd');

    assert_eq!(*log.borrow(), vec![(1, 'a'), (3, 'a'), (2, 'c'), (1, 'd'), (3, 'd')]);
}
