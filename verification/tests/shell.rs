use fos::channel_handler::ChannelHandler;
use fos::future::block;
use fos::future::Poll;
use fos::platforms::Event;
use fos::platforms::Keycode;
use fos::platforms::Keymod;
use fos::proc::Pid;
use fos::proc::Proc;
use fos::proc::Process;
use fos::proc::STDOUT;
use fos::root::Idle;
use fos::root::Root;
use fos::shell::cat::CatProgram;
use fos::shell::echo::EchoProgram;
use fos::shell::ls::listing;
use fos::shell::ls::LsProgram;
use fos::shell::parse_command;
use fos::decimal::decimal;
use fos::shell::ps_tree::render;
use fos::shell::ps_tree::PsTreeProgram;
use fos::shell::split_whitespace;
use fos::shell::top::TopProgram;
use fos::shell::Command;
use fos::shell::Shell;
use fos::spawner::Spawner;
use fos::string_channel::ChannelPool;

const PROMPT: &str = "fritz@tekenen:~$ ";

fn strings(words: &[&str]) -> Vec<String> {
    words.iter().map(|word| word.to_string()).collect()
}

fn type_line(root: &mut Root<Idle>, line: &str) {
    for c in line.chars() {
        let event = Event::KeyDown {
            repeat: false,
            char: Some(c),
            keycode: Keycode::Temp,
            keymod: Keymod { shift: false, ctrl: false, caps: false },
        };
        assert_eq!(root.on_event(event), false);
    }
}

/// Ticks the system and lets the shell take what was typed, a few times
/// over, so that everything under way arrives. A step with nothing to read
/// changes nothing.
fn settle(root: &mut Root<Idle>, shell: &mut Shell) {
    for _ in 0..4 {
        root.tick();
        for _ in 0..32 {
            assert_eq!(shell.step(root), Poll::Pending);
        }
    }
}

#[test]
fn words_are_runs_without_white_space() {
    assert_eq!(split_whitespace("echo hello world"), strings(&["echo", "hello", "world"]));
    assert_eq!(split_whitespace("  echo \t hello\n"), strings(&["echo", "hello"]));
    assert_eq!(split_whitespace("one"), strings(&["one"]));
    assert_eq!(split_whitespace(""), Vec::<String>::new());
    assert_eq!(split_whitespace(" \u{3000} "), Vec::<String>::new());
    assert_eq!(split_whitespace("a\u{a0}b"), strings(&["a", "b"]));
    assert_eq!(split_whitespace("Grüße, Welt"), strings(&["Grüße,", "Welt"]));
}

#[test]
fn shell_knows_three_programs() {
    assert_eq!(parse_command(&"echo".to_string()), Command::Echo);
    assert_eq!(parse_command(&"pstree".to_string()), Command::PsTree);
    assert_eq!(parse_command(&"cat".to_string()), Command::Cat);
    assert_eq!(parse_command(&"ls".to_string()), Command::Invalid);
    assert_eq!(parse_command(&"Echo".to_string()), Command::Invalid);
    assert_eq!(parse_command(&"".to_string()), Command::Invalid);
}

#[test]
fn numbers_are_written_in_decimal() {
    assert_eq!(decimal(0), "0");
    assert_eq!(decimal(7), "7");
    assert_eq!(decimal(10), "10");
    assert_eq!(decimal(1905), "1905");
    assert_eq!(decimal(4294967295), "4294967295");
    assert_eq!(decimal(u64::MAX), "18446744073709551615");
}

#[test]
fn shell_echoes_keys_and_returns_the_line() {
    let mut pool = ChannelPool::new();
    let mut shell = Shell::new(Proc::new(1, &mut pool));
    assert_eq!(shell.get_process_name(), "Shell");
    assert_eq!(shell.get_proc().pid, 1);

    assert_eq!(shell.prompt(&mut pool), Some(()));
    assert_eq!(shell.key(&mut pool, 'l'), None);
    assert_eq!(shell.key(&mut pool, 's'), None);
    assert_eq!(shell.key(&mut pool, ' '), None);
    assert_eq!(shell.key(&mut pool, 'x'), None);
    assert_eq!(shell.buffer, "ls x");
    assert_eq!(shell.key(&mut pool, '\n'), Some(strings(&["ls", "x"])));
    assert_eq!(shell.buffer, "");
    assert_eq!(shell.key(&mut pool, '\n'), Some(vec![]));

    let mut shown = shell.proc.read(STDOUT);
    assert_eq!(
        block(&mut shown, &mut pool, 1),
        Poll::Ready(Some(format!("{}ls x\n\n", PROMPT)))
    );
}

#[test]
fn echo_writes_its_arguments_and_a_line_feed() {
    let mut root: Root<Idle> = Spawner::spawn_root();
    let (mut echo, pid): (EchoProgram, Pid) = root.spawner.spawn(&mut root.console.channels, None);
    assert_eq!(pid, 1);
    assert_eq!(echo.get_process_name(), "Echo");

    echo.main(strings(&["a", "bc"]), &mut root);
    echo.main(vec![], &mut root);

    assert_eq!(
        block(&mut echo.get_proc().read(STDOUT), &mut root.console.channels, 1),
        Poll::Ready(Some("abc\n\n".to_string()))
    );
}

#[test]
fn cat_forwards_the_file_to_its_output() {
    let mut root: Root<Idle> = Spawner::spawn_root();
    let (mut cat, _pid): (CatProgram, Pid) = root.spawner.spawn(&mut root.console.channels, None);
    assert_eq!(cat.get_process_name(), "Cat");

    cat.main(strings(&["mount-file"]), &mut root);
    assert_eq!(block(&mut cat.proc.read(STDOUT), &mut root.console.channels, 1), Poll::Pending);
    assert_eq!(root.tick(), 1);
    assert_eq!(
        block(&mut cat.get_proc().read(STDOUT), &mut root.console.channels, 1),
        Poll::Ready(Some("content_of_mount_file".to_string()))
    );
}

#[test]
fn cat_reports_what_it_cannot_open() {
    let mut root: Root<Idle> = Spawner::spawn_root();
    let (mut cat, _pid): (CatProgram, Pid) = root.spawner.spawn(&mut root.console.channels, None);

    cat.main(strings(&["mount_folder"]), &mut root);
    assert_eq!(
        block(&mut cat.proc.read(STDOUT), &mut root.console.channels, 1),
        Poll::Ready(Some("Error: NoEntry".to_string()))
    );

    // without exactly one name nothing is opened and nothing is written
    cat.main(vec![], &mut root);
    cat.main(strings(&["mount-file", "mount-file"]), &mut root);
    assert_eq!(block(&mut cat.proc.read(STDOUT), &mut root.console.channels, 1), Poll::Pending);
    assert_eq!(root.tick(), 0);
}

#[test]
fn ls_lists_a_directory() {
    let mut root: Root<Idle> = Spawner::spawn_root();
    let (mut ls, _pid): (LsProgram, Pid) = root.spawner.spawn(&mut root.console.channels, None);
    assert_eq!(ls.get_process_name(), "ls");

    ls.main(strings(&["mount_folder"]), &mut root);
    assert_eq!(
        block(&mut ls.get_proc().read(STDOUT), &mut root.console.channels, 1),
        Poll::Ready(Some("File: \"sub_file_1\"\nFile: \"sub_file_2\"\n".to_string()))
    );

    ls.main(strings(&["mount-file"]), &mut root);
    assert_eq!(
        block(&mut ls.proc.read(STDOUT), &mut root.console.channels, 1),
        Poll::Ready(Some("Error: IsFile".to_string()))
    );

    ls.main(strings(&["nowhere"]), &mut root);
    assert_eq!(
        block(&mut ls.proc.read(STDOUT), &mut root.console.channels, 1),
        Poll::Ready(Some("Error: NoEntry".to_string()))
    );

    assert_eq!(
        listing(root.fs.root()),
        "File: \"mount-file\"\nDirectory: \"mount_folder\" \n"
    );
}

#[test]
fn pstree_shows_children_below_their_parents() {
    let mut root: Root<Idle> = Spawner::spawn_root();
    let (mut shell, _): (Shell, Pid) = root.main();
    let (_echo, _): (EchoProgram, Pid) = shell.proc.spawn(&mut root, vec![]);
    let (mut tree, _): (PsTreeProgram, Pid) = shell.proc.spawn(&mut root, vec![]);
    assert_eq!(tree.get_process_name(), "PsTree");

    assert_eq!(
        block(&mut tree.get_proc().read(STDOUT), &mut root.console.channels, 1),
        Poll::Ready(Some("[0]Root\n  [1]Shell\n    [2]Echo\n    [3]PsTree\n".to_string()))
    );

    assert_eq!(render(&root.spawner, 1), "[1]Shell\n  [2]Echo\n  [3]PsTree\n");
    assert_eq!(render(&root.spawner, 3), "[3]PsTree\n");
    assert_eq!(render(&root.spawner, 9), "");

    tree.print(&mut root, 2);
    assert_eq!(
        block(&mut tree.proc.read(STDOUT), &mut root.console.channels, 1),
        Poll::Ready(Some("[2]Echo\n".to_string()))
    );
}

#[test]
fn shell_runs_echo_and_shows_its_output() {
    let mut root: Root<Idle> = Spawner::spawn_root();
    let (mut shell, pid): (Shell, Pid) = root.main();
    assert_eq!(pid, 1);

    type_line(&mut root, "echo hi\n");
    settle(&mut root, &mut shell);

    assert_eq!(shell.proc.children, vec![2]);
    assert_eq!(root.spawner.name_of(2).unwrap(), "Echo");
    assert_eq!(
        root.console.terminal.text(),
        format!("{}echo hi\n{}hi\n", PROMPT, PROMPT)
    );
}

#[test]
fn shell_rejects_what_it_does_not_know() {
    let mut root: Root<Idle> = Spawner::spawn_root();
    let (mut shell, _): (Shell, Pid) = root.main();

    type_line(&mut root, "ls mount_folder\n\ncat\n");
    settle(&mut root, &mut shell);

    assert_eq!(shell.proc.children.len(), 0);
    assert_eq!(
        root.console.terminal.text(),
        format!(
            "{p}ls mount_folder\nInvalid command!\n{p}\n{p}cat\nInvalid command!\n{p}",
            p = PROMPT
        )
    );
}

#[test]
fn shell_runs_cat_and_pstree() {
    let mut root: Root<Idle> = Spawner::spawn_root();
    let (mut shell, _): (Shell, Pid) = root.main();

    type_line(&mut root, "cat mount-file\n");
    settle(&mut root, &mut shell);
    type_line(&mut root, "pstree\n");
    settle(&mut root, &mut shell);

    assert_eq!(shell.proc.children, vec![2, 3]);
    assert_eq!(
        root.console.terminal.text(),
        format!(
            "{p}cat mount-file\n{p}content_of_mount_file\
             pstree\n{p}[0]Root\n  [1]Shell\n    [2]Cat\n    [3]PsTree\n",
            p = PROMPT
        )
    );
}

#[test]
fn shell_is_done_when_its_input_is_closed() {
    let mut root: Root<Idle> = Spawner::spawn_root();
    let mut shell = Shell::new(Proc::new(1, &mut root.console.channels));

    let (reader, writer) = ChannelHandler::new(&mut root.console.channels).split();
    assert_eq!(writer.write(&mut root.console.channels, "x"), Some(()));
    let _closed = writer.close_write(&mut root.console.channels);
    shell.proc.stdin = reader;

    // what was typed before the input closed is still taken
    assert_eq!(shell.step(&mut root), Poll::Pending);
    assert_eq!(shell.buffer, "x");
    assert_eq!(shell.step(&mut root), Poll::Ready(()));
    assert_eq!(shell.step(&mut root), Poll::Ready(()));
}

#[test]
fn top_writes_its_heading() {
    let mut root: Root<Idle> = Spawner::spawn_root();
    let (mut top, _pid): (TopProgram, Pid) = root.spawner.spawn(&mut root.console.channels, None);
    assert_eq!(top.get_process_name(), "Top");

    top.main(vec![], &mut root);
    assert_eq!(
        block(&mut top.get_proc().read(STDOUT), &mut root.console.channels, 1),
        Poll::Ready(Some("h\n".to_string()))
    );
}
