use fos::platforms::Event;
use fos::shell_platform::ShellPlatform;
use fos::tekenen::black;
use fos::tekenen::gray;
use fos::tekenen::red;
use fos::tekenen::white;
use fos::tekenen::Font;
use fos::future::block;
use fos::future::Poll;
use fos::root::Idle;
use fos::root::Root;
use fos::spawner::Spawner;
use fos::terminal::Terminal;
use fos::tekenen::Tekenen;

fn pixel(tekenen: &Tekenen, width: usize, x: usize, y: usize) -> [u8; 4] {
    let at = (y * width + x) * 4;
    let pixels = tekenen.get_pixels();
    [pixels[at], pixels[at + 1], pixels[at + 2], pixels[at + 3]]
}

#[test]
fn colours_have_their_bytes() {
    assert_eq!(white(), [255, 255, 255, 255]);
    assert_eq!(red(), [255, 0, 0, 255]);
    assert_eq!(gray(), [51, 51, 51, 255]);
    assert_eq!(black(), [0, 0, 0, 255]);
}

#[test]
fn new_frame_is_all_zero() {
    assert_eq!(Tekenen::check_size(4, 3), true);
    let tekenen = Tekenen::new(4, 3);
    assert_eq!(tekenen.get_pixels(), &vec![0u8; 48]);

    let empty = Tekenen::new(0, 7);
    assert_eq!(empty.get_pixels().len(), 0);
    assert_eq!(empty.pixel_index(0, 0), None);
}

#[test]
fn frame_size_is_checked() {
    assert_eq!(Tekenen::check_size(800, 600), true);
    assert_eq!(Tekenen::check_size(0x7fff_ffff, 1), true);
    assert_eq!(Tekenen::check_size(0x8000_0000, 1), false);
    assert_eq!(Tekenen::check_size(1, 0x8000_0000), false);
    assert_eq!(Tekenen::check_size(0x10000, 0x8000), false);
    assert_eq!(Tekenen::check_size(0x10000, 0x7fff), true);
}

#[test]
fn pixel_index_counts_row_by_row() {
    let tekenen = Tekenen::new(4, 3);

    assert_eq!(tekenen.pixel_index(0, 0), Some(0));
    assert_eq!(tekenen.pixel_index(3, 0), Some(3));
    assert_eq!(tekenen.pixel_index(0, 1), Some(4));
    assert_eq!(tekenen.pixel_index(3, 2), Some(11));
    assert_eq!(tekenen.pixel_index(4, 0), None);
    assert_eq!(tekenen.pixel_index(0, 3), None);
    assert_eq!(tekenen.pixel_index(-1, 0), None);
    assert_eq!(tekenen.pixel_index(0, -1), None);
}

#[test]
fn set_pixel_changes_one_pixel() {
    let mut tekenen = Tekenen::new(4, 3);
    tekenen.set_pixel(2, 1, red());

    let mut expected = vec![0u8; 48];
    expected[24..28].copy_from_slice(&[255, 0, 0, 255]);
    assert_eq!(tekenen.get_pixels(), &expected);

    tekenen.set_pixel(4, 1, white());
    tekenen.set_pixel(-1, -1, white());
    assert_eq!(tekenen.get_pixels(), &expected);
}

#[test]
fn rect_fills_what_lies_in_the_frame() {
    let mut tekenen = Tekenen::new(4, 3);
    tekenen.rect(2, 1, 5, 1, gray());

    for y in 0..3 {
        for x in 0..4 {
            let expected = if y == 1 && x >= 2 { gray() } else { [0, 0, 0, 0] };
            assert_eq!(pixel(&tekenen, 4, x, y), expected);
        }
    }

    let before = tekenen.get_pixels().clone();
    tekenen.rect(0, 0, 0, 3, white());
    tekenen.rect(1, 1, -2, 2, white());
    tekenen.rect(1, 1, 2, -1, white());
    tekenen.rect(-3, -3, 3, 3, white());
    assert_eq!(tekenen.get_pixels(), &before);

    tekenen.rect(-1, -1, 2, 2, white());
    assert_eq!(pixel(&tekenen, 4, 0, 0), white());
    assert_eq!(pixel(&tekenen, 4, 1, 0), [0, 0, 0, 0]);
    assert_eq!(pixel(&tekenen, 4, 0, 1), [0, 0, 0, 0]);
}

#[test]
fn background_fills_the_frame() {
    let mut tekenen = Tekenen::new(3, 2);
    tekenen.set_pixel(1, 1, red());
    tekenen.background(black());

    for y in 0..2 {
        for x in 0..3 {
            assert_eq!(pixel(&tekenen, 3, x, y), black());
        }
    }
}

#[test]
fn frame_samples_every_other_column_and_fourth_row() {
    // 4 by 8 pixels give 2 columns and 2 rows of cells
    let platform = ShellPlatform::new(4, 8);
    let mut tekenen = Tekenen::new(4, 8);
    assert_eq!(platform.check(tekenen.get_pixels()), true);

    // the samples are the first bytes of the pixels at 0, 2, 8 and 10
    tekenen.set_pixel(2, 0, white());
    tekenen.set_pixel(0, 2, white());
    tekenen.set_pixel(1, 0, white());
    tekenen.set_pixel(3, 3, white());

    assert_eq!(platform.frame(tekenen.get_pixels(), ".", "#"), ".#\n#.\n");
    assert_eq!(platform.frame(tekenen.get_pixels(), "<>", ""), "<>\n<>\n");

    tekenen.background(black());
    assert_eq!(platform.frame(tekenen.get_pixels(), ".", "#"), "..\n..\n");
}

#[test]
fn picture_is_made_of_cells_of_two_spaces() {
    let platform = ShellPlatform::new(4, 8);
    let mut tekenen = Tekenen::new(4, 8);
    tekenen.set_pixel(2, 0, white());

    let picture = platform.picture(tekenen.get_pixels());
    let plain = picture
        .replace("\x1b[40m", "")
        .replace("\x1b[47m", "")
        .replace("\x1b[0m", "");
    assert_eq!(plain, "    \n    \n");

    let coloured = picture.contains('\x1b');
    if coloured {
        let black = "\x1b[40m  \x1b[0m";
        let white = "\x1b[47m  \x1b[0m";
        assert_eq!(picture, format!("{black}{white}\n{black}{black}\n"));
    }
}

#[test]
fn frames_of_another_size_do_not_fit() {
    let platform = ShellPlatform::new(4, 8);
    assert_eq!(platform.check(&vec![0u8; 127]), false);
    assert_eq!(platform.check(&vec![0u8; 128]), true);
    assert_eq!(platform.check(&vec![]), false);

    let small = ShellPlatform::new(1, 3);
    assert_eq!(small.check(&vec![0u8; 12]), true);
    assert_eq!(small.frame(&vec![0u8; 12], "b", "w"), "");
}

#[test]
fn typed_key_becomes_a_key_event() {
    match ShellPlatform::key_event('x') {
        Event::KeyDown { repeat, char, keymod, .. } => {
            assert_eq!(repeat, false);
            assert_eq!(char, Some('x'));
            assert_eq!((keymod.shift, keymod.ctrl, keymod.caps), (false, false, false));
        }
        Event::Quit => panic!("a key is no request to quit"),
    }
}

/// A font of the letters `a` and `b`: a bar and a corner.
fn font() -> Font {
    let grid = |rows: [&str; 2]| -> Vec<Vec<char>> {
        rows.iter().map(|row| row.chars().collect()).collect()
    };
    Font { first: 'a', glyphs: vec![grid(["##", "  "]), grid(["# ", "##"])] }
}

/// A row of `width` pixels that is lit in the given stretches.
fn lit(width: usize, stretches: &[(usize, usize)]) -> String {
    (0..width)
        .map(|x| {
            if stretches.iter().any(|(from, len)| *from <= x && x < from + len) {
                '#'
            } else {
                '.'
            }
        })
        .collect()
}

/// The lit pixels of a frame as rows of `#` and `.`.
fn rows(tekenen: &Tekenen, width: usize, height: usize) -> Vec<String> {
    (0..height)
        .map(|y| {
            (0..width)
                .map(|x| if pixel(tekenen, width, x, y) == white() { '#' } else { '.' })
                .collect()
        })
        .collect()
}

#[test]
fn text_is_drawn_symbol_by_symbol() {
    let mut tekenen = Tekenen::new(40, 6);
    let font = font();
    assert_eq!(font.check("ab b"), true);

    let cursor = tekenen.draw_text(&font, "ab b", 1, 1);

    assert_eq!(cursor, (64, 0));
    let top = lit(40, &[(1, 4), (17, 2)]);
    let bottom = lit(40, &[(17, 4)]);
    let none = lit(40, &[]);
    assert_eq!(
        rows(&tekenen, 40, 6),
        vec![none.clone(), top.clone(), top, bottom.clone(), bottom, none]
    );
}

#[test]
fn line_feed_and_full_line_start_the_next_line() {
    let mut tekenen = Tekenen::new(4, 40);
    let font = font();

    assert_eq!(tekenen.draw_text(&font, "a\nb\n", 0, 0), (0, 32));
    assert_eq!(rows(&tekenen, 4, 40)[0], "####");
    assert_eq!(rows(&tekenen, 4, 40)[2], "....");
    assert_eq!(rows(&tekenen, 4, 40)[16], "##..");
    assert_eq!(rows(&tekenen, 4, 40)[18], "####");

    // fifty characters fill a line of 800 pixels; the next starts a new one
    let line = " ".repeat(50);
    assert_eq!(Tekenen::cursor_of(&line), Some((800, 0)));
    assert_eq!(Tekenen::cursor_of(&format!("{line}a")), Some((16, 16)));
    assert_eq!(Tekenen::cursor_of(&format!("{line}\n")), Some((0, 16)));
    assert_eq!(Tekenen::cursor_of(""), Some((0, 0)));

    let mut other = Tekenen::new(4, 40);
    assert_eq!(other.draw_text(&font, &format!("{line}b"), 0, 0), (16, 16));
    assert_eq!(rows(&other, 4, 40)[16], "##..");
    assert_eq!(rows(&other, 4, 40)[0], "....");
}

#[test]
fn font_must_have_what_is_drawn() {
    let font = font();
    assert_eq!(font.check(""), true);
    assert_eq!(font.check(" \n a b \n"), true);
    assert_eq!(font.check("abc"), false);
    assert_eq!(font.check("A"), false);
    assert_eq!(font.check("ab`"), false);
}

#[test]
fn terminal_is_drawn_with_a_blinking_cursor() {
    let font = font();
    let mut terminal = Terminal::new();
    terminal.write("a");

    let mut off = Tekenen::new(40, 20);
    terminal.render(&mut off, &font, 250);
    assert_eq!(rows(&off, 40, 20)[0], "####....................................");
    assert_eq!(rows(&off, 40, 20)[4], "........................................");

    let mut on = Tekenen::new(40, 20);
    terminal.render(&mut on, &font, 251);
    assert_eq!(rows(&on, 40, 20)[0], "####............################........");
    assert_eq!(rows(&on, 40, 20)[15], "................################........");
    assert_eq!(rows(&on, 40, 20)[16], "........................................");

    let mut later = Tekenen::new(40, 20);
    later.draw_terminal(&font, "", 1751);
    assert_eq!(rows(&later, 40, 20)[0], lit(40, &[(0, 16)]));
}

#[test]
fn root_renders_its_terminal_when_the_font_covers_it() {
    let mut root: Root<Idle> = Spawner::spawn_root();
    let font = font();
    let mut tekenen = Tekenen::new(8, 4);

    root.console.terminal.write("b");
    assert_eq!(root.render(&mut tekenen, &font), true);
    assert_eq!(rows(&tekenen, 8, 4), vec!["##......", "##......", "####....", "####...."]);

    root.console.terminal.write("c");
    let before = tekenen.get_pixels().clone();
    assert_eq!(root.render(&mut tekenen, &font), false);
    assert_eq!(tekenen.get_pixels(), &before);
}

#[test]
fn update_ticks_takes_events_and_draws() {
    let mut root: Root<Idle> = Spawner::spawn_root();
    let font = font();
    let mut tekenen = Tekenen::new(8, 4);
    root.console.terminal.write("a");

    let events = vec![ShellPlatform::key_event('x'), ShellPlatform::key_event('y')];
    assert_eq!(root.update(events, &mut tekenen, &font), false);
    assert_eq!(rows(&tekenen, 8, 4), vec!["####....", "####....", "........", "........"]);
    assert_eq!(
        block(&mut root.proc.stdin.read(), &mut root.console.channels, 1),
        Poll::Ready(Some("xy".to_string()))
    );

    // the request to quit ends the turn: later events are not taken, and
    // nothing is drawn
    root.console.terminal.write("b");
    let events = vec![ShellPlatform::key_event('1'), Event::Quit, ShellPlatform::key_event('2')];
    let before = tekenen.get_pixels().clone();
    assert_eq!(root.update(events, &mut tekenen, &font), true);
    assert_eq!(tekenen.get_pixels(), &before);
    assert_eq!(
        block(&mut root.proc.stdin.read(), &mut root.console.channels, 1),
        Poll::Ready(Some("1".to_string()))
    );
}
