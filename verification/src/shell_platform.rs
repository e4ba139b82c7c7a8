//! The platform on a text terminal: a frame of pixels becomes rows of black
//! and white cells, and a typed character becomes a key event.

use vstd::prelude::*;
use vstd::string::StringExecFns;
use crate::platforms::Event;
use crate::platforms::Keycode;
use crate::platforms::Keymod;

verus! {

/// `console::style` with `on_black`, written with `to_string`: the two
/// spaces as they are where colours are off, and between the escape codes
/// for a black background and for reset where colours are on. Which of the
/// two it is depends on the terminal and the environment.
#[verifier::external_body]
fn black_cell() -> (cell: String)
    ensures
        cell@ == black_text(false) || cell@ == black_text(true),
{
    console::style("  ").on_black().to_string()
}

/// `console::style` with `on_white`, written with `to_string`: as
/// `black_cell`, with the escape code for a white background.
#[verifier::external_body]
fn white_cell() -> (cell: String)
    ensures
        cell@ == white_text(false) || cell@ == white_text(true),
{
    console::style("  ").on_white().to_string()
}

/// A black cell, with or without colours.
pub open spec fn black_text(coloured: bool) -> Seq<char> {
    if coloured {
        "\x1b[40m  \x1b[0m"@
    } else {
        "  "@
    }
}

/// A white cell, with or without colours.
pub open spec fn white_text(coloured: bool) -> Seq<char> {
    if coloured {
        "\x1b[47m  \x1b[0m"@
    } else {
        "  "@
    }
}

/// The pixels are sampled every other column and every fourth row.
pub open spec fn sample(width: int, x: int, y: int) -> int {
    (y * width + x) * 8
}

/// The cells of row `y` up to column `upto`: black for a sample of 0, white
/// for any other.
pub open spec fn row_text(
    pixels: Seq<u8>,
    width: int,
    y: int,
    upto: int,
    black: Seq<char>,
    white: Seq<char>,
) -> Seq<char>
    decreases upto,
{
    if upto <= 0 {
        Seq::empty()
    } else {
        row_text(pixels, width, y, upto - 1, black, white) + if pixels[sample(width, upto - 1, y)]
            == 0 {
            black
        } else {
            white
        }
    }
}

/// The rows up to row `upto`, each of `columns` cells and a line feed.
pub open spec fn frame_text(
    pixels: Seq<u8>,
    width: int,
    columns: int,
    upto: int,
    black: Seq<char>,
    white: Seq<char>,
) -> Seq<char>
    decreases upto,
{
    if upto <= 0 {
        Seq::empty()
    } else {
        frame_text(pixels, width, columns, upto - 1, black, white) + row_text(
            pixels,
            width,
            upto - 1,
            columns,
            black,
            white,
        ) + seq!['\n']
    }
}

pub struct ShellPlatform {
    width: u32,
    height: u32,
}

impl ShellPlatform {
    pub closed spec fn width(&self) -> int {
        self.width as int
    }

    pub closed spec fn height(&self) -> int {
        self.height as int
    }

    pub fn new(width: u32, height: u32) -> (platform: Self)
        ensures
            platform.width() == width,
            platform.height() == height,
    {
        ShellPlatform { width, height }
    }

    /// A frame holds four bytes for each pixel, and no more than its
    /// indices can count.
    pub open spec fn fits(&self, pixels: Seq<u8>) -> bool {
        &&& pixels.len() == self.width() * self.height() * 4
        &&& pixels.len() <= u32::MAX
    }

    /// Whether `pixels` is a frame of this platform's size.
    pub fn check(&self, pixels: &Vec<u8>) -> (fits: bool)
        ensures
            fits == self.fits(pixels@),
    {
        assert(0 <= self.width * self.height <= 0xffff_ffff * 0xffff_ffff) by (nonlinear_arith)
            requires
                0 <= self.width <= 0xffff_ffff,
                0 <= self.height <= 0xffff_ffff,
        ;
        let size = (self.width as u64) * (self.height as u64);
        size <= 0x3fff_ffff && pixels.len() as u64 == size * 4
    }

    /// The picture of a frame with the given cells for black and white.
    pub fn frame(&self, pixels: &Vec<u8>, black: &str, white: &str) -> (picture: String)
        requires
            self.fits(pixels@),
        ensures
            picture@ == frame_text(
                pixels@,
                self.width(),
                self.width() / 2,
                self.height() / 4,
                black@,
                white@,
            ),
    {
        let rows = self.height / 4;
        let columns = self.width / 2;
        let mut output = String::new();
        let mut y: u32 = 0;
        while y < rows
            invariant
                y <= rows,
                rows == self.height() / 4,
                columns == self.width() / 2,
                self.width == self.width(),
                self.fits(pixels@),
                output@ == frame_text(pixels@, self.width(), columns as int, y as int, black@, white@),
            decreases rows - y,
        {
            let ghost before = output@;
            let mut x: u32 = 0;
            while x < columns
                invariant
                    x <= columns,
                    y < rows,
                    rows == self.height() / 4,
                    columns == self.width() / 2,
                    self.width == self.width(),
                    self.fits(pixels@),
                    output@ == before + row_text(
                        pixels@,
                        self.width(),
                        y as int,
                        x as int,
                        black@,
                        white@,
                    ),
                decreases columns - x,
            {
                let ghost row = row_text(pixels@, self.width(), y as int, x as int, black@, white@);
                assert(0 <= sample(self.width(), x as int, y as int) < pixels@.len()) by (nonlinear_arith)
                    requires
                        0 <= x < self.width() / 2,
                        0 <= y < self.height() / 4,
                        pixels@.len() == self.width() * self.height() * 4,
                ;
                assert(y * self.width + x <= 0xffff_ffff && (y * self.width + x) * 8
                    <= 0xffff_ffff) by (nonlinear_arith)
                    requires
                        0 <= x < self.width() / 2,
                        0 <= y < self.height() / 4,
                        self.width as int == self.width(),
                        self.width() * self.height() * 4 <= 0xffff_ffff,
                ;
                let i = (y * self.width + x) * 8;
                let color = pixels[i as usize];
                if color == 0 {
                    output.append(black);
                    assert(output@ =~= before + (row + black@));
                } else {
                    output.append(white);
                    assert(output@ =~= before + (row + white@));
                }
                x += 1;
            }
            output.push('\n');
            assert(output@ =~= before + row_text(
                pixels@,
                self.width(),
                y as int,
                columns as int,
                black@,
                white@,
            ) + seq!['\n']);
            y += 1;
        }
        output
    }

    /// The picture of a frame where the black cells, the white cells, both
    /// or none are written with colours.
    pub open spec fn pictured(&self, pixels: Seq<u8>, black: bool, white: bool) -> Seq<char> {
        frame_text(
            pixels,
            self.width(),
            self.width() / 2,
            self.height() / 4,
            black_text(black),
            white_text(white),
        )
    }

    /// The picture of a frame as the terminal shows it: cells of two
    /// spaces, coloured where the terminal has colours.
    pub fn picture(&self, pixels: &Vec<u8>) -> (picture: String)
        requires
            self.fits(pixels@),
        ensures
            picture@ == self.pictured(pixels@, false, false) || picture@ == self.pictured(
                pixels@,
                false,
                true,
            ) || picture@ == self.pictured(pixels@, true, false) || picture@ == self.pictured(
                pixels@,
                true,
                true,
            ),
    {
        let black = black_cell();
        let white = white_cell();
        self.frame(pixels, black.as_str(), white.as_str())
    }

    /// The event for a typed character.
    pub fn key_event(key: char) -> (event: Event)
        ensures
            event matches Event::KeyDown { repeat, char, keycode, keymod } && !repeat && char
                == Some(key) && !keymod.shift && !keymod.ctrl && !keymod.caps,
    {
        Event::KeyDown {
            repeat: false,
            char: Some(key),
            keycode: Keycode::Temp,
            keymod: Keymod { shift: false, ctrl: false, caps: false },
        }
    }
}

} // verus!
