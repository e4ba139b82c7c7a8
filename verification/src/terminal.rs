//! The terminal: the text that has been shown so far.

use vstd::prelude::*;
use vstd::string::StringExecFns;
use crate::tekenen::cursor_after;
use crate::tekenen::is_lit;
use crate::tekenen::text_lit;
use crate::tekenen::Font;
use crate::tekenen::Tekenen;

verus! {

pub struct Terminal {
    buffer: String,
}

impl View for Terminal {
    type V = Seq<char>;

    closed spec fn view(&self) -> Seq<char> {
        self.buffer@
    }
}

impl Terminal {
    pub fn new() -> (terminal: Terminal)
        ensures
            terminal@ == Seq::<char>::empty(),
    {
        Terminal { buffer: String::new() }
    }

    /// Appends `string` to what is shown.
    pub fn write(&mut self, string: &str)
        ensures
            final(self)@ == old(self)@ + string@,
    {
        self.buffer.append(string);
    }

    /// Appends one character to what is shown.
    pub fn write_char(&mut self, c: char)
        ensures
            final(self)@ == old(self)@.push(c),
    {
        self.buffer.push(c);
    }

    /// Draws what is shown, and the cursor behind it while `time` is in the
    /// second half of a half second.
    pub fn render(&self, renderer: &mut Tekenen, font: &Font, time: u64)
        requires
            old(renderer).wf(),
            font.covers(self@),
            Tekenen::reaches(self@),
            time % 500 > 250 ==> cursor_after(self@, self@.len() as int).1 + 16 <= i32::MAX,
        ensures
            final(renderer).wf(),
            final(renderer).width() == old(renderer).width(),
            final(renderer).height() == old(renderer).height(),
            is_lit(
                old(renderer)@,
                final(renderer)@,
                old(renderer).width(),
                old(renderer).height(),
                |px: int, py: int|
                    text_lit(*font, self@, self@.len() as int, 0, 0, px, py) || (time % 500 > 250
                        && cursor_after(self@, self@.len() as int).0 <= px < cursor_after(
                        self@,
                        self@.len() as int,
                    ).0 + 16 && cursor_after(self@, self@.len() as int).1 <= py < cursor_after(
                        self@,
                        self@.len() as int,
                    ).1 + 16),
            ),
    {
        renderer.draw_terminal(font, self.buffer.as_str(), time);
    }

    /// Everything that is shown.
    pub fn text(&self) -> (text: &str)
        ensures
            text@ == self@,
    {
        self.buffer.as_str()
    }
}

} // verus!
