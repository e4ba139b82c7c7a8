//! The drawing surface: a frame of pixels, four bytes each, row by row.

use vstd::prelude::*;

verus! {

pub type Pixels = Vec<u8>;

pub type Pixel = [u8; 4];

pub fn white() -> (color: Pixel)
    ensures
        color@ == seq![255u8, 255u8, 255u8, 255u8],
{
    let color = [255, 255, 255, 255];
    assert(color@ =~= seq![255u8, 255u8, 255u8, 255u8]);
    color
}

pub fn red() -> (color: Pixel)
    ensures
        color@ == seq![255u8, 0u8, 0u8, 255u8],
{
    let color = [255, 0, 0, 255];
    assert(color@ =~= seq![255u8, 0u8, 0u8, 255u8]);
    color
}

pub fn gray() -> (color: Pixel)
    ensures
        color@ == seq![51u8, 51u8, 51u8, 255u8],
{
    let color = [51, 51, 51, 255];
    assert(color@ =~= seq![51u8, 51u8, 51u8, 255u8]);
    color
}

pub fn black() -> (color: Pixel)
    ensures
        color@ == seq![0u8, 0u8, 0u8, 255u8],
{
    let color = [0, 0, 0, 255];
    assert(color@ =~= seq![0u8, 0u8, 0u8, 255u8]);
    color
}

/// The four bytes of pixel `index` of a frame.
pub open spec fn pixel_at(pixels: Seq<u8>, index: int) -> Seq<u8> {
    pixels.subrange(4 * index, 4 * index + 4)
}

/// The four bytes of the pixel in column `px` of row `py`.
pub open spec fn pixel(pixels: Seq<u8>, width: int, px: int, py: int) -> Seq<u8> {
    pixel_at(pixels, py * width + px)
}

/// Two pixels of a frame that have the same place are the same pixel.
pub proof fn lemma_one_place_one_pixel(width: int, x1: int, y1: int, x2: int, y2: int)
    requires
        0 <= x1 < width,
        0 <= x2 < width,
        0 <= y1,
        0 <= y2,
        y1 * width + x1 == y2 * width + x2,
    ensures
        x1 == x2,
        y1 == y2,
{
    if y1 < y2 {
        assert(y2 * width >= (y1 + 1) * width) by (nonlinear_arith)
            requires
                y1 < y2,
                width > 0,
        ;
        assert((y1 + 1) * width == y1 * width + width) by (nonlinear_arith);
    } else if y2 < y1 {
        assert(y1 * width >= (y2 + 1) * width) by (nonlinear_arith)
            requires
                y2 < y1,
                width > 0,
        ;
        assert((y2 + 1) * width == y2 * width + width) by (nonlinear_arith);
    }
}

/// `after` is `before` with the rectangle filled: every pixel of the frame
/// inside the rectangle has the colour, every other is as it was.
pub open spec fn is_filled(
    before: Seq<u8>,
    after: Seq<u8>,
    width: int,
    height: int,
    x: int,
    y: int,
    w: int,
    h: int,
    color: Seq<u8>,
) -> bool {
    &&& after.len() == before.len()
    &&& forall|px: int, py: int|
        0 <= px < width && 0 <= py < height ==> #[trigger] pixel(after, width, px, py) == filled(
            before,
            width,
            px,
            py,
            x,
            y,
            w,
            h,
            color,
        )
}

/// The place of the pixel in column `x` of row `y`, if the frame has it.
pub open spec fn index_of(width: int, height: int, x: int, y: int) -> Option<int> {
    if 0 <= x < width && 0 <= y < height {
        Some(y * width + x)
    } else {
        None
    }
}

/// What a pixel of the frame holds after a rectangle was filled: the colour
/// inside the rectangle, what it held outside.
pub open spec fn filled(
    before: Seq<u8>,
    width: int,
    px: int,
    py: int,
    x: int,
    y: int,
    w: int,
    h: int,
    color: Seq<u8>,
) -> Seq<u8> {
    if x <= px < x + w && y <= py < y + h {
        color
    } else {
        pixel(before, width, px, py)
    }
}

pub struct Tekenen {
    pixels: Pixels,
    width: usize,
    height: usize,
}

impl View for Tekenen {
    type V = Seq<u8>;

    closed spec fn view(&self) -> Seq<u8> {
        self.pixels@
    }
}

impl Tekenen {
    pub closed spec fn width(&self) -> int {
        self.width as int
    }

    pub closed spec fn height(&self) -> int {
        self.height as int
    }

    /// The frame holds four bytes for each pixel, and its pixels can be
    /// counted with the coordinates' type.
    pub closed spec fn wf(&self) -> bool {
        &&& self.pixels@.len() == self.width * self.height * 4
        &&& self.width * self.height <= i32::MAX
        &&& self.width <= i32::MAX
        &&& self.height <= i32::MAX
    }

    /// A frame of that size can be made.
    pub open spec fn sized(width: int, height: int) -> bool {
        &&& 0 <= width <= i32::MAX
        &&& 0 <= height <= i32::MAX
        &&& width * height <= i32::MAX
        &&& width * height * 4 <= usize::MAX
    }

    /// Whether a frame of that size can be made.
    pub fn check_size(width: usize, height: usize) -> (sized: bool)
        ensures
            sized == Self::sized(width as int, height as int),
    {
        if width > 0x7fff_ffff || height > 0x7fff_ffff {
            return false;
        }
        assert(0 <= width * height <= 0x7fff_ffff * 0x7fff_ffff) by (nonlinear_arith)
            requires
                0 <= width <= 0x7fff_ffff,
                0 <= height <= 0x7fff_ffff,
        ;
        let size = (width as u64) * (height as u64);
        size <= 0x7fff_ffff && size * 4 <= usize::MAX as u64
    }

    /// A frame of `width` by `height` pixels, all bytes 0.
    pub fn new(width: usize, height: usize) -> (tekenen: Tekenen)
        requires
            Self::sized(width as int, height as int),
        ensures
            tekenen.wf(),
            tekenen.width() == width,
            tekenen.height() == height,
            tekenen@ == Seq::new((width * height * 4) as nat, |i: int| 0u8),
    {
        let size = width * height * 4;
        let pixels = vec![0u8; size];
        assert(pixels@ =~= Seq::new((width * height * 4) as nat, |i: int| 0u8));
        Tekenen { pixels, width, height }
    }

    pub fn get_pixels(&self) -> (pixels: &Pixels)
        ensures
            pixels@ == self@,
    {
        &self.pixels
    }

    /// The place of the pixel in column `x` of row `y`, if the frame has it.
    pub fn pixel_index(&self, x: i32, y: i32) -> (index: Option<usize>)
        requires
            self.wf(),
        ensures
            match index_of(self.width(), self.height(), x as int, y as int) {
                Some(i) => index == Some(i as usize) && 4 * i + 4 <= self@.len(),
                None => index is None,
            },
    {
        if x < 0 || y < 0 || x >= self.width as i32 || y >= self.height as i32 {
            return None;
        }
        assert(0 <= y * self.width + x < self.width * self.height) by (nonlinear_arith)
            requires
                0 <= x < self.width,
                0 <= y < self.height,
        ;
        assert(y * (self.width as i32) == y * self.width);
        Some((y * self.width as i32 + x) as usize)
    }

    /// Gives the pixel in column `x` of row `y` the colour. Outside the
    /// frame nothing is drawn.
    pub fn set_pixel(&mut self, x: i32, y: i32, color: Pixel)
        requires
            old(self).wf(),
        ensures
            final(self).wf(),
            final(self).width() == old(self).width(),
            final(self).height() == old(self).height(),
            is_filled(
                old(self)@,
                final(self)@,
                old(self).width(),
                old(self).height(),
                x as int,
                y as int,
                1,
                1,
                color@,
            ),
    {
        if let Some(index) = self.pixel_index(x, y) {
            let size = self.pixels.len();
            assert(index * 4 + 4 <= size);
            self.pixels[index * 4] = color[0];
            self.pixels[index * 4 + 1] = color[1];
            self.pixels[index * 4 + 2] = color[2];
            self.pixels[index * 4 + 3] = color[3];
            assert(pixel_at(self@, index as int) =~= color@);
            assert forall|px: int, py: int|
                0 <= px < self.width() && 0 <= py < self.height() implies #[trigger] pixel(
                self@,
                self.width(),
                px,
                py,
            ) == filled(old(self)@, self.width(), px, py, x as int, y as int, 1, 1, color@) by {
                if px == x && py == y {
                } else {
                    let other = py * self.width() + px;
                    if other == index {
                        lemma_one_place_one_pixel(self.width(), px, py, x as int, y as int);
                    }
                    assert(0 <= other < self.width() * self.height()) by (nonlinear_arith)
                        requires
                            0 <= px < self.width(),
                            0 <= py < self.height(),
                            other == py * self.width() + px,
                    ;
                    assert(pixel_at(self@, other) =~= pixel_at(old(self)@, other));
                }
            }
        } else {
            assert forall|px: int, py: int|
                0 <= px < self.width() && 0 <= py < self.height() implies #[trigger] pixel(
                self@,
                self.width(),
                px,
                py,
            ) == filled(old(self)@, self.width(), px, py, x as int, y as int, 1, 1, color@) by {
                assert(!(px == x && py == y));
            }
        }
        assert(self@.len() == old(self)@.len());
        assert(self.width() == old(self).width());
        assert(self.height() == old(self).height());
    }

    /// Fills the rectangle of `w` by `h` pixels whose first corner is in
    /// column `x` of row `y`. What lies outside the frame is not drawn.
    pub fn rect(&mut self, x: i32, y: i32, w: i32, h: i32, color: Pixel)
        requires
            old(self).wf(),
            i32::MIN <= x + w <= i32::MAX,
            i32::MIN <= y + h <= i32::MAX,
        ensures
            final(self).wf(),
            final(self).width() == old(self).width(),
            final(self).height() == old(self).height(),
            is_filled(
                old(self)@,
                final(self)@,
                old(self).width(),
                old(self).height(),
                x as int,
                y as int,
                w as int,
                h as int,
                color@,
            ),
    {
        let ghost width = self.width();
        let ghost height = self.height();
        let mut cx = x;
        while cx < x + w
            invariant
                self.wf(),
                self.width() == width,
                self.height() == height,
                i32::MIN <= x + w <= i32::MAX,
                i32::MIN <= y + h <= i32::MAX,
                x <= cx,
                cx <= x + w || w < 0,
                w < 0 ==> cx == x,
                is_filled(
                    old(self)@,
                    self@,
                    width,
                    height,
                    x as int,
                    y as int,
                    cx - x,
                    h as int,
                    color@,
                ),
            decreases x + w - cx,
        {
            let ghost column = self@;
            let mut cy = y;
            while cy < y + h
                invariant
                    self.wf(),
                    self.width() == width,
                    self.height() == height,
                    i32::MIN <= y + h <= i32::MAX,
                    y <= cy,
                    cy <= y + h || h < 0,
                    h < 0 ==> cy == y,
                    is_filled(column, self@, width, height, cx as int, y as int, 1, cy - y, color@),
                decreases y + h - cy,
            {
                let ghost before = self@;
                self.set_pixel(cx, cy, color);
                assert forall|px: int, py: int|
                    0 <= px < width && 0 <= py < height implies #[trigger] pixel(
                    self@,
                    width,
                    px,
                    py,
                ) == filled(column, width, px, py, cx as int, y as int, 1, cy + 1 - y, color@) by {
                    assert(pixel(before, width, px, py) == filled(
                        column,
                        width,
                        px,
                        py,
                        cx as int,
                        y as int,
                        1,
                        cy - y,
                        color@,
                    ));
                }
                cy += 1;
            }
            assert forall|px: int, py: int|
                0 <= px < width && 0 <= py < height implies #[trigger] pixel(
                self@,
                width,
                px,
                py,
            ) == filled(old(self)@, width, px, py, x as int, y as int, cx + 1 - x, h as int, color@) by {
                assert(pixel(column, width, px, py) == filled(
                    old(self)@,
                    width,
                    px,
                    py,
                    x as int,
                    y as int,
                    cx - x,
                    h as int,
                    color@,
                ));
            }
            cx += 1;
        }
        assert forall|px: int, py: int|
            0 <= px < width && 0 <= py < height implies #[trigger] pixel(self@, width, px, py)
            == filled(old(self)@, width, px, py, x as int, y as int, w as int, h as int, color@) by {
            assert(pixel(self@, width, px, py) == filled(
                old(self)@,
                width,
                px,
                py,
                x as int,
                y as int,
                cx - x,
                h as int,
                color@,
            ));
        }
    }

    /// Gives every pixel of the frame the colour.
    pub fn background(&mut self, color: Pixel)
        requires
            old(self).wf(),
        ensures
            final(self).wf(),
            final(self).width() == old(self).width(),
            final(self).height() == old(self).height(),
            final(self)@.len() == old(self)@.len(),
            forall|px: int, py: int|
                0 <= px < old(self).width() && 0 <= py < old(self).height() ==> #[trigger] pixel(
                    final(self)@,
                    old(self).width(),
                    px,
                    py,
                ) == color@,
    {
        self.rect(0, 0, self.width as i32, self.height as i32, color);
    }
}

/// A font: for each character from `first` on, a grid of symbols, of which
/// every symbol but the space is drawn.
pub struct Font {
    pub first: char,
    pub glyphs: Vec<Vec<Vec<char>>>,
}

/// The glyph of a character in a font, if the font has one.
pub open spec fn glyph_index(font: Font, c: char) -> Option<int> {
    if (font.first as u32) <= (c as u32) && (c as u32) - (font.first as u32) < font.glyphs@.len() {
        Some((c as u32) - (font.first as u32))
    } else {
        None
    }
}

/// A character that is drawn: neither a line feed nor a space.
pub open spec fn is_drawn(c: char) -> bool {
    c != '\n' && c != ' '
}

/// The cursor as a character finds it: at the start of the next line after
/// a line feed, and when the line is full.
pub open spec fn wrapped(cursor: (int, int), c: char) -> (int, int) {
    if cursor.0 >= 800 || c == '\n' {
        (0, cursor.1 + 16)
    } else {
        cursor
    }
}

/// The cursor as a character leaves it: one character's width further,
/// unless the character is a line feed.
pub open spec fn advanced(cursor: (int, int), c: char) -> (int, int) {
    if c == '\n' {
        wrapped(cursor, c)
    } else {
        (wrapped(cursor, c).0 + 16, wrapped(cursor, c).1)
    }
}

/// The cursor after the first `upto` characters of a text.
pub open spec fn cursor_after(text: Seq<char>, upto: int) -> (int, int)
    decreases upto,
{
    if upto <= 0 {
        (0, 0)
    } else {
        advanced(cursor_after(text, upto - 1), text[upto - 1])
    }
}

/// Whether the pixel is lit by the symbols of one row of a glyph before
/// column `upto`. Each symbol is two pixels wide and high.
pub open spec fn row_lit(row: Seq<char>, upto: int, x: int, y: int, px: int, py: int) -> bool
    decreases upto,
{
    if upto <= 0 {
        false
    } else {
        row_lit(row, upto - 1, x, y, px, py) || (row[upto - 1] != ' ' && x + 2 * (upto - 1) <= px
            < x + 2 * (upto - 1) + 2 && y <= py < y + 2)
    }
}

/// Whether the pixel is lit by the rows of a glyph before row `upto`.
pub open spec fn glyph_lit(glyph: Seq<Vec<char>>, upto: int, x: int, y: int, px: int, py: int) -> bool
    decreases upto,
{
    if upto <= 0 {
        false
    } else {
        glyph_lit(glyph, upto - 1, x, y, px, py) || row_lit(
            glyph[upto - 1]@,
            glyph[upto - 1]@.len() as int,
            x,
            y + 2 * (upto - 1),
            px,
            py,
        )
    }
}

/// Whether the pixel is lit by a character that is drawn with its glyph's
/// first corner at `(x, y)`.
pub open spec fn char_lit(font: Font, c: char, x: int, y: int, px: int, py: int) -> bool {
    match glyph_index(font, c) {
        Some(i) => is_drawn(c) && glyph_lit(
            font.glyphs@[i]@,
            font.glyphs@[i]@.len() as int,
            x,
            y,
            px,
            py,
        ),
        None => false,
    }
}

/// Whether the pixel is lit by the first `upto` characters of a text that
/// is drawn from `(x, y)` on.
pub open spec fn text_lit(font: Font, text: Seq<char>, upto: int, x: int, y: int, px: int, py: int) -> bool
    decreases upto,
{
    if upto <= 0 {
        false
    } else {
        let c = text[upto - 1];
        let at = wrapped(cursor_after(text, upto - 1), c);
        text_lit(font, text, upto - 1, x, y, px, py) || char_lit(font, c, x + at.0, y + at.1, px, py)
    }
}

/// `after` is `before` with white where `lit` says so for the text's
/// pixels: the state of the frame between two symbols.
pub open spec fn is_lit(
    before: Seq<u8>,
    after: Seq<u8>,
    width: int,
    height: int,
    lit: spec_fn(int, int) -> bool,
) -> bool {
    &&& after.len() == before.len()
    &&& forall|px: int, py: int|
        0 <= px < width && 0 <= py < height ==> #[trigger] pixel(after, width, px, py) == if lit(
            px,
            py,
        ) {
            seq![255u8, 255u8, 255u8, 255u8]
        } else {
            pixel(before, width, px, py)
        }
}

impl Font {
    /// The font has a glyph for every character of the text that is drawn.
    pub open spec fn covers(&self, text: Seq<char>) -> bool {
        forall|k: int|
            0 <= k < text.len() && is_drawn(#[trigger] text[k]) ==> glyph_index(*self, text[k])
                is Some
    }

    /// Whether the font has a glyph for every character of the text that is
    /// drawn.
    pub fn check(&self, text: &str) -> (covers: bool)
        ensures
            covers == self.covers(text@),
    {
        let n = text.unicode_len();
        let mut k: usize = 0;
        while k < n
            invariant
                n == text@.len(),
                k <= n,
                forall|j: int|
                    0 <= j < k && is_drawn(#[trigger] text@[j]) ==> glyph_index(*self, text@[j])
                        is Some,
            decreases n - k,
        {
            let c = text.get_char(k);
            if c != '\n' && c != ' ' {
                if (c as u32) < (self.first as u32) || (c as u32 - self.first as u32) as usize
                    >= self.glyphs.len() {
                    assert(is_drawn(text@[k as int]) && glyph_index(*self, text@[k as int]) is None);
                    return false;
                }
            }
            k += 1;
        }
        true
    }
}

impl Tekenen {
    /// Gives one pixel the colour, where the frame has it.
    fn dot(&mut self, x: i64, y: i64, color: Pixel)
        requires
            old(self).wf(),
        ensures
            final(self).wf(),
            final(self).width() == old(self).width(),
            final(self).height() == old(self).height(),
            is_filled(
                old(self)@,
                final(self)@,
                old(self).width(),
                old(self).height(),
                x as int,
                y as int,
                1,
                1,
                color@,
            ),
    {
        if -0x8000_0000 <= x && x <= 0x7fff_ffff && -0x8000_0000 <= y && y <= 0x7fff_ffff {
            self.set_pixel(x as i32, y as i32, color);
        } else {
            assert forall|px: int, py: int|
                0 <= px < self.width() && 0 <= py < self.height() implies #[trigger] pixel(
                self@,
                self.width(),
                px,
                py,
            ) == filled(self@, self.width(), px, py, x as int, y as int, 1, 1, color@) by {
                self.lemma_in_reach(px, py);
            }
        }
    }

    /// The frame's columns and rows can be counted with 32 bits.
    proof fn lemma_in_reach(&self, px: int, py: int)
        requires
            self.wf(),
            0 <= px < self.width(),
            0 <= py < self.height(),
        ensures
            px <= i32::MAX,
            py <= i32::MAX,
    {
    }
}

/// A pixel that a row lights lies in the row's two lines and not left of
/// the row.
pub proof fn lemma_row_lit_where(row: Seq<char>, upto: int, x: int, y: int, px: int, py: int)
    requires
        row_lit(row, upto, x, y, px, py),
    ensures
        y <= py < y + 2,
        x <= px < x + 2 * upto,
    decreases upto,
{
    if upto > 0 && row_lit(row, upto - 1, x, y, px, py) {
        lemma_row_lit_where(row, upto - 1, x, y, px, py);
    }
}

/// A pixel that a glyph lights lies neither above nor left of the glyph.
pub proof fn lemma_glyph_lit_where(glyph: Seq<Vec<char>>, upto: int, x: int, y: int, px: int, py: int)
    requires
        glyph_lit(glyph, upto, x, y, px, py),
    ensures
        y <= py < y + 2 * upto,
        x <= px,
    decreases upto,
{
    if upto > 0 {
        if glyph_lit(glyph, upto - 1, x, y, px, py) {
            lemma_glyph_lit_where(glyph, upto - 1, x, y, px, py);
        } else {
            lemma_row_lit_where(
                glyph[upto - 1]@,
                glyph[upto - 1]@.len() as int,
                x,
                y + 2 * (upto - 1),
                px,
                py,
            );
        }
    }
}

/// The cursor stays within a line's width, and moves down by no more than
/// a line for each character.
pub proof fn lemma_cursor_bounds(text: Seq<char>, upto: int)
    requires
        0 <= upto,
    ensures
        0 <= cursor_after(text, upto).0 < 816,
        0 <= cursor_after(text, upto).1 <= 16 * upto,
        forall|k: int| 0 <= k <= upto ==> cursor_after(text, k).1 <= cursor_after(text, upto).1,
    decreases upto,
{
    if upto > 0 {
        lemma_cursor_bounds(text, upto - 1);
    }
}

impl Tekenen {
    /// Makes the two by two pixels from `(x, y)` on white, where the frame
    /// has them.
    fn stamp(&mut self, x: i64, y: i64)
        requires
            old(self).wf(),
            -0x1_0000_0000_0000 <= x <= 0x1_0000_0000_0000,
            -0x1_0000_0000_0000 <= y <= 0x1_0000_0000_0000,
        ensures
            final(self).wf(),
            final(self).width() == old(self).width(),
            final(self).height() == old(self).height(),
            is_filled(
                old(self)@,
                final(self)@,
                old(self).width(),
                old(self).height(),
                x as int,
                y as int,
                2,
                2,
                seq![255u8, 255u8, 255u8, 255u8],
            ),
    {
        let ghost width = self.width();
        let ghost height = self.height();
        let ghost start = self@;
        self.dot(x, y, white());
        let ghost first = self@;
        self.dot(x, y + 1, white());
        let ghost second = self@;
        self.dot(x + 1, y, white());
        let ghost third = self@;
        self.dot(x + 1, y + 1, white());
        assert forall|px: int, py: int| 0 <= px < width && 0 <= py < height implies #[trigger] pixel(
            self@,
            width,
            px,
            py,
        ) == filled(start, width, px, py, x as int, y as int, 2, 2, seq![255u8, 255u8, 255u8, 255u8]) by {
            assert(pixel(first, width, px, py) == filled(
                start,
                width,
                px,
                py,
                x as int,
                y as int,
                1,
                1,
                seq![255u8, 255u8, 255u8, 255u8],
            ));
            assert(pixel(second, width, px, py) == filled(
                first,
                width,
                px,
                py,
                x as int,
                y + 1,
                1,
                1,
                seq![255u8, 255u8, 255u8, 255u8],
            ));
            assert(pixel(third, width, px, py) == filled(
                second,
                width,
                px,
                py,
                x + 1,
                y as int,
                1,
                1,
                seq![255u8, 255u8, 255u8, 255u8],
            ));
        }
    }

    /// Draws one row of a glyph: a white block for every symbol but the
    /// space.
    fn draw_row(&mut self, row: &Vec<char>, x: i64, y: i64)
        requires
            old(self).wf(),
            -0x1_0000_0000 <= x <= 0x1_0000_0000,
            -0x1_0000_0000 <= y <= 0x1_0000_0000_0000,
        ensures
            final(self).wf(),
            final(self).width() == old(self).width(),
            final(self).height() == old(self).height(),
            is_lit(
                old(self)@,
                final(self)@,
                old(self).width(),
                old(self).height(),
                |px: int, py: int| row_lit(row@, row@.len() as int, x as int, y as int, px, py),
            ),
    {
        let ghost width = self.width();
        let ghost height = self.height();
        let ghost start = self@;
        let mut xd: usize = 0;
        while xd < row.len()
            invariant
                self.wf(),
                self.width() == width,
                self.height() == height,
                xd <= row@.len(),
                -0x1_0000_0000 <= x <= 0x1_0000_0000,
                -0x1_0000_0000 <= y <= 0x1_0000_0000_0000,
                is_lit(
                    start,
                    self@,
                    width,
                    height,
                    |px: int, py: int| row_lit(row@, xd as int, x as int, y as int, px, py),
                ),
            decreases row@.len() - xd,
        {
            let ghost before = self@;
            if row[xd] != ' ' && xd <= 0xffff_ffff {
                self.stamp(x + 2 * (xd as i64), y);
            }
            assert forall|px: int, py: int|
                0 <= px < width && 0 <= py < height implies #[trigger] pixel(self@, width, px, py)
                == if row_lit(row@, xd + 1, x as int, y as int, px, py) {
                seq![255u8, 255u8, 255u8, 255u8]
            } else {
                pixel(start, width, px, py)
            } by {
                self.lemma_in_reach(px, py);
                assert(pixel(before, width, px, py) == if row_lit(
                    row@,
                    xd as int,
                    x as int,
                    y as int,
                    px,
                    py,
                ) {
                    seq![255u8, 255u8, 255u8, 255u8]
                } else {
                    pixel(start, width, px, py)
                });
                if row@[xd as int] != ' ' && xd <= 0xffff_ffff {
                    assert(pixel(self@, width, px, py) == filled(
                        before,
                        width,
                        px,
                        py,
                        x + 2 * xd,
                        y as int,
                        2,
                        2,
                        seq![255u8, 255u8, 255u8, 255u8],
                    ));
                }
            }
            xd += 1;
        }
    }

    /// Draws a glyph with its first corner at `(x, y)`.
    fn draw_glyph(&mut self, glyph: &Vec<Vec<char>>, x: i64, y: i64)
        requires
            old(self).wf(),
            -0x1_0000_0000 <= x <= 0x1_0000_0000,
            -0x1_0000_0000 <= y <= 0x1_0000_0000,
        ensures
            final(self).wf(),
            final(self).width() == old(self).width(),
            final(self).height() == old(self).height(),
            is_lit(
                old(self)@,
                final(self)@,
                old(self).width(),
                old(self).height(),
                |px: int, py: int| glyph_lit(glyph@, glyph@.len() as int, x as int, y as int, px, py),
            ),
    {
        let ghost width = self.width();
        let ghost height = self.height();
        let ghost start = self@;
        let mut yd: usize = 0;
        while yd < glyph.len()
            invariant
                self.wf(),
                self.width() == width,
                self.height() == height,
                yd <= glyph@.len(),
                -0x1_0000_0000 <= x <= 0x1_0000_0000,
                -0x1_0000_0000 <= y <= 0x1_0000_0000,
                is_lit(
                    start,
                    self@,
                    width,
                    height,
                    |px: int, py: int| glyph_lit(glyph@, yd as int, x as int, y as int, px, py),
                ),
            decreases glyph@.len() - yd,
        {
            let ghost before = self@;
            if yd <= 0xffff_ffff {
                self.draw_row(&glyph[yd], x, y + 2 * (yd as i64));
            }
            assert forall|px: int, py: int|
                0 <= px < width && 0 <= py < height implies #[trigger] pixel(self@, width, px, py)
                == if glyph_lit(glyph@, yd + 1, x as int, y as int, px, py) {
                seq![255u8, 255u8, 255u8, 255u8]
            } else {
                pixel(start, width, px, py)
            } by {
                self.lemma_in_reach(px, py);
                assert(pixel(before, width, px, py) == if glyph_lit(
                    glyph@,
                    yd as int,
                    x as int,
                    y as int,
                    px,
                    py,
                ) {
                    seq![255u8, 255u8, 255u8, 255u8]
                } else {
                    pixel(start, width, px, py)
                });
                let lit = row_lit(
                    glyph@[yd as int]@,
                    glyph@[yd as int]@.len() as int,
                    x as int,
                    y + 2 * yd,
                    px,
                    py,
                );
                if yd <= 0xffff_ffff {
                    assert(pixel(self@, width, px, py) == if lit {
                        seq![255u8, 255u8, 255u8, 255u8]
                    } else {
                        pixel(before, width, px, py)
                    });
                } else if lit {
                    lemma_row_lit_where(
                        glyph@[yd as int]@,
                        glyph@[yd as int]@.len() as int,
                        x as int,
                        y + 2 * yd,
                        px,
                        py,
                    );
                }
            }
            yd += 1;
        }
    }

    /// The text can be drawn down to its last line: the cursor's row never
    /// leaves what the coordinates can count.
    pub open spec fn reaches(text: Seq<char>) -> bool {
        cursor_after(text, text.len() as int).1 <= i32::MAX
    }

    /// Where a text leaves the cursor, if the text can be drawn down to its
    /// last line.
    pub fn cursor_of(text: &str) -> (cursor: Option<(i32, i32)>)
        ensures
            cursor is Some <==> Self::reaches(text@),
            cursor matches Some(at) ==> (at.0 as int, at.1 as int) == cursor_after(
                text@,
                text@.len() as int,
            ),
    {
        let n = text.unicode_len();
        let mut curr_x: i32 = 0;
        let mut curr_y: i32 = 0;
        let mut k: usize = 0;
        proof {
            lemma_cursor_bounds(text@, n as int);
        }
        while k < n
            invariant
                n == text@.len(),
                k <= n,
                forall|j: int| 0 <= j <= n ==> cursor_after(text@, j).1 <= cursor_after(
                    text@,
                    n as int,
                ).1,
                (curr_x as int, curr_y as int) == cursor_after(text@, k as int),
            decreases n - k,
        {
            let c = text.get_char(k);
            proof {
                lemma_cursor_bounds(text@, k as int);
                assert(cursor_after(text@, k + 1) == advanced(cursor_after(text@, k as int), c));
                assert(cursor_after(text@, k + 1).1 <= cursor_after(text@, n as int).1);
            }
            if curr_x >= 800 || c == '\n' {
                if curr_y > 0x7fff_ffff - 16 {
                    return None;
                }
                curr_x = 0;
                curr_y += 16;
            }
            if c != '\n' {
                curr_x += 16;
            }
            k += 1;
        }
        Some((curr_x, curr_y))
    }

    /// Draws a text from `(x, y)` on, sixteen pixels for each character and
    /// each line, and returns where the cursor is left, relative to `(x, y)`.
    /// A line feed and a line that is full start the next line; a space is
    /// the only character that is skipped.
    pub fn draw_text(&mut self, font: &Font, text: &str, x: i32, y: i32) -> (cursor: (i32, i32))
        requires
            old(self).wf(),
            font.covers(text@),
            Self::reaches(text@),
        ensures
            final(self).wf(),
            final(self).width() == old(self).width(),
            final(self).height() == old(self).height(),
            (cursor.0 as int, cursor.1 as int) == cursor_after(text@, text@.len() as int),
            is_lit(
                old(self)@,
                final(self)@,
                old(self).width(),
                old(self).height(),
                |px: int, py: int|
                    text_lit(*font, text@, text@.len() as int, x as int, y as int, px, py),
            ),
    {
        let ghost width = self.width();
        let ghost height = self.height();
        let ghost start = self@;
        let n = text.unicode_len();
        let mut curr_x: i32 = 0;
        let mut curr_y: i32 = 0;
        let mut k: usize = 0;
        proof {
            lemma_cursor_bounds(text@, n as int);
        }
        while k < n
            invariant
                self.wf(),
                self.width() == width,
                self.height() == height,
                n == text@.len(),
                k <= n,
                font.covers(text@),
                cursor_after(text@, n as int).1 <= i32::MAX,
                forall|j: int| 0 <= j <= n ==> cursor_after(text@, j).1 <= cursor_after(
                    text@,
                    n as int,
                ).1,
                (curr_x as int, curr_y as int) == cursor_after(text@, k as int),
                is_lit(
                    start,
                    self@,
                    width,
                    height,
                    |px: int, py: int| text_lit(*font, text@, k as int, x as int, y as int, px, py),
                ),
            decreases n - k,
        {
            let ghost before = self@;
            let c = text.get_char(k);
            proof {
                lemma_cursor_bounds(text@, k as int);
                lemma_cursor_bounds(text@, k + 1);
                assert(cursor_after(text@, k + 1) == advanced(cursor_after(text@, k as int), c));
                assert(cursor_after(text@, k + 1).1 <= cursor_after(text@, n as int).1);
            }
            if curr_x >= 800 || c == '\n' {
                curr_x = 0;
                curr_y += 16;
            }
            if c == '\n' {
            } else if c == ' ' {
                curr_x += 16;
            } else {
                let index = (c as u32 - font.first as u32) as usize;
                assert(glyph_index(*font, c) == Some(index as int)) by {
                    assert(is_drawn(text@[k as int]));
                }
                self.draw_glyph(&font.glyphs[index], x as i64 + curr_x as i64, y as i64 + curr_y as i64);
                curr_x += 16;
            }
            assert forall|px: int, py: int|
                0 <= px < width && 0 <= py < height implies #[trigger] pixel(self@, width, px, py)
                == if text_lit(*font, text@, k + 1, x as int, y as int, px, py) {
                seq![255u8, 255u8, 255u8, 255u8]
            } else {
                pixel(start, width, px, py)
            } by {
                assert(pixel(before, width, px, py) == if text_lit(
                    *font,
                    text@,
                    k as int,
                    x as int,
                    y as int,
                    px,
                    py,
                ) {
                    seq![255u8, 255u8, 255u8, 255u8]
                } else {
                    pixel(start, width, px, py)
                });
                let at = wrapped(cursor_after(text@, k as int), c);
                if is_drawn(c) {
                    let index = glyph_index(*font, c)->0;
                    assert(pixel(self@, width, px, py) == if glyph_lit(
                        font.glyphs@[index]@,
                        font.glyphs@[index]@.len() as int,
                        x + at.0,
                        y + at.1,
                        px,
                        py,
                    ) {
                        seq![255u8, 255u8, 255u8, 255u8]
                    } else {
                        pixel(before, width, px, py)
                    });
                }
            }
            k += 1;
        }
        (curr_x, curr_y)
    }

    /// Draws the terminal's text from the first pixel on, and the cursor as a
    /// white square behind it in the second half of every half second.
    pub fn draw_terminal(&mut self, font: &Font, buffer: &str, time: u64)
        requires
            old(self).wf(),
            font.covers(buffer@),
            Self::reaches(buffer@),
            time % 500 > 250 ==> cursor_after(buffer@, buffer@.len() as int).1 + 16 <= i32::MAX,
        ensures
            final(self).wf(),
            final(self).width() == old(self).width(),
            final(self).height() == old(self).height(),
            is_lit(
                old(self)@,
                final(self)@,
                old(self).width(),
                old(self).height(),
                |px: int, py: int|
                    text_lit(*font, buffer@, buffer@.len() as int, 0, 0, px, py) || (time % 500 > 250
                        && cursor_after(buffer@, buffer@.len() as int).0 <= px < cursor_after(
                        buffer@,
                        buffer@.len() as int,
                    ).0 + 16 && cursor_after(buffer@, buffer@.len() as int).1 <= py < cursor_after(
                        buffer@,
                        buffer@.len() as int,
                    ).1 + 16),
            ),
    {
        let ghost width = self.width();
        let ghost height = self.height();
        let ghost start = self@;
        proof {
            lemma_cursor_bounds(buffer@, buffer@.len() as int);
        }
        let (x, y) = self.draw_text(font, buffer, 0, 0);
        let ghost drawn = self@;
        if time % 500 > 250 {
            self.rect(x, y, 16, 16, white());
        }
        assert forall|px: int, py: int|
            0 <= px < width && 0 <= py < height implies #[trigger] pixel(self@, width, px, py)
            == if text_lit(*font, buffer@, buffer@.len() as int, 0, 0, px, py) || (time % 500 > 250
            && x <= px < x + 16 && y <= py < y + 16) {
            seq![255u8, 255u8, 255u8, 255u8]
        } else {
            pixel(start, width, px, py)
        } by {
            assert(pixel(drawn, width, px, py) == if text_lit(
                *font,
                buffer@,
                buffer@.len() as int,
                0,
                0,
                px,
                py,
            ) {
                seq![255u8, 255u8, 255u8, 255u8]
            } else {
                pixel(start, width, px, py)
            });
            if time % 500 > 250 {
                assert(pixel(self@, width, px, py) == filled(
                    drawn,
                    width,
                    px,
                    py,
                    x as int,
                    y as int,
                    16,
                    16,
                    seq![255u8, 255u8, 255u8, 255u8],
                ));
            }
        }
    }
}

} // verus!
