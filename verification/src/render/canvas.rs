use vstd::prelude::*;
use crate::text::{decimal, push_char, push_decimal, push_str};

verus! {

/// Terminal capability tiers, ordered from DEC VT-100 (ASCII, monochrome)
/// up to 24-bit true colour.
#[derive(Debug, Clone, Copy, PartialEq, Eq, Structural)]
pub enum TerminalCapability {
    /// DEC VT-100: ASCII + bold/reverse/underline, no colour.
    Vt100,
    /// DEC VT-220: VT-100 + 132-column mode + ISO Latin-1.
    Vt220,
    /// ANSI 8-colour; Unicode block graphics enabled.
    Ansi8,
    /// xterm 256-colour.
    Color256,
    /// 24-bit true colour.
    TrueColor,
}

/// Position of a tier in the order `Vt100 < Vt220 < Ansi8 < Color256 < TrueColor`.
pub open spec fn tier_rank(c: TerminalCapability) -> nat {
    match c {
        TerminalCapability::Vt100 => 0,
        TerminalCapability::Vt220 => 1,
        TerminalCapability::Ansi8 => 2,
        TerminalCapability::Color256 => 3,
        TerminalCapability::TrueColor => 4,
    }
}

impl TerminalCapability {
    /// Rank of the tier in the capability order (0 = VT-100, 4 = true colour).
    pub fn rank(self) -> (r: u8)
        ensures
            r == tier_rank(self),
    {
        match self {
            TerminalCapability::Vt100 => 0,
            TerminalCapability::Vt220 => 1,
            TerminalCapability::Ansi8 => 2,
            TerminalCapability::Color256 => 3,
            TerminalCapability::TrueColor => 4,
        }
    }

    /// VT-100 or VT-220 (monochrome, ASCII rendering).
    pub fn is_vt_legacy(self) -> (b: bool)
        ensures
            b <==> tier_rank(self) <= 1,
    {
        match self {
            TerminalCapability::Vt100 | TerminalCapability::Vt220 => true,
            _ => false,
        }
    }

    /// ANSI 8-colour and above render Unicode.
    pub fn supports_unicode(self) -> (b: bool)
        ensures
            b <==> tier_rank(self) >= 2,
    {
        self.rank() >= 2
    }

    /// ANSI 8-colour and above render `▀` half-block pixels.
    pub fn supports_half_block(self) -> (b: bool)
        ensures
            b <==> tier_rank(self) >= 2,
    {
        self.rank() >= 2
    }

    /// Only the true-colour tier takes 24-bit colour escapes.
    pub fn supports_true_colour(self) -> (b: bool)
        ensures
            b <==> self == TerminalCapability::TrueColor,
    {
        match self {
            TerminalCapability::TrueColor => true,
            _ => false,
        }
    }

    /// Whether this terminal can switch to 132-column mode (VT-220 only).
    pub fn supports_132col(self) -> (b: bool)
        ensures
            b <==> self == TerminalCapability::Vt220,
    {
        match self {
            TerminalCapability::Vt220 => true,
            _ => false,
        }
    }

    /// ESC sequence to enter 132-column mode (VT-220 only).
    pub fn enter_132col() -> (s: &'static str)
        ensures
            s@ == "\x1b[?3h"@,
    {
        "\x1b[?3h"
    }

    /// ESC sequence to leave 132-column mode.
    pub fn leave_132col() -> (s: &'static str)
        ensures
            s@ == "\x1b[?3l"@,
    {
        "\x1b[?3l"
    }

    /// Human-readable name of the tier.
    pub fn label(self) -> (s: &'static str)
        ensures
            s@ == capability_label(self),
    {
        match self {
            TerminalCapability::Vt100 => "VT-100 (ASCII, monochrome)",
            TerminalCapability::Vt220 => "VT-220 (ASCII, 132-col, ISO Latin-1)",
            TerminalCapability::Ansi8 => "ANSI 8-colour",
            TerminalCapability::Color256 => "xterm 256-colour",
            TerminalCapability::TrueColor => "24-bit true colour",
        }
    }
}

/// Name of each tier as shown in diagnostics.
pub open spec fn capability_label(c: TerminalCapability) -> Seq<char> {
    match c {
        TerminalCapability::Vt100 => "VT-100 (ASCII, monochrome)"@,
        TerminalCapability::Vt220 => "VT-220 (ASCII, 132-col, ISO Latin-1)"@,
        TerminalCapability::Ansi8 => "ANSI 8-colour"@,
        TerminalCapability::Color256 => "xterm 256-colour"@,
        TerminalCapability::TrueColor => "24-bit true colour"@,
    }
}

// ── Color type ────────────────────────────────────────────────────────────────

/// A colour value that degrades gracefully to any terminal capability.
#[derive(Debug, Clone, Copy, PartialEq, Eq, Structural)]
pub struct Color {
    pub r: u8,
    pub g: u8,
    pub b: u8,
}

/// `ESC[38;2;R;G;Bm` — true-colour foreground.
pub open spec fn ansi_fg_seq(c: Color) -> Seq<char> {
    "\x1b[38;2;"@ + decimal(c.r as nat) + seq![';'] + decimal(c.g as nat) + seq![';'] + decimal(c.b as nat) + seq!['m']
}

/// `ESC[48;2;R;G;Bm` — true-colour background.
pub open spec fn ansi_bg_seq(c: Color) -> Seq<char> {
    "\x1b[48;2;"@ + decimal(c.r as nat) + seq![';'] + decimal(c.g as nat) + seq![';'] + decimal(c.b as nat) + seq!['m']
}

/// ANSI 8-colour index chosen by [`Color::ansi8_fg`]: black when dark, then
/// the first of red, green, yellow, blue, magenta, cyan whose channel rule
/// fits, else white.
pub open spec fn ansi8_fg_index(c: Color) -> int {
    if c.r + c.g + c.b < 60 {
        0
    } else if c.r > 150 && c.g < 100 && c.b < 100 {
        1
    } else if c.g > 150 && c.r < 100 && c.b < 100 {
        2
    } else if c.r > 150 && c.g > 150 && c.b < 100 {
        3
    } else if c.b > 150 && c.r < 100 && c.g < 100 {
        4
    } else if c.r > 150 && c.b > 150 && c.g < 100 {
        5
    } else if c.g > 150 && c.b > 150 && c.r < 100 {
        6
    } else {
        7
    }
}

/// `ESC[3Nm` for ANSI colour `N`.
pub open spec fn ansi8_fg_seq(i: int) -> Seq<char> {
    if i == 0 {
        "\x1b[30m"@
    } else if i == 1 {
        "\x1b[31m"@
    } else if i == 2 {
        "\x1b[32m"@
    } else if i == 3 {
        "\x1b[33m"@
    } else if i == 4 {
        "\x1b[34m"@
    } else if i == 5 {
        "\x1b[35m"@
    } else if i == 6 {
        "\x1b[36m"@
    } else {
        "\x1b[37m"@
    }
}

/// The ANSI 8-colour foreground names a colour's hue: a dark colour (channel
/// sum under 60) is black `ESC[30m`; a colour strong (over 150) in some
/// channels and weak (under 100) in the others is red 31, green 32, yellow 33,
/// blue 34, magenta 35 or cyan 36 by its strong channels; any other colour is
/// white `ESC[37m`.
pub proof fn lemma_ansi8_fg_names_hue(c: Color)
    ensures
        c.r + c.g + c.b < 60 ==> ansi8_fg_seq(ansi8_fg_index(c)) == "\x1b[30m"@,
        c.r > 150 && c.g < 100 && c.b < 100 ==> ansi8_fg_seq(ansi8_fg_index(c)) == "\x1b[31m"@,
        c.g > 150 && c.r < 100 && c.b < 100 ==> ansi8_fg_seq(ansi8_fg_index(c)) == "\x1b[32m"@,
        c.r > 150 && c.g > 150 && c.b < 100 ==> ansi8_fg_seq(ansi8_fg_index(c)) == "\x1b[33m"@,
        c.b > 150 && c.r < 100 && c.g < 100 ==> ansi8_fg_seq(ansi8_fg_index(c)) == "\x1b[34m"@,
        c.r > 150 && c.b > 150 && c.g < 100 ==> ansi8_fg_seq(ansi8_fg_index(c)) == "\x1b[35m"@,
        c.g > 150 && c.b > 150 && c.r < 100 ==> ansi8_fg_seq(ansi8_fg_index(c)) == "\x1b[36m"@,
        !(c.r + c.g + c.b < 60) && !(c.r > 150 && c.g < 100 && c.b < 100) && !(c.g > 150 && c.r < 100 && c.b
            < 100) && !(c.r > 150 && c.g > 150 && c.b < 100) && !(c.b > 150 && c.r < 100 && c.g < 100) && !(c.r
            > 150 && c.b > 150 && c.g < 100) && !(c.g > 150 && c.b > 150 && c.r < 100) ==> ansi8_fg_seq(
            ansi8_fg_index(c),
        ) == "\x1b[37m"@,
{
}

/// Level (0–9) of the 10-step VT gradient for a luminance.
pub open spec fn ascii_level(lum: int) -> int {
    lum * 9 / 255
}

impl Color {
    pub fn new(r: u8, g: u8, b: u8) -> (c: Self)
        ensures
            c == (Color { r, g, b }),
    {
        Color { r, g, b }
    }

    /// Black.
    pub fn black() -> (c: Color)
        ensures
            c == (Color { r: 0, g: 0, b: 0 }),
    {
        Color { r: 0, g: 0, b: 0 }
    }

    /// White.
    pub fn white() -> (c: Color)
        ensures
            c == (Color { r: 255, g: 255, b: 255 }),
    {
        Color { r: 255, g: 255, b: 255 }
    }

    /// Ocean blue.
    pub fn ocean() -> (c: Color)
        ensures
            c == (Color { r: 20, g: 60, b: 170 }),
    {
        Color { r: 20, g: 60, b: 170 }
    }

    /// Land green.
    pub fn land() -> (c: Color)
        ensures
            c == (Color { r: 60, g: 140, b: 40 }),
    {
        Color { r: 60, g: 140, b: 40 }
    }

    /// Graticule cyan.
    pub fn grid() -> (c: Color)
        ensures
            c == (Color { r: 30, g: 200, b: 240 }),
    {
        Color { r: 30, g: 200, b: 240 }
    }

    /// Gold of the special parallels.
    pub fn gold() -> (c: Color)
        ensures
            c == (Color { r: 255, g: 220, b: 0 }),
    {
        Color { r: 255, g: 220, b: 0 }
    }

    /// Background (near-black blue).
    pub fn bg() -> (c: Color)
        ensures
            c == (Color { r: 4, g: 4, b: 18 }),
    {
        Color { r: 4, g: 4, b: 18 }
    }

    /// ANSI true-colour foreground escape.
    pub fn ansi_fg(self) -> (s: String)
        ensures
            s@ == ansi_fg_seq(self),
    {
        let mut s = String::new();
        push_str(&mut s, "\x1b[38;2;");
        push_rgb_tail(&mut s, self);
        proof {
            assert(s@ =~= ansi_fg_seq(self));
        }
        s
    }

    /// ANSI true-colour background escape.
    pub fn ansi_bg(self) -> (s: String)
        ensures
            s@ == ansi_bg_seq(self),
    {
        let mut s = String::new();
        push_str(&mut s, "\x1b[48;2;");
        push_rgb_tail(&mut s, self);
        proof {
            assert(s@ =~= ansi_bg_seq(self));
        }
        s
    }

    /// Nearest ANSI 8-colour foreground escape.
    pub fn ansi8_fg(self) -> (s: &'static str)
        ensures
            s@ == ansi8_fg_seq(ansi8_fg_index(self)),
    {
        let lum = self.r as u16 + self.g as u16 + self.b as u16;
        if lum < 60 {
            return "\x1b[30m";
        }
        if self.r > 150 && self.g < 100 && self.b < 100 {
            return "\x1b[31m";
        }
        if self.g > 150 && self.r < 100 && self.b < 100 {
            return "\x1b[32m";
        }
        if self.r > 150 && self.g > 150 && self.b < 100 {
            return "\x1b[33m";
        }
        if self.b > 150 && self.r < 100 && self.g < 100 {
            return "\x1b[34m";
        }
        if self.r > 150 && self.b > 150 && self.g < 100 {
            return "\x1b[35m";
        }
        if self.g > 150 && self.b > 150 && self.r < 100 {
            return "\x1b[36m";
        }
        "\x1b[37m"
    }

    /// Character of the 10-step VT-100 / VT-220 luminance gradient
    /// `' ' . : + o 0 # @ █ ■` for a colour of luminance `lum`.  The luminance
    /// (0.299 R + 0.587 G + 0.114 B, truncated) is computed by the caller in
    /// floating point.
    pub fn ascii_shade(lum: u8) -> (c: char)
        ensures
            c == vt_glyph(ascii_level(lum as int)),
            0 <= ascii_level(lum as int) <= 9,
    {
        let level = (lum as u32 * 9) / 255;
        vt_glyph_for_level(level as u8)
    }
}

/// Appends `R;G;Bm`.
fn push_rgb_tail(s: &mut String, c: Color)
    ensures
        final(s)@ == old(s)@ + decimal(c.r as nat) + seq![';'] + decimal(c.g as nat) + seq![';']
            + decimal(c.b as nat) + seq!['m'],
{
    push_decimal(s, c.r as u32);
    push_char(s, ';');
    push_decimal(s, c.g as u32);
    push_char(s, ';');
    push_decimal(s, c.b as u32);
    push_char(s, 'm');
    proof {
        assert(final(s)@ =~= old(s)@ + decimal(c.r as nat) + seq![';'] + decimal(c.g as nat) + seq![';']
            + decimal(c.b as nat) + seq!['m']);
    }
}

/// The 10-step VT-100 / VT-220 luminance gradient `' ' . : + o 0 # @ █ ■`,
/// darkest first.
pub open spec fn vt_glyph(level: int) -> char {
    if level <= 0 {
        ' '
    } else if level == 1 {
        '.'
    } else if level == 2 {
        ':'
    } else if level == 3 {
        '+'
    } else if level == 4 {
        'o'
    } else if level == 5 {
        '0'
    } else if level == 6 {
        '#'
    } else if level == 7 {
        '@'
    } else if level == 8 {
        '█'
    } else {
        '■'
    }
}

/// Character of the VT gradient at `level` (0–9).
fn vt_glyph_for_level(level: u8) -> (c: char)
    requires
        level <= 9,
    ensures
        c == vt_glyph(level as int),
{
    match level {
        0 => ' ',
        1 => '.',
        2 => ':',
        3 => '+',
        4 => 'o',
        5 => '0',
        6 => '#',
        7 => '@',
        8 => '█',
        _ => '■',
    }
}

// ── Canvas ────────────────────────────────────────────────────────────────────

/// Pixel canvas backed by half-block chars in colour mode, or ASCII shading
/// in VT-100 / VT-220 mode.
pub struct Canvas {
    pub pixel_width: usize,
    pub pixel_height: usize,
    pixels: Vec<Color>,
    pub capability: TerminalCapability,
}

/// Mathematical model of a [`Canvas`].
pub struct CanvasView {
    pub width: nat,
    pub height: nat,
    /// Pixels in row-major order.
    pub pixels: Seq<Color>,
    pub capability: TerminalCapability,
}

impl View for Canvas {
    type V = CanvasView;

    closed spec fn view(&self) -> CanvasView {
        CanvasView {
            width: self.pixel_width as nat,
            height: self.pixel_height as nat,
            pixels: self.pixels@,
            capability: self.capability,
        }
    }
}

/// Pixel grid height for `rows` terminal rows: half-block tiers get two
/// pixels per character row.
pub open spec fn canvas_height(rows: int, cap: TerminalCapability) -> int {
    if tier_rank(cap) >= 2 { 2 * rows } else { rows }
}

/// Number of terminal rows a canvas renders to.
pub open spec fn canvas_char_rows(c: CanvasView) -> int {
    if tier_rank(c.capability) >= 2 { c.height as int / 2 } else { c.height as int }
}

/// The pixel at `(x, y)`, or the background colour outside the canvas.
pub open spec fn pixel_at(c: CanvasView, x: int, y: int) -> Color {
    if 0 <= x < c.width && 0 <= y < c.height {
        c.pixels[y * c.width + x]
    } else {
        Color { r: 4, g: 4, b: 18 }
    }
}

/// One character cell of a rendered row.
///
/// True colour: foreground = top pixel, background = bottom pixel, `▀`.
/// 256/8-colour: nearest ANSI foreground of the top pixel, `▀`.
/// VT-100/220: the ASCII gradient character for the pixel's luminance
/// `lums[i]`, wrapped in bold on/off when the luminance exceeds 180.
pub open spec fn cell_text(c: CanvasView, lums: Seq<u8>, row: int, col: int) -> Seq<char> {
    match c.capability {
        TerminalCapability::TrueColor => ansi_fg_seq(pixel_at(c, col, 2 * row)) + ansi_bg_seq(
            pixel_at(c, col, 2 * row + 1),
        ) + seq!['▀'],
        TerminalCapability::Color256 | TerminalCapability::Ansi8 => ansi8_fg_seq(
            ansi8_fg_index(pixel_at(c, col, 2 * row)),
        ) + seq!['▀'],
        _ => {
            let lum = lums[row * c.width + col] as int;
            let bold = lum > 180;
            (if bold { "\x1b[1m"@ } else { Seq::<char>::empty() }) + seq![vt_glyph(ascii_level(lum))]
                + (if bold { "\x1b[22m"@ } else { Seq::<char>::empty() })
        },
    }
}

/// The first `n` cells of row `row`.
pub open spec fn row_cells(c: CanvasView, lums: Seq<u8>, row: int, n: nat) -> Seq<char>
    decreases n,
{
    if n == 0 {
        Seq::empty()
    } else {
        row_cells(c, lums, row, (n - 1) as nat) + cell_text(c, lums, row, n - 1)
    }
}

/// A rendered terminal row: every cell, then the attribute reset `ESC[0m`.
pub open spec fn row_text(c: CanvasView, lums: Seq<u8>, row: int) -> Seq<char> {
    row_cells(c, lums, row, c.width) + "\x1b[0m"@
}

impl Canvas {
    /// The pixel buffer matches the canvas dimensions.
    pub open spec fn wf(&self) -> bool {
        self@.pixels.len() == self@.width * self@.height
    }

    /// A `cols × rows` terminal canvas filled with the background colour.
    pub fn new(cols: usize, rows: usize, capability: TerminalCapability) -> (c: Self)
        requires
            cols * canvas_height(rows as int, capability) <= usize::MAX,
            canvas_height(rows as int, capability) <= usize::MAX,
        ensures
            c.wf(),
            c@.width == cols,
            c@.height == canvas_height(rows as int, capability),
            c@.capability == capability,
            forall|i: int| 0 <= i < c@.pixels.len() ==> c@.pixels[i] == Color::spec_bg(),
    {
        let (pw, ph) = if capability.supports_half_block() {
            (cols, rows * 2)
        } else {
            (cols, rows)  // VT-100/220: 1:1 char:pixel
        };
        let n = pw * ph;
        let mut pixels: Vec<Color> = Vec::new();
        let mut i: usize = 0;
        while i < n
            invariant
                i <= n,
                pixels@.len() == i,
                forall|j: int| 0 <= j < i ==> pixels@[j] == Color::spec_bg(),
            decreases n - i,
        {
            pixels.push(Color::bg());
            i = i + 1;
        }
        Canvas { pixel_width: pw, pixel_height: ph, pixels, capability }
    }

    /// The pixel buffer, row-major.
    pub fn pixels(&self) -> (p: &Vec<Color>)
        ensures
            p@ == self@.pixels,
    {
        &self.pixels
    }

    /// Paint one pixel; coordinates outside the canvas are ignored.
    pub fn set_pixel(&mut self, x: usize, y: usize, color: Color)
        requires
            old(self).wf(),
        ensures
            final(self).wf(),
            final(self)@.width == old(self)@.width,
            final(self)@.height == old(self)@.height,
            final(self)@.capability == old(self)@.capability,
            x < old(self)@.width && y < old(self)@.height ==> final(self)@.pixels
                == old(self)@.pixels.update(y * old(self)@.width + x, color),
            !(x < old(self)@.width && y < old(self)@.height) ==> final(self)@.pixels
                == old(self)@.pixels,
            final(self)@ == painted(old(self)@, x as int, y as int, color),
    {
        let len = self.pixels.len();
        if x < self.pixel_width && y < self.pixel_height {
            proof {
                lemma_grid_index(x as int, y as int, self.pixel_width as int, self.pixel_height as int);
            }
            self.pixels.set(y * self.pixel_width + x, color);
        }
    }

    /// The pixel at `(x, y)`, or the background colour outside the canvas.
    pub fn get_pixel(&self, x: usize, y: usize) -> (c: Color)
        requires
            self.wf(),
        ensures
            c == pixel_at(self@, x as int, y as int),
    {
        let len = self.pixels.len();
        if x < self.pixel_width && y < self.pixel_height {
            proof {
                lemma_grid_index(x as int, y as int, self.pixel_width as int, self.pixel_height as int);
            }
            self.pixels[y * self.pixel_width + x]
        } else {
            Color::bg()
        }
    }

    /// Render to one string per terminal row.
    ///
    /// `lums[i]` is the luminance of pixel `i` (row-major), computed by the
    /// caller in floating point; only the VT-100/220 tiers read it.
    pub fn render_rows(&self, lums: &Vec<u8>) -> (rows: Vec<String>)
        requires
            self.wf(),
            lums@.len() == self@.pixels.len(),
        ensures
            rows@.len() == canvas_char_rows(self@),
            forall|r: int| 0 <= r < rows@.len() ==> #[trigger] rows@[r]@ == row_text(self@, lums@, r),
    {
        let half = self.capability.supports_half_block();
        let char_rows = if half { self.pixel_height / 2 } else { self.pixel_height };
        let mut rows: Vec<String> = Vec::new();
        let mut row: usize = 0;
        while row < char_rows
            invariant
                self.wf(),
                lums@.len() == self@.pixels.len(),
                half == (tier_rank(self@.capability) >= 2),
                char_rows == canvas_char_rows(self@),
                row <= char_rows,
                rows@.len() == row,
                forall|r: int| 0 <= r < row ==> #[trigger] rows@[r]@ == row_text(self@, lums@, r),
            decreases char_rows - row,
        {
            let line = self.render_row(lums, row);
            rows.push(line);
            row = row + 1;
        }
        rows
    }

    /// One rendered terminal row.
    fn render_row(&self, lums: &Vec<u8>, row: usize) -> (line: String)
        requires
            self.wf(),
            lums@.len() == self@.pixels.len(),
            row < canvas_char_rows(self@),
        ensures
            line@ == row_text(self@, lums@, row as int),
    {
        let mut line = String::new();
        let mut col: usize = 0;
        while col < self.pixel_width
            invariant
                self.wf(),
                lums@.len() == self@.pixels.len(),
                row < canvas_char_rows(self@),
                col <= self.pixel_width,
                line@ == row_cells(self@, lums@, row as int, col as nat),
            decreases self.pixel_width - col,
        {
            let ghost before = line@;
            match self.capability {
                TerminalCapability::TrueColor => {
                    let top = self.get_pixel(col, row * 2);
                    let bot = self.get_pixel(col, row * 2 + 1);
                    push_str(&mut line, &top.ansi_fg());
                    push_str(&mut line, &bot.ansi_bg());
                    push_char(&mut line, '▀');
                },
                TerminalCapability::Color256 | TerminalCapability::Ansi8 => {
                    let top = self.get_pixel(col, row * 2);
                    push_str(&mut line, top.ansi8_fg());
                    push_char(&mut line, '▀');
                },
                _ => {
                    let len = lums.len();
                    proof {
                        lemma_grid_index(col as int, row as int, self.pixel_width as int, self.pixel_height as int);
                    }
                    let lum = lums[row * self.pixel_width + col];
                    if lum > 180 {
                        push_str(&mut line, "\x1b[1m");
                    }
                    push_char(&mut line, Color::ascii_shade(lum));
                    if lum > 180 {
                        push_str(&mut line, "\x1b[22m");
                    }
                },
            }
            proof {
                assert(line@ =~= before + cell_text(self@, lums@, row as int, col as int));
            }
            col = col + 1;
        }
        push_str(&mut line, "\x1b[0m");
        line
    }
}

impl Color {
    /// The background colour as a value.
    pub open spec fn spec_bg() -> Color {
        Color { r: 4, g: 4, b: 18 }
    }
}

/// The canvas after painting `(x, y)`: the pixel changes when it lies inside.
pub open spec fn painted(c: CanvasView, x: int, y: int, color: Color) -> CanvasView {
    if 0 <= x < c.width && 0 <= y < c.height {
        CanvasView { pixels: c.pixels.update(y * c.width + x, color), ..c }
    } else {
        c
    }
}

/// Reading a pixel back gives the colour just painted there; every other
/// pixel reads as before; painting outside the canvas changes nothing.
pub proof fn lemma_get_after_set(c: CanvasView, x: int, y: int, color: Color, x2: int, y2: int)
    requires
        c.pixels.len() == c.width * c.height,
    ensures
        pixel_at(painted(c, x, y, color), x2, y2) == if x2 == x && y2 == y && 0 <= x < c.width && 0
            <= y < c.height {
            color
        } else {
            pixel_at(c, x2, y2)
        },
{
    if 0 <= x < c.width && 0 <= y < c.height && 0 <= x2 < c.width && 0 <= y2 < c.height {
        lemma_grid_index(x, y, c.width as int, c.height as int);
        lemma_grid_index(x2, y2, c.width as int, c.height as int);
        if !(x2 == x && y2 == y) {
            lemma_grid_index_injective(x, y, x2, y2, c.width as int);
        }
    }
}

/// Different cells of a grid of width `w` have different indices.
proof fn lemma_grid_index_injective(x: int, y: int, x2: int, y2: int, w: int)
    requires
        0 <= x < w,
        0 <= x2 < w,
        0 <= y,
        0 <= y2,
        !(x == x2 && y == y2),
    ensures
        y * w + x != y2 * w + x2,
{
    if y == y2 {
    } else if y < y2 {
        assert(y * w + x < y2 * w + x2) by (nonlinear_arith)
            requires
                0 <= x < w,
                0 <= x2,
                y < y2,
        ;
    } else {
        assert(y2 * w + x2 < y * w + x) by (nonlinear_arith)
            requires
                0 <= x2 < w,
                0 <= x,
                y2 < y,
        ;
    }
}

/// `y·w + x` indexes a `w × h` grid inside its bounds.
proof fn lemma_grid_index(x: int, y: int, w: int, h: int)
    requires
        0 <= x < w,
        0 <= y < h,
    ensures
        0 <= y * w + x < w * h,
{
    assert(y * w + x < w * h) by (nonlinear_arith)
        requires
            0 <= x < w,
            0 <= y < h,
    ;
    assert(0 <= y * w) by (nonlinear_arith)
        requires
            0 <= y,
            0 <= w,
    ;
}

} // verus!
