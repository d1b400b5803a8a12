//! Terminal capability conversion tables — "upshifting" and "downshifting".
//!
//! A rendering pipeline produces output for a target capability tier; these
//! tables translate colours, characters and attributes so that output looks
//! as good as possible on the actual terminal:
//!
//! ```text
//!  TrueColor ──downshift──► Color256 ──► Ansi8 ──► Vt220 ──► Vt100
//! ```
//!
//! VT-100 has no colour, only attributes (bold, underline, reverse video);
//! the downshift to it goes by luminance.  The luminance of an arbitrary RGB
//! colour is computed by the caller in floating point and handed in.
use vstd::prelude::*;
use crate::render::canvas::{Color, TerminalCapability, ansi_fg_seq, ansi_bg_seq, tier_rank};
use crate::text::{decimal, push_char, push_decimal, push_str, char_string};

verus! {

// ── xterm-256 palette ─────────────────────────────────────────────────────────

/// The 16 standard ANSI colours.
pub open spec fn standard_rgb(i: int) -> (u8, u8, u8) {
    if i == 0 {
        (0, 0, 0)  // Black
    } else if i == 1 {
        (128, 0, 0)  // Dark Red
    } else if i == 2 {
        (0, 128, 0)  // Dark Green
    } else if i == 3 {
        (128, 128, 0)  // Dark Yellow
    } else if i == 4 {
        (0, 0, 128)  // Dark Blue
    } else if i == 5 {
        (128, 0, 128)  // Dark Magenta
    } else if i == 6 {
        (0, 128, 128)  // Dark Cyan
    } else if i == 7 {
        (192, 192, 192)  // Light Gray
    } else if i == 8 {
        (128, 128, 128)  // Dark Gray
    } else if i == 9 {
        (255, 0, 0)  // Red
    } else if i == 10 {
        (0, 255, 0)  // Green
    } else if i == 11 {
        (255, 255, 0)  // Yellow
    } else if i == 12 {
        (0, 0, 255)  // Blue
    } else if i == 13 {
        (255, 0, 255)  // Magenta
    } else if i == 14 {
        (0, 255, 255)  // Cyan
    } else if i == 15 {
        (255, 255, 255)  // White
    } else {
        (255, 255, 255)
    }
}

/// Channel value of cube level `n` (0–5): 0, then 55 + 40·n.
pub open spec fn cube_level(n: int) -> int {
    if n == 0 { 0 } else { 55 + 40 * n }
}

/// RGB values of the xterm-256 palette: slots 0–15 standard ANSI, 16–231 the
/// 6×6×6 cube (`i = 16 + 36r + 6g + b`), 232–255 the grey ramp `8 + 10k`.
pub open spec fn xterm256(i: int) -> (u8, u8, u8) {
    if i < 16 {
        standard_rgb(i)
    } else if i >= 232 {
        let v = 8 + 10 * (i - 232);
        (v as u8, v as u8, v as u8)
    } else {
        let j = i - 16;
        (cube_level(j / 36) as u8, cube_level((j / 6) % 6) as u8, cube_level(j % 6) as u8)
    }
}

/// RGB values for the 256-colour xterm palette.
pub fn xterm256_rgb(index: u8) -> (rgb: (u8, u8, u8))
    ensures
        rgb == xterm256(index as int),
{
    if index < 16 {
        return match index {
        0 => (0, 0, 0),
        1 => (128, 0, 0),
        2 => (0, 128, 0),
        3 => (128, 128, 0),
        4 => (0, 0, 128),
        5 => (128, 0, 128),
        6 => (0, 128, 128),
        7 => (192, 192, 192),
        8 => (128, 128, 128),
        9 => (255, 0, 0),
        10 => (0, 255, 0),
        11 => (255, 255, 0),
        12 => (0, 0, 255),
        13 => (255, 0, 255),
        14 => (0, 255, 255),
        _ => (255, 255, 255),
        };
    }
    if index >= 232 {
        let v: u16 = 8 + 10 * (index - 232) as u16;
        let v: u8 = if v < 255 { v as u8 } else { 255 };
        return (v, v, v);
    }
    // 6×6×6 cube
    let i = index - 16;
    let b = cube_val(i % 6);
    let g = cube_val((i / 6) % 6);
    let r = cube_val(i / 36);
    (r, g, b)
}

/// Channel value of a cube level.
fn cube_val(n: u8) -> (v: u8)
    requires
        n <= 5,
    ensures
        v == cube_level(n as int),
{
    if n == 0 { 0 } else { 55 + 40 * n }
}

// ── Colour distance (squared Euclidean in RGB space) ─────────────────────────

/// Squared Euclidean distance between two RGB colours.
pub open spec fn dist2(a: (u8, u8, u8), b: (u8, u8, u8)) -> int {
    (a.0 - b.0) * (a.0 - b.0) + (a.1 - b.1) * (a.1 - b.1) + (a.2 - b.2) * (a.2 - b.2)
}

/// Squared Euclidean distance between two RGB colours.
pub fn rgb_dist2(a: (u8, u8, u8), b: (u8, u8, u8)) -> (d: u32)
    ensures
        d == dist2(a, b),
{
    let dr = sq_diff(a.0, b.0);
    let dg = sq_diff(a.1, b.1);
    let db = sq_diff(a.2, b.2);
    dr + dg + db
}

fn sq_diff(x: u8, y: u8) -> (d: u32)
    ensures
        d == (x - y) * (x - y),
        d <= 255 * 255,
{
    let t = x as i32 - y as i32;
    assert(t * t <= 255 * 255) by (nonlinear_arith)
        requires
            -255 <= t <= 255,
    ;
    assert(0 <= t * t) by (nonlinear_arith);
    (t * t) as u32
}

// ── TrueColor → 256 ─────────────────────────────────────────────────────────

/// First index in `16..k` of a palette colour nearest to `q` (16 when the
/// range holds no more than slot 16).
pub open spec fn nearest_palette_upto(q: (u8, u8, u8), k: int) -> int
    decreases k,
{
    if k <= 17 {
        16
    } else {
        let prev = nearest_palette_upto(q, k - 1);
        if dist2(q, xterm256(k - 1)) < dist2(q, xterm256(prev)) { k - 1 } else { prev }
    }
}

/// The 256-colour index for `(r, g, b)`: the first palette slot from 16 on
/// whose colour is nearest.
pub open spec fn rgb_to_256_spec(r: u8, g: u8, b: u8) -> int {
    nearest_palette_upto((r, g, b), 256)
}

/// `nearest_palette_upto(q, k)` lies in `16..k`, is at least as near to `q` as
/// every slot of `16..k`, and strictly nearer than every slot before it.
proof fn lemma_nearest_palette(q: (u8, u8, u8), k: int)
    requires
        17 <= k,
    ensures
        16 <= nearest_palette_upto(q, k) < k,
        forall|j: int|
            16 <= j < k ==> dist2(q, xterm256(nearest_palette_upto(q, k))) <= dist2(q, #[trigger] xterm256(j)),
        forall|j: int|
            16 <= j < nearest_palette_upto(q, k) ==> dist2(q, xterm256(nearest_palette_upto(q, k))) < dist2(
                q,
                #[trigger] xterm256(j),
            ),
    decreases k,
{
    if k > 17 {
        lemma_nearest_palette(q, k - 1);
    }
}

/// Map a 24-bit RGB colour to the nearest xterm-256 palette index.
///
/// The search covers the 6×6×6 cube and the grey ramp (slots 16–255); the
/// standard 0–15 colours are never chosen.  Of several equally near slots the
/// first is taken.
pub fn rgb_to_256(r: u8, g: u8, b: u8) -> (idx: u8)
    ensures
        idx == rgb_to_256_spec(r, g, b),
        16 <= idx,
        forall|j: int|
            16 <= j < 256 ==> dist2((r, g, b), xterm256(idx as int)) <= dist2((r, g, b), #[trigger] xterm256(j)),
        forall|j: int|
            16 <= j < idx ==> dist2((r, g, b), xterm256(idx as int)) < dist2((r, g, b), #[trigger] xterm256(j)),
{
    let query = (r, g, b);
    let mut best: u8 = 16;
    let mut best_d: u32 = rgb_dist2(query, xterm256_rgb(16));
    let mut i: u16 = 17;
    while i < 256
        invariant
            17 <= i <= 256,
            query == (r, g, b),
            best == nearest_palette_upto(query, i as int),
            best_d == dist2(query, xterm256(best as int)),
        decreases 256 - i,
    {
        let d = rgb_dist2(query, xterm256_rgb(i as u8));
        if d < best_d {
            best = i as u8;
            best_d = d;
        }
        i = i + 1;
    }
    proof {
        lemma_nearest_palette(query, 256);
    }
    best
}

// ── 256 → 8 ─────────────────────────────────────────────────────────────────

/// Integer luminance `⌊(299 R + 587 G + 114 B) / 1000⌋`.
///
/// On the xterm-256 palette this decides "brighter by more than 30" exactly as
/// the floating-point luminance 0.299 R + 0.587 G + 0.114 B does; a test
/// compares the two on every palette index.
pub open spec fn palette_luma(c: (u8, u8, u8)) -> int {
    (299 * c.0 + 587 * c.1 + 114 * c.2) / 1000
}

/// First index in `0..k` of a standard colour nearest to `rgb`.
pub open spec fn nearest_standard_upto(rgb: (u8, u8, u8), k: int) -> int
    decreases k,
{
    if k <= 1 {
        0
    } else {
        let prev = nearest_standard_upto(rgb, k - 1);
        if dist2(rgb, xterm256(k - 1)) < dist2(rgb, xterm256(prev)) { k - 1 } else { prev }
    }
}

/// ANSI 8-colour index and bold flag for an xterm-256 index: slots 0–7 as is,
/// 8–15 as their dark twin in bold, others the first nearest of the eight
/// standard colours, bold when more than 30 brighter than it.
pub open spec fn idx256_to_ansi8_spec(idx: int) -> (u8, bool) {
    if idx < 8 {
        (idx as u8, false)
    } else if idx < 16 {
        ((idx - 8) as u8, true)
    } else {
        let rgb = xterm256(idx);
        let best = nearest_standard_upto(rgb, 8);
        (best as u8, palette_luma(rgb) > palette_luma(xterm256(best)) + 30)
    }
}

fn palette_luma_exec(c: (u8, u8, u8)) -> (l: u32)
    ensures
        l == palette_luma(c),
{
    (299 * c.0 as u32 + 587 * c.1 as u32 + 114 * c.2 as u32) / 1000
}

/// Map an xterm-256 index to an ANSI 8-colour index (0–7) and a bold flag.
pub fn idx256_to_ansi8(idx: u8) -> (res: (u8, bool))
    ensures
        res == idx256_to_ansi8_spec(idx as int),
        res.0 < 8,
{
    if idx < 8 {
        return (idx, false);
    }
    if idx < 16 {
        return (idx - 8, true);
    }
    let rgb = xterm256_rgb(idx);
    // First of the nearest standard colours 0–7.
    let mut best: u8 = 0;
    let mut best_d: u32 = rgb_dist2(rgb, xterm256_rgb(0));
    let mut i: u8 = 1;
    while i < 8
        invariant
            1 <= i <= 8,
            rgb == xterm256(idx as int),
            best == nearest_standard_upto(rgb, i as int),
            best < i,
            best_d == dist2(rgb, xterm256(best as int)),
        decreases 8 - i,
    {
        let d = rgb_dist2(rgb, xterm256_rgb(i));
        if d < best_d {
            best = i;
            best_d = d;
        }
        i = i + 1;
    }
    let src_lum = palette_luma_exec(rgb);
    let dst_lum = palette_luma_exec(xterm256_rgb(best));
    (best, src_lum > dst_lum + 30)
}

// ── TrueColor → 8 ────────────────────────────────────────────────────────────

/// Map a 24-bit RGB colour directly to ANSI 8-colour + bold.
pub fn rgb_to_ansi8(r: u8, g: u8, b: u8) -> (res: (u8, bool))
    ensures
        res == idx256_to_ansi8_spec(rgb_to_256_spec(r, g, b)),
        res.0 < 8,
{
    idx256_to_ansi8(rgb_to_256(r, g, b))
}

// ── TrueColor / 8-colour → VT-100 attributes ─────────────────────────────────

/// VT-100 text attribute set (no colour — only bold, underline, reverse).
#[derive(Debug, Clone, Copy, Default, PartialEq, Eq, Structural)]
pub struct Vt100Attr {
    pub bold: bool,
    pub underline: bool,
    pub reverse: bool,
}

/// `ESC[0` then `;1` for bold, `;4` for underline, `;7` for reverse, then `m`.
pub open spec fn vt100_escape(a: Vt100Attr) -> Seq<char> {
    "\x1b[0"@ + (if a.bold { ";1"@ } else { Seq::<char>::empty() }) + (if a.underline {
        ";4"@
    } else {
        Seq::<char>::empty()
    }) + (if a.reverse { ";7"@ } else { Seq::<char>::empty() }) + seq!['m']
}

impl Vt100Attr {
    /// Emit the minimal escape sequence to apply this attribute set.
    /// Always resets first so states don't accumulate.
    pub fn escape_str(self) -> (s: String)
        ensures
            s@ == vt100_escape(self),
    {
        let mut s = String::new();
        push_str(&mut s, "\x1b[0");
        let ghost s0 = s@;
        if self.bold {
            push_str(&mut s, ";1");
        }
        let ghost s1 = s@;
        if self.underline {
            push_str(&mut s, ";4");
        }
        let ghost s2 = s@;
        if self.reverse {
            push_str(&mut s, ";7");
        }
        push_char(&mut s, 'm');
        proof {
            assert(s0 =~= "\x1b[0"@);
            assert(s@ =~= vt100_escape(self));
        }
        s
    }
}

/// Map a colour of luminance `lum` to VT-100 attributes for monochrome
/// rendering: bold when brighter than 140.
pub fn rgb_to_vt100(lum: u8) -> (a: Vt100Attr)
    ensures
        a == (Vt100Attr { bold: lum > 140, underline: false, reverse: false }),
{
    Vt100Attr { bold: lum > 140, underline: false, reverse: false }
}

/// VT-100 attributes for a *selected* (highlighted) cell of luminance `lum`:
/// reverse video on top of the normal mapping.
pub fn rgb_to_vt100_selected(lum: u8) -> (a: Vt100Attr)
    ensures
        a == (Vt100Attr { bold: lum > 140, underline: false, reverse: true }),
{
    let mut attr = rgb_to_vt100(lum);
    attr.reverse = true;
    attr
}

// ── Character downshift ───────────────────────────────────────────────────────

/// DEC Special Graphics equivalent of a Unicode box-drawing character.
pub open spec fn box_to_dec(ch: char) -> Option<char> {
    if ch == '─' || ch == '━' {
        Some('q')
    } else if ch == '│' || ch == '┃' {
        Some('x')
    } else if ch == '┌' || ch == '┏' {
        Some('l')
    } else if ch == '┐' || ch == '┓' {
        Some('k')
    } else if ch == '└' || ch == '┗' {
        Some('m')
    } else if ch == '┘' || ch == '┛' {
        Some('j')
    } else if ch == '┼' || ch == '╋' {
        Some('n')
    } else if ch == '├' || ch == '┣' {
        Some('t')
    } else if ch == '┤' || ch == '┫' {
        Some('u')
    } else if ch == '┬' || ch == '┳' {
        Some('w')
    } else if ch == '┴' || ch == '┻' {
        Some('v')
    } else {
        None
    }
}

/// ASCII fallback of a Unicode box-drawing or block character.
pub open spec fn box_to_ascii(ch: char) -> char {
    if ch == '─' || ch == '━' || ch == '═' {
        '-'
    } else if ch == '│' || ch == '┃' || ch == '║' {
        '|'
    } else if ch == '┌' || ch == '┏' || ch == '╔' || ch == '╭' {
        '+'
    } else if ch == '┐' || ch == '┓' || ch == '╗' || ch == '╮' {
        '+'
    } else if ch == '└' || ch == '┗' || ch == '╚' || ch == '╰' {
        '+'
    } else if ch == '┘' || ch == '┛' || ch == '╝' || ch == '╯' {
        '+'
    } else if ch == '┼' || ch == '╋' || ch == '╬' {
        '+'
    } else if ch == '├' || ch == '┣' || ch == '╠' {
        '+'
    } else if ch == '┤' || ch == '┫' || ch == '╣' {
        '+'
    } else if ch == '┬' || ch == '┳' || ch == '╦' {
        '+'
    } else if ch == '┴' || ch == '┻' || ch == '╩' {
        '+'
    } else if ch == '▀' || ch == '▄' || ch == '█' {
        '#'
    } else if ch == '◉' || ch == '●' || ch == '◎' {
        'O'
    } else if ch == '▸' || ch == '►' {
        '>'
    } else if ch == '·' || ch == '•' {
        '.'
    } else {
        ch
    }
}

/// The ASCII fallback is settled after one step: a character that has a
/// fallback becomes one of `- | + # O > .`, which are their own fallback, and
/// every other character is kept as it is.
pub proof fn lemma_box_to_ascii_settles(ch: char)
    ensures
        box_to_ascii(box_to_ascii(ch)) == box_to_ascii(ch),
        box_to_ascii(ch) == ch || box_to_ascii(ch) == '-' || box_to_ascii(ch) == '|' || box_to_ascii(ch)
            == '+' || box_to_ascii(ch) == '#' || box_to_ascii(ch) == 'O' || box_to_ascii(ch) == '>'
            || box_to_ascii(ch) == '.',
        box_to_ascii(ch) != ch ==> (box_to_ascii(ch) as u32) < 128,
{
}

/// Map a Unicode box-drawing character to its DEC line-drawing equivalent
/// (sent in DEC Special Character mode, `ESC(0`); `None` without a mapping.
pub fn unicode_box_to_dec(ch: char) -> (r: Option<char>)
    ensures
        r == box_to_dec(ch),
{
    match ch {
        '─' | '━' => Some('q'),
        '│' | '┃' => Some('x'),
        '┌' | '┏' => Some('l'),
        '┐' | '┓' => Some('k'),
        '└' | '┗' => Some('m'),
        '┘' | '┛' => Some('j'),
        '┼' | '╋' => Some('n'),
        '├' | '┣' => Some('t'),
        '┤' | '┫' => Some('u'),
        '┬' | '┳' => Some('w'),
        '┴' | '┻' => Some('v'),
        _ => None,
    }
}

/// Map a Unicode box-drawing character to an ASCII fallback.
pub fn unicode_box_to_ascii(ch: char) -> (r: char)
    ensures
        r == box_to_ascii(ch),
{
    match ch {
        '─' | '━' | '═' => '-',
        '│' | '┃' | '║' => '|',
        '┌' | '┏' | '╔' | '╭' => '+',
        '┐' | '┓' | '╗' | '╮' => '+',
        '└' | '┗' | '╚' | '╰' => '+',
        '┘' | '┛' | '╝' | '╯' => '+',
        '┼' | '╋' | '╬' => '+',
        '├' | '┣' | '╠' => '+',
        '┤' | '┫' | '╣' => '+',
        '┬' | '┳' | '╦' => '+',
        '┴' | '┻' | '╩' => '+',
        '▀' | '▄' | '█' => '#',
        '◉' | '●' | '◎' => 'O',
        '▸' | '►' => '>',
        '·' | '•' => '.',
        _ => ch,
    }
}

/// Character used for `ch` on a terminal of tier `target`.
pub open spec fn downshift(ch: char, target: TerminalCapability) -> char {
    if tier_rank(target) >= 2 {
        ch
    } else {
        match box_to_dec(ch) {
            Some(d) => d,
            None => box_to_ascii(ch),
        }
    }
}

/// Downshift a character for a target capability tier: unchanged from ANSI
/// 8-colour up, else its DEC line-drawing form, else its ASCII fallback.
pub fn downshift_char(ch: char, target: TerminalCapability) -> (s: String)
    ensures
        s@ == seq![downshift(ch, target)],
{
    if target.rank() >= 2 {
        return char_string(ch);
    }
    // VT-100 / VT-220: try DEC line drawing first, then ASCII
    if let Some(dec) = unicode_box_to_dec(ch) {
        // Caller must wrap in ESC(0 / ESC(B
        return char_string(dec);
    }
    char_string(unicode_box_to_ascii(ch))
}

// ── Colour capability shift (high-level) ─────────────────────────────────────

/// `prefix` + decimal `n` + `m`.
pub open spec fn sgr(prefix: Seq<char>, n: int) -> Seq<char> {
    prefix + decimal(n as nat) + seq!['m']
}

/// Foreground escape for `color` on `target`: 24-bit, 256-colour index,
/// ANSI 8 (bold when brighter than its ANSI colour), or VT-100 attributes.
pub open spec fn fg_escape(color: Color, target: TerminalCapability, lum: int) -> Seq<char> {
    match target {
        TerminalCapability::TrueColor => ansi_fg_seq(color),
        TerminalCapability::Color256 => sgr(
            "\x1b[38;5;"@,
            rgb_to_256_spec(color.r, color.g, color.b),
        ),
        TerminalCapability::Ansi8 => {
            let (ansi, bold) = idx256_to_ansi8_spec(rgb_to_256_spec(color.r, color.g, color.b));
            if bold { sgr("\x1b[1;"@, 30 + ansi) } else { sgr("\x1b["@, 30 + ansi) }
        },
        _ => vt100_escape(Vt100Attr { bold: lum > 140, underline: false, reverse: false }),
    }
}

/// Background escape for `color` on `target`; on VT-100 reverse video stands
/// in for a background of luminance 50 or more.
pub open spec fn bg_escape(color: Color, target: TerminalCapability, lum: int) -> Seq<char> {
    match target {
        TerminalCapability::TrueColor => ansi_bg_seq(color),
        TerminalCapability::Color256 => sgr(
            "\x1b[48;5;"@,
            rgb_to_256_spec(color.r, color.g, color.b),
        ),
        TerminalCapability::Ansi8 => {
            let (ansi, bold) = idx256_to_ansi8_spec(rgb_to_256_spec(color.r, color.g, color.b));
            if bold { sgr("\x1b[1;"@, 40 + ansi) } else { sgr("\x1b["@, 40 + ansi) }
        },
        _ => if lum < 50 { "\x1b[0m"@ } else { "\x1b[7m"@ },
    }
}

fn sgr_string(prefix: &str, n: u32) -> (s: String)
    ensures
        s@ == sgr(prefix@, n as int),
{
    let mut s = String::new();
    push_str(&mut s, prefix);
    push_decimal(&mut s, n);
    push_char(&mut s, 'm');
    proof {
        assert(s@ =~= sgr(prefix@, n as int));
    }
    s
}

/// Render a foreground colour as the best ANSI escape for `target` — the main
/// colour downshift entry point used by the renderer.
///
/// `lum` is the colour's luminance 0.299 R + 0.587 G + 0.114 B truncated,
/// computed by the caller in floating point; only VT-100 reads it.
pub fn color_fg_escape(color: Color, target: TerminalCapability, lum: u8) -> (s: String)
    ensures
        s@ == fg_escape(color, target, lum as int),
{
    match target {
        TerminalCapability::TrueColor => color.ansi_fg(),
        TerminalCapability::Color256 => {
            let idx = rgb_to_256(color.r, color.g, color.b);
            sgr_string("\x1b[38;5;", idx as u32)
        },
        TerminalCapability::Ansi8 => {
            let (ansi, bold) = rgb_to_ansi8(color.r, color.g, color.b);
            if bold {
                sgr_string("\x1b[1;", 30 + ansi as u32)
            } else {
                sgr_string("\x1b[", 30 + ansi as u32)
            }
        },
        TerminalCapability::Vt100 | TerminalCapability::Vt220 => { rgb_to_vt100(lum).escape_str() },
    }
}

/// Render a background colour as the best ANSI escape for `target`.
pub fn color_bg_escape(color: Color, target: TerminalCapability, lum: u8) -> (s: String)
    ensures
        s@ == bg_escape(color, target, lum as int),
{
    match target {
        TerminalCapability::TrueColor => color.ansi_bg(),
        TerminalCapability::Color256 => {
            let idx = rgb_to_256(color.r, color.g, color.b);
            sgr_string("\x1b[48;5;", idx as u32)
        },
        TerminalCapability::Ansi8 => {
            let (ansi, bold) = rgb_to_ansi8(color.r, color.g, color.b);
            if bold {
                sgr_string("\x1b[1;", 40 + ansi as u32)
            } else {
                sgr_string("\x1b[", 40 + ansi as u32)
            }
        },
        TerminalCapability::Vt100 | TerminalCapability::Vt220 => {
            // No background colour on VT-100; use reverse video for dark BG
            if lum < 50 {
                crate::text::string_from("\x1b[0m")
            } else {
                crate::text::string_from("\x1b[7m")
            }
        },
    }
}

} // verus!
