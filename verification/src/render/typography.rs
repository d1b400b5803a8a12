//! Golden-ratio typography and layout for console rendering.
//!
//! The golden ratio φ = (1 + √5) / 2 splits the terminal: the secondary
//! column is `cols / φ` wide, the main content `rows / φ` tall, and the globe
//! is inscribed with radius `min(cols, 2·rows) · (1/φ) · 0.95` half-block
//! pixels.  Every one of these is a real number of the form
//! `k · (√5 − 1) / d`; the layout rounds it to the nearest integer, which is
//! characterised here exactly in integer arithmetic (`n − ½ < v ≤ n + ½`
//! becomes a comparison of squares against `5·k²`).
use vstd::prelude::*;

verus! {

/// The 10-step sfumato gradient ` .`'-:+o0#`, darkest first.
pub open spec fn shade_glyph(level: int) -> char {
    if level <= 0 {
        ' '
    } else if level == 1 {
        '.'
    } else if level == 2 {
        '`'
    } else if level == 3 {
        '\''
    } else if level == 4 {
        '-'
    } else if level == 5 {
        ':'
    } else if level == 6 {
        '+'
    } else if level == 7 {
        'o'
    } else if level == 8 {
        '0'
    } else {
        '#'
    }
}

/// Character of the sfumato gradient at `level` (0–9).
pub fn glyph_for_level(level: u8) -> (c: char)
    requires
        level <= 9,
    ensures
        c == shade_glyph(level as int),
{
    match level {
        0 => ' ',
        1 => '.',
        2 => '`',
        3 => '\'',
        4 => '-',
        5 => ':',
        6 => '+',
        7 => 'o',
        8 => '0',
        _ => '#',
    }
}


// ── Comparisons against multiples of √5 ──────────────────────────────────────

/// `a < k·√5`, for `k ≥ 0`, decided in integers.
pub open spec fn lt_root5(a: int, k: int) -> bool {
    a < 0 || a * a < 5 * k * k
}

/// `n` is the rounding of `v = k·(√5 − 1)/d`: `n − ½ < v ≤ n + ½`.
///
/// Multiplying through by `2d` gives `d(2n − 1) + 2k < 2k·√5` and
/// `not (d(2n + 1) + 2k < 2k·√5)`.
pub open spec fn rounds_golden(k: int, d: int, n: int) -> bool {
    &&& lt_root5(d * (2 * n - 1) + 2 * k, 2 * k)
    &&& !lt_root5(d * (2 * n + 1) + 2 * k, 2 * k)
}

/// The integer nearest to `k·(√5 − 1)/d` (for `k ≥ 0`, `d > 0`).
pub open spec fn golden_round(k: int, d: int) -> int {
    choose|n: int| rounds_golden(k, d, n)
}

/// `lt_root5` is downward closed in its first argument.
pub proof fn lemma_lt_root5_mono(a1: int, a2: int, k: int)
    requires
        a1 <= a2,
        lt_root5(a2, k),
    ensures
        lt_root5(a1, k),
{
    if a1 >= 0 {
        assert(a1 * a1 <= a2 * a2) by (nonlinear_arith)
            requires
                0 <= a1 <= a2,
        ;
    }
}

/// There is exactly one rounding, so `golden_round` names it.
pub proof fn lemma_rounds_golden_unique(k: int, d: int, n: int)
    requires
        k >= 0,
        d > 0,
        rounds_golden(k, d, n),
    ensures
        golden_round(k, d) == n,
{
    let m = golden_round(k, d);
    assert(rounds_golden(k, d, m));
    if m < n {
        // d(2m + 1) ≤ d(2n − 1) but the first is not below 2k√5 while the second is
        assert(d * (2 * m + 1) + 2 * k <= d * (2 * n - 1) + 2 * k) by (nonlinear_arith)
            requires
                m < n,
                d > 0,
        ;
        lemma_lt_root5_mono(d * (2 * m + 1) + 2 * k, d * (2 * n - 1) + 2 * k, 2 * k);
    } else if m > n {
        assert(d * (2 * n + 1) + 2 * k <= d * (2 * m - 1) + 2 * k) by (nonlinear_arith)
            requires
                n < m,
                d > 0,
        ;
        lemma_lt_root5_mono(d * (2 * n + 1) + 2 * k, d * (2 * m - 1) + 2 * k, 2 * k);
    }
}

/// Bound on the operands handed to [`lt_root5_exec`].
pub open spec fn root5_operand_ok(a: int, k: int) -> bool {
    -0x4000_0000 <= a <= 0x4000_0000 && 0 <= k <= 0x4000_0000
}

/// Decides `a < k·√5`.
fn lt_root5_exec(a: i64, k: i64) -> (b: bool)
    requires
        root5_operand_ok(a as int, k as int),
    ensures
        b == lt_root5(a as int, k as int),
{
    if a < 0 {
        true
    } else {
        assert(a * a <= 0x4000_0000 * 0x4000_0000) by (nonlinear_arith)
            requires
                0 <= a <= 0x4000_0000,
        ;
        assert(5 * k * k <= 5 * 0x4000_0000 * 0x4000_0000) by (nonlinear_arith)
            requires
                0 <= k <= 0x4000_0000,
        ;
        a * a < 5 * k * k
    }
}

/// Decides `d(2n − 1) + 2k < 2k·√5`, i.e. `n − ½ < k·(√5 − 1)/d`.
fn below_golden(n: i64, k: i64, d: i64) -> (b: bool)
    requires
        0 <= n <= k + 1,
        0 <= k <= 0x20_0000,
        2 <= d <= 80,
    ensures
        b == lt_root5(d * (2 * n - 1) + 2 * k, 2 * k),
{
    assert(-80 <= d * (2 * n - 1) <= 80 * (2 * 0x20_0001)) by (nonlinear_arith)
        requires
            0 <= n <= k + 1,
            0 <= k <= 0x20_0000,
            2 <= d <= 80,
    ;
    lt_root5_exec(d * (2 * n - 1) + 2 * k, 2 * k)
}

/// Rounds `k·(√5 − 1)/d` to the nearest integer.
///
/// A fixed-point estimate is corrected in both directions until the exact
/// rounding condition holds.
pub fn round_golden(k: u32, d: u32) -> (n: u32)
    requires
        k <= 0x20_0000,
        2 <= d <= 80,
    ensures
        rounds_golden(k as int, d as int, n as int),
        n == golden_round(k as int, d as int),
        n <= k,
        d * (2 * n - 1) < 3 * k + 1,
{
    let ki = k as i64;
    let di = d as i64;
    // 81007 / 65536 ≈ √5 − 1
    let est: u64 = (k as u64 * 81007) / (65536 * d as u64);
    let mut n: i64 = if est as i64 > ki { ki } else { est as i64 };
    assert(lt_root5(di * (2 * 0 - 1) + 2 * ki, 2 * ki)) by (nonlinear_arith)
        requires
            ki >= 0,
            2 <= di <= 80,
    ;
    while !below_golden(n, ki, di)
        invariant
            0 <= n <= ki,
            0 <= ki <= 0x20_0000,
            2 <= di <= 80,
            lt_root5(di * (2 * 0 - 1) + 2 * ki, 2 * ki),
        decreases n,
    {
        n = n - 1;
    }
    assert(!lt_root5(di * (2 * (ki + 1) - 1) + 2 * ki, 2 * ki)) by (nonlinear_arith)
        requires
            ki >= 0,
            2 <= di <= 80,
    ;
    while below_golden(n + 1, ki, di)
        invariant
            0 <= n <= ki,
            0 <= ki <= 0x20_0000,
            2 <= di <= 80,
            lt_root5(di * (2 * n - 1) + 2 * ki, 2 * ki),
            !lt_root5(di * (2 * (ki + 1) - 1) + 2 * ki, 2 * ki),
        decreases ki - n,
    {
        n = n + 1;
    }
    assert(di * (2 * (n + 1) - 1) == di * (2 * n + 1)) by (nonlinear_arith);
    proof {
        lemma_rounds_golden_unique(k as int, d as int, n as int);
        let a = di * (2 * n - 1) + 2 * ki;
        if a >= 0 {
            assert(a < 5 * ki + 1) by (nonlinear_arith)
                requires
                    a >= 0,
                    ki >= 0,
                    a * a < 5 * (2 * ki) * (2 * ki),
            ;
        }
    }
    n as u32
}

// ── Golden layout ────────────────────────────────────────────────────────────

/// `max(x, 1)`.
pub open spec fn at_least_one(x: int) -> int {
    if x < 1 { 1 } else { x }
}

/// `a - b`, or 0 when `b ≥ a`.
pub open spec fn sub_floor0(a: int, b: int) -> int {
    if a > b { a - b } else { 0 }
}

/// Secondary (narrower) column width: `cols / φ` rounded, at least 1.
pub open spec fn golden_secondary(cols: int) -> int {
    at_least_one(golden_round(cols, 2))
}

/// Primary column width: the rest of the columns, at least 1.
pub open spec fn golden_primary(cols: int) -> int {
    at_least_one(sub_floor0(cols, golden_secondary(cols)))
}

/// Content height: `rows / φ` rounded, leaving room for a header and the
/// status bar, at least 1.
pub open spec fn golden_content(rows: int) -> int {
    at_least_one(vstd::math::min(golden_round(rows, 2), sub_floor0(rows, 2)))
}

/// Header height: what remains above the content and the status bar, at least 1.
pub open spec fn golden_header(rows: int) -> int {
    at_least_one(sub_floor0(rows, golden_content(rows) + 1))
}

/// Globe radius in half-block pixels: `min(cols, 2·rows) · (1/φ) · 0.95`
/// rounded, i.e. `19·m·(√5 − 1)/40` for `m = min(cols, 2·rows)`.
pub open spec fn golden_globe_radius(cols: int, rows: int) -> int {
    golden_round(19 * vstd::math::min(cols, 2 * rows), 40)
}

/// Layout dimensions derived from the golden ratio for a given terminal size.
#[derive(Debug, Clone, Copy)]
pub struct GoldenLayout {
    /// Total columns.
    pub cols: u16,
    /// Total rows.
    pub rows: u16,
    /// Primary (wider) column width.
    pub primary_cols: u16,
    /// Secondary (narrower) column width — cols/φ.
    pub secondary_cols: u16,
    /// Main content height — rows/φ.
    pub content_rows: u16,
    /// Header / title height.
    pub header_rows: u16,
    /// Status bar height (always 1).
    pub status_rows: u16,
    /// Globe radius in half-block pixels for the inscribed circle.
    pub globe_radius_px: u16,
}

/// The rounding of `k/φ` is at least 1 once `k ≥ 1`, and below `k` once `k ≥ 2`.
pub proof fn lemma_golden_round_bounds(k: int)
    requires
        k >= 1,
    ensures
        golden_round(k, 2) >= 1,
        k >= 2 ==> golden_round(k, 2) <= k - 1,
{
    let n = golden_round(k, 2);
    assert(exists|m: int| rounds_golden(k, 2, m)) by {
        lemma_rounds_exist(k);
    }
    assert(rounds_golden(k, 2, n));
    if n < 1 {
        // not (2(2n + 1) + 2k < 2k√5) lifts to not (2 + 2k < 2k√5), false for k ≥ 1
        assert(2 * (2 * n + 1) + 2 * k <= 2 * (2 * 0 + 1) + 2 * k);
        if lt_root5(2 * (2 * 0 + 1) + 2 * k, 2 * k) {
            lemma_lt_root5_mono(2 * (2 * n + 1) + 2 * k, 2 * (2 * 0 + 1) + 2 * k, 2 * k);
        }
        assert(lt_root5(2 * (2 * 0 + 1) + 2 * k, 2 * k)) by (nonlinear_arith)
            requires
                k >= 1,
        ;
    }
    if k >= 2 && n >= k {
        assert(2 * (2 * k - 1) + 2 * k <= 2 * (2 * n - 1) + 2 * k);
        lemma_lt_root5_mono(2 * (2 * k - 1) + 2 * k, 2 * (2 * n - 1) + 2 * k, 2 * k);
        assert(!lt_root5(2 * (2 * k - 1) + 2 * k, 2 * k)) by (nonlinear_arith)
            requires
                k >= 2,
        ;
    }
}

/// Some integer rounds `k/φ`.
proof fn lemma_rounds_exist(k: int)
    requires
        k >= 0,
    ensures
        exists|m: int| rounds_golden(k, 2, m),
    decreases k,
{
    // the first m in 0..=k whose upper condition holds
    assert(lt_root5(2 * (2 * 0 - 1) + 2 * k, 2 * k)) by (nonlinear_arith)
        requires
            k >= 0,
    ;
    lemma_rounds_exist_from(k, 0);
}

proof fn lemma_rounds_exist_from(k: int, m: int)
    requires
        k >= 0,
        0 <= m <= k,
        lt_root5(2 * (2 * m - 1) + 2 * k, 2 * k),
    ensures
        exists|j: int| rounds_golden(k, 2, j),
    decreases k - m,
{
    if !lt_root5(2 * (2 * m + 1) + 2 * k, 2 * k) {
        assert(rounds_golden(k, 2, m));
    } else {
        if m == k {
            assert(!lt_root5(2 * (2 * k + 1) + 2 * k, 2 * k)) by (nonlinear_arith)
                requires
                    k >= 0,
            ;
        }
        assert(2 * (2 * (m + 1) - 1) == 2 * (2 * m + 1));
        lemma_rounds_exist_from(k, m + 1);
    }
}

/// Law: for two or more columns the primary and secondary columns partition
/// the terminal width.
pub proof fn lemma_golden_columns_partition(cols: int)
    requires
        2 <= cols,
    ensures
        golden_primary(cols) + golden_secondary(cols) == cols,
{
    lemma_golden_round_bounds(cols);
}

/// Law: for three or more rows, content, header and the one-row status bar
/// partition the terminal height.
pub proof fn lemma_golden_rows_partition(rows: int)
    requires
        3 <= rows,
    ensures
        golden_content(rows) + golden_header(rows) + 1 == rows,
{
    lemma_golden_round_bounds(rows);
}

impl GoldenLayout {
    /// Compute the golden-ratio layout for a terminal of `cols` × `rows`.
    pub fn compute(cols: u16, rows: u16) -> (l: Self)
        requires
            rows <= 0x7fff,
        ensures
            l.cols == cols,
            l.rows == rows,
            l.secondary_cols == golden_secondary(cols as int),
            l.primary_cols == golden_primary(cols as int),
            l.content_rows == golden_content(rows as int),
            l.header_rows == golden_header(rows as int),
            l.status_rows == 1,
            l.globe_radius_px == golden_globe_radius(cols as int, rows as int),
    {
        // Column split at 1/φ² ≈ 38.2% / 61.8%
        let sec_raw = round_golden(cols as u32, 2);
        let secondary: u16 = if sec_raw < 1 { 1 } else { sec_raw as u16 };
        let rest = cols.saturating_sub(secondary);
        let primary: u16 = if rest < 1 { 1 } else { rest };

        // Row split: status = 1, content = rows/φ, header = remainder
        let status: u16 = 1;
        let content_raw = round_golden(rows as u32, 2);
        let room = rows.saturating_sub(status + 1);
        let capped: u32 = if content_raw < room as u32 { content_raw } else { room as u32 };
        let content: u16 = if capped < 1 { 1 } else { capped as u16 };
        let hrest = rows.saturating_sub(content + status);
        let header: u16 = if hrest < 1 { 1 } else { hrest };

        // Globe radius: inscribed in min(cols, rows×2) pixel square × (1/φ) × 0.95
        let pixel_h: u16 = rows * 2;
        let min_dim: u16 = if cols < pixel_h { cols } else { pixel_h };
        let radius = round_golden(19 * min_dim as u32, 40);
        proof {
            assert(radius <= 0xffff);
            assert(vstd::math::min(cols as int, 2 * rows) == min_dim);
        }
        GoldenLayout {
            cols,
            rows,
            primary_cols: primary,
            secondary_cols: secondary,
            content_rows: content,
            header_rows: header,
            status_rows: status,
            globe_radius_px: radius as u16,
        }
    }

    /// Menu panel split: (sidebar width, description width).
    pub fn menu_split(&self) -> (r: (u16, u16))
        ensures
            r == (self.secondary_cols, self.primary_cols),
    {
        (self.secondary_cols, self.primary_cols)
    }
}

// ── Sfumato shading ─────────────────────────────────────────────────────────

/// Upper luminance of the dark zone (≈ 255/φ²).
pub const SFUMATO_DARK_LIMIT: u8 = 97;
/// Upper luminance of the midtone zone (≈ 255/φ).
pub const SFUMATO_MIDTONE_LIMIT: u8 = 158;

/// Gradient level (0–9) chosen by [`sfumato_shade`]: three dark steps up to
/// luminance 97, three midtones up to 158, four highlights above.
pub open spec fn sfumato_level(lum: int) -> int {
    if lum <= 97 {
        vstd::math::min(lum * 2 / 97, 2)
    } else if lum <= 158 {
        3 + vstd::math::min((lum - 97) * 2 / 61, 2)
    } else {
        6 + vstd::math::min((lum - 158) * 3 / 97, 3)
    }
}

/// Map a linear luminance to an ASCII shade with φ-weighted tonal zones.
pub fn sfumato_shade(lum: u8) -> (c: char)
    ensures
        c == shade_glyph(sfumato_level(lum as int)),
        0 <= sfumato_level(lum as int) <= 9,
{
    let level: u8 = if lum <= SFUMATO_DARK_LIMIT {
        let idx = (lum as usize * 2) / SFUMATO_DARK_LIMIT as usize;
        if idx < 2 { idx as u8 } else { 2 }
    } else if lum <= SFUMATO_MIDTONE_LIMIT {
        let l = lum - SFUMATO_DARK_LIMIT;
        let range = SFUMATO_MIDTONE_LIMIT - SFUMATO_DARK_LIMIT;
        let idx = (l as usize * 2) / range as usize;
        3 + if idx < 2 { idx as u8 } else { 2 }
    } else {
        let l = lum - SFUMATO_MIDTONE_LIMIT;
        let r0 = 255u8 - SFUMATO_MIDTONE_LIMIT;
        let range = if r0 < 1 { 1 } else { r0 };
        let idx = (l as usize * 3) / range as usize;
        6 + if idx < 3 { idx as u8 } else { 3 }
    };
    glyph_for_level(level)
}

/// Law: the sfumato gradient never gets lighter as luminance grows; it starts
/// at the blank level and ends at the densest one.
pub proof fn lemma_sfumato_monotone(l1: int, l2: int)
    requires
        0 <= l1 <= l2 <= 255,
    ensures
        sfumato_level(l1) <= sfumato_level(l2),
        sfumato_level(0) == 0,
        sfumato_level(255) == 9,
{
    if l1 <= 97 && l2 <= 97 {
        vstd::arithmetic::div_mod::lemma_div_is_ordered(l1 * 2, l2 * 2, 97);
    } else if 97 < l1 && l2 <= 158 {
        vstd::arithmetic::div_mod::lemma_div_is_ordered((l1 - 97) * 2, (l2 - 97) * 2, 61);
    } else if 158 < l1 {
        vstd::arithmetic::div_mod::lemma_div_is_ordered((l1 - 158) * 3, (l2 - 158) * 3, 97);
    }
}

// ── Fibonacci row bands ─────────────────────────────────────────────────────

/// Fibonacci numbers: 0, 1, 1, 2, 3, 5, …
pub open spec fn fib(i: nat) -> nat
    decreases i,
{
    if i == 0 {
        0
    } else if i == 1 {
        1
    } else {
        fib((i - 1) as nat) + fib((i - 2) as nat)
    }
}

/// Sum of the first `b` band weights `fib(1) + … + fib(b)`.
pub open spec fn fib_weight_total(b: nat) -> nat
    decreases b,
{
    if b == 0 { 0 } else { fib_weight_total((b - 1) as nat) + fib(b) }
}

/// Floor share of `n` rows for band `i` out of `bands`.
pub open spec fn fib_share(n: nat, bands: nat, i: nat) -> nat {
    (fib(i + 1) * n / fib_weight_total(bands)) as nat
}

/// Sum of the floor shares of the first `b` bands.
pub open spec fn fib_share_sum(n: nat, bands: nat, b: nat) -> nat
    decreases b,
{
    if b == 0 { 0 } else { fib_share_sum(n, bands, (b - 1) as nat) + fib_share(n, bands, (b - 1) as nat) }
}

/// Row heights of [`fibonacci_rows`]: each band gets its floor share of `n`
/// in proportion to its Fibonacci weight, and the rounding remainder goes to
/// the last (largest) band.
pub open spec fn fibonacci_band(n: nat, bands: nat, i: nat) -> nat {
    if i + 1 == bands {
        (fib_share(n, bands, i) + (n - fib_share_sum(n, bands, bands))) as nat
    } else {
        fib_share(n, bands, i)
    }
}

/// The arithmetic of [`fibonacci_rows`] does not overflow 64 bits.
pub open spec fn fibonacci_rows_fit(n: nat, bands: nat) -> bool {
    bands == 0 || (fib(bands + 2) <= u64::MAX + 1 && fib(bands) * n <= u64::MAX)
}

/// Sum of a sequence of row heights.
pub open spec fn sum_rows(s: Seq<u16>) -> int
    decreases s.len(),
{
    if s.len() == 0 { 0 } else { sum_rows(s.drop_last()) + s.last() }
}

proof fn lemma_fib_small()
    ensures
        fib(1) == 1,
        fib(2) == 1,
        fib(3) == 2,
{
    reveal_with_fuel(fib, 4);
}

proof fn lemma_fib_monotone(i: nat, j: nat)
    requires
        1 <= i <= j,
    ensures
        fib(i) <= fib(j),
    decreases j,
{
    if i < j {
        lemma_fib_monotone(i, (j - 1) as nat);
    }
}

proof fn lemma_fib_total(b: nat)
    ensures
        fib_weight_total(b) + 1 == fib(b + 2),
    decreases b,
{
    lemma_fib_small();
    if b > 0 {
        lemma_fib_total((b - 1) as nat);
    }
}

proof fn lemma_fib_pos(i: nat)
    requires
        i >= 1,
    ensures
        fib(i) >= 1,
    decreases i,
{
    lemma_fib_small();
    if i > 2 {
        lemma_fib_pos((i - 1) as nat);
    }
}

/// `∑ floor(wᵢ·n/T) · T ≤ n · ∑ wᵢ` over the first `b` bands.
proof fn lemma_share_sum_bound(n: nat, bands: nat, b: nat)
    requires
        bands >= 1,
        b <= bands,
    ensures
        fib_share_sum(n, bands, b) * fib_weight_total(bands) <= n * fib_weight_total(b),
    decreases b,
{
    lemma_fib_small();
    lemma_fib_total(bands);
    lemma_fib_pos(bands + 2);
    if bands + 2 >= 3 {
        lemma_fib_monotone(3, bands + 2);
    }
    let t = fib_weight_total(bands);
    assert(t >= 1);
    if b > 0 {
        lemma_share_sum_bound(n, bands, (b - 1) as nat);
        let w = fib(b);
        let sh = fib_share(n, bands, (b - 1) as nat);
        assert(sh * t <= w * n) by (nonlinear_arith)
            requires
                t >= 1,
                sh == (w * n / t) as nat,
        ;
        let ps = fib_share_sum(n, bands, (b - 1) as nat);
        let wp = fib_weight_total((b - 1) as nat);
        assert(fib_share_sum(n, bands, b) == ps + sh);
        assert(fib_weight_total(b) == wp + w);
        assert((ps + sh) * t <= n * (wp + w)) by (nonlinear_arith)
            requires
                ps * t <= n * wp,
                sh * t <= w * n,
        ;
    }
}

/// The floor shares of all bands add up to at most `n`.
proof fn lemma_share_sum_le(n: nat, bands: nat)
    requires
        bands >= 1,
    ensures
        fib_share_sum(n, bands, bands) <= n,
{
    lemma_share_sum_bound(n, bands, bands);
    lemma_fib_small();
    lemma_fib_total(bands);
    lemma_fib_pos(bands + 2);
    lemma_fib_monotone(3, bands + 2);
    let t = fib_weight_total(bands);
    let s = fib_share_sum(n, bands, bands);
    assert(s <= n) by (nonlinear_arith)
        requires
            t >= 1,
            s * t <= n * t,
    ;
}

/// A prefix of floor shares sums to the partial share sum.
proof fn lemma_share_prefix_sum(n: nat, bands: nat, t: Seq<u16>)
    requires
        forall|i: int| 0 <= i < t.len() ==> t[i] == fib_share(n, bands, i as nat),
    ensures
        sum_rows(t) == fib_share_sum(n, bands, t.len()),
    decreases t.len(),
{
    if t.len() > 0 {
        lemma_share_prefix_sum(n, bands, t.drop_last());
    }
}

/// Partial share sums only grow.
proof fn lemma_share_sum_monotone(n: nat, bands: nat, a: nat, b: nat)
    requires
        a <= b,
    ensures
        fib_share_sum(n, bands, a) <= fib_share_sum(n, bands, b),
    decreases b,
{
    if a < b {
        lemma_share_sum_monotone(n, bands, a, (b - 1) as nat);
    }
}

/// Law: row heights laid out as [`fibonacci_rows`] returns them add up to
/// exactly `n`.
pub proof fn lemma_fibonacci_rows_sum(n: nat, bands: nat, s: Seq<u16>)
    requires
        bands >= 1,
        s.len() == bands,
        forall|i: int| 0 <= i < bands ==> s[i] == fibonacci_band(n, bands, i as nat),
    ensures
        sum_rows(s) == n,
{
    lemma_share_sum_le(n, bands);
    let t = s.drop_last();
    assert forall|i: int| 0 <= i < t.len() implies t[i] == fib_share(n, bands, i as nat) by {
        assert(t[i] == s[i]);
    }
    lemma_share_prefix_sum(n, bands, t);
}

/// Fibonacci-based row allocation: `bands` row heights in Fibonacci
/// proportion (1, 1, 2, 3, 5, …) that add up to `n`.
pub fn fibonacci_rows(n: u16, bands: usize) -> (rows: Vec<u16>)
    requires
        fibonacci_rows_fit(n as nat, bands as nat),
    ensures
        rows@.len() == bands,
        forall|i: int| 0 <= i < bands ==> rows@[i] == fibonacci_band(n as nat, bands as nat, i as nat),
        bands >= 1 ==> sum_rows(rows@) == n,
{
    if bands == 0 {
        return Vec::new();
    }
    let ghost nn = n as nat;
    let ghost bb = bands as nat;
    proof {
        lemma_fib_small();
        lemma_fib_total(bb);
        lemma_fib_pos(bb + 2);
        lemma_fib_monotone(3, bb + 2);
        lemma_fib_monotone(bb, bb + 2);
    }
    // Fibonacci weights fib(1), …, fib(bands)
    let mut fibs: Vec<u64> = Vec::new();
    fibs.push(1);
    if bands > 1 {
        fibs.push(1);
    }
    while fibs.len() < bands
        invariant
            1 <= fibs.len() <= bands,
            bands > 1 ==> fibs.len() >= 2,
            bb == bands,
            fib(bb) <= u64::MAX,
            forall|i: int| 0 <= i < fibs.len() ==> fibs@[i] == fib((i + 1) as nat),
        decreases bands - fibs.len(),
    {
        let l = fibs.len();
        proof {
            lemma_fib_monotone((l + 1) as nat, bb);
        }
        let next = fibs[l - 1] + fibs[l - 2];
        fibs.push(next);
    }
    let mut total: u64 = 0;
    let mut i: usize = 0;
    while i < bands
        invariant
            i <= bands,
            fibs@.len() == bands,
            bb == bands,
            fib_weight_total(bb) + 1 == fib(bb + 2),
            fib(bb + 2) <= u64::MAX + 1,
            forall|j: int| 0 <= j < fibs.len() ==> fibs@[j] == fib((j + 1) as nat),
            total == fib_weight_total(i as nat),
        decreases bands - i,
    {
        proof {
            lemma_weight_total_monotone((i + 1) as nat, bb);
        }
        total = total + fibs[i];
        i = i + 1;
    }
    let n64 = n as u64;
    let mut rows: Vec<u16> = Vec::new();
    let mut i: usize = 0;
    while i < bands
        invariant
            i <= bands,
            fibs@.len() == bands,
            bb == bands,
            nn == n,
            n64 == n,
            total == fib_weight_total(bb),
            total >= 1,
            fib(bb) * nn <= u64::MAX,
            forall|j: int| 0 <= j < fibs.len() ==> fibs@[j] == fib((j + 1) as nat),
            rows@.len() == i,
            forall|j: int| 0 <= j < i ==> rows@[j] == fib_share(nn, bb, j as nat),
        decreases bands - i,
    {
        let f = fibs[i];
        proof {
            lemma_fib_monotone((i + 1) as nat, bb);
            lemma_fib_le_total((i + 1) as nat, bb);
            assert(f * n64 <= fib(bb) * nn) by (nonlinear_arith)
                requires
                    f <= fib(bb),
                    n64 == nn,
            ;
            assert((f * n64) as int / (total as int) <= n64) by (nonlinear_arith)
                requires
                    f <= total,
                    total >= 1,
            ;
        }
        rows.push(((f * n64) / total) as u16);
        i = i + 1;
    }
    proof {
        lemma_share_sum_le(nn, bb);
    }
    let mut allocated: u16 = 0;
    let mut i: usize = 0;
    while i < bands
        invariant
            i <= bands,
            bb == bands,
            rows@.len() == bands,
            forall|j: int| 0 <= j < bands ==> rows@[j] == fib_share(nn, bb, j as nat),
            allocated == fib_share_sum(nn, bb, i as nat),
            fib_share_sum(nn, bb, bb) <= nn,
            nn == n,
        decreases bands - i,
    {
        proof {
            lemma_share_sum_monotone(nn, bb, (i + 1) as nat, bb);
        }
        allocated = allocated + rows[i];
        i = i + 1;
    }
    // Distribute the rounding remainder to the (last) largest band.
    let mut max_idx: usize = 0;
    let mut best: u16 = rows[0];
    let mut i: usize = 0;
    while i < bands
        invariant
            i <= bands,
            bb == bands,
            nn == n,
            total == fib_weight_total(bb),
            total >= 1,
            rows@.len() == bands,
            forall|j: int| 0 <= j < bands ==> rows@[j] == fib_share(nn, bb, j as nat),
            i == 0 ==> max_idx == 0 && best == rows@[0],
            i > 0 ==> max_idx == i - 1 && best == rows@[i - 1],
        decreases bands - i,
    {
        if i > 0 {
            proof {
                lemma_fib_monotone(i as nat, (i + 1) as nat);
                let a = fib(i as nat) * nn;
                let b = fib((i + 1) as nat) * nn;
                assert(a <= b) by (nonlinear_arith)
                    requires
                        fib(i as nat) <= fib((i + 1) as nat),
                        a == fib(i as nat) * nn,
                        b == fib((i + 1) as nat) * nn,
                ;
                vstd::arithmetic::div_mod::lemma_div_is_ordered(a as int, b as int, total as int);
            }
        }
        if rows[i] >= best {
            best = rows[i];
            max_idx = i;
        }
        i = i + 1;
    }
    if allocated < n {
        let v = rows[max_idx] + (n - allocated);
        rows.set(max_idx, v);
    }
    proof {
        assert forall|j: int| 0 <= j < bands implies rows@[j] == fibonacci_band(nn, bb, j as nat) by {}
        lemma_fibonacci_rows_sum(nn, bb, rows@);
    }
    rows
}

/// A single weight never exceeds the running total that includes it.
proof fn lemma_fib_le_total(i: nat, b: nat)
    requires
        1 <= i <= b,
    ensures
        fib(i) <= fib_weight_total(b),
    decreases b,
{
    if i < b {
        lemma_fib_le_total(i, (b - 1) as nat);
    } else if b >= 1 {
        assert(fib_weight_total(b) == fib_weight_total((b - 1) as nat) + fib(b));
    }
}

/// Running totals only grow.
proof fn lemma_weight_total_monotone(a: nat, b: nat)
    requires
        a <= b,
    ensures
        fib_weight_total(a) <= fib_weight_total(b),
    decreases b,
{
    if a < b {
        lemma_weight_total_monotone(a, (b - 1) as nat);
    }
}

} // verus!
