use console_gis::render::typography::{fibonacci_rows, sfumato_shade, GoldenLayout};

const PHI: f64 = 1.618_033_988_749_895;
const PHI_INV: f64 = 0.618_033_988_749_895;

#[test]
fn golden_layout_80x24() {
    let gl = GoldenLayout::compute(80, 24);
    // primary + secondary = 80
    assert_eq!(gl.primary_cols + gl.secondary_cols, 80);
    // secondary ≈ 80/φ ≈ 49.4 → 49 or 50
    assert!(gl.secondary_cols >= 48 && gl.secondary_cols <= 51, "secondary_cols={}", gl.secondary_cols);
    // rows add up
    assert_eq!(gl.content_rows + gl.header_rows + gl.status_rows, 24);
}

#[test]
fn sfumato_monotone() {
    // sfumato_shade should produce characters that increase in density with lum
    let chars: Vec<char> = (0..=255u8).map(|l| sfumato_shade(l)).collect();
    // First char (lum=0) should be space
    assert_eq!(chars[0], ' ');
    // Last char (lum=255) should be the densest
    assert_eq!(chars[255], '#');
}

#[test]
fn fibonacci_rows_sum() {
    for n in [12u16, 24, 48, 80] {
        for bands in [1, 2, 3, 5, 8] {
            let rows = fibonacci_rows(n, bands);
            let sum: u16 = rows.iter().sum();
            assert_eq!(sum, n, "n={n} bands={bands} sum={sum}");
        }
    }
}

#[test]
fn golden_layout_exact_values() {
    let gl = GoldenLayout::compute(80, 24);
    assert_eq!(gl.secondary_cols, 49);
    assert_eq!(gl.primary_cols, 31);
    assert_eq!(gl.content_rows, 15);
    assert_eq!(gl.header_rows, 8);
    assert_eq!(gl.status_rows, 1);
    // radius = min(80, 48) · (1/φ) · 0.95 ≈ 28.2
    assert_eq!(gl.globe_radius_px, 28);
    assert_eq!(gl.menu_split(), (49, 31));
}

#[test]
fn golden_layout_tiny_terminals() {
    let gl = GoldenLayout::compute(1, 1);
    assert_eq!((gl.secondary_cols, gl.primary_cols), (1, 1));
    assert_eq!((gl.content_rows, gl.header_rows, gl.status_rows), (1, 1, 1));
    let gl = GoldenLayout::compute(0, 0);
    assert_eq!(gl.globe_radius_px, 0);
}

/// The integer layout equals the floating-point golden-ratio formulas on
/// every terminal width and height.
#[test]
fn golden_layout_matches_float_formulas() {
    for cols in 0..=u16::MAX {
        let gl = GoldenLayout::compute(cols, 24);
        let sec = ((cols as f64 / PHI).round() as u16).max(1);
        assert_eq!(gl.secondary_cols, sec, "cols {cols}");
        assert_eq!(gl.primary_cols, cols.saturating_sub(sec).max(1), "cols {cols}");
    }
    for rows in 0..=0x7fffu16 {
        let gl = GoldenLayout::compute(u16::MAX, rows);
        let content = ((rows as f64 * PHI_INV).round() as u16).min(rows.saturating_sub(2)).max(1);
        assert_eq!(gl.content_rows, content, "rows {rows}");
        assert_eq!(gl.header_rows, rows.saturating_sub(content + 1).max(1), "rows {rows}");
        let min_dim = (u16::MAX as f64).min((rows * 2) as f64);
        let radius = (min_dim * PHI_INV * 0.95).round() as u16;
        assert_eq!(gl.globe_radius_px, radius, "rows {rows}");
    }
}

#[test]
fn sfumato_zone_boundaries() {
    assert_eq!(sfumato_shade(97), '`');
    assert_eq!(sfumato_shade(98), '\'');
    assert_eq!(sfumato_shade(158), ':');
    assert_eq!(sfumato_shade(159), '+');
    assert_eq!(sfumato_shade(48), ' ');
    assert_eq!(sfumato_shade(49), '.');
}

#[test]
fn fibonacci_rows_exact() {
    // weights 1 1 2 3 5 (total 12): floor shares of 24 are 2 2 4 6 10
    assert_eq!(fibonacci_rows(24, 5), vec![2, 2, 4, 6, 10]);
    // weights 1 1 2 (total 4): shares of 10 are 2 2 5, remainder 1 to the last band
    assert_eq!(fibonacci_rows(10, 3), vec![2, 2, 6]);
    assert!(fibonacci_rows(10, 0).is_empty());
    assert_eq!(fibonacci_rows(7, 1), vec![7]);
}
