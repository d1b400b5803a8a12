use console_gis::render::canvas::{Color, TerminalCapability};
use console_gis::render::compat::{
    color_bg_escape, color_fg_escape, downshift_char, idx256_to_ansi8, rgb_dist2, rgb_to_256,
    rgb_to_ansi8, rgb_to_vt100, rgb_to_vt100_selected, unicode_box_to_ascii, unicode_box_to_dec,
    xterm256_rgb, Vt100Attr,
};

/// Luminance as the renderer computes it (double precision, truncated).
fn luma(r: u8, g: u8, b: u8) -> u8 {
    (0.299 * r as f64 + 0.587 * g as f64 + 0.114 * b as f64) as u8
}

#[test]
fn xterm256_spot_checks() {
    assert_eq!(xterm256_rgb(0), (0, 0, 0));
    assert_eq!(xterm256_rgb(15), (255, 255, 255));
    assert_eq!(xterm256_rgb(16), (0, 0, 0));
    assert_eq!(xterm256_rgb(231), (255, 255, 255));
    assert_eq!(xterm256_rgb(232), (8, 8, 8));
    assert_eq!(xterm256_rgb(255), (238, 238, 238));
}

#[test]
fn rgb_to_256_white() {
    let idx = rgb_to_256(255, 255, 255);
    let rgb = xterm256_rgb(idx);
    let dist = rgb_dist2((255, 255, 255), rgb);
    assert!(dist < 1000, "white mapping dist={dist}");
}

#[test]
fn vt100_bold_for_bright() {
    let attr = rgb_to_vt100(luma(255, 255, 255));
    assert!(attr.bold);
    let attr = rgb_to_vt100(luma(10, 10, 10));
    assert!(!attr.bold);
}

#[test]
fn xterm256_cube_and_ramp_values() {
    // 16 + 36·1 + 6·2 + 3 = 67 → levels (95, 135, 175)
    assert_eq!(xterm256_rgb(67), (95, 135, 175));
    assert_eq!(xterm256_rgb(196), (255, 0, 0));
    assert_eq!(xterm256_rgb(244), (128, 128, 128));
    assert_eq!(xterm256_rgb(9), (255, 0, 0));
}

#[test]
fn rgb_dist2_exact() {
    assert_eq!(rgb_dist2((0, 0, 0), (255, 255, 255)), 3 * 255 * 255);
    assert_eq!(rgb_dist2((10, 20, 30), (13, 16, 30)), 9 + 16);
}

#[test]
fn rgb_to_256_picks_cube_or_ramp() {
    // pure red goes to the cube corner 196
    assert_eq!(rgb_to_256(255, 0, 0), 196);
    // a mid grey is closer to the grey ramp than to the cube
    let g = rgb_to_256(128, 128, 128);
    assert_eq!(g, 244);
    // black is the cube origin
    assert_eq!(rgb_to_256(0, 0, 0), 16);
}

#[test]
fn idx256_to_ansi8_low_slots() {
    assert_eq!(idx256_to_ansi8(3), (3, false));
    assert_eq!(idx256_to_ansi8(12), (4, true));
    assert_eq!(idx256_to_ansi8(196), (1, true));
    assert_eq!(idx256_to_ansi8(16), (0, false));
}

/// The bold decision of `idx256_to_ansi8` agrees with the floating-point
/// luminance on every palette slot.
#[test]
fn idx256_to_ansi8_matches_float_luminance() {
    for idx in 16..=255u8 {
        let rgb = xterm256_rgb(idx);
        let mut best = 0u8;
        let mut best_d = u32::MAX;
        for i in 0..8u8 {
            let d = rgb_dist2(rgb, xterm256_rgb(i));
            if d < best_d {
                best_d = d;
                best = i;
            }
        }
        let dst = xterm256_rgb(best);
        let bold = luma(rgb.0, rgb.1, rgb.2) > luma(dst.0, dst.1, dst.2) + 30;
        assert_eq!(idx256_to_ansi8(idx), (best, bold), "idx {idx}");
    }
}

#[test]
fn rgb_to_ansi8_red() {
    assert_eq!(rgb_to_ansi8(255, 0, 0), (1, true));
}

#[test]
fn vt100_escape_strings() {
    assert_eq!(Vt100Attr::default().escape_str(), "\x1b[0m");
    let a = Vt100Attr { bold: true, underline: true, reverse: true };
    assert_eq!(a.escape_str(), "\x1b[0;1;4;7m");
    let sel = rgb_to_vt100_selected(luma(200, 200, 200));
    assert!(sel.reverse && sel.bold && !sel.underline);
    assert_eq!(sel.escape_str(), "\x1b[0;1;7m");
}

#[test]
fn box_drawing_downshift() {
    assert_eq!(unicode_box_to_dec('─'), Some('q'));
    assert_eq!(unicode_box_to_dec('┻'), Some('v'));
    assert_eq!(unicode_box_to_dec('═'), None);
    assert_eq!(unicode_box_to_ascii('═'), '-');
    assert_eq!(unicode_box_to_ascii('╭'), '+');
    assert_eq!(unicode_box_to_ascii('●'), 'O');
    assert_eq!(unicode_box_to_ascii('x'), 'x');
    assert_eq!(downshift_char('┼', TerminalCapability::Vt100), "n");
    assert_eq!(downshift_char('▀', TerminalCapability::Vt220), "#");
    assert_eq!(downshift_char('┼', TerminalCapability::Ansi8), "┼");
}

#[test]
fn colour_escapes_per_tier() {
    let c = Color::new(255, 0, 0);
    let l = luma(255, 0, 0);
    assert_eq!(color_fg_escape(c, TerminalCapability::TrueColor, l), "\x1b[38;2;255;0;0m");
    assert_eq!(color_fg_escape(c, TerminalCapability::Color256, l), "\x1b[38;5;196m");
    assert_eq!(color_fg_escape(c, TerminalCapability::Ansi8, l), "\x1b[1;31m");
    assert_eq!(color_fg_escape(c, TerminalCapability::Vt100, l), "\x1b[0m");
    assert_eq!(color_bg_escape(c, TerminalCapability::TrueColor, l), "\x1b[48;2;255;0;0m");
    assert_eq!(color_bg_escape(c, TerminalCapability::Color256, l), "\x1b[48;5;196m");
    assert_eq!(color_bg_escape(c, TerminalCapability::Ansi8, l), "\x1b[1;41m");
    assert_eq!(color_bg_escape(c, TerminalCapability::Vt220, l), "\x1b[7m");
    let dark = Color::new(10, 10, 10);
    assert_eq!(color_bg_escape(dark, TerminalCapability::Vt100, luma(10, 10, 10)), "\x1b[0m");
    let white = Color::new(255, 255, 255);
    assert_eq!(color_fg_escape(white, TerminalCapability::Vt100, luma(255, 255, 255)), "\x1b[0;1m");
}

#[test]
fn rgb_to_256_is_the_nearest_slot() {
    // a dark red is nearer the grey slot 233 (18,18,18) than any other slot
    assert_eq!(rgb_to_256(50, 0, 0), 233);
    // channels between 28 and 34 are accepted: (30,30,30) goes to (28,28,28)
    assert_eq!(rgb_to_256(30, 30, 30), 234);
    for (r, g, b) in [(50u8, 0u8, 0u8), (30, 30, 30), (200, 100, 7), (1, 254, 128), (33, 29, 240)] {
        let idx = rgb_to_256(r, g, b);
        assert!(idx >= 16);
        let d = rgb_dist2((r, g, b), xterm256_rgb(idx));
        for j in 16..=255u8 {
            let dj = rgb_dist2((r, g, b), xterm256_rgb(j));
            assert!(d <= dj, "({r},{g},{b}) -> {idx}, slot {j} nearer");
            if j < idx {
                assert!(d < dj);
            }
        }
    }
}

#[test]
fn ascii_fallback_settles_in_one_step() {
    for ch in ['─', '║', '╭', '┼', '▀', '█', '◉', '►', '•', 'x', 'é', '-', '#'] {
        let once = unicode_box_to_ascii(ch);
        assert_eq!(unicode_box_to_ascii(once), once, "{ch}");
        assert!(once == ch || "-|+#O>.".contains(once), "{ch}");
    }
}
