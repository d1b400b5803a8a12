use console_gis::render::dec_line;
use console_gis::geo::zoom::{default_render_mode, zoom_label, RenderMode};
use console_gis::render::canvas::{Canvas, Color, TerminalCapability};
use console_gis::render::typography::glyph_for_level;
use console_gis::render::capability_from_env;
use console_gis::render::globe::star_luminance;
use console_gis::render::line::line_cells;
use console_gis::tui::screen::View;
use console_gis::tui::views::map::{ansi_color, kind_ascii, kind_rgb, PixelKind};
use console_gis::tui::views::markers::truncate;
use console_gis::tui::views::menu::{menu_items, sidebar_width};
use console_gis::tui::views::wrap::wrap_description;
use console_gis::tui::views::zoom_explorer::{total_cpe, zoom_ruler, zoom_title, RulerMark};
use console_gis::tui::views::TermColor;

#[test]
fn capability_from_environment() {
    assert_eq!(capability_from_env(Some("TrueColor"), "xterm", ""), TerminalCapability::TrueColor);
    assert_eq!(capability_from_env(Some("24bit"), "", ""), TerminalCapability::TrueColor);
    assert_eq!(capability_from_env(None, "xterm-256color", ""), TerminalCapability::Color256);
    assert_eq!(capability_from_env(Some("yes"), "dumb", "vscode"), TerminalCapability::Color256);
    assert_eq!(capability_from_env(None, "", "Hyper"), TerminalCapability::Color256);
    assert_eq!(capability_from_env(None, "screen.xterm", ""), TerminalCapability::Ansi8);
    assert_eq!(capability_from_env(None, "linux", ""), TerminalCapability::Ansi8);
    assert_eq!(capability_from_env(None, "vt100", ""), TerminalCapability::Vt100);
}

#[test]
fn capability_tiers() {
    assert!(TerminalCapability::Vt220.is_vt_legacy());
    assert!(!TerminalCapability::Ansi8.is_vt_legacy());
    assert!(TerminalCapability::Ansi8.supports_half_block());
    assert!(!TerminalCapability::Vt100.supports_unicode());
    assert!(TerminalCapability::TrueColor.supports_true_colour());
    assert_eq!(TerminalCapability::enter_132col(), "\x1b[?3h");
    assert_eq!(TerminalCapability::leave_132col(), "\x1b[?3l");
    assert!(TerminalCapability::Vt220.supports_132col());
    assert!(!TerminalCapability::Vt100.supports_132col());
    assert!(!TerminalCapability::TrueColor.supports_132col());
}

#[test]
fn colour_escapes() {
    let c = Color::new(1, 22, 255);
    assert_eq!(c.ansi_fg(), "\x1b[38;2;1;22;255m");
    assert_eq!(c.ansi_bg(), "\x1b[48;2;1;22;255m");
    assert_eq!(Color::ascii_shade(0), ' ');
    // the documented VT ramp ' ' . : + o 0 # @ █ ■, darkest to lightest
    assert_eq!(Color::ascii_shade(255), '■');
    assert_eq!(Color::ascii_shade(128), 'o');
    assert_eq!(Color::ascii_shade(200), '@');
    assert_eq!(Color::ascii_shade(230), '█');
    assert_eq!(glyph_for_level(7), 'o');
}

#[test]
fn canvas_pixels_and_rows() {
    let mut c = Canvas::new(2, 1, TerminalCapability::TrueColor);
    assert_eq!(c.pixel_width, 2);
    assert_eq!(c.pixel_height, 2);
    c.set_pixel(1, 0, Color::new(255, 0, 0));
    c.set_pixel(5, 5, Color::new(0, 255, 0));
    assert_eq!(c.get_pixel(1, 0), Color::new(255, 0, 0));
    assert_eq!(c.get_pixel(9, 9), Color::bg());
    let rows = c.render_rows(&vec![0; 4]);
    assert_eq!(rows.len(), 1);
    assert_eq!(
        rows[0],
        "\x1b[38;2;4;4;18m\x1b[48;2;4;4;18m▀\x1b[38;2;255;0;0m\x1b[48;2;4;4;18m▀\x1b[0m"
    );

    let v = Canvas::new(3, 2, TerminalCapability::Vt100);
    assert_eq!(v.pixel_height, 2);
    let rows = v.render_rows(&vec![0, 200, 100, 0, 0, 255]);
    assert_eq!(rows.len(), 2);
    assert_eq!(rows[0], " \x1b[1m@\x1b[22m+\x1b[0m");
    assert_eq!(rows[1], "  \x1b[1m■\x1b[22m\x1b[0m");
}

#[test]
fn render_modes() {
    assert_eq!(RenderMode::Braille.cpe_per_cell(), (2, 4));
    assert_eq!(RenderMode::HalfBlock.cpe_per_cell(), (1, 2));
    assert!(RenderMode::Braille.requires_unicode());
    assert!(!RenderMode::Ascii.requires_unicode());
    assert!(RenderMode::HalfBlock.requires_colour());
    assert!(!RenderMode::Ascii.requires_colour());
    assert_eq!(zoom_label(0), "World overview");
    assert_eq!(zoom_label(11), "City");
    assert_eq!(zoom_label(21), "—");
}

#[test]
fn star_field_hash() {
    // h = 0 for the origin: no star
    assert_eq!(star_luminance(0, 0), 0);
    let mut stars = 0u32;
    for col in 0..200u32 {
        for row in 0..100u32 {
            let l = star_luminance(col, row);
            if l != 0 {
                assert!((120..=247).contains(&l));
                stars += 1;
            }
            let h = col.wrapping_mul(0x9E37_79B9) ^ row.wrapping_mul(0x6C62_272E);
            let expect = if h > 0xF200_0000 { (120 + (h & 0x7F)) as u8 } else { 0 };
            assert_eq!(l, expect);
        }
    }
    assert!(stars > 0);
}

#[test]
fn map_kinds_and_colours() {
    assert_eq!(kind_ascii(PixelKind::Ocean), ' ');
    assert_eq!(kind_rgb(PixelKind::Ocean), kind_rgb(PixelKind::Ocean));
    assert_eq!(ansi_color((200, 200, 200)), TermColor::White);
}

#[test]
fn truncate_labels() {
    assert_eq!(truncate("London", 10), "London");
    assert_eq!(truncate("Londonderry", 6), "Londo…");
    assert_eq!(truncate("abc", 0), "…");
}

#[test]
fn menu_entries() {
    let items = menu_items();
    assert_eq!(items.len(), 8);
    assert_eq!(items[0].key, '1');
    assert_eq!(items[1].view, View::FlatMap);
    assert_eq!(items[7].label, "Shape Editor");
}

#[test]
fn dec_line_drawing_set() {
    assert_eq!(dec_line::ENTER, "\x1b(0");
    assert_eq!(dec_line::EXIT, "\x1b(B");
    assert_eq!(dec_line::HORIZONTAL, 'q');
    assert_eq!(dec_line::CROSS, 'n');
}

#[test]
fn menu_sidebar_width() {
    assert_eq!(sidebar_width(100, 40), 38);
    assert_eq!(sidebar_width(40, 20), 20);
    assert_eq!(sidebar_width(30, 10), 10);
}

#[test]
fn description_wraps_words_and_paragraphs() {
    assert_eq!(
        wrap_description("ab cd\nef", 10),
        vec![(0, 0, 'a'), (0, 1, 'b'), (0, 3, 'c'), (0, 4, 'd'), (2, 0, 'e'), (2, 1, 'f')]
    );
    assert_eq!(
        wrap_description("abc def", 6),
        vec![(0, 0, 'a'), (0, 1, 'b'), (0, 2, 'c'), (1, 0, 'd'), (1, 1, 'e'), (1, 2, 'f')]
    );
    assert_eq!(wrap_description("\nab", 10), vec![(2, 0, 'a'), (2, 1, 'b')]);
    assert_eq!(wrap_description("a  b", 10), vec![(0, 0, 'a'), (0, 2, 'b')]);
    assert!(wrap_description(" \t ", 10).is_empty());
}

#[test]
fn description_wrap_counts_bytes() {
    // Two 2-byte characters and a space do not fit in four columns.
    assert_eq!(wrap_description("\u{e9}\u{e9}", 4), vec![(1, 0, '\u{e9}'), (1, 1, '\u{e9}')]);
    assert_eq!(wrap_description("ee", 4), vec![(0, 0, 'e'), (0, 1, 'e')]);
}

#[test]
fn bresenham_line_cells() {
    assert_eq!(line_cells(0, 0, 5, 2), vec![(0, 0), (1, 0), (2, 1), (3, 1), (4, 2), (5, 2)]);
    assert_eq!(line_cells(3, 3, 3, 3), vec![(3, 3)]);
    assert_eq!(line_cells(2, 5, -1, 0), vec![(2, 5), (1, 4), (1, 3), (0, 2), (0, 1), (-1, 0)]);
    assert_eq!(line_cells(0, 0, 0, -3), vec![(0, 0), (0, -1), (0, -2), (0, -3)]);
    assert_eq!(
        line_cells(10, 4, 4, 7),
        vec![(10, 4), (9, 5), (8, 5), (7, 6), (6, 6), (5, 7), (4, 7)]
    );
}

#[test]
fn bresenham_line_is_a_touching_path_between_the_ends() {
    let cells = line_cells(-7, 12, 30, -4);
    assert_eq!(cells.len(), 38);
    assert_eq!(cells[0], (-7, 12));
    assert_eq!(*cells.last().unwrap(), (30, -4));
    for w in cells.windows(2) {
        assert!((w[0].0 - w[1].0).abs() <= 1 && (w[0].1 - w[1].1).abs() <= 1 && w[0] != w[1]);
    }
}

#[test]
fn zoom_explorer_title_and_counts() {
    assert_eq!(zoom_title(3), format!(" Zoom Explorer  │  zoom {:>2}  │  {}  │  ↑↓ change  Esc back ", 3, "Largest countries"));
    assert_eq!(zoom_title(12), " Zoom Explorer  │  zoom 12  │  Town / borough  │  ↑↓ change  Esc back ");
    assert_eq!(total_cpe(RenderMode::Braille, 80, 24), 15360);
    assert_eq!(total_cpe(RenderMode::HalfBlock, 80, 24), 3840);
    assert_eq!(total_cpe(RenderMode::Ascii, 65535, 65535), 65535 * 65535);
}

#[test]
fn zoom_ruler_marks() {
    let marks = zoom_ruler(3, 8, 20);
    assert_eq!(marks.len(), 5);
    assert_eq!(marks[0], RulerMark { col: 8, level: 0, current: false, tick: true });
    assert_eq!(marks[3], RulerMark { col: 14, level: 3, current: true, tick: false });
    assert_eq!(marks[4].col, 16);
    let all = zoom_ruler(0, 8, 200);
    assert_eq!(all.len(), 21);
    assert_eq!(all[20], RulerMark { col: 48, level: 20, current: false, tick: true });
    assert!(zoom_ruler(0, 8, 10).is_empty());
}

#[test]
fn render_mode_follows_the_terminal() {
    assert_eq!(default_render_mode(TerminalCapability::TrueColor), RenderMode::HalfBlock);
    assert_eq!(default_render_mode(TerminalCapability::Ansi8), RenderMode::HalfBlock);
    assert_eq!(default_render_mode(TerminalCapability::Vt220), RenderMode::Ascii);
    assert_eq!(default_render_mode(TerminalCapability::Vt100), RenderMode::Ascii);
}
