use console_render::color::Color;
use console_render::framebuffer::Framebuffer;
use console_render::texture::TextureCell;

const PREFIX: &str = "\u{13}\u{1b}[0m\u{1b}[2J\u{1b}[1;1H";
const SUFFIX: &str = "\u{11}\u{1b}[0m";

#[test]
fn color_dist_self_is_zero() {
    let c = Color { r: 1, g: 2, b: 3 };
    assert_eq!(c.dist(&c), 0);
    let d = Color { r: 255, g: 0, b: 128 };
    assert_eq!(d.dist(&d), 0);
}

#[test]
fn color_dist_is_symmetric() {
    let c1 = Color { r: 10, g: 250, b: 3 };
    let c2 = Color { r: 200, g: 7, b: 99 };
    assert_eq!(c1.dist(&c2), c2.dist(&c1));
}

#[test]
fn color_dist_exact_value() {
    let red = Color { r: 255, g: 0, b: 0 };
    let green = Color { r: 0, g: 255, b: 0 };
    assert_eq!(red.dist(&green), 510);
    let a = Color { r: 100, g: 100, b: 100 };
    let b = Color { r: 118, g: 118, b: 118 };
    assert_eq!(a.dist(&b), 54);
}

#[test]
fn new_framebuffer_renders_black_spaces() {
    let fb = Framebuffer::new(2, 2);
    let s = fb.get_string();
    let expected = format!("{}\u{1b}[30m\u{1b}[40m  \n  {}", PREFIX, SUFFIX);
    assert_eq!(s, expected);
}

#[test]
fn clear_collapses_to_single_color_emission() {
    let mut fb = Framebuffer::new(3, 2);
    fb.clear(
        'A',
        Color { r: 255, g: 0, b: 0 },
        Color { r: 0, g: 0, b: 0 },
    );
    let s = fb.get_string();
    let expected = format!("{}\u{1b}[31m\u{1b}[40mAAA\nAAA{}", PREFIX, SUFFIX);
    assert_eq!(s, expected);
    // exactly one foreground color-set and one background color-set
    assert_eq!(s.matches("\u{1b}[31m").count(), 1);
    assert_eq!(s.matches("\u{1b}[40m").count(), 1);
    // the glyph appears width * height times
    assert_eq!(s.matches('A').count(), 6);
}

#[test]
fn one_by_one_frame_end_to_end() {
    let mut fb = Framebuffer::new(1, 1);
    fb.clear(
        'X',
        Color { r: 255, g: 0, b: 0 },
        Color { r: 0, g: 0, b: 0 },
    );
    let s = fb.get_string();
    assert!(s.starts_with("\u{13}\u{1b}[0m"));
    assert!(s.contains("\u{1b}[31m"));
    assert!(s.contains("\u{1b}[40m"));
    assert!(s.contains('X'));
    assert!(s.ends_with("\u{11}\u{1b}[0m"));
    let expected = format!("{}\u{1b}[31m\u{1b}[40mX{}", PREFIX, SUFFIX);
    assert_eq!(s, expected);
}

#[test]
fn set_cell_all_none_changes_nothing() {
    let mut fb = Framebuffer::new(2, 2);
    fb.clear(
        'q',
        Color { r: 9, g: 9, b: 9 },
        Color { r: 200, g: 200, b: 200 },
    );
    let before = fb.get_string();
    fb.set_cell(1, 0, None, None, None);
    let after = fb.get_string();
    assert_eq!(before, after);
}

#[test]
fn set_cell_out_of_range_is_a_silent_no_op() {
    let mut fb = Framebuffer::new(2, 2);
    let before = fb.get_string();
    fb.set_cell(2, 0, Some('Z'), Some(Color { r: 255, g: 255, b: 255 }), None);
    fb.set_cell(0, 2, Some('Z'), None, Some(Color { r: 255, g: 255, b: 255 }));
    fb.set_cell(usize::MAX, usize::MAX, Some('Z'), None, None);
    let after = fb.get_string();
    assert_eq!(before, after);
}

#[test]
fn set_cell_updates_only_its_cell() {
    let mut fb = Framebuffer::new(2, 1);
    fb.set_cell(0, 0, Some('B'), None, None);
    let s = fb.get_string();
    let expected = format!("{}\u{1b}[30m\u{1b}[40mB {}", PREFIX, SUFFIX);
    assert_eq!(s, expected);
}

#[test]
fn color_codes_are_reemitted_only_on_change() {
    let mut fb = Framebuffer::new(2, 1);
    fb.set_cell(0, 0, None, Some(Color { r: 255, g: 0, b: 0 }), None);
    fb.set_cell(1, 0, None, Some(Color { r: 255, g: 255, b: 255 }), None);
    let s = fb.get_string();
    // the red foreground and black background are set at the first cell, and
    // only the foreground is re-set, to white, at the second
    let expected = format!("{}\u{1b}[31m\u{1b}[40m \u{1b}[97m {}", PREFIX, SUFFIX);
    assert_eq!(s, expected);
}

#[test]
fn quantization_picks_nearest_palette_entry() {
    let mut fb = Framebuffer::new(1, 1);
    // (127, 127, 0) is nearest to palette entry (193, 156, 0), codes 33/43
    fb.clear(
        'w',
        Color { r: 127, g: 127, b: 0 },
        Color { r: 100, g: 100, b: 100 },
    );
    let s = fb.get_string();
    let expected = format!("{}\u{1b}[33m\u{1b}[100mw{}", PREFIX, SUFFIX);
    assert_eq!(s, expected);
}

#[test]
fn quantization_tie_picks_first_palette_entry() {
    // (65, 65, 65) is at Manhattan distance 159 from both (12, 12, 12),
    // entry 0, and (118, 118, 118), entry 8; the earlier entry wins
    let mut fb = Framebuffer::new(1, 1);
    fb.clear(
        't',
        Color { r: 65, g: 65, b: 65 },
        Color { r: 65, g: 65, b: 65 },
    );
    let s = fb.get_string();
    let expected = format!("{}\u{1b}[30m\u{1b}[40mt{}", PREFIX, SUFFIX);
    assert_eq!(s, expected);
}

#[test]
fn get_string_is_deterministic() {
    let mut fb = Framebuffer::new(4, 3);
    fb.clear(
        '#',
        Color { r: 10, g: 200, b: 30 },
        Color { r: 0, g: 50, b: 220 },
    );
    fb.set_cell(2, 1, Some('o'), Some(Color { r: 240, g: 240, b: 240 }), None);
    let first = fb.get_string();
    let second = fb.get_string();
    assert_eq!(first, second);
}

#[test]
fn texture_cell_fields_are_a_sparse_overlay() {
    let cell = TextureCell {
        character: None,
        fg_color: None,
        bg_color: Some(Color { r: 100, g: 100, b: 100 }),
    };
    assert!(cell.character.is_none());
    assert!(cell.fg_color.is_none());
    assert_eq!(cell.bg_color.unwrap().r, 100);
}
