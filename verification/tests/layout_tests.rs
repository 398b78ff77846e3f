use glyph_layout::font::{GlyphInfo, KernInfo, ScaledFont};
use glyph_layout::layout::{layout_paragraph, GlyphPlacement, MAX_WIDTH};

/// A small font at a fixed scale: ascent 100, height 120, line gap 10,
/// so the line advance is (120 + 10) * 4 / 5 = 104 subpixel units.
fn demo_font() -> ScaledFont {
    ScaledFont {
        ascent: 100,
        height: 120,
        line_gap: 10,
        default_id: 9,
        default_advance: 50,
        glyphs: vec![
            GlyphInfo { ch: 'A', id: 1, advance: 60 },
            GlyphInfo { ch: 'B', id: 2, advance: 70 },
            GlyphInfo { ch: ' ', id: 3, advance: 30 },
            GlyphInfo { ch: 'C', id: 4, advance: 40 },
            GlyphInfo { ch: 'Y', id: 5, advance: 60 },
            GlyphInfo { ch: 'y', id: 6, advance: 55 },
        ],
        kerns: vec![
            KernInfo { left: 1, right: 2, adjust: -5 },
            KernInfo { left: 2, right: 4, adjust: -7 },
        ],
    }
}

fn run(text: &str, pos_x: i64, pos_y: i64, max_width: i64) -> Vec<GlyphPlacement> {
    let font = demo_font();
    let chars: Vec<char> = text.chars().collect();
    let mut target: Vec<GlyphPlacement> = Vec::new();
    layout_paragraph(&font, pos_x, pos_y, max_width, &chars, &mut target);
    target
}

fn placement(id: u32, x: i64, y: i64) -> GlyphPlacement {
    GlyphPlacement { id, x, y }
}

#[test]
fn empty_text_gives_empty_output() {
    let out = run("", 20, 30, MAX_WIDTH);
    assert_eq!(out, vec![]);
}

#[test]
fn single_line_without_wrap() {
    // 'A' advances 60, kern(A, B) = -5, 'B' advances 70, ' ' advances 30.
    // First baseline: 30 + ascent 100 = 130.
    let out = run("AB ", 20, 30, MAX_WIDTH);
    assert_eq!(
        out,
        vec![placement(1, 20, 130), placement(2, 75, 130), placement(3, 145, 130)]
    );
}

#[test]
fn newline_rehomes_caret_one_line_down() {
    // 'B' starts the second line at the left margin, one line advance
    // (104) below 'A', with no kerning carried across the break.
    let out = run("A\nB", 20, 30, MAX_WIDTH);
    assert_eq!(out, vec![placement(1, 20, 130), placement(2, 20, 234)]);
    assert_eq!(out[1].x, out[0].x);
    assert_eq!(out[1].y, out[0].y + 104);
}

#[test]
fn whitespace_never_triggers_wrap() {
    // Three spaces advance the caret to 110, past the bound 20 + 50 = 70,
    // yet all three stay on the first line; the visible 'B' is what moves
    // to line two, at the left margin.
    let out = run("   B", 20, 30, 50);
    assert_eq!(
        out,
        vec![
            placement(3, 20, 130),
            placement(3, 50, 130),
            placement(3, 80, 130),
            placement(2, 20, 234),
        ]
    );
}

#[test]
fn layout_is_deterministic() {
    let font = demo_font();
    let chars: Vec<char> = "A\nB C yY".chars().collect();
    let mut first: Vec<GlyphPlacement> = Vec::new();
    let mut second: Vec<GlyphPlacement> = Vec::new();
    layout_paragraph(&font, 20, 30, 200, &chars, &mut first);
    layout_paragraph(&font, 20, 30, 200, &chars, &mut second);
    assert_eq!(first, second);
}

#[test]
fn demonstration_text_fills_two_bands() {
    // The demonstration input, with wrapping disabled: one placement per
    // non-newline character, split into two y-bands exactly one line
    // advance apart.
    let out = run("Yyyyyyyy\nYyyyyyyyyyyy", 20, 30, MAX_WIDTH);
    assert_eq!(out.len(), 20);
    let first_band: Vec<&GlyphPlacement> = out.iter().filter(|p| p.y == 130).collect();
    let second_band: Vec<&GlyphPlacement> = out.iter().filter(|p| p.y == 234).collect();
    assert_eq!(first_band.len(), 8);
    assert_eq!(second_band.len(), 12);
    assert_eq!(234 - 130, 104);
    // Both bands start at the left margin and x never decreases.
    assert_eq!(first_band[0].x, 20);
    assert_eq!(second_band[0].x, 20);
    for pair in out.windows(2) {
        if pair[0].y == pair[1].y {
            assert!(pair[0].x <= pair[1].x);
        }
    }
}

#[test]
fn control_characters_are_skipped() {
    // A bell and a carriage return produce no placement and leave the
    // caret alone: the result is identical to laying out "AB".
    let plain = run("AB", 20, 30, MAX_WIDTH);
    let with_bell = run("A\u{7}B", 20, 30, MAX_WIDTH);
    let with_cr = run("A\rB", 20, 30, MAX_WIDTH);
    assert_eq!(with_bell, plain);
    assert_eq!(with_cr, plain);
    assert_eq!(plain, vec![placement(1, 20, 130), placement(2, 75, 130)]);
}

#[test]
fn wrap_boundary_is_strict() {
    // 'A' advances 60 from pos_x 0. Two glyphs carry the caret to exactly
    // pos_x + max_width = 120: no wrap. A third passes it and wraps,
    // itself becoming the head of the next line.
    let two = run("AA", 0, 0, 120);
    assert_eq!(two, vec![placement(1, 0, 100), placement(1, 60, 100)]);
    let three = run("AAA", 0, 0, 120);
    assert_eq!(
        three,
        vec![placement(1, 0, 100), placement(1, 60, 100), placement(1, 0, 204)]
    );
}

#[test]
fn wrap_clears_kerning_state() {
    // With max_width 100 the 'B' wraps (kerned caret 75 + 70 = 145 > 120).
    // The wrapped glyph re-homes to the margin and the caret rests there,
    // so the following 'C' is placed at the margin too, without the
    // kern(B, C) adjustment.
    let out = run("ABC", 20, 30, 100);
    assert_eq!(
        out,
        vec![placement(1, 20, 130), placement(2, 20, 234), placement(4, 20, 234)]
    );
}

#[test]
fn unknown_characters_use_the_default_glyph() {
    let out = run("Z", 20, 30, MAX_WIDTH);
    assert_eq!(out, vec![placement(9, 20, 130)]);
    let two = run("ZZ", 20, 30, MAX_WIDTH);
    assert_eq!(two[1].x, 70);
}
