//! The paragraph layout engine.
//!
//! A single forward pass over the text advances a caret by glyph metrics
//! and kerning, breaks the line at each newline, skips other control
//! characters, and greedily wraps a non-whitespace glyph that would carry
//! the caret past the maximum line width: that glyph itself becomes the
//! first glyph of the next line.

use crate::chars::{is_control_char, is_whitespace_char, spec_is_control, spec_is_whitespace};
use crate::font::{ScaledFont, MAX_METRIC};
use vstd::prelude::*;

verus! {

/// Largest starting-coordinate magnitude layout accepts, in subpixel units.
pub const MAX_COORD: i64 = 0x100_0000_0000;

/// Largest line width layout accepts, in subpixel units. It is wider than
/// any caret position the other bounds allow, so passing it makes the wrap
/// check unreachable: a caller's way of disabling wrapping.
pub const MAX_WIDTH: i64 = 0x4_0000_0000_0000;

/// Longest text layout accepts.
pub const MAX_TEXT_LEN: usize = 0x100_0000;

/// A positioned glyph: which glyph to draw, and the subpixel coordinates
/// its origin should be rendered at.
#[derive(Clone, Copy, PartialEq, Eq, Structural, Debug)]
pub struct GlyphPlacement {
    pub id: u32,
    pub x: i64,
    pub y: i64,
}

/// The mathematical model of a placement, with unbounded coordinates.
pub ghost struct Placement {
    pub id: u32,
    pub x: int,
    pub y: int,
}

impl View for GlyphPlacement {
    type V = Placement;

    open spec fn view(&self) -> Placement {
        Placement { id: self.id, x: self.x as int, y: self.y as int }
    }
}

/// The models of a sequence of placements.
pub open spec fn placement_models(s: Seq<GlyphPlacement>) -> Seq<Placement> {
    s.map_values(|g: GlyphPlacement| g@)
}

/// The transient state of a layout pass: the caret, and the glyph last
/// placed on the current line (kerning applies against it), if any.
pub ghost struct CaretState {
    pub caret_x: int,
    pub caret_y: int,
    pub last: Option<u32>,
}

/// The effect of one character on the caret state, and the placement it
/// emits, if any.
///
/// A newline re-homes the caret to the left margin one line advance down;
/// any other control character changes nothing. A visible character is
/// kerned against the previous glyph, placed at the caret, and the caret
/// advances; if it is not whitespace and the advanced caret passed
/// `pos_x + max_width`, the glyph moves to the head of a fresh line
/// instead, where the caret then rests.
pub open spec fn layout_step(
    font: ScaledFont,
    pos_x: int,
    max_width: int,
    st: CaretState,
    c: char,
) -> (CaretState, Option<Placement>) {
    if spec_is_control(c) {
        if c == '\n' {
            (
                CaretState {
                    caret_x: pos_x,
                    caret_y: st.caret_y + font.spec_line_advance(),
                    last: None,
                },
                None,
            )
        } else {
            (st, None)
        }
    } else {
        let id = font.spec_glyph_id(c);
        let kerned_x = st.caret_x + (match st.last {
            Some(prev) => font.spec_kern(prev, id),
            None => 0,
        });
        let advanced_x = kerned_x + font.spec_advance(c);
        if !spec_is_whitespace(c) && advanced_x > pos_x + max_width {
            let new_y = st.caret_y + font.spec_line_advance();
            (
                CaretState { caret_x: pos_x, caret_y: new_y, last: None },
                Some(Placement { id, x: pos_x, y: new_y }),
            )
        } else {
            (
                CaretState { caret_x: advanced_x, caret_y: st.caret_y, last: Some(id) },
                Some(Placement { id, x: kerned_x, y: st.caret_y }),
            )
        }
    }
}

/// The placements a layout pass emits for `text`, starting from `st`,
/// in text order.
pub open spec fn layout_seq(
    font: ScaledFont,
    pos_x: int,
    max_width: int,
    st: CaretState,
    text: Seq<char>,
) -> Seq<Placement>
    decreases text.len(),
{
    if text.len() == 0 {
        Seq::empty()
    } else {
        let step = layout_step(font, pos_x, max_width, st, text[0]);
        (match step.1 {
            Some(placement) => seq![placement],
            None => Seq::<Placement>::empty(),
        }) + layout_seq(font, pos_x, max_width, step.0, text.drop_first())
    }
}

/// The caret state after a layout pass over `text`, starting from `st`.
pub open spec fn state_after(
    font: ScaledFont,
    pos_x: int,
    max_width: int,
    st: CaretState,
    text: Seq<char>,
) -> CaretState
    decreases text.len(),
{
    if text.len() == 0 {
        st
    } else {
        state_after(
            font,
            pos_x,
            max_width,
            layout_step(font, pos_x, max_width, st, text[0]).0,
            text.drop_first(),
        )
    }
}

/// The caret at the start of a pass: the starting position pushed down by
/// the font's ascent, with no previous glyph.
pub open spec fn initial_state(font: ScaledFont, pos_x: int, pos_y: int) -> CaretState {
    CaretState { caret_x: pos_x, caret_y: pos_y + font.ascent, last: None }
}

/// Everything one call of [`layout_paragraph`] appends, as a function of
/// its inputs alone.
pub open spec fn layout_model(
    font: ScaledFont,
    pos_x: int,
    pos_y: int,
    max_width: int,
    text: Seq<char>,
) -> Seq<Placement> {
    layout_seq(font, pos_x, max_width, initial_state(font, pos_x, pos_y), text)
}

spec fn pack_state(caret_x: i64, caret_y: i64, last: Option<u32>) -> CaretState {
    CaretState { caret_x: caret_x as int, caret_y: caret_y as int, last }
}

/// Lay out `text` as a wrapped paragraph, appending one placement per
/// non-control character to `target`.
///
/// Starting at `(pos_x, pos_y)`, glyphs advance left to right with
/// kerning. `pos_x` is the left margin of every line; the first baseline
/// sits the font's ascent below `pos_y`, and each newline or wrap moves
/// the caret down by the font's line advance — never up. The appended
/// placements are exactly [`layout_model`] of the inputs, so the pass is
/// deterministic: equal inputs give equal placements.
pub fn layout_paragraph(
    font: &ScaledFont,
    pos_x: i64,
    pos_y: i64,
    max_width: i64,
    text: &Vec<char>,
    target: &mut Vec<GlyphPlacement>,
)
    requires
        font.wf(),
        -MAX_COORD <= pos_x <= MAX_COORD,
        -MAX_COORD <= pos_y <= MAX_COORD,
        0 < max_width <= MAX_WIDTH,
        text@.len() <= MAX_TEXT_LEN,
    ensures
        placement_models(final(target)@) == placement_models(old(target)@) + layout_model(
            *font,
            pos_x as int,
            pos_y as int,
            max_width as int,
            text@,
        ),
{
    let v_advance: u32 = font.line_advance();
    let mut caret_x: i64 = pos_x;
    let mut caret_y: i64 = pos_y + font.ascent as i64;
    let mut last: Option<u32> = None;
    let n: usize = text.len();
    let mut i: usize = 0;
    proof {
        assert(text@.skip(0) =~= text@);
        assert(placement_models(old(target)@) + layout_model(
            *font,
            pos_x as int,
            pos_y as int,
            max_width as int,
            text@,
        ) == placement_models(target@) + layout_seq(
            *font,
            pos_x as int,
            max_width as int,
            pack_state(caret_x, caret_y, last),
            text@.skip(0),
        ));
    }
    while i < n
        invariant
            font.wf(),
            -MAX_COORD <= pos_x <= MAX_COORD,
            -MAX_COORD <= pos_y <= MAX_COORD,
            0 < max_width <= MAX_WIDTH,
            n == text@.len(),
            n <= MAX_TEXT_LEN,
            i <= n,
            v_advance as int == font.spec_line_advance(),
            v_advance <= 2 * MAX_METRIC,
            pos_x - 0x200_0000 * (i as int) <= caret_x as int <= pos_x + 0x200_0000 * (i as int),
            pos_y + font.ascent <= caret_y as int <= pos_y + font.ascent + 0x200_0000 * (i as int),
            placement_models(old(target)@) + layout_model(
                *font,
                pos_x as int,
                pos_y as int,
                max_width as int,
                text@,
            ) == placement_models(target@) + layout_seq(
                *font,
                pos_x as int,
                max_width as int,
                pack_state(caret_x, caret_y, last),
                text@.skip(i as int),
            ),
        decreases n - i,
    {
        let ghost st = pack_state(caret_x, caret_y, last);
        let ghost rest = text@.skip(i as int);
        let c = text[i];
        proof {
            assert(rest[0] == text@[i as int]);
            assert(rest.drop_first() =~= text@.skip(i as int + 1));
        }
        if is_control_char(c) {
            if c == '\n' {
                caret_x = pos_x;
                caret_y = caret_y + v_advance as i64;
                last = None;
            }
            proof {
                assert(layout_seq(*font, pos_x as int, max_width as int, st, rest)
                    =~= layout_seq(
                    *font,
                    pos_x as int,
                    max_width as int,
                    pack_state(caret_x, caret_y, last),
                    rest.drop_first(),
                ));
            }
        } else {
            let ghost step = layout_step(*font, pos_x as int, max_width as int, st, c);
            let (id, advance) = font.lookup_glyph(c);
            match last {
                Some(prev) => {
                    let kern = font.lookup_kern(prev, id);
                    caret_x = caret_x + kern;
                },
                None => {},
            }
            let glyph_x = caret_x;
            let glyph_y = caret_y;
            caret_x = caret_x + advance as i64;
            let mut placement = GlyphPlacement { id, x: glyph_x, y: glyph_y };
            last = Some(id);
            if !is_whitespace_char(c) && caret_x > pos_x + max_width {
                caret_y = caret_y + v_advance as i64;
                caret_x = pos_x;
                placement = GlyphPlacement { id, x: pos_x, y: caret_y };
                last = None;
            }
            proof {
                assert(step.0 == pack_state(caret_x, caret_y, last));
                assert(step.1 == Some(placement@));
                assert(layout_seq(*font, pos_x as int, max_width as int, st, rest)
                    =~= seq![placement@] + layout_seq(
                    *font,
                    pos_x as int,
                    max_width as int,
                    pack_state(caret_x, caret_y, last),
                    rest.drop_first(),
                ));
            }
            let ghost before_push = target@;
            target.push(placement);
            proof {
                assert(placement_models(target@) =~= placement_models(before_push) + seq![
                    placement@,
                ]);
            }
        }
        i = i + 1;
        proof {
            assert(placement_models(old(target)@) + layout_model(
                *font,
                pos_x as int,
                pos_y as int,
                max_width as int,
                text@,
            ) =~= placement_models(target@) + layout_seq(
                *font,
                pos_x as int,
                max_width as int,
                pack_state(caret_x, caret_y, last),
                text@.skip(i as int),
            ));
        }
    }
    proof {
        assert(text@.skip(n as int) =~= Seq::<char>::empty());
        assert(placement_models(target@) + layout_seq(
            *font,
            pos_x as int,
            max_width as int,
            pack_state(caret_x, caret_y, last),
            text@.skip(n as int),
        ) =~= placement_models(target@));
    }
}

} // verus!
