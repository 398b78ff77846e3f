//! Laws of the layout engine, each proved against [`crate::layout`]'s model.

use crate::chars::{spec_is_control, spec_is_whitespace};
use crate::font::ScaledFont;
use crate::layout::{
    initial_state, layout_model, layout_seq, layout_step, state_after, CaretState, Placement,
};
use vstd::prelude::*;

verus! {

/// How many characters of `text` receive a placement: all but the
/// control characters.
pub open spec fn count_visible(text: Seq<char>) -> int
    decreases text.len(),
{
    if text.len() == 0 {
        0
    } else {
        (if spec_is_control(text[0]) {
            0int
        } else {
            1int
        }) + count_visible(text.drop_first())
    }
}

/// The first non-control character of `text` (a null character when
/// there is none).
pub open spec fn first_visible(text: Seq<char>) -> char
    decreases text.len(),
{
    if text.len() == 0 {
        '\u{0}'
    } else if !spec_is_control(text[0]) {
        text[0]
    } else {
        first_visible(text.drop_first())
    }
}

/// Whether laying out `c` from state `st` wraps to a new line: `c` is a
/// visible non-whitespace character and placing it would carry the caret
/// past `pos_x + max_width`.
pub open spec fn wraps(
    font: ScaledFont,
    pos_x: int,
    max_width: int,
    st: CaretState,
    c: char,
) -> bool {
    &&& !spec_is_control(c)
    &&& !spec_is_whitespace(c)
    &&& ({
        let id = font.spec_glyph_id(c);
        let kerned_x = st.caret_x + (match st.last {
            Some(prev) => font.spec_kern(prev, id),
            None => 0,
        });
        kerned_x + font.spec_advance(c) > pos_x + max_width
    })
}

/// No character of `text` wraps during a pass out of `st`.
pub open spec fn no_wrap_run(
    font: ScaledFont,
    pos_x: int,
    max_width: int,
    st: CaretState,
    text: Seq<char>,
) -> bool
    decreases text.len(),
{
    text.len() == 0 || (!wraps(font, pos_x, max_width, st, text[0]) && no_wrap_run(
        font,
        pos_x,
        max_width,
        layout_step(font, pos_x, max_width, st, text[0]).0,
        text.drop_first(),
    ))
}

/// Kerning never pulls a glyph left of the previous glyph's origin: each
/// adjustment is outweighed by the advance before it. Ordinary fonts
/// satisfy this; a font whose kerning undoes whole advances does not.
pub open spec fn kerning_bounded(font: ScaledFont) -> bool {
    forall|c1: char, c2: char|
        font.spec_advance(c1) + #[trigger] font.spec_kern(
            font.spec_glyph_id(c1),
            font.spec_glyph_id(c2),
        ) >= 0
}

proof fn lemma_single_line_rec(
    font: ScaledFont,
    pos_x: int,
    max_width: int,
    st: CaretState,
    text: Seq<char>,
)
    requires
        kerning_bounded(font),
        forall|i: int| 0 <= i < text.len() ==> text[i] != '\n',
        no_wrap_run(font, pos_x, max_width, st, text),
    ensures
        ({
            let r = layout_seq(font, pos_x, max_width, st, text);
            &&& r.len() == count_visible(text)
            &&& forall|j: int| 0 <= j < r.len() ==> (#[trigger] r[j]).y == st.caret_y
            &&& forall|j: int| 0 <= j < r.len() - 1 ==> (#[trigger] r[j]).x <= r[j + 1].x
            &&& r.len() > 0 ==> r[0].x == st.caret_x + (match st.last {
                Some(prev) => font.spec_kern(prev, font.spec_glyph_id(first_visible(text))),
                None => 0,
            })
        }),
    decreases text.len(),
{
    if text.len() == 0 {
        // Nothing is emitted.
    } else if spec_is_control(text[0]) {
        let c = text[0];
        let rest = text.drop_first();
        let r = layout_seq(font, pos_x, max_width, st, text);
        assert forall|i: int| 0 <= i < rest.len() implies rest[i] != '\n' by {
            assert(rest[i] == text[i + 1]);
        }
        let rr = layout_seq(font, pos_x, max_width, st, rest);
        assert(layout_step(font, pos_x, max_width, st, c) == (st, None::<Placement>));
        lemma_single_line_rec(font, pos_x, max_width, st, rest);
        assert(r =~= rr);
    } else {
        let c = text[0];
        let rest = text.drop_first();
        let r = layout_seq(font, pos_x, max_width, st, text);
        assert forall|i: int| 0 <= i < rest.len() implies rest[i] != '\n' by {
            assert(rest[i] == text[i + 1]);
        }
        let id = font.spec_glyph_id(c);
        let kern = match st.last {
            Some(prev) => font.spec_kern(prev, id),
            None => 0,
        };
        let kerned_x = st.caret_x + kern;
        let advanced_x = kerned_x + font.spec_advance(c);
        let st2 = CaretState { caret_x: advanced_x, caret_y: st.caret_y, last: Some(id) };
        let pl = Placement { id, x: kerned_x, y: st.caret_y };
        assert(!wraps(font, pos_x, max_width, st, c));
        assert(layout_step(font, pos_x, max_width, st, c) == (st2, Some(pl)));
        let rr = layout_seq(font, pos_x, max_width, st2, rest);
        lemma_single_line_rec(font, pos_x, max_width, st2, rest);
        assert(r == seq![pl] + rr);
        assert(r.len() == 1 + rr.len());
        assert forall|j: int| 0 <= j < r.len() implies (#[trigger] r[j]).y == st.caret_y by {
            if j == 0 {
                assert(r[0] == pl);
            } else {
                assert(r[j] == rr[j - 1]);
            }
        }
        assert forall|j: int| 0 <= j < r.len() - 1 implies (#[trigger] r[j]).x <= r[j + 1].x by {
            if j == 0 {
                assert(r[0] == pl);
                if rr.len() > 0 {
                    assert(font.spec_advance(c) + font.spec_kern(
                        font.spec_glyph_id(c),
                        font.spec_glyph_id(first_visible(rest)),
                    ) >= 0);
                    assert(rr[0].x == st2.caret_x + font.spec_kern(
                        id,
                        font.spec_glyph_id(first_visible(rest)),
                    ));
                    assert(r[1] == rr[0]);
                }
            } else {
                assert(r[j] == rr[j - 1]);
                assert(r[j + 1] == rr[j]);
            }
        }
        assert(r[0] == pl);
    }
}

/// Law: a text with no newline, none of whose glyphs overruns the line
/// width, stays on a single line — one placement per non-control
/// character, every placement on the starting baseline, and, for a font
/// with bounded kerning, x coordinates that never decrease.
pub proof fn lemma_single_line(
    font: ScaledFont,
    pos_x: int,
    pos_y: int,
    max_width: int,
    text: Seq<char>,
)
    requires
        kerning_bounded(font),
        forall|i: int| 0 <= i < text.len() ==> text[i] != '\n',
        no_wrap_run(font, pos_x, max_width, initial_state(font, pos_x, pos_y), text),
    ensures
        ({
            let r = layout_model(font, pos_x, pos_y, max_width, text);
            &&& r.len() == count_visible(text)
            &&& forall|j: int| 0 <= j < r.len() ==> (#[trigger] r[j]).y == pos_y + font.ascent
            &&& forall|j: int| 0 <= j < r.len() - 1 ==> (#[trigger] r[j]).x <= r[j + 1].x
        }),
{
    lemma_single_line_rec(font, pos_x, max_width, initial_state(font, pos_x, pos_y), text);
}

/// Law: a newline re-homes the caret and nothing else. For the text
/// `[a, '\n', b]`, when the two glyphs fit the line width, `b` is placed
/// at the same x as `a`, exactly one line advance below it.
pub proof fn lemma_newline_baseline(
    font: ScaledFont,
    pos_x: int,
    pos_y: int,
    max_width: int,
    a: char,
    b: char,
)
    requires
        !spec_is_control(a),
        !spec_is_control(b),
        font.spec_advance(a) <= max_width,
        font.spec_advance(b) <= max_width,
    ensures
        ({
            let r = layout_model(font, pos_x, pos_y, max_width, seq![a, '\n', b]);
            &&& r.len() == 2
            &&& r[0].x == pos_x
            &&& r[1].x == r[0].x
            &&& r[0].y == pos_y + font.ascent
            &&& r[1].y == r[0].y + font.spec_line_advance()
        }),
{
    let t = seq![a, '\n', b];
    let st0 = initial_state(font, pos_x, pos_y);
    let y0 = pos_y + font.ascent;
    let ida = font.spec_glyph_id(a);
    let pla = Placement { id: ida, x: pos_x, y: y0 };
    let st1 = CaretState {
        caret_x: pos_x + font.spec_advance(a),
        caret_y: y0,
        last: Some(ida),
    };
    assert(layout_step(font, pos_x, max_width, st0, a) == (st1, Some(pla)));
    assert(spec_is_control('\n'));
    let st2 = CaretState { caret_x: pos_x, caret_y: y0 + font.spec_line_advance(), last: None };
    assert(layout_step(font, pos_x, max_width, st1, '\n') == (st2, None::<Placement>));
    let idb = font.spec_glyph_id(b);
    let plb = Placement { id: idb, x: pos_x, y: st2.caret_y };
    let st3 = CaretState {
        caret_x: pos_x + font.spec_advance(b),
        caret_y: st2.caret_y,
        last: Some(idb),
    };
    assert(layout_step(font, pos_x, max_width, st2, b) == (st3, Some(plb)));
    assert(t.drop_first() =~= seq!['\n', b]);
    assert(seq!['\n', b].drop_first() =~= seq![b]);
    assert(seq![b].drop_first() =~= Seq::<char>::empty());
    let r = layout_model(font, pos_x, pos_y, max_width, t);
    assert(layout_seq(font, pos_x, max_width, st3, Seq::<char>::empty()) == Seq::<
        Placement,
    >::empty());
    assert(layout_seq(font, pos_x, max_width, st2, seq![b]) == seq![plb] + Seq::<
        Placement,
    >::empty());
    assert(layout_seq(font, pos_x, max_width, st1, seq!['\n', b]) == Seq::<Placement>::empty()
        + layout_seq(font, pos_x, max_width, st2, seq![b]));
    assert(r == seq![pla] + layout_seq(font, pos_x, max_width, st1, seq!['\n', b]));
    assert(r =~= seq![pla, plb]);
}

proof fn lemma_layout_seq_append(
    font: ScaledFont,
    pos_x: int,
    max_width: int,
    st: CaretState,
    s1: Seq<char>,
    s2: Seq<char>,
)
    ensures
        layout_seq(font, pos_x, max_width, st, s1 + s2) == layout_seq(font, pos_x, max_width, st, s1)
            + layout_seq(
            font,
            pos_x,
            max_width,
            state_after(font, pos_x, max_width, st, s1),
            s2,
        ),
    decreases s1.len(),
{
    if s1.len() == 0 {
        assert(s1 + s2 =~= s2);
        assert(layout_seq(font, pos_x, max_width, st, s1) + layout_seq(
            font,
            pos_x,
            max_width,
            st,
            s2,
        ) =~= layout_seq(font, pos_x, max_width, st, s2));
    } else {
        let step = layout_step(font, pos_x, max_width, st, s1[0]);
        let out0 = match step.1 {
            Some(placement) => seq![placement],
            None => Seq::<Placement>::empty(),
        };
        assert((s1 + s2)[0] == s1[0]);
        assert((s1 + s2).drop_first() =~= s1.drop_first() + s2);
        lemma_layout_seq_append(font, pos_x, max_width, step.0, s1.drop_first(), s2);
        let tail1 = layout_seq(font, pos_x, max_width, step.0, s1.drop_first());
        let tail2 = layout_seq(
            font,
            pos_x,
            max_width,
            state_after(font, pos_x, max_width, st, s1),
            s2,
        );
        assert(layout_seq(font, pos_x, max_width, st, s1 + s2) == out0 + (tail1 + tail2));
        assert(out0 + (tail1 + tail2) =~= (out0 + tail1) + tail2);
    }
}

proof fn lemma_whitespace_run(
    font: ScaledFont,
    pos_x: int,
    max_width: int,
    st: CaretState,
    ws: Seq<char>,
)
    requires
        forall|i: int|
            0 <= i < ws.len() ==> spec_is_whitespace(#[trigger] ws[i]) && !spec_is_control(ws[i]),
    ensures
        ({
            let r = layout_seq(font, pos_x, max_width, st, ws);
            &&& r.len() == ws.len()
            &&& forall|j: int| 0 <= j < r.len() ==> (#[trigger] r[j]).y == st.caret_y
        }),
        state_after(font, pos_x, max_width, st, ws).caret_y == st.caret_y,
    decreases ws.len(),
{
    if ws.len() == 0 {
        // Nothing is emitted and the state is unchanged.
    } else {
        let c = ws[0];
        let rest = ws.drop_first();
        let id = font.spec_glyph_id(c);
        let kern = match st.last {
            Some(prev) => font.spec_kern(prev, id),
            None => 0,
        };
        let kerned_x = st.caret_x + kern;
        let advanced_x = kerned_x + font.spec_advance(c);
        let st2 = CaretState { caret_x: advanced_x, caret_y: st.caret_y, last: Some(id) };
        let pl = Placement { id, x: kerned_x, y: st.caret_y };
        assert(layout_step(font, pos_x, max_width, st, c) == (st2, Some(pl)));
        assert forall|i: int|
            0 <= i < rest.len() implies spec_is_whitespace(#[trigger] rest[i]) && !spec_is_control(
            rest[i],
        ) by {
            assert(rest[i] == ws[i + 1]);
        }
        lemma_whitespace_run(font, pos_x, max_width, st2, rest);
        let r = layout_seq(font, pos_x, max_width, st, ws);
        let rr = layout_seq(font, pos_x, max_width, st2, rest);
        assert(r == seq![pl] + rr);
        assert forall|j: int| 0 <= j < r.len() implies (#[trigger] r[j]).y == st.caret_y by {
            if j == 0 {
                assert(r[0] == pl);
            } else {
                assert(r[j] == rr[j - 1]);
            }
        }
    }
}

/// Law: whitespace never triggers a wrap. A whitespace run that has
/// already overrun the line width still lands on the first line in full;
/// the first visible glyph after it is what moves to the next line, at
/// the left margin.
pub proof fn lemma_whitespace_never_wraps(
    font: ScaledFont,
    pos_x: int,
    pos_y: int,
    max_width: int,
    ws: Seq<char>,
    v: char,
)
    requires
        forall|i: int|
            0 <= i < ws.len() ==> spec_is_whitespace(#[trigger] ws[i]) && !spec_is_control(ws[i]),
        wraps(
            font,
            pos_x,
            max_width,
            state_after(font, pos_x, max_width, initial_state(font, pos_x, pos_y), ws),
            v,
        ),
    ensures
        ({
            let r = layout_model(font, pos_x, pos_y, max_width, ws.push(v));
            &&& r.len() == ws.len() + 1
            &&& forall|j: int| 0 <= j < ws.len() ==> (#[trigger] r[j]).y == pos_y + font.ascent
            &&& r[ws.len() as int].x == pos_x
            &&& r[ws.len() as int].y == pos_y + font.ascent + font.spec_line_advance()
        }),
{
    let st0 = initial_state(font, pos_x, pos_y);
    let stw = state_after(font, pos_x, max_width, st0, ws);
    assert(ws.push(v) =~= ws + seq![v]);
    lemma_layout_seq_append(font, pos_x, max_width, st0, ws, seq![v]);
    lemma_whitespace_run(font, pos_x, max_width, st0, ws);
    let idv = font.spec_glyph_id(v);
    let plv = Placement { id: idv, x: pos_x, y: stw.caret_y + font.spec_line_advance() };
    let stv = CaretState {
        caret_x: pos_x,
        caret_y: stw.caret_y + font.spec_line_advance(),
        last: None,
    };
    assert(layout_step(font, pos_x, max_width, stw, v) == (stv, Some(plv)));
    assert(seq![v].drop_first() =~= Seq::<char>::empty());
    assert(seq![v].len() == 1);
    assert(seq![v][0] == v);
    assert(layout_seq(font, pos_x, max_width, stv, Seq::<char>::empty()) == Seq::<
        Placement,
    >::empty());
    assert(layout_seq(font, pos_x, max_width, stw, seq![v]) == seq![plv] + Seq::<
        Placement,
    >::empty());
    let first = layout_seq(font, pos_x, max_width, st0, ws);
    let r = layout_model(font, pos_x, pos_y, max_width, ws.push(v));
    assert(r == first + (seq![plv] + Seq::<Placement>::empty()));
    assert(r =~= first + seq![plv]);
    assert forall|j: int| 0 <= j < ws.len() implies (#[trigger] r[j]).y == pos_y + font.ascent by {
        assert(r[j] == first[j]);
    }
    assert(r[ws.len() as int] == plv);
}

/// Law: zero-length text produces no placements.
pub proof fn lemma_empty_text(font: ScaledFont, pos_x: int, pos_y: int, max_width: int)
    ensures
        layout_model(font, pos_x, pos_y, max_width, Seq::<char>::empty()).len() == 0,
{
}

proof fn lemma_baseline_monotonic_rec(
    font: ScaledFont,
    pos_x: int,
    max_width: int,
    st: CaretState,
    text: Seq<char>,
)
    requires
        font.wf(),
    ensures
        ({
            let r = layout_seq(font, pos_x, max_width, st, text);
            &&& forall|j: int| 0 <= j < r.len() ==> (#[trigger] r[j]).y >= st.caret_y
            &&& forall|j: int| 0 <= j < r.len() - 1 ==> (#[trigger] r[j]).y <= r[j + 1].y
        }),
        state_after(font, pos_x, max_width, st, text).caret_y >= st.caret_y,
    decreases text.len(),
{
    font.lemma_line_advance_bounds();
    if text.len() == 0 {
        // Nothing is emitted and the state is unchanged.
    } else {
        let c = text[0];
        let rest = text.drop_first();
        let r = layout_seq(font, pos_x, max_width, st, text);
        let step = layout_step(font, pos_x, max_width, st, c);
        lemma_baseline_monotonic_rec(font, pos_x, max_width, step.0, rest);
        let rr = layout_seq(font, pos_x, max_width, step.0, rest);
        match step.1 {
            None => {
                assert(r =~= rr);
            },
            Some(pl) => {
                assert(r == seq![pl] + rr);
                assert(pl.y >= st.caret_y);
                assert(step.0.caret_y >= pl.y);
                assert forall|j: int| 0 <= j < r.len() implies (#[trigger] r[j]).y
                    >= st.caret_y by {
                    if j == 0 {
                        assert(r[0] == pl);
                    } else {
                        assert(r[j] == rr[j - 1]);
                    }
                }
                assert forall|j: int| 0 <= j < r.len() - 1 implies (#[trigger] r[j]).y <= r[j
                    + 1].y by {
                    if j == 0 {
                        assert(r[0] == pl);
                        if rr.len() > 0 {
                            assert(r[1] == rr[0]);
                            assert(rr[0].y >= step.0.caret_y);
                        }
                    } else {
                        assert(r[j] == rr[j - 1]);
                        assert(r[j + 1] == rr[j]);
                    }
                }
            },
        }
    }
}

/// Law: the baseline never moves up. Within one pass of a well-formed
/// font, successive placements have non-decreasing y, and none sits above
/// the starting baseline.
pub proof fn lemma_baseline_monotonic(
    font: ScaledFont,
    pos_x: int,
    pos_y: int,
    max_width: int,
    text: Seq<char>,
)
    requires
        font.wf(),
    ensures
        ({
            let r = layout_model(font, pos_x, pos_y, max_width, text);
            &&& forall|j: int| 0 <= j < r.len() ==> (#[trigger] r[j]).y >= pos_y + font.ascent
            &&& forall|j: int| 0 <= j < r.len() - 1 ==> (#[trigger] r[j]).y <= r[j + 1].y
        }),
{
    lemma_baseline_monotonic_rec(
        font,
        pos_x,
        max_width,
        initial_state(font, pos_x, pos_y),
        text,
    );
}

} // verus!
