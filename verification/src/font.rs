//! Font metrics at a fixed pixel scale, in integer subpixel units.
//!
//! A [`ScaledFont`] is plain data: vertical metrics, a table resolving
//! characters to glyph ids and horizontal advances, and a kerning table for
//! glyph pairs. A caller measures a real font at its chosen scale, converts
//! the measurements to subpixel integers, and fills the tables; the layout
//! engine then works on these values alone.

use vstd::arithmetic::div_mod::lemma_div_is_ordered;
use vstd::prelude::*;

verus! {

/// Largest magnitude allowed for a single metric (an advance, a kerning
/// adjustment, the ascent, the height or the line gap), in subpixel units.
pub const MAX_METRIC: u32 = 0x100_0000;

/// One entry of the glyph table: a character, the id of its glyph in the
/// underlying font, and that glyph's horizontal advance.
#[derive(Clone, Copy, PartialEq, Eq, Structural, Debug)]
pub struct GlyphInfo {
    pub ch: char,
    pub id: u32,
    pub advance: u32,
}

/// One entry of the kerning table: the horizontal adjustment applied when
/// the glyphs `left` and `right` are neighbours on a line.
#[derive(Clone, Copy, PartialEq, Eq, Structural, Debug)]
pub struct KernInfo {
    pub left: u32,
    pub right: u32,
    pub adjust: i64,
}

/// A font's metrics at one fixed pixel scale.
///
/// A character with no entry in `glyphs` resolves to `default_id` with
/// `default_advance` (fonts map unknown characters to a fallback glyph).
/// A glyph pair with no entry in `kerns` has kerning zero.
pub struct ScaledFont {
    pub ascent: u32,
    pub height: u32,
    pub line_gap: u32,
    pub default_id: u32,
    pub default_advance: u32,
    pub glyphs: Vec<GlyphInfo>,
    pub kerns: Vec<KernInfo>,
}

impl ScaledFont {
    /// Every metric is bounded by [`MAX_METRIC`], so that a layout pass
    /// over a bounded text cannot overflow its caret arithmetic.
    pub open spec fn wf(self) -> bool {
        &&& self.ascent <= MAX_METRIC
        &&& self.height <= MAX_METRIC
        &&& self.line_gap <= MAX_METRIC
        &&& self.default_advance <= MAX_METRIC
        &&& forall|i: int|
            0 <= i < self.glyphs@.len() ==> (#[trigger] self.glyphs@[i]).advance <= MAX_METRIC
        &&& forall|i: int|
            0 <= i < self.kerns@.len() ==> -(MAX_METRIC as int)
                <= (#[trigger] self.kerns@[i]).adjust <= MAX_METRIC as int
    }

    /// The first glyph-table entry for `c`, if any.
    pub open spec fn spec_find_glyph(entries: Seq<GlyphInfo>, c: char) -> Option<GlyphInfo>
        decreases entries.len(),
    {
        if entries.len() == 0 {
            None
        } else if entries[0].ch == c {
            Some(entries[0])
        } else {
            Self::spec_find_glyph(entries.drop_first(), c)
        }
    }

    /// The first kerning-table entry for the pair `(left, right)`, if any.
    pub open spec fn spec_find_kern(entries: Seq<KernInfo>, left: u32, right: u32) -> Option<
        KernInfo,
    >
        decreases entries.len(),
    {
        if entries.len() == 0 {
            None
        } else if entries[0].left == left && entries[0].right == right {
            Some(entries[0])
        } else {
            Self::spec_find_kern(entries.drop_first(), left, right)
        }
    }

    /// The glyph id `c` resolves to.
    pub open spec fn spec_glyph_id(self, c: char) -> u32 {
        match Self::spec_find_glyph(self.glyphs@, c) {
            Some(g) => g.id,
            None => self.default_id,
        }
    }

    /// The horizontal advance of the glyph `c` resolves to.
    pub open spec fn spec_advance(self, c: char) -> int {
        match Self::spec_find_glyph(self.glyphs@, c) {
            Some(g) => g.advance as int,
            None => self.default_advance as int,
        }
    }

    /// The kerning adjustment between the glyphs `left` and `right`.
    pub open spec fn spec_kern(self, left: u32, right: u32) -> int {
        match Self::spec_find_kern(self.kerns@, left, right) {
            Some(k) => k.adjust as int,
            None => 0,
        }
    }

    /// The vertical distance between successive baselines: a deliberately
    /// tightened 4/5 of (height + line gap), rounded down.
    pub open spec fn spec_line_advance(self) -> int {
        (self.height + self.line_gap) * 4 / 5
    }

    /// The advance of a well-formed font is bounded like every metric.
    pub proof fn lemma_advance_bounds(self, c: char)
        requires
            self.wf(),
        ensures
            0 <= self.spec_advance(c) <= MAX_METRIC,
    {
        Self::lemma_find_glyph_is_entry(self.glyphs@, c);
    }

    /// The kerning of a well-formed font is bounded like every metric.
    pub proof fn lemma_kern_bounds(self, left: u32, right: u32)
        requires
            self.wf(),
        ensures
            -(MAX_METRIC as int) <= self.spec_kern(left, right) <= MAX_METRIC as int,
    {
        Self::lemma_find_kern_is_entry(self.kerns@, left, right);
    }

    /// The line advance of a well-formed font is non-negative and bounded.
    pub proof fn lemma_line_advance_bounds(self)
        requires
            self.wf(),
        ensures
            0 <= self.spec_line_advance() <= 2 * MAX_METRIC,
    {
        let sum = (self.height + self.line_gap) * 4;
        assert(sum <= 8 * MAX_METRIC);
        lemma_div_is_ordered(sum as int, 8 * MAX_METRIC as int, 5);
    }

    proof fn lemma_find_glyph_is_entry(entries: Seq<GlyphInfo>, c: char)
        ensures
            match Self::spec_find_glyph(entries, c) {
                Some(g) => exists|i: int| 0 <= i < entries.len() && entries[i] == g,
                None => true,
            },
        decreases entries.len(),
    {
        if entries.len() > 0 && entries[0].ch != c {
            Self::lemma_find_glyph_is_entry(entries.drop_first(), c);
            if let Some(g) = Self::spec_find_glyph(entries.drop_first(), c) {
                let i = choose|i: int|
                    0 <= i < entries.drop_first().len() && entries.drop_first()[i] == g;
                assert(entries[i + 1] == g);
            }
        }
    }

    proof fn lemma_find_kern_is_entry(entries: Seq<KernInfo>, left: u32, right: u32)
        ensures
            match Self::spec_find_kern(entries, left, right) {
                Some(k) => exists|i: int| 0 <= i < entries.len() && entries[i] == k,
                None => true,
            },
        decreases entries.len(),
    {
        if entries.len() > 0 && !(entries[0].left == left && entries[0].right == right) {
            Self::lemma_find_kern_is_entry(entries.drop_first(), left, right);
            if let Some(k) = Self::spec_find_kern(entries.drop_first(), left, right) {
                let i = choose|i: int|
                    0 <= i < entries.drop_first().len() && entries.drop_first()[i] == k;
                assert(entries[i + 1] == k);
            }
        }
    }

    /// Resolve `c` to its glyph id and horizontal advance.
    pub fn lookup_glyph(&self, c: char) -> (r: (u32, u32))
        requires
            self.wf(),
        ensures
            r.0 == self.spec_glyph_id(c),
            r.1 as int == self.spec_advance(c),
            r.1 <= MAX_METRIC,
    {
        let n: usize = self.glyphs.len();
        let mut i: usize = 0;
        proof {
            assert(self.glyphs@.skip(0) =~= self.glyphs@);
        }
        while i < n
            invariant
                self.wf(),
                n == self.glyphs@.len(),
                i <= n,
                Self::spec_find_glyph(self.glyphs@, c) == Self::spec_find_glyph(
                    self.glyphs@.skip(i as int),
                    c,
                ),
            decreases n - i,
        {
            let g = self.glyphs[i];
            proof {
                assert(self.glyphs@.skip(i as int)[0] == self.glyphs@[i as int]);
            }
            if g.ch == c {
                return (g.id, g.advance);
            }
            proof {
                assert(self.glyphs@.skip(i as int).drop_first() =~= self.glyphs@.skip(
                    i as int + 1,
                ));
            }
            i = i + 1;
        }
        proof {
            assert(self.glyphs@.skip(n as int) =~= Seq::<GlyphInfo>::empty());
        }
        (self.default_id, self.default_advance)
    }

    /// The kerning adjustment between the glyphs `left` and `right`.
    pub fn lookup_kern(&self, left: u32, right: u32) -> (r: i64)
        requires
            self.wf(),
        ensures
            r as int == self.spec_kern(left, right),
            -(MAX_METRIC as i64) <= r <= MAX_METRIC as i64,
    {
        let n: usize = self.kerns.len();
        let mut i: usize = 0;
        proof {
            assert(self.kerns@.skip(0) =~= self.kerns@);
        }
        while i < n
            invariant
                self.wf(),
                n == self.kerns@.len(),
                i <= n,
                Self::spec_find_kern(self.kerns@, left, right) == Self::spec_find_kern(
                    self.kerns@.skip(i as int),
                    left,
                    right,
                ),
            decreases n - i,
        {
            let k = self.kerns[i];
            proof {
                assert(self.kerns@.skip(i as int)[0] == self.kerns@[i as int]);
            }
            if k.left == left && k.right == right {
                return k.adjust;
            }
            proof {
                assert(self.kerns@.skip(i as int).drop_first() =~= self.kerns@.skip(i as int + 1));
            }
            i = i + 1;
        }
        proof {
            assert(self.kerns@.skip(n as int) =~= Seq::<KernInfo>::empty());
        }
        0
    }

    /// The vertical line advance at this scale: 4/5 of (height + line gap).
    pub fn line_advance(&self) -> (r: u32)
        requires
            self.wf(),
        ensures
            r as int == self.spec_line_advance(),
            r <= 2 * MAX_METRIC,
    {
        proof {
            self.lemma_line_advance_bounds();
        }
        (self.height + self.line_gap) * 4 / 5
    }
}

} // verus!
