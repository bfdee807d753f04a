//! The text-measurement model.
//!
//! Measuring a text run is a capability of the rendering backend.  The
//! layout engine consumes it as data: a `FontMetrics` value fixes the pixel
//! advance of each character (a default plus per-character overrides) and
//! the pixel height of a line, and the width of a run is the sum of its
//! character advances, clipped to the `u32` range.  The empty run falls
//! back to the width of a single space, so measurement never fails.

use vstd::prelude::*;

use crate::geometry::sat32;

verus! {

/// The pixel advance of one character under a font.
#[derive(Clone, Copy, Debug, PartialEq, Eq, Structural)]
pub struct CharWidth {
    pub ch: char,
    pub width: u32,
}

/// The measurement model of a resolved font: a default character advance,
/// per-character overrides, and the pixel height of a measured run.
#[derive(Clone, Debug, PartialEq, Eq)]
pub struct FontMetrics {
    pub default_width: u32,
    pub overrides: Vec<CharWidth>,
    pub text_height: u32,
}

/// The width of `c` under the overrides `ov` with default `d`: the first
/// matching override wins.
pub open spec fn spec_lookup_width(ov: Seq<CharWidth>, c: char, d: u32) -> u32
    decreases ov.len(),
{
    if ov.len() == 0 {
        d
    } else if ov[0].ch == c {
        ov[0].width
    } else {
        spec_lookup_width(ov.drop_first(), c, d)
    }
}

/// The pixel advance of `c` under `fm`.
pub open spec fn spec_char_width(fm: FontMetrics, c: char) -> u32 {
    spec_lookup_width(fm.overrides@, c, fm.default_width)
}

/// The exact width of a run: the sum of its character advances.
pub open spec fn spec_text_width(s: Seq<char>, fm: FontMetrics) -> int
    decreases s.len(),
{
    if s.len() == 0 {
        0
    } else {
        spec_char_width(fm, s[0]) + spec_text_width(s.drop_first(), fm)
    }
}

/// The measured width of a run: the exact width clipped to the `u32`
/// range, with the empty run measured as a single space.
pub open spec fn spec_measure_text_width(s: Seq<char>, fm: FontMetrics) -> int {
    if s.len() == 0 {
        spec_char_width(fm, ' ') as int
    } else {
        sat32(spec_text_width(s, fm))
    }
}

/// Appending a character adds its advance to the exact width.
pub proof fn lemma_text_width_push(s: Seq<char>, c: char, fm: FontMetrics)
    ensures
        spec_text_width(s.push(c), fm) == spec_text_width(s, fm) + spec_char_width(fm, c),
    decreases s.len(),
{
    let sp = s.push(c);
    assert(sp.len() == s.len() + 1);
    assert(spec_text_width(sp, fm) == spec_char_width(fm, sp[0]) + spec_text_width(
        sp.drop_first(),
        fm,
    ));
    if s.len() == 0 {
        assert(sp[0] == c);
        assert(sp.drop_first() =~= Seq::<char>::empty());
        assert(spec_text_width(sp.drop_first(), fm) == 0);
    } else {
        assert(sp[0] == s[0]);
        assert(sp.drop_first() =~= s.drop_first().push(c));
        lemma_text_width_push(s.drop_first(), c, fm);
    }
}

/// The exact width of a run is never negative.
pub proof fn lemma_text_width_nonneg(s: Seq<char>, fm: FontMetrics)
    ensures
        spec_text_width(s, fm) >= 0,
    decreases s.len(),
{
    if s.len() > 0 {
        lemma_text_width_nonneg(s.drop_first(), fm);
    }
}

impl FontMetrics {
    /// The pixel advance of one character: the first matching override, or
    /// the default.
    pub fn char_width(&self, c: char) -> (r: u32)
        ensures
            r == spec_char_width(*self, c),
    {
        let n = self.overrides.len();
        let mut i: usize = 0;
        proof {
            assert(self.overrides@.skip(0) =~= self.overrides@);
        }
        while i < n
            invariant
                n == self.overrides@.len(),
                0 <= i <= n,
                spec_lookup_width(self.overrides@, c, self.default_width) == spec_lookup_width(
                    self.overrides@.skip(i as int),
                    c,
                    self.default_width,
                ),
            decreases n - i,
        {
            let ow = self.overrides[i];
            proof {
                assert(self.overrides@.skip(i as int)[0] == self.overrides@[i as int]);
                assert(self.overrides@.skip(i as int).drop_first() =~= self.overrides@.skip(
                    i as int + 1,
                ));
            }
            if ow.ch == c {
                return ow.width;
            }
            i = i + 1;
        }
        proof {
            assert(self.overrides@.skip(n as int).len() == 0);
        }
        self.default_width
    }
}

/// The measured width of a run: the sum of its character advances, clipped
/// to the `u32` range.
pub fn text_width(text: &str, fm: &FontMetrics) -> (r: u32)
    ensures
        r == sat32(spec_text_width(text@, *fm)),
{
    let n = text.unicode_len();
    let mut acc: u32 = 0;
    let mut i: usize = 0;
    proof {
        assert(text@.subrange(0, 0) =~= Seq::<char>::empty());
    }
    while i < n
        invariant
            n == text@.len(),
            0 <= i <= n,
            acc == sat32(spec_text_width(text@.subrange(0, i as int), *fm)),
        decreases n - i,
    {
        let c = text.get_char(i);
        let w = fm.char_width(c);
        proof {
            lemma_text_width_nonneg(text@.subrange(0, i as int), *fm);
            lemma_text_width_push(text@.subrange(0, i as int), c, *fm);
            assert(text@.subrange(0, i as int).push(c) =~= text@.subrange(0, i as int + 1));
        }
        let t: u64 = acc as u64 + w as u64;
        acc = if t > u32::MAX as u64 {
            u32::MAX
        } else {
            t as u32
        };
        i = i + 1;
    }
    proof {
        assert(text@.subrange(0, n as int) =~= text@);
    }
    acc
}

/// Measures a text run: its width and the line height of the font.  The
/// empty run is measured as a single space, so measurement never fails.
pub fn measure_text(text: &str, fm: &FontMetrics) -> (r: (u32, u32))
    ensures
        r.0 == spec_measure_text_width(text@, *fm),
        r.1 == fm.text_height,
{
    if text.unicode_len() == 0 {
        (fm.char_width(' '), fm.text_height)
    } else {
        (text_width(text, fm), fm.text_height)
    }
}

/// Measures a text run with a resolved font; identical to `measure_text`.
pub fn measure_text_with_font(text: &str, fm: &FontMetrics) -> (r: (u32, u32))
    ensures
        r.0 == spec_measure_text_width(text@, *fm),
        r.1 == fm.text_height,
{
    measure_text(text, fm)
}

/// The exact width of a concatenation is the sum of the widths.
pub proof fn lemma_text_width_add(a: Seq<char>, b: Seq<char>, fm: FontMetrics)
    ensures
        spec_text_width(a + b, fm) == spec_text_width(a, fm) + spec_text_width(b, fm),
    decreases a.len(),
{
    if a.len() == 0 {
        assert(a + b =~= b);
    } else {
        assert((a + b)[0] == a[0]);
        assert((a + b).drop_first() =~= a.drop_first() + b);
        lemma_text_width_add(a.drop_first(), b, fm);
    }
}

} // verus!
