//! The text layout engine: whitespace tokenization, greedy width-bounded
//! wrapping, ellipsis truncation, per-line anchor placement, and the
//! highlight box drawn behind a text run.

use vstd::prelude::*;

use crate::geometry::sat32;
use vstd::arithmetic::mul::lemma_mul_upper_bound;
use vstd::arithmetic::mul::lemma_mul_nonnegative;
use vstd::arithmetic::div_mod::lemma_div_is_ordered;
use crate::metrics::FontMetrics;
use crate::metrics::lemma_text_width_nonneg;
use crate::metrics::lemma_text_width_push;
use crate::metrics::lemma_text_width_add;
use crate::metrics::measure_text;
use crate::metrics::measure_text_with_font;
use crate::metrics::spec_char_width;
use crate::metrics::spec_measure_text_width;
use crate::metrics::spec_text_width;
use crate::model::TextAlignType;
use crate::model::TextDirectionType;

verus! {

/// Whether `c` carries the Unicode white-space property (the separator
/// set that word splitting breaks on).
pub open spec fn spec_is_space(c: char) -> bool {
    ||| 0x09 <= c as u32 <= 0x0D
    ||| c as u32 == 0x20
    ||| c as u32 == 0x85
    ||| c as u32 == 0xA0
    ||| c as u32 == 0x1680
    ||| 0x2000 <= c as u32 <= 0x200A
    ||| c as u32 == 0x2028
    ||| c as u32 == 0x2029
    ||| c as u32 == 0x202F
    ||| c as u32 == 0x205F
    ||| c as u32 == 0x3000
}

/// Whether `c` is a white-space character.
pub fn is_space_char(c: char) -> (r: bool)
    ensures
        r == spec_is_space(c),
{
    let u = c as u32;
    (0x09 <= u && u <= 0x0D) || u == 0x20 || u == 0x85 || u == 0xA0 || u == 0x1680 || (0x2000 <= u
        && u <= 0x200A) || u == 0x2028 || u == 0x2029 || u == 0x202F || u == 0x205F || u == 0x3000
}

/// One step of the tokenizer: white space commits the pending token (when
/// non-empty); any other character extends it.
pub open spec fn spec_tok_step(st: (Seq<Seq<char>>, Seq<char>), c: char) -> (Seq<Seq<char>>, Seq<
    char,
>) {
    if spec_is_space(c) {
        if st.1.len() > 0 {
            (st.0.push(st.1), Seq::<char>::empty())
        } else {
            st
        }
    } else {
        (st.0, st.1.push(c))
    }
}

/// The tokenizer state after consuming the first `i` characters of `s`.
pub open spec fn spec_tok_fold(s: Seq<char>, i: int) -> (Seq<Seq<char>>, Seq<char>)
    decreases i,
{
    if i <= 0 {
        (Seq::<Seq<char>>::empty(), Seq::<char>::empty())
    } else {
        spec_tok_step(spec_tok_fold(s, i - 1), s[i - 1])
    }
}

/// The white-space-separated tokens of `s`, in order.
pub open spec fn spec_tokens(s: Seq<char>) -> Seq<Seq<char>> {
    let st = spec_tok_fold(s, s.len() as int);
    if st.1.len() > 0 {
        st.0.push(st.1)
    } else {
        st.0
    }
}

/// Splits a text run into its white-space-separated tokens.
pub fn split_whitespace_tokens(text: &str) -> (r: Vec<String>)
    ensures
        r@.len() == spec_tokens(text@).len(),
        forall|i: int| 0 <= i < r@.len() ==> r@[i]@ == spec_tokens(text@)[i],
{
    let n = text.unicode_len();
    let mut tokens: Vec<String> = Vec::new();
    let mut start: usize = 0;
    let mut i: usize = 0;
    proof {
        assert(text@.subrange(0, 0) =~= Seq::<char>::empty());
    }
    while i < n
        invariant
            n == text@.len(),
            0 <= start <= i <= n,
            spec_tok_fold(text@, i as int).0.len() == tokens@.len(),
            forall|j: int|
                0 <= j < tokens@.len() ==> tokens@[j]@ == spec_tok_fold(text@, i as int).0[j],
            spec_tok_fold(text@, i as int).1 == text@.subrange(start as int, i as int),
            spec_tok_fold(text@, i as int).1.len() == 0 ==> start == i,
        decreases n - i,
    {
        let c = text.get_char(i);
        if is_space_char(c) {
            if start < i {
                let tok = text.substring_char(start, i).to_owned();
                tokens.push(tok);
            }
            start = i + 1;
        }
        proof {
            if !spec_is_space(c) {
                assert(text@.subrange(start as int, i as int).push(text@[i as int])
                    =~= text@.subrange(start as int, i as int + 1));
            } else {
                assert(text@.subrange(i as int + 1, i as int + 1) =~= Seq::<char>::empty());
            }
        }
        i = i + 1;
    }
    if start < n {
        let tok = text.substring_char(start, n).to_owned();
        tokens.push(tok);
    }
    tokens
}

/// The ellipsis marker appended by truncation.
pub open spec fn spec_ellipsis() -> Seq<char> {
    seq!['.', '.', '.']
}

/// The scan that truncation performs: starting at position `i` with `acc`
/// pixels already accepted, characters are accepted one at a time while
/// the accumulated width stays within `avail`; the result is the position
/// of the first rejected character.
pub open spec fn spec_trunc_scan(t: Seq<char>, i: int, acc: int, avail: int, fm: FontMetrics) -> int
    decreases t.len() - i,
{
    if i < 0 || i >= t.len() {
        i
    } else if acc + spec_char_width(fm, t[i]) > avail {
        i
    } else {
        spec_trunc_scan(t, i + 1, acc + spec_char_width(fm, t[i]), avail, fm)
    }
}

/// Truncation of a line that always carries the marker: the width of the
/// ellipsis marker is reserved, the longest prefix of the line that stays
/// within the remaining budget is kept, and the marker follows.  A line
/// short enough to fit whole within the budget is kept whole, marker
/// appended.
pub open spec fn spec_truncate_marked(t: Seq<char>, max_width: u32, fm: FontMetrics) -> Seq<
    char,
> {
    let avail = max_width - spec_text_width(spec_ellipsis(), fm);
    t.take(spec_trunc_scan(t, 0, 0, avail, fm)) + spec_ellipsis()
}

/// Truncation of a line to `max_width`: a line that already fits is
/// returned unchanged; otherwise a greedy prefix is kept and the marker
/// follows.
pub open spec fn spec_truncate(t: Seq<char>, max_width: u32, fm: FontMetrics) -> Seq<char> {
    if spec_measure_text_width(t, fm) <= max_width {
        t
    } else {
        spec_truncate_marked(t, max_width, fm)
    }
}

/// Truncates a line so that it ends with the ellipsis marker and, as long
/// as the marker itself fits, stays within `max_width`.
pub fn truncate_with_marker(text: &str, max_width: u32, fm: &FontMetrics) -> (r: String)
    ensures
        r@ == spec_truncate_marked(text@, max_width, *fm),
{
    let dot_w = fm.char_width('.');
    proof {
        reveal_strlit("...");
        assert("..."@ =~= spec_ellipsis());
        assert(spec_text_width(spec_ellipsis(), *fm) == 3 * spec_char_width(*fm, '.')) by {
            reveal_with_fuel(spec_text_width, 5);
            assert(spec_ellipsis().drop_first() =~= seq!['.', '.']);
            assert(seq!['.', '.'].drop_first() =~= seq!['.']);
            assert(seq!['.'].drop_first() =~= Seq::<char>::empty());
        }
    }
    let avail: i64 = max_width as i64 - 3 * (dot_w as i64);
    let n = text.unicode_len();
    let mut k: usize = 0;
    let mut acc: u64 = 0;
    let mut stop: bool = false;
    while k < n && !stop
        invariant
            n == text@.len(),
            0 <= k <= n,
            0 <= acc <= u32::MAX,
            avail <= u32::MAX,
            !stop ==> spec_trunc_scan(text@, 0, 0, avail as int, *fm) == spec_trunc_scan(
                text@,
                k as int,
                acc as int,
                avail as int,
                *fm,
            ),
            stop ==> spec_trunc_scan(text@, 0, 0, avail as int, *fm) == k,
        decreases n - k, (if stop { 0int } else { 1int }),
    {
        let c = text.get_char(k);
        let w = fm.char_width(c);
        if acc + w as u64 > avail as u64 || avail < 0 {
            stop = true;
            proof {
                if avail >= 0 {
                    assert(acc + w > avail);
                }
            }
        } else {
            proof {
                assert(avail >= 0);
                assert(avail as u64 == avail);
                assert(acc + w <= avail);
                assert(avail <= u32::MAX);
            }
            acc = acc + w as u64;
            k = k + 1;
        }
    }
    let prefix = text.substring_char(0, k);
    let mut out = prefix.to_owned();
    out.append("...");
    proof {
        assert(text@.subrange(0, k as int) =~= text@.take(k as int));
    }
    out
}

/// Truncates a line to `max_width`, reserving room for and appending an
/// ellipsis marker when the line is too wide; a line that already fits is
/// returned unchanged.
pub fn truncate_with_ellipsis(text: &str, max_width: u32, fm: &FontMetrics) -> (r: String)
    ensures
        r@ == spec_truncate(text@, max_width, *fm),
{
    let (tw, _) = measure_text(text, fm);
    if tw <= max_width {
        text.to_owned()
    } else {
        truncate_with_marker(text, max_width, fm)
    }
}

/// Truncation for right-to-left text: the same greedy scan over the
/// character sequence (the marker choice and the accepted prefix do not
/// depend on the script), so it agrees with `truncate_with_ellipsis`.
pub fn truncate_with_ellipsis_rtl(text: &str, max_width: u32, fm: &FontMetrics) -> (r: String)
    ensures
        r@ == spec_truncate(text@, max_width, *fm),
{
    truncate_with_ellipsis(text, max_width, fm)
}

/// Every token the tokenizer commits is non-empty.
proof fn lemma_tok_fold_nonempty(s: Seq<char>, i: int)
    ensures
        forall|j: int|
            0 <= j < spec_tok_fold(s, i).0.len() ==> #[trigger] spec_tok_fold(s, i).0[j].len() > 0,
    decreases i,
{
    if i > 0 {
        lemma_tok_fold_nonempty(s, i - 1);
        let st = spec_tok_fold(s, i - 1);
        let st2 = spec_tok_fold(s, i);
        assert forall|j: int| 0 <= j < st2.0.len() implies #[trigger] st2.0[j].len() > 0 by {
            if j < st.0.len() {
                assert(st2.0[j] == st.0[j]);
            }
        }
    }
}

/// Every white-space-separated token is non-empty.
pub proof fn lemma_tokens_nonempty(s: Seq<char>)
    ensures
        forall|j: int| 0 <= j < spec_tokens(s).len() ==> #[trigger] spec_tokens(s)[j].len() > 0,
{
    lemma_tok_fold_nonempty(s, s.len() as int);
}

/// Whether a line's measured width stays within the wrap width.
pub open spec fn spec_fits(line: Seq<char>, max_width: u32, fm: FontMetrics) -> bool {
    sat32(spec_text_width(line, fm)) <= max_width
}

/// Joining a token onto a pending line with a single space (or starting a
/// new line from the token when the pending line is empty).
pub open spec fn spec_join_sp(a: Seq<char>, b: Seq<char>) -> Seq<char> {
    if a.len() == 0 {
        b
    } else {
        a + seq![' '] + b
    }
}

/// One step of greedy wrapping over the state (committed lines, pending
/// line, stopped).  The token is tentatively joined onto the pending line;
/// an overfull tentative line commits the pending line and starts over
/// from the token, except that a pending empty line always accepts the
/// token (an overlong single token is never split).  When a line cap is
/// set, reaching one line short of the cap stops consumption.
pub open spec fn spec_wrap_step(
    st: (Seq<Seq<char>>, Seq<char>, bool),
    tok: Seq<char>,
    max_width: u32,
    fm: FontMetrics,
    max_lines: Option<u32>,
) -> (Seq<Seq<char>>, Seq<char>, bool) {
    if st.2 {
        st
    } else {
        let test = spec_join_sp(st.1, tok);
        if spec_fits(test, max_width, fm) || st.1.len() == 0 {
            (st.0, test, false)
        } else {
            let lines = st.0.push(st.1);
            let done = match max_lines {
                Some(m) => lines.len() >= m - 1,
                None => false,
            };
            (lines, tok, done)
        }
    }
}

/// The wrap state after consuming the first `i` tokens.
pub open spec fn spec_wrap_fold(
    toks: Seq<Seq<char>>,
    i: int,
    max_width: u32,
    fm: FontMetrics,
    max_lines: Option<u32>,
) -> (Seq<Seq<char>>, Seq<char>, bool)
    decreases i,
{
    if i <= 0 {
        (Seq::<Seq<char>>::empty(), Seq::<char>::empty(), false)
    } else {
        spec_wrap_step(
            spec_wrap_fold(toks, i - 1, max_width, fm, max_lines),
            toks[i - 1],
            max_width,
            fm,
            max_lines,
        )
    }
}

/// Once wrapping has stopped, further tokens leave the state unchanged.
proof fn lemma_wrap_fold_stable(
    toks: Seq<Seq<char>>,
    i: int,
    j: int,
    max_width: u32,
    fm: FontMetrics,
    max_lines: Option<u32>,
)
    requires
        0 <= i <= j,
        spec_wrap_fold(toks, i, max_width, fm, max_lines).2,
    ensures
        spec_wrap_fold(toks, j, max_width, fm, max_lines) == spec_wrap_fold(
            toks,
            i,
            max_width,
            fm,
            max_lines,
        ),
    decreases j - i,
{
    if j > i {
        lemma_wrap_fold_stable(toks, i, j - 1, max_width, fm, max_lines);
    }
}

/// The wrapped lines of `s` under `max_width`: the tokens are consumed
/// greedily; after the last consumed token, a non-empty pending line is
/// appended, unless a line cap is set and already reached — the pending
/// content is then dropped and the last committed line is truncated to
/// end with the ellipsis marker, so the cut is visible.
pub open spec fn spec_wrap(
    s: Seq<char>,
    max_width: u32,
    fm: FontMetrics,
    max_lines: Option<u32>,
) -> Seq<Seq<char>> {
    let toks = spec_tokens(s);
    let st = spec_wrap_fold(toks, toks.len() as int, max_width, fm, max_lines);
    if st.1.len() > 0 {
        match max_lines {
            Some(m) => if st.0.len() >= m {
                st.0.update(st.0.len() - 1, spec_truncate_marked(st.0.last(), max_width, fm))
            } else {
                st.0.push(st.1)
            },
            None => st.0.push(st.1),
        }
    } else {
        st.0
    }
}

/// Greedy word wrap of `s` into lines of measured width at most
/// `max_width` (a line holding a single overlong token is kept whole), with
/// at most `max_lines` lines when a cap is given; content dropped at the
/// cap is signalled by truncating the kept last line with the ellipsis
/// marker.
pub fn break_text(text: &str, max_width: u32, fm: &FontMetrics, max_lines: Option<u32>) -> (r: Vec<
    String,
>)
    requires
        max_lines matches Some(m) ==> m >= 1,
    ensures
        r@.len() == spec_wrap(text@, max_width, *fm, max_lines).len(),
        forall|i: int|
            0 <= i < r@.len() ==> r@[i]@ == spec_wrap(text@, max_width, *fm, max_lines)[i],
{
    let tokens = split_whitespace_tokens(text);
    let ghost toks = spec_tokens(text@);
    proof {
        lemma_tokens_nonempty(text@);
        reveal_strlit(" ");
        assert(" "@ =~= seq![' ']);
    }
    let mut lines: Vec<String> = Vec::new();
    let mut current: String = String::new();
    let mut done: bool = false;
    let n = tokens.len();
    let mut i: usize = 0;
    while i < n && !done
        invariant
            n == tokens@.len(),
            0 <= i <= n,
            toks == spec_tokens(text@),
            tokens@.len() == toks.len(),
            forall|j: int| 0 <= j < toks.len() ==> tokens@[j]@ == toks[j],
            forall|j: int| 0 <= j < toks.len() ==> #[trigger] toks[j].len() > 0,
            max_lines matches Some(m) ==> m >= 1,
            " "@ == seq![' '],
            lines@.len() == spec_wrap_fold(toks, i as int, max_width, *fm, max_lines).0.len(),
            forall|j: int|
                0 <= j < lines@.len() ==> lines@[j]@ == spec_wrap_fold(
                    toks,
                    i as int,
                    max_width,
                    *fm,
                    max_lines,
                ).0[j],
            current@ == spec_wrap_fold(toks, i as int, max_width, *fm, max_lines).1,
            done == spec_wrap_fold(toks, i as int, max_width, *fm, max_lines).2,
        decreases n - i,
    {
        let ghost st = spec_wrap_fold(toks, i as int, max_width, *fm, max_lines);
        let tok = &tokens[i];
        let test: String = if current.as_str().unicode_len() == 0 {
            tok.clone()
        } else {
            let mut t = current.clone();
            t.append(" ");
            t.append(tok.as_str());
            t
        };
        proof {
            assert(tokens@[i as int]@ == toks[i as int]);
            assert(toks[i as int].len() > 0);
            assert(test@ == spec_join_sp(current@, tok@));
            assert(test@.len() > 0);
        }
        let (tw, _) = measure_text_with_font(test.as_str(), fm);
        if tw <= max_width || current.as_str().unicode_len() == 0 {
            current = test;
        } else {
            lines.push(current);
            current = tok.clone();
            match max_lines {
                Some(m) => {
                    if lines.len() as u64 >= (m - 1) as u64 {
                        done = true;
                    }
                },
                None => {},
            }
        }
        i = i + 1;
    }
    proof {
        if done && i < n {
            lemma_wrap_fold_stable(toks, i as int, toks.len() as int, max_width, *fm, max_lines);
        }
        assert(lines@.len() == spec_wrap_fold(toks, toks.len() as int, max_width, *fm,
            max_lines).0.len());
    }
    let ghost stf = spec_wrap_fold(toks, toks.len() as int, max_width, *fm, max_lines);
    if current.as_str().unicode_len() > 0 {
        match max_lines {
            Some(m) => {
                if lines.len() as u64 >= m as u64 {
                    let li = lines.len() - 1;
                    let t = truncate_with_marker(lines[li].as_str(), max_width, fm);
                    lines.set(li, t);
                } else {
                    lines.push(current);
                }
            },
            None => {
                lines.push(current);
            },
        }
    }
    lines
}

/// Word wrap for possibly right-to-left text.  Splitting on white space is
/// script-agnostic and the character order inside each token is preserved
/// (reversing code points would break ligatures and shaping, which the
/// rendering backend handles), so this agrees with `break_text`.
pub fn break_text_rtl(text: &str, max_width: u32, fm: &FontMetrics, max_lines: Option<u32>) -> (r:
    Vec<String>)
    requires
        max_lines matches Some(m) ==> m >= 1,
    ensures
        r@.len() == spec_wrap(text@, max_width, *fm, max_lines).len(),
        forall|i: int|
            0 <= i < r@.len() ==> r@[i]@ == spec_wrap(text@, max_width, *fm, max_lines)[i],
{
    break_text(text, max_width, fm, max_lines)
}

/// The drawn x origin of a line under an alignment: left draws at the
/// anchor, right ends at the anchor, center is centered under it.  The
/// arithmetic is identical for both writing directions; direction affects
/// shaping and the highlight box, not this placement.
pub open spec fn spec_line_draw_x(x: int, align: TextAlignType, text_width: int) -> int {
    match align {
        TextAlignType::Left => x,
        TextAlignType::Right => x - text_width,
        TextAlignType::Center => x - text_width / 2,
    }
}

/// Computes the drawn x origin of a measured line.
pub fn line_draw_x(x: i32, align: &TextAlignType, text_width: u32) -> (r: i64)
    ensures
        r == spec_line_draw_x(x as int, *align, text_width as int),
{
    match align {
        TextAlignType::Left => x as i64,
        TextAlignType::Right => x as i64 - text_width as i64,
        TextAlignType::Center => x as i64 - (text_width / 2) as i64,
    }
}

/// The highlight box drawn behind a text run.
#[derive(Clone, Copy, Debug, PartialEq, Eq, Structural)]
pub struct BoxRect {
    pub x: i64,
    pub y: i64,
    pub w: u32,
    pub h: u32,
}

/// A box side: the explicit size when given, else the measured size plus
/// padding on both ends, clipped to the `u32` range.
pub open spec fn spec_box_size(explicit: Option<u32>, measured: u32, padding: u32) -> int {
    match explicit {
        Some(v) => v as int,
        None => sat32(measured + 2 * padding),
    }
}

/// The highlight box for a text run anchored at `(x, y)`.  For
/// left-to-right text a left-aligned box extends rightward from
/// `x - padding` and a right-aligned box ends at `x + padding`; for
/// right-to-left text those two cases swap; a centered box is
/// direction-independent.  The box sits `padding` above the text's top.
pub open spec fn spec_highlight_box(
    x: int,
    y: int,
    align: TextAlignType,
    direction: TextDirectionType,
    padding: u32,
    text_w: u32,
    text_h: u32,
    explicit_w: Option<u32>,
    explicit_h: Option<u32>,
) -> BoxRect {
    let w = spec_box_size(explicit_w, text_w, padding);
    let h = spec_box_size(explicit_h, text_h, padding);
    let bx = match (align, direction) {
        (TextAlignType::Left, TextDirectionType::Ltr) => x - padding,
        (TextAlignType::Right, TextDirectionType::Ltr) => x - w + padding,
        (TextAlignType::Center, _) => x - w / 2,
        (TextAlignType::Left, TextDirectionType::Rtl) => x - w + padding,
        (TextAlignType::Right, TextDirectionType::Rtl) => x - padding,
    };
    BoxRect { x: bx as i64, y: (y - text_h - padding) as i64, w: w as u32, h: h as u32 }
}

/// One box side, from an optional explicit size.
fn box_size(explicit: &Option<u32>, measured: u32, padding: u32) -> (r: u32)
    ensures
        r == spec_box_size(*explicit, measured, padding),
{
    match explicit {
        Some(v) => *v,
        None => {
            let t: u64 = measured as u64 + 2 * (padding as u64);
            if t > u32::MAX as u64 {
                u32::MAX
            } else {
                t as u32
            }
        },
    }
}

/// Computes the highlight box behind a measured text run.
pub fn highlight_box(
    x: i32,
    y: i32,
    align: &TextAlignType,
    direction: &TextDirectionType,
    padding: u32,
    text_w: u32,
    text_h: u32,
    explicit_w: &Option<u32>,
    explicit_h: &Option<u32>,
) -> (r: BoxRect)
    ensures
        r == spec_highlight_box(
            x as int,
            y as int,
            *align,
            *direction,
            padding,
            text_w,
            text_h,
            *explicit_w,
            *explicit_h,
        ),
{
    let w = box_size(explicit_w, text_w, padding);
    let h = box_size(explicit_h, text_h, padding);
    let bx: i64 = match (align, direction) {
        (TextAlignType::Left, TextDirectionType::Ltr) => x as i64 - padding as i64,
        (TextAlignType::Right, TextDirectionType::Ltr) => x as i64 - w as i64 + padding as i64,
        (TextAlignType::Center, _) => x as i64 - (w / 2) as i64,
        (TextAlignType::Left, TextDirectionType::Rtl) => x as i64 - w as i64 + padding as i64,
        (TextAlignType::Right, TextDirectionType::Rtl) => x as i64 - padding as i64,
    };
    let by: i64 = y as i64 - text_h as i64 - padding as i64;
    BoxRect { x: bx, y: by, w, h }
}

/// Right-to-left text swaps the left- and right-aligned highlight boxes of
/// left-to-right text, and a centered box does not depend on the
/// direction.
pub proof fn lemma_rtl_swaps_alignment(
    x: int,
    y: int,
    padding: u32,
    text_w: u32,
    text_h: u32,
    explicit_w: Option<u32>,
    explicit_h: Option<u32>,
)
    ensures
        spec_highlight_box(x, y, TextAlignType::Left, TextDirectionType::Rtl, padding, text_w,
            text_h, explicit_w, explicit_h) == spec_highlight_box(x, y, TextAlignType::Right,
            TextDirectionType::Ltr, padding, text_w, text_h, explicit_w, explicit_h),
        spec_highlight_box(x, y, TextAlignType::Right, TextDirectionType::Rtl, padding, text_w,
            text_h, explicit_w, explicit_h) == spec_highlight_box(x, y, TextAlignType::Left,
            TextDirectionType::Ltr, padding, text_w, text_h, explicit_w, explicit_h),
        spec_highlight_box(x, y, TextAlignType::Center, TextDirectionType::Rtl, padding, text_w,
            text_h, explicit_w, explicit_h) == spec_highlight_box(x, y, TextAlignType::Center,
            TextDirectionType::Ltr, padding, text_w, text_h, explicit_w, explicit_h),
{
}

/// The vertical advance from one wrapped line to the next: the font size
/// times the line-height multiplier (given in hundredths).
pub open spec fn spec_line_advance(font_size: u32, line_height: u32) -> int {
    (font_size * line_height) / 100
}

/// A vertical position clipped to the drawable coordinate range.
pub open spec fn clip_i64(v: int) -> int {
    if v > i64::MAX {
        i64::MAX as int
    } else {
        v
    }
}

/// The baseline y of the line at `index`: the anchor plus `index` line
/// advances.
pub open spec fn spec_line_y(y: int, index: int, font_size: u32, line_height: u32) -> int {
    clip_i64(y + index * spec_line_advance(font_size, line_height))
}

/// Computes the baseline y of the wrapped line at `index`.
pub fn line_y_position(y: i32, index: usize, font_size: u32, line_height: u32) -> (r: i64)
    ensures
        r == spec_line_y(y as int, index as int, font_size, line_height),
{
    proof {
        lemma_mul_upper_bound(font_size as int, u32::MAX as int, line_height as int,
            u32::MAX as int);
    }
    let adv: u64 = (font_size as u64) * (line_height as u64) / 100;
    proof {
        lemma_div_is_ordered((font_size as int) * (line_height as int), u64::MAX as int, 100);
        lemma_mul_upper_bound(index as int, u64::MAX as int, adv as int, (u64::MAX / 100) as int);
        assert((u64::MAX as int) * ((u64::MAX / 100) as int) < i128::MAX);
        lemma_mul_nonnegative(index as int, adv as int);
    }
    let prod: u128 = (index as u128) * (adv as u128);
    let v: i128 = y as i128 + prod as i128;
    if v > i64::MAX as i128 {
        i64::MAX
    } else {
        v as i64
    }
}

/// Returns right-to-left text content unchanged: character order is
/// preserved so the backend's shaping produces correct ligatures;
/// reversing code points is explicitly disallowed.
pub fn process_rtl_text(text: &str) -> (r: String)
    ensures
        r@ == text@,
{
    text.to_owned()
}

/// The scan accepts a prefix whose width stays within the budget, and
/// never runs past the end.
proof fn lemma_trunc_scan_width(t: Seq<char>, i: int, acc: int, avail: int, fm: FontMetrics)
    requires
        0 <= i <= t.len(),
        acc == spec_text_width(t.take(i), fm),
        acc <= avail,
    ensures
        i <= spec_trunc_scan(t, i, acc, avail, fm) <= t.len(),
        spec_text_width(t.take(spec_trunc_scan(t, i, acc, avail, fm)), fm) <= avail,
    decreases t.len() - i,
{
    if i < t.len() && acc + spec_char_width(fm, t[i]) <= avail {
        lemma_text_width_push(t.take(i), t[i], fm);
        assert(t.take(i).push(t[i]) =~= t.take(i + 1));
        lemma_trunc_scan_width(t, i + 1, acc + spec_char_width(fm, t[i]), avail, fm);
    }
}

/// Marked truncation always ends with the ellipsis marker, and stays
/// within `max_width` as long as the marker itself fits.
pub proof fn lemma_truncate_marked_props(t: Seq<char>, max_width: u32, fm: FontMetrics)
    ensures
        ({
            let r = spec_truncate_marked(t, max_width, fm);
            &&& r.len() >= 3
            &&& r.skip(r.len() - 3) == spec_ellipsis()
            &&& spec_text_width(spec_ellipsis(), fm) <= max_width ==> sat32(
                spec_text_width(r, fm),
            ) <= max_width
        }),
{
    lemma_text_width_nonneg(spec_ellipsis(), fm);
    let ew = spec_text_width(spec_ellipsis(), fm);
    let avail = max_width - ew;
    let r = spec_truncate_marked(t, max_width, fm);
    if ew <= max_width {
        assert(t.take(0) =~= Seq::<char>::empty());
        lemma_trunc_scan_width(t, 0, 0, avail, fm);
        let n = spec_trunc_scan(t, 0, 0, avail, fm);
        lemma_text_width_add(t.take(n), spec_ellipsis(), fm);
        lemma_text_width_nonneg(t.take(n), fm);
        assert(r.skip(r.len() - 3) =~= spec_ellipsis());
    } else {
        // the marker does not fit, so no character is accepted and only
        // the marker remains.
        let n = spec_trunc_scan(t, 0, 0, avail, fm);
        if 0 < t.len() {
            lemma_text_width_nonneg(Seq::<char>::empty(), fm);
            assert(spec_char_width(fm, t[0]) >= 0);
            assert(n == 0);
        }
        assert(t.take(n) =~= Seq::<char>::empty());
        assert(r =~= spec_ellipsis());
        assert(r.skip(r.len() - 3) =~= spec_ellipsis());
    }
}

/// Truncation behaves as promised: a line that already fits is returned
/// unchanged; an overlong line is cut so that its measured width, the
/// appended ellipsis marker included, stays within `max_width` (provided
/// the marker itself fits), and it then ends with the marker.
pub proof fn lemma_truncate_bounded(t: Seq<char>, max_width: u32, fm: FontMetrics)
    requires
        spec_text_width(spec_ellipsis(), fm) <= max_width,
    ensures
        spec_measure_text_width(t, fm) <= max_width ==> spec_truncate(t, max_width, fm) == t,
        sat32(spec_text_width(spec_truncate(t, max_width, fm), fm)) <= max_width,
        spec_measure_text_width(t, fm) > max_width ==> {
            let r = spec_truncate(t, max_width, fm);
            r.len() >= 3 && r.skip(r.len() - 3) == spec_ellipsis()
        },
{
    lemma_text_width_nonneg(spec_ellipsis(), fm);
    if spec_measure_text_width(t, fm) <= max_width {
        // the line fits; it is unchanged, and its exact width stays within
        // the bound (a non-empty line measures exactly its clipped width,
        // and the empty line has width zero).
        lemma_text_width_nonneg(t, fm);
    } else {
        lemma_truncate_marked_props(t, max_width, fm);
    }
}

/// During greedy wrapping every committed line is non-empty and fits the
/// wrap width, and the pending line is empty or fits, provided every
/// token fits on its own.
proof fn lemma_wrap_fold_fit(
    toks: Seq<Seq<char>>,
    i: int,
    max_width: u32,
    fm: FontMetrics,
    max_lines: Option<u32>,
)
    requires
        0 <= i <= toks.len(),
        forall|j: int| 0 <= j < toks.len() ==> spec_fits(#[trigger] toks[j], max_width, fm),
    ensures
        ({
            let st = spec_wrap_fold(toks, i, max_width, fm, max_lines);
            &&& forall|j: int|
                0 <= j < st.0.len() ==> spec_fits(#[trigger] st.0[j], max_width, fm) && st.0[
                    j
                ].len() > 0
            &&& st.1.len() == 0 || spec_fits(st.1, max_width, fm)
        }),
    decreases i,
{
    if i > 0 {
        lemma_wrap_fold_fit(toks, i - 1, max_width, fm, max_lines);
        let st = spec_wrap_fold(toks, i - 1, max_width, fm, max_lines);
        let st2 = spec_wrap_fold(toks, i, max_width, fm, max_lines);
        assert(spec_fits(toks[i - 1], max_width, fm));
        assert forall|j: int| 0 <= j < st2.0.len() implies spec_fits(
            #[trigger] st2.0[j],
            max_width,
            fm,
        ) && st2.0[j].len() > 0 by {
            if j < st.0.len() {
                assert(st2.0[j] == st.0[j]);
            }
        }
    }
}

/// Wrapping a text whose every token fits the wrap width on its own
/// yields only lines that fit the wrap width (the ellipsis marker must
/// fit too, for the line a reached cap truncates).
pub proof fn lemma_wrap_lines_fit(
    s: Seq<char>,
    max_width: u32,
    fm: FontMetrics,
    max_lines: Option<u32>,
)
    requires
        forall|j: int|
            0 <= j < spec_tokens(s).len() ==> spec_fits(#[trigger] spec_tokens(s)[j], max_width,
                fm),
        max_lines matches Some(m) ==> m >= 1,
        spec_text_width(spec_ellipsis(), fm) <= max_width,
    ensures
        forall|j: int|
            0 <= j < spec_wrap(s, max_width, fm, max_lines).len() ==> spec_fits(
                #[trigger] spec_wrap(s, max_width, fm, max_lines)[j],
                max_width,
                fm,
            ),
{
    let toks = spec_tokens(s);
    lemma_wrap_fold_fit(toks, toks.len() as int, max_width, fm, max_lines);
    let st = spec_wrap_fold(toks, toks.len() as int, max_width, fm, max_lines);
    let r = spec_wrap(s, max_width, fm, max_lines);
    assert forall|j: int| 0 <= j < r.len() implies spec_fits(
        #[trigger] r[j],
        max_width,
        fm,
    ) by {
        if st.1.len() > 0 && (max_lines matches Some(m) && st.0.len() >= m) {
            let last = st.0.len() - 1;
            if j == last {
                // the reached cap truncates the last line with the marker,
                // which stays within the width since the marker fits.
                assert(r[j] == spec_truncate_marked(st.0[last], max_width, fm));
                lemma_truncate_marked_props(st.0[last], max_width, fm);
            } else {
                assert(r[j] == st.0[j]);
            }
        }
    }
}

/// Greedy wrapping never produces more lines than the line cap.
pub proof fn lemma_wrap_fold_count(
    toks: Seq<Seq<char>>,
    i: int,
    max_width: u32,
    fm: FontMetrics,
    m: u32,
)
    requires
        0 <= i <= toks.len(),
        m >= 1,
    ensures
        ({
            let st = spec_wrap_fold(toks, i, max_width, fm, Some(m));
            &&& st.2 ==> st.0.len() <= (if m >= 2 { m - 1 } else { 1int })
            &&& !st.2 ==> st.0.len() <= (if m >= 2 { m - 2 } else { 0int })
        }),
    decreases i,
{
    if i > 0 {
        lemma_wrap_fold_count(toks, i - 1, max_width, fm, m);
    }
}

/// With a line cap of `m`, wrapping yields at most `m` lines.
pub proof fn lemma_wrap_line_count(s: Seq<char>, max_width: u32, fm: FontMetrics, m: u32)
    requires
        m >= 1,
    ensures
        spec_wrap(s, max_width, fm, Some(m)).len() <= m,
{
    let toks = spec_tokens(s);
    lemma_wrap_fold_count(toks, toks.len() as int, max_width, fm, m);
}

/// The tokenizer state after folding the characters of `s` in `[i, j)`
/// onto `st`.
pub open spec fn spec_tok_fold_range(
    st: (Seq<Seq<char>>, Seq<char>),
    s: Seq<char>,
    i: int,
    j: int,
) -> (Seq<Seq<char>>, Seq<char>)
    decreases j - i,
{
    if j <= i {
        st
    } else {
        spec_tok_step(spec_tok_fold_range(st, s, i, j - 1), s[j - 1])
    }
}

/// The plain fold is the range fold from the empty state.
proof fn lemma_tok_fold_is_range(s: Seq<char>, i: int)
    requires
        0 <= i,
    ensures
        spec_tok_fold(s, i) == spec_tok_fold_range(
            (Seq::<Seq<char>>::empty(), Seq::<char>::empty()),
            s,
            0,
            i,
        ),
    decreases i,
{
    if i > 0 {
        lemma_tok_fold_is_range(s, i - 1);
    }
}

/// A range fold splits at any midpoint.
proof fn lemma_tok_fold_range_split(
    st: (Seq<Seq<char>>, Seq<char>),
    s: Seq<char>,
    i: int,
    m: int,
    j: int,
)
    requires
        i <= m <= j,
    ensures
        spec_tok_fold_range(st, s, i, j) == spec_tok_fold_range(
            spec_tok_fold_range(st, s, i, m),
            s,
            m,
            j,
        ),
    decreases j - m,
{
    if j > m {
        lemma_tok_fold_range_split(st, s, i, m, j - 1);
    }
}

/// A range fold reads only the characters in its range.
proof fn lemma_tok_fold_range_congruent(
    st: (Seq<Seq<char>>, Seq<char>),
    s1: Seq<char>,
    s2: Seq<char>,
    i: int,
    j: int,
)
    requires
        forall|k: int| i <= k < j ==> s1[k] == s2[k],
    ensures
        spec_tok_fold_range(st, s1, i, j) == spec_tok_fold_range(st, s2, i, j),
    decreases j - i,
{
    if j > i {
        lemma_tok_fold_range_congruent(st, s1, s2, i, j - 1);
    }
}

/// Folding a space-free range extends the pending token by exactly those
/// characters.
proof fn lemma_tok_fold_range_word(
    st: (Seq<Seq<char>>, Seq<char>),
    s: Seq<char>,
    i: int,
    j: int,
)
    requires
        0 <= i <= j <= s.len(),
        forall|k: int| i <= k < j ==> !spec_is_space(#[trigger] s[k]),
    ensures
        spec_tok_fold_range(st, s, i, j) == (st.0, st.1 + s.subrange(i, j)),
    decreases j - i,
{
    if j <= i {
        assert(st.1 + s.subrange(i, j) =~= st.1);
    } else {
        lemma_tok_fold_range_word(st, s, i, j - 1);
        assert(!spec_is_space(s[j - 1]));
        assert((st.1 + s.subrange(i, j - 1)).push(s[j - 1]) =~= st.1 + s.subrange(i, j));
    }
}

/// Appending one space to a run does not change its tokens.
proof fn lemma_tokens_trailing_space(w: Seq<char>, c: char)
    requires
        spec_is_space(c),
    ensures
        spec_tokens(w.push(c)) == spec_tokens(w),
{
    let init = (Seq::<Seq<char>>::empty(), Seq::<char>::empty());
    let wp = w.push(c);
    let wl = w.len() as int;
    lemma_tok_fold_is_range(wp, wp.len() as int);
    lemma_tok_fold_range_congruent(init, wp, w, 0, wl);
    lemma_tok_fold_is_range(w, wl);
    assert(wp[wl] == c);
    assert(spec_tok_fold_range(init, wp, 0, wl + 1) == spec_tok_step(
        spec_tok_fold_range(init, wp, 0, wl),
        c,
    ));
}

/// The tokens of `w`, one space, then a non-empty space-free token `t`
/// are the tokens of `w` followed by `t`.
proof fn lemma_tokens_append_token(w: Seq<char>, t: Seq<char>)
    requires
        t.len() > 0,
        forall|k: int| 0 <= k < t.len() ==> !spec_is_space(#[trigger] t[k]),
    ensures
        spec_tokens(w + seq![' '] + t) == spec_tokens(w).push(t),
{
    let init = (Seq::<Seq<char>>::empty(), Seq::<char>::empty());
    let u = w + seq![' '] + t;
    let wl = w.len() as int;
    lemma_tok_fold_is_range(u, u.len() as int);
    lemma_tok_fold_range_split(init, u, 0, wl + 1, u.len() as int);
    lemma_tok_fold_range_congruent(init, u, w, 0, wl);
    lemma_tok_fold_is_range(w, wl);
    let st_w = spec_tok_fold(w, wl);
    assert(u[wl] == ' ');
    let st_sp = spec_tok_step(st_w, ' ');
    assert(spec_tok_fold_range(init, u, 0, wl + 1) == spec_tok_step(
        spec_tok_fold_range(init, u, 0, wl),
        u[wl],
    ));
    assert(spec_tok_fold_range(init, u, 0, wl + 1) == st_sp);
    assert(st_sp.0 == spec_tokens(w) && st_sp.1.len() == 0);
    assert(forall|k: int| wl + 1 <= k < u.len() ==> !spec_is_space(#[trigger] u[k]));
    lemma_tok_fold_range_word(st_sp, u, wl + 1, u.len() as int);
    assert(u.subrange(wl + 1, u.len() as int) =~= t);
    let st_u = spec_tok_fold(u, u.len() as int);
    assert(st_u.0 == spec_tokens(w) && st_u.1 =~= t);
}

/// A single non-empty space-free token tokenizes to itself.
proof fn lemma_tokens_single(t: Seq<char>)
    requires
        t.len() > 0,
        forall|k: int| 0 <= k < t.len() ==> !spec_is_space(#[trigger] t[k]),
    ensures
        spec_tokens(t) == seq![t],
{
    let init = (Seq::<Seq<char>>::empty(), Seq::<char>::empty());
    lemma_tok_fold_is_range(t, t.len() as int);
    lemma_tok_fold_range_word(init, t, 0, t.len() as int);
    assert(t.subrange(0, t.len() as int) =~= t);
    assert(Seq::<char>::empty() + t =~= t);
    assert(spec_tokens(t) =~= seq![t]);
}

/// Every committed token is free of white space.
proof fn lemma_tok_fold_space_free(s: Seq<char>, i: int)
    requires
        0 <= i <= s.len(),
    ensures
        forall|j: int, k: int|
            0 <= j < spec_tok_fold(s, i).0.len() && 0 <= k < spec_tok_fold(s, i).0[j].len()
                ==> !spec_is_space(#[trigger] spec_tok_fold(s, i).0[j][k]),
        forall|k: int|
            0 <= k < spec_tok_fold(s, i).1.len() ==> !spec_is_space(
                #[trigger] spec_tok_fold(s, i).1[k],
            ),
    decreases i,
{
    if i > 0 {
        lemma_tok_fold_space_free(s, i - 1);
        let st = spec_tok_fold(s, i - 1);
        let st2 = spec_tok_fold(s, i);
        assert forall|j: int, k: int|
            0 <= j < st2.0.len() && 0 <= k < st2.0[j].len() implies !spec_is_space(
            #[trigger] st2.0[j][k],
        ) by {
            if j < st.0.len() {
                assert(st2.0[j] == st.0[j]);
            }
        }
    }
}

/// Every token is free of white space.
pub proof fn lemma_tokens_space_free(s: Seq<char>)
    ensures
        forall|j: int, k: int|
            0 <= j < spec_tokens(s).len() && 0 <= k < spec_tokens(s)[j].len() ==> !spec_is_space(
                #[trigger] spec_tokens(s)[j][k],
            ),
{
    lemma_tok_fold_space_free(s, s.len() as int);
    let st = spec_tok_fold(s, s.len() as int);
    if st.1.len() > 0 {
        assert forall|j: int, k: int|
            0 <= j < spec_tokens(s).len() && 0 <= k < spec_tokens(s)[j].len()
                implies !spec_is_space(#[trigger] spec_tokens(s)[j][k]) by {
            if j < st.0.len() {
                assert(spec_tokens(s)[j] == st.0[j]);
            } else {
                assert(spec_tokens(s)[j] == st.1);
            }
        }
    }
}

/// Space-joining a run of lines back into one text.
pub open spec fn spec_join_lines(ls: Seq<Seq<char>>) -> Seq<char>
    decreases ls.len(),
{
    if ls.len() == 0 {
        Seq::<char>::empty()
    } else if ls.len() == 1 {
        ls[0]
    } else {
        spec_join_lines(ls.drop_last()) + seq![' '] + ls.last()
    }
}

/// During uncapped wrapping, rejoining the committed lines and the
/// pending line re-tokenizes exactly to the tokens consumed so far.
proof fn lemma_wrap_fold_tokens(toks: Seq<Seq<char>>, i: int, max_width: u32, fm: FontMetrics)
    requires
        0 <= i <= toks.len(),
        forall|j: int| 0 <= j < toks.len() ==> #[trigger] toks[j].len() > 0,
        forall|j: int, k: int|
            0 <= j < toks.len() && 0 <= k < toks[j].len() ==> !spec_is_space(
                #[trigger] toks[j][k],
            ),
    ensures
        ({
            let st = spec_wrap_fold(toks, i, max_width, fm, None);
            &&& !st.2
            &&& spec_tokens(spec_join_lines(st.0.push(st.1))) == toks.take(i)
        }),
    decreases i,
{
    let st2 = spec_wrap_fold(toks, i, max_width, fm, None);
    if i == 0 {
        assert(st2.0.push(st2.1) =~= seq![Seq::<char>::empty()]);
        assert(spec_join_lines(seq![Seq::<char>::empty()]) == Seq::<char>::empty());
        assert(spec_tok_fold(Seq::<char>::empty(), 0).0 =~= Seq::<Seq<char>>::empty());
        assert(spec_tokens(Seq::<char>::empty()) =~= Seq::<Seq<char>>::empty());
        assert(toks.take(0) =~= Seq::<Seq<char>>::empty());
    } else {
        lemma_wrap_fold_tokens(toks, i - 1, max_width, fm);
        let st = spec_wrap_fold(toks, i - 1, max_width, fm, None);
        let tok = toks[i - 1];
        assert(tok.len() > 0);
        assert(forall|k: int| 0 <= k < tok.len() ==> !spec_is_space(#[trigger] tok[k]));
        assert(toks.take(i) =~= toks.take(i - 1).push(tok));
        let test = spec_join_sp(st.1, tok);
        if spec_fits(test, max_width, fm) || st.1.len() == 0 {
            assert(st2 == (st.0, test, false));
            if st.0.len() == 0 {
                assert(spec_join_lines(st.0.push(st.1)) == st.1);
                if st.1.len() == 0 {
                    lemma_tokens_single(tok);
                    assert(spec_join_lines(st2.0.push(st2.1)) == tok);
                    assert(spec_tokens(st.1) =~= Seq::<Seq<char>>::empty());
                } else {
                    lemma_tokens_append_token(st.1, tok);
                    assert(spec_join_lines(st2.0.push(st2.1)) == st.1 + seq![' '] + tok);
                }
            } else {
                let jl = spec_join_lines(st.0);
                assert(st.0.push(st.1).drop_last() =~= st.0);
                assert(spec_join_lines(st.0.push(st.1)) == jl + seq![' '] + st.1);
                assert(st2.0.push(st2.1).drop_last() =~= st.0);
                assert(spec_join_lines(st2.0.push(st2.1)) == jl + seq![' '] + test);
                if st.1.len() == 0 {
                    assert(jl + seq![' '] + st.1 =~= jl.push(' '));
                    lemma_tokens_trailing_space(jl, ' ');
                    assert(jl + seq![' '] + test =~= jl + seq![' '] + tok);
                    lemma_tokens_append_token(jl, tok);
                } else {
                    let w = jl + seq![' '] + st.1;
                    assert(jl + seq![' '] + test =~= w + seq![' '] + tok);
                    lemma_tokens_append_token(w, tok);
                }
            }
        } else {
            assert(st2 == (st.0.push(st.1), tok, false));
            let w = spec_join_lines(st.0.push(st.1));
            assert(st2.0.push(st2.1).drop_last() =~= st.0.push(st.1));
            assert(spec_join_lines(st2.0.push(st2.1)) == w + seq![' '] + tok);
            lemma_tokens_append_token(w, tok);
        }
    }
}

/// Rejoining the uncapped wrapped lines with single spaces re-tokenizes
/// exactly to the original tokens: wrapping loses and reorders nothing.
pub proof fn lemma_wrap_preserves_tokens(s: Seq<char>, max_width: u32, fm: FontMetrics)
    ensures
        spec_tokens(spec_join_lines(spec_wrap(s, max_width, fm, None))) == spec_tokens(s),
{
    let toks = spec_tokens(s);
    lemma_tokens_nonempty(s);
    lemma_tokens_space_free(s);
    lemma_wrap_fold_tokens(toks, toks.len() as int, max_width, fm);
    let st = spec_wrap_fold(toks, toks.len() as int, max_width, fm, None);
    assert(toks.take(toks.len() as int) =~= toks);
    let r = spec_wrap(s, max_width, fm, None);
    if st.1.len() > 0 {
        assert(r == st.0.push(st.1));
    } else {
        assert(r == st.0);
        if st.0.len() == 0 {
            assert(st.0.push(st.1) =~= seq![Seq::<char>::empty()]);
            assert(spec_join_lines(st.0.push(st.1)) == Seq::<char>::empty());
            assert(spec_join_lines(r) =~= Seq::<char>::empty());
        } else {
            let jl = spec_join_lines(st.0);
            assert(st.0.push(st.1).drop_last() =~= st.0);
            assert(spec_join_lines(st.0.push(st.1)) == jl + seq![' '] + st.1);
            assert(jl + seq![' '] + st.1 =~= jl.push(' '));
            lemma_tokens_trailing_space(jl, ' ');
        }
    }
}

/// Wrapping the rejoined lines again, at the same width, again yields
/// only lines that fit the width (provided every token fits on its own)
/// and again respects a line cap.
pub proof fn lemma_rewrap_fits(
    s: Seq<char>,
    max_width: u32,
    fm: FontMetrics,
    max_lines: Option<u32>,
)
    requires
        forall|j: int|
            0 <= j < spec_tokens(s).len() ==> spec_fits(#[trigger] spec_tokens(s)[j], max_width,
                fm),
        max_lines matches Some(m) ==> m >= 1,
        spec_text_width(spec_ellipsis(), fm) <= max_width,
    ensures
        ({
            let rejoined = spec_join_lines(spec_wrap(s, max_width, fm, None));
            let again = spec_wrap(rejoined, max_width, fm, max_lines);
            &&& forall|j: int|
                0 <= j < again.len() ==> spec_fits(#[trigger] again[j], max_width, fm)
            &&& (max_lines matches Some(m) ==> again.len() <= m)
        }),
{
    let rejoined = spec_join_lines(spec_wrap(s, max_width, fm, None));
    lemma_wrap_preserves_tokens(s, max_width, fm);
    lemma_wrap_lines_fit(rejoined, max_width, fm, max_lines);
    match max_lines {
        Some(m) => lemma_wrap_line_count(rejoined, max_width, fm, m),
        None => (),
    }
}

/// While no line has been committed, wrapping has not stopped, and no
/// line was committed at any earlier step either.
proof fn lemma_wrap_fold_no_commit(
    toks: Seq<Seq<char>>,
    i: int,
    max_width: u32,
    fm: FontMetrics,
    max_lines: Option<u32>,
)
    requires
        0 <= i,
        spec_wrap_fold(toks, i, max_width, fm, max_lines).0.len() == 0,
    ensures
        !spec_wrap_fold(toks, i, max_width, fm, max_lines).2,
        i > 0 ==> spec_wrap_fold(toks, i - 1, max_width, fm, max_lines).0.len() == 0,
    decreases i,
{
    if i > 0 {
        let st = spec_wrap_fold(toks, i - 1, max_width, fm, max_lines);
        assert(st.0.len() == 0);
        lemma_wrap_fold_no_commit(toks, i - 1, max_width, fm, max_lines);
    }
}

/// Until the first line is committed, the fold does not depend on the
/// line cap.
proof fn lemma_wrap_fold_cap_agrees(
    toks: Seq<Seq<char>>,
    i: int,
    max_width: u32,
    fm: FontMetrics,
    m: u32,
)
    requires
        0 <= i,
        spec_wrap_fold(toks, i, max_width, fm, None).0.len() == 0,
    ensures
        spec_wrap_fold(toks, i, max_width, fm, Some(m)) == spec_wrap_fold(
            toks,
            i,
            max_width,
            fm,
            None,
        ),
    decreases i,
{
    if i > 0 {
        lemma_wrap_fold_no_commit(toks, i, max_width, fm, None);
        lemma_wrap_fold_cap_agrees(toks, i - 1, max_width, fm, m);
    }
}

/// Once the uncapped fold has committed a line, the fold capped at one
/// line has stopped with exactly one committed line and a dropped
/// non-empty pending line.
proof fn lemma_wrap_fold_cap_one(
    toks: Seq<Seq<char>>,
    i: int,
    max_width: u32,
    fm: FontMetrics,
)
    requires
        0 <= i <= toks.len(),
        forall|j: int| 0 <= j < toks.len() ==> #[trigger] toks[j].len() > 0,
        spec_wrap_fold(toks, i, max_width, fm, None).0.len() >= 1,
    ensures
        ({
            let st = spec_wrap_fold(toks, i, max_width, fm, Some(1u32));
            st.2 && st.0.len() == 1 && st.1.len() > 0
        }),
    decreases i,
{
    let prev_none = spec_wrap_fold(toks, i - 1, max_width, fm, None);
    if prev_none.0.len() >= 1 {
        lemma_wrap_fold_cap_one(toks, i - 1, max_width, fm);
    } else {
        // the uncapped fold commits its first line at this very step, so
        // the capped fold, equal until here, commits the same line and
        // stops.
        lemma_wrap_fold_no_commit(toks, i - 1, max_width, fm, None);
        lemma_wrap_fold_cap_agrees(toks, i - 1, max_width, fm, 1u32);
        assert(toks[i - 1].len() > 0);
    }
}

/// A text that wraps onto more than one line, capped at a single line,
/// yields exactly one line, and that line ends with the ellipsis marker:
/// the cap never drops content silently.
pub proof fn lemma_single_line_cap_marks_truncation(s: Seq<char>, max_width: u32, fm: FontMetrics)
    ensures
        spec_wrap(s, max_width, fm, None).len() > 1 ==> ({
            let r = spec_wrap(s, max_width, fm, Some(1u32));
            &&& r.len() == 1
            &&& r[0].len() >= 3
            &&& r[0].skip(r[0].len() - 3) == spec_ellipsis()
        }),
{
    if spec_wrap(s, max_width, fm, None).len() > 1 {
        let toks = spec_tokens(s);
        lemma_tokens_nonempty(s);
        let stn = spec_wrap_fold(toks, toks.len() as int, max_width, fm, None);
        assert(stn.0.len() >= 1);
        lemma_wrap_fold_cap_one(toks, toks.len() as int, max_width, fm);
        let st = spec_wrap_fold(toks, toks.len() as int, max_width, fm, Some(1u32));
        let r = spec_wrap(s, max_width, fm, Some(1u32));
        assert(r == st.0.update(0, spec_truncate_marked(st.0.last(), max_width, fm)));
        lemma_truncate_marked_props(st.0.last(), max_width, fm);
        assert(r[0] == spec_truncate_marked(st.0.last(), max_width, fm));
    }
}

} // verus!
