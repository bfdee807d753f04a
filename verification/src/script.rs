//! Script classification: whether a text run is dominantly right-to-left.

use vstd::prelude::*;

verus! {

/// One code point of a right-to-left script block: Arabic, Arabic
/// Supplement, Arabic Extended-A, or one of the two Arabic Presentation
/// Forms blocks.
pub open spec fn is_rtl_char(c: char) -> bool {
    ||| 0x0600 <= c as u32 <= 0x06FF
    ||| 0x0750 <= c as u32 <= 0x077F
    ||| 0x08A0 <= c as u32 <= 0x08FF
    ||| 0xFB50 <= c as u32 <= 0xFDFF
    ||| 0xFE70 <= c as u32 <= 0xFEFF
}

/// A text run is right-to-left when any of its characters belongs to a
/// right-to-left script block.
pub open spec fn spec_is_rtl(s: Seq<char>) -> bool {
    exists|i: int| 0 <= i < s.len() && is_rtl_char(s[i])
}

/// Classifies a text run: true when any character falls in a right-to-left
/// script block.  A single such character makes the whole run right-to-left,
/// so that mixed runs still receive right-to-left layout; the empty string
/// and purely left-to-right text yield false.
pub fn is_rtl_text(text: &str) -> (r: bool)
    ensures
        r == spec_is_rtl(text@),
{
    let n = text.unicode_len();
    let mut i: usize = 0;
    while i < n
        invariant
            n == text@.len(),
            0 <= i <= n,
            forall|j: int| 0 <= j < i ==> !is_rtl_char(text@[j]),
        decreases n - i,
    {
        let c = text.get_char(i);
        let code = c as u32;
        if (0x0600 <= code && code <= 0x06FF)
            || (0x0750 <= code && code <= 0x077F)
            || (0x08A0 <= code && code <= 0x08FF)
            || (0xFB50 <= code && code <= 0xFDFF)
            || (0xFE70 <= code && code <= 0xFEFF)
        {
            assert(is_rtl_char(text@[i as int]));
            return true;
        }
        i = i + 1;
    }
    false
}

} // verus!
