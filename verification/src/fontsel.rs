//! Font resolution: the prioritized fallback chain that picks a concrete
//! font for a text run.
//!
//! The chain itself is data: `font_candidates` lists the candidates in
//! resolution order (explicit file, bundled right-to-left faces, explicit
//! family, a script-aware family list, the platform default, the built-in
//! default), and `select_first_hit` picks the first candidate the backend
//! could load.  Probing the font catalog and the file system is the
//! backend's part; because the chain ends with the built-in default, which
//! always loads, resolution never fails outward.

use vstd::prelude::*;

use crate::script::is_rtl_text;
use crate::script::spec_is_rtl;

verus! {

/// One way to obtain a font, in the backend's terms.
#[derive(Debug, Clone, PartialEq, Eq)]
pub enum FontCandidate {
    /// Construct a font from the bytes of this file path.
    File(String),
    /// Match this family name against the installed font catalog.
    Family(String),
    /// The platform's default typeface.
    SystemDefault,
    /// The built-in default font; loading it cannot fail.
    BuiltinDefault,
}

/// The mathematical view of a font candidate.
pub enum FontQuery {
    File(Seq<char>),
    Family(Seq<char>),
    SystemDefault,
    BuiltinDefault,
}

impl View for FontCandidate {
    type V = FontQuery;

    open spec fn view(&self) -> FontQuery {
        match self {
            FontCandidate::File(s) => FontQuery::File(s@),
            FontCandidate::Family(s) => FontQuery::Family(s@),
            FontCandidate::SystemDefault => FontQuery::SystemDefault,
            FontCandidate::BuiltinDefault => FontQuery::BuiltinDefault,
        }
    }
}

/// The view of an optional borrowed string.
pub open spec fn opt_str_view(o: Option<&str>) -> Option<Seq<char>> {
    match o {
        Some(s) => Some(s@),
        None => None,
    }
}

/// The family names tried for right-to-left text, in priority order: the
/// bundled face first, then faces with strong Arabic-script coverage, then
/// broad fallbacks.
pub open spec fn spec_rtl_families() -> Seq<Seq<char>> {
    seq![
        "UKIJBasma"@,
        "UKIJ Basma"@,
        "Geeza Pro"@,
        "Al Bayan"@,
        "Arial Unicode MS"@,
        "Baghdad"@,
        "Nadeem"@,
        "DejaVu Sans"@,
        "Times New Roman"@,
        "Arial"@,
        "Helvetica"@,
    ]
}

/// The family names tried for left-to-right text, in priority order.
pub open spec fn spec_ltr_families() -> Seq<Seq<char>> {
    seq!["SF Pro Text"@, "Arial"@, "Helvetica"@, "Times New Roman"@]
}

/// The full candidate chain for a run: an explicit font file first, then
/// (for right-to-left text) the bundled face under its two well-known
/// relative paths, then the explicit family, then the script-aware family
/// list, then the platform default and the built-in default.
pub open spec fn spec_font_candidates(
    rtl: bool,
    family: Option<Seq<char>>,
    file: Option<Seq<char>>,
) -> Seq<FontQuery> {
    (match file {
        Some(f) => seq![FontQuery::File(f)],
        None => Seq::<FontQuery>::empty(),
    }) + (if rtl {
        seq![FontQuery::File("UKIJBasma.ttf"@), FontQuery::File("./UKIJBasma.ttf"@)]
    } else {
        Seq::<FontQuery>::empty()
    }) + (match family {
        Some(f) => seq![FontQuery::Family(f)],
        None => Seq::<FontQuery>::empty(),
    }) + (if rtl {
        spec_rtl_families().map_values(|s: Seq<char>| FontQuery::Family(s))
    } else {
        spec_ltr_families().map_values(|s: Seq<char>| FontQuery::Family(s))
    }) + seq![FontQuery::SystemDefault, FontQuery::BuiltinDefault]
}

/// Builds the font candidate chain for a text run, in resolution order.
pub fn font_candidates(text: &str, font_family: Option<&str>, font_file: Option<&str>) -> (r: Vec<
    FontCandidate,
>)
    ensures
        r@.map_values(|c: FontCandidate| c@) == spec_font_candidates(
            spec_is_rtl(text@),
            opt_str_view(font_family),
            opt_str_view(font_file),
        ),
{
    let rtl = is_rtl_text(text);
    font_candidates_for(rtl, font_family, font_file)
}

/// Builds the font candidate chain for content already classified: the
/// chain depends on the text only through its right-to-left
/// classification, so a run cut from a larger element resolves with the
/// whole element's chain.
pub fn font_candidates_for(rtl: bool, font_family: Option<&str>, font_file: Option<&str>) -> (r:
    Vec<FontCandidate>)
    ensures
        r@.map_values(|c: FontCandidate| c@) == spec_font_candidates(
            rtl,
            opt_str_view(font_family),
            opt_str_view(font_file),
        ),
{
    let mut cands: Vec<FontCandidate> = Vec::new();
    match font_file {
        Some(f) => {
            cands.push(FontCandidate::File(String::from_str(f)));
        },
        None => {},
    }
    if rtl {
        cands.push(FontCandidate::File(String::from_str("UKIJBasma.ttf")));
        cands.push(FontCandidate::File(String::from_str("./UKIJBasma.ttf")));
    }
    match font_family {
        Some(f) => {
            cands.push(FontCandidate::Family(String::from_str(f)));
        },
        None => {},
    }
    if rtl {
        cands.push(FontCandidate::Family(String::from_str("UKIJBasma")));
        cands.push(FontCandidate::Family(String::from_str("UKIJ Basma")));
        cands.push(FontCandidate::Family(String::from_str("Geeza Pro")));
        cands.push(FontCandidate::Family(String::from_str("Al Bayan")));
        cands.push(FontCandidate::Family(String::from_str("Arial Unicode MS")));
        cands.push(FontCandidate::Family(String::from_str("Baghdad")));
        cands.push(FontCandidate::Family(String::from_str("Nadeem")));
        cands.push(FontCandidate::Family(String::from_str("DejaVu Sans")));
        cands.push(FontCandidate::Family(String::from_str("Times New Roman")));
        cands.push(FontCandidate::Family(String::from_str("Arial")));
        cands.push(FontCandidate::Family(String::from_str("Helvetica")));
    } else {
        cands.push(FontCandidate::Family(String::from_str("SF Pro Text")));
        cands.push(FontCandidate::Family(String::from_str("Arial")));
        cands.push(FontCandidate::Family(String::from_str("Helvetica")));
        cands.push(FontCandidate::Family(String::from_str("Times New Roman")));
    }
    cands.push(FontCandidate::SystemDefault);
    cands.push(FontCandidate::BuiltinDefault);
    proof {
        assert(cands@.map_values(|c: FontCandidate| c@) =~= spec_font_candidates(
            rtl,
            opt_str_view(font_family),
            opt_str_view(font_file),
        ));
    }
    cands
}

/// First success wins: the index of the first candidate the backend could
/// load, or `None` when every probe failed.
pub fn select_first_hit(hits: &Vec<bool>) -> (r: Option<usize>)
    ensures
        r matches Some(i) ==> 0 <= i < hits@.len() && hits@[i as int] && (forall|j: int|
            0 <= j < i ==> !hits@[j]),
        r is None ==> forall|j: int| 0 <= j < hits@.len() ==> !hits@[j],
{
    let n = hits.len();
    let mut i: usize = 0;
    while i < n
        invariant
            n == hits@.len(),
            0 <= i <= n,
            forall|j: int| 0 <= j < i ==> !hits@[j],
        decreases n - i,
    {
        if hits[i] {
            return Some(i);
        }
        i = i + 1;
    }
    None
}

} // verus!
