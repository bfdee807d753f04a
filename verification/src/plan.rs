//! The compositor: each element is planned into a short run of drawing
//! operations, and a whole poster becomes a `RenderPlan` — a canvas size
//! plus the operations in paint order.  A rendering backend executes the
//! plan; everything the plan contains (colors, placements, wrapped lines,
//! anchor positions) is computed and specified here.
//!
//! What the backend alone can provide — the pixel size of a decoded image
//! source and the measurement model of a resolved font — is handed in as
//! one `ElementData` value per element.

use vstd::prelude::*;

use crate::color::Color;
use crate::color::parse_color;
use crate::color::spec_parse_color;
use crate::geometry::FitPlacement;
use crate::geometry::compute_fit;
use crate::geometry::spec_fit;
use crate::layout::break_text_rtl;
use crate::layout::highlight_box;
use crate::layout::line_draw_x;
use crate::layout::line_y_position;
use crate::layout::spec_highlight_box;
use crate::layout::spec_line_draw_x;
use crate::layout::spec_line_y;
use crate::layout::spec_wrap;
use crate::metrics::FontMetrics;
use crate::metrics::measure_text_with_font;
use crate::metrics::spec_measure_text_width;
use crate::model::BackgroundElement;
use crate::model::Element;
use crate::model::ImageElement;
use crate::model::ObjectFit;
use crate::model::Radius;
use crate::model::TextAlignType;
use crate::model::TextDirectionType;
use crate::model::TextElement;
use crate::model::PosterError;
use crate::model::spec_text_wf;
use crate::script::is_rtl_text;
use crate::script::spec_is_rtl;

verus! {

/// One drawing operation of a render plan, in the backend's terms.
/// Outlines are carried as their parameters (box and radius); the backend
/// derives the outline with `create_rounded_rect_path`.
#[derive(Debug, Clone, PartialEq, Eq)]
pub enum DrawOp {
    /// Fill the whole canvas with a color.
    Clear { color: Color },
    /// Fill the rounded rectangle's outline with a color.
    FillRounded { x: i64, y: i64, w: u32, h: u32, radius: Radius, color: Color },
    /// Fill an axis-aligned rectangle with a color.
    FillRect { x: i64, y: i64, w: u32, h: u32, color: Color },
    /// Draw the decoded image of `src` under the given placement into the
    /// `w` by `h` box at `(x, y)`, clipped to the box's rounded outline
    /// when a radius is given.
    DrawImage {
        src: String,
        placement: FitPlacement,
        x: i64,
        y: i64,
        w: u32,
        h: u32,
        clip: Option<Radius>,
    },
    /// Draw one left-to-right text run at a baseline point, with the font
    /// resolved through the candidate chain for this family, file, and the
    /// whole element's script classification.
    DrawTextRun {
        text: String,
        x: i64,
        y: i64,
        font_size: u32,
        bold: bool,
        color: Color,
        font_family: Option<String>,
        font_file: Option<String>,
        rtl_content: bool,
    },
    /// Draw a right-to-left run through the backend's direction-aware
    /// paragraph capability, which shapes and reorders the characters.
    DrawParagraph { text: String, x: i64, y: i64, align: TextAlignType, font_size: u32, color:
        Color },
}

/// What the backend supplies about one element before planning: nothing,
/// the pixel size of its decoded image source, the fact that the source
/// could not be loaded, or the measurement model of its resolved font.
#[derive(Debug, Clone, PartialEq, Eq)]
pub enum ElementData {
    NoData,
    ImageDims { w: u32, h: u32 },
    ImageMissing,
    TextMetrics { metrics: FontMetrics },
}

/// Whether a data value fits its element: an image element needs decoded
/// dimensions (or the load failure), a background needs them only when it
/// carries an image, and a text element needs font metrics.
pub open spec fn spec_data_matches(e: Element, d: ElementData) -> bool {
    match e {
        Element::Background(bg) => match bg.image {
            Some(_) => (d matches ElementData::ImageDims { w, h } && w > 0 && h > 0) || d
                matches ElementData::ImageMissing,
            None => d matches ElementData::NoData,
        },
        Element::Image(_) => (d matches ElementData::ImageDims { w, h } && w > 0 && h > 0) || d
            matches ElementData::ImageMissing,
        Element::Text(_) => d matches ElementData::TextMetrics { metrics },
    }
}

/// Checks that one data value fits its element.
pub fn data_matches(e: &Element, d: &ElementData) -> (r: bool)
    ensures
        r == spec_data_matches(*e, *d),
{
    match e {
        Element::Background(bg) => match &bg.image {
            Some(_) => match d {
                ElementData::ImageDims { w, h } => *w > 0 && *h > 0,
                ElementData::ImageMissing => true,
                _ => false,
            },
            None => matches!(d, ElementData::NoData),
        },
        Element::Image(_) => match d {
            ElementData::ImageDims { w, h } => *w > 0 && *h > 0,
            ElementData::ImageMissing => true,
            _ => false,
        },
        Element::Text(_) => matches!(d, ElementData::TextMetrics { .. }),
    }
}

/// The full content of a text element: the literal prefix, when given,
/// concatenated before the text body.
pub open spec fn spec_full_text(t: TextElement) -> Seq<char> {
    (match t.prefix {
        Some(p) => p@,
        None => Seq::<char>::empty(),
    }) + t.text@
}

/// Builds the full content of a text element.
pub fn full_text(t: &TextElement) -> (r: String)
    ensures
        r@ == spec_full_text(*t),
{
    match &t.prefix {
        Some(p) => {
            let mut s = p.clone();
            s.append(t.text.as_str());
            s
        },
        None => t.text.clone(),
    }
}

/// The direction a text element is laid out in: an explicit right-to-left
/// setting always wins; an explicit left-to-right setting is overridden
/// whenever the full content classifies as right-to-left.  The asymmetry
/// is deliberate: classification can upgrade a run to right-to-left but
/// never downgrade an explicit right-to-left choice.
pub open spec fn spec_effective_direction(t: TextElement) -> TextDirectionType {
    if t.direction is Rtl || spec_is_rtl(spec_full_text(t)) {
        TextDirectionType::Rtl
    } else {
        TextDirectionType::Ltr
    }
}

/// Computes the effective direction of a text element from its full
/// content.
pub fn effective_direction(t: &TextElement, full: &str) -> (r: TextDirectionType)
    requires
        full@ == spec_full_text(*t),
    ensures
        r == spec_effective_direction(*t),
{
    match t.direction {
        TextDirectionType::Rtl => TextDirectionType::Rtl,
        TextDirectionType::Ltr => {
            if is_rtl_text(full) {
                TextDirectionType::Rtl
            } else {
                TextDirectionType::Ltr
            }
        },
    }
}

/// An explicit right-to-left direction is never downgraded, and content
/// that classifies as right-to-left always lays out right-to-left, even
/// against an explicit left-to-right setting.
pub proof fn lemma_direction_upgrade_only(t: TextElement)
    ensures
        t.direction is Rtl ==> spec_effective_direction(t) is Rtl,
        spec_is_rtl(spec_full_text(t)) ==> spec_effective_direction(t) is Rtl,
        spec_effective_direction(t) is Ltr ==> t.direction is Ltr && !spec_is_rtl(
            spec_full_text(t),
        ),
{
}

/// Clones an optional string.
fn clone_opt_string(o: &Option<String>) -> (r: Option<String>)
    ensures
        r == *o,
{
    match o {
        Some(s) => Some(s.clone()),
        None => None,
    }
}

/// How many operations one element plans to (given its data): a
/// background fills once and draws its image when one was decoded; an
/// image draws once; a text element draws its highlight box, then one run
/// per wrapped line (or a single run without wrapping).
pub open spec fn spec_element_op_count(e: Element, d: ElementData) -> int {
    match e {
        Element::Background(bg) => 1 + (match (bg.image, d) {
            (Some(_), ElementData::ImageDims { w, h }) => 1int,
            _ => 0int,
        }),
        Element::Image(_) => 1,
        Element::Text(t) => match d {
            ElementData::TextMetrics { metrics } => spec_text_op_count(t, metrics),
            _ => 0,
        },
    }
}

/// How many operations a text element plans to.
pub open spec fn spec_text_op_count(t: TextElement, m: FontMetrics) -> int {
    (if t.background_color is Some {
        1int
    } else {
        0int
    }) + (match t.max_width {
        Some(w) => spec_wrap(spec_full_text(t), w, m, t.max_lines).len() as int,
        None => 1int,
    })
}

/// What the operation drawing one text line must be: right-to-left
/// content routes through the paragraph capability (so shaping and
/// reordering are correct), anything else is a plain run whose x origin is
/// resolved from the measured width and the alignment.
pub open spec fn spec_line_op(
    t: TextElement,
    m: FontMetrics,
    dir: TextDirectionType,
    line: Seq<char>,
    y: int,
    op: DrawOp,
) -> bool {
    if dir is Rtl && spec_is_rtl(line) {
        op matches DrawOp::DrawParagraph { text, x, y: oy, align, font_size, color }
            && text@ == line && x == t.x as int && oy == y && align == t.align && font_size
            == t.font_size && color == spec_parse_color(t.color@)
    } else {
        op matches DrawOp::DrawTextRun { text, x, y: oy, font_size, bold, color, font_family,
            font_file, rtl_content } && text@ == line && x == spec_line_draw_x(
            t.x as int,
            t.align,
            spec_measure_text_width(line, m),
        ) && oy == y && font_size == t.font_size && bold == t.bold && color == spec_parse_color(
            t.color@,
        ) && font_family == t.font_family && font_file == t.font_file && rtl_content
            == spec_is_rtl(spec_full_text(t))
    }
}

/// What the highlight-box operation of a text element must be.
pub open spec fn spec_text_box_op(
    t: TextElement,
    m: FontMetrics,
    dir: TextDirectionType,
    op: DrawOp,
) -> bool {
    match t.background_color {
        Some(c) => {
            let boxr = spec_highlight_box(
                t.x as int,
                t.y as int,
                t.align,
                dir,
                t.padding,
                spec_measure_text_width(spec_full_text(t), m) as u32,
                m.text_height,
                t.width,
                t.height,
            );
            match t.border_radius {
                Some(rad) => op == (DrawOp::FillRounded {
                    x: boxr.x,
                    y: boxr.y,
                    w: boxr.w,
                    h: boxr.h,
                    radius: rad,
                    color: spec_parse_color(c@),
                }),
                None => op == (DrawOp::FillRect {
                    x: boxr.x,
                    y: boxr.y,
                    w: boxr.w,
                    h: boxr.h,
                    color: spec_parse_color(c@),
                }),
            }
        },
        None => true,
    }
}

/// What the `k`-th operation of a text element must be.
pub open spec fn spec_text_op(t: TextElement, m: FontMetrics, k: int, op: DrawOp) -> bool {
    let bgc: int = if t.background_color is Some {
        1int
    } else {
        0int
    };
    let full = spec_full_text(t);
    let dir = spec_effective_direction(t);
    if k == 0 && t.background_color is Some {
        spec_text_box_op(t, m, dir, op)
    } else if bgc <= k {
        match t.max_width {
            Some(mw) => {
                let lines = spec_wrap(full, mw, m, t.max_lines);
                if k - bgc < lines.len() {
                    spec_line_op(
                        t,
                        m,
                        dir,
                        lines[k - bgc],
                        spec_line_y(t.y as int, k - bgc, t.font_size, t.line_height),
                        op,
                    )
                } else {
                    true
                }
            },
            None => {
                if k == bgc {
                    spec_line_op(t, m, dir, full, t.y as int, op)
                } else {
                    true
                }
            },
        }
    } else {
        true
    }
}

/// What the `k`-th operation of a background element must be: a fill of
/// the whole canvas (through the rounded outline when a radius is given),
/// then the cover-scaled image when one was decoded, clipped to the same
/// outline.
pub open spec fn spec_background_op(
    bg: BackgroundElement,
    d: ElementData,
    cw: u32,
    ch: u32,
    k: int,
    op: DrawOp,
) -> bool {
    if k == 0 {
        match bg.radius {
            Some(rad) => op == (DrawOp::FillRounded {
                x: 0,
                y: 0,
                w: cw,
                h: ch,
                radius: rad,
                color: spec_parse_color(bg.color@),
            }),
            None => op == (DrawOp::Clear { color: spec_parse_color(bg.color@) }),
        }
    } else if k == 1 {
        match (bg.image, d) {
            (Some(src), ElementData::ImageDims { w, h }) => op == (DrawOp::DrawImage {
                src: src,
                placement: spec_fit(w, h, cw, ch, ObjectFit::Cover),
                x: 0,
                y: 0,
                w: cw,
                h: ch,
                clip: bg.radius,
            }),
            _ => true,
        }
    } else {
        true
    }
}

/// What the `k`-th operation of any element must be.
pub open spec fn spec_element_op(
    e: Element,
    d: ElementData,
    cw: u32,
    ch: u32,
    k: int,
    op: DrawOp,
) -> bool {
    match e {
        Element::Background(bg) => spec_background_op(bg, d, cw, ch, k, op),
        Element::Image(img) => match d {
            ElementData::ImageDims { w, h } => if k == 0 {
                op == (DrawOp::DrawImage {
                    src: img.src,
                    placement: spec_fit(w, h, img.width, img.height, img.object_fit),
                    x: img.x as i64,
                    y: img.y as i64,
                    w: img.width,
                    h: img.height,
                    clip: img.radius,
                })
            } else {
                true
            },
            _ => true,
        },
        Element::Text(t) => match d {
            ElementData::TextMetrics { metrics } => spec_text_op(t, metrics, k, op),
            _ => true,
        },
    }
}

/// Plans a background element: fill the canvas with its color (through
/// the rounded outline when a radius is given), then draw its decoded
/// image cover-scaled to the canvas, clipped to the same outline.  A
/// source that failed to load never reaches this function: it aborts the
/// whole plan.
pub fn plan_background(bg: &BackgroundElement, d: &ElementData, cw: u32, ch: u32) -> (ops: Vec<
    DrawOp,
>)
    requires
        spec_data_matches(Element::Background(*bg), *d),
        !(bg.image is Some && *d is ImageMissing),
        cw > 0,
        ch > 0,
    ensures
        ops@.len() == spec_element_op_count(Element::Background(*bg), *d),
        forall|k: int|
            0 <= k < ops@.len() ==> spec_element_op(
                Element::Background(*bg),
                *d,
                cw,
                ch,
                k,
                #[trigger] ops@[k],
            ),
{
    let color = parse_color(bg.color.as_str());
    let mut ops: Vec<DrawOp> = Vec::new();
    match &bg.radius {
        Some(rad) => ops.push(
            DrawOp::FillRounded { x: 0, y: 0, w: cw, h: ch, radius: *rad, color },
        ),
        None => ops.push(DrawOp::Clear { color }),
    }
    match (&bg.image, d) {
        (Some(src), ElementData::ImageDims { w, h }) => {
            let placement = compute_fit(*w, *h, cw, ch, &ObjectFit::Cover);
            ops.push(
                DrawOp::DrawImage {
                    src: src.clone(),
                    placement,
                    x: 0,
                    y: 0,
                    w: cw,
                    h: ch,
                    clip: match &bg.radius {
                        Some(rad) => Some(*rad),
                        None => None,
                    },
                },
            );
        },
        _ => {},
    }
    ops
}

/// Plans an image element: one draw of its decoded source, placed by its
/// object-fit policy inside its target box, clipped to the box's rounded
/// outline when a radius is given.
pub fn plan_image(img: &ImageElement, src_w: u32, src_h: u32) -> (ops: Vec<DrawOp>)
    requires
        src_w > 0,
        src_h > 0,
    ensures
        ops@.len() == 1,
        forall|k: int|
            0 <= k < ops@.len() ==> spec_element_op(
                Element::Image(*img),
                ElementData::ImageDims { w: src_w, h: src_h },
                0,
                0,
                k,
                #[trigger] ops@[k],
            ),
{
    let placement = compute_fit(src_w, src_h, img.width, img.height, &img.object_fit);
    let mut ops: Vec<DrawOp> = Vec::new();
    ops.push(
        DrawOp::DrawImage {
            src: img.src.clone(),
            placement,
            x: img.x as i64,
            y: img.y as i64,
            w: img.width,
            h: img.height,
            clip: match &img.radius {
                Some(rad) => Some(*rad),
                None => None,
            },
        },
    );
    ops
}

/// Plans a text element: its highlight box first (when a background color
/// is set), then one drawing operation per line — the wrapped lines under
/// `max_width`, each a line advance further down, or the single full run.
pub fn plan_text(t: &TextElement, m: &FontMetrics) -> (ops: Vec<DrawOp>)
    requires
        spec_text_wf(*t),
    ensures
        ops@.len() == spec_text_op_count(*t, *m),
        forall|k: int|
            0 <= k < ops@.len() ==> spec_text_op(*t, *m, k, #[trigger] ops@[k]),
{
    let full = full_text(t);
    let dir = effective_direction(t, full.as_str());
    let content_rtl = is_rtl_text(full.as_str());
    let color = parse_color(t.color.as_str());
    let mut ops: Vec<DrawOp> = Vec::new();
    match &t.background_color {
        Some(c) => {
            let bgcol = parse_color(c.as_str());
            let (tw, th) = measure_text_with_font(full.as_str(), m);
            let boxr = highlight_box(t.x, t.y, &t.align, &dir, t.padding, tw, th, &t.width,
                &t.height);
            match &t.border_radius {
                Some(rad) => ops.push(
                    DrawOp::FillRounded {
                        x: boxr.x,
                        y: boxr.y,
                        w: boxr.w,
                        h: boxr.h,
                        radius: *rad,
                        color: bgcol,
                    },
                ),
                None => ops.push(
                    DrawOp::FillRect { x: boxr.x, y: boxr.y, w: boxr.w, h: boxr.h, color: bgcol },
                ),
            }
        },
        None => {},
    }
    let ghost bgc = ops@.len() as int;
    match t.max_width {
        Some(mw) => {
            let lines = break_text_rtl(full.as_str(), mw, m, t.max_lines);
            let ghost spec_lines = spec_wrap(spec_full_text(*t), mw, *m, t.max_lines);
            let nl = lines.len();
            let mut i: usize = 0;
            while i < nl
                invariant
                    nl == lines@.len(),
                    0 <= i <= nl,
                    lines@.len() == spec_lines.len(),
                    forall|j: int| 0 <= j < nl ==> lines@[j]@ == spec_lines[j],
                    spec_lines == spec_wrap(spec_full_text(*t), mw, *m, t.max_lines),
                    t.max_width == Some(mw),
                    bgc == if t.background_color is Some { 1int } else { 0int },
                    dir == spec_effective_direction(*t),
                    content_rtl == spec_is_rtl(spec_full_text(*t)),
                    color == spec_parse_color(t.color@),
                    ops@.len() == bgc + i,
                    forall|k: int| 0 <= k < ops@.len() ==> spec_text_op(*t, *m, k, #[trigger] ops@[k]),
                decreases nl - i,
            {
                let y = line_y_position(t.y, i, t.font_size, t.line_height);
                let line = &lines[i];
                let rtl_line = match dir {
                    TextDirectionType::Rtl => is_rtl_text(line.as_str()),
                    TextDirectionType::Ltr => false,
                };
                if rtl_line {
                    ops.push(
                        DrawOp::DrawParagraph {
                            text: line.clone(),
                            x: t.x as i64,
                            y,
                            align: t.align,
                            font_size: t.font_size,
                            color,
                        },
                    );
                } else {
                    let (lw, _) = measure_text_with_font(line.as_str(), m);
                    let dx = line_draw_x(t.x, &t.align, lw);
                    ops.push(
                        DrawOp::DrawTextRun {
                            text: line.clone(),
                            x: dx,
                            y,
                            font_size: t.font_size,
                            bold: t.bold,
                            color,
                            font_family: clone_opt_string(&t.font_family),
                            font_file: clone_opt_string(&t.font_file),
                            rtl_content: content_rtl,
                        },
                    );
                }
                i = i + 1;
            }
        },
        None => {
            let rtl_line = match dir {
                TextDirectionType::Rtl => is_rtl_text(full.as_str()),
                TextDirectionType::Ltr => false,
            };
            if rtl_line {
                ops.push(
                    DrawOp::DrawParagraph {
                        text: full,
                        x: t.x as i64,
                        y: t.y as i64,
                        align: t.align,
                        font_size: t.font_size,
                        color,
                    },
                );
            } else {
                let (lw, _) = measure_text_with_font(full.as_str(), m);
                let dx = line_draw_x(t.x, &t.align, lw);
                ops.push(
                    DrawOp::DrawTextRun {
                        text: full,
                        x: dx,
                        y: t.y as i64,
                        font_size: t.font_size,
                        bold: t.bold,
                        color,
                        font_family: clone_opt_string(&t.font_family),
                        font_file: clone_opt_string(&t.font_file),
                        rtl_content: content_rtl,
                    },
                );
            }
        },
    }
    ops
}

/// A complete drawing plan: the canvas size and the operations in paint
/// order.
#[derive(Debug, Clone, PartialEq, Eq)]
pub struct RenderPlan {
    pub width: u32,
    pub height: u32,
    pub ops: Vec<DrawOp>,
}

/// Whether an element carries an image source that failed to load: an
/// image element whose source is missing, or a background with an image
/// reference whose source is missing.
pub open spec fn spec_image_source_missing(e: Element, d: ElementData) -> bool {
    match e {
        Element::Background(bg) => bg.image is Some && d is ImageMissing,
        Element::Image(_) => d is ImageMissing,
        Element::Text(_) => false,
    }
}

/// The position of the first element whose image source failed to load,
/// scanning from `i` (the length when every source decoded).
pub open spec fn spec_first_missing(s: Seq<Element>, d: Seq<ElementData>, i: int) -> int
    decreases s.len() - i,
{
    if i < 0 || i >= s.len() {
        s.len() as int
    } else if spec_image_source_missing(s[i], d[i]) {
        i
    } else {
        spec_first_missing(s, d, i + 1)
    }
}

/// An element plans a non-negative number of operations.
proof fn lemma_op_count_nonneg(e: Element, d: ElementData)
    ensures
        spec_element_op_count(e, d) >= 0,
{
}

/// The number of operations planned by the first `i` elements.
pub open spec fn spec_ops_before(s: Seq<Element>, d: Seq<ElementData>, i: int) -> int
    decreases i,
{
    if i <= 0 {
        0
    } else {
        spec_ops_before(s, d, i - 1) + spec_element_op_count(s[i - 1], d[i - 1])
    }
}

/// The operation count of a prefix grows with the prefix.
proof fn lemma_ops_before_mono(s: Seq<Element>, d: Seq<ElementData>, a: int, b: int)
    requires
        0 <= a <= b,
    ensures
        spec_ops_before(s, d, a) <= spec_ops_before(s, d, b),
    decreases b - a,
{
    if b > a {
        lemma_ops_before_mono(s, d, a, b - 1);
        lemma_op_count_nonneg(s[b - 1], d[b - 1]);
    }
}

/// Builds the drawing plan of a whole poster: a clear of the canvas with
/// the poster's background color, then the operations of every element in
/// the given (depth-sorted) order.  The first image source that failed to
/// load — on an image element or on a background — aborts the whole plan
/// with an image-load error carrying that source; every other degradation
/// is graceful.
pub fn build_plan(
    width: u32,
    height: u32,
    background_color: &str,
    sorted: &Vec<Element>,
    data: &Vec<ElementData>,
) -> (r: Result<RenderPlan, PosterError>)
    requires
        width > 0,
        height > 0,
        data@.len() == sorted@.len(),
        forall|i: int|
            0 <= i < sorted@.len() ==> spec_data_matches(#[trigger] sorted@[i], data@[i]),
        forall|i: int| 0 <= i < sorted@.len() ==> crate::model::spec_element_wf(
            #[trigger] sorted@[i],
        ),
    ensures
        r is Ok <==> spec_first_missing(sorted@, data@, 0) == sorted@.len(),
        r matches Err(e) ==> (e matches PosterError::ImageLoadError(msg) && (match sorted@[
            spec_first_missing(sorted@, data@, 0)
        ] {
            Element::Image(img) => msg == img.src,
            Element::Background(bg) => bg.image matches Some(src) && msg == src,
            Element::Text(_) => false,
        })),
        r matches Ok(p) ==> {
            &&& p.width == width
            &&& p.height == height
            &&& p.ops@.len() == 1 + spec_ops_before(sorted@, data@, sorted@.len() as int)
            &&& p.ops@[0] == (DrawOp::Clear { color: spec_parse_color(background_color@) })
            &&& forall|i: int, k: int|
                0 <= i < sorted@.len() && 0 <= k < spec_element_op_count(
                    sorted@[i],
                    data@[i],
                ) ==> #[trigger] spec_element_op(
                    sorted@[i],
                    data@[i],
                    width,
                    height,
                    k,
                    p.ops@[1 + spec_ops_before(sorted@, data@, i) + k],
                )
        },
{
    let n = sorted.len();
    let mut ops: Vec<DrawOp> = Vec::new();
    ops.push(DrawOp::Clear { color: parse_color(background_color) });
    let mut i: usize = 0;
    while i < n
        invariant
            n == sorted@.len(),
            data@.len() == sorted@.len(),
            0 <= i <= n,
            width > 0,
            height > 0,
            forall|j: int|
                0 <= j < sorted@.len() ==> spec_data_matches(#[trigger] sorted@[j], data@[j]),
            forall|j: int| 0 <= j < sorted@.len() ==> crate::model::spec_element_wf(
                #[trigger] sorted@[j],
            ),
            spec_first_missing(sorted@, data@, 0) == spec_first_missing(sorted@, data@, i as int),
            ops@.len() == 1 + spec_ops_before(sorted@, data@, i as int),
            ops@[0] == (DrawOp::Clear { color: spec_parse_color(background_color@) }),
            forall|j: int, k: int|
                0 <= j < i && 0 <= k < spec_element_op_count(sorted@[j], data@[j])
                    ==> #[trigger] spec_element_op(
                    sorted@[j],
                    data@[j],
                    width,
                    height,
                    k,
                    ops@[1 + spec_ops_before(sorted@, data@, j) + k],
                ),
        decreases n - i,
    {
        let ghost old_ops = ops@;
        let ghost before_i = spec_ops_before(sorted@, data@, i as int);
        let ghost added: Seq<DrawOp>;
        match (&sorted[i], &data[i]) {
            (Element::Background(bg), dd) => {
                match (&bg.image, dd) {
                    (Some(src), ElementData::ImageMissing) => {
                        return Err(PosterError::ImageLoadError(src.clone()));
                    },
                    _ => {},
                }
                let mut elem_ops = plan_background(bg, dd, width, height);
                proof {
                    added = elem_ops@;
                }
                ops.append(&mut elem_ops);
            },
            (Element::Image(img), ElementData::ImageDims { w, h }) => {
                let mut elem_ops = plan_image(img, *w, *h);
                proof {
                    added = elem_ops@;
                }
                ops.append(&mut elem_ops);
            },
            (Element::Image(img), _) => {
                proof {
                    assert(data@[i as int] is ImageMissing);
                }
                return Err(PosterError::ImageLoadError(img.src.clone()));
            },
            (Element::Text(t), ElementData::TextMetrics { metrics }) => {
                let mut elem_ops = plan_text(t, metrics);
                proof {
                    added = elem_ops@;
                }
                ops.append(&mut elem_ops);
            },
            (Element::Text(t), _) => {
                proof {
                    assert(false);
                }
                return Err(PosterError::RenderError(String::from_str("text metrics are missing")));
            },
        }
        proof {
            let s = sorted@;
            let d = data@;
            let ii = i as int;
            lemma_ops_before_mono(s, d, 0, ii);
            assert(before_i >= 0);
            assert(ops@ == old_ops + added);
            assert((old_ops + added).len() == old_ops.len() + added.len());
            assert(forall|t: int| 0 <= t < old_ops.len() ==> (old_ops + added)[t] == old_ops[t]);
            assert(forall|t: int|
                0 <= t < added.len() ==> (old_ops + added)[old_ops.len() + t] == added[t]);
            assert(added.len() == spec_element_op_count(s[ii], d[ii]));
            assert(forall|k: int|
                0 <= k < added.len() ==> spec_element_op(
                    s[ii],
                    d[ii],
                    width,
                    height,
                    k,
                    #[trigger] added[k],
                ));
            assert(spec_ops_before(s, d, ii + 1) == before_i + spec_element_op_count(
                s[ii],
                d[ii],
            ));
            assert(ops@.len() == 1 + spec_ops_before(s, d, ii + 1));
            assert(ops@[0] == old_ops[0]);
            assert forall|j: int, k: int|
                0 <= j < ii + 1 && 0 <= k < spec_element_op_count(s[j], d[j])
                    implies #[trigger] spec_element_op(
                s[j],
                d[j],
                width,
                height,
                k,
                ops@[1 + spec_ops_before(s, d, j) + k],
            ) by {
                if j < ii {
                    lemma_ops_before_mono(s, d, 0, j);
                    lemma_ops_before_mono(s, d, j + 1, ii);
                    assert(spec_ops_before(s, d, j + 1) == spec_ops_before(s, d, j)
                        + spec_element_op_count(s[j], d[j]));
                    assert(1 + spec_ops_before(s, d, j) + k < old_ops.len());
                    assert(ops@[1 + spec_ops_before(s, d, j) + k] == old_ops[1 + spec_ops_before(
                        s,
                        d,
                        j,
                    ) + k]);
                } else {
                    assert(ops@[1 + before_i + k] == added[k]);
                    assert(spec_element_op(s[j], d[j], width, height, k, added[k]));
                }
            }
        }
        i = i + 1;
    }
    Ok(RenderPlan { width, height, ops })
}

/// The poster generator: canvas dimensions, a background color, and a
/// mutable element list, with a plan built from the depth-sorted elements.
#[derive(Debug, Clone, PartialEq, Eq)]
pub struct PosterGenerator {
    pub width: u32,
    pub height: u32,
    pub background_color: String,
    pub elements: Vec<Element>,
}

impl PosterGenerator {
    /// A generator for a canvas of the given size and background color,
    /// with no elements yet.
    pub fn new(width: u32, height: u32, background_color: String) -> (r: Self)
        ensures
            r.width == width,
            r.height == height,
            r.background_color == background_color,
            r.elements@ == Seq::<Element>::empty(),
    {
        PosterGenerator { width, height, background_color, elements: Vec::new() }
    }

    /// Appends a background element.
    pub fn add_background(&mut self, background: BackgroundElement)
        ensures
            final(self).elements@ == old(self).elements@.push(Element::Background(background)),
            final(self).width == old(self).width,
            final(self).height == old(self).height,
            final(self).background_color == old(self).background_color,
    {
        self.elements.push(Element::Background(background));
    }

    /// Appends an image element.
    pub fn add_image(&mut self, image: ImageElement)
        ensures
            final(self).elements@ == old(self).elements@.push(Element::Image(image)),
            final(self).width == old(self).width,
            final(self).height == old(self).height,
            final(self).background_color == old(self).background_color,
    {
        self.elements.push(Element::Image(image));
    }

    /// Appends a text element.
    pub fn add_text(&mut self, text: TextElement)
        ensures
            final(self).elements@ == old(self).elements@.push(Element::Text(text)),
            final(self).width == old(self).width,
            final(self).height == old(self).height,
            final(self).background_color == old(self).background_color,
    {
        self.elements.push(Element::Text(text));
    }

    /// Removes every element.
    pub fn clear(&mut self)
        ensures
            final(self).elements@ == Seq::<Element>::empty(),
            final(self).width == old(self).width,
            final(self).height == old(self).height,
            final(self).background_color == old(self).background_color,
    {
        self.elements.clear();
    }

    /// Replaces the element list.
    pub fn set_elements(&mut self, elements: Vec<Element>)
        ensures
            final(self).elements@ == elements@,
            final(self).width == old(self).width,
            final(self).height == old(self).height,
            final(self).background_color == old(self).background_color,
    {
        self.clear();
        self.elements = elements;
    }

    /// Takes the generator apart: its dimensions, background color, and
    /// elements, for sorting and planning.
    pub fn into_parts(self) -> (r: (u32, u32, String, Vec<Element>))
        ensures
            r.0 == self.width,
            r.1 == self.height,
            r.2 == self.background_color,
            r.3 == self.elements,
    {
        (self.width, self.height, self.background_color, self.elements)
    }
}

} // verus!
