//! The element model: a poster is a fixed-size canvas with a background
//! color and an ordered list of background, image, and text elements.
//!
//! Geometry is carried as plain integers: positions are `i32` pixels, sizes
//! are `u32` pixels, and the line-height multiplier is given in hundredths
//! (so `150` stands for one-and-a-half line spacing).

use vstd::prelude::*;

verus! {

/// The failures that abort a render: an unreadable or undecodable image
/// source, a drawing operation that cannot proceed, and a failure to encode
/// or write the output.  Each carries a description of the subject.
#[derive(Debug, Clone, PartialEq, Eq)]
pub enum PosterError {
    ImageLoadError(String),
    RenderError(String),
    OutputError(String),
}

/// The human-readable description of a failure.
pub open spec fn spec_error_message(e: PosterError) -> Seq<char> {
    match e {
        PosterError::ImageLoadError(s) => "Failed to load image: "@ + s@,
        PosterError::RenderError(s) => "Failed to render element: "@ + s@,
        PosterError::OutputError(s) => "Failed to generate output: "@ + s@,
    }
}

impl PosterError {
    /// A human-readable description of the failure.
    pub fn message(&self) -> (r: String)
        ensures
            r@ == spec_error_message(*self),
    {
        match self {
            PosterError::ImageLoadError(s) => {
                let mut m = String::from_str("Failed to load image: ");
                m.append(s.as_str());
                m
            },
            PosterError::RenderError(s) => {
                let mut m = String::from_str("Failed to render element: ");
                m.append(s.as_str());
                m
            },
            PosterError::OutputError(s) => {
                let mut m = String::from_str("Failed to generate output: ");
                m.append(s.as_str());
                m
            },
        }
    }
}

/// The policy for scaling a source image into a target box.
#[derive(Clone, Copy, Debug, PartialEq, Eq, Structural)]
pub enum ObjectFit {
    /// The smallest uniform scale whose result covers the whole box.
    Cover,
    /// The largest uniform scale whose result stays inside the box.
    Contain,
    /// Independent per-axis scales; the result exactly fills the box.
    Stretch,
}

/// Horizontal alignment of a text line relative to its anchor point.
#[derive(Clone, Copy, Debug, PartialEq, Eq, Structural)]
pub enum TextAlignType {
    Left,
    Center,
    Right,
}

/// The writing direction of a text element.
#[derive(Clone, Copy, Debug, PartialEq, Eq, Structural)]
pub enum TextDirectionType {
    Ltr,
    Rtl,
}

/// A corner radius: one value for all four corners, or four values in
/// top-left, top-right, bottom-right, bottom-left order.
#[derive(Clone, Copy, Debug, PartialEq, Eq, Structural)]
pub enum Radius {
    Single(u32),
    Multiple { tl: u32, tr: u32, br: u32, bl: u32 },
}

/// The backdrop of the poster: a fill color, an optional image reference
/// scaled to cover the canvas, and an optional corner radius.  A background
/// always occupies the lowest depth.
#[derive(Debug, Clone, PartialEq, Eq)]
pub struct BackgroundElement {
    pub image: Option<String>,
    pub color: String,
    pub radius: Option<Radius>,
}

/// A picture placed at an origin with a target box, an object-fit policy,
/// an optional corner radius, and an optional explicit depth.
#[derive(Debug, Clone, PartialEq, Eq)]
pub struct ImageElement {
    pub src: String,
    pub x: i32,
    pub y: i32,
    pub width: u32,
    pub height: u32,
    pub radius: Option<Radius>,
    pub z_index: Option<i32>,
    pub object_fit: ObjectFit,
}

/// A block of text anchored at a baseline point, with alignment, optional
/// wrapping under a maximum width, an optional line cap, and an optional
/// highlight box drawn behind the text.
#[derive(Debug, Clone, PartialEq, Eq)]
pub struct TextElement {
    pub text: String,
    pub x: i32,
    pub y: i32,
    pub font_size: u32,
    pub color: String,
    pub align: TextAlignType,
    pub font_family: Option<String>,
    pub font_file: Option<String>,
    pub max_width: Option<u32>,
    /// Line-height multiplier in hundredths of the font size.
    pub line_height: u32,
    pub max_lines: Option<u32>,
    pub z_index: Option<i32>,
    pub bold: bool,
    pub prefix: Option<String>,
    pub background_color: Option<String>,
    pub padding: u32,
    pub border_radius: Option<Radius>,
    pub width: Option<u32>,
    pub height: Option<u32>,
    pub direction: TextDirectionType,
}

/// A poster element: a closed union of the three element kinds.
#[derive(Debug, Clone, PartialEq, Eq)]
pub enum Element {
    Background(BackgroundElement),
    Image(ImageElement),
    Text(TextElement),
}

/// A complete poster description: canvas size, background color, and the
/// ordered element list.  Width and height must be positive.
#[derive(Debug, Clone, PartialEq, Eq)]
pub struct PosterConfig {
    pub width: u32,
    pub height: u32,
    pub background_color: String,
    pub elements: Vec<Element>,
}

/// The depth key a background element sorts under: always the lowest.
pub open spec fn spec_background_depth() -> int {
    -1000
}

/// The depth key of an element: backgrounds are pinned to the lowest depth;
/// images and text use their explicit depth, or zero when none is given.
pub open spec fn spec_depth_key(e: Element) -> int {
    match e {
        Element::Background(_) => spec_background_depth(),
        Element::Image(img) => match img.z_index {
            Some(z) => z as int,
            None => 0,
        },
        Element::Text(txt) => match txt.z_index {
            Some(z) => z as int,
            None => 0,
        },
    }
}

impl BackgroundElement {
    /// Backgrounds always sort below every other element.
    pub fn z_index(&self) -> (r: i32)
        ensures
            r == spec_depth_key(Element::Background(*self)),
    {
        -1000
    }
}

impl ImageElement {
    /// The explicit depth, or zero when none is given.
    pub fn z_index(&self) -> (r: i32)
        ensures
            r == spec_depth_key(Element::Image(*self)),
    {
        match self.z_index {
            Some(z) => z,
            None => 0,
        }
    }
}

impl TextElement {
    /// The explicit depth, or zero when none is given.
    pub fn z_index(&self) -> (r: i32)
        ensures
            r == spec_depth_key(Element::Text(*self)),
    {
        match self.z_index {
            Some(z) => z,
            None => 0,
        }
    }
}

impl Element {
    /// The depth key this element sorts under.
    pub fn depth_key(&self) -> (r: i32)
        ensures
            r == spec_depth_key(*self),
    {
        match self {
            Element::Background(bg) => bg.z_index(),
            Element::Image(img) => img.z_index(),
            Element::Text(txt) => txt.z_index(),
        }
    }
}

/// Well-formedness of an image element: the target box is positive.
pub open spec fn spec_image_wf(e: ImageElement) -> bool {
    e.width > 0 && e.height > 0
}

/// Well-formedness of a text element: the font size is positive and a line
/// cap, when given, admits at least one line.
pub open spec fn spec_text_wf(t: TextElement) -> bool {
    &&& t.font_size > 0
    &&& (t.max_lines matches Some(m) ==> m >= 1)
}

/// Well-formedness of an element.
pub open spec fn spec_element_wf(e: Element) -> bool {
    match e {
        Element::Background(_) => true,
        Element::Image(img) => spec_image_wf(img),
        Element::Text(txt) => spec_text_wf(txt),
    }
}

/// Well-formedness of a poster description: positive canvas and
/// well-formed elements.
pub open spec fn spec_config_wf(width: u32, height: u32, elements: Seq<Element>) -> bool {
    &&& width > 0
    &&& height > 0
    &&& forall|i: int| 0 <= i < elements.len() ==> spec_element_wf(#[trigger] elements[i])
}

impl Element {
    /// Checks well-formedness of this element.
    pub fn is_wf(&self) -> (r: bool)
        ensures
            r == spec_element_wf(*self),
    {
        match self {
            Element::Background(_) => true,
            Element::Image(img) => img.width > 0 && img.height > 0,
            Element::Text(txt) => txt.font_size > 0 && (match txt.max_lines {
                Some(m) => m >= 1,
                None => true,
            }),
        }
    }
}

/// Checks well-formedness of a whole poster description.
pub fn elements_wf(width: u32, height: u32, elements: &Vec<Element>) -> (r: bool)
    ensures
        r == spec_config_wf(width, height, elements@),
{
    if width == 0 || height == 0 {
        return false;
    }
    let n = elements.len();
    let mut i: usize = 0;
    while i < n
        invariant
            n == elements@.len(),
            0 <= i <= n,
            forall|j: int| 0 <= j < i ==> spec_element_wf(#[trigger] elements@[j]),
        decreases n - i,
    {
        if !elements[i].is_wf() {
            return false;
        }
        i = i + 1;
    }
    true
}

/// The default object-fit policy.
pub fn default_object_fit() -> (r: ObjectFit)
    ensures
        r == ObjectFit::Cover,
{
    ObjectFit::Cover
}

/// The default text alignment.
pub fn default_text_align() -> (r: TextAlignType)
    ensures
        r == TextAlignType::Left,
{
    TextAlignType::Left
}

/// The default line-height multiplier, in hundredths: one and a half.
pub fn default_line_height() -> (r: u32)
    ensures
        r == 150,
{
    150
}

/// The default boldness.
pub fn default_bold() -> (r: bool)
    ensures
        r == false,
{
    false
}

/// The default highlight-box padding.
pub fn default_padding() -> (r: u32)
    ensures
        r == 0,
{
    0
}

/// The default writing direction.
pub fn default_text_direction() -> (r: TextDirectionType)
    ensures
        r == TextDirectionType::Ltr,
{
    TextDirectionType::Ltr
}

} // verus!
