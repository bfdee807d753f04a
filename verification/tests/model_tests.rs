//! Tests of color parsing, script classification, depth ordering, and the
//! element model.

use poster_generator::color::Color;
use poster_generator::color::parse_color;
use poster_generator::depth::sorted_elements;
use poster_generator::model::BackgroundElement;
use poster_generator::model::Element;
use poster_generator::model::ImageElement;
use poster_generator::model::ObjectFit;
use poster_generator::model::PosterError;
use poster_generator::model::TextAlignType;
use poster_generator::model::TextDirectionType;
use poster_generator::model::TextElement;
use poster_generator::model::default_bold;
use poster_generator::model::default_line_height;
use poster_generator::model::default_object_fit;
use poster_generator::model::default_padding;
use poster_generator::model::default_text_align;
use poster_generator::model::default_text_direction;
use poster_generator::model::elements_wf;
use poster_generator::script::is_rtl_text;

fn image_at_depth(src: &str, z: Option<i32>) -> Element {
    Element::Image(ImageElement {
        src: src.to_string(),
        x: 0,
        y: 0,
        width: 10,
        height: 10,
        radius: None,
        z_index: z,
        object_fit: ObjectFit::Cover,
    })
}

fn text_at_depth(text: &str, z: Option<i32>) -> Element {
    Element::Text(TextElement {
        text: text.to_string(),
        x: 0,
        y: 0,
        font_size: 12,
        color: "#000000".to_string(),
        align: TextAlignType::Left,
        font_family: None,
        font_file: None,
        max_width: None,
        line_height: 150,
        max_lines: None,
        z_index: z,
        bold: false,
        prefix: None,
        background_color: None,
        padding: 0,
        border_radius: None,
        width: None,
        height: None,
        direction: TextDirectionType::Ltr,
    })
}

fn background(color: &str) -> Element {
    Element::Background(BackgroundElement {
        image: None,
        color: color.to_string(),
        radius: None,
    })
}

#[test]
fn parse_six_digit_hex() {
    assert_eq!(parse_color("#ff8800"), Color { a: 255, r: 255, g: 136, b: 0 });
    assert_eq!(parse_color("#000000"), Color { a: 255, r: 0, g: 0, b: 0 });
    assert_eq!(parse_color("#FFFFFF"), Color { a: 255, r: 255, g: 255, b: 255 });
}

#[test]
fn parse_eight_digit_hex_carries_alpha_first() {
    assert_eq!(parse_color("#11223344"), Color { a: 0x11, r: 0x22, g: 0x33, b: 0x44 });
}

#[test]
fn unparseable_colors_fall_back_to_black() {
    let black = Color { a: 255, r: 0, g: 0, b: 0 };
    assert_eq!(parse_color("red"), black);
    assert_eq!(parse_color("#abc"), black);
    assert_eq!(parse_color("#gggggg"), black);
    assert_eq!(parse_color(""), black);
    assert_eq!(parse_color("ff8800"), black);
}

#[test]
fn arabic_character_classifies_rtl() {
    assert!(is_rtl_text("\u{0627}"));
    assert!(is_rtl_text("price: \u{0627}"));
}

#[test]
fn ascii_classifies_ltr() {
    assert!(!is_rtl_text("hello world"));
}

#[test]
fn empty_classifies_ltr() {
    assert!(!is_rtl_text(""));
}

#[test]
fn depth_sort_puts_backgrounds_first() {
    let v = vec![
        image_at_depth("a.png", Some(-5)),
        background("#ffffff"),
        text_at_depth("t", Some(-7)),
        background("#000000"),
    ];
    let r = sorted_elements(v);
    assert!(matches!(r[0], Element::Background(_)));
    assert!(matches!(r[1], Element::Background(_)));
    // the two backgrounds keep their input order.
    match (&r[0], &r[1]) {
        (Element::Background(b0), Element::Background(b1)) => {
            assert_eq!(b0.color, "#ffffff");
            assert_eq!(b1.color, "#000000");
        },
        _ => panic!("backgrounds must sort first"),
    }
}

#[test]
fn depth_sort_is_ascending_and_stable() {
    let v = vec![
        image_at_depth("z3", Some(3)),
        image_at_depth("first0", None),
        text_at_depth("second0", None),
        image_at_depth("zm1", Some(-1)),
        image_at_depth("third0", Some(0)),
    ];
    let r = sorted_elements(v);
    let names: Vec<String> = r
        .iter()
        .map(|e| match e {
            Element::Image(i) => i.src.clone(),
            Element::Text(t) => t.text.clone(),
            Element::Background(b) => b.color.clone(),
        })
        .collect();
    // ascending keys -1, 0, 0, 0, 3; the three zero-depth elements keep
    // their insertion order.
    assert_eq!(names, vec!["zm1", "first0", "second0", "third0", "z3"]);
}

#[test]
fn default_values() {
    assert_eq!(default_object_fit(), ObjectFit::Cover);
    assert_eq!(default_text_align(), TextAlignType::Left);
    assert_eq!(default_line_height(), 150);
    assert!(!default_bold());
    assert_eq!(default_padding(), 0);
    assert_eq!(default_text_direction(), TextDirectionType::Ltr);
}

#[test]
fn error_messages_describe_the_failure() {
    let e = PosterError::ImageLoadError("x.png".to_string());
    assert_eq!(e.message(), "Failed to load image: x.png");
    let e = PosterError::RenderError("boom".to_string());
    assert_eq!(e.message(), "Failed to render element: boom");
    let e = PosterError::OutputError("disk".to_string());
    assert_eq!(e.message(), "Failed to generate output: disk");
}

#[test]
fn well_formedness_rejects_zero_sizes() {
    let good = vec![image_at_depth("a", None), text_at_depth("t", None)];
    assert!(elements_wf(800, 600, &good));
    assert!(!elements_wf(0, 600, &good));
    assert!(!elements_wf(800, 0, &good));
    let mut bad_img = good.clone();
    if let Element::Image(ref mut i) = bad_img[0] {
        i.width = 0;
    }
    assert!(!elements_wf(800, 600, &bad_img));
    let mut bad_cap = good.clone();
    if let Element::Text(ref mut t) = bad_cap[1] {
        t.max_lines = Some(0);
    }
    assert!(!elements_wf(800, 600, &bad_cap));
}

#[test]
fn depth_keys() {
    let bg = BackgroundElement { image: None, color: "#fff".to_string(), radius: None };
    assert_eq!(bg.z_index(), -1000);
    match image_at_depth("a", Some(7)) {
        Element::Image(i) => assert_eq!(i.z_index(), 7),
        _ => unreachable!(),
    }
    match image_at_depth("a", None) {
        Element::Image(i) => assert_eq!(i.z_index(), 0),
        _ => unreachable!(),
    }
    assert_eq!(text_at_depth("t", Some(-3)).depth_key(), -3);
}
