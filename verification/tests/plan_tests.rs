//! Tests of the generator, the drawing plan, the font fallback chain, the
//! data-URL encodings, and the service response shape.

use base64::Engine;
use poster_generator::color::Color;
use poster_generator::depth::sorted_elements;
use poster_generator::encode::data_url;
use poster_generator::encode::decode_data_url;
use poster_generator::encode::is_data_url;
use poster_generator::fontsel::FontCandidate;
use poster_generator::fontsel::font_candidates;
use poster_generator::fontsel::select_first_hit;
use poster_generator::geometry::Ratio;
use poster_generator::metrics::FontMetrics;
use poster_generator::model::BackgroundElement;
use poster_generator::model::Element;
use poster_generator::model::ImageElement;
use poster_generator::model::ObjectFit;
use poster_generator::model::PosterError;
use poster_generator::model::Radius;
use poster_generator::model::TextAlignType;
use poster_generator::model::TextDirectionType;
use poster_generator::model::TextElement;
use poster_generator::plan::DrawOp;
use poster_generator::plan::ElementData;
use poster_generator::plan::PosterGenerator;
use poster_generator::plan::build_plan;
use poster_generator::plan::data_matches;
use poster_generator::plan::plan_text;
use poster_generator::server_api::PosterResponse;
use poster_generator::server_api::poster_response;

fn plain_metrics() -> FontMetrics {
    FontMetrics { default_width: 10, overrides: Vec::new(), text_height: 20 }
}

fn hello_text() -> TextElement {
    TextElement {
        text: "Hello".to_string(),
        x: 400,
        y: 200,
        font_size: 20,
        color: "#333333".to_string(),
        align: TextAlignType::Center,
        font_family: None,
        font_file: None,
        max_width: None,
        line_height: 150,
        max_lines: None,
        z_index: None,
        bold: false,
        prefix: None,
        background_color: None,
        padding: 0,
        border_radius: None,
        width: None,
        height: None,
        direction: TextDirectionType::Ltr,
    }
}

#[test]
fn generator_collects_elements_in_order() {
    let mut g = PosterGenerator::new(800, 600, "#ffffff".to_string());
    g.add_background(BackgroundElement {
        image: None,
        color: "#f5f5f5".to_string(),
        radius: None,
    });
    g.add_text(hello_text());
    let (w, h, bg, elements) = g.into_parts();
    assert_eq!((w, h), (800, 600));
    assert_eq!(bg, "#ffffff");
    assert_eq!(elements.len(), 2);
    assert!(matches!(elements[0], Element::Background(_)));
    assert!(matches!(elements[1], Element::Text(_)));
}

#[test]
fn generator_clear_and_set_elements() {
    let mut g = PosterGenerator::new(10, 10, "#ffffff".to_string());
    g.add_text(hello_text());
    g.clear();
    let (_, _, _, elements) = g.into_parts();
    assert!(elements.is_empty());

    let mut g = PosterGenerator::new(10, 10, "#ffffff".to_string());
    g.add_text(hello_text());
    g.set_elements(vec![Element::Text(hello_text()), Element::Text(hello_text())]);
    let (_, _, _, elements) = g.into_parts();
    assert_eq!(elements.len(), 2);
}

#[test]
fn centered_hello_plans_clear_and_one_run() {
    let mut g = PosterGenerator::new(800, 600, "#ffffff".to_string());
    g.add_text(hello_text());
    let (w, h, bg, elements) = g.into_parts();
    let sorted = sorted_elements(elements);
    let data = vec![ElementData::TextMetrics { metrics: plain_metrics() }];
    assert!(data_matches(&sorted[0], &data[0]));
    let plan = build_plan(w, h, &bg, &sorted, &data).expect("the plan must build");
    assert_eq!((plan.width, plan.height), (800, 600));
    assert_eq!(plan.ops.len(), 2);
    assert_eq!(plan.ops[0], DrawOp::Clear { color: Color { a: 255, r: 255, g: 255, b: 255 } });
    match &plan.ops[1] {
        DrawOp::DrawTextRun { text, x, y, font_size, bold, .. } => {
            assert_eq!(text, "Hello");
            // "Hello" measures 50, centered under the 400 anchor.
            assert_eq!(*x, 375);
            assert_eq!(*y, 200);
            assert_eq!(*font_size, 20);
            assert!(!*bold);
        },
        other => panic!("expected a text run, got {:?}", other),
    }
}

#[test]
fn wrapped_text_plans_one_run_per_line() {
    let mut t = hello_text();
    t.text = "aa bb cc".to_string();
    t.align = TextAlignType::Left;
    t.x = 10;
    t.y = 100;
    t.max_width = Some(50);
    let ops = plan_text(&t, &plain_metrics());
    assert_eq!(ops.len(), 2);
    match (&ops[0], &ops[1]) {
        (
            DrawOp::DrawTextRun { text: t0, y: y0, .. },
            DrawOp::DrawTextRun { text: t1, y: y1, .. },
        ) => {
            assert_eq!(t0, "aa bb");
            assert_eq!(t1, "cc");
            assert_eq!(*y0, 100);
            // one line advance of 20 * 150 / 100 further down.
            assert_eq!(*y1, 130);
        },
        other => panic!("expected two text runs, got {:?}", other),
    }
}

#[test]
fn capped_wrap_plans_one_truncated_line() {
    let mut t = hello_text();
    t.text = "abcdefghijklmno p".to_string();
    t.align = TextAlignType::Left;
    t.max_width = Some(50);
    let uncapped = plan_text(&t, &plain_metrics());
    assert!(uncapped.len() > 1);
    t.max_lines = Some(1);
    let capped = plan_text(&t, &plain_metrics());
    assert_eq!(capped.len(), 1);
    match &capped[0] {
        DrawOp::DrawTextRun { text, .. } => assert!(text.ends_with("...")),
        other => panic!("expected a text run, got {:?}", other),
    }
}

#[test]
fn rtl_content_routes_through_paragraph() {
    let mut t = hello_text();
    t.text = "\u{0633}\u{0644}\u{0627}\u{0645}".to_string();
    t.direction = TextDirectionType::Ltr;
    let ops = plan_text(&t, &plain_metrics());
    assert_eq!(ops.len(), 1);
    assert!(matches!(ops[0], DrawOp::DrawParagraph { .. }));
}

#[test]
fn prefix_is_prepended_before_layout() {
    let mut t = hello_text();
    t.text = "99.99".to_string();
    t.prefix = Some("$".to_string());
    t.align = TextAlignType::Left;
    let ops = plan_text(&t, &plain_metrics());
    match &ops[0] {
        DrawOp::DrawTextRun { text, .. } => assert_eq!(text, "$99.99"),
        other => panic!("expected a text run, got {:?}", other),
    }
}

#[test]
fn highlight_box_is_planned_below_the_text() {
    let mut t = hello_text();
    t.text = "abc".to_string();
    t.align = TextAlignType::Left;
    t.x = 100;
    t.y = 50;
    t.padding = 5;
    t.background_color = Some("#ff6600".to_string());
    let ops = plan_text(&t, &plain_metrics());
    assert_eq!(ops.len(), 2);
    match &ops[0] {
        DrawOp::FillRect { x, y, w, h, color } => {
            assert_eq!((*x, *y, *w, *h), (95, 25, 40, 30));
            assert_eq!(*color, Color { a: 255, r: 255, g: 102, b: 0 });
        },
        other => panic!("expected the box fill first, got {:?}", other),
    }
    t.border_radius = Some(Radius::Single(8));
    let ops = plan_text(&t, &plain_metrics());
    assert!(matches!(ops[0], DrawOp::FillRounded { .. }));
}

#[test]
fn missing_image_aborts_the_plan() {
    let img = Element::Image(ImageElement {
        src: "gone.png".to_string(),
        x: 0,
        y: 0,
        width: 10,
        height: 10,
        radius: None,
        z_index: None,
        object_fit: ObjectFit::Cover,
    });
    let sorted = sorted_elements(vec![img]);
    let data = vec![ElementData::ImageMissing];
    let r = build_plan(100, 100, "#ffffff", &sorted, &data);
    assert_eq!(r, Err(PosterError::ImageLoadError("gone.png".to_string())));
}

#[test]
fn background_image_failure_aborts_the_plan() {
    // an unloadable image source is terminal, on a background too.
    let bg = Element::Background(BackgroundElement {
        image: Some("gone.png".to_string()),
        color: "#ffffff".to_string(),
        radius: None,
    });
    let sorted = sorted_elements(vec![bg]);
    let data = vec![ElementData::ImageMissing];
    let r = build_plan(100, 100, "#ffffff", &sorted, &data);
    assert_eq!(r, Err(PosterError::ImageLoadError("gone.png".to_string())));
}

#[test]
fn background_without_image_needs_no_image_data() {
    let bg = Element::Background(BackgroundElement {
        image: None,
        color: "#ffffff".to_string(),
        radius: None,
    });
    let sorted = sorted_elements(vec![bg]);
    let data = vec![ElementData::NoData];
    let plan = build_plan(100, 100, "#ffffff", &sorted, &data).expect("the plan must build");
    assert_eq!(plan.ops.len(), 2);
}

#[test]
fn background_with_image_and_radius_plans_clipped_cover() {
    let bg = Element::Background(BackgroundElement {
        image: Some("bg.png".to_string()),
        color: "#f5f5f5".to_string(),
        radius: Some(Radius::Single(20)),
    });
    let sorted = sorted_elements(vec![bg]);
    let data = vec![ElementData::ImageDims { w: 50, h: 100 }];
    let plan = build_plan(200, 200, "#ffffff", &sorted, &data).expect("the plan must build");
    assert_eq!(plan.ops.len(), 3);
    assert!(matches!(plan.ops[1], DrawOp::FillRounded { .. }));
    match &plan.ops[2] {
        DrawOp::DrawImage { src, placement, clip, .. } => {
            assert_eq!(src, "bg.png");
            // cover of 50 x 100 into 200 x 200 scales by 4.
            assert_eq!(placement.scale_x, Ratio { num: 200, den: 50 });
            assert_eq!(*clip, Some(Radius::Single(20)));
        },
        other => panic!("expected the image draw, got {:?}", other),
    }
}

#[test]
fn image_element_plans_fit_and_clip() {
    let img = Element::Image(ImageElement {
        src: "pic.jpg".to_string(),
        x: 50,
        y: 60,
        width: 650,
        height: 300,
        radius: Some(Radius::Single(10)),
        z_index: Some(1),
        object_fit: ObjectFit::Contain,
    });
    let sorted = sorted_elements(vec![img]);
    let data = vec![ElementData::ImageDims { w: 1300, h: 300 }];
    let plan = build_plan(800, 600, "#ffffff", &sorted, &data).expect("the plan must build");
    match &plan.ops[1] {
        DrawOp::DrawImage { src, x, y, w, h, clip, placement } => {
            assert_eq!(src, "pic.jpg");
            assert_eq!((*x, *y, *w, *h), (50, 60, 650, 300));
            assert_eq!(*clip, Some(Radius::Single(10)));
            // contain of 1300 x 300 into 650 x 300 halves the width axis.
            assert_eq!(placement.scale_x, Ratio { num: 650, den: 1300 });
            assert_eq!((placement.scaled_w, placement.scaled_h), (650, 150));
        },
        other => panic!("expected the image draw, got {:?}", other),
    }
}

#[test]
fn data_url_carries_the_canonical_prefix() {
    assert_eq!(data_url(&Vec::new()), "data:image/png;base64,");
    assert_eq!(data_url(&b"Man".to_vec()), "data:image/png;base64,TWFu");
}

#[test]
fn data_url_agrees_with_the_engine() {
    let bytes: Vec<u8> = vec![137, 80, 78, 71, 13, 10, 26, 10, 0, 1, 2];
    let expected = base64::engine::general_purpose::STANDARD.encode(&bytes);
    assert_eq!(data_url(&bytes), format!("data:image/png;base64,{}", expected));
}

#[test]
fn data_url_round_trips_through_decode() {
    let bytes: Vec<u8> = vec![1, 2, 3, 4, 5, 250, 251, 252];
    let url = data_url(&bytes);
    assert!(is_data_url(&url));
    assert_eq!(decode_data_url(&url), Ok(bytes));
}

#[test]
fn data_url_detection() {
    assert!(is_data_url("data:image/png;base64,AAAA"));
    assert!(!is_data_url("poster.png"));
    assert!(!is_data_url(""));
}

#[test]
fn malformed_data_urls_are_image_load_errors() {
    assert_eq!(
        decode_data_url("data:image/png"),
        Err(PosterError::ImageLoadError("Invalid base64 image format".to_string()))
    );
    assert_eq!(
        decode_data_url("data:image/png;base64,!!!"),
        Err(PosterError::ImageLoadError("Invalid base64 image data".to_string()))
    );
}

#[test]
fn latin_font_chain_in_priority_order() {
    let cands = font_candidates("hello", None, None);
    let names: Vec<String> = cands
        .iter()
        .map(|c| match c {
            FontCandidate::File(f) => format!("file:{}", f),
            FontCandidate::Family(f) => format!("family:{}", f),
            FontCandidate::SystemDefault => "system".to_string(),
            FontCandidate::BuiltinDefault => "builtin".to_string(),
        })
        .collect();
    assert_eq!(names, vec![
        "family:SF Pro Text",
        "family:Arial",
        "family:Helvetica",
        "family:Times New Roman",
        "system",
        "builtin",
    ]);
}

#[test]
fn rtl_font_chain_tries_bundled_faces_first() {
    let cands = font_candidates("\u{0627}", Some("My Font"), None);
    assert_eq!(cands[0], FontCandidate::File("UKIJBasma.ttf".to_string()));
    assert_eq!(cands[1], FontCandidate::File("./UKIJBasma.ttf".to_string()));
    assert_eq!(cands[2], FontCandidate::Family("My Font".to_string()));
    assert_eq!(cands[3], FontCandidate::Family("UKIJBasma".to_string()));
    assert_eq!(cands[cands.len() - 1], FontCandidate::BuiltinDefault);
    assert_eq!(cands[cands.len() - 2], FontCandidate::SystemDefault);
}

#[test]
fn explicit_font_file_is_tried_first() {
    let cands = font_candidates("hello", None, Some("custom.ttf"));
    assert_eq!(cands[0], FontCandidate::File("custom.ttf".to_string()));
}

#[test]
fn first_successful_candidate_wins() {
    assert_eq!(select_first_hit(&vec![false, false, true, true]), Some(2));
    assert_eq!(select_first_hit(&vec![true]), Some(0));
    assert_eq!(select_first_hit(&vec![false, false]), None);
    assert_eq!(select_first_hit(&Vec::new()), None);
}

#[test]
fn responses_carry_data_or_error() {
    let ok = poster_response(Ok("data:image/png;base64,AA==".to_string()));
    assert_eq!(ok, PosterResponse {
        success: true,
        data: Some("data:image/png;base64,AA==".to_string()),
        error: None,
    });
    let err = poster_response(Err(PosterError::RenderError("boom".to_string())));
    assert_eq!(err, PosterResponse {
        success: false,
        data: None,
        error: Some("Failed to render element: boom".to_string()),
    });
}
