//! Tests of measurement, tokenization, wrapping, and truncation.

use poster_generator::metrics::CharWidth;
use poster_generator::metrics::FontMetrics;
use poster_generator::metrics::measure_text;
use poster_generator::metrics::measure_text_with_font;
use poster_generator::layout::break_text;
use poster_generator::layout::break_text_rtl;
use poster_generator::layout::is_space_char;
use poster_generator::layout::line_draw_x;
use poster_generator::layout::line_y_position;
use poster_generator::layout::highlight_box;
use poster_generator::layout::process_rtl_text;
use poster_generator::layout::split_whitespace_tokens;
use poster_generator::layout::truncate_with_ellipsis;
use poster_generator::layout::truncate_with_ellipsis_rtl;
use poster_generator::model::TextAlignType;
use poster_generator::model::TextDirectionType;

fn plain_metrics() -> FontMetrics {
    FontMetrics { default_width: 10, overrides: Vec::new(), text_height: 20 }
}

#[test]
fn measure_sums_character_advances() {
    let fm = plain_metrics();
    let (w, h) = measure_text("abc", &fm);
    assert_eq!(w, 30);
    assert_eq!(h, 20);
    let (w2, h2) = measure_text_with_font("abc", &fm);
    assert_eq!((w2, h2), (30, 20));
}

#[test]
fn measure_empty_falls_back_to_space() {
    let fm = FontMetrics {
        default_width: 10,
        overrides: vec![CharWidth { ch: ' ', width: 7 }],
        text_height: 20,
    };
    let (w, _) = measure_text("", &fm);
    assert_eq!(w, 7);
}

#[test]
fn measure_uses_overrides() {
    let fm = FontMetrics {
        default_width: 10,
        overrides: vec![CharWidth { ch: 'i', width: 4 }],
        text_height: 20,
    };
    let (w, _) = measure_text("hi", &fm);
    assert_eq!(w, 14);
}

#[test]
fn split_on_whitespace() {
    let toks = split_whitespace_tokens("  one \t two\nthree ");
    let views: Vec<&str> = toks.iter().map(|t| t.as_str()).collect();
    assert_eq!(views, vec!["one", "two", "three"]);
}

#[test]
fn split_empty_yields_no_tokens() {
    assert!(split_whitespace_tokens("").is_empty());
    assert!(split_whitespace_tokens("   ").is_empty());
}

#[test]
fn space_classification() {
    assert!(is_space_char(' '));
    assert!(is_space_char('\t'));
    assert!(is_space_char('\u{00A0}'));
    assert!(!is_space_char('a'));
    assert!(!is_space_char('.'));
}

#[test]
fn wrap_greedy_under_width() {
    let fm = plain_metrics();
    // "hello world" measures 110, which just fits; adding " foo" overflows.
    let lines = break_text("hello world foo", 110, &fm, None);
    let views: Vec<&str> = lines.iter().map(|t| t.as_str()).collect();
    assert_eq!(views, vec!["hello world", "foo"]);
}

#[test]
fn wrap_keeps_overlong_token_whole() {
    let fm = plain_metrics();
    let lines = break_text("abcdefghijklmno p", 50, &fm, None);
    let views: Vec<&str> = lines.iter().map(|t| t.as_str()).collect();
    assert_eq!(views, vec!["abcdefghijklmno", "p"]);
}

#[test]
fn wrap_narrow_width_gives_multiple_lines() {
    let fm = plain_metrics();
    // natural width 150 exceeds the cap, so the text wraps.
    let lines = break_text("aa bb cc", 50, &fm, None);
    let views: Vec<&str> = lines.iter().map(|t| t.as_str()).collect();
    assert_eq!(views, vec!["aa bb", "cc"]);
}

#[test]
fn wrap_single_line_cap_truncates_overlong_first_line() {
    let fm = plain_metrics();
    // the first token alone exceeds the width, so the single kept line is
    // truncated with the ellipsis marker.
    let lines = break_text("abcdefghijklmno p", 50, &fm, Some(1));
    let views: Vec<&str> = lines.iter().map(|t| t.as_str()).collect();
    assert_eq!(views, vec!["ab..."]);
    assert!(views[0].ends_with("..."));
}

#[test]
fn wrap_single_line_cap_marks_dropped_content() {
    let fm = plain_metrics();
    // the cap drops "foo", so the kept line is cut to make room for the
    // marker: 8 characters fit beside the 30-pixel marker within 110.
    let lines = break_text("hello world foo", 110, &fm, Some(1));
    let views: Vec<&str> = lines.iter().map(|t| t.as_str()).collect();
    assert_eq!(views, vec!["hello wo..."]);
}

#[test]
fn capped_wrapping_always_ends_with_the_marker() {
    let fm = plain_metrics();
    let texts = ["aa bb cc dd", "one twothreefour five", "x y z w a b"];
    for text in texts {
        let uncapped = break_text(text, 50, &fm, None);
        assert!(uncapped.len() > 1);
        let capped = break_text(text, 50, &fm, Some(1));
        assert_eq!(capped.len(), 1);
        assert!(capped[0].ends_with("..."));
    }
}

#[test]
fn wrap_respects_line_cap() {
    let fm = plain_metrics();
    let lines = break_text("a b c d e f g h", 10, &fm, Some(3));
    assert!(lines.len() <= 3);
}

#[test]
fn wrap_rtl_agrees_with_wrap() {
    let fm = plain_metrics();
    let a = break_text("one two three", 70, &fm, None);
    let b = break_text_rtl("one two three", 70, &fm, None);
    assert_eq!(a, b);
}

#[test]
fn rewrap_of_joined_lines_stays_within_width() {
    let fm = plain_metrics();
    let lines = break_text("aa bb cc dd ee", 70, &fm, None);
    let joined = lines
        .iter()
        .map(|t| t.as_str())
        .collect::<Vec<&str>>()
        .join(" ");
    let again = break_text(&joined, 70, &fm, None);
    for line in &again {
        let (w, _) = measure_text(line.as_str(), &fm);
        assert!(w <= 70);
    }
    assert_eq!(lines, again);
}

#[test]
fn truncate_returns_fitting_line_unchanged() {
    let fm = plain_metrics();
    assert_eq!(truncate_with_ellipsis("abc", 30, &fm), "abc");
    assert_eq!(truncate_with_ellipsis("abc", 1000, &fm), "abc");
}

#[test]
fn truncate_overlong_line_ends_with_marker_and_fits() {
    let fm = plain_metrics();
    let r = truncate_with_ellipsis("abcdefghij", 50, &fm);
    assert_eq!(r, "ab...");
    assert!(r.ends_with("..."));
    let (w, _) = measure_text(&r, &fm);
    assert!(w <= 50);
}

#[test]
fn truncate_when_marker_itself_overflows() {
    // the reserved marker (width 30) exceeds the budget of 20, so no
    // character is accepted and only the marker remains, wider than the
    // budget: the width bound of truncation holds only when the marker
    // fits.
    let fm = plain_metrics();
    assert_eq!(truncate_with_ellipsis("abcdef", 20, &fm), "...");
}

#[test]
fn truncate_rtl_agrees_with_truncate() {
    let fm = plain_metrics();
    assert_eq!(
        truncate_with_ellipsis_rtl("abcdefghij", 50, &fm),
        truncate_with_ellipsis("abcdefghij", 50, &fm)
    );
}

#[test]
fn anchor_placement_by_alignment() {
    assert_eq!(line_draw_x(400, &TextAlignType::Left, 100), 400);
    assert_eq!(line_draw_x(400, &TextAlignType::Right, 100), 300);
    assert_eq!(line_draw_x(400, &TextAlignType::Center, 100), 350);
}

#[test]
fn line_positions_step_by_advance() {
    // advance is 20 * 150 / 100 = 30 pixels per line.
    assert_eq!(line_y_position(10, 0, 20, 150), 10);
    assert_eq!(line_y_position(10, 1, 20, 150), 40);
    assert_eq!(line_y_position(10, 2, 20, 150), 70);
}

#[test]
fn highlight_box_left_aligned_ltr() {
    let b = highlight_box(
        100,
        50,
        &TextAlignType::Left,
        &TextDirectionType::Ltr,
        5,
        30,
        20,
        &None,
        &None,
    );
    assert_eq!((b.x, b.y, b.w, b.h), (95, 25, 40, 30));
}

#[test]
fn highlight_box_rtl_swaps_left_and_right() {
    let left_rtl = highlight_box(
        100,
        50,
        &TextAlignType::Left,
        &TextDirectionType::Rtl,
        5,
        30,
        20,
        &None,
        &None,
    );
    let right_ltr = highlight_box(
        100,
        50,
        &TextAlignType::Right,
        &TextDirectionType::Ltr,
        5,
        30,
        20,
        &None,
        &None,
    );
    assert_eq!(left_rtl, right_ltr);
    let center_rtl = highlight_box(
        100,
        50,
        &TextAlignType::Center,
        &TextDirectionType::Rtl,
        5,
        30,
        20,
        &None,
        &None,
    );
    let center_ltr = highlight_box(
        100,
        50,
        &TextAlignType::Center,
        &TextDirectionType::Ltr,
        5,
        30,
        20,
        &None,
        &None,
    );
    assert_eq!(center_rtl, center_ltr);
}

#[test]
fn highlight_box_explicit_size_wins() {
    let b = highlight_box(
        100,
        50,
        &TextAlignType::Left,
        &TextDirectionType::Ltr,
        5,
        30,
        20,
        &Some(200),
        &Some(60),
    );
    assert_eq!((b.w, b.h), (200, 60));
}

#[test]
fn rtl_text_is_not_reversed() {
    let s = "\u{0633}\u{0644}\u{0627}\u{0645}";
    assert_eq!(process_rtl_text(s), s);
}
