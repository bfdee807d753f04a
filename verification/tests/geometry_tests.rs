//! Tests of object-fit placement and rounded-rectangle outlines.

use poster_generator::geometry::PathCmd;
use poster_generator::geometry::Ratio;
use poster_generator::geometry::compute_fit;
use poster_generator::geometry::create_rounded_rect_path;
use poster_generator::model::ObjectFit;
use poster_generator::model::Radius;

#[test]
fn cover_picks_larger_axis_ratio() {
    // a 100 x 200 source into a 200 x 200 target: cover scales by 2.
    let p = compute_fit(100, 200, 200, 200, &ObjectFit::Cover);
    assert_eq!(p.scale_x, Ratio { num: 200, den: 100 });
    assert_eq!(p.scale_y, p.scale_x);
    assert_eq!((p.scaled_w, p.scaled_h), (200, 400));
    assert_eq!((p.off2_x, p.off2_y), (0, -200));
}

#[test]
fn contain_picks_smaller_axis_ratio() {
    // the same source and target: contain scales by 1.
    let p = compute_fit(100, 200, 200, 200, &ObjectFit::Contain);
    assert_eq!(p.scale_x, Ratio { num: 200, den: 200 });
    assert_eq!(p.scale_y, p.scale_x);
    assert_eq!((p.scaled_w, p.scaled_h), (100, 200));
    assert_eq!((p.off2_x, p.off2_y), (100, 0));
}

#[test]
fn stretch_scales_each_axis() {
    let p = compute_fit(100, 200, 200, 200, &ObjectFit::Stretch);
    assert_eq!(p.scale_x, Ratio { num: 200, den: 100 });
    assert_eq!(p.scale_y, Ratio { num: 200, den: 200 });
    assert_eq!((p.scaled_w, p.scaled_h), (200, 200));
    assert_eq!((p.off2_x, p.off2_y), (0, 0));
}

#[test]
fn cover_wide_source_into_square() {
    // a 100 x 50 source into 200 x 200: the larger ratio is 200 / 50.
    let p = compute_fit(100, 50, 200, 200, &ObjectFit::Cover);
    assert_eq!(p.scale_x, Ratio { num: 200, den: 50 });
    assert_eq!((p.scaled_w, p.scaled_h), (400, 200));
}

#[test]
fn cover_result_covers_target() {
    let p = compute_fit(123, 77, 400, 300, &ObjectFit::Cover);
    assert!(p.scaled_w >= 400 && p.scaled_h >= 300);
}

#[test]
fn contain_result_fits_target() {
    let p = compute_fit(123, 77, 400, 300, &ObjectFit::Contain);
    assert!(p.scaled_w <= 400 && p.scaled_h <= 300);
}

#[test]
fn oversized_single_radius_is_clamped_to_half_short_side() {
    // any radius at least half the shorter side produces the full stadium:
    // every corner inset is exactly half the shorter side.
    let o = create_rounded_rect_path(0, 0, 100, 50, &Radius::Single(60));
    match o.cmds[0] {
        PathCmd::MoveTo { x, y } => assert_eq!((x, y), (25, 0)),
        _ => panic!("outline must start with a move"),
    }
    let o2 = create_rounded_rect_path(0, 0, 100, 50, &Radius::Single(1000));
    assert_eq!(o.cmds, o2.cmds);
}

#[test]
fn rounded_corners_emit_curves_sharp_corners_do_not() {
    let all = create_rounded_rect_path(0, 0, 100, 50, &Radius::Single(10));
    let quads = all
        .cmds
        .iter()
        .filter(|c| matches!(c, PathCmd::QuadTo { .. }))
        .count();
    assert_eq!(quads, 4);
    assert_eq!(all.cmds.len(), 10);

    let sharp = create_rounded_rect_path(0, 0, 100, 50, &Radius::Multiple {
        tl: 0,
        tr: 0,
        br: 0,
        bl: 0,
    });
    let quads_sharp = sharp
        .cmds
        .iter()
        .filter(|c| matches!(c, PathCmd::QuadTo { .. }))
        .count();
    assert_eq!(quads_sharp, 0);
    assert_eq!(sharp.cmds.len(), 6);
}

#[test]
fn per_corner_radii_are_clamped_independently() {
    let o = create_rounded_rect_path(0, 0, 100, 50, &Radius::Multiple {
        tl: 10,
        tr: 999,
        br: 0,
        bl: 20,
    });
    match o.cmds[0] {
        // the top-left inset is the unclamped 10.
        PathCmd::MoveTo { x, y } => assert_eq!((x, y), (10, 0)),
        _ => panic!("outline must start with a move"),
    }
    match o.cmds[1] {
        // the top-right radius is clamped to 25, so the top edge ends at 75.
        PathCmd::LineTo { x, y } => assert_eq!((x, y), (75, 0)),
        _ => panic!("outline's second command must be a line"),
    }
    assert!(matches!(o.cmds[o.cmds.len() - 1], PathCmd::Close));
}

#[test]
fn outline_is_translated_by_origin() {
    let o = create_rounded_rect_path(30, 40, 100, 50, &Radius::Single(10));
    match o.cmds[0] {
        PathCmd::MoveTo { x, y } => assert_eq!((x, y), (40, 40)),
        _ => panic!("outline must start with a move"),
    }
}
