use packing_interface::fixed::{floor_div, saturating_sum, scale_by, whole_of, within_limit, LIMIT};
use packing_interface::geometry::{Bounds, Mapping, ScreenRect};
use packing_interface::types::Placement;

fn sample_mapping() -> Mapping {
    // A bin of 10 by 20 units on a surface of 800 by 600 pixels: the height
    // decides, at 30 pixels per unit.
    Mapping::fit(10, 20_000, 800_000, 600_000, 1000, 0, 0).unwrap()
}

#[test]
fn floor_div_rounds_down() {
    assert_eq!(floor_div(7, 2), 3);
    assert_eq!(floor_div(-7, 2), -4);
    assert_eq!(floor_div(-8, 2), -4);
    assert_eq!(floor_div(0, 5), 0);
    assert_eq!(floor_div(-1, 1000), -1);
}

#[test]
fn scale_by_is_product_over_divisor() {
    assert_eq!(scale_by(2000, 600_000_000, 20_000_000), 60_000);
    assert_eq!(scale_by(-1, 1, 3), -1);
    assert_eq!(scale_by(10, 0, 3), 0);
}

#[test]
fn saturating_sum_stops_at_the_limit() {
    assert_eq!(saturating_sum(5, 7), 12);
    assert_eq!(saturating_sum(LIMIT, 1), LIMIT);
    assert_eq!(saturating_sum(-LIMIT, -3), -LIMIT);
    assert_eq!(saturating_sum(LIMIT, -2 * LIMIT), -LIMIT);
}

#[test]
fn whole_and_limit() {
    assert_eq!(whole_of(3), 3000);
    assert_eq!(whole_of(-2), -2000);
    assert!(within_limit(LIMIT));
    assert!(!within_limit(LIMIT + 1));
    assert!(!within_limit(-LIMIT - 1));
}

#[test]
fn fit_by_height() {
    let m = sample_mapping();
    assert_eq!(m.num, 600_000_000);
    assert_eq!(m.den, 20_000_000);
    assert_eq!(m.origin_x, 250_000);
    assert_eq!(m.origin_y, 0);
    assert_eq!(m.bin_width, 10_000);
    assert_eq!(m.bin_height, 20_000);
    assert_eq!(
        m.bin_rect(),
        ScreenRect { x: 250_000, y: 0, width: 300_000, height: 600_000 }
    );
}

#[test]
fn fit_by_width() {
    // 20 by 10 units on 800 by 600 pixels: the width decides, at 40 pixels
    // per unit; the bin is 400 pixels high and centred.
    let m = Mapping::fit(20, 10_000, 800_000, 600_000, 1000, 0, 0).unwrap();
    assert_eq!(m.num, 800_000_000);
    assert_eq!(m.den, 20_000_000);
    assert_eq!(
        m.bin_rect(),
        ScreenRect { x: 0, y: 100_000, width: 800_000, height: 400_000 }
    );
}

#[test]
fn fit_applies_zoom_and_pan() {
    let m = Mapping::fit(10, 20_000, 800_000, 600_000, 2000, 5_000, -7_000).unwrap();
    // 60 pixels per unit: the bin is 600 by 1200 pixels.
    assert_eq!(m.to_pixels(1000), 60_000);
    assert_eq!(
        m.bin_rect(),
        ScreenRect { x: 105_000, y: -307_000, width: 600_000, height: 1_200_000 }
    );
}

#[test]
fn fit_needs_positive_extents() {
    assert!(Mapping::fit(0, 20_000, 800_000, 600_000, 1000, 0, 0).is_none());
    assert!(Mapping::fit(-3, 20_000, 800_000, 600_000, 1000, 0, 0).is_none());
    assert!(Mapping::fit(10, 0, 800_000, 600_000, 1000, 0, 0).is_none());
    assert!(Mapping::fit(10, -1, 800_000, 600_000, 1000, 0, 0).is_none());
    assert!(Mapping::fit(10, 20_000, 0, 600_000, 1000, 0, 0).is_none());
    assert!(Mapping::fit(10, 20_000, 800_000, 0, 1000, 0, 0).is_none());
    assert!(Mapping::fit(10, 1, 1, 1, 100, 0, 0).is_some());
}

#[test]
fn placement_rect_flips_the_y_axis() {
    let m = sample_mapping();
    let p = Placement { x: 2_000, y: 3_000, width: 4, height: 5 };
    assert_eq!(
        m.placement_rect(&p),
        ScreenRect { x: 310_000, y: 360_000, width: 120_000, height: 150_000 }
    );
    // A placement on the floor of the bin ends at the lower edge.
    let floor = Placement { x: 0, y: 0, width: 10, height: 20 };
    assert_eq!(m.placement_rect(&floor), m.bin_rect());
}

#[test]
fn pixels_and_units_are_inverse_at_a_whole_scale() {
    let m = sample_mapping();
    assert_eq!(m.to_pixels(2_000), 60_000);
    assert_eq!(m.to_units(60_000), 2_000);
    assert_eq!(m.to_units(-30_000), -1_000);
    assert_eq!(m.to_pixels(-1), -30);
}

#[test]
fn round_trip_is_within_tolerance() {
    // 7 units on 100 pixels: 14.2857.. pixels per unit.
    let m = Mapping::fit(7, 7_000, 100_000, 100_000, 1000, 3_000, 4_000).unwrap();
    let tolerance = m.den / m.num + 1;
    let mut x: i64 = -5_000;
    while x <= 9_000 {
        let p = Placement { x, y: x / 2, width: 2, height: 3 };
        let r = m.placement_rect(&p);
        let back_x = floor_div((r.x - m.origin_x) * m.den, m.num);
        let back_y =
            m.bin_height as i128 - 3_000 - floor_div((r.y - m.origin_y) * m.den, m.num);
        assert!(p.x as i128 - tolerance <= back_x && back_x <= p.x as i128);
        assert!(p.y as i128 <= back_y && back_y <= p.y as i128 + tolerance);
        x += 137;
    }
}

#[test]
fn bounds_hold_their_left_and_upper_edges_only() {
    let b = Bounds { x: 10_000, y: 20_000, width: 100_000, height: 50_000 };
    assert!(b.is_valid());
    assert!(b.contains(10_000, 20_000));
    assert!(b.contains(109_999, 69_999));
    assert!(!b.contains(110_000, 20_000));
    assert!(!b.contains(10_000, 70_000));
    assert!(!b.contains(9_999, 20_000));
    assert!(!Bounds { x: LIMIT + 1, y: 0, width: 1, height: 1 }.is_valid());
}

#[test]
fn rect_contains_its_edges() {
    let r = ScreenRect { x: 10, y: 20, width: 30, height: 40 };
    assert!(r.contains(10, 20));
    assert!(r.contains(40, 60));
    assert!(!r.contains(41, 60));
    assert!(!r.contains(40, 61));
    assert!(!r.contains(9, 20));
    assert!(r.covers(10, 20));
    assert!(r.covers(39, 59));
    assert!(!r.covers(40, 59));
    assert!(!r.covers(39, 60));
}

#[test]
fn candidate_matching_the_bin_is_inside() {
    let bin = ScreenRect { x: 250_000, y: 0, width: 300_000, height: 600_000 };
    assert!(bin.encloses(&bin));
    // One pixel beyond any edge is outside.
    assert!(!bin.encloses(&bin.shifted(1000, 0)));
    assert!(!bin.encloses(&bin.shifted(-1000, 0)));
    assert!(!bin.encloses(&bin.shifted(0, 1000)));
    assert!(!bin.encloses(&bin.shifted(0, -1000)));
    // A smaller rectangle may move within.
    let small = ScreenRect { x: 250_000, y: 0, width: 100_000, height: 100_000 };
    assert!(bin.encloses(&small));
    assert!(bin.encloses(&small.shifted(200_000, 500_000)));
    assert!(!bin.encloses(&small.shifted(200_001, 500_000)));
}

#[test]
fn shifted_moves_the_corner_only() {
    let r = ScreenRect { x: 1, y: 2, width: 3, height: 4 };
    assert_eq!(r.shifted(10, -20), ScreenRect { x: 11, y: -18, width: 3, height: 4 });
}

#[test]
fn overlap_of_disjoint_identical_and_touching() {
    let a = ScreenRect { x: 0, y: 0, width: 100, height: 100 };
    let far = ScreenRect { x: 500, y: 500, width: 100, height: 100 };
    assert!(!a.overlaps(&far));
    assert!(!far.overlaps(&a));
    assert!(a.overlaps(&a));
    let right = ScreenRect { x: 100, y: 0, width: 100, height: 100 };
    assert!(!a.overlaps(&right));
    assert!(!right.overlaps(&a));
    let below = ScreenRect { x: 0, y: 100, width: 100, height: 100 };
    assert!(!a.overlaps(&below));
    assert!(!below.overlaps(&a));
    let corner = ScreenRect { x: 99, y: 99, width: 100, height: 100 };
    assert!(a.overlaps(&corner));
    assert!(corner.overlaps(&a));
    let inner = ScreenRect { x: 40, y: 40, width: 10, height: 10 };
    assert!(a.overlaps(&inner));
}

#[test]
fn validity_of_mappings_and_rects() {
    let m = sample_mapping();
    assert!(m.is_valid());
    assert!(!Mapping { num: 0, ..m }.is_valid());
    assert!(!Mapping { den: 0, ..m }.is_valid());
    assert!(!Mapping { bin_width: 0, ..m }.is_valid());
    assert!(!Mapping { bin_height: LIMIT + 1, ..m }.is_valid());
    assert!(!Mapping { origin_x: i128::MAX, ..m }.is_valid());
    let r = ScreenRect { x: 1, y: 2, width: 3, height: 4 };
    assert!(r.is_valid());
    assert!(!ScreenRect { width: i128::MAX, ..r }.is_valid());
    assert!(!ScreenRect { y: i128::MIN, ..r }.is_valid());
}
