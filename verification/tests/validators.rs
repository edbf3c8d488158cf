use validate_toolpath::checks::{
    check_depth, check_dimensions, check_offset, check_passes, check_safe_height,
};
use validate_toolpath::num::{fixed_i64_string, u64_string};
use validate_toolpath::outcome::{Outcome, Status};
use validate_toolpath::point::Point;
use validate_toolpath::state::PassHistogram;

#[test]
fn formatting_is_exact_decimal() {
    assert_eq!(fixed_i64_string(1_062_500), "1.0625");
    assert_eq!(fixed_i64_string(-200_000), "-0.2");
    assert_eq!(fixed_i64_string(24_000_000), "24");
    assert_eq!(fixed_i64_string(0), "0");
    assert_eq!(fixed_i64_string(150_000), "0.15");
    assert_eq!(u64_string(0), "0");
    assert_eq!(u64_string(1234), "1234");
}

#[test]
fn outcome_builders() {
    let o = Outcome::new("Sample");
    assert_eq!(o.name, "Sample");
    assert_eq!(o.status, Status::Error);
    assert_eq!(o.message, "if you are reading this, there is a bug in the code.");
    let o = Outcome::new_full("Sample", Status::Pass, String::from("fine"));
    assert_eq!(o.status, Status::Pass);
    let o = o.set(Status::Fail, String::from("bad"));
    assert_eq!(o.name, "Sample");
    assert_eq!(o.status, Status::Fail);
    assert_eq!(o.message, "bad");
}

#[test]
fn offset_within_bounds_passes() {
    // Cutting minimum exactly at the maximum offset: inclusive, so Pass.
    let min = Point::new(Some(750_000), Some(750_000), None);
    let r = check_offset(min, -100_000, 750_000);
    assert_eq!(r.status, Status::Pass);
}

#[test]
fn offset_beyond_maximum_fails() {
    let min = Point::new(Some(760_000), Some(200_000), None);
    let r = check_offset(min, -100_000, 750_000);
    assert_eq!(r.status, Status::Fail);
    assert!(r.message.contains("far from the origin"));
}

#[test]
fn offset_below_minimum_fails() {
    let min = Point::new(Some(-110_000), Some(200_000), None);
    let r = check_offset(min, -100_000, 750_000);
    assert_eq!(r.status, Status::Fail);
    assert!(r.message.contains("negative"));
}

#[test]
fn offset_boundaries_are_inclusive() {
    let min = Point::new(Some(-100_000), Some(750_000), None);
    let r = check_offset(min, -100_000, 750_000);
    assert_eq!(r.status, Status::Pass);
}

#[test]
fn offset_without_planar_minima_errors() {
    let r = check_offset(Point::new(None, Some(1), None), -100_000, 750_000);
    assert_eq!(r.status, Status::Error);
}

#[test]
fn depth_at_allowance_boundary_passes() {
    // Thickness 0.5, allowance 0.0625: a minimum Z of -0.0625 cuts exactly
    // to the boundary, which is not exceeding it.
    let material = Point::new(None, None, Some(500_000));
    let min = Point::new(None, None, Some(-62_500));
    let r = check_depth(min, material, 62_500);
    assert_eq!(r.status, Status::Pass);
    assert_eq!(r.message, "material thickness: 0.5, max cut depth: 0.5625");
}

#[test]
fn depth_beyond_allowance_fails() {
    let material = Point::new(None, None, Some(500_000));
    let min = Point::new(None, None, Some(-63_000));
    let r = check_depth(min, material, 62_500);
    assert_eq!(r.status, Status::Fail);
    assert!(r.message.starts_with("may cut too deep:"));
}

#[test]
fn depth_short_of_thickness_fails() {
    // The tool only ever reaches Z = 0.1: a cut of 0.4 through 0.5 of
    // material does not cut through.
    let material = Point::new(None, None, Some(500_000));
    let min = Point::new(None, None, Some(100_000));
    let r = check_depth(min, material, 62_500);
    assert_eq!(r.status, Status::Fail);
    assert!(r.message.starts_with("may not cut through material:"));
    assert!(r.message.contains("max cut depth: 0.4"));
}

#[test]
fn depth_without_measurements_errors() {
    let r = check_depth(Point::new(None, None, None), Point::new(None, None, Some(1)), 0);
    assert_eq!(r.status, Status::Error);
    let r = check_depth(Point::new(None, None, Some(1)), Point::new(None, None, None), 0);
    assert_eq!(r.status, Status::Error);
}

#[test]
fn passes_counted_per_qualifying_bucket() {
    // 100 lines at one depth, 5 at another; only the first bucket exceeds
    // the frequency threshold of 80, so exactly one genuine pass.
    let mut h = PassHistogram::new();
    for _ in 0..100 {
        h.record(-100);
    }
    for _ in 0..5 {
        h.record(-200);
    }
    let r = check_passes(&h, 2, 6, 80);
    assert_eq!(r.status, Status::Warning);
    assert_eq!(r.message, "only 1 passes detected");
}

#[test]
fn passes_strictly_between_bounds_pass() {
    let mut h = PassHistogram::new();
    for _ in 0..30 {
        h.record(-100);
    }
    for _ in 0..30 {
        h.record(-200);
    }
    for _ in 0..30 {
        h.record(-300);
    }
    let r = check_passes(&h, 2, 6, 20);
    assert_eq!(r.status, Status::Pass);
    assert_eq!(r.message, "3 passes detected");
}

#[test]
fn no_passes_is_undetectable() {
    let h = PassHistogram::new();
    let r = check_passes(&h, 2, 6, 20);
    assert_eq!(r.status, Status::Error);
    assert_eq!(r.message, "unable to detect number of passes");
}

#[test]
fn too_many_passes_is_undetectable() {
    let mut h = PassHistogram::new();
    for key in 0..6 {
        for _ in 0..30 {
            h.record(key);
        }
    }
    let r = check_passes(&h, 2, 6, 20);
    assert_eq!(r.status, Status::Error);
}

#[test]
fn safe_height_bands() {
    let fail = check_safe_height(Some(90_000), 150_000, 100_000);
    assert_eq!(fail.status, Status::Fail);
    let warn = check_safe_height(Some(120_000), 150_000, 100_000);
    assert_eq!(warn.status, Status::Warning);
    assert!(warn.message.contains("minimum traversing height detected: 0.12"));
    let pass = check_safe_height(Some(200_000), 150_000, 100_000);
    assert_eq!(pass.status, Status::Pass);
    let none = check_safe_height(None, 150_000, 100_000);
    assert_eq!(none.status, Status::Error);
    assert_eq!(none.message, "could not detect minimum traversing height");
}

#[test]
fn safe_height_boundaries() {
    // At a threshold exactly: both bands are inclusive on their upper end.
    let at_fail = check_safe_height(Some(100_000), 150_000, 100_000);
    assert_eq!(at_fail.status, Status::Fail);
    let at_warn = check_safe_height(Some(150_000), 150_000, 100_000);
    assert_eq!(at_warn.status, Status::Warning);
}

#[test]
fn dimensions_within_machine_pass() {
    let max = Point::new(Some(20_000_000), Some(40_000_000), None);
    let r = check_dimensions(max, 24_000_000, 48_000_000);
    assert_eq!(r.status, Status::Pass);
    assert_eq!(
        r.message,
        "part dimensions are within machine dimensions:\npart dimensions: 20x40, machine dimensions: 24x48"
    );
}

#[test]
fn dimensions_exceeding_machine_fail() {
    let max = Point::new(Some(25_000_000), Some(40_000_000), None);
    let r = check_dimensions(max, 24_000_000, 48_000_000);
    assert_eq!(r.status, Status::Fail);
}

#[test]
fn dimensions_without_maxima_error_silently() {
    let r = check_dimensions(Point::new(None, None, None), 24_000_000, 48_000_000);
    assert_eq!(r.status, Status::Error);
    assert_eq!(r.message, "if you are reading this, there is a bug in the code.");
}
