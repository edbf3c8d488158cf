use validate_toolpath::checks::{check, run_battery};
use validate_toolpath::config::{parse_config, Config};
use validate_toolpath::outcome::Status;
use validate_toolpath::parse::split_lines;
use validate_toolpath::state::ScanState;

fn bytes(s: &str) -> Vec<u8> {
    s.as_bytes().to_vec()
}

fn program(lines: &[&str]) -> Vec<u8> {
    let mut text = String::new();
    for l in lines {
        text.push_str(l);
        text.push('\n');
    }
    bytes(&text)
}

#[test]
fn extrema_monotone_and_unseen_axis_unknown() {
    // No line mentions Y: the running extrema must report it unknown, not
    // zero, while X and Z only ever tighten.
    let text = program(&["G0 X3.0 Z1.0", "G1 X1.0 Z-0.25", "G1 X2.0"]);
    let lines = split_lines(&text);
    let st = ScanState::scan(&lines);
    assert_eq!(st.min.x, Some(1_000_000));
    assert_eq!(st.max.x, Some(3_000_000));
    assert_eq!(st.min.y, None);
    assert_eq!(st.max.y, None);
    assert_eq!(st.min.z, Some(-250_000));
    assert_eq!(st.max.z, Some(1_000_000));
}

#[test]
fn material_size_first_annotation_wins() {
    let text = program(&["(X10.0 Y20.0 Z0.5)", "(X99.0 Y99.0 Z9.9)", "G1 Z0.6"]);
    let lines = split_lines(&text);
    let st = ScanState::scan(&lines);
    assert_eq!(st.material.z, Some(500_000));
    assert_eq!(st.material.x, Some(10_000_000));
}

#[test]
fn hole_collision_latches_fail() {
    // A drill plunge at (1.0, 1.0); an endmill cutting point at
    // (1.02, 1.0) with declared size 0.25 is within the declared size, so
    // the endmill-path outcome fails and stays failed though the last cut
    // is far away.
    let text = program(&[
        "(X24.0 Y48.0 Z0.5)",
        "(Tool: Drill {0.25\"})",
        "G1 X1.0 Y1.0 Z-0.1",
        "(Tool: End Mill {0.25\"})",
        "G1 X1.02 Y1.0 Z-0.1",
        "G1 X9.0 Y9.0 Z-0.1",
    ]);
    let results = check(&text, &Config::default());
    assert_eq!(results.len(), 7);
    let endmill_path = &results[5];
    assert_eq!(endmill_path.name, "Endmill Path");
    assert_eq!(endmill_path.status, Status::Fail);
    assert_eq!(
        endmill_path.message,
        "endmill may collide with drilled hole at (1.02,1)"
    );
}

#[test]
fn endmill_far_from_holes_passes() {
    let text = program(&[
        "(X24.0 Y48.0 Z0.5)",
        "(Tool: Drill {0.25\"})",
        "G1 X1.0 Y1.0 Z-0.1",
        "(Tool: End Mill {0.25\"})",
        "G1 X5.0 Y5.0 Z-0.1",
    ]);
    let results = check(&text, &Config::default());
    assert_eq!(results[5].status, Status::Pass);
}

#[test]
fn drill_after_endmill_warns_once() {
    // Endmill, then drill, then endmill again: exactly one
    // order-of-operations outcome, at Warning.
    let text = program(&[
        "(X24.0 Y48.0 Z0.5)",
        "(Tool: End Mill {0.25\"})",
        "G1 X1.0 Y1.0 Z-0.1",
        "(Tool: Drill {0.25\"})",
        "G1 X2.0 Y2.0 Z-0.1",
        "(Tool: End Mill {0.25\"})",
    ]);
    let results = check(&text, &Config::default());
    let order: Vec<_> = results.iter().filter(|o| o.name == "Order of Operations").collect();
    assert_eq!(order.len(), 1);
    assert_eq!(order[0].status, Status::Warning);
    assert_eq!(
        order[0].message,
        "drilling after endmilling detected. Please check order of operations"
    );
}

#[test]
fn drill_before_endmill_does_not_warn() {
    let text = program(&[
        "(X24.0 Y48.0 Z0.5)",
        "(Tool: Drill {0.25\"})",
        "(Tool: End Mill {0.25\"})",
    ]);
    let results = check(&text, &Config::default());
    assert_eq!(results[6].status, Status::Pass);
    assert_eq!(results[6].message, "no drill path after endmill path");
}

#[test]
fn battery_is_pure() {
    // Re-running the battery on the identical aggregated state yields an
    // identical outcome collection.
    let text = program(&[
        "(X24.0 Y48.0 Z0.5)",
        "(Tool: End Mill {0.25\"})",
        "G0 Z0.6",
        "G1 X1.0 Y1.0 Z-0.05",
    ]);
    let lines = split_lines(&text);
    let st = ScanState::scan(&lines);
    let config = Config::default();
    let first = run_battery(&st, &config);
    let second = run_battery(&st, &config);
    assert_eq!(first, second);
}

#[test]
fn battery_order_and_names() {
    let results = check(&bytes(""), &Config::default());
    let names: Vec<&str> = results.iter().map(|o| o.name.as_str()).collect();
    assert_eq!(
        names,
        [
            "Min Safe Height",
            "Depth",
            "Offset",
            "Number of Passes",
            "Part Dimensions",
            "Endmill Path",
            "Order of Operations",
        ]
    );
}

#[test]
fn empty_program_reports_errors_and_latched_passes() {
    let results = check(&bytes(""), &Config::default());
    assert_eq!(results[0].status, Status::Error);
    assert_eq!(results[1].status, Status::Error);
    assert_eq!(results[2].status, Status::Error);
    assert_eq!(results[3].status, Status::Error);
    assert_eq!(results[4].status, Status::Error);
    assert_eq!(results[5].status, Status::Pass);
    assert_eq!(results[6].status, Status::Pass);
}

#[test]
fn traversal_clearance_feeds_safe_height() {
    // The tool traverses at Z = 0.6 over material 0.5 thick: minimum
    // clearance 0.1, which is exactly the failure threshold.
    let text = program(&["(X24.0 Y48.0 Z0.5)", "G0 Z0.6", "G0 Z2.0"]);
    let results = check(&text, &Config::default());
    assert_eq!(results[0].status, Status::Fail);
    assert!(results[0].message.contains("minimum traversing height detected: 0.1"));
}

#[test]
fn config_defaults() {
    let c = Config::default();
    assert_eq!(c.machine_size_x, 24_000_000);
    assert_eq!(c.machine_size_y, 48_000_000);
    assert_eq!(c.min_passes, 2_000_000);
    assert_eq!(c.max_passes, 6_000_000);
    assert_eq!(c.depth_threshold, 62_500);
    assert_eq!(c.min_offset, -200_000);
    assert_eq!(c.max_offset, 750_000);
    assert_eq!(c.warn_safe_height, 150_000);
    assert_eq!(c.fail_safe_height, 100_000);
    assert_eq!(c.pass_frequency_threshold, 20_000_000);
}

#[test]
fn config_overrides_recognized_keys() {
    let text = bytes(
        "// a comment with numbers 1 2 3\n# another 4.0\nMACHINE_SIZE_X = 30.5\nMIN_OFFSET=-0.1\nMAX_PASSES: 8\nUNKNOWN_KEY = 4.0\n",
    );
    let c = parse_config(&text);
    assert_eq!(c.machine_size_x, 30_500_000);
    assert_eq!(c.min_offset, -100_000);
    assert_eq!(c.max_passes, 8_000_000);
    assert_eq!(c.machine_size_y, 48_000_000, "untouched keys keep their defaults");
}

#[test]
fn config_line_without_number_changes_nothing() {
    let c = parse_config(&bytes("MACHINE_SIZE_X = \n"));
    assert_eq!(c.machine_size_x, 24_000_000);
}

#[test]
fn config_key_trimmed_of_tabs() {
    let c = parse_config(&bytes("\tMACHINE_SIZE_X = 10.0\n"));
    assert_eq!(c.machine_size_x, 10_000_000);
}
