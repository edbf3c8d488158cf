//! The validator battery.
//!
//! Seven independent, pure validators judge the final aggregated state
//! against the configuration thresholds. Each produces exactly one
//! outcome; none suppresses another. The battery returns them in a fixed
//! order: minimum safe height, depth, offset, number of passes, part
//! dimensions, endmill path, order of operations.
//!
//! A validator that cannot make its determination because a required
//! measurement was never observed reports severity `Error`; one whose
//! measurement falls outside its bounds reports `Fail` or `Warning`;
//! otherwise it reports `Pass`.

use vstd::prelude::*;

use crate::config::{Config, to_count, to_count_exec};
use crate::num::{dec_digits, fixed_chars, fixed_i64_string, fixed_i128_string, u64_string};
use crate::outcome::{Outcome, OutcomeModel, Status, placeholder_message};
use crate::parse::{spec_lines, split_lines};
use crate::point::Point;
use crate::state::{init_state, scan_lines, state_wf, ScanState, StateModel};

verus! {

/// The minimum-safe-height outcome: `Fail` when the minimum traversal
/// clearance reaches the failure threshold, `Warning` when it reaches the
/// warning threshold, `Error` when no traversal clearance was ever
/// observed, `Pass` otherwise.
pub open spec fn safe_height_outcome(tm: Option<i128>, warn: i64, fail: i64) -> OutcomeModel {
    match tm {
        Option::None => OutcomeModel {
            name: "Min Safe Height"@,
            status: Status::Error,
            message: "could not detect minimum traversing height"@,
        },
        Option::Some(v) => if v <= fail {
            OutcomeModel {
                name: "Min Safe Height"@,
                status: Status::Fail,
                message: "tool is in danger of colliding with screws:\nminimum traversing height detected: "@
                    + fixed_chars(v as int),
            }
        } else if v <= warn {
            OutcomeModel {
                name: "Min Safe Height"@,
                status: Status::Warning,
                message: "tool may collide with screws:\nminimum traversing height detected: "@
                    + fixed_chars(v as int),
            }
        } else {
            OutcomeModel {
                name: "Min Safe Height"@,
                status: Status::Pass,
                message: "tool is not in danger of colliding with screws:\nminimum traversing height detected: "@
                    + fixed_chars(v as int),
            }
        },
    }
}

/// The minimum-safe-height validator, per `safe_height_outcome`. The
/// clearance is a difference of two fixed-point `i64` values, so its
/// magnitude fits in a `u64`.
pub fn check_safe_height(traverse_min: Option<i128>, warn_safe_height: i64, fail_safe_height: i64)
    -> (r: Outcome)
    requires
        traverse_min matches Option::Some(v) ==> -0xffffffffffffffff <= v <= 0xffffffffffffffff,
    ensures
        r@ == safe_height_outcome(traverse_min, warn_safe_height, fail_safe_height),
{
    let out = Outcome::new("Min Safe Height");
    match traverse_min {
        Option::None => out.set(
            Status::Error,
            String::from_str("could not detect minimum traversing height"),
        ),
        Option::Some(v) => {
            if v <= fail_safe_height as i128 {
                let mut m = String::from_str(
                    "tool is in danger of colliding with screws:\nminimum traversing height detected: ",
                );
                let vs = fixed_i128_string(v);
                m.append(vs.as_str());
                out.set(Status::Fail, m)
            } else if v <= warn_safe_height as i128 {
                let mut m = String::from_str(
                    "tool may collide with screws:\nminimum traversing height detected: ",
                );
                let vs = fixed_i128_string(v);
                m.append(vs.as_str());
                out.set(Status::Warning, m)
            } else {
                let mut m = String::from_str(
                    "tool is not in danger of colliding with screws:\nminimum traversing height detected: ",
                );
                let vs = fixed_i128_string(v);
                m.append(vs.as_str());
                out.set(Status::Pass, m)
            }
        },
    }
}

/// The message body shared by the two depth failures and the depth pass.
pub open spec fn depth_detail(t: i64, d: int) -> Seq<char> {
    "material thickness: "@ + fixed_chars(t as int) + "\nmax cut depth: "@ + fixed_chars(d)
}

/// The depth outcome: with the material thickness and the overall minimum
/// Z both observed, the maximum cut depth is thickness minus minimum Z;
/// `Fail` when it exceeds thickness plus the allowance (cuts into the
/// table) or falls short of the thickness (does not cut through), `Pass`
/// otherwise; `Error` when either measurement is missing.
pub open spec fn depth_outcome(min: Point, material: Point, threshold: i64) -> OutcomeModel {
    match (material.z, min.z) {
        (Option::Some(t), Option::Some(mz)) => {
            let d = t - mz;
            if d > t + threshold {
                OutcomeModel {
                    name: "Depth"@,
                    status: Status::Fail,
                    message: "may cut too deep:\n"@ + depth_detail(t, d),
                }
            } else if d < t {
                OutcomeModel {
                    name: "Depth"@,
                    status: Status::Fail,
                    message: "may not cut through material:\n"@ + depth_detail(t, d),
                }
            } else {
                OutcomeModel {
                    name: "Depth"@,
                    status: Status::Pass,
                    message: "material thickness: "@ + fixed_chars(t as int)
                        + ", max cut depth: "@ + fixed_chars(d),
                }
            }
        },
        _ => OutcomeModel {
            name: "Depth"@,
            status: Status::Error,
            message: "unable to check depth. This is may be a bug"@,
        },
    }
}

/// The depth validator, per `depth_outcome`.
pub fn check_depth(min: Point, material_size: Point, depth_threshold: i64) -> (r: Outcome)
    ensures
        r@ == depth_outcome(min, material_size, depth_threshold),
{
    let out = Outcome::new("Depth");
    match (material_size.z, min.z) {
        (Option::Some(t), Option::Some(mz)) => {
            let d: i128 = (t as i128) - (mz as i128);
            let ds = fixed_i128_string(d);
            let ts = fixed_i64_string(t);
            let mut detail = String::from_str("material thickness: ");
            detail.append(ts.as_str());
            detail.append("\nmax cut depth: ");
            detail.append(ds.as_str());
            proof {
                assert(detail@ =~= depth_detail(t, d as int));
            }
            if d > (t as i128) + (depth_threshold as i128) {
                let mut m = String::from_str("may cut too deep:\n");
                m.append(detail.as_str());
                out.set(Status::Fail, m)
            } else if d < t as i128 {
                let mut m = String::from_str("may not cut through material:\n");
                m.append(detail.as_str());
                out.set(Status::Fail, m)
            } else {
                let mut m = String::from_str("material thickness: ");
                m.append(ts.as_str());
                m.append(", max cut depth: ");
                m.append(ds.as_str());
                proof {
                    assert(m@ =~= "material thickness: "@ + fixed_chars(t as int)
                        + ", max cut depth: "@ + fixed_chars(d as int));
                }
                out.set(Status::Pass, m)
            }
        },
        _ => out.set(Status::Error, String::from_str("unable to check depth. This is may be a bug")),
    }
}

/// An offset failure message: the part's southwest corner and why it is
/// suspect.
pub open spec fn offset_corner(x: i64, y: i64) -> Seq<char> {
    "("@ + fixed_chars(x as int) + ", "@ + fixed_chars(y as int) + ")"@
}

/// The offset outcome: with the cutting minimum of both planar axes
/// observed, each must lie inside the inclusive offset interval, checked
/// axis by axis with the first violation deciding the message; `Error`
/// when either planar minimum is missing.
pub open spec fn offset_outcome(min: Point, min_offset: i64, max_offset: i64) -> OutcomeModel {
    match (min.x, min.y) {
        (Option::Some(x), Option::Some(y)) => {
            let far = "toolpath may be offset:\nsouthwest corner of part is far from the origin, at "@
                + offset_corner(x, y);
            let neg = "toolpath may be offset:\nsouthwest corner of part is negative, at "@
                + offset_corner(x, y);
            if x > max_offset {
                OutcomeModel { name: "Offset"@, status: Status::Fail, message: far }
            } else if x < min_offset {
                OutcomeModel { name: "Offset"@, status: Status::Fail, message: neg }
            } else if y > max_offset {
                OutcomeModel { name: "Offset"@, status: Status::Fail, message: far }
            } else if y < min_offset {
                OutcomeModel { name: "Offset"@, status: Status::Fail, message: neg }
            } else {
                OutcomeModel {
                    name: "Offset"@,
                    status: Status::Pass,
                    message: "southeast corner of part is near the origin, at "@ + offset_corner(
                        x,
                        y,
                    ),
                }
            }
        },
        _ => OutcomeModel {
            name: "Offset"@,
            status: Status::Error,
            message: "unable to check offset. This is may be a bug"@,
        },
    }
}

/// The corner text of the offset messages.
fn offset_corner_exec(x: i64, y: i64) -> (r: String)
    ensures
        r@ == offset_corner(x, y),
{
    let mut s = String::from_str("(");
    let xs = fixed_i64_string(x);
    s.append(xs.as_str());
    s.append(", ");
    let ys = fixed_i64_string(y);
    s.append(ys.as_str());
    s.append(")");
    proof {
        assert(s@ =~= offset_corner(x, y));
    }
    s
}

/// The offset validator, per `offset_outcome`.
pub fn check_offset(min: Point, min_offset: i64, max_offset: i64) -> (r: Outcome)
    ensures
        r@ == offset_outcome(min, min_offset, max_offset),
{
    let out = Outcome::new("Offset");
    match (min.x, min.y) {
        (Option::Some(x), Option::Some(y)) => {
            let corner = offset_corner_exec(x, y);
            if x > max_offset || (!(x < min_offset) && y > max_offset) {
                let mut m = String::from_str(
                    "toolpath may be offset:\nsouthwest corner of part is far from the origin, at ",
                );
                m.append(corner.as_str());
                out.set(Status::Fail, m)
            } else if x < min_offset || y < min_offset {
                let mut m = String::from_str(
                    "toolpath may be offset:\nsouthwest corner of part is negative, at ",
                );
                m.append(corner.as_str());
                out.set(Status::Fail, m)
            } else {
                let mut m = String::from_str("southeast corner of part is near the origin, at ");
                m.append(corner.as_str());
                out.set(Status::Pass, m)
            }
        },
        _ => out.set(
            Status::Error,
            String::from_str("unable to check offset. This is may be a bug"),
        ),
    }
}

/// Number of genuine passes: histogram buckets whose line count exceeds
/// the pass-frequency threshold.
pub open spec fn count_passes(h: Seq<(i64, u64)>, threshold: u64) -> int
    decreases h.len(),
{
    if h.len() == 0 {
        0
    } else {
        count_passes(h.drop_last(), threshold) + if h.last().1 > threshold {
            1int
        } else {
            0int
        }
    }
}

/// The number-of-passes outcome: `Warning` when between one and the
/// minimum, `Pass` when strictly between the minimum and the maximum,
/// `Error` otherwise (none detected, or at least the maximum).
pub open spec fn passes_outcome(
    h: Seq<(i64, u64)>,
    min_passes: u64,
    max_passes: u64,
    threshold: u64,
) -> OutcomeModel {
    let p = count_passes(h, threshold);
    if 1 <= p <= min_passes {
        OutcomeModel {
            name: "Number of Passes"@,
            status: Status::Warning,
            message: "only "@ + dec_digits(p as nat) + " passes detected"@,
        }
    } else if min_passes < p < max_passes {
        OutcomeModel {
            name: "Number of Passes"@,
            status: Status::Pass,
            message: dec_digits(p as nat) + " passes detected"@,
        }
    } else {
        OutcomeModel {
            name: "Number of Passes"@,
            status: Status::Error,
            message: "unable to detect number of passes"@,
        }
    }
}

/// The number-of-passes validator, per `passes_outcome`.
pub fn check_passes(
    heights: &crate::state::PassHistogram,
    min_passes: u64,
    max_passes: u64,
    pass_freq_threshold: u64,
) -> (r: Outcome)
    ensures
        r@ == passes_outcome(heights@, min_passes, max_passes, pass_freq_threshold),
{
    let out = Outcome::new("Number of Passes");
    let n = heights.entries.len();
    let mut count: u64 = 0;
    let mut k: usize = 0;
    while k < n
        invariant
            k <= n,
            n == heights@.len(),
            count <= k,
            count == count_passes(heights@.take(k as int), pass_freq_threshold),
        decreases n - k,
    {
        let over = heights.entries[k].1 > pass_freq_threshold;
        proof {
            assert(heights@.take(k as int + 1).drop_last() =~= heights@.take(k as int));
            assert(heights@.take(k as int + 1).last() == heights@[k as int]);
        }
        if over {
            count = count + 1;
        }
        k = k + 1;
    }
    proof {
        assert(heights@.take(n as int) =~= heights@);
    }
    if 1 <= count && count <= min_passes {
        let mut m = String::from_str("only ");
        let cs = u64_string(count);
        m.append(cs.as_str());
        m.append(" passes detected");
        out.set(Status::Warning, m)
    } else if min_passes < count && count < max_passes {
        let mut m = u64_string(count);
        m.append(" passes detected");
        out.set(Status::Pass, m)
    } else {
        out.set(Status::Error, String::from_str("unable to detect number of passes"))
    }
}

/// The dimensions text of the part-dimensions messages.
pub open spec fn dimensions_detail(x: i64, y: i64, mx: i64, my: i64) -> Seq<char> {
    "part dimensions: "@ + fixed_chars(x as int) + "x"@ + fixed_chars(y as int)
        + ", machine dimensions: "@ + fixed_chars(mx as int) + "x"@ + fixed_chars(my as int)
}

/// The part-dimensions outcome: with both planar maxima observed, `Fail`
/// when either exceeds the machine size, `Pass` otherwise; when either
/// maximum is missing, the default outcome (severity `Error` with the
/// placeholder message) is returned unchanged.
pub open spec fn dimensions_outcome(max: Point, mx: i64, my: i64) -> OutcomeModel {
    match (max.x, max.y) {
        (Option::Some(x), Option::Some(y)) => if x > mx || y > my {
            OutcomeModel {
                name: "Part Dimensions"@,
                status: Status::Fail,
                message: "part dimensions exceed machine dimensions:\n"@ + dimensions_detail(
                    x,
                    y,
                    mx,
                    my,
                ) + "\nif machine dimensions are incorrect, they can be changed in the config"@,
            }
        } else {
            OutcomeModel {
                name: "Part Dimensions"@,
                status: Status::Pass,
                message: "part dimensions are within machine dimensions:\n"@ + dimensions_detail(
                    x,
                    y,
                    mx,
                    my,
                ),
            }
        },
        _ => OutcomeModel {
            name: "Part Dimensions"@,
            status: Status::Error,
            message: placeholder_message(),
        },
    }
}

/// The dimensions text of the part-dimensions messages.
fn dimensions_detail_exec(x: i64, y: i64, mx: i64, my: i64) -> (r: String)
    ensures
        r@ == dimensions_detail(x, y, mx, my),
{
    let mut s = String::from_str("part dimensions: ");
    let xs = fixed_i64_string(x);
    s.append(xs.as_str());
    s.append("x");
    let ys = fixed_i64_string(y);
    s.append(ys.as_str());
    s.append(", machine dimensions: ");
    let mxs = fixed_i64_string(mx);
    s.append(mxs.as_str());
    s.append("x");
    let mys = fixed_i64_string(my);
    s.append(mys.as_str());
    proof {
        assert(s@ =~= dimensions_detail(x, y, mx, my));
    }
    s
}

/// The part-dimensions validator, per `dimensions_outcome`.
pub fn check_dimensions(max: Point, machine_size_x: i64, machine_size_y: i64) -> (r: Outcome)
    ensures
        r@ == dimensions_outcome(max, machine_size_x, machine_size_y),
{
    let out = Outcome::new("Part Dimensions");
    match (max.x, max.y) {
        (Option::Some(x), Option::Some(y)) => {
            let detail = dimensions_detail_exec(x, y, machine_size_x, machine_size_y);
            if x > machine_size_x || y > machine_size_y {
                let mut m = String::from_str("part dimensions exceed machine dimensions:\n");
                m.append(detail.as_str());
                m.append("\nif machine dimensions are incorrect, they can be changed in the config");
                out.set(Status::Fail, m)
            } else {
                let mut m = String::from_str("part dimensions are within machine dimensions:\n");
                m.append(detail.as_str());
                out.set(Status::Pass, m)
            }
        },
        _ => out,
    }
}

/// The abstract values of a sequence of outcomes.
pub open spec fn outcomes_view(v: Seq<Outcome>) -> Seq<OutcomeModel> {
    v.map_values(|o: Outcome| o@)
}

/// The whole battery's outcomes over an aggregated state and the
/// configuration, in declaration order.
pub open spec fn spec_battery(s: StateModel, c: Config) -> Seq<OutcomeModel> {
    seq![
        safe_height_outcome(s.traverse_min, c.warn_safe_height, c.fail_safe_height),
        depth_outcome(s.min, s.material, c.depth_threshold),
        offset_outcome(s.cut_min, c.min_offset, c.max_offset),
        passes_outcome(
            s.heights,
            to_count(c.min_passes),
            to_count(c.max_passes),
            to_count(c.pass_frequency_threshold),
        ),
        dimensions_outcome(s.max, c.machine_size_x, c.machine_size_y),
        s.endmill_path,
        s.order_of_op,
    ]
}

/// An identical outcome, with a contract (the derived clone has none).
fn copy_outcome(o: &Outcome) -> (r: Outcome)
    ensures
        r@ == o@,
{
    Outcome { name: o.name.clone(), status: o.status, message: o.message.clone() }
}

/// Run the validator battery over an aggregated state. The battery is
/// pure: its outcomes are a function of the state and the configuration
/// alone.
pub fn run_battery(state: &ScanState, config_items: &Config) -> (r: Vec<Outcome>)
    requires
        state_wf(state@),
    ensures
        outcomes_view(r@) == spec_battery(state@, *config_items),
{
    let mut r: Vec<Outcome> = Vec::new();
    r.push(
        check_safe_height(
            state.traverse_min,
            config_items.warn_safe_height,
            config_items.fail_safe_height,
        ),
    );
    r.push(check_depth(state.min, state.material, config_items.depth_threshold));
    r.push(check_offset(state.cut_min, config_items.min_offset, config_items.max_offset));
    r.push(
        check_passes(
            &state.heights,
            to_count_exec(config_items.min_passes),
            to_count_exec(config_items.max_passes),
            to_count_exec(config_items.pass_frequency_threshold),
        ),
    );
    r.push(check_dimensions(state.max, config_items.machine_size_x, config_items.machine_size_y));
    r.push(copy_outcome(&state.endmill_path));
    r.push(copy_outcome(&state.order_of_op));
    proof {
        assert(outcomes_view(r@) =~~= spec_battery(state@, *config_items));
    }
    r
}

/// Scan the program text once and run the validator battery over the
/// final aggregated state.
pub fn check(contents: &Vec<u8>, config_items: &Config) -> (r: Vec<Outcome>)
    ensures
        outcomes_view(r@) == spec_battery(
            scan_lines(init_state(), spec_lines(contents@)),
            *config_items,
        ),
{
    let lines = split_lines(contents);
    let st = ScanState::scan(&lines);
    proof {
        crate::state::lemma_scan_wf(spec_lines(contents@));
    }
    run_battery(&st, config_items)
}


/// Law: the battery is pure. Two runs over the same aggregated state and
/// the same configuration yield identical outcome collections, name,
/// severity and message alike; nothing besides the state and the
/// configuration enters the result.
pub proof fn lemma_battery_pure(
    r1: Seq<OutcomeModel>,
    r2: Seq<OutcomeModel>,
    s: StateModel,
    c: Config,
)
    requires
        r1 == spec_battery(s, c),
        r2 == spec_battery(s, c),
    ensures
        r1 == r2,
{
}

} // verus!
