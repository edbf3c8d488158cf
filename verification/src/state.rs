//! Aggregated scan state.
//!
//! The program text is scanned once, line by line. Each line updates a
//! small aggregated state: running extrema of the coordinates seen, the
//! material size, the active tool, a histogram of cutting depths, the set
//! of drilled holes, and the two latched outcomes (endmill-path collision
//! and order of operations). Aggregation is monotone: extrema only ever
//! tighten, the histogram and the hole set only grow, and a latched
//! outcome only ever worsens, once.
//!
//! The whole scan is specified by `scan_lines`, a fold of `step_line` over
//! the lines of the program.

use vstd::prelude::*;
use vstd::pervasive::VecAdditionalExecFns;

use crate::num::{div_trunc, fixed_chars, fixed_i64_string, div_trunc_1000};
use crate::outcome::{Outcome, OutcomeModel, Status};
use crate::parse::{
    is_motion_line, is_annotation_line, declares_drill, declares_endmill, line_point, tool_size,
    is_motion, is_annotation, has_drill_decl, has_endmill_decl, get_tool_size,
};
use crate::point::{Point, point_min, point_max, point_is_empty};

verus! {

/// The active tool context: unknown, a drill, or an endmill, each with an
/// optional declared diameter. It changes only when an annotation line
/// declares a tool change.
#[derive(Clone, Copy, Debug, PartialEq)]
pub enum Tool {
    Drill(Option<i64>),
    Endmill(Option<i64>),
    Unknown,
}

/// Index of the first histogram entry with this key, or `-1`.
pub open spec fn hist_index_of(h: Seq<(i64, u64)>, key: i64) -> int
    decreases h.len(),
{
    if h.len() == 0 {
        -1
    } else if h[0].0 == key {
        0
    } else {
        let r = hist_index_of(h.drop_first(), key);
        if r < 0 {
            -1
        } else {
            r + 1
        }
    }
}

proof fn lemma_hist_index_of(h: Seq<(i64, u64)>, key: i64)
    ensures
        hist_index_of(h, key) == -1 ==> forall|k: int|
            0 <= k < h.len() ==> (#[trigger] h[k]).0 != key,
        hist_index_of(h, key) != -1 ==> {
            let i = hist_index_of(h, key);
            &&& 0 <= i < h.len()
            &&& h[i].0 == key
            &&& forall|k: int| 0 <= k < i ==> (#[trigger] h[k]).0 != key
        },
    decreases h.len(),
{
    if h.len() == 0 {
    } else if h[0].0 == key {
    } else {
        let t = h.drop_first();
        let i = hist_index_of(h, key);
        lemma_hist_index_of(t, key);
        if hist_index_of(t, key) == -1 {
            assert forall|k: int| 0 <= k < h.len() implies (#[trigger] h[k]).0 != key by {
                if k > 0 {
                    assert(t[k - 1] == h[k]);
                    assert(t[k - 1].0 != key);
                }
            }
        } else {
            assert(h[i] == t[i - 1]);
            assert forall|k: int| 0 <= k < i implies (#[trigger] h[k]).0 != key by {
                if k > 0 {
                    assert(t[k - 1] == h[k]);
                    assert(t[k - 1].0 != key);
                }
            }
        }
    }
}

/// A count incremented by one, saturating at the maximum.
pub open spec fn bump(c: u64) -> u64 {
    if c < u64::MAX {
        (c + 1) as u64
    } else {
        c
    }
}

/// The histogram after recording one more cut at `key`: the first entry
/// with that key is incremented, or a fresh entry with count one is
/// appended.
pub open spec fn hist_record(h: Seq<(i64, u64)>, key: i64) -> Seq<(i64, u64)> {
    let i = hist_index_of(h, key);
    if i >= 0 {
        h.update(i, (key, bump(h[i].1)))
    } else {
        h.push((key, 1u64))
    }
}

/// Counts, per quantized cutting depth, how many motion lines cut at that
/// depth while the active tool was an endmill. Keys are unique by
/// construction: recording bumps an existing key's count.
#[derive(Clone, Debug, PartialEq)]
pub struct PassHistogram {
    pub entries: Vec<(i64, u64)>,
}

impl View for PassHistogram {
    type V = Seq<(i64, u64)>;

    open spec fn view(&self) -> Seq<(i64, u64)> {
        self.entries@
    }
}

impl PassHistogram {
    /// The empty histogram.
    pub fn new() -> (r: PassHistogram)
        ensures
            r@ == Seq::<(i64, u64)>::empty(),
    {
        let r = PassHistogram { entries: Vec::new() };
        proof {
            assert(r@ =~= Seq::<(i64, u64)>::empty());
        }
        r
    }

    /// Record one more cut at the given quantized depth.
    pub fn record(&mut self, key: i64)
        ensures
            final(self)@ == hist_record(old(self)@, key),
    {
        let ghost h0 = self.entries@;
        let n = self.entries.len();
        let mut j: usize = 0;
        while j < n
            invariant
                j <= n,
                n == self.entries@.len(),
                self.entries@ == h0,
                h0 == old(self)@,
                forall|k: int| 0 <= k < j ==> (#[trigger] h0[k]).0 != key,
            decreases n - j,
        {
            if self.entries[j].0 == key {
                let c = self.entries[j].1;
                let newc = if c < u64::MAX {
                    c + 1
                } else {
                    c
                };
                self.entries.set(j, (key, newc));
                proof {
                    assert(h0[j as int].0 == key);
                    lemma_hist_index_of(h0, key);
                    assert(hist_index_of(h0, key) != -1);
                    assert(hist_index_of(h0, key) == j);
                    assert(self.entries@ =~= hist_record(h0, key));
                }
                return ;
            }
            j = j + 1;
        }
        self.entries.push((key, 1));
        proof {
            lemma_hist_index_of(h0, key);
            assert(hist_index_of(h0, key) == -1);
            assert(self.entries@ =~= hist_record(h0, key));
        }
    }
}

/// The hole set after recording one planar drill location; a location
/// already present is not repeated.
pub open spec fn holes_insert(h: Seq<(i64, i64)>, p: (i64, i64)) -> Seq<(i64, i64)> {
    if h.contains(p) {
        h
    } else {
        h.push(p)
    }
}

/// A recorded hole is hit: the tool size is known non-negative and the
/// squared planar distance from the cutting point to the hole (whose
/// coordinates are stored in thousandths) is at most the squared declared
/// tool size. The comparison is against the full declared size, not the
/// radius, which this validator preserves as documented behaviour.
pub open spec fn hole_hit(hole: (i64, i64), x: i64, y: i64, s: i64) -> bool {
    let dx = x - hole.0 * 1000;
    let dy = y - hole.1 * 1000;
    s >= 0 && dx * dx + dy * dy <= (s as int) * (s as int)
}

/// Some recorded hole is hit by a cutting point at `(x, y)` with declared
/// tool size `s`.
pub open spec fn any_collision(h: Seq<(i64, i64)>, x: i64, y: i64, s: i64) -> bool {
    exists|k: int| 0 <= k < h.len() && #[trigger] hole_hit(h[k], x, y, s)
}

/// The planar locations of every drill plunge seen, quantized to
/// thousandths of an inch.
#[derive(Clone, Debug, PartialEq)]
pub struct HoleSet {
    pub holes: Vec<(i64, i64)>,
}

impl View for HoleSet {
    type V = Seq<(i64, i64)>;

    open spec fn view(&self) -> Seq<(i64, i64)> {
        self.holes@
    }
}

impl HoleSet {
    /// The empty hole set.
    pub fn new() -> (r: HoleSet)
        ensures
            r@ == Seq::<(i64, i64)>::empty(),
    {
        let r = HoleSet { holes: Vec::new() };
        proof {
            assert(r@ =~= Seq::<(i64, i64)>::empty());
        }
        r
    }

    /// Record one drill location.
    pub fn insert(&mut self, p: (i64, i64))
        ensures
            final(self)@ == holes_insert(old(self)@, p),
    {
        let ghost h0 = self.holes@;
        let n = self.holes.len();
        let mut j: usize = 0;
        while j < n
            invariant
                j <= n,
                n == self.holes@.len(),
                self.holes@ == h0,
                h0 == old(self)@,
                forall|k: int| 0 <= k < j ==> #[trigger] h0[k] != p,
            decreases n - j,
        {
            if self.holes[j].0 == p.0 && self.holes[j].1 == p.1 {
                proof {
                    assert(h0[j as int] == p);
                    assert(h0.contains(p));
                }
                return ;
            }
            j = j + 1;
        }
        proof {
            assert(!h0.contains(p));
        }
        self.holes.push(p);
        proof {
            assert(self.holes@ =~= holes_insert(h0, p));
        }
    }

    /// Whether a cutting point at `(x, y)` with declared tool size `s` hits
    /// any recorded hole.
    pub fn collides(&self, x: i64, y: i64, s: i64) -> (r: bool)
        ensures
            r == any_collision(self@, x, y, s),
    {
        let ghost h = self.holes@;
        if s < 0 {
            proof {
                assert(forall|k: int|
                    0 <= k < h.len() ==> !(#[trigger] hole_hit(h[k], x, y, s)));
            }
            return false;
        }
        let s_mag = s as u128;
        proof {
            assert(s_mag * s_mag <= 0x40000000000000000000000000000000u128) by (nonlinear_arith)
                requires
                    s_mag <= 0x8000000000000000u128,
            ;
        }
        let s2: u128 = s_mag * s_mag;
        let n = self.holes.len();
        let mut j: usize = 0;
        while j < n
            invariant
                j <= n,
                n == h.len(),
                h == self.holes@,
                s >= 0,
                s_mag == s as u128,
                s2 == s_mag * s_mag,
                s2 <= 0x40000000000000000000000000000000u128,
                forall|k: int| 0 <= k < j ==> !(#[trigger] hole_hit(h[k], x, y, s)),
            decreases n - j,
        {
            let hx = self.holes[j].0;
            let hy = self.holes[j].1;
            let dx: i128 = (x as i128) - (hx as i128) * 1000;
            let dy: i128 = (y as i128) - (hy as i128) * 1000;
            let dxm: u128 = if dx >= 0 {
                dx as u128
            } else {
                (-dx) as u128
            };
            let dym: u128 = if dy >= 0 {
                dy as u128
            } else {
                (-dy) as u128
            };
            let ghost dxi = x - hx * 1000;
            let ghost dyi = y - hy * 1000;
            proof {
                assert(dxm as int == if dxi >= 0 { dxi } else { -dxi });
                assert(dym as int == if dyi >= 0 { dyi } else { -dyi });
                assert(dxi * dxi == (dxm as int) * (dxm as int)) by (nonlinear_arith)
                    requires dxm as int == if dxi >= 0 { dxi } else { -dxi };
                assert(dyi * dyi == (dym as int) * (dym as int)) by (nonlinear_arith)
                    requires dym as int == if dyi >= 0 { dyi } else { -dyi };
            }
            let hit: bool = if dxm > s_mag || dym > s_mag {
                proof {
                    if dxm > s_mag {
                        assert((dxm as int) * (dxm as int) > (s_mag as int) * (s_mag as int))
                            by (nonlinear_arith)
                            requires dxm > s_mag;
                        assert((dym as int) * (dym as int) >= 0) by (nonlinear_arith);
                    } else {
                        assert((dym as int) * (dym as int) > (s_mag as int) * (s_mag as int))
                            by (nonlinear_arith)
                            requires dym > s_mag;
                        assert((dxm as int) * (dxm as int) >= 0) by (nonlinear_arith);
                    }
                    assert(!hole_hit(h[j as int], x, y, s));
                }
                false
            } else {
                proof {
                    assert(dxm * dxm <= s_mag * s_mag && dym * dym <= s_mag * s_mag)
                        by (nonlinear_arith)
                        requires
                            dxm <= s_mag,
                            dym <= s_mag,
                    ;
                }
                let dx2: u128 = dxm * dxm;
                let dy2: u128 = dym * dym;
                dx2 + dy2 <= s2
            };
            if hit {
                proof {
                    assert(hole_hit(h[j as int], x, y, s));
                }
                return true;
            }
            j = j + 1;
        }
        false
    }
}

/// The message of the latched endmill-path outcome after a collision at the
/// cutting point `(x, y)`.
pub open spec fn collision_message(x: i64, y: i64) -> Seq<char> {
    "endmill may collide with drilled hole at ("@ + fixed_chars(x as int) + ","@ + fixed_chars(
        y as int,
    ) + ")"@
}

/// The message of the latched order-of-operations outcome.
pub open spec fn order_warning_message() -> Seq<char> {
    "drilling after endmilling detected. Please check order of operations"@
}

/// The abstract value of the aggregated scan state.
pub struct StateModel {
    pub tool: Tool,
    pub min: Point,
    pub max: Point,
    pub cut_min: Point,
    pub traverse_min: Option<i128>,
    pub material: Point,
    pub heights: Seq<(i64, u64)>,
    pub holes: Seq<(i64, i64)>,
    pub endmill_path: OutcomeModel,
    pub order_of_op: OutcomeModel,
}

/// The state at scan start: everything unknown or empty, both latched
/// outcomes at `Pass`.
pub open spec fn init_state() -> StateModel {
    StateModel {
        tool: Tool::Unknown,
        min: crate::point::point_empty(),
        max: crate::point::point_empty(),
        cut_min: crate::point::point_empty(),
        traverse_min: Option::None,
        material: crate::point::point_empty(),
        heights: Seq::<(i64, u64)>::empty(),
        holes: Seq::<(i64, i64)>::empty(),
        endmill_path: OutcomeModel {
            name: "Endmill Path"@,
            status: Status::Pass,
            message: "endmill does not collide with any preexisting holes"@,
        },
        order_of_op: OutcomeModel {
            name: "Order of Operations"@,
            status: Status::Pass,
            message: "no drill path after endmill path"@,
        },
    }
}

/// The state after one cutting motion at depth `z`: the cutting minimum
/// tightens; under an endmill the depth histogram grows and a collision
/// with a recorded hole latches the endmill-path outcome to `Fail`; under
/// a drill the planar location is recorded as a hole.
pub open spec fn cutting_step(s: StateModel, p: Point, z: i64) -> StateModel {
    let s1 = StateModel { cut_min: point_min(s.cut_min, p), ..s };
    match s1.tool {
        Tool::Endmill(size) => {
            let key = div_trunc(z as int, 1000) as i64;
            let s2 = StateModel { heights: hist_record(s1.heights, key), ..s1 };
            match (size, p.x, p.y) {
                (Option::Some(sz), Option::Some(x), Option::Some(y)) => if any_collision(
                    s2.holes,
                    x,
                    y,
                    sz,
                ) {
                    StateModel {
                        endmill_path: OutcomeModel {
                            name: s2.endmill_path.name,
                            status: Status::Fail,
                            message: collision_message(x, y),
                        },
                        ..s2
                    }
                } else {
                    s2
                },
                _ => s2,
            }
        },
        Tool::Drill(_) => match (p.x, p.y) {
            (Option::Some(x), Option::Some(y)) => StateModel {
                holes: holes_insert(
                    s1.holes,
                    (div_trunc(x as int, 1000) as i64, div_trunc(y as int, 1000) as i64),
                ),
                ..s1
            },
            _ => s1,
        },
        Tool::Unknown => s1,
    }
}

/// The state after one motion line: extrema tighten; when both the line's
/// Z and the material thickness are known, a Z below the material top face
/// is a cut, and a Z at or above it tightens the minimum traversal
/// clearance.
pub open spec fn motion_step(s: StateModel, line: Seq<u8>) -> StateModel {
    let p = line_point(line);
    let s1 = StateModel { min: point_min(s.min, p), max: point_max(s.max, p), ..s };
    match (p.z, s1.material.z) {
        (Option::Some(z), Option::Some(t)) => {
            let s2 = if z < t {
                cutting_step(s1, p, z)
            } else {
                s1
            };
            if z >= t {
                let clr = (z - t) as i128;
                let tm = match s2.traverse_min {
                    Option::None => clr,
                    Option::Some(cur) => if clr < cur {
                        clr
                    } else {
                        cur
                    },
                };
                StateModel { traverse_min: Option::Some(tm), ..s2 }
            } else {
                s2
            }
        },
        _ => s1,
    }
}

/// The state after one annotation line: the first non-empty coordinate
/// triple becomes the material size, and a tool-change declaration moves
/// the tool context. A change to a drill while an endmill was active
/// latches the order-of-operations outcome to `Warning`.
pub open spec fn annotation_step(s: StateModel, line: Seq<u8>) -> StateModel {
    let p = line_point(line);
    let s1 = if point_is_empty(s.material) && !point_is_empty(p) {
        StateModel { material: p, ..s }
    } else {
        s
    };
    if declares_drill(line) {
        let s2 = if s1.tool is Endmill {
            StateModel {
                order_of_op: OutcomeModel {
                    name: s1.order_of_op.name,
                    status: Status::Warning,
                    message: order_warning_message(),
                },
                ..s1
            }
        } else {
            s1
        };
        StateModel { tool: Tool::Drill(tool_size(line)), ..s2 }
    } else if declares_endmill(line) {
        StateModel { tool: Tool::Endmill(tool_size(line)), ..s1 }
    } else {
        s1
    }
}

/// The state after one line of any kind.
pub open spec fn step_line(s: StateModel, line: Seq<u8>) -> StateModel {
    if is_motion_line(line) {
        motion_step(s, line)
    } else if is_annotation_line(line) {
        annotation_step(s, line)
    } else {
        s
    }
}

/// The state after scanning a sequence of lines in order.
pub open spec fn scan_lines(s: StateModel, lines: Seq<Seq<u8>>) -> StateModel
    decreases lines.len(),
{
    if lines.len() == 0 {
        s
    } else {
        step_line(scan_lines(s, lines.drop_last()), lines.last())
    }
}

/// The aggregated scan state.
pub struct ScanState {
    pub tool: Tool,
    pub min: Point,
    pub max: Point,
    pub cut_min: Point,
    pub traverse_min: Option<i128>,
    pub material: Point,
    pub heights: PassHistogram,
    pub holes: HoleSet,
    pub endmill_path: Outcome,
    pub order_of_op: Outcome,
}

impl View for ScanState {
    type V = StateModel;

    open spec fn view(&self) -> StateModel {
        StateModel {
            tool: self.tool,
            min: self.min,
            max: self.max,
            cut_min: self.cut_min,
            traverse_min: self.traverse_min,
            material: self.material,
            heights: self.heights@,
            holes: self.holes@,
            endmill_path: self.endmill_path@,
            order_of_op: self.order_of_op@,
        }
    }
}

/// The message of the latched endmill-path outcome after a collision.
fn collision_message_exec(x: i64, y: i64) -> (r: String)
    ensures
        r@ == collision_message(x, y),
{
    let mut s = String::from_str("endmill may collide with drilled hole at (");
    let xs = fixed_i64_string(x);
    s.append(xs.as_str());
    s.append(",");
    let ys = fixed_i64_string(y);
    s.append(ys.as_str());
    s.append(")");
    proof {
        assert(s@ =~= collision_message(x, y));
    }
    s
}

impl ScanState {
    /// The state at scan start.
    pub fn init() -> (r: ScanState)
        ensures
            r@ == init_state(),
    {
        ScanState {
            tool: Tool::Unknown,
            min: Point::empty(),
            max: Point::empty(),
            cut_min: Point::empty(),
            traverse_min: Option::None,
            material: Point::empty(),
            heights: PassHistogram::new(),
            holes: HoleSet::new(),
            endmill_path: Outcome::new_full(
                "Endmill Path",
                Status::Pass,
                String::from_str("endmill does not collide with any preexisting holes"),
            ),
            order_of_op: Outcome::new_full(
                "Order of Operations",
                Status::Pass,
                String::from_str("no drill path after endmill path"),
            ),
        }
    }

    /// Update the state by one line of the program.
    pub fn step(&mut self, line: &Vec<u8>)
        ensures
            final(self)@ == step_line(old(self)@, line@),
    {
        let ghost s0 = self@;
        if is_motion(line) {
            let p = Point::from_line(line);
            self.min = self.min.min(p);
            self.max = self.max.max(p);
            let ghost s1 = StateModel { min: point_min(s0.min, p), max: point_max(s0.max, p), ..s0 };
            proof {
                assert(self@ == s1);
            }
            match (p.z, self.material.z) {
                (Option::Some(z), Option::Some(t)) => {
                    if z < t {
                        self.cut_min = self.cut_min.min(p);
                        let ghost sc = StateModel { cut_min: point_min(s1.cut_min, p), ..s1 };
                        match self.tool {
                            Tool::Endmill(size) => {
                                let key = div_trunc_1000(z);
                                self.heights.record(key);
                                let ghost s2 = StateModel {
                                    heights: hist_record(sc.heights, key),
                                    ..sc
                                };
                                proof {
                                    assert(self@ == s2);
                                }
                                match (size, p.x, p.y) {
                                    (Option::Some(sz), Option::Some(x), Option::Some(y)) => {
                                        if self.holes.collides(x, y, sz) {
                                            let msg = collision_message_exec(x, y);
                                            self.endmill_path = Outcome {
                                                name: self.endmill_path.name.clone(),
                                                status: Status::Fail,
                                                message: msg,
                                            };
                                        }
                                    },
                                    _ => {},
                                }
                                proof {
                                    assert(self@ == cutting_step(s1, p, z));
                                }
                            },
                            Tool::Drill(_) => {
                                match (p.x, p.y) {
                                    (Option::Some(x), Option::Some(y)) => {
                                        let qx = div_trunc_1000(x);
                                        let qy = div_trunc_1000(y);
                                        self.holes.insert((qx, qy));
                                    },
                                    _ => {},
                                }
                                proof {
                                    assert(self@ == cutting_step(s1, p, z));
                                }
                            },
                            Tool::Unknown => {
                                proof {
                                    assert(self@ == cutting_step(s1, p, z));
                                }
                            },
                        }
                    }
                    if z >= t {
                        let clr: i128 = (z as i128) - (t as i128);
                        let tm: i128 = match self.traverse_min {
                            Option::None => clr,
                            Option::Some(cur) => if clr < cur {
                                clr
                            } else {
                                cur
                            },
                        };
                        self.traverse_min = Option::Some(tm);
                    }
                    proof {
                        assert(self@ == motion_step(s0, line@));
                    }
                },
                _ => {
                    proof {
                        assert(self@ == motion_step(s0, line@));
                    }
                },
            }
        } else if is_annotation(line) {
            let p = Point::from_line(line);
            if self.material.is_empty() && !p.is_empty() {
                self.material = p;
            }
            let ghost s1 = if point_is_empty(s0.material) && !point_is_empty(line_point(line@)) {
                StateModel { material: line_point(line@), ..s0 }
            } else {
                s0
            };
            proof {
                assert(self@ == s1);
            }
            if has_drill_decl(line) {
                match self.tool {
                    Tool::Endmill(_) => {
                        self.order_of_op = Outcome {
                            name: self.order_of_op.name.clone(),
                            status: Status::Warning,
                            message: String::from_str(
                                "drilling after endmilling detected. Please check order of operations",
                            ),
                        };
                    },
                    _ => {},
                }
                let size = get_tool_size(line);
                self.tool = Tool::Drill(size);
                proof {
                    assert(self@ == annotation_step(s0, line@));
                }
            } else if has_endmill_decl(line) {
                let size = get_tool_size(line);
                self.tool = Tool::Endmill(size);
                proof {
                    assert(self@ == annotation_step(s0, line@));
                }
            }
            proof {
                assert(self@ == annotation_step(s0, line@));
            }
        }
        proof {
            assert(self@ == step_line(s0, line@));
        }
    }

    /// The state after scanning all lines in order, starting from the
    /// initial state.
    pub fn scan(lines: &Vec<Vec<u8>>) -> (r: ScanState)
        ensures
            r@ == scan_lines(init_state(), lines.deep_view()),
    {
        let mut st = ScanState::init();
        let n = lines.len();
        let mut i: usize = 0;
        while i < n
            invariant
                i <= n,
                n == lines@.len(),
                st@ == scan_lines(init_state(), lines.deep_view().take(i as int)),
            decreases n - i,
        {
            st.step(&lines[i]);
            proof {
                let dv = lines.deep_view();
                assert(lines@[i as int].deep_view() =~= lines@[i as int]@);
                assert(dv[i as int] == lines@[i as int]@);
                assert(dv.take(i as int + 1).drop_last() =~~= dv.take(i as int));
                assert(dv.take(i as int + 1).last() == dv[i as int]);
            }
            i = i + 1;
        }
        proof {
            assert(lines.deep_view().take(n as int) =~~= lines.deep_view());
        }
        st
    }
}


/// Every traversal clearance the scan records is a difference of two
/// fixed-point `i64` values, so its magnitude fits in a `u64`.
pub open spec fn state_wf(s: StateModel) -> bool {
    match s.traverse_min {
        Option::None => true,
        Option::Some(v) => -0xffffffffffffffff <= v <= 0xffffffffffffffff,
    }
}

/// One line keeps the traversal clearance within its range.
pub proof fn lemma_step_wf(s: StateModel, line: Seq<u8>)
    requires
        state_wf(s),
    ensures
        state_wf(step_line(s, line)),
{
    if is_motion_line(line) {
        let p = line_point(line);
        let s1 = StateModel { min: point_min(s.min, p), max: point_max(s.max, p), ..s };
        match (p.z, s1.material.z) {
            (Option::Some(z), Option::Some(t)) => {
                if z < t {
                    assert(cutting_step(s1, p, z).traverse_min == s1.traverse_min);
                }
            },
            _ => {},
        }
    }
}

/// A whole scan keeps the traversal clearance within its range.
pub proof fn lemma_scan_wf(lines: Seq<Seq<u8>>)
    ensures
        state_wf(scan_lines(init_state(), lines)),
    decreases lines.len(),
{
    if lines.len() > 0 {
        lemma_scan_wf(lines.drop_last());
        lemma_step_wf(scan_lines(init_state(), lines.drop_last()), lines.last());
    }
}


/// The axis of a point named by the axis letter.
pub open spec fn point_axis(p: Point, axis: u8) -> Option<i64> {
    if axis == ('X' as u8) {
        p.x
    } else if axis == ('Y' as u8) {
        p.y
    } else {
        p.z
    }
}

/// A running minimum has tightened: once known it stays known and never
/// increases.
pub open spec fn min_tightened(before: Option<i64>, after: Option<i64>) -> bool {
    match before {
        Option::None => true,
        Option::Some(a) => match after {
            Option::None => false,
            Option::Some(b) => b <= a,
        },
    }
}

/// A running maximum has tightened: once known it stays known and never
/// decreases.
pub open spec fn max_tightened(before: Option<i64>, after: Option<i64>) -> bool {
    match before {
        Option::None => true,
        Option::Some(a) => match after {
            Option::None => false,
            Option::Some(b) => b >= a,
        },
    }
}

/// Law: over any one line, the running minimum never increases and the
/// running maximum never decreases, on each axis independently, and a
/// known axis never becomes unknown.
pub proof fn lemma_extrema_monotone(s: StateModel, line: Seq<u8>)
    ensures
        min_tightened(s.min.x, step_line(s, line).min.x),
        min_tightened(s.min.y, step_line(s, line).min.y),
        min_tightened(s.min.z, step_line(s, line).min.z),
        max_tightened(s.max.x, step_line(s, line).max.x),
        max_tightened(s.max.y, step_line(s, line).max.y),
        max_tightened(s.max.z, step_line(s, line).max.z),
{
    if is_motion_line(line) {
        let p = line_point(line);
        let s1 = StateModel { min: point_min(s.min, p), max: point_max(s.max, p), ..s };
        assert(step_line(s, line).min == s1.min && step_line(s, line).max == s1.max) by {
            match (p.z, s1.material.z) {
                (Option::Some(z), Option::Some(t)) => {
                    if z < t {
                        assert(cutting_step(s1, p, z).min == s1.min
                            && cutting_step(s1, p, z).max == s1.max);
                    }
                },
                _ => {},
            }
        }
    }
}

/// Law: over a whole scan, the running extrema tighten from each prefix of
/// the program to the next.
pub proof fn lemma_extrema_monotone_scan(lines: Seq<Seq<u8>>, i: int)
    requires
        0 <= i < lines.len(),
    ensures
        ({
            let before = scan_lines(init_state(), lines.take(i));
            let after = scan_lines(init_state(), lines.take(i + 1));
            &&& min_tightened(before.min.x, after.min.x)
            &&& min_tightened(before.min.y, after.min.y)
            &&& min_tightened(before.min.z, after.min.z)
            &&& max_tightened(before.max.x, after.max.x)
            &&& max_tightened(before.max.y, after.max.y)
            &&& max_tightened(before.max.z, after.max.z)
        }),
{
    assert(lines.take(i + 1).drop_last() =~~= lines.take(i));
    assert(lines.take(i + 1).last() == lines[i]);
    lemma_extrema_monotone(scan_lines(init_state(), lines.take(i)), lines[i]);
}

/// Law: an axis that no line of the program mentions reports "unknown" in
/// both running extrema at the end of the scan, never zero.
pub proof fn lemma_axis_never_seen(lines: Seq<Seq<u8>>, axis: u8)
    requires
        axis == ('X' as u8) || axis == ('Y' as u8) || axis == ('Z' as u8),
        forall|i: int|
            0 <= i < lines.len() ==> crate::parse::axis_value(#[trigger] lines[i], axis) is None,
    ensures
        point_axis(scan_lines(init_state(), lines).min, axis) is None,
        point_axis(scan_lines(init_state(), lines).max, axis) is None,
    decreases lines.len(),
{
    if lines.len() > 0 {
        lemma_axis_never_seen(lines.drop_last(), axis);
        let s = scan_lines(init_state(), lines.drop_last());
        let line = lines.last();
        assert(crate::parse::axis_value(line, axis) is None);
        if is_motion_line(line) {
            let p = line_point(line);
            assert(point_axis(p, axis) is None);
            let s1 = StateModel { min: point_min(s.min, p), max: point_max(s.max, p), ..s };
            assert(point_axis(s1.min, axis) is None && point_axis(s1.max, axis) is None);
            assert(step_line(s, line).min == s1.min && step_line(s, line).max == s1.max) by {
                match (p.z, s1.material.z) {
                    (Option::Some(z), Option::Some(t)) => {
                        if z < t {
                            assert(cutting_step(s1, p, z).min == s1.min
                                && cutting_step(s1, p, z).max == s1.max);
                        }
                    },
                    _ => {},
                }
            }
        }
    }
}

} // verus!
