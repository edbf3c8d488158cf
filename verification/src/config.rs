//! Configuration thresholds.
//!
//! A fixed set of named thresholds, each a fixed-point number (see `num`)
//! with a default. User configuration text may override any of them:
//! a line that is not a comment and whose key (the text before the first
//! space, `=` or colon) names a threshold replaces that threshold with the
//! first number found on the line. Unrecognized keys are ignored, and
//! thresholds the text does not mention keep their defaults.

use vstd::prelude::*;

use crate::num::{clamp64, SCALE};
use crate::parse::{is_digit, spec_lines, split_lines};

verus! {

/// The configuration thresholds, in fixed-point units.
#[derive(Clone, Copy, Debug, PartialEq, Eq, Structural)]
pub struct Config {
    pub machine_size_x: i64,
    pub machine_size_y: i64,
    pub min_passes: i64,
    pub max_passes: i64,
    pub depth_threshold: i64,
    pub min_offset: i64,
    pub max_offset: i64,
    pub warn_safe_height: i64,
    pub fail_safe_height: i64,
    pub pass_frequency_threshold: i64,
}

/// The default thresholds: machine area 24 by 48 inches, two to six
/// passes, depth allowance 0.0625, offsets between -0.2 and 0.75,
/// safe-height warning at 0.15 and failure at 0.1, and at least 20 lines
/// per genuine pass.
pub open spec fn default_config() -> Config {
    Config {
        machine_size_x: 24000000,
        machine_size_y: 48000000,
        min_passes: 2000000,
        max_passes: 6000000,
        depth_threshold: 62500,
        min_offset: -200000i64,
        max_offset: 750000,
        warn_safe_height: 150000,
        fail_safe_height: 100000,
        pass_frequency_threshold: 20000000,
    }
}

impl Default for Config {
    /// The default thresholds.
    fn default() -> (r: Config)
        ensures
            r == default_config(),
    {
        Config {
            machine_size_x: 24000000,
            machine_size_y: 48000000,
            min_passes: 2000000,
            max_passes: 6000000,
            depth_threshold: 62500,
            min_offset: -200000i64,
            max_offset: 750000,
            warn_safe_height: 150000,
            fail_safe_height: 100000,
            pass_frequency_threshold: 20000000,
        }
    }
}

/// A fixed-point threshold read as a count: negative values count as zero,
/// and the fractional part is dropped.
pub open spec fn to_count(v: i64) -> u64 {
    if v <= 0 {
        0
    } else {
        (v / (SCALE as i64)) as u64
    }
}

/// A fixed-point threshold read as a count, per `to_count`.
pub fn to_count_exec(v: i64) -> (r: u64)
    ensures
        r == to_count(v),
{
    if v <= 0 {
        0
    } else {
        (v as u64) / 1000000
    }
}

/// An ASCII whitespace byte, as trimming a key treats it.
pub open spec fn is_ws(c: u8) -> bool {
    c == 9 || c == 10 || c == 11 || c == 12 || c == 13 || c == 32
}

/// A byte that ends the key segment of a configuration line.
pub open spec fn is_key_delim(c: u8) -> bool {
    c == (' ' as u8) || c == ('=' as u8) || c == (':' as u8)
}

/// End of the key segment starting at `i`: the first space, `=` or colon,
/// or the end of the line.
pub open spec fn key_end(line: Seq<u8>, i: int) -> int
    decreases line.len() - i,
{
    if 0 <= i && i < line.len() && !is_key_delim(line[i]) {
        key_end(line, i + 1)
    } else {
        i
    }
}

/// First index at or after `i` holding a byte that is not whitespace.
pub open spec fn trim_start(s: Seq<u8>, i: int) -> int
    decreases s.len() - i,
{
    if 0 <= i && i < s.len() && is_ws(s[i]) {
        trim_start(s, i + 1)
    } else {
        i
    }
}

/// One past the last byte before `j` that is not whitespace.
pub open spec fn trim_end(s: Seq<u8>, j: int) -> int
    decreases j,
{
    if 0 < j && j <= s.len() && is_ws(s[j - 1]) {
        trim_end(s, j - 1)
    } else {
        j
    }
}

/// The segment with leading and trailing ASCII whitespace removed.
pub open spec fn trimmed(s: Seq<u8>) -> Seq<u8> {
    let a = trim_start(s, 0);
    let b = trim_end(s, s.len() as int);
    if 0 <= a && a <= b && b <= s.len() {
        s.subrange(a, b)
    } else {
        Seq::<u8>::empty()
    }
}

/// A configuration number token (`-?[0-9]+\.?[0-9]*`) starts at `p`: an
/// optional sign, then at least one integer digit.
pub open spec fn cfg_num_match_at(line: Seq<u8>, p: int) -> bool {
    let q = if 0 <= p < line.len() && line[p] == ('-' as u8) {
        p + 1
    } else {
        p
    };
    0 <= q < line.len() && is_digit(line[q])
}

/// The value of the first configuration number token in the line. Its
/// value rules are those of `crate::parse::num_value_at`: an empty or
/// absent fractional part contributes zero either way.
pub open spec fn cfg_find_num_from(line: Seq<u8>, p: int) -> Option<int>
    decreases line.len() - p,
{
    if p >= line.len() {
        Option::None
    } else if cfg_num_match_at(line, p) {
        Option::Some(crate::parse::num_value_at(line, p))
    } else {
        cfg_find_num_from(line, p + 1)
    }
}

/// The threshold name `MACHINE_SIZE_X` as bytes.
pub open spec fn key_machine_size_x() -> Seq<u8> {
    seq![('M' as u8), ('A' as u8), ('C' as u8), ('H' as u8), ('I' as u8), ('N' as u8), ('E' as u8), ('_' as u8), ('S' as u8), ('I' as u8), ('Z' as u8), ('E' as u8), ('_' as u8), ('X' as u8)]
}

/// The threshold name `MACHINE_SIZE_Y` as bytes.
pub open spec fn key_machine_size_y() -> Seq<u8> {
    seq![('M' as u8), ('A' as u8), ('C' as u8), ('H' as u8), ('I' as u8), ('N' as u8), ('E' as u8), ('_' as u8), ('S' as u8), ('I' as u8), ('Z' as u8), ('E' as u8), ('_' as u8), ('Y' as u8)]
}

/// The threshold name `MIN_PASSES` as bytes.
pub open spec fn key_min_passes() -> Seq<u8> {
    seq![('M' as u8), ('I' as u8), ('N' as u8), ('_' as u8), ('P' as u8), ('A' as u8), ('S' as u8), ('S' as u8), ('E' as u8), ('S' as u8)]
}

/// The threshold name `MAX_PASSES` as bytes.
pub open spec fn key_max_passes() -> Seq<u8> {
    seq![('M' as u8), ('A' as u8), ('X' as u8), ('_' as u8), ('P' as u8), ('A' as u8), ('S' as u8), ('S' as u8), ('E' as u8), ('S' as u8)]
}

/// The threshold name `DEPTH_THRESHOLD` as bytes.
pub open spec fn key_depth_threshold() -> Seq<u8> {
    seq![('D' as u8), ('E' as u8), ('P' as u8), ('T' as u8), ('H' as u8), ('_' as u8), ('T' as u8), ('H' as u8), ('R' as u8), ('E' as u8), ('S' as u8), ('H' as u8), ('O' as u8), ('L' as u8), ('D' as u8)]
}

/// The threshold name `MIN_OFFSET` as bytes.
pub open spec fn key_min_offset() -> Seq<u8> {
    seq![('M' as u8), ('I' as u8), ('N' as u8), ('_' as u8), ('O' as u8), ('F' as u8), ('F' as u8), ('S' as u8), ('E' as u8), ('T' as u8)]
}

/// The threshold name `MAX_OFFSET` as bytes.
pub open spec fn key_max_offset() -> Seq<u8> {
    seq![('M' as u8), ('A' as u8), ('X' as u8), ('_' as u8), ('O' as u8), ('F' as u8), ('F' as u8), ('S' as u8), ('E' as u8), ('T' as u8)]
}

/// The threshold name `WARN_SAFE_HEIGHT` as bytes.
pub open spec fn key_warn_safe_height() -> Seq<u8> {
    seq![('W' as u8), ('A' as u8), ('R' as u8), ('N' as u8), ('_' as u8), ('S' as u8), ('A' as u8), ('F' as u8), ('E' as u8), ('_' as u8), ('H' as u8), ('E' as u8), ('I' as u8), ('G' as u8), ('H' as u8), ('T' as u8)]
}

/// The threshold name `FAIL_SAFE_HEIGHT` as bytes.
pub open spec fn key_fail_safe_height() -> Seq<u8> {
    seq![('F' as u8), ('A' as u8), ('I' as u8), ('L' as u8), ('_' as u8), ('S' as u8), ('A' as u8), ('F' as u8), ('E' as u8), ('_' as u8), ('H' as u8), ('E' as u8), ('I' as u8), ('G' as u8), ('H' as u8), ('T' as u8)]
}

/// The threshold name `PASS_FREQUENCY_THRESHOLD` as bytes.
pub open spec fn key_pass_frequency_threshold() -> Seq<u8> {
    seq![('P' as u8), ('A' as u8), ('S' as u8), ('S' as u8), ('_' as u8), ('F' as u8), ('R' as u8), ('E' as u8), ('Q' as u8), ('U' as u8), ('E' as u8), ('N' as u8), ('C' as u8), ('Y' as u8), ('_' as u8), ('T' as u8), ('H' as u8), ('R' as u8), ('E' as u8), ('S' as u8), ('H' as u8), ('O' as u8), ('L' as u8), ('D' as u8)]
}

/// The configuration with the named threshold replaced; an unrecognized
/// key leaves it unchanged.
pub open spec fn set_threshold(c: Config, key: Seq<u8>, v: i64) -> Config {
    if key == key_machine_size_x() {
        Config { machine_size_x: v, ..c }
    } else if key == key_machine_size_y() {
        Config { machine_size_y: v, ..c }
    } else if key == key_min_passes() {
        Config { min_passes: v, ..c }
    } else if key == key_max_passes() {
        Config { max_passes: v, ..c }
    } else if key == key_depth_threshold() {
        Config { depth_threshold: v, ..c }
    } else if key == key_min_offset() {
        Config { min_offset: v, ..c }
    } else if key == key_max_offset() {
        Config { max_offset: v, ..c }
    } else if key == key_warn_safe_height() {
        Config { warn_safe_height: v, ..c }
    } else if key == key_fail_safe_height() {
        Config { fail_safe_height: v, ..c }
    } else if key == key_pass_frequency_threshold() {
        Config { pass_frequency_threshold: v, ..c }
    } else {
        c
    }
}

/// The comment marker `//`.
pub open spec fn tok_slashes() -> Seq<u8> {
    seq![('/' as u8), ('/' as u8)]
}

/// The comment marker `#`.
pub open spec fn tok_hash() -> Seq<u8> {
    seq![('#' as u8)]
}

/// One configuration line applied to the thresholds: comment lines change
/// nothing; otherwise, when the trimmed key segment names a threshold and
/// a number token occurs anywhere on the line, that threshold becomes the
/// first such number, clamped into the fixed-point range.
pub open spec fn apply_config_line(c: Config, line: Seq<u8>) -> Config {
    if crate::parse::token_at(line, 0, tok_slashes()) || crate::parse::token_at(
        line,
        0,
        tok_hash(),
    ) {
        c
    } else {
        let key = trimmed(line.subrange(0, key_end(line, 0)));
        match cfg_find_num_from(line, 0) {
            Option::None => c,
            Option::Some(v) => set_threshold(c, key, clamp64(v)),
        }
    }
}

/// A whole configuration text applied to the thresholds, line by line.
pub open spec fn apply_config_lines(c: Config, lines: Seq<Seq<u8>>) -> Config
    decreases lines.len(),
{
    if lines.len() == 0 {
        c
    } else {
        apply_config_line(apply_config_lines(c, lines.drop_last()), lines.last())
    }
}

/// The thresholds that a configuration text yields, starting from the
/// defaults.
pub open spec fn config_from_text(text: Seq<u8>) -> Config {
    apply_config_lines(default_config(), spec_lines(text))
}

/// End of the key segment starting at `i`.
fn key_end_exec(line: &Vec<u8>, i: usize) -> (j: usize)
    requires
        i <= line@.len(),
    ensures
        j == key_end(line@, i as int),
        i <= j <= line@.len(),
{
    let mut j = i;
    while j < line.len() && !(line[j] == (' ' as u8) || line[j] == ('=' as u8) || line[j] == (':'
        as u8))
        invariant
            i <= j <= line@.len(),
            key_end(line@, i as int) == key_end(line@, j as int),
        decreases line@.len() - j,
    {
        j = j + 1;
    }
    j
}


/// Whether the byte is ASCII whitespace, per `is_ws`.
fn is_ws_exec(c: u8) -> (r: bool)
    ensures
        r == is_ws(c),
{
    c == 9 || c == 10 || c == 11 || c == 12 || c == 13 || c == 32
}

/// First index at or after `i` holding a byte that is not whitespace.
fn trim_start_exec(line: &Vec<u8>, i: usize) -> (j: usize)
    requires
        i <= line@.len(),
    ensures
        j == trim_start(line@, i as int),
        i <= j <= line@.len(),
{
    let mut j = i;
    while j < line.len() && is_ws_exec(line[j])
        invariant
            i <= j <= line@.len(),
            trim_start(line@, i as int) == trim_start(line@, j as int),
        decreases line@.len() - j,
    {
        j = j + 1;
    }
    j
}

/// One past the last byte before `j` that is not whitespace.
fn trim_end_exec(line: &Vec<u8>, j: usize) -> (r: usize)
    requires
        j <= line@.len(),
    ensures
        r == trim_end(line@, j as int),
        r <= j,
{
    let mut r = j;
    while r > 0 && is_ws_exec(line[r - 1])
        invariant
            r <= j <= line@.len(),
            trim_end(line@, j as int) == trim_end(line@, r as int),
        decreases r,
    {
        r = r - 1;
    }
    r
}

/// The bytes `line[a..b)` as a fresh vector.
fn copy_range(line: &Vec<u8>, a: usize, b: usize) -> (r: Vec<u8>)
    requires
        a <= b <= line@.len(),
    ensures
        r@ == line@.subrange(a as int, b as int),
{
    let mut r: Vec<u8> = Vec::new();
    let mut k = a;
    while k < b
        invariant
            a <= k <= b <= line@.len(),
            r@ == line@.subrange(a as int, k as int),
        decreases b - k,
    {
        let c = line[k];
        r.push(c);
        proof {
            assert(r@ =~= line@.subrange(a as int, k as int + 1));
        }
        k = k + 1;
    }
    r
}

/// Whether two byte vectors hold the same bytes.
fn eq_bytes(a: &Vec<u8>, b: &Vec<u8>) -> (r: bool)
    ensures
        r == (a@ == b@),
{
    if a.len() != b.len() {
        return false;
    }
    let n = a.len();
    let mut k: usize = 0;
    while k < n
        invariant
            k <= n,
            n == a@.len() == b@.len(),
            forall|m: int| 0 <= m < k ==> a@[m] == #[trigger] b@[m],
        decreases n - k,
    {
        if a[k] != b[k] {
            return false;
        }
        k = k + 1;
    }
    proof {
        assert(a@ =~= b@);
    }
    true
}

fn key_machine_size_x_vec() -> (v: Vec<u8>)
    ensures
        v@ == key_machine_size_x(),
{
    let mut v: Vec<u8> = Vec::new();
    v.push('M' as u8);
    v.push('A' as u8);
    v.push('C' as u8);
    v.push('H' as u8);
    v.push('I' as u8);
    v.push('N' as u8);
    v.push('E' as u8);
    v.push('_' as u8);
    v.push('S' as u8);
    v.push('I' as u8);
    v.push('Z' as u8);
    v.push('E' as u8);
    v.push('_' as u8);
    v.push('X' as u8);
    proof {
        assert(v@ =~= key_machine_size_x());
    }
    v
}

fn key_machine_size_y_vec() -> (v: Vec<u8>)
    ensures
        v@ == key_machine_size_y(),
{
    let mut v: Vec<u8> = Vec::new();
    v.push('M' as u8);
    v.push('A' as u8);
    v.push('C' as u8);
    v.push('H' as u8);
    v.push('I' as u8);
    v.push('N' as u8);
    v.push('E' as u8);
    v.push('_' as u8);
    v.push('S' as u8);
    v.push('I' as u8);
    v.push('Z' as u8);
    v.push('E' as u8);
    v.push('_' as u8);
    v.push('Y' as u8);
    proof {
        assert(v@ =~= key_machine_size_y());
    }
    v
}

fn key_min_passes_vec() -> (v: Vec<u8>)
    ensures
        v@ == key_min_passes(),
{
    let mut v: Vec<u8> = Vec::new();
    v.push('M' as u8);
    v.push('I' as u8);
    v.push('N' as u8);
    v.push('_' as u8);
    v.push('P' as u8);
    v.push('A' as u8);
    v.push('S' as u8);
    v.push('S' as u8);
    v.push('E' as u8);
    v.push('S' as u8);
    proof {
        assert(v@ =~= key_min_passes());
    }
    v
}

fn key_max_passes_vec() -> (v: Vec<u8>)
    ensures
        v@ == key_max_passes(),
{
    let mut v: Vec<u8> = Vec::new();
    v.push('M' as u8);
    v.push('A' as u8);
    v.push('X' as u8);
    v.push('_' as u8);
    v.push('P' as u8);
    v.push('A' as u8);
    v.push('S' as u8);
    v.push('S' as u8);
    v.push('E' as u8);
    v.push('S' as u8);
    proof {
        assert(v@ =~= key_max_passes());
    }
    v
}

fn key_depth_threshold_vec() -> (v: Vec<u8>)
    ensures
        v@ == key_depth_threshold(),
{
    let mut v: Vec<u8> = Vec::new();
    v.push('D' as u8);
    v.push('E' as u8);
    v.push('P' as u8);
    v.push('T' as u8);
    v.push('H' as u8);
    v.push('_' as u8);
    v.push('T' as u8);
    v.push('H' as u8);
    v.push('R' as u8);
    v.push('E' as u8);
    v.push('S' as u8);
    v.push('H' as u8);
    v.push('O' as u8);
    v.push('L' as u8);
    v.push('D' as u8);
    proof {
        assert(v@ =~= key_depth_threshold());
    }
    v
}

fn key_min_offset_vec() -> (v: Vec<u8>)
    ensures
        v@ == key_min_offset(),
{
    let mut v: Vec<u8> = Vec::new();
    v.push('M' as u8);
    v.push('I' as u8);
    v.push('N' as u8);
    v.push('_' as u8);
    v.push('O' as u8);
    v.push('F' as u8);
    v.push('F' as u8);
    v.push('S' as u8);
    v.push('E' as u8);
    v.push('T' as u8);
    proof {
        assert(v@ =~= key_min_offset());
    }
    v
}

fn key_max_offset_vec() -> (v: Vec<u8>)
    ensures
        v@ == key_max_offset(),
{
    let mut v: Vec<u8> = Vec::new();
    v.push('M' as u8);
    v.push('A' as u8);
    v.push('X' as u8);
    v.push('_' as u8);
    v.push('O' as u8);
    v.push('F' as u8);
    v.push('F' as u8);
    v.push('S' as u8);
    v.push('E' as u8);
    v.push('T' as u8);
    proof {
        assert(v@ =~= key_max_offset());
    }
    v
}

fn key_warn_safe_height_vec() -> (v: Vec<u8>)
    ensures
        v@ == key_warn_safe_height(),
{
    let mut v: Vec<u8> = Vec::new();
    v.push('W' as u8);
    v.push('A' as u8);
    v.push('R' as u8);
    v.push('N' as u8);
    v.push('_' as u8);
    v.push('S' as u8);
    v.push('A' as u8);
    v.push('F' as u8);
    v.push('E' as u8);
    v.push('_' as u8);
    v.push('H' as u8);
    v.push('E' as u8);
    v.push('I' as u8);
    v.push('G' as u8);
    v.push('H' as u8);
    v.push('T' as u8);
    proof {
        assert(v@ =~= key_warn_safe_height());
    }
    v
}

fn key_fail_safe_height_vec() -> (v: Vec<u8>)
    ensures
        v@ == key_fail_safe_height(),
{
    let mut v: Vec<u8> = Vec::new();
    v.push('F' as u8);
    v.push('A' as u8);
    v.push('I' as u8);
    v.push('L' as u8);
    v.push('_' as u8);
    v.push('S' as u8);
    v.push('A' as u8);
    v.push('F' as u8);
    v.push('E' as u8);
    v.push('_' as u8);
    v.push('H' as u8);
    v.push('E' as u8);
    v.push('I' as u8);
    v.push('G' as u8);
    v.push('H' as u8);
    v.push('T' as u8);
    proof {
        assert(v@ =~= key_fail_safe_height());
    }
    v
}

fn key_pass_frequency_threshold_vec() -> (v: Vec<u8>)
    ensures
        v@ == key_pass_frequency_threshold(),
{
    let mut v: Vec<u8> = Vec::new();
    v.push('P' as u8);
    v.push('A' as u8);
    v.push('S' as u8);
    v.push('S' as u8);
    v.push('_' as u8);
    v.push('F' as u8);
    v.push('R' as u8);
    v.push('E' as u8);
    v.push('Q' as u8);
    v.push('U' as u8);
    v.push('E' as u8);
    v.push('N' as u8);
    v.push('C' as u8);
    v.push('Y' as u8);
    v.push('_' as u8);
    v.push('T' as u8);
    v.push('H' as u8);
    v.push('R' as u8);
    v.push('E' as u8);
    v.push('S' as u8);
    v.push('H' as u8);
    v.push('O' as u8);
    v.push('L' as u8);
    v.push('D' as u8);
    proof {
        assert(v@ =~= key_pass_frequency_threshold());
    }
    v
}

/// The first configuration number token in the line, clamped into the
/// fixed-point range.
fn cfg_find_num(line: &Vec<u8>) -> (r: Option<i64>)
    ensures
        r == crate::parse::opt_clamp(cfg_find_num_from(line@, 0)),
{
    let mut p: usize = 0;
    while p < line.len()
        invariant
            p <= line@.len(),
            cfg_find_num_from(line@, 0) == cfg_find_num_from(line@, p as int),
        decreases line@.len() - p,
    {
        let c = line[p];
        let matched: bool = if c == ('-' as u8) {
            p + 1 < line.len() && ('0' as u8) <= line[p + 1] && line[p + 1] <= ('9' as u8)
        } else {
            ('0' as u8) <= c && c <= ('9' as u8)
        };
        proof {
            assert(matched == cfg_num_match_at(line@, p as int));
        }
        if matched {
            proof {
                assert(crate::parse::num_match_at(line@, p as int));
            }
            let v = crate::parse::num_value_clamped(line, p);
            return Option::Some(v);
        }
        p = p + 1;
    }
    Option::None
}

/// The configuration with the named threshold replaced, per
/// `set_threshold`.
fn set_threshold_exec(c: Config, key: &Vec<u8>, v: i64) -> (r: Config)
    ensures
        r == set_threshold(c, key@, v),
{
    if eq_bytes(key, &key_machine_size_x_vec()) {
        Config { machine_size_x: v, ..c }
    } else if eq_bytes(key, &key_machine_size_y_vec()) {
        Config { machine_size_y: v, ..c }
    } else if eq_bytes(key, &key_min_passes_vec()) {
        Config { min_passes: v, ..c }
    } else if eq_bytes(key, &key_max_passes_vec()) {
        Config { max_passes: v, ..c }
    } else if eq_bytes(key, &key_depth_threshold_vec()) {
        Config { depth_threshold: v, ..c }
    } else if eq_bytes(key, &key_min_offset_vec()) {
        Config { min_offset: v, ..c }
    } else if eq_bytes(key, &key_max_offset_vec()) {
        Config { max_offset: v, ..c }
    } else if eq_bytes(key, &key_warn_safe_height_vec()) {
        Config { warn_safe_height: v, ..c }
    } else if eq_bytes(key, &key_fail_safe_height_vec()) {
        Config { fail_safe_height: v, ..c }
    } else if eq_bytes(key, &key_pass_frequency_threshold_vec()) {
        Config { pass_frequency_threshold: v, ..c }
    } else {
        c
    }
}

/// One configuration line applied to the thresholds, per
/// `apply_config_line`.
fn apply_line(c: Config, line: &Vec<u8>) -> (r: Config)
    ensures
        r == apply_config_line(c, line@),
{
    let n = line.len();
    let comment: bool = (n >= 2 && line[0] == ('/' as u8) && line[1] == ('/' as u8)) || (n >= 1
        && line[0] == ('#' as u8));
    proof {
        if n >= 2 && line@[0] == ('/' as u8) && line@[1] == ('/' as u8) {
            assert(line@.subrange(0, 2) =~= tok_slashes());
        } else if line@.len() >= 2 {
            assert(line@.subrange(0, 2)[0] == line@[0] && line@.subrange(0, 2)[1] == line@[1]);
        }
        if n >= 1 && line@[0] == ('#' as u8) {
            assert(line@.subrange(0, 1) =~= tok_hash());
        } else if line@.len() >= 1 {
            assert(line@.subrange(0, 1)[0] == line@[0]);
        }
        assert(comment == (crate::parse::token_at(line@, 0, tok_slashes())
            || crate::parse::token_at(line@, 0, tok_hash())));
    }
    if comment {
        return c;
    }
    let ke = key_end_exec(line, 0);
    let a = trim_start_exec(line, 0);
    let a2 = if a > ke {
        ke
    } else {
        a
    };
    let b = trim_end_exec(line, ke);
    let key: Vec<u8> = if a2 <= b {
        copy_range(line, a2, b)
    } else {
        Vec::new()
    };
    proof {
        let seg = line@.subrange(0, ke as int);
        lemma_trim_in_segment(line@, ke as int);
        assert(key@ =~= trimmed(seg));
    }
    match cfg_find_num(line) {
        Option::Some(v) => set_threshold_exec(c, &key, v),
        Option::None => c,
    }
}

/// Trimming the key segment of a line can be done on the line itself:
/// the segment's leading-whitespace scan agrees with the line's while it
/// stays inside the segment, and its trailing scan agrees outright.
proof fn lemma_trim_in_segment(line: Seq<u8>, ke: int)
    requires
        ke == key_end(line, 0),
        0 <= ke <= line.len(),
    ensures
        trim_end(line.subrange(0, ke), ke) == trim_end(line, ke),
        trim_start(line.subrange(0, ke), 0) == if trim_start(line, 0) > ke {
            ke
        } else {
            trim_start(line, 0)
        },
{
    let seg = line.subrange(0, ke);
    lemma_trim_end_agrees(line, seg, ke);
    lemma_trim_start_agrees(line, seg, 0, ke);
}

proof fn lemma_trim_end_agrees(line: Seq<u8>, seg: Seq<u8>, j: int)
    requires
        seg.len() <= line.len(),
        0 <= j <= seg.len(),
        seg == line.subrange(0, seg.len() as int),
    ensures
        trim_end(seg, j) == trim_end(line, j),
    decreases j,
{
    if 0 < j && is_ws(seg[j - 1]) {
        lemma_trim_end_agrees(line, seg, j - 1);
    }
}

proof fn lemma_trim_start_agrees(line: Seq<u8>, seg: Seq<u8>, i: int, ke: int)
    requires
        ke == seg.len(),
        ke <= line.len(),
        seg == line.subrange(0, ke),
        0 <= i <= ke,
    ensures
        trim_start(seg, i) == if trim_start(line, i) > ke {
            ke
        } else {
            trim_start(line, i)
        },
    decreases ke - i,
{
    if i < ke && is_ws(seg[i]) {
        lemma_trim_start_agrees(line, seg, i + 1, ke);
    } else {
        if i < ke {
            assert(seg[i] == line[i]);
        }
        lemma_trim_start_ge(line, i);
    }
}

proof fn lemma_trim_start_ge(s: Seq<u8>, i: int)
    ensures
        trim_start(s, i) >= i,
    decreases s.len() - i,
{
    if 0 <= i && i < s.len() && is_ws(s[i]) {
        lemma_trim_start_ge(s, i + 1);
    }
}

/// The thresholds that a configuration text yields, per
/// `config_from_text`: the defaults, with every recognized assignment in
/// the text applied in order.
pub fn parse_config(text: &Vec<u8>) -> (c: Config)
    ensures
        c == config_from_text(text@),
{
    let lines = split_lines(text);
    let mut c = Config::default();
    let n = lines.len();
    let mut i: usize = 0;
    while i < n
        invariant
            i <= n,
            n == lines@.len(),
            c == apply_config_lines(default_config(), lines.deep_view().take(i as int)),
        decreases n - i,
    {
        c = apply_line(c, &lines[i]);
        proof {
            let dv = lines.deep_view();
            assert(lines@[i as int].deep_view() =~= lines@[i as int]@);
            assert(dv[i as int] == lines@[i as int]@);
            assert(dv.take(i as int + 1).drop_last() =~~= dv.take(i as int));
            assert(dv.take(i as int + 1).last() == dv[i as int]);
        }
        i = i + 1;
    }
    proof {
        assert(lines.deep_view().take(n as int) =~~= lines.deep_view());
    }
    c
}

} // verus!
