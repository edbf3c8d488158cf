//! Line grammar of the toolpath text.
//!
//! A program is free-form text, one statement per line. Three
//! classification rules apply to a line: it is a *motion line* if it
//! contains a rapid or linear move token (`G0` or `G1`); otherwise it is an
//! *annotation line* if it contains both an opening and a closing
//! parenthesis; all other lines are ignored.
//!
//! From a line, each axis is extracted independently: the first occurrence
//! of the axis letter, optionally followed by `=` or spaces, then a signed
//! decimal number with at least one integer digit and a decimal point. A
//! tool diameter is extracted from a brace-delimited token holding a
//! decimal number followed by an inch mark (`"`), or by the unit `mm`,
//! converted to inches.
//!
//! Numbers are read into the crate's fixed-point representation exactly:
//! the first six fractional digits are kept, further fractional digits are
//! ignored, and a value outside the `i64` range is clamped to it.

use vstd::prelude::*;

use crate::num::{clamp64, div_trunc};
use crate::point::Point;

verus! {

/// True for an ASCII decimal digit.
pub open spec fn is_digit(c: u8) -> bool {
    ('0' as u8) <= c && c <= ('9' as u8)
}

/// End of the run of `=` and space bytes starting at `i`.
pub open spec fn skip_assign(line: Seq<u8>, i: int) -> int
    decreases line.len() - i,
{
    if 0 <= i && i < line.len() && (line[i] == ('=' as u8) || line[i] == (' ' as u8)) {
        skip_assign(line, i + 1)
    } else {
        i
    }
}

/// End of the run of digit bytes starting at `i`.
pub open spec fn digit_end(line: Seq<u8>, i: int) -> int
    decreases line.len() - i,
{
    if 0 <= i && i < line.len() && is_digit(line[i]) {
        digit_end(line, i + 1)
    } else {
        i
    }
}

/// End of the run of space bytes starting at `i`.
pub open spec fn space_end(line: Seq<u8>, i: int) -> int
    decreases line.len() - i,
{
    if 0 <= i && i < line.len() && line[i] == (' ' as u8) {
        space_end(line, i + 1)
    } else {
        i
    }
}

/// Value of the decimal digit run `line[i..j)`, read most significant
/// first; zero when the run is empty.
pub open spec fn digits_val(line: Seq<u8>, i: int, j: int) -> int
    decreases j - i,
{
    if i >= j {
        0
    } else {
        digits_val(line, i, j - 1) * 10 + (line[j - 1] - ('0' as u8))
    }
}

/// Ten to the `n`.
pub open spec fn pow10(n: nat) -> int
    decreases n,
{
    if n == 0 {
        1
    } else {
        10 * pow10((n - 1) as nat)
    }
}

/// Value of the fractional digit run `line[i..j)` scaled to six decimal
/// places; digits beyond the sixth are ignored.
pub open spec fn frac_val6(line: Seq<u8>, i: int, j: int) -> int {
    let k = if j > i + 6 {
        i + 6
    } else {
        j
    };
    digits_val(line, i, k) * pow10((6 - (k - i)) as nat)
}

/// The digit run `line[i..j)` is all digits.
pub open spec fn all_digits(line: Seq<u8>, i: int, j: int) -> bool {
    forall|k: int| i <= k < j ==> #[trigger] is_digit(line[k])
}

proof fn lemma_digit_end_props(line: Seq<u8>, i: int)
    requires
        0 <= i <= line.len(),
    ensures
        i <= digit_end(line, i) <= line.len(),
        all_digits(line, i, digit_end(line, i)),
        digit_end(line, i) < line.len() ==> !is_digit(line[digit_end(line, i)]),
    decreases line.len() - i,
{
    if i < line.len() && is_digit(line[i]) {
        lemma_digit_end_props(line, i + 1);
    }
}

proof fn lemma_digits_val_bound(line: Seq<u8>, i: int, j: int)
    requires
        i <= j,
        all_digits(line, i, j),
    ensures
        0 <= digits_val(line, i, j) < pow10((j - i) as nat),
    decreases j - i,
{
    if i < j {
        lemma_digits_val_bound(line, i, j - 1);
        assert(is_digit(line[j - 1]));
        assert(pow10((j - i) as nat) == 10 * pow10((j - i - 1) as nat));
    } else {
        assert(pow10(0) == 1);
    }
}

/// The body of the number token `[0-9]*\.?[0-9]+` can start at `q`: a digit,
/// or a decimal point directly followed by a digit.
pub open spec fn num_match_core(line: Seq<u8>, q: int) -> bool {
    0 <= q < line.len() && (is_digit(line[q]) || (line[q] == ('.' as u8) && q + 1 < line.len()
        && is_digit(line[q + 1])))
}

/// A number token `-?[0-9]*\.?[0-9]+` starts at `p`.
pub open spec fn num_match_at(line: Seq<u8>, p: int) -> bool {
    if 0 <= p < line.len() && line[p] == ('-' as u8) {
        num_match_core(line, p + 1)
    } else {
        num_match_core(line, p)
    }
}

/// The exact value of the number token starting at `p`, as an unbounded
/// fixed-point integer (six decimal places): optional sign, maximal run of
/// integer digits, and, when a decimal point directly followed by a digit
/// comes next, the maximal run of fractional digits.
pub open spec fn num_value_at(line: Seq<u8>, p: int) -> int
    recommends
        num_match_at(line, p),
{
    let neg = 0 <= p < line.len() && line[p] == ('-' as u8);
    let q = if neg {
        p + 1
    } else {
        p
    };
    let e = digit_end(line, q);
    let has_frac = e < line.len() && line[e] == ('.' as u8) && e + 1 < line.len() && is_digit(
        line[e + 1],
    );
    let frac = if has_frac {
        frac_val6(line, e + 1, digit_end(line, e + 1))
    } else {
        0
    };
    let mag = digits_val(line, q, e) * 1000000 + frac;
    if neg {
        -mag
    } else {
        mag
    }
}

/// The value of the first number token at or after position `p`.
pub open spec fn find_num_from(line: Seq<u8>, p: int) -> Option<int>
    decreases line.len() - p,
{
    if p >= line.len() {
        Option::None
    } else if num_match_at(line, p) {
        Option::Some(num_value_at(line, p))
    } else {
        find_num_from(line, p + 1)
    }
}

/// The axis pattern (axis letter, optional `=` and spaces, optional sign, at
/// least one integer digit, then a decimal point) matches at position `i`.
pub open spec fn axis_match_at(line: Seq<u8>, axis: u8, i: int) -> bool {
    &&& 0 <= i < line.len()
    &&& line[i] == axis
    &&& {
        let j = skip_assign(line, i + 1);
        let k = if j < line.len() && line[j] == ('-' as u8) {
            j + 1
        } else {
            j
        };
        &&& k < line.len() && is_digit(line[k])
        &&& {
            let e = digit_end(line, k);
            e < line.len() && line[e] == ('.' as u8)
        }
    }
}

/// The value extracted from an axis match at `i`: the number token that
/// begins right after the axis letter and its `=`/space run.
pub open spec fn axis_value_at(line: Seq<u8>, axis: u8, i: int) -> int
    recommends
        axis_match_at(line, axis, i),
{
    num_value_at(line, skip_assign(line, i + 1))
}

/// The value of the first axis match in the line, if any.
pub open spec fn find_axis_from(line: Seq<u8>, axis: u8, i: int) -> Option<int>
    decreases line.len() - i,
{
    if i >= line.len() {
        Option::None
    } else if axis_match_at(line, axis, i) {
        Option::Some(axis_value_at(line, axis, i))
    } else {
        find_axis_from(line, axis, i + 1)
    }
}

/// The exact value carried by axis `axis` on this line, or `None` when the
/// line does not mention that axis.
pub open spec fn axis_value(line: Seq<u8>, axis: u8) -> Option<int> {
    find_axis_from(line, axis, 0)
}

/// Clamp an exact optional value into the `i64` range.
pub open spec fn opt_clamp(o: Option<int>) -> Option<i64> {
    match o {
        Option::None => Option::None,
        Option::Some(v) => Option::Some(clamp64(v)),
    }
}

/// The partial coordinate extracted from one line: each axis independently,
/// unknown when the axis pattern does not occur.
pub open spec fn line_point(line: Seq<u8>) -> Point {
    Point {
        x: opt_clamp(axis_value(line, ('X' as u8))),
        y: opt_clamp(axis_value(line, ('Y' as u8))),
        z: opt_clamp(axis_value(line, ('Z' as u8))),
    }
}

/// The token `tok` occurs at position `i`.
pub open spec fn token_at(line: Seq<u8>, i: int, tok: Seq<u8>) -> bool {
    0 <= i && i + tok.len() <= line.len() && line.subrange(i, i + tok.len()) == tok
}

/// The token `tok` occurs somewhere in the line.
pub open spec fn contains_token(line: Seq<u8>, tok: Seq<u8>) -> bool {
    exists|i: int| #[trigger] token_at(line, i, tok)
}

/// The rapid move token.
pub open spec fn tok_g0() -> Seq<u8> {
    seq![('G' as u8), ('0' as u8)]
}

/// The linear move token.
pub open spec fn tok_g1() -> Seq<u8> {
    seq![('G' as u8), ('1' as u8)]
}

/// A line issuing a linear or rapid positioning command.
pub open spec fn is_motion_line(line: Seq<u8>) -> bool {
    contains_token(line, tok_g0()) || contains_token(line, tok_g1())
}

/// A parenthesized comment line, carrying material size and tool metadata.
pub open spec fn is_annotation_line(line: Seq<u8>) -> bool {
    contains_token(line, seq![('(' as u8)]) && contains_token(line, seq![(')' as u8)])
}

/// The drill tool-change declaration.
pub open spec fn tok_drill() -> Seq<u8> {
    seq![('T' as u8), ('o' as u8), ('o' as u8), ('l' as u8), (':' as u8), (' ' as u8), ('D' as u8), ('r' as u8), ('i' as u8), ('l' as u8), ('l' as u8)]
}

/// The endmill tool-change declaration.
pub open spec fn tok_endmill() -> Seq<u8> {
    seq![('T' as u8), ('o' as u8), ('o' as u8), ('l' as u8), (':' as u8), (' ' as u8), ('E' as u8), ('n' as u8), ('d' as u8), (' ' as u8), ('M' as u8), ('i' as u8), ('l' as u8), ('l' as u8)]
}

/// The line declares a change to a drill.
pub open spec fn declares_drill(line: Seq<u8>) -> bool {
    contains_token(line, tok_drill())
}

/// The line declares a change to an endmill.
pub open spec fn declares_endmill(line: Seq<u8>) -> bool {
    contains_token(line, tok_endmill())
}

/// End of the run of `=` and space bytes starting at `i`.
fn skip_assign_exec(line: &Vec<u8>, i: usize) -> (j: usize)
    requires
        i <= line@.len(),
    ensures
        j == skip_assign(line@, i as int),
        i <= j <= line@.len(),
{
    let mut j = i;
    while j < line.len() && (line[j] == ('=' as u8) || line[j] == (' ' as u8))
        invariant
            i <= j <= line@.len(),
            skip_assign(line@, i as int) == skip_assign(line@, j as int),
        decreases line@.len() - j,
    {
        j = j + 1;
    }
    j
}

/// End of the run of digit bytes starting at `i`.
fn digit_end_exec(line: &Vec<u8>, i: usize) -> (j: usize)
    requires
        i <= line@.len(),
    ensures
        j == digit_end(line@, i as int),
        i <= j <= line@.len(),
{
    let mut j = i;
    while j < line.len() && ('0' as u8) <= line[j] && line[j] <= ('9' as u8)
        invariant
            i <= j <= line@.len(),
            digit_end(line@, i as int) == digit_end(line@, j as int),
        decreases line@.len() - j,
    {
        j = j + 1;
    }
    j
}

/// End of the run of space bytes starting at `i`.
fn space_end_exec(line: &Vec<u8>, i: usize) -> (j: usize)
    requires
        i <= line@.len(),
    ensures
        j == space_end(line@, i as int),
        i <= j <= line@.len(),
{
    let mut j = i;
    while j < line.len() && line[j] == (' ' as u8)
        invariant
            i <= j <= line@.len(),
            space_end(line@, i as int) == space_end(line@, j as int),
        decreases line@.len() - j,
    {
        j = j + 1;
    }
    j
}

/// Value of the digit run `line[i..j)`, saturating at `u64::MAX`.
fn digits_val_capped(line: &Vec<u8>, i: usize, j: usize) -> (r: u64)
    requires
        i <= j <= line@.len(),
        all_digits(line@, i as int, j as int),
    ensures
        digits_val(line@, i as int, j as int) > u64::MAX ==> r == u64::MAX,
        digits_val(line@, i as int, j as int) <= u64::MAX ==> r == digits_val(
            line@,
            i as int,
            j as int,
        ),
{
    let mut k = i;
    let mut acc: u64 = 0;
    while k < j
        invariant
            i <= k <= j <= line@.len(),
            all_digits(line@, i as int, j as int),
            digits_val(line@, i as int, k as int) > u64::MAX ==> acc == u64::MAX,
            digits_val(line@, i as int, k as int) <= u64::MAX ==> acc == digits_val(
                line@,
                i as int,
                k as int,
            ),
        decreases j - k,
    {
        proof {
            lemma_digits_val_bound(line@, i as int, k as int);
            assert(is_digit(line@[k as int]));
        }
        let d = (line[k] - ('0' as u8)) as u64;
        let wide: u128 = (acc as u128) * 10 + (d as u128);
        if wide > u64::MAX as u128 {
            acc = u64::MAX;
        } else {
            acc = wide as u64;
        }
        k = k + 1;
        proof {
            assert(digits_val(line@, i as int, k as int) == digits_val(
                line@,
                i as int,
                k as int - 1,
            ) * 10 + (line@[k as int - 1] - ('0' as u8)));
        }
    }
    acc
}

/// Exact value of the fractional run `line[i..j)` scaled to six places.
fn frac_val6_exec(line: &Vec<u8>, i: usize, j: usize) -> (r: u64)
    requires
        i <= j <= line@.len(),
        all_digits(line@, i as int, j as int),
    ensures
        r == frac_val6(line@, i as int, j as int),
        r < 1000000,
{
    let k = if j > i && j - i > 6 {
        i + 6
    } else {
        j
    };
    proof {
        lemma_digits_val_bound(line@, i as int, k as int);
        reveal_with_fuel(pow10, 7);
        assert(pow10(6) == 1000000);
    }
    let digits = digits_val_capped(line, i, k);
    let places = (k - i) as u64;
    let scale: u64 = if places == 0 {
        1000000
    } else if places == 1 {
        100000
    } else if places == 2 {
        10000
    } else if places == 3 {
        1000
    } else if places == 4 {
        100
    } else if places == 5 {
        10
    } else {
        1
    };
    proof {
        reveal_with_fuel(pow10, 7);
        assert(scale == pow10((6 - (k - i)) as nat));
    }
    digits * scale
}

/// The exact number value at `p`, clamped into the `i64` range.
pub fn num_value_clamped(line: &Vec<u8>, p: usize) -> (r: i64)
    requires
        p < line@.len(),
        num_match_at(line@, p as int),
    ensures
        r == clamp64(num_value_at(line@, p as int)),
{
    // The exec length bounds the view length for the index arithmetic below.
    let _n = line.len();
    let neg = line[p] == ('-' as u8);
    let q = if neg {
        p + 1
    } else {
        p
    };
    let e = digit_end_exec(line, q);
    proof {
        lemma_digit_end_props(line@, q as int);
    }
    let int_part = digits_val_capped(line, q, e);
    let has_frac = e < line.len() && line[e] == ('.' as u8) && e + 1 < line.len() && ('0' as u8) <= line[e + 1]
        && line[e + 1] <= ('9' as u8);
    let frac_part: u64 = if has_frac {
        let f = digit_end_exec(line, e + 1);
        proof {
            lemma_digit_end_props(line@, e as int + 1);
        }
        frac_val6_exec(line, e + 1, f)
    } else {
        0
    };
    let mag: u128 = (int_part as u128) * 1000000 + (frac_part as u128);
    let ghost iv = digits_val(line@, q as int, e as int);
    let ghost true_mag = iv * 1000000 + (frac_part as int);
    proof {
        if iv > u64::MAX {
            assert(mag == (u64::MAX as u128) * 1000000 + (frac_part as u128));
            assert(true_mag > mag);
            assert(mag > i64::MAX);
        } else {
            assert(mag == true_mag);
        }
    }
    if neg {
        if mag >= 9223372036854775808u128 {
            proof {
                assert(-true_mag <= -(mag as int) <= i64::MIN);
            }
            i64::MIN
        } else {
            -(mag as i64)
        }
    } else {
        if mag > i64::MAX as u128 {
            proof {
                assert(true_mag >= mag > i64::MAX);
            }
            i64::MAX
        } else {
            mag as i64
        }
    }
}

/// The first number token at or after `from`, clamped into the `i64` range.
pub fn find_num(line: &Vec<u8>, from: usize) -> (r: Option<i64>)
    requires
        from <= line@.len(),
    ensures
        r == opt_clamp(find_num_from(line@, from as int)),
{
    let mut p = from;
    while p < line.len()
        invariant
            from <= p <= line@.len(),
            find_num_from(line@, from as int) == find_num_from(line@, p as int),
        decreases line@.len() - p,
    {
        let c = line[p];
        let matched: bool = if c == ('-' as u8) {
            p + 1 < line.len() && (('0' as u8) <= line[p + 1] && line[p + 1] <= ('9' as u8) || (line[p + 1]
                == ('.' as u8) && p + 2 < line.len() && ('0' as u8) <= line[p + 2] && line[p + 2] <= ('9' as u8)))
        } else {
            ('0' as u8) <= c && c <= ('9' as u8) || (c == ('.' as u8) && p + 1 < line.len() && ('0' as u8) <= line[p + 1]
                && line[p + 1] <= ('9' as u8))
        };
        proof {
            assert(matched == num_match_at(line@, p as int));
        }
        if matched {
            let v = num_value_clamped(line, p);
            return Option::Some(v);
        }
        p = p + 1;
    }
    Option::None
}

/// The clamped value of axis `axis` on this line, or `None` when the axis
/// pattern does not occur.
pub fn find_axis(line: &Vec<u8>, axis: u8) -> (r: Option<i64>)
    ensures
        r == opt_clamp(axis_value(line@, axis)),
{
    let mut i: usize = 0;
    while i < line.len()
        invariant
            i <= line@.len(),
            find_axis_from(line@, axis, 0) == find_axis_from(line@, axis, i as int),
        decreases line@.len() - i,
    {
        if line[i] == axis {
            let j = skip_assign_exec(line, i + 1);
            let neg = j < line.len() && line[j] == ('-' as u8);
            let k = if neg {
                j + 1
            } else {
                j
            };
            if k < line.len() && ('0' as u8) <= line[k] && line[k] <= ('9' as u8) {
                let e = digit_end_exec(line, k);
                if e < line.len() && line[e] == ('.' as u8) {
                    proof {
                        assert(axis_match_at(line@, axis, i as int));
                        assert(num_match_at(line@, j as int));
                    }
                    let v = num_value_clamped(line, j);
                    return Option::Some(v);
                }
            }
            proof {
                assert(!axis_match_at(line@, axis, i as int));
            }
        }
        i = i + 1;
    }
    Option::None
}

impl Point {
    /// The partial coordinate carried by one line of text.
    pub fn from_line(line: &Vec<u8>) -> (p: Point)
        ensures
            p == line_point(line@),
    {
        Point {
            x: find_axis(line, ('X' as u8)),
            y: find_axis(line, ('Y' as u8)),
            z: find_axis(line, ('Z' as u8)),
        }
    }
}

/// Whether `tok` occurs at position `i`.
fn token_match_at(line: &Vec<u8>, tok: &Vec<u8>, i: usize) -> (r: bool)
    requires
        i + tok@.len() <= line@.len(),
    ensures
        r == token_at(line@, i as int, tok@),
{
    // The exec lengths bound the view lengths for the index arithmetic below.
    let _n = line.len();
    let _w = tok.len();
    let mut k: usize = 0;
    while k < tok.len()
        invariant
            k <= tok@.len(),
            i + tok@.len() <= line@.len(),
            line@.len() <= usize::MAX,
            forall|m: int| 0 <= m < k ==> line@[i + m] == #[trigger] tok@[m],
        decreases tok@.len() - k,
    {
        if line[i + k] != tok[k] {
            proof {
                assert(line@.subrange(i as int, i as int + tok@.len())[k as int] != tok@[k as int]);
            }
            return false;
        }
        k = k + 1;
    }
    proof {
        assert(line@.subrange(i as int, i as int + tok@.len()) =~= tok@);
    }
    true
}

/// Whether `tok` occurs anywhere in the line.
pub fn contains_bytes(line: &Vec<u8>, tok: &Vec<u8>) -> (r: bool)
    ensures
        r == contains_token(line@, tok@),
{
    if tok.len() > line.len() {
        proof {
            assert(forall|i: int| !(#[trigger] token_at(line@, i, tok@)));
        }
        return false;
    }
    if tok.len() == 0 {
        proof {
            assert(line@.subrange(0, 0) =~= tok@);
            assert(token_at(line@, 0, tok@));
        }
        return true;
    }
    let last = line.len() - tok.len();
    let mut i: usize = 0;
    loop
        invariant
            i <= last + 1,
            last == line@.len() - tok@.len(),
            1 <= tok@.len() <= line@.len(),
            line@.len() <= usize::MAX,
            forall|j: int| 0 <= j < i ==> !(#[trigger] token_at(line@, j, tok@)),
        decreases last + 1 - i,
    {
        if i > last {
            proof {
                assert(forall|j: int| j > last ==> !(#[trigger] token_at(line@, j, tok@)));
            }
            return false;
        }
        if token_match_at(line, tok, i) {
            return true;
        }
        i = i + 1;
    }
}

/// Somewhere at or after `p` there is a closing brace.
pub open spec fn close_after(line: Seq<u8>, p: int) -> bool {
    exists|r: int| p <= r < line.len() && #[trigger] line[r] == ('}' as u8)
}

/// A digit stands at `d`, followed by a run of spaces, the unit token, and,
/// somewhere after the unit, a closing brace. This is what the brace-token
/// size pattern requires to the right of its opening brace.
pub open spec fn size_witness_at(line: Seq<u8>, d: int, unit: Seq<u8>) -> bool {
    &&& 0 <= d < line.len()
    &&& is_digit(line[d])
    &&& {
        let q = space_end(line, d + 1);
        token_at(line, q, unit) && close_after(line, q + unit.len())
    }
}

/// An opening brace stands at `i` and the size pattern for `unit` can be
/// completed after it.
pub open spec fn brace_match_at(line: Seq<u8>, i: int, unit: Seq<u8>) -> bool {
    &&& 0 <= i < line.len()
    &&& line[i] == ('{' as u8)
    &&& exists|d: int| d > i && #[trigger] size_witness_at(line, d, unit)
}

/// Position of the first opening brace at or after `i` from which the size
/// pattern for `unit` can be completed.
pub open spec fn find_brace_from(line: Seq<u8>, i: int, unit: Seq<u8>) -> Option<int>
    decreases line.len() - i,
{
    if i >= line.len() {
        Option::None
    } else if brace_match_at(line, i, unit) {
        Option::Some(i)
    } else {
        find_brace_from(line, i + 1, unit)
    }
}

/// The inch mark.
pub open spec fn unit_inch() -> Seq<u8> {
    seq![('"' as u8)]
}

/// The millimetre unit token.
pub open spec fn unit_mm() -> Seq<u8> {
    seq![('m' as u8), ('m' as u8)]
}

/// Millimetres to inches: the fixed conversion factor 0.0394, applied
/// exactly and truncated toward zero.
pub open spec fn mm_to_fixed(v: i64) -> i64 {
    div_trunc(v as int * 394, 10000) as i64
}

/// The declared tool diameter carried by an annotation line: a
/// brace-delimited token holding a decimal number followed by an inch mark
/// is read as inches; failing that, one followed by `mm` is read as
/// millimetres and converted; failing both, the diameter is unknown. The
/// value returned is the first number token after the opening brace.
pub open spec fn tool_size(line: Seq<u8>) -> Option<i64> {
    match find_brace_from(line, 0, unit_inch()) {
        Option::Some(i) => match find_num_from(line, i + 1) {
            Option::Some(v) => Option::Some(clamp64(v)),
            Option::None => Option::None,
        },
        Option::None => match find_brace_from(line, 0, unit_mm()) {
            Option::Some(i) => match find_num_from(line, i + 1) {
                Option::Some(v) => Option::Some(mm_to_fixed(clamp64(v))),
                Option::None => Option::None,
            },
            Option::None => Option::None,
        },
    }
}

/// Millimetres to inches, exactly as `mm_to_fixed`.
pub fn mm_to_inch(v: i64) -> (r: i64)
    ensures
        r == mm_to_fixed(v),
{
    if v >= 0 {
        let m = (v as u128) * 394 / 10000;
        m as i64
    } else {
        let m = ((-(v as i128)) as u128) * 394 / 10000;
        -(m as i64)
    }
}

/// Whether a closing brace stands at or after `p`.
fn has_close_from(line: &Vec<u8>, p: usize) -> (r: bool)
    requires
        p <= line@.len(),
    ensures
        r == close_after(line@, p as int),
{
    let mut t = p;
    while t < line.len()
        invariant
            p <= t <= line@.len(),
            forall|m: int| p <= m < t ==> #[trigger] line@[m] != ('}' as u8),
        decreases line@.len() - t,
    {
        if line[t] == ('}' as u8) {
            proof {
                assert(p <= t < line@.len() && line@[t as int] == ('}' as u8));
            }
            return true;
        }
        t = t + 1;
    }
    false
}

/// Whether the size pattern witness stands at `d`.
fn size_witness_check(line: &Vec<u8>, d: usize, unit: &Vec<u8>) -> (r: bool)
    requires
        d < line@.len(),
    ensures
        r == size_witness_at(line@, d as int, unit@),
{
    let n = line.len();
    if !(('0' as u8) <= line[d] && line[d] <= ('9' as u8)) {
        return false;
    }
    let q = space_end_exec(line, d + 1);
    if n - q < unit.len() {
        return false;
    }
    if !token_match_at(line, unit, q) {
        return false;
    }
    has_close_from(line, q + unit.len())
}

/// Whether the size pattern witness stands anywhere at or after `from`.
fn find_size_witness(line: &Vec<u8>, from: usize, unit: &Vec<u8>) -> (r: bool)
    requires
        from <= line@.len(),
    ensures
        r == exists|d: int| from <= d && #[trigger] size_witness_at(line@, d, unit@),
{
    let mut d = from;
    while d < line.len()
        invariant
            from <= d <= line@.len(),
            forall|m: int| from <= m < d ==> !(#[trigger] size_witness_at(line@, m, unit@)),
        decreases line@.len() - d,
    {
        if size_witness_check(line, d, unit) {
            return true;
        }
        d = d + 1;
    }
    false
}

/// Position of the first opening brace from which the size pattern for
/// `unit` can be completed.
fn find_size_brace(line: &Vec<u8>, unit: &Vec<u8>) -> (r: Option<usize>)
    ensures
        match r {
            Option::Some(i) => find_brace_from(line@, 0, unit@) == Option::Some(i as int) && (
            i as int) < line@.len(),
            Option::None => find_brace_from(line@, 0, unit@) is None,
        },
{
    let mut i: usize = 0;
    while i < line.len()
        invariant
            i <= line@.len(),
            find_brace_from(line@, 0, unit@) == find_brace_from(line@, i as int, unit@),
        decreases line@.len() - i,
    {
        if line[i] == ('{' as u8) {
            if find_size_witness(line, i + 1, unit) {
                proof {
                    let dd = choose|dd: int|
                        i + 1 <= dd && #[trigger] size_witness_at(line@, dd, unit@);
                    assert(dd > i as int && size_witness_at(line@, dd, unit@));
                    assert(brace_match_at(line@, i as int, unit@));
                }
                return Option::Some(i);
            }
            proof {
                if brace_match_at(line@, i as int, unit@) {
                    let dd = choose|dd: int| dd > i as int && #[trigger] size_witness_at(
                        line@,
                        dd,
                        unit@,
                    );
                    assert(i as int + 1 <= dd && size_witness_at(line@, dd, unit@));
                }
                assert(!brace_match_at(line@, i as int, unit@));
            }
        }
        i = i + 1;
    }
    Option::None
}

/// The declared tool diameter carried by an annotation line, per
/// `tool_size`.
pub fn get_tool_size(line: &Vec<u8>) -> (r: Option<i64>)
    ensures
        r == tool_size(line@),
{
    // The exec length bounds the view length for the index arithmetic below.
    let _n = line.len();
    let mut inch: Vec<u8> = Vec::new();
    inch.push('"' as u8);
    proof {
        assert(inch@ =~= unit_inch());
    }
    match find_size_brace(line, &inch) {
        Option::Some(i) => {
            return match find_num(line, i + 1) {
                Option::Some(v) => Option::Some(v),
                Option::None => Option::None,
            };
        },
        Option::None => {},
    }
    let mut mmu: Vec<u8> = Vec::new();
    mmu.push('m' as u8);
    mmu.push('m' as u8);
    proof {
        assert(mmu@ =~= unit_mm());
    }
    match find_size_brace(line, &mmu) {
        Option::Some(i) => match find_num(line, i + 1) {
            Option::Some(v) => Option::Some(mm_to_inch(v)),
            Option::None => Option::None,
        },
        Option::None => Option::None,
    }
}

/// Position of the first line-feed byte at or after `i`, or the length of
/// the text.
pub open spec fn line_break_abs(text: Seq<u8>, i: int) -> int
    decreases text.len() - i,
{
    if 0 <= i && i < text.len() && text[i] != ('\n' as u8) {
        line_break_abs(text, i + 1)
    } else {
        i
    }
}

/// One line with a trailing carriage return removed.
pub open spec fn strip_cr(line: Seq<u8>) -> Seq<u8> {
    if line.len() > 0 && line[line.len() - 1] == ('\r' as u8) {
        line.drop_last()
    } else {
        line
    }
}

/// The lines of the text from position `pos` on: split at line feeds, each
/// line stripped of a trailing carriage return, and no final empty line
/// after a trailing line feed.
pub open spec fn spec_lines_from(text: Seq<u8>, pos: int) -> Seq<Seq<u8>>
    decreases text.len() - pos,
{
    if pos < 0 || pos >= text.len() {
        Seq::<Seq<u8>>::empty()
    } else {
        let b = line_break_abs(text, pos);
        if pos <= b <= text.len() {
            let l = strip_cr(text.subrange(pos, b));
            if b < text.len() {
                seq![l] + spec_lines_from(text, b + 1)
            } else {
                seq![l]
            }
        } else {
            Seq::<Seq<u8>>::empty()
        }
    }
}

/// The lines of the whole text.
pub open spec fn spec_lines(text: Seq<u8>) -> Seq<Seq<u8>> {
    spec_lines_from(text, 0)
}

/// Position of the first line-feed byte at or after `from`.
fn next_break(text: &Vec<u8>, from: usize) -> (r: usize)
    requires
        from <= text@.len(),
    ensures
        r == line_break_abs(text@, from as int),
        from <= r <= text@.len(),
{
    let mut j = from;
    while j < text.len() && text[j] != ('\n' as u8)
        invariant
            from <= j <= text@.len(),
            line_break_abs(text@, from as int) == line_break_abs(text@, j as int),
        decreases text@.len() - j,
    {
        j = j + 1;
    }
    j
}

/// Split the program text into lines, as `spec_lines` describes.
pub fn split_lines(text: &Vec<u8>) -> (r: Vec<Vec<u8>>)
    ensures
        r.deep_view() == spec_lines(text@),
{
    let mut res: Vec<Vec<u8>> = Vec::new();
    let mut pos: usize = 0;
    while pos < text.len()
        invariant
            pos <= text@.len(),
            res.deep_view() + spec_lines_from(text@, pos as int) == spec_lines(text@),
        decreases text@.len() - pos,
    {
        let ghost pos0 = pos as int;
        let b = next_break(text, pos);
        let end = if b > pos && text[b - 1] == ('\r' as u8) {
            b - 1
        } else {
            b
        };
        let mut l: Vec<u8> = Vec::new();
        let mut k = pos;
        while k < end
            invariant
                pos <= k <= end <= text@.len(),
                l@ == text@.subrange(pos as int, k as int),
            decreases end - k,
        {
            let c = text[k];
            l.push(c);
            proof {
                assert(l@ =~= text@.subrange(pos as int, k as int + 1));
            }
            k = k + 1;
        }
        proof {
            let whole = text@.subrange(pos0, b as int);
            if b > pos0 && text@[b as int - 1] == ('\r' as u8) {
                assert(l@ =~= whole.drop_last());
            } else {
                assert(l@ =~= whole);
            }
            assert(l@ == strip_cr(whole));
        }
        let ghost old_dv = res.deep_view();
        res.push(l);
        proof {
            assert(l.deep_view() =~= l@);
            assert(res.deep_view() =~~= old_dv.push(l@));
        }
        if b < text.len() {
            pos = b + 1;
        } else {
            pos = text.len();
            proof {
                assert(spec_lines_from(text@, pos0) =~~= seq![strip_cr(
                    text@.subrange(pos0, b as int),
                )]);
                assert(res.deep_view() + spec_lines_from(text@, pos as int) =~~= spec_lines(
                    text@,
                ));
            }
        }
        proof {
            if pos0 < text@.len() && (b as int) < text@.len() {
                assert(spec_lines_from(text@, pos0) =~~= seq![strip_cr(
                    text@.subrange(pos0, b as int),
                )] + spec_lines_from(text@, b as int + 1));
                assert(res.deep_view() + spec_lines_from(text@, pos as int) =~~= spec_lines(
                    text@,
                ));
            }
        }
    }
    proof {
        assert(res.deep_view() + spec_lines_from(text@, pos as int) =~~= res.deep_view());
        assert(res.deep_view() =~~= spec_lines(text@));
    }
    res
}


/// Whether the line issues a linear or rapid positioning command.
pub fn is_motion(line: &Vec<u8>) -> (r: bool)
    ensures
        r == is_motion_line(line@),
{
    let mut g0: Vec<u8> = Vec::new();
    g0.push('G' as u8);
    g0.push('0' as u8);
    let mut g1: Vec<u8> = Vec::new();
    g1.push('G' as u8);
    g1.push('1' as u8);
    proof {
        assert(g0@ =~= tok_g0());
        assert(g1@ =~= tok_g1());
    }
    contains_bytes(line, &g0) || contains_bytes(line, &g1)
}

/// Whether the line is a parenthesized annotation.
pub fn is_annotation(line: &Vec<u8>) -> (r: bool)
    ensures
        r == is_annotation_line(line@),
{
    let mut op: Vec<u8> = Vec::new();
    op.push('(' as u8);
    let mut cl: Vec<u8> = Vec::new();
    cl.push(')' as u8);
    proof {
        assert(op@ =~= seq![('(' as u8)]);
        assert(cl@ =~= seq![(')' as u8)]);
    }
    contains_bytes(line, &op) && contains_bytes(line, &cl)
}

/// Whether the line declares a change to a drill.
pub fn has_drill_decl(line: &Vec<u8>) -> (r: bool)
    ensures
        r == declares_drill(line@),
{
    let mut t: Vec<u8> = Vec::new();
    t.push('T' as u8);
    t.push('o' as u8);
    t.push('o' as u8);
    t.push('l' as u8);
    t.push(':' as u8);
    t.push(' ' as u8);
    t.push('D' as u8);
    t.push('r' as u8);
    t.push('i' as u8);
    t.push('l' as u8);
    t.push('l' as u8);
    proof {
        assert(t@ =~= tok_drill());
    }
    contains_bytes(line, &t)
}

/// Whether the line declares a change to an endmill.
pub fn has_endmill_decl(line: &Vec<u8>) -> (r: bool)
    ensures
        r == declares_endmill(line@),
{
    let mut t: Vec<u8> = Vec::new();
    t.push('T' as u8);
    t.push('o' as u8);
    t.push('o' as u8);
    t.push('l' as u8);
    t.push(':' as u8);
    t.push(' ' as u8);
    t.push('E' as u8);
    t.push('n' as u8);
    t.push('d' as u8);
    t.push(' ' as u8);
    t.push('M' as u8);
    t.push('i' as u8);
    t.push('l' as u8);
    t.push('l' as u8);
    proof {
        assert(t@ =~= tok_endmill());
    }
    contains_bytes(line, &t)
}

} // verus!
