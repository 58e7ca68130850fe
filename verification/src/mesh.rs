//! The mesh-code encoder: a geographic coordinate and a resolution level
//! give a hierarchical grid identifier.
//!
//! Coordinates are fixed-point degree values.  Every cell boundary used by
//! the subdivision (40', 5', 30", 15", 7.5", 3.75" of latitude; 1 degree,
//! 7.5', 45", 22.5", 11.25", 5.625" of longitude) is a multiple of 1/1920
//! degree, so at a scale of 3_000_000_000 units per degree — a multiple of
//! both 1920 and 10^9 — every boundary and every decimal coordinate with at
//! most nine fractional digits is an exact integer.
//!
//! The code is built in stages.  The base (Standard) stage splits each axis
//! into primary, secondary and tertiary bands and renders the six band
//! indices as plain decimal numbers.  Each finer level halves the remaining
//! cell along both axes and appends one quadrant digit in 1..=4.

use vstd::prelude::*;
use vstd::arithmetic::div_mod::{
    lemma_fundamental_div_mod,
    lemma_fundamental_div_mod_converse_div,
    lemma_fundamental_div_mod_converse_mod,
    lemma_div_pos_is_pos,
    lemma_mod_division_less_than_divisor,
    lemma_multiply_divide_lt,
};
use crate::digits::{digit_char, spec_dec_digits, append_u64};

verus! {

/// Scale factor for fixed-point coordinates: units per degree.
pub const UNITS_PER_DEGREE: u64 = 3_000_000_000;

/// Largest latitude magnitude, in units (90 degrees).
pub const LAT_LIMIT_UNITS: i64 = 270_000_000_000;

/// Largest longitude magnitude, in units (180 degrees).
pub const LON_LIMIT_UNITS: i64 = 540_000_000_000;

/// Primary latitude band: 40 minutes.
pub const LAT_PRIMARY: u64 = 2_000_000_000;

/// Secondary latitude band: 5 minutes.
pub const LAT_SECONDARY: u64 = 250_000_000;

/// Tertiary latitude band: 30 seconds.
pub const LAT_TERTIARY: u64 = 25_000_000;

/// Half-level latitude split: 15 seconds.
pub const LAT_HALF: u64 = 12_500_000;

/// Quarter-level latitude split: 7.5 seconds.
pub const LAT_QUARTER: u64 = 6_250_000;

/// Eighth-level latitude split: 3.75 seconds.
pub const LAT_EIGHTH: u64 = 3_125_000;

/// Primary longitude band: 1 degree.
pub const LON_PRIMARY: u64 = 3_000_000_000;

/// Secondary longitude band: 7.5 minutes.
pub const LON_SECONDARY: u64 = 375_000_000;

/// Tertiary longitude band: 45 seconds.
pub const LON_TERTIARY: u64 = 37_500_000;

/// Half-level longitude split: 22.5 seconds.
pub const LON_HALF: u64 = 18_750_000;

/// Quarter-level longitude split: 11.25 seconds.
pub const LON_QUARTER: u64 = 9_375_000;

/// Eighth-level longitude split: 5.625 seconds.
pub const LON_EIGHTH: u64 = 4_687_500;

/// Offset of the primary longitude band: the code counts degrees from the
/// 100th meridian.
pub const LON_ORIGIN_DEGREES: u64 = 100;

/// The resolution level of a mesh code.  Each level refines the previous
/// one: its code is the coarser code with one more quadrant digit.
#[derive(Clone, Copy, Debug, PartialEq, Eq, Structural)]
pub enum MeshLevel {
    Standard,
    Half,
    Quarter,
    Eighth,
}

/// Primary, secondary and tertiary latitude band indices, and the
/// remainder carried to the refinement stages: `(p, q, r, c)`.
pub open spec fn spec_lat_parts(lat: int) -> (int, int, int, int) {
    let p = lat / (LAT_PRIMARY as int);
    let a = lat % (LAT_PRIMARY as int);
    let q = a / (LAT_SECONDARY as int);
    let b = a % (LAT_SECONDARY as int);
    let r = b / (LAT_TERTIARY as int);
    let c = b % (LAT_TERTIARY as int);
    (p, q, r, c)
}

/// Primary, secondary and tertiary longitude band indices, and the
/// remainder carried to the refinement stages: `(u, v, w, h)`.
pub open spec fn spec_lon_parts(lon: int) -> (int, int, int, int) {
    let u = lon / (LON_PRIMARY as int) - LON_ORIGIN_DEGREES;
    let f = lon % (LON_PRIMARY as int);
    let v = f / (LON_SECONDARY as int);
    let g = f % (LON_SECONDARY as int);
    let w = g / (LON_TERTIARY as int);
    let h = g % (LON_TERTIARY as int);
    (u, v, w, h)
}

/// A band index rendered as decimal text.  A negative index (a coordinate
/// south or west of the grid origin) saturates to 0, as an integer-to-
/// unsigned conversion renders it.
pub open spec fn spec_group_chars(x: int) -> Seq<char> {
    spec_dec_digits(if x < 0 { 0 } else { x })
}

/// The six-group base (Standard) code: `p u q v r w`.
pub open spec fn spec_base_code(lat: int, lon: int) -> Seq<char> {
    spec_group_chars(spec_lat_parts(lat).0) + spec_group_chars(spec_lon_parts(lon).0)
        + spec_group_chars(spec_lat_parts(lat).1) + spec_group_chars(spec_lon_parts(lon).1)
        + spec_group_chars(spec_lat_parts(lat).2) + spec_group_chars(spec_lon_parts(lon).2)
}

/// Latitude remainder within the tertiary band (below 30 seconds).
pub open spec fn spec_lat_c(lat: int) -> int {
    spec_lat_parts(lat).3
}

/// Longitude remainder within the tertiary band (below 45 seconds).
pub open spec fn spec_lon_h(lon: int) -> int {
    spec_lon_parts(lon).3
}

/// A quadrant digit in 1..=4: 1 is the low-latitude/low-longitude quarter,
/// 2 low/high, 3 high/low, 4 high/high.
pub open spec fn spec_quadrant(lat_rem: int, lon_rem: int, lat_step: int, lon_step: int) -> int {
    2 * (lat_rem / lat_step) + lon_rem / lon_step + 1
}

/// The Half-level quadrant digit.
pub open spec fn spec_half_digit(lat: int, lon: int) -> int {
    spec_quadrant(spec_lat_c(lat), spec_lon_h(lon), LAT_HALF as int, LON_HALF as int)
}

/// Latitude remainder after the Half-level split.
pub open spec fn spec_lat_d(lat: int) -> int {
    spec_lat_c(lat) % (LAT_HALF as int)
}

/// Longitude remainder after the Half-level split.
pub open spec fn spec_lon_i(lon: int) -> int {
    spec_lon_h(lon) % (LON_HALF as int)
}

/// The Quarter-level quadrant digit.
pub open spec fn spec_quarter_digit(lat: int, lon: int) -> int {
    spec_quadrant(spec_lat_d(lat), spec_lon_i(lon), LAT_QUARTER as int, LON_QUARTER as int)
}

/// Latitude remainder after the Quarter-level split.
pub open spec fn spec_lat_e(lat: int) -> int {
    spec_lat_d(lat) % (LAT_QUARTER as int)
}

/// Longitude remainder after the Quarter-level split.
pub open spec fn spec_lon_j(lon: int) -> int {
    spec_lon_i(lon) % (LON_QUARTER as int)
}

/// The Eighth-level quadrant digit.
pub open spec fn spec_eighth_digit(lat: int, lon: int) -> int {
    spec_quadrant(spec_lat_e(lat), spec_lon_j(lon), LAT_EIGHTH as int, LON_EIGHTH as int)
}

/// The full mesh code of a coordinate at a level: the base code followed
/// by 0, 1, 2 or 3 quadrant digits.
pub open spec fn spec_mesh_code(lat: int, lon: int, level: MeshLevel) -> Seq<char> {
    let base = spec_base_code(lat, lon);
    match level {
        MeshLevel::Standard => base,
        MeshLevel::Half => base.push(digit_char(spec_half_digit(lat, lon))),
        MeshLevel::Quarter => base.push(digit_char(spec_half_digit(lat, lon))).push(
            digit_char(spec_quarter_digit(lat, lon)),
        ),
        MeshLevel::Eighth => base.push(digit_char(spec_half_digit(lat, lon))).push(
            digit_char(spec_quarter_digit(lat, lon)),
        ).push(digit_char(spec_eighth_digit(lat, lon))),
    }
}

/// Append a band index to the code, saturating a negative index to 0.
/// `x_shifted` carries the index shifted up by `shift` so that it is
/// non-negative.
fn append_group(code: &mut String, x_shifted: u64, shift: u64)
    ensures
        final(code)@ == old(code)@ + spec_group_chars(x_shifted - shift),
{
    if x_shifted < shift {
        append_u64(code, 0);
    } else {
        append_u64(code, x_shifted - shift);
    }
}

/// Compute the mesh code of a coordinate, as decimal text.
///
/// The six base groups are rendered with no padding, exactly as plain
/// integer-to-text conversion gives them, so codes are not all of one
/// length.
pub fn get_mesh_code(lat_units: i64, lon_units: i64, level: MeshLevel) -> (code: String)
    requires
        -LAT_LIMIT_UNITS <= lat_units <= LAT_LIMIT_UNITS,
        -LON_LIMIT_UNITS <= lon_units <= LON_LIMIT_UNITS,
    ensures
        code@ == spec_mesh_code(lat_units as int, lon_units as int, level),
{
    // Shift both axes to non-negative values; the shifts are whole
    // multiples of the primary band widths, so every band index is
    // shifted by a constant and every remainder is unchanged.
    let la: u64 = (lat_units + LAT_LIMIT_UNITS) as u64;
    let lo: u64 = (lon_units + LON_LIMIT_UNITS) as u64;

    let p_sh: u64 = la / LAT_PRIMARY;
    let a: u64 = la % LAT_PRIMARY;
    proof {
        lemma_fundamental_div_mod(la as int, LAT_PRIMARY as int);
        assert(lat_units as int == (p_sh - 135) * (LAT_PRIMARY as int) + a);
        lemma_fundamental_div_mod_converse_div(
            lat_units as int, LAT_PRIMARY as int, p_sh - 135, a as int);
        lemma_fundamental_div_mod_converse_mod(
            lat_units as int, LAT_PRIMARY as int, p_sh - 135, a as int);
    }
    let q: u64 = a / LAT_SECONDARY;
    let b: u64 = a % LAT_SECONDARY;
    let r: u64 = b / LAT_TERTIARY;
    let c: u64 = b % LAT_TERTIARY;

    let u_sh: u64 = lo / LON_PRIMARY;
    let f: u64 = lo % LON_PRIMARY;
    proof {
        lemma_fundamental_div_mod(lo as int, LON_PRIMARY as int);
        assert(lon_units as int == (u_sh - 180) * (LON_PRIMARY as int) + f);
        lemma_fundamental_div_mod_converse_div(
            lon_units as int, LON_PRIMARY as int, u_sh - 180, f as int);
        lemma_fundamental_div_mod_converse_mod(
            lon_units as int, LON_PRIMARY as int, u_sh - 180, f as int);
    }
    let v: u64 = f / LON_SECONDARY;
    let g: u64 = f % LON_SECONDARY;
    let w: u64 = g / LON_TERTIARY;
    let h: u64 = g % LON_TERTIARY;

    let mut code = String::new();
    append_group(&mut code, p_sh, 135);
    append_group(&mut code, u_sh, 180 + LON_ORIGIN_DEGREES);
    append_u64(&mut code, q);
    append_u64(&mut code, v);
    append_u64(&mut code, r);
    append_u64(&mut code, w);
    proof {
        assert(code@ =~= spec_base_code(lat_units as int, lon_units as int));
    }
    if level == MeshLevel::Standard {
        return code;
    }

    let s2: u64 = c / LAT_HALF;
    let d: u64 = c % LAT_HALF;
    let x2: u64 = h / LON_HALF;
    let i2: u64 = h % LON_HALF;
    let m: u64 = 2 * s2 + x2 + 1;
    append_u64(&mut code, m);
    proof {
        assert(m as int == spec_half_digit(lat_units as int, lon_units as int));
        assert(code@ =~= spec_mesh_code(lat_units as int, lon_units as int, MeshLevel::Half));
    }
    if level == MeshLevel::Half {
        return code;
    }

    let t: u64 = d / LAT_QUARTER;
    let e: u64 = d % LAT_QUARTER;
    let y: u64 = i2 / LON_QUARTER;
    let j: u64 = i2 % LON_QUARTER;
    let n: u64 = 2 * t + y + 1;
    append_u64(&mut code, n);
    proof {
        assert(n as int == spec_quarter_digit(lat_units as int, lon_units as int));
        assert(code@ =~= spec_mesh_code(lat_units as int, lon_units as int, MeshLevel::Quarter));
    }
    if level == MeshLevel::Quarter {
        return code;
    }

    let t2: u64 = e / LAT_EIGHTH;
    let y2: u64 = j / LON_EIGHTH;
    let o: u64 = 2 * t2 + y2 + 1;
    append_u64(&mut code, o);
    proof {
        assert(o as int == spec_eighth_digit(lat_units as int, lon_units as int));
        assert(code@ =~= spec_mesh_code(lat_units as int, lon_units as int, MeshLevel::Eighth));
    }
    code
}

/// Every refinement digit is a quadrant index in 1..=4, for any
/// coordinate whatsoever: the remainders entering each split are bounded
/// by twice the split width, so each split index is 0 or 1.
pub proof fn lemma_refinement_digit_range(lat: int, lon: int)
    ensures
        1 <= spec_half_digit(lat, lon) <= 4,
        1 <= spec_quarter_digit(lat, lon) <= 4,
        1 <= spec_eighth_digit(lat, lon) <= 4,
{
    let c = spec_lat_c(lat);
    let h = spec_lon_h(lon);
    let d = spec_lat_d(lat);
    let i = spec_lon_i(lon);
    let e = spec_lat_e(lat);
    let j = spec_lon_j(lon);
    lemma_mod_division_less_than_divisor(lat % (LAT_PRIMARY as int) % (LAT_SECONDARY as int),
        LAT_TERTIARY as int);
    lemma_mod_division_less_than_divisor(lon % (LON_PRIMARY as int) % (LON_SECONDARY as int),
        LON_TERTIARY as int);
    lemma_mod_division_less_than_divisor(c, LAT_HALF as int);
    lemma_mod_division_less_than_divisor(h, LON_HALF as int);
    lemma_mod_division_less_than_divisor(d, LAT_QUARTER as int);
    lemma_mod_division_less_than_divisor(i, LON_QUARTER as int);
    lemma_div_pos_is_pos(c, LAT_HALF as int);
    lemma_div_pos_is_pos(h, LON_HALF as int);
    lemma_div_pos_is_pos(d, LAT_QUARTER as int);
    lemma_div_pos_is_pos(i, LON_QUARTER as int);
    lemma_div_pos_is_pos(e, LAT_EIGHTH as int);
    lemma_div_pos_is_pos(j, LON_EIGHTH as int);
    lemma_multiply_divide_lt(c, LAT_HALF as int, 2);
    lemma_multiply_divide_lt(h, LON_HALF as int, 2);
    lemma_multiply_divide_lt(d, LAT_QUARTER as int, 2);
    lemma_multiply_divide_lt(i, LON_QUARTER as int, 2);
    lemma_multiply_divide_lt(e, LAT_EIGHTH as int, 2);
    lemma_multiply_divide_lt(j, LON_EIGHTH as int, 2);
}

/// Hierarchical containment: at any coordinate, each level's code starts
/// with the next coarser level's code as a prefix.
pub proof fn lemma_hierarchical_containment(lat: int, lon: int)
    ensures
        spec_mesh_code(lat, lon, MeshLevel::Standard).is_prefix_of(
            spec_mesh_code(lat, lon, MeshLevel::Half)),
        spec_mesh_code(lat, lon, MeshLevel::Half).is_prefix_of(
            spec_mesh_code(lat, lon, MeshLevel::Quarter)),
        spec_mesh_code(lat, lon, MeshLevel::Quarter).is_prefix_of(
            spec_mesh_code(lat, lon, MeshLevel::Eighth)),
{
    let std_code = spec_mesh_code(lat, lon, MeshLevel::Standard);
    let half = spec_mesh_code(lat, lon, MeshLevel::Half);
    let quarter = spec_mesh_code(lat, lon, MeshLevel::Quarter);
    let eighth = spec_mesh_code(lat, lon, MeshLevel::Eighth);
    assert(half.subrange(0, std_code.len() as int) =~= std_code);
    assert(quarter.subrange(0, half.len() as int) =~= half);
    assert(eighth.subrange(0, quarter.len() as int) =~= quarter);
}

/// Digit-count invariant: relative to the base code, Standard appends 0
/// digits, Half 1, Quarter 2 and Eighth 3, and every appended digit is
/// the character of a quadrant index in 1..=4.
pub proof fn lemma_refinement_digit_count(lat: int, lon: int)
    ensures
        spec_mesh_code(lat, lon, MeshLevel::Standard).len() == spec_base_code(lat, lon).len(),
        spec_mesh_code(lat, lon, MeshLevel::Half).len() == spec_base_code(lat, lon).len() + 1,
        spec_mesh_code(lat, lon, MeshLevel::Quarter).len() == spec_base_code(lat, lon).len() + 2,
        spec_mesh_code(lat, lon, MeshLevel::Eighth).len() == spec_base_code(lat, lon).len() + 3,
        forall|k: int|
            spec_base_code(lat, lon).len() <= k < spec_mesh_code(lat, lon, MeshLevel::Eighth).len()
                ==> is_quadrant_char(#[trigger] spec_mesh_code(lat, lon, MeshLevel::Eighth)[k]),
        forall|k: int|
            spec_base_code(lat, lon).len() <= k < spec_mesh_code(lat, lon, MeshLevel::Quarter).len()
                ==> is_quadrant_char(#[trigger] spec_mesh_code(lat, lon, MeshLevel::Quarter)[k]),
        forall|k: int|
            spec_base_code(lat, lon).len() <= k < spec_mesh_code(lat, lon, MeshLevel::Half).len()
                ==> is_quadrant_char(#[trigger] spec_mesh_code(lat, lon, MeshLevel::Half)[k]),
{
    lemma_refinement_digit_range(lat, lon);
}

/// A quadrant digit character.
pub open spec fn is_quadrant_char(c: char) -> bool {
    c == '1' || c == '2' || c == '3' || c == '4'
}

} // verus!
