//! Geometric primitives and the spline fitter.
//!
//! A stroke segment is fitted from four consecutive input samples as a cubic
//! curve approximating a Catmull-Rom interpolation through the middle two
//! samples; a cubic is split into two quadratics so it can be offset later.

use vstd::prelude::*;

use crate::fixed::MAX_COORD;
use crate::fixed::SCALE;
use crate::fixed::Vec2;
use crate::fixed::div_tz;
use crate::fixed::hyp_len;
use crate::fixed::in_range;
use crate::fixed::lemma_tz_scaled_bound;
use crate::fixed::tz;
use crate::fixed::v2;
use crate::fixed::vlen;

verus! {

/// A straight segment; degenerate (and rejected by the filter below) when
/// `start == end`.
#[derive(Clone, Copy, Debug, Default, PartialEq, Eq, Structural)]
pub struct Line {
    pub start: Vec2,
    pub end: Vec2,
}

/// A quadratic curve with one control point.
#[derive(Clone, Copy, Debug, Default, PartialEq, Eq, Structural)]
pub struct QuadBezier {
    pub start: Vec2,
    pub cp1: Vec2,
    pub end: Vec2,
}

/// A cubic curve with two control points.
#[derive(Clone, Copy, Debug, Default, PartialEq, Eq, Structural)]
pub struct CubicBezier {
    pub start: Vec2,
    pub cp1: Vec2,
    pub cp2: Vec2,
    pub end: Vec2,
}

/// One captured pen sample: the position it exposes to this crate.
#[derive(Clone, Copy, Debug, Default, PartialEq, Eq, Structural)]
pub struct InputSample {
    pub pos: Vec2,
}

/// Largest coordinate magnitude an input sample may carry, chosen so the
/// fitted control points stay within `MAX_COORD`.
pub const MAX_SAMPLE: i64 = 750_000_000;

/// Largest magnitude a position or translation handed to the line filter
/// may have: the translated endpoints then stay within `MAX_COORD`.
pub const MAX_TRANSLATED: i64 = 500_000_000;

/// All points of the line are in range and the line is not degenerate.
pub open spec fn line_ok(l: Line) -> bool {
    in_range(l.start, MAX_COORD as int) && in_range(l.end, MAX_COORD as int) && l.start != l.end
}

/// First control point of the split: three quarters of the way from `start`
/// toward `cp1`.
pub open spec fn split_cp_first(c: CubicBezier) -> Vec2 {
    v2(tz(c.start.x + 3 * c.cp1.x, 4), tz(c.start.y + 3 * c.cp1.y, 4))
}

/// Second control point of the split: three quarters of the way from `end`
/// toward `cp2`.
pub open spec fn split_cp_second(c: CubicBezier) -> Vec2 {
    v2(tz(c.end.x + 3 * c.cp2.x, 4), tz(c.end.y + 3 * c.cp2.y, 4))
}

/// Shared midpoint of the split: the average of the two derived control
/// points.
pub open spec fn split_mid(c: CubicBezier) -> Vec2 {
    v2(
        tz(split_cp_first(c).x + split_cp_second(c).x, 2),
        tz(split_cp_first(c).y + split_cp_second(c).y, 2),
    )
}

/// First half of the split cubic.
pub open spec fn split_first(c: CubicBezier) -> QuadBezier {
    QuadBezier { start: c.start, cp1: split_cp_first(c), end: split_mid(c) }
}

/// Second half of the split cubic.
pub open spec fn split_second(c: CubicBezier) -> QuadBezier {
    QuadBezier { start: split_mid(c), cp1: split_cp_second(c), end: c.end }
}

/// Approximates a cubic by two quadratics sharing a midpoint: each derived
/// control point sits 75% of the way from the shared endpoint toward the
/// original control point, and the midpoint is their average. This is not an
/// exact degree reduction; it is the subdivision that keeps the offset
/// approximation's error small.
pub fn split_cubic_bezier(cubic_bezier: CubicBezier) -> (r: (QuadBezier, QuadBezier))
    requires
        in_range(cubic_bezier.start, MAX_COORD as int),
        in_range(cubic_bezier.cp1, MAX_COORD as int),
        in_range(cubic_bezier.cp2, MAX_COORD as int),
        in_range(cubic_bezier.end, MAX_COORD as int),
    ensures
        r.0 == split_first(cubic_bezier),
        r.1 == split_second(cubic_bezier),
        in_range(r.0.cp1, MAX_COORD as int),
        in_range(r.1.cp1, MAX_COORD as int),
        in_range(r.0.end, MAX_COORD as int),
{
    let c = cubic_bezier;
    proof {
        lemma_tz_scaled_bound(c.start.x + 3 * c.cp1.x, 4, MAX_COORD as int);
        lemma_tz_scaled_bound(c.start.y + 3 * c.cp1.y, 4, MAX_COORD as int);
        lemma_tz_scaled_bound(c.end.x + 3 * c.cp2.x, 4, MAX_COORD as int);
        lemma_tz_scaled_bound(c.end.y + 3 * c.cp2.y, 4, MAX_COORD as int);
    }
    let cp_first = Vec2 {
        x: div_tz(c.start.x + 3 * c.cp1.x, 4),
        y: div_tz(c.start.y + 3 * c.cp1.y, 4),
    };
    let cp_second = Vec2 {
        x: div_tz(c.end.x + 3 * c.cp2.x, 4),
        y: div_tz(c.end.y + 3 * c.cp2.y, 4),
    };
    proof {
        lemma_tz_scaled_bound(cp_first.x + cp_second.x, 2, MAX_COORD as int);
        lemma_tz_scaled_bound(cp_first.y + cp_second.y, 2, MAX_COORD as int);
    }
    let mid = Vec2 {
        x: div_tz(cp_first.x + cp_second.x, 2),
        y: div_tz(cp_first.y + cp_second.y, 2),
    };
    let first_quad_bezier = QuadBezier { start: c.start, cp1: cp_first, end: mid };
    let second_quad_bezier = QuadBezier { start: mid, cp1: cp_second, end: c.end };
    (first_quad_bezier, second_quad_bezier)
}

/// The uncorrected first control point of the Catmull-Rom fit:
/// `second + (third - first) / 6` (tension fixed at one).
pub open spec fn catmull_cp1_raw(p1: Vec2, p2: Vec2, p3: Vec2) -> Vec2 {
    v2(p2.x + tz(p3.x - p1.x, 6), p2.y + tz(p3.y - p1.y, 6))
}

/// The second control point of the Catmull-Rom fit:
/// `third - (forth - second) / 6`.
pub open spec fn catmull_cp2(p2: Vec2, p3: Vec2, p4: Vec2) -> Vec2 {
    v2(p3.x - tz(p4.x - p2.x, 6), p3.y - tz(p4.y - p2.y, 6))
}

/// The fitted cubic, with the loop-avoidance correction applied: when the
/// first control handle `cp1 - start` is longer by more than one unit than
/// the second handle `cp2 - end`, the first handle is rescaled to the second
/// handle's length so it cannot overshoot and loop.
pub open spec fn catmull_fit(p1: Vec2, p2: Vec2, p3: Vec2, p4: Vec2) -> CubicBezier {
    let cp1 = catmull_cp1_raw(p1, p2, p3);
    let cp2 = catmull_cp2(p2, p3, p4);
    let len1 = vlen(cp1.x - p2.x, cp1.y - p2.y);
    let len2 = vlen(cp2.x - p3.x, cp2.y - p3.y);
    let cp1_final = if len1 > len2 + SCALE {
        v2(p2.x + tz((cp1.x - p2.x) * len2, len1), p2.y + tz((cp1.y - p2.y) * len2, len1))
    } else {
        cp1
    };
    CubicBezier { start: p2, cp1: cp1_final, cp2, end: p3 }
}

/// Fits one cubic segment through the middle two of four consecutive samples,
/// the control points derived from the neighbour-implied tangents
/// `third - first` and `forth - second` scaled by one sixth (tension one).
///
/// The loop-avoidance guard compares the two control handles' lengths, as
/// `catmull_fit` states; a fit is produced for every in-range input.
pub fn cubic_bezier_w_catmull_rom(
    first: &InputSample,
    second: &InputSample,
    third: &InputSample,
    forth: &InputSample,
) -> (r: Option<CubicBezier>)
    requires
        in_range(first.pos, MAX_SAMPLE as int),
        in_range(second.pos, MAX_SAMPLE as int),
        in_range(third.pos, MAX_SAMPLE as int),
        in_range(forth.pos, MAX_SAMPLE as int),
    ensures
        r matches Some(c) && c == catmull_fit(first.pos, second.pos, third.pos, forth.pos),
        r matches Some(c) ==> {
            &&& in_range(c.start, MAX_COORD as int)
            &&& in_range(c.cp1, MAX_COORD as int)
            &&& in_range(c.cp2, MAX_COORD as int)
            &&& in_range(c.end, MAX_COORD as int)
        },
{
    let start = second.pos;
    let end = third.pos;
    proof {
        lemma_tz_scaled_bound(third.pos.x - first.pos.x, 6, 250_000_000);
        lemma_tz_scaled_bound(third.pos.y - first.pos.y, 6, 250_000_000);
        lemma_tz_scaled_bound(forth.pos.x - second.pos.x, 6, 250_000_000);
        lemma_tz_scaled_bound(forth.pos.y - second.pos.y, 6, 250_000_000);
    }
    let d1x = div_tz(third.pos.x - first.pos.x, 6);
    let d1y = div_tz(third.pos.y - first.pos.y, 6);
    let cp1 = Vec2 { x: start.x + d1x, y: start.y + d1y };
    let cp2 = Vec2 {
        x: end.x - div_tz(forth.pos.x - second.pos.x, 6),
        y: end.y - div_tz(forth.pos.y - second.pos.y, 6),
    };
    let len1 = hyp_len(d1x, d1y);
    let len2 = hyp_len(cp2.x - end.x, cp2.y - end.y);
    let cp1_final = if len1 > len2 + SCALE {
        proof {
            assert(-(250_000_000 * len1) <= d1x * len2 <= 250_000_000 * len1) by (nonlinear_arith)
                requires
                    -250_000_000 <= d1x <= 250_000_000 && 0 <= len2 < len1,
            ;
            assert(-(250_000_000 * len1) <= d1y * len2 <= 250_000_000 * len1) by (nonlinear_arith)
                requires
                    -250_000_000 <= d1y <= 250_000_000 && 0 <= len2 < len1,
            ;
            lemma_tz_scaled_bound(d1x as int * len2 as int, len1 as int, 250_000_000);
            lemma_tz_scaled_bound(d1y as int * len2 as int, len1 as int, 250_000_000);
        }
        Vec2 { x: start.x + div_tz(d1x * len2, len1), y: start.y + div_tz(d1y * len2, len1) }
    } else {
        cp1
    };
    Some(CubicBezier { start, cp1: cp1_final, cp2, end })
}

/// Builds the translated line between two consecutive samples, or reports
/// absence when the samples coincide: a zero-length line has no direction,
/// and offsetting it would have to normalize a zero vector. Coincidence of
/// the translated endpoints is exactly coincidence of the sample positions,
/// so no length is computed here.
pub fn filter_prepare_line_from_input(
    first: &InputSample,
    second: &InputSample,
    offset: Vec2,
) -> (r: Option<Line>)
    requires
        in_range(first.pos, MAX_TRANSLATED as int),
        in_range(second.pos, MAX_TRANSLATED as int),
        in_range(offset, MAX_TRANSLATED as int),
    ensures
        r is None <==> first.pos == second.pos,
        r matches Some(l) ==> {
            &&& l.start == v2(first.pos.x + offset.x, first.pos.y + offset.y)
            &&& l.end == v2(second.pos.x + offset.x, second.pos.y + offset.y)
            &&& line_ok(l)
        },
{
    let line = Line {
        start: Vec2 { x: first.pos.x + offset.x, y: first.pos.y + offset.y },
        end: Vec2 { x: second.pos.x + offset.x, y: second.pos.y + offset.y },
    };
    if line.end.x - line.start.x == 0 && line.end.y - line.start.y == 0 {
        return None;
    }
    Some(line)
}

} // verus!
