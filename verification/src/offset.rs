//! Offsetting of lines and curves, and assembly of closed variable-width
//! outlines.
//!
//! A stroke contour is built by tracing the path offset to one side by the
//! half-width, capping, and tracing it back offset to the other side. The
//! offset of a quadratic is a first-order approximation (the true offset of a
//! curve is not polynomial); subdivision keeps segments short enough for the
//! error not to show. All arithmetic is exact fixed-point with rounding
//! toward zero, so every contract below pins the emitted commands exactly.

use vstd::prelude::*;

use crate::fixed::MAX_COORD;
use crate::fixed::SCALE;
use crate::fixed::Vec2;
use crate::fixed::div_tz;
use crate::fixed::hyp_len;
use crate::fixed::in_range;
use crate::fixed::lemma_component_le_len;
use crate::fixed::lemma_tz_neg;
use crate::fixed::lemma_tz_scaled_bound;
use crate::fixed::lemma_vlen_neg;
use crate::fixed::negv;
use crate::fixed::tz;
use crate::fixed::v2;
use crate::fixed::vlen;
use crate::geometry::CubicBezier;
use crate::geometry::Line;
use crate::geometry::QuadBezier;
use crate::geometry::line_ok;
use crate::geometry::split_cubic_bezier;
use crate::geometry::split_first;
use crate::geometry::split_second;

verus! {

/// One absolute-coordinate path-drawing command. An outline is an ordered
/// sequence of these; a contour begins with a `MoveTo` unless it extends a
/// previous one, which is why every offsetter takes a `move_start` flag.
#[derive(Clone, Copy, Debug, PartialEq, Eq, Structural)]
pub enum PathCommand {
    MoveTo { to: Vec2 },
    LineTo { to: Vec2 },
    QuadraticCurveTo { cp1: Vec2, to: Vec2 },
    CubicCurveTo { cp1: Vec2, cp2: Vec2, to: Vec2 },
    EllipticalArcTo { rx: i64, ry: i64, rotation: i64, large_arc: bool, sweep: bool, to: Vec2 },
}

/// The point a command draws to.
pub open spec fn cmd_to(c: PathCommand) -> Vec2 {
    match c {
        PathCommand::MoveTo { to } => to,
        PathCommand::LineTo { to } => to,
        PathCommand::QuadraticCurveTo { cp1, to } => to,
        PathCommand::CubicCurveTo { cp1, cp2, to } => to,
        PathCommand::EllipticalArcTo { rx, ry, rotation, large_arc, sweep, to } => to,
    }
}

/// The direction vector of a line.
pub open spec fn dirv(l: Line) -> Vec2 {
    v2(l.end.x - l.start.x, l.end.y - l.start.y)
}

/// The unit normal of `v`, in fixed-point steps: `v`, normalized to length
/// `SCALE` (rounding each component toward zero), rotated a quarter turn so
/// that the normal of a rightward vector points toward smaller `y`.
pub open spec fn unorm(v: Vec2) -> Vec2
    recommends
        !(v.x == 0 && v.y == 0),
{
    let l = vlen(v.x as int, v.y as int);
    v2(tz(v.y * SCALE, l), tz(-(v.x as int) * SCALE, l))
}

/// `p` displaced by `d` along the unit normal `u` (components scaled back
/// down by `SCALE`, rounding toward zero).
pub open spec fn offp(p: Vec2, u: Vec2, d: int) -> Vec2 {
    v2(p.x + tz(u.x * d, SCALE as int), p.y + tz(u.y * d, SCALE as int))
}

/// The components of a unit normal have magnitude at most `SCALE`.
pub proof fn lemma_unorm_bound(v: Vec2)
    requires
        in_range(v, 2 * MAX_COORD as int),
        !(v.x == 0 && v.y == 0),
    ensures
        in_range(unorm(v), SCALE as int),
{
    let l = vlen(v.x as int, v.y as int);
    lemma_component_le_len(v.x as int, v.y as int);
    crate::fixed::lemma_isqrt_property((v.x * v.x + v.y * v.y) as nat);
    assert(v.x * v.x + v.y * v.y >= 1) by (nonlinear_arith)
        requires
            !(v.x == 0 && v.y == 0),
    ;
    if (v.x * v.x + v.y * v.y) as nat >= 1 && crate::fixed::isqrt_of(
        (v.x * v.x + v.y * v.y) as nat,
    ) == 0 {
        assert(false);
    }
    assert(l >= 1);
    assert(-(SCALE * l) <= v.y * SCALE <= SCALE * l && -(SCALE * l) <= -(v.x as int) * SCALE
        <= SCALE * l) by (nonlinear_arith)
        requires
            -l <= v.x <= l && -l <= v.y <= l && SCALE == 1000i64,
    ;
    lemma_tz_scaled_bound(v.y * SCALE, l, SCALE as int);
    lemma_tz_scaled_bound(-(v.x as int) * SCALE, l, SCALE as int);
}

/// Negating a vector negates its unit normal exactly: rounding toward zero is
/// symmetric about zero.
pub proof fn lemma_unorm_neg(v: Vec2)
    requires
        in_range(v, 2 * MAX_COORD as int),
        !(v.x == 0 && v.y == 0),
    ensures
        unorm(negv(v)) == negv(unorm(v)),
{
    let l = vlen(v.x as int, v.y as int);
    lemma_vlen_neg(v.x as int, v.y as int);
    crate::fixed::lemma_vlen_positive(v.x as int, v.y as int);
    lemma_unorm_bound(v);
    assert(negv(v).x == -(v.x as int) && negv(v).y == -(v.y as int));
    assert(vlen(negv(v).x as int, negv(v).y as int) == l);
    lemma_tz_neg(v.y * SCALE, l);
    lemma_tz_neg(-(v.x as int) * SCALE, l);
    assert(negv(v).y * SCALE == -(v.y * SCALE));
    assert(-(negv(v).x as int) * SCALE == v.x * SCALE);
    assert(tz(v.x * SCALE, l) == -tz(-(v.x as int) * SCALE, l)) by {
        lemma_tz_neg(-(v.x as int) * SCALE, l);
    }
}

/// The unit normal, computed. Rejects the zero vector, which has no
/// direction: callers filter degenerate geometry first.
pub fn vector2_unit_norm(vec: Vec2) -> (r: Vec2)
    requires
        in_range(vec, 2 * MAX_COORD as int),
        !(vec.x == 0 && vec.y == 0),
    ensures
        r == unorm(vec),
        in_range(r, SCALE as int),
{
    proof {
        lemma_unorm_bound(vec);
    }
    let l = hyp_len(vec.x, vec.y);
    let nx = div_tz(vec.y * SCALE, l);
    let ny = div_tz(-(vec.x) * SCALE, l);
    Vec2 { x: nx, y: ny }
}

/// `p` displaced by `d` along the unit normal `u`, computed.
fn offset_point(p: Vec2, u: Vec2, d: i64) -> (r: Vec2)
    requires
        in_range(p, MAX_COORD as int),
        in_range(u, SCALE as int),
        -MAX_COORD <= d <= MAX_COORD,
    ensures
        r == offp(p, u, d as int),
        in_range(r, 2 * MAX_COORD as int),
{
    proof {
        assert(-(MAX_COORD as int * SCALE) <= u.x * d <= MAX_COORD as int * SCALE && -(
        MAX_COORD as int * SCALE) <= u.y * d <= MAX_COORD as int * SCALE) by (nonlinear_arith)
            requires
                -SCALE <= u.x <= SCALE && -SCALE <= u.y <= SCALE && -MAX_COORD <= d <= MAX_COORD
                    && SCALE == 1000i64 && MAX_COORD == 1_000_000_000i64,
        ;
        lemma_tz_scaled_bound(u.x * d, SCALE as int, MAX_COORD as int);
        lemma_tz_scaled_bound(u.y * d, SCALE as int, MAX_COORD as int);
    }
    Vec2 { x: p.x + div_tz(u.x * d, SCALE), y: p.y + div_tz(u.y * d, SCALE) }
}

/// The commands tracing `l` displaced sideways: a `MoveTo` onto the offset
/// start (if requested) and a `LineTo` onto the offset end.
pub open spec fn linear_offsetted_cmds(l: Line, ds: int, de: int, move_start: bool) -> Seq<
    PathCommand,
> {
    let u = unorm(dirv(l));
    let first = PathCommand::MoveTo { to: offp(l.start, u, ds) };
    let last = PathCommand::LineTo { to: offp(l.end, u, de) };
    if move_start {
        seq![first, last]
    } else {
        seq![last]
    }
}

/// Offsets a line: displaces its endpoints by the given distances along the
/// line's unit normal and emits the commands drawing the displaced segment.
pub fn linear_offsetted(
    line: Line,
    start_offset_dist: i64,
    end_offset_dist: i64,
    move_start: bool,
) -> (r: Vec<PathCommand>)
    requires
        line_ok(line),
        -MAX_COORD <= start_offset_dist <= MAX_COORD,
        -MAX_COORD <= end_offset_dist <= MAX_COORD,
    ensures
        r@ == linear_offsetted_cmds(line, start_offset_dist as int, end_offset_dist as int, move_start),
{
    let d = Vec2 { x: line.end.x - line.start.x, y: line.end.y - line.start.y };
    assert(d == dirv(line));
    let u = vector2_unit_norm(d);
    let mut commands: Vec<PathCommand> = Vec::new();
    if move_start {
        commands.push(PathCommand::MoveTo { to: offset_point(line.start, u, start_offset_dist) });
    }
    commands.push(PathCommand::LineTo { to: offset_point(line.end, u, end_offset_dist) });
    assert(commands@ =~= linear_offsetted_cmds(
        line,
        start_offset_dist as int,
        end_offset_dist as int,
        move_start,
    ));
    commands
}

/// The closed outline of a straight stroke segment whose width tapers from
/// `ws` at the start to `we` at the end: the forward edge offset by the half
/// widths, a round cap, the reverse edge, and a second round cap landing back
/// on the outline's first point.
pub open spec fn linear_vw_cmds(l: Line, ws: int, we: int) -> Seq<PathCommand> {
    let hs = ws / 2;
    let he = we / 2;
    let u = unorm(dirv(l));
    let rl = Line { start: l.end, end: l.start };
    linear_offsetted_cmds(l, hs, he, true) + seq![
        PathCommand::EllipticalArcTo {
            rx: he as i64,
            ry: he as i64,
            rotation: 0,
            large_arc: false,
            sweep: false,
            to: offp(l.end, u, -he),
        },
    ] + linear_offsetted_cmds(rl, he, hs, false) + seq![
        PathCommand::EllipticalArcTo {
            rx: hs as i64,
            ry: hs as i64,
            rotation: 0,
            large_arc: false,
            sweep: false,
            to: offp(l.start, u, hs),
        },
    ]
}

/// Builds the closed tapered outline of a line: forward offset at the half
/// widths, an arc cap at the end, the reversed line offset at the swapped
/// half widths, and an arc cap back onto the start.
pub fn linear_variable_width(line: Line, width_start: i64, width_end: i64) -> (r: Vec<PathCommand>)
    requires
        line_ok(line),
        0 <= width_start <= MAX_COORD,
        0 <= width_end <= MAX_COORD,
    ensures
        r@ == linear_vw_cmds(line, width_start as int, width_end as int),
{
    let start_offset_dist = div_tz(width_start, 2);
    let end_offset_dist = div_tz(width_end, 2);
    let line_reverse = Line { start: line.end, end: line.start };
    let d = Vec2 { x: line.end.x - line.start.x, y: line.end.y - line.start.y };
    assert(d == dirv(line));
    let direction_unit_norm = vector2_unit_norm(d);
    let mut commands = linear_offsetted(line, start_offset_dist, end_offset_dist, true);
    commands.push(
        PathCommand::EllipticalArcTo {
            rx: end_offset_dist,
            ry: end_offset_dist,
            rotation: 0,
            large_arc: false,
            sweep: false,
            to: offset_point(line.end, direction_unit_norm, -end_offset_dist),
        },
    );
    let mut back = linear_offsetted(line_reverse, end_offset_dist, start_offset_dist, false);
    commands.append(&mut back);
    commands.push(
        PathCommand::EllipticalArcTo {
            rx: start_offset_dist,
            ry: start_offset_dist,
            rotation: 0,
            large_arc: false,
            sweep: false,
            to: offset_point(line_reverse.end, direction_unit_norm, start_offset_dist),
        },
    );
    assert(commands@ =~= linear_vw_cmds(line, width_start as int, width_end as int));
    commands
}

/// The start tangent of a quadratic: `cp1 - start`.
pub open spec fn quad_start_tangent(q: QuadBezier) -> Vec2 {
    v2(q.cp1.x - q.start.x, q.cp1.y - q.start.y)
}

/// The end tangent of a quadratic: `end - cp1`.
pub open spec fn quad_end_tangent(q: QuadBezier) -> Vec2 {
    v2(q.end.x - q.cp1.x, q.end.y - q.cp1.y)
}

/// The sum of the two endpoint unit normals; the control point is displaced
/// along this averaged direction.
pub open spec fn added_norms(q: QuadBezier) -> Vec2 {
    let u1 = unorm(quad_start_tangent(q));
    let u2 = unorm(quad_end_tangent(q));
    v2(u1.x + u2.x, u1.y + u2.y)
}

/// A quadratic the offsetter accepts: in range, with nonzero tangents (else
/// a unit normal would not exist) and endpoint normals that do not cancel
/// (else the control-point displacement would divide by zero).
pub open spec fn quad_ok(q: QuadBezier) -> bool {
    &&& in_range(q.start, MAX_COORD as int)
    &&& in_range(q.cp1, MAX_COORD as int)
    &&& in_range(q.end, MAX_COORD as int)
    &&& q.cp1 != q.start
    &&& q.end != q.cp1
    &&& !(added_norms(q).x == 0 && added_norms(q).y == 0)
}

/// The commands tracing `q` displaced sideways: endpoints move along their
/// own tangent normals; the control point moves along the renormalized sum
/// of the two, scaled to the mid distance.
pub open spec fn quad_offsetted_cmds(q: QuadBezier, ds: int, de: int, move_start: bool) -> Seq<
    PathCommand,
> {
    let u1 = unorm(quad_start_tangent(q));
    let u2 = unorm(quad_end_tangent(q));
    let a = added_norms(q);
    let dm = tz(ds + de, 2);
    let dot = a.x * a.x + a.y * a.y;
    let cp = v2(
        q.cp1.x + tz(2 * dm * a.x * SCALE, dot),
        q.cp1.y + tz(2 * dm * a.y * SCALE, dot),
    );
    let last = PathCommand::QuadraticCurveTo { cp1: cp, to: offp(q.end, u2, de) };
    if move_start {
        seq![PathCommand::MoveTo { to: offp(q.start, u1, ds) }, last]
    } else {
        seq![last]
    }
}

/// Offsets a quadratic, approximately: exact at the endpoints, first-order
/// at the control point (the averaged-normal construction).
pub fn quad_bezier_offsetted(
    quad_bezier: QuadBezier,
    start_offset_dist: i64,
    end_offset_dist: i64,
    move_start: bool,
) -> (r: Vec<PathCommand>)
    requires
        quad_ok(quad_bezier),
        -MAX_COORD <= start_offset_dist <= MAX_COORD,
        -MAX_COORD <= end_offset_dist <= MAX_COORD,
    ensures
        r@ == quad_offsetted_cmds(
            quad_bezier,
            start_offset_dist as int,
            end_offset_dist as int,
            move_start,
        ),
{
    let q = quad_bezier;
    let t1 = Vec2 { x: q.cp1.x - q.start.x, y: q.cp1.y - q.start.y };
    let t2 = Vec2 { x: q.end.x - q.cp1.x, y: q.end.y - q.cp1.y };
    assert(t1 == quad_start_tangent(q) && t2 == quad_end_tangent(q));
    let start_unit_norm = vector2_unit_norm(t1);
    let end_unit_norm = vector2_unit_norm(t2);
    let ax = start_unit_norm.x + end_unit_norm.x;
    let ay = start_unit_norm.y + end_unit_norm.y;
    assert(ax == added_norms(q).x && ay == added_norms(q).y);
    let cp1_offset_dist = div_tz(start_offset_dist + end_offset_dist, 2);
    proof {
        assert(0 <= ax * ax <= 4_000_000 && 0 <= ay * ay <= 4_000_000) by (nonlinear_arith)
            requires
                -2000 <= ax <= 2000 && -2000 <= ay <= 2000,
        ;
        assert(ax * ax + ay * ay >= 1) by (nonlinear_arith)
            requires
                !(ax == 0 && ay == 0),
        ;
    }
    let dot = ax * ax + ay * ay;
    proof {
        assert(-4_000_000_000_000_000 <= 2 * cp1_offset_dist * ax * SCALE <= 4_000_000_000_000_000
            && -4_000_000_000_000_000 <= 2 * cp1_offset_dist * ay * SCALE
            <= 4_000_000_000_000_000) by (nonlinear_arith)
            requires
                -MAX_COORD <= cp1_offset_dist <= MAX_COORD && -2000 <= ax <= 2000 && -2000 <= ay
                    <= 2000 && MAX_COORD == 1_000_000_000i64 && SCALE == 1000i64,
        ;
    }
    let cp1_offset_x = div_tz(2 * cp1_offset_dist * ax * SCALE, dot);
    let cp1_offset_y = div_tz(2 * cp1_offset_dist * ay * SCALE, dot);
    let cp = Vec2 { x: q.cp1.x + cp1_offset_x, y: q.cp1.y + cp1_offset_y };
    let mut commands: Vec<PathCommand> = Vec::new();
    if move_start {
        commands.push(
            PathCommand::MoveTo { to: offset_point(q.start, start_unit_norm, start_offset_dist) },
        );
    }
    commands.push(
        PathCommand::QuadraticCurveTo {
            cp1: cp,
            to: offset_point(q.end, end_unit_norm, end_offset_dist),
        },
    );
    assert(commands@ =~= quad_offsetted_cmds(
        q,
        start_offset_dist as int,
        end_offset_dist as int,
        move_start,
    ));
    commands
}

/// The reversed quadratic: traced end to start.
pub open spec fn qrev(q: QuadBezier) -> QuadBezier {
    QuadBezier { start: q.end, cp1: q.cp1, end: q.start }
}

/// Reversal preserves acceptability: the reversed tangents are the negated
/// tangents, so the reversed unit normals are the negated normals.
pub proof fn lemma_qrev_ok(q: QuadBezier)
    requires
        quad_ok(q),
    ensures
        quad_ok(qrev(q)),
        added_norms(qrev(q)) == negv(added_norms(q)),
{
    let t1 = quad_start_tangent(q);
    let t2 = quad_end_tangent(q);
    assert(quad_start_tangent(qrev(q)) == negv(t2));
    assert(quad_end_tangent(qrev(q)) == negv(t1));
    lemma_unorm_neg(t1);
    lemma_unorm_neg(t2);
    lemma_unorm_bound(t1);
    lemma_unorm_bound(t2);
}

/// The closed outline of a quadratic stroke segment with tapered width: the
/// forward offset curve, a straight cap, the reverse offset curve, and a
/// straight cap back onto the outline's first point. Curve caps are straight
/// (line caps are round): an intentional visual simplification.
pub open spec fn quad_vw_cmds(q: QuadBezier, ws: int, we: int) -> Seq<PathCommand> {
    let hs = ws / 2;
    let he = we / 2;
    let u2 = unorm(quad_end_tangent(q));
    let rq = qrev(q);
    quad_offsetted_cmds(q, hs, he, true) + seq![
        PathCommand::LineTo { to: offp(q.end, u2, -he) },
    ] + quad_offsetted_cmds(rq, he, hs, false) + seq![
        PathCommand::LineTo { to: offp(rq.end, unorm(quad_end_tangent(rq)), hs) },
    ]
}

/// Builds the closed tapered outline of a quadratic.
pub fn quad_bezier_variable_width(quad_bezier: QuadBezier, width_start: i64, width_end: i64) -> (r:
    Vec<PathCommand>)
    requires
        quad_ok(quad_bezier),
        0 <= width_start <= MAX_COORD,
        0 <= width_end <= MAX_COORD,
    ensures
        r@ == quad_vw_cmds(quad_bezier, width_start as int, width_end as int),
{
    let q = quad_bezier;
    let start_offset_dist = div_tz(width_start, 2);
    let end_offset_dist = div_tz(width_end, 2);
    let quad_bezier_reverse = QuadBezier { start: q.end, cp1: q.cp1, end: q.start };
    proof {
        lemma_qrev_ok(q);
    }
    let mut commands = quad_bezier_offsetted(q, start_offset_dist, end_offset_dist, true);
    let t2 = Vec2 { x: q.end.x - q.cp1.x, y: q.end.y - q.cp1.y };
    assert(t2 == quad_end_tangent(q));
    let u2 = vector2_unit_norm(t2);
    commands.push(PathCommand::LineTo { to: offset_point(q.end, u2, -end_offset_dist) });
    let mut back = quad_bezier_offsetted(
        quad_bezier_reverse,
        end_offset_dist,
        start_offset_dist,
        false,
    );
    commands.append(&mut back);
    let t2r = Vec2 {
        x: quad_bezier_reverse.end.x - quad_bezier_reverse.cp1.x,
        y: quad_bezier_reverse.end.y - quad_bezier_reverse.cp1.y,
    };
    assert(t2r == quad_end_tangent(qrev(q)));
    let u2r = vector2_unit_norm(t2r);
    commands.push(
        PathCommand::LineTo { to: offset_point(quad_bezier_reverse.end, u2r, start_offset_dist) },
    );
    assert(commands@ =~= quad_vw_cmds(q, width_start as int, width_end as int));
    commands
}

/// Decides `quad_ok`, so a caller can establish the offsetter's
/// precondition for data it did not construct itself.
pub fn quad_acceptable(q: QuadBezier) -> (b: bool)
    ensures
        b == quad_ok(q),
{
    if !(-MAX_COORD <= q.start.x && q.start.x <= MAX_COORD && -MAX_COORD <= q.start.y && q.start.y
        <= MAX_COORD && -MAX_COORD <= q.cp1.x && q.cp1.x <= MAX_COORD && -MAX_COORD <= q.cp1.y
        && q.cp1.y <= MAX_COORD && -MAX_COORD <= q.end.x && q.end.x <= MAX_COORD && -MAX_COORD
        <= q.end.y && q.end.y <= MAX_COORD) {
        return false;
    }
    let t1 = Vec2 { x: q.cp1.x - q.start.x, y: q.cp1.y - q.start.y };
    if t1.x == 0 && t1.y == 0 {
        assert(q.cp1 == q.start);
        return false;
    }
    let t2 = Vec2 { x: q.end.x - q.cp1.x, y: q.end.y - q.cp1.y };
    if t2.x == 0 && t2.y == 0 {
        assert(q.end == q.cp1);
        return false;
    }
    assert(t1 == quad_start_tangent(q) && t2 == quad_end_tangent(q));
    let u1 = vector2_unit_norm(t1);
    let u2 = vector2_unit_norm(t2);
    !(u1.x + u2.x == 0 && u1.y + u2.y == 0)
}

/// Decides `cubic_ok`, so a caller can establish the offsetter's
/// precondition for data it did not construct itself.
pub fn cubic_acceptable(c: CubicBezier) -> (b: bool)
    ensures
        b == cubic_ok(c),
{
    if !(-MAX_COORD <= c.start.x && c.start.x <= MAX_COORD && -MAX_COORD <= c.start.y && c.start.y
        <= MAX_COORD && -MAX_COORD <= c.cp1.x && c.cp1.x <= MAX_COORD && -MAX_COORD <= c.cp1.y
        && c.cp1.y <= MAX_COORD && -MAX_COORD <= c.cp2.x && c.cp2.x <= MAX_COORD && -MAX_COORD
        <= c.cp2.y && c.cp2.y <= MAX_COORD && -MAX_COORD <= c.end.x && c.end.x <= MAX_COORD
        && -MAX_COORD <= c.end.y && c.end.y <= MAX_COORD) {
        return false;
    }
    let (first, second) = split_cubic_bezier(c);
    let first_ok = quad_acceptable(first);
    let second_ok = quad_acceptable(second);
    first_ok && second_ok
}

/// The commands of an offset cubic: its two split quadratics offset in turn,
/// meeting at the mid distance.
pub open spec fn cubic_offsetted_cmds(c: CubicBezier, ds: int, de: int, move_start: bool) -> Seq<
    PathCommand,
> {
    let dm = tz(ds + de, 2);
    quad_offsetted_cmds(split_first(c), ds, dm, move_start) + quad_offsetted_cmds(
        split_second(c),
        dm,
        de,
        false,
    )
}

/// All four points are in range and both split halves are acceptable to the
/// quadratic offsetter.
pub open spec fn cubic_ok(c: CubicBezier) -> bool {
    &&& in_range(c.start, MAX_COORD as int)
    &&& in_range(c.cp1, MAX_COORD as int)
    &&& in_range(c.cp2, MAX_COORD as int)
    &&& in_range(c.end, MAX_COORD as int)
    &&& quad_ok(split_first(c))
    &&& quad_ok(split_second(c))
}

/// Offsets a cubic by splitting it into two quadratics and offsetting each,
/// the first from the start distance to the mid distance, the second onward
/// to the end distance.
pub fn cubic_bezier_offsetted(
    cubic_bezier: CubicBezier,
    start_offset_dist: i64,
    end_offset_dist: i64,
    move_start: bool,
) -> (r: Vec<PathCommand>)
    requires
        cubic_ok(cubic_bezier),
        -MAX_COORD <= start_offset_dist <= MAX_COORD,
        -MAX_COORD <= end_offset_dist <= MAX_COORD,
    ensures
        r@ == cubic_offsetted_cmds(
            cubic_bezier,
            start_offset_dist as int,
            end_offset_dist as int,
            move_start,
        ),
{
    let mid_offset_dist = div_tz(start_offset_dist + end_offset_dist, 2);
    let (first_quad_bezier, second_quad_bezier) = split_cubic_bezier(cubic_bezier);
    let mut commands = quad_bezier_offsetted(
        first_quad_bezier,
        start_offset_dist,
        mid_offset_dist,
        move_start,
    );
    let mut rest = quad_bezier_offsetted(
        second_quad_bezier,
        mid_offset_dist,
        end_offset_dist,
        false,
    );
    commands.append(&mut rest);
    assert(commands@ =~= cubic_offsetted_cmds(
        cubic_bezier,
        start_offset_dist as int,
        end_offset_dist as int,
        move_start,
    ));
    commands
}

/// The closed outline of a cubic stroke segment: the outlines of its two
/// split quadratics, the width at their shared boundary being the midpoint
/// width.
pub open spec fn cubic_vw_cmds(c: CubicBezier, ws: int, we: int) -> Seq<PathCommand> {
    let wm = tz(ws + we, 2);
    quad_vw_cmds(split_first(c), ws, wm) + quad_vw_cmds(split_second(c), wm, we)
}

/// Builds the closed tapered outline of a cubic, as two quadratic outlines
/// sharing the midpoint width.
pub fn cubic_bezier_variable_width(cubic_bezier: CubicBezier, width_start: i64, width_end: i64) -> (r:
    Vec<PathCommand>)
    requires
        cubic_ok(cubic_bezier),
        0 <= width_start <= MAX_COORD,
        0 <= width_end <= MAX_COORD,
    ensures
        r@ == cubic_vw_cmds(cubic_bezier, width_start as int, width_end as int),
{
    let mid_width = div_tz(width_start + width_end, 2);
    let (first_quad_bezier, second_quad_bezier) = split_cubic_bezier(cubic_bezier);
    let mut commands = quad_bezier_variable_width(first_quad_bezier, width_start, mid_width);
    let mut rest = quad_bezier_variable_width(second_quad_bezier, mid_width, width_end);
    commands.append(&mut rest);
    assert(commands@ =~= cubic_vw_cmds(cubic_bezier, width_start as int, width_end as int));
    commands
}

/// For a line stroked at one constant width, the outline's two edges lie
/// symmetric about the line: at each endpoint, the forward-edge point and
/// the reverse-edge point average to the endpoint itself (so they lie at the
/// same distance from it, on opposite sides), and the final cap lands exactly
/// on the outline's first point, closing the contour.
pub proof fn lemma_linear_width_symmetry(l: Line, w: i64)
    requires
        line_ok(l),
        0 <= w <= MAX_COORD,
    ensures
        linear_vw_cmds(l, w as int, w as int).len() == 5,
        cmd_to(linear_vw_cmds(l, w as int, w as int)[0]).x + cmd_to(
            linear_vw_cmds(l, w as int, w as int)[3],
        ).x == 2 * l.start.x,
        cmd_to(linear_vw_cmds(l, w as int, w as int)[0]).y + cmd_to(
            linear_vw_cmds(l, w as int, w as int)[3],
        ).y == 2 * l.start.y,
        cmd_to(linear_vw_cmds(l, w as int, w as int)[1]).x + cmd_to(
            linear_vw_cmds(l, w as int, w as int)[2],
        ).x == 2 * l.end.x,
        cmd_to(linear_vw_cmds(l, w as int, w as int)[1]).y + cmd_to(
            linear_vw_cmds(l, w as int, w as int)[2],
        ).y == 2 * l.end.y,
        cmd_to(linear_vw_cmds(l, w as int, w as int)[4]) == cmd_to(
            linear_vw_cmds(l, w as int, w as int)[0],
        ),
{
    let h = (w as int) / 2;
    let d = dirv(l);
    let u = unorm(d);
    let rl = Line { start: l.end, end: l.start };
    assert(!(d.x == 0 && d.y == 0)) by {
        assert(l.start != l.end);
    }
    lemma_unorm_bound(d);
    assert(dirv(rl) == negv(d));
    lemma_unorm_neg(d);
    let ur = unorm(dirv(rl));
    assert(ur == negv(u));
    let cmds = linear_vw_cmds(l, w as int, w as int);
    assert(cmds[0] == PathCommand::MoveTo { to: offp(l.start, u, h) });
    assert(cmds[1] == PathCommand::LineTo { to: offp(l.end, u, h) });
    assert(cmd_to(cmds[2]) == offp(l.end, u, -h));
    assert(cmds[3] == PathCommand::LineTo { to: offp(rl.end, ur, h) });
    assert(cmd_to(cmds[4]) == offp(l.start, u, h));
    assert(0 <= h <= MAX_COORD as int) by {
        lemma_tz_scaled_bound(w as int, 2, MAX_COORD as int);
    }
    assert(-(MAX_COORD as int * SCALE) <= u.x * h <= MAX_COORD as int * SCALE && -(
    MAX_COORD as int * SCALE) <= u.y * h <= MAX_COORD as int * SCALE) by (nonlinear_arith)
        requires
            -SCALE <= u.x <= SCALE && -SCALE <= u.y <= SCALE && 0 <= h <= MAX_COORD as int
                && SCALE == 1000i64 && MAX_COORD == 1_000_000_000i64,
    ;
    lemma_tz_scaled_bound(u.x * h, SCALE as int, MAX_COORD as int);
    lemma_tz_scaled_bound(u.y * h, SCALE as int, MAX_COORD as int);
    lemma_tz_neg(u.x * h, SCALE as int);
    lemma_tz_neg(u.y * h, SCALE as int);
    assert(ur.x == -(u.x as int) && ur.y == -(u.y as int));
    assert(ur.x * h == -(u.x * h) && ur.y * h == -(u.y * h)) by (nonlinear_arith)
        requires
            ur.x == -(u.x as int) && ur.y == -(u.y as int),
    ;
    assert(u.x * -h == -(u.x * h) && u.y * -h == -(u.y * h)) by (nonlinear_arith);
}

} // verus!
