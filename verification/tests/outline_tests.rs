use stroke_compose::CubicBezier;
use stroke_compose::Line;
use stroke_compose::PathCommand;
use stroke_compose::QuadBezier;
use stroke_compose::Vec2;
use stroke_compose::cubic_acceptable;
use stroke_compose::cubic_bezier_offsetted;
use stroke_compose::cubic_bezier_variable_width;
use stroke_compose::linear_offsetted;
use stroke_compose::linear_variable_width;
use stroke_compose::quad_acceptable;
use stroke_compose::quad_bezier_offsetted;
use stroke_compose::quad_bezier_variable_width;

fn v(x: i64, y: i64) -> Vec2 {
    Vec2 { x, y }
}

fn target(c: &PathCommand) -> Vec2 {
    match *c {
        PathCommand::MoveTo { to } => to,
        PathCommand::LineTo { to } => to,
        PathCommand::QuadraticCurveTo { to, .. } => to,
        PathCommand::CubicCurveTo { to, .. } => to,
        PathCommand::EllipticalArcTo { to, .. } => to,
    }
}

#[test]
fn line_offset_displaces_both_endpoints() {
    let l = Line { start: v(0, 0), end: v(10_000, 0) };
    let cmds = linear_offsetted(l, 1000, 2000, true);
    assert_eq!(
        cmds,
        vec![
            PathCommand::MoveTo { to: v(0, -1000) },
            PathCommand::LineTo { to: v(10_000, -2000) },
        ]
    );
    let tail = linear_offsetted(l, 1000, 2000, false);
    assert_eq!(tail, vec![PathCommand::LineTo { to: v(10_000, -2000) }]);
}

#[test]
fn tapered_line_outline_runs_both_edges() {
    // Width 2 units at the start, 4 at the end: the forward edge lies at
    // y = -1 / -2, the reverse edge at y = +1 / +2, and the outline closes.
    let l = Line { start: v(0, 0), end: v(10_000, 0) };
    let cmds = linear_variable_width(l, 2000, 4000);
    assert_eq!(
        cmds,
        vec![
            PathCommand::MoveTo { to: v(0, -1000) },
            PathCommand::LineTo { to: v(10_000, -2000) },
            PathCommand::EllipticalArcTo {
                rx: 2000,
                ry: 2000,
                rotation: 0,
                large_arc: false,
                sweep: false,
                to: v(10_000, 2000),
            },
            PathCommand::LineTo { to: v(0, 1000) },
            PathCommand::EllipticalArcTo {
                rx: 1000,
                ry: 1000,
                rotation: 0,
                large_arc: false,
                sweep: false,
                to: v(0, -1000),
            },
        ]
    );
    assert_eq!(target(&cmds[4]), target(&cmds[0]));
}

#[test]
fn constant_width_edges_are_symmetric_about_a_diagonal_line() {
    let l = Line { start: v(0, 0), end: v(3000, 4000) };
    let cmds = linear_variable_width(l, 2000, 2000);
    assert_eq!(cmds.len(), 5);
    let fwd_start = target(&cmds[0]);
    let fwd_end = target(&cmds[1]);
    let rev_end = target(&cmds[2]);
    let rev_start = target(&cmds[3]);
    assert_eq!(fwd_start.x + rev_start.x, 2 * l.start.x);
    assert_eq!(fwd_start.y + rev_start.y, 2 * l.start.y);
    assert_eq!(fwd_end.x + rev_end.x, 2 * l.end.x);
    assert_eq!(fwd_end.y + rev_end.y, 2 * l.end.y);
    // On the 3-4-5 grid the offsets are exact: one unit to each side.
    assert_eq!(fwd_start, v(800, -600));
    assert_eq!(rev_start, v(-800, 600));
}

#[test]
fn straight_quad_offsets_like_a_line() {
    let q = QuadBezier { start: v(0, 0), cp1: v(5000, 0), end: v(10_000, 0) };
    let cmds = quad_bezier_offsetted(q, 1000, 1000, true);
    assert_eq!(
        cmds,
        vec![
            PathCommand::MoveTo { to: v(0, -1000) },
            PathCommand::QuadraticCurveTo { cp1: v(5000, -1000), to: v(10_000, -1000) },
        ]
    );
}

#[test]
fn quad_outline_has_straight_caps() {
    let q = QuadBezier { start: v(0, 0), cp1: v(5000, 0), end: v(10_000, 0) };
    let cmds = quad_bezier_variable_width(q, 2000, 2000);
    assert_eq!(
        cmds,
        vec![
            PathCommand::MoveTo { to: v(0, -1000) },
            PathCommand::QuadraticCurveTo { cp1: v(5000, -1000), to: v(10_000, -1000) },
            PathCommand::LineTo { to: v(10_000, 1000) },
            PathCommand::QuadraticCurveTo { cp1: v(5000, 1000), to: v(0, 1000) },
            PathCommand::LineTo { to: v(0, 1000) },
        ]
    );
}

#[test]
fn acceptability_checks_reject_degenerate_curves() {
    let good = QuadBezier { start: v(0, 0), cp1: v(5000, 0), end: v(10_000, 0) };
    assert!(quad_acceptable(good));
    let pinched = QuadBezier { start: v(0, 0), cp1: v(0, 0), end: v(10_000, 0) };
    assert!(!quad_acceptable(pinched));
    let straight_cubic = CubicBezier {
        start: v(0, 0),
        cp1: v(3000, 0),
        cp2: v(6000, 0),
        end: v(9000, 0),
    };
    assert!(cubic_acceptable(straight_cubic));
    let folded = QuadBezier { start: v(0, 0), cp1: v(5000, 0), end: v(0, 0) };
    assert!(!quad_acceptable(folded));
}

#[test]
fn cubic_offset_concatenates_its_two_quadratics() {
    let c = CubicBezier {
        start: v(0, 0),
        cp1: v(3000, 0),
        cp2: v(6000, 0),
        end: v(9000, 0),
    };
    let cmds = cubic_bezier_offsetted(c, 1000, 1000, true);
    assert_eq!(
        cmds,
        vec![
            PathCommand::MoveTo { to: v(0, -1000) },
            PathCommand::QuadraticCurveTo { cp1: v(2250, -1000), to: v(4500, -1000) },
            PathCommand::QuadraticCurveTo { cp1: v(6750, -1000), to: v(9000, -1000) },
        ]
    );
}

#[test]
fn cubic_outline_is_two_quad_outlines() {
    let c = CubicBezier {
        start: v(0, 0),
        cp1: v(3000, 0),
        cp2: v(6000, 0),
        end: v(9000, 0),
    };
    let cmds = cubic_bezier_variable_width(c, 2000, 2000);
    assert_eq!(cmds.len(), 10);
    assert_eq!(cmds[0], PathCommand::MoveTo { to: v(0, -1000) });
    assert_eq!(cmds[5], PathCommand::MoveTo { to: v(4500, -1000) });
    assert_eq!(
        cmds[1],
        PathCommand::QuadraticCurveTo { cp1: v(2250, -1000), to: v(4500, -1000) }
    );
    assert_eq!(cmds[2], PathCommand::LineTo { to: v(4500, 1000) });
}
