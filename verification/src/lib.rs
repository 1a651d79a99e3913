//! Building fillable outlines for variable-width pen strokes, and composing
//! the resulting path data into complete SVG documents.
//!
//! Coordinates are exact fixed-point values: an `i64` counts thousandths of
//! a unit (`SCALE` steps per unit), so every geometric computation here is
//! integer arithmetic with a stated rounding rule, and every contract pins
//! the result exactly.

use vstd::prelude::*;

mod compose;
mod fixed;
mod geometry;
mod headers;
mod offset;
mod svg_root;

verus! {

// The coordinate model.
pub use crate::fixed::SCALE;
pub use crate::fixed::MAX_COORD;
pub use crate::fixed::Vec2;
pub use crate::fixed::Aabb;
pub use crate::fixed::in_range;
pub use crate::fixed::tz;
pub use crate::fixed::v2;
pub use crate::fixed::negv;
pub use crate::fixed::vlen;
pub use crate::fixed::isqrt_of;

// Geometric primitives and the spline fitter.
pub use crate::geometry::Line;
pub use crate::geometry::QuadBezier;
pub use crate::geometry::CubicBezier;
pub use crate::geometry::InputSample;
pub use crate::geometry::MAX_SAMPLE;
pub use crate::geometry::MAX_TRANSLATED;
pub use crate::geometry::line_ok;
pub use crate::geometry::split_first;
pub use crate::geometry::split_second;
pub use crate::geometry::catmull_fit;
pub use crate::geometry::split_cubic_bezier;
pub use crate::geometry::cubic_bezier_w_catmull_rom;
pub use crate::geometry::filter_prepare_line_from_input;

// Offsetting and outline assembly.
pub use crate::offset::PathCommand;
pub use crate::offset::cmd_to;
pub use crate::offset::unorm;
pub use crate::offset::offp;
pub use crate::offset::dirv;
pub use crate::offset::quad_ok;
pub use crate::offset::cubic_ok;
pub use crate::offset::quad_acceptable;
pub use crate::offset::cubic_acceptable;
pub use crate::offset::linear_offsetted_cmds;
pub use crate::offset::linear_vw_cmds;
pub use crate::offset::quad_offsetted_cmds;
pub use crate::offset::quad_vw_cmds;
pub use crate::offset::cubic_offsetted_cmds;
pub use crate::offset::cubic_vw_cmds;
pub use crate::offset::vector2_unit_norm;
pub use crate::offset::linear_offsetted;
pub use crate::offset::linear_variable_width;
pub use crate::offset::quad_bezier_offsetted;
pub use crate::offset::quad_bezier_variable_width;
pub use crate::offset::cubic_bezier_offsetted;
pub use crate::offset::cubic_bezier_variable_width;
pub use crate::offset::lemma_linear_width_symmetry;

// The document composer.
pub use crate::headers::has_hdr;
pub use crate::headers::with_header;
pub use crate::headers::strip_all;
pub use crate::headers::add_xml_header;
pub use crate::headers::remove_xml_header;
pub use crate::headers::lemma_add_header_idempotent;
pub use crate::headers::lemma_strip_idempotent;
pub use crate::headers::lemma_strip_after_add_roundtrip;
pub use crate::svg_root::has_svg_tag;
pub use crate::svg_root::strip_tags_all;
pub use crate::svg_root::strip_svg_root;
pub use crate::compose::aabb_ok;
pub use crate::compose::floor_units;
pub use crate::compose::ceil_units;
pub use crate::compose::int_str;
pub use crate::compose::bounds_x;
pub use crate::compose::bounds_y;
pub use crate::compose::bounds_w;
pub use crate::compose::bounds_h;
pub use crate::compose::viewbox_text;
pub use crate::compose::aspect_text;
pub use crate::compose::render_of;
pub use crate::compose::render_accepts;
pub use crate::compose::admissible_template;
pub use crate::compose::template_admissible;
pub use crate::compose::bounds_attributes;
pub use crate::compose::viewbox_attribute;
pub use crate::compose::wrap_svg;

} // verus!
