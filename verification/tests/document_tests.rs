use stroke_compose::Aabb;
use stroke_compose::Vec2;
use stroke_compose::add_xml_header;
use stroke_compose::bounds_attributes;
use stroke_compose::remove_xml_header;
use stroke_compose::strip_svg_root;
use stroke_compose::template_admissible;
use stroke_compose::viewbox_attribute;
use stroke_compose::wrap_svg;

fn v(x: i64, y: i64) -> Vec2 {
    Vec2 { x, y }
}

const HEADER: &str = "<?xml version=\"1.0\" standalone=\"no\"?>";

#[test]
fn add_header_prepends_once() {
    let doc = "<svg></svg>";
    let once = add_xml_header(doc);
    assert_eq!(once, format!("{}\n{}", HEADER, doc));
    let twice = add_xml_header(&once);
    assert_eq!(twice, once);
}

#[test]
fn add_header_leaves_existing_header_alone() {
    let doc = "<?xml version=\"1.1\"?><svg/>";
    assert_eq!(add_xml_header(doc), doc);
}

#[test]
fn remove_header_strips_declaration_and_line_break() {
    let doc = format!("{}\n<svg/>", HEADER);
    assert_eq!(remove_xml_header(&doc), "<svg/>");
}

#[test]
fn remove_header_strips_every_occurrence() {
    let doc = "a<?xml x?>b<?xml y?>c";
    assert_eq!(remove_xml_header(doc), "abc");
}

#[test]
fn remove_header_is_idempotent_even_when_removal_splices() {
    // Removing the inner declaration splices the text into a new one, which
    // the rescan removes as well.
    let doc = "<?x<?xml a?>ml b?>";
    let once = remove_xml_header(doc);
    assert_eq!(once, "");
    assert_eq!(remove_xml_header(&once), once);
}

#[test]
fn remove_header_keeps_plain_documents() {
    assert_eq!(remove_xml_header("<svg><path d=\"M 0 0\"/></svg>"), "<svg><path d=\"M 0 0\"/></svg>");
}

#[test]
fn strip_after_add_recovers_the_document() {
    let doc = "<svg><path/></svg>";
    assert_eq!(remove_xml_header(&add_xml_header(doc)), doc);
}

#[test]
fn strip_svg_root_removes_both_tag_forms() {
    assert_eq!(strip_svg_root("<svg width=\"3\"><path/></svg>"), "<path/>");
    assert_eq!(strip_svg_root("no tags here"), "no tags here");
}

#[test]
fn strip_svg_root_is_idempotent() {
    let doc = "<svg><svg x=\"1\">body</svg></svg>";
    let once = strip_svg_root(doc);
    assert_eq!(once, "body");
    assert_eq!(strip_svg_root(&once), once);
}

#[test]
fn bounds_round_to_whole_units() {
    // mins (1.2, 3.7), maxs (10.1, 3.9): floor of the minima, ceiling of
    // the extents.
    let b = Aabb { mins: v(1200, 3700), maxs: v(10_100, 3900) };
    let (x, y, w, h) = bounds_attributes(Some(b));
    assert_eq!(x, "1");
    assert_eq!(y, "3");
    assert_eq!(w, "9");
    assert_eq!(h, "1");
}

#[test]
fn missing_bounds_fit_the_container() {
    let (x, y, w, h) = bounds_attributes(None);
    assert_eq!(x, "0");
    assert_eq!(y, "0");
    assert_eq!(w, "100%");
    assert_eq!(h, "100%");
}

#[test]
fn negative_bounds_floor_downward() {
    let b = Aabb { mins: v(-1200, -2000), maxs: v(0, 0) };
    let (x, y, w, h) = bounds_attributes(Some(b));
    assert_eq!(x, "-2");
    assert_eq!(y, "-2");
    assert_eq!(w, "2");
    assert_eq!(h, "2");
}

#[test]
fn viewbox_attribute_is_rounded_like_bounds() {
    let b = Aabb { mins: v(0, 0), maxs: v(1000, 2000) };
    assert_eq!(viewbox_attribute(Some(b)), "viewBox=\"0 0 1 2\"");
    assert_eq!(viewbox_attribute(None), "");
}

#[test]
fn wrap_svg_substitutes_every_field() {
    let template = "{{x}}|{{y}}|{{width}}|{{height}}|{{viewbox}}|{{preserve_aspectratio}}|{{data}}";
    let b = Aabb { mins: v(1200, 3700), maxs: v(10_100, 3900) };
    let out = wrap_svg("<path/>", Some(b), None, false, false, template).unwrap();
    assert_eq!(out, "1|3|9|1||none|<path/>");
}

#[test]
fn wrap_svg_honours_header_flag_and_aspect_policy() {
    let template = "{% if xml_header %}H|{% endif %}{{preserve_aspectratio}}|{{viewbox}}";
    let b = Aabb { mins: v(0, 0), maxs: v(1000, 2000) };
    let out = wrap_svg("", None, Some(b), true, true, template).unwrap();
    assert_eq!(out, "H|xMidyMid|viewBox=\"0 0 1 2\"");
}

#[test]
fn wrap_svg_rejects_a_broken_template() {
    assert!(wrap_svg("", None, None, false, false, "{% if %}").is_none());
}

#[test]
fn template_admissibility_keeps_braces_to_delimiters() {
    assert!(template_admissible("<svg x=\"{{x}}\">{{data}}</svg>"));
    assert!(template_admissible("{% if xml_header %}H{% endif %}{# note #}"));
    // A map literal inside an expression or statement is refused: the
    // engine would walk it in unordered fashion.
    assert!(!template_admissible("{% for k in {\"a\": 1} %}{{k}}{% endfor %}"));
    assert!(!template_admissible("{{ {\"a\": 1} }}"));
    // A stray brace outside any tag is refused too.
    assert!(!template_admissible("body { fill: none }"));
    // The engine's reserved names are refused: `__tera_context` would dump
    // the whole context as a map.
    assert!(!template_admissible("{{ __tera_context }}"));
}

#[test]
fn wrap_svg_refuses_an_inadmissible_template() {
    assert!(wrap_svg("", None, None, false, false, "{{ {\"a\": 1, \"b\": 2} }}").is_none());
    assert!(wrap_svg("", None, None, false, false, "{{ __tera_context }}").is_none());
}
