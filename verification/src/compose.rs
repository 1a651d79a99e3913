//! Composing a complete SVG document around already-serialized path data.
//!
//! The canvas placement is computed exactly: the floor of the bounds minimum
//! and the ceiling of the extent, in whole units of the fixed-point grid, as
//! decimal attribute strings. The final text substitution into the injected
//! template is the one outside call of this crate, kept behind a trusted
//! wrapper around the template engine.

use vstd::prelude::*;

use vstd::string::StrSliceExecFns;
use vstd::string::StringExecFns;

use crate::fixed::Aabb;
use crate::fixed::MAX_COORD;
use crate::fixed::SCALE;
use crate::fixed::in_range;

verus! {

/// Both corners of the box are in coordinate range.
pub open spec fn aabb_ok(b: Aabb) -> bool {
    in_range(b.mins, MAX_COORD as int) && in_range(b.maxs, MAX_COORD as int)
}

/// The whole-unit floor of a fixed-point value.
pub open spec fn floor_units(a: int) -> int {
    a / (SCALE as int)
}

/// The whole-unit ceiling of a fixed-point value.
pub open spec fn ceil_units(a: int) -> int {
    (a + SCALE - 1) / (SCALE as int)
}

/// The whole-unit floor, computed.
pub fn floor_units_exec(a: i64) -> (r: i64)
    requires
        -4_000_000_000 <= a <= 4_000_000_000,
    ensures
        r == floor_units(a as int),
        -4_000_000 <= r <= 4_000_000,
{
    if a >= 0 {
        ((a as u64) / 1000) as i64
    } else {
        let m: u64 = (-a) as u64;
        let q = (m / 1000) as i64;
        let rem = (m % 1000) as i64;
        proof {
            if rem == 0 {
                vstd::arithmetic::div_mod::lemma_fundamental_div_mod_converse(
                    a as int,
                    1000,
                    -(q as int),
                    0,
                );
            } else {
                vstd::arithmetic::div_mod::lemma_fundamental_div_mod_converse(
                    a as int,
                    1000,
                    -(q as int) - 1,
                    1000 - rem,
                );
            }
        }
        if rem == 0 {
            -q
        } else {
            -q - 1
        }
    }
}

/// The whole-unit ceiling, computed.
pub fn ceil_units_exec(a: i64) -> (r: i64)
    requires
        -3_000_000_000 <= a <= 3_000_000_000,
    ensures
        r == ceil_units(a as int),
        -3_000_001 <= r <= 3_000_001,
{
    floor_units_exec(a + 999)
}

/// The decimal digit character for `d`.
pub open spec fn dec_digit(d: nat) -> char
    recommends
        d < 10,
{
    if d == 0 {
        '0'
    } else if d == 1 {
        '1'
    } else if d == 2 {
        '2'
    } else if d == 3 {
        '3'
    } else if d == 4 {
        '4'
    } else if d == 5 {
        '5'
    } else if d == 6 {
        '6'
    } else if d == 7 {
        '7'
    } else if d == 8 {
        '8'
    } else {
        '9'
    }
}

/// The decimal digits of `n`, most significant first, with no leading zero
/// except for zero itself.
pub open spec fn dec_seq(n: nat) -> Seq<char>
    decreases n,
    via dec_seq_decreases
{
    if n < 10 {
        seq![dec_digit(n)]
    } else {
        dec_seq(n / 10) + seq![dec_digit(n % 10)]
    }
}

#[via_fn]
proof fn dec_seq_decreases(n: nat) {
    if n >= 10 {
        vstd::arithmetic::div_mod::lemma_div_decreases(n as int, 10);
    }
}

/// The decimal notation of `v`: a minus sign for negative values, then the
/// digits.
pub open spec fn int_str(v: int) -> Seq<char> {
    if v < 0 {
        seq!['-'] + dec_seq((-v) as nat)
    } else {
        dec_seq(v as nat)
    }
}

/// The one-character string for the digit `d`.
fn digit_str(d: u64) -> (r: &'static str)
    requires
        d < 10,
    ensures
        r@ == seq![dec_digit(d as nat)],
{
    proof {
        reveal_strlit("0");
        reveal_strlit("1");
        reveal_strlit("2");
        reveal_strlit("3");
        reveal_strlit("4");
        reveal_strlit("5");
        reveal_strlit("6");
        reveal_strlit("7");
        reveal_strlit("8");
        reveal_strlit("9");
    }
    let r: &'static str = if d == 0 {
        "0"
    } else if d == 1 {
        "1"
    } else if d == 2 {
        "2"
    } else if d == 3 {
        "3"
    } else if d == 4 {
        "4"
    } else if d == 5 {
        "5"
    } else if d == 6 {
        "6"
    } else if d == 7 {
        "7"
    } else if d == 8 {
        "8"
    } else {
        "9"
    };
    proof {
        assert(r@ =~= seq![dec_digit(d as nat)]);
    }
    r
}

/// The decimal notation of `n`, computed.
fn u64_str(n: u64) -> (r: String)
    ensures
        r@ == dec_seq(n as nat),
    decreases n,
{
    if n < 10 {
        digit_str(n).to_owned()
    } else {
        proof {
            vstd::arithmetic::div_mod::lemma_div_decreases(n as int, 10);
        }
        let mut s = u64_str(n / 10);
        s.append(digit_str(n % 10));
        s
    }
}

/// The decimal notation of `v`, computed.
fn i64_str(v: i64) -> (r: String)
    requires
        i64::MIN < v,
    ensures
        r@ == int_str(v as int),
{
    if v < 0 {
        let mut s = String::from_str("-");
        s.append(u64_str((-v) as u64).as_str());
        proof {
            reveal_strlit("-");
            assert(s@ =~= seq!['-'] + dec_seq((-(v as int)) as nat));
        }
        s
    } else {
        u64_str(v as u64)
    }
}

/// The `x` attribute text: the floored minimum, or `0` with no bounds.
pub open spec fn bounds_x(bounds: Option<Aabb>) -> Seq<char> {
    match bounds {
        Some(b) => int_str(floor_units(b.mins.x as int)),
        None => "0"@,
    }
}

/// The `y` attribute text: the floored minimum, or `0` with no bounds.
pub open spec fn bounds_y(bounds: Option<Aabb>) -> Seq<char> {
    match bounds {
        Some(b) => int_str(floor_units(b.mins.y as int)),
        None => "0"@,
    }
}

/// The `width` attribute text: the ceiled extent, or `100%` with no bounds.
pub open spec fn bounds_w(bounds: Option<Aabb>) -> Seq<char> {
    match bounds {
        Some(b) => int_str(ceil_units(b.maxs.x - b.mins.x)),
        None => "100%"@,
    }
}

/// The `height` attribute text: the ceiled extent, or `100%` with no bounds.
pub open spec fn bounds_h(bounds: Option<Aabb>) -> Seq<char> {
    match bounds {
        Some(b) => int_str(ceil_units(b.maxs.y - b.mins.y)),
        None => "100%"@,
    }
}

/// The canvas placement attributes `(x, y, width, height)` for the given
/// bounds: floor of the minima, ceiling of the extents, in whole units; the
/// fit-to-container texts when no bounds are given.
pub fn bounds_attributes(bounds: Option<Aabb>) -> (r: (String, String, String, String))
    requires
        bounds matches Some(b) ==> aabb_ok(b),
    ensures
        r.0@ == bounds_x(bounds),
        r.1@ == bounds_y(bounds),
        r.2@ == bounds_w(bounds),
        r.3@ == bounds_h(bounds),
{
    match bounds {
        Some(b) => (
            i64_str(floor_units_exec(b.mins.x)),
            i64_str(floor_units_exec(b.mins.y)),
            i64_str(ceil_units_exec(b.maxs.x - b.mins.x)),
            i64_str(ceil_units_exec(b.maxs.y - b.mins.y)),
        ),
        None => (
            String::from_str("0"),
            String::from_str("0"),
            String::from_str("100%"),
            String::from_str("100%"),
        ),
    }
}

/// The `viewBox` attribute text for the given box, rounded like the bounds;
/// empty when no box is given (the attribute is omitted).
pub open spec fn viewbox_text(viewbox: Option<Aabb>) -> Seq<char> {
    match viewbox {
        Some(b) => "viewBox=\""@ + int_str(floor_units(b.mins.x as int)) + " "@ + int_str(
            floor_units(b.mins.y as int),
        ) + " "@ + int_str(ceil_units(b.maxs.x - b.mins.x)) + " "@ + int_str(
            ceil_units(b.maxs.y - b.mins.y),
        ) + "\""@,
        None => ""@,
    }
}

/// The `viewBox` attribute, computed.
pub fn viewbox_attribute(viewbox: Option<Aabb>) -> (r: String)
    requires
        viewbox matches Some(b) ==> aabb_ok(b),
    ensures
        r@ == viewbox_text(viewbox),
{
    match viewbox {
        Some(b) => {
            let mut s = String::from_str("viewBox=\"");
            s.append(i64_str(floor_units_exec(b.mins.x)).as_str());
            s.append(" ");
            s.append(i64_str(floor_units_exec(b.mins.y)).as_str());
            s.append(" ");
            s.append(i64_str(ceil_units_exec(b.maxs.x - b.mins.x)).as_str());
            s.append(" ");
            s.append(i64_str(ceil_units_exec(b.maxs.y - b.mins.y)).as_str());
            s.append("\"");
            proof {
                assert(s@ =~= viewbox_text(viewbox));
            }
            s
        },
        None => String::from_str(""),
    }
}

/// The `preserveAspectRatio` attribute value: keep-and-center, or stretch.
pub open spec fn aspect_text(preserve: bool) -> Seq<char> {
    if preserve {
        "xMidyMid"@
    } else {
        "none"@
    }
}

/// Every `{` in `t` from index `i` on opens a tag delimiter — `{{`, `{%` or
/// `{#` — or is the second character of `{{`, and no `{{{` occurs. Such a
/// template cannot write a map literal in any expression or statement.
pub open spec fn braces_delimited_from(t: Seq<char>, i: int) -> bool
    recommends
        0 <= i <= t.len(),
    decreases t.len() - i,
    when 0 <= i <= t.len()
{
    if i >= t.len() {
        true
    } else if t[i] == '{' {
        if i + 1 < t.len() && (t[i + 1] == '{' || t[i + 1] == '%' || t[i + 1] == '#') {
            if t[i + 1] == '{' && i + 2 < t.len() && t[i + 2] == '{' {
                false
            } else {
                braces_delimited_from(t, i + 2)
            }
        } else {
            false
        }
    } else {
        braces_delimited_from(t, i + 1)
    }
}

/// The engine's reserved name prefix `__tera` occurs at index `i`; through
/// `__tera_context` a template could dump the whole context as a map.
pub open spec fn reserved_name_at(t: Seq<char>, i: int) -> bool {
    &&& 0 <= i
    &&& i + 6 <= t.len()
    &&& t[i] == '_'
    &&& t[i + 1] == '_'
    &&& t[i + 2] == 't'
    &&& t[i + 3] == 'e'
    &&& t[i + 4] == 'r'
    &&& t[i + 5] == 'a'
}

/// The reserved prefix occurs at or after index `i`.
pub open spec fn has_reserved_from(t: Seq<char>, i: int) -> bool
    recommends
        0 <= i <= t.len(),
    decreases t.len() - i,
    when 0 <= i <= t.len()
{
    if i >= t.len() {
        false
    } else {
        reserved_name_at(t, i) || has_reserved_from(t, i + 1)
    }
}

/// A template this crate hands to the engine: every brace is a tag
/// delimiter and no reserved `__tera` name occurs. The engine's one source
/// of unordered data is its hash-map value; with no map literal writable,
/// no map-typed field supplied, and the context dump unreachable, no map
/// value can arise during a render, so rendering is a function of the
/// template and the fields.
pub open spec fn admissible_template(t: Seq<char>) -> bool {
    braces_delimited_from(t, 0) && !has_reserved_from(t, 0)
}

/// Decides `admissible_template`, so callers can test a template before
/// composing with it.
pub fn template_admissible(template: &str) -> (b: bool)
    ensures
        b == admissible_template(template@),
{
    let n = template.unicode_len();
    let mut i: usize = 0;
    while i < n
        invariant
            n == template@.len(),
            i <= n,
            braces_delimited_from(template@, 0) == braces_delimited_from(template@, i as int),
        decreases n - i,
    {
        if template.get_char(i) == '{' {
            if i + 1 >= n {
                return false;
            }
            let c = template.get_char(i + 1);
            if !(c == '{' || c == '%' || c == '#') {
                return false;
            }
            if c == '{' && i + 2 < n {
                if template.get_char(i + 2) == '{' {
                    return false;
                }
            }
            i = i + 2;
        } else {
            i = i + 1;
        }
    }
    let mut j: usize = 0;
    while j < n
        invariant
            n == template@.len(),
            j <= n,
            braces_delimited_from(template@, 0),
            has_reserved_from(template@, 0) == has_reserved_from(template@, j as int),
        decreases n - j,
    {
        if n - j >= 6 {
            if template.get_char(j) == '_' && template.get_char(j + 1) == '_' && template.get_char(
                j + 2,
            ) == 't' && template.get_char(j + 3) == 'e' && template.get_char(j + 4) == 'r'
                && template.get_char(j + 5) == 'a' {
                assert(reserved_name_at(template@, j as int));
                return false;
            }
        }
        assert(!reserved_name_at(template@, j as int));
        j = j + 1;
    }
    true
}

/// What the template engine renders from an admissible template and the
/// named fields. The engine registers no time-, randomness- or
/// environment-dependent helpers, and an admissible template keeps every
/// value it handles ordered, so the output is a function of these arguments
/// alone.
pub uninterp spec fn render_of(
    template: Seq<char>,
    xml_header: bool,
    data: Seq<char>,
    x: Seq<char>,
    y: Seq<char>,
    width: Seq<char>,
    height: Seq<char>,
    viewbox: Seq<char>,
    preserve_aspectratio: Seq<char>,
) -> Seq<char>;

/// Whether the template engine accepts an admissible template with the
/// named fields: parse and render errors depend on the template text and
/// the field values alone — the same grounds that make `render_of` a
/// function of these arguments — so the accept/reject decision is one too.
pub uninterp spec fn render_accepts(
    template: Seq<char>,
    xml_header: bool,
    data: Seq<char>,
    x: Seq<char>,
    y: Seq<char>,
    width: Seq<char>,
    height: Seq<char>,
    viewbox: Seq<char>,
    preserve_aspectratio: Seq<char>,
) -> bool;

/// Relies on tera::Tera::one_off: renders the template with the eight named
/// fields, with autoescaping off. `Tera::default()` registers only pure
/// built-ins (no clock, randomness or environment), and its one unordered
/// value — the hash map — cannot arise under the `requires`: an admissible
/// template writes no map literal and cannot dump the context, every field
/// handed over is a string or bool, and no built-in makes a non-empty map
/// from those. So a successful render depends on the template and fields
/// alone, and so does the engine's accept/reject decision, which
/// `render_accepts` names: it succeeds if and only if the engine accepts
/// these arguments.
#[verifier::external_body]
fn render_template(
    template: &str,
    xml_header: bool,
    data: &str,
    x: &str,
    y: &str,
    width: &str,
    height: &str,
    viewbox: &str,
    preserve_aspectratio: &str,
) -> (r: Option<String>)
    requires
        admissible_template(template@),
    ensures
        r is Some <==> render_accepts(
            template@,
            xml_header,
            data@,
            x@,
            y@,
            width@,
            height@,
            viewbox@,
            preserve_aspectratio@,
        ),
        r matches Some(out) ==> out@ == render_of(
            template@,
            xml_header,
            data@,
            x@,
            y@,
            width@,
            height@,
            viewbox@,
            preserve_aspectratio@,
        ),
{
    let mut cx = tera::Context::new();
    cx.insert("xml_header", &xml_header);
    cx.insert("data", data);
    cx.insert("x", x);
    cx.insert("y", y);
    cx.insert("width", width);
    cx.insert("height", height);
    cx.insert("viewbox", viewbox);
    cx.insert("preserve_aspectratio", preserve_aspectratio);
    tera::Tera::one_off(template, &cx, false).ok()
}

/// Renders the path body into a complete SVG document via the injected
/// named-placeholder template: canvas placement from the bounds (floored
/// minima, ceiled extents), an optional viewBox, the aspect policy, and the
/// header flag. Succeeds if and only if the template is admissible (see
/// `admissible_template`) and the engine accepts it with these fields, the
/// decision `render_accepts` names; a refusal is a packaging defect, not a
/// data error.
pub fn wrap_svg(
    data: &str,
    bounds: Option<Aabb>,
    viewbox: Option<Aabb>,
    xml_header: bool,
    preserve_aspectratio: bool,
    template: &str,
) -> (r: Option<String>)
    requires
        bounds matches Some(b) ==> aabb_ok(b),
        viewbox matches Some(b) ==> aabb_ok(b),
    ensures
        !admissible_template(template@) ==> r is None,
        admissible_template(template@) ==> (r is Some <==> render_accepts(
            template@,
            xml_header,
            data@,
            bounds_x(bounds),
            bounds_y(bounds),
            bounds_w(bounds),
            bounds_h(bounds),
            viewbox_text(viewbox),
            aspect_text(preserve_aspectratio),
        )),
        r matches Some(out) ==> admissible_template(template@) && out@ == render_of(
            template@,
            xml_header,
            data@,
            bounds_x(bounds),
            bounds_y(bounds),
            bounds_w(bounds),
            bounds_h(bounds),
            viewbox_text(viewbox),
            aspect_text(preserve_aspectratio),
        ),
{
    if !template_admissible(template) {
        return None;
    }
    let (x, y, width, height) = bounds_attributes(bounds);
    let vb = viewbox_attribute(viewbox);
    let preserve = if preserve_aspectratio {
        "xMidyMid"
    } else {
        "none"
    };
    render_template(
        template,
        xml_header,
        data,
        x.as_str(),
        y.as_str(),
        width.as_str(),
        height.as_str(),
        vb.as_str(),
        preserve,
    )
}

} // verus!
