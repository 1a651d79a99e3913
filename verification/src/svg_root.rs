//! Removal of SVG root tags from a document fragment.
//!
//! A root tag is either an opening tag — `<svg`, characters other than `>`,
//! then `>` — or the closing form: `<`, characters other than `/`, `s`, `v`,
//! `g`, then `/svg>`. Removal strips every such occurrence and rescans, as
//! header removal does, so none survives.

use vstd::prelude::*;

use vstd::string::StrSliceExecFns;
use vstd::string::StringExecFns;

verus! {

/// `<svg` opens at index `i` of `s`.
pub open spec fn svg_open_at(s: Seq<char>, i: int) -> bool {
    &&& 0 <= i
    &&& i + 4 <= s.len()
    &&& s[i] == '<'
    &&& s[i + 1] == 's'
    &&& s[i + 2] == 'v'
    &&& s[i + 3] == 'g'
}

/// Scanning from `k` over characters other than `>`: the index just past the
/// first `>`, if there is one.
pub open spec fn open_end_from(s: Seq<char>, k: int) -> Option<int>
    recommends
        0 <= k <= s.len(),
    decreases s.len() - k,
    when 0 <= k <= s.len()
{
    if k >= s.len() {
        None
    } else if s[k] == '>' {
        Some(k + 1)
    } else {
        open_end_from(s, k + 1)
    }
}

/// Scanning from `k` over characters other than `/`, `s`, `v`, `g`: the
/// index just past a closing `/svg>`, if the scan runs into one.
pub open spec fn close_end_from(s: Seq<char>, k: int) -> Option<int>
    recommends
        0 <= k <= s.len(),
    decreases s.len() - k,
    when 0 <= k <= s.len()
{
    if k >= s.len() {
        None
    } else if s[k] == '/' {
        if k + 5 <= s.len() && s[k + 1] == 's' && s[k + 2] == 'v' && s[k + 3] == 'g' && s[k + 4]
            == '>' {
            Some(k + 5)
        } else {
            None
        }
    } else if s[k] == 's' || s[k] == 'v' || s[k] == 'g' {
        None
    } else {
        close_end_from(s, k + 1)
    }
}

/// The index just past the root tag starting at `i`, if one starts there:
/// the opening form is tried first, then the closing form.
pub open spec fn tag_at(s: Seq<char>, i: int) -> Option<int> {
    if svg_open_at(s, i) && open_end_from(s, i + 4) is Some {
        open_end_from(s, i + 4)
    } else if 0 <= i < s.len() && s[i] == '<' {
        close_end_from(s, i + 1)
    } else {
        None
    }
}

/// A root tag starts at or after index `i`.
pub open spec fn has_tag_from(s: Seq<char>, i: int) -> bool
    recommends
        0 <= i <= s.len(),
    decreases s.len() - i,
    when 0 <= i <= s.len()
{
    if i >= s.len() {
        false
    } else {
        tag_at(s, i) is Some || has_tag_from(s, i + 1)
    }
}

/// The document contains a root tag.
pub open spec fn has_svg_tag(s: Seq<char>) -> bool {
    has_tag_from(s, 0)
}

proof fn lemma_open_end_bounds(s: Seq<char>, k: int)
    requires
        0 <= k <= s.len(),
    ensures
        open_end_from(s, k) matches Some(e) ==> k + 1 <= e <= s.len(),
    decreases s.len() - k,
{
    if k < s.len() && s[k] != '>' {
        lemma_open_end_bounds(s, k + 1);
    }
}

proof fn lemma_close_end_bounds(s: Seq<char>, k: int)
    requires
        0 <= k <= s.len(),
    ensures
        close_end_from(s, k) matches Some(e) ==> k + 5 <= e <= s.len(),
    decreases s.len() - k,
{
    if k < s.len() && s[k] != '/' && s[k] != 's' && s[k] != 'v' && s[k] != 'g' {
        lemma_close_end_bounds(s, k + 1);
    }
}

/// A root tag found at `i` ends at least five characters later, within the
/// document.
pub proof fn lemma_tag_at_bounds(s: Seq<char>, i: int)
    requires
        0 <= i <= s.len(),
    ensures
        tag_at(s, i) matches Some(m) ==> i + 5 <= m <= s.len(),
{
    if svg_open_at(s, i) {
        lemma_open_end_bounds(s, i + 4);
    }
    if 0 <= i < s.len() {
        lemma_close_end_bounds(s, i + 1);
    }
}

/// One front-to-back removal pass from index `i`.
pub open spec fn strip_tags_from(s: Seq<char>, i: int) -> Seq<char>
    recommends
        0 <= i <= s.len(),
    decreases s.len() - i,
    when 0 <= i <= s.len()
    via strip_tags_from_decreases
{
    if i >= s.len() {
        Seq::empty()
    } else {
        match tag_at(s, i) {
            Some(m) => strip_tags_from(s, m),
            None => seq![s[i]] + strip_tags_from(s, i + 1),
        }
    }
}

#[via_fn]
proof fn strip_tags_from_decreases(s: Seq<char>, i: int) {
    lemma_tag_at_bounds(s, i);
}

/// One pass removes at least five characters whenever a root tag is present,
/// and never adds any.
pub proof fn lemma_strip_tags_len(s: Seq<char>, i: int)
    requires
        0 <= i <= s.len(),
    ensures
        strip_tags_from(s, i).len() <= s.len() - i,
        has_tag_from(s, i) ==> strip_tags_from(s, i).len() < s.len() - i,
    decreases s.len() - i,
{
    if i < s.len() {
        lemma_tag_at_bounds(s, i);
        match tag_at(s, i) {
            Some(m) => {
                lemma_strip_tags_len(s, m);
            },
            None => {
                lemma_strip_tags_len(s, i + 1);
            },
        }
    }
}

/// Removal passes applied until no root tag remains.
pub open spec fn strip_tags_all(s: Seq<char>) -> Seq<char>
    decreases s.len(),
    via strip_tags_all_decreases
{
    if has_svg_tag(s) {
        strip_tags_all(strip_tags_from(s, 0))
    } else {
        s
    }
}

#[via_fn]
proof fn strip_tags_all_decreases(s: Seq<char>) {
    if has_svg_tag(s) {
        lemma_strip_tags_len(s, 0);
    }
}

/// What stripping leaves contains no root tag; stripping twice is stripping
/// once.
pub proof fn lemma_strip_tags_all_clean(s: Seq<char>)
    ensures
        !has_svg_tag(strip_tags_all(s)),
        strip_tags_all(strip_tags_all(s)) == strip_tags_all(s),
    decreases s.len(),
{
    if has_svg_tag(s) {
        lemma_strip_tags_len(s, 0);
        lemma_strip_tags_all_clean(strip_tags_from(s, 0));
    }
}

/// Finds a root tag starting at `i`, if any: the index just past it.
fn tag_at_str(s: &str, n: usize, i: usize) -> (r: Option<usize>)
    requires
        n == s@.len(),
        i <= n,
    ensures
        r is Some <==> tag_at(s@, i as int) is Some,
        r matches Some(m) ==> tag_at(s@, i as int) == Some(m as int) && i + 5 <= m <= n,
{
    proof {
        lemma_tag_at_bounds(s@, i as int);
    }
    if i >= n {
        return None;
    }
    if s.get_char(i) != '<' {
        assert(!svg_open_at(s@, i as int));
        return None;
    }
    let is_open = n >= 4 && i <= n - 4 && s.get_char(i + 1) == 's' && s.get_char(i + 2) == 'v'
        && s.get_char(i + 3) == 'g';
    proof {
        assert(is_open == svg_open_at(s@, i as int));
    }
    if is_open {
        let mut k = i + 4;
        while k < n
            invariant
                n == s@.len(),
                i + 4 <= k <= n,
                svg_open_at(s@, i as int),
                open_end_from(s@, i as int + 4) == open_end_from(s@, k as int),
            decreases n - k,
        {
            if s.get_char(k) == '>' {
                return Some(k + 1);
            }
            k = k + 1;
        }
        assert(open_end_from(s@, i as int + 4) is None);
    }
    let mut k = i + 1;
    loop
        invariant
            n == s@.len(),
            i + 1 <= k <= n,
            i < n && s@[i as int] == '<',
            !(svg_open_at(s@, i as int) && open_end_from(s@, i as int + 4) is Some),
            close_end_from(s@, i as int + 1) == close_end_from(s@, k as int),
        decreases n - k,
    {
        if k >= n {
            return None;
        }
        let c = s.get_char(k);
        if c == '/' {
            if n - k >= 5 {
                if s.get_char(k + 1) == 's' && s.get_char(k + 2) == 'v' && s.get_char(k + 3) == 'g'
                    && s.get_char(k + 4) == '>' {
                    return Some(k + 5);
                }
            }
            return None;
        }
        if c == 's' || c == 'v' || c == 'g' {
            return None;
        }
        k = k + 1;
    }
}

/// The document contains a root tag somewhere.
fn has_tag_str(s: &str) -> (b: bool)
    ensures
        b == has_svg_tag(s@),
{
    let n = s.unicode_len();
    let mut i: usize = 0;
    while i < n
        invariant
            n == s@.len(),
            i <= n,
            has_svg_tag(s@) == has_tag_from(s@, i as int),
        decreases n - i,
    {
        if tag_at_str(s, n, i).is_some() {
            return true;
        }
        i = i + 1;
    }
    false
}

/// One removal pass over the whole document.
fn strip_tags_once_str(s: &str) -> (r: String)
    ensures
        r@ == strip_tags_from(s@, 0),
{
    let n = s.unicode_len();
    let mut out = String::new();
    let mut i: usize = 0;
    while i < n
        invariant
            n == s@.len(),
            i <= n,
            strip_tags_from(s@, 0) == out@ + strip_tags_from(s@, i as int),
        decreases n - i,
    {
        match tag_at_str(s, n, i) {
            Some(m) => {
                i = m;
            },
            None => {
                let ghost old_out = out@;
                let piece = s.substring_char(i, i + 1);
                out.append(piece);
                proof {
                    assert(piece@ =~= seq![s@[i as int]]);
                    assert(old_out + (seq![s@[i as int]] + strip_tags_from(s@, i as int + 1)) =~= (
                    old_out + seq![s@[i as int]]) + strip_tags_from(s@, i as int + 1));
                }
                i = i + 1;
            },
        }
    }
    proof {
        assert(strip_tags_from(s@, n as int) =~= Seq::<char>::empty());
        assert(out@ + Seq::<char>::empty() =~= out@);
    }
    out
}

/// Removes every SVG root tag — the opening `<svg ...>` and the closing
/// `</svg>` forms — rescanning until none is left.
pub fn strip_svg_root(svg: &str) -> (r: String)
    ensures
        r@ == strip_tags_all(svg@),
        !has_svg_tag(r@),
{
    let mut cur: String = svg.to_owned();
    let mut go = has_tag_str(cur.as_str());
    while go
        invariant
            strip_tags_all(svg@) == strip_tags_all(cur@),
            go == has_svg_tag(cur@),
        decreases cur@.len(),
    {
        proof {
            lemma_strip_tags_len(cur@, 0);
        }
        let next = strip_tags_once_str(cur.as_str());
        cur = next;
        go = has_tag_str(cur.as_str());
    }
    cur
}

} // verus!
