//! The XML declaration header of an SVG document: detection, removal, and
//! idempotent insertion.
//!
//! A header is any occurrence of `<?xml`, followed by characters that are
//! neither `?` nor `>`, closed by `?>`. Removal strips every such occurrence
//! (and the line break following it, if any) and rescans, so that no
//! occurrence survives — which is what makes stripping idempotent even when a
//! removal splices the surrounding text into a new occurrence.

use vstd::prelude::*;

use vstd::string::StrSliceExecFns;
use vstd::string::StringExecFns;

verus! {

/// `<?xml` opens at index `i` of `s`.
pub open spec fn xml_open_at(s: Seq<char>, i: int) -> bool {
    &&& 0 <= i
    &&& i + 5 <= s.len()
    &&& s[i] == '<'
    &&& s[i + 1] == '?'
    &&& s[i + 2] == 'x'
    &&& s[i + 3] == 'm'
    &&& s[i + 4] == 'l'
}

/// Scanning from `k`, the index just past the closing `?>` of the header
/// body, if the body closes before any stray `?` or `>`.
pub open spec fn hdr_end_from(s: Seq<char>, k: int) -> Option<int>
    recommends
        0 <= k <= s.len(),
    decreases s.len() - k,
    when 0 <= k <= s.len()
{
    if k >= s.len() {
        None
    } else if s[k] == '?' {
        if k + 1 < s.len() && s[k + 1] == '>' {
            Some(k + 2)
        } else {
            None
        }
    } else if s[k] == '>' {
        None
    } else {
        hdr_end_from(s, k + 1)
    }
}

/// The index just past the header starting at `i`, if one starts there.
pub open spec fn hdr_at(s: Seq<char>, i: int) -> Option<int> {
    if xml_open_at(s, i) {
        hdr_end_from(s, i + 5)
    } else {
        None
    }
}

/// A header starts at or after index `i`.
pub open spec fn has_hdr_from(s: Seq<char>, i: int) -> bool
    recommends
        0 <= i <= s.len(),
    decreases s.len() - i,
    when 0 <= i <= s.len()
{
    if i >= s.len() {
        false
    } else {
        hdr_at(s, i) is Some || has_hdr_from(s, i + 1)
    }
}

/// The document contains a header.
pub open spec fn has_hdr(s: Seq<char>) -> bool {
    has_hdr_from(s, 0)
}

/// A header's end lies at least two characters past the scan start and
/// within the document.
pub proof fn lemma_hdr_end_bounds(s: Seq<char>, k: int)
    requires
        0 <= k <= s.len(),
    ensures
        hdr_end_from(s, k) matches Some(e) ==> k + 2 <= e <= s.len(),
    decreases s.len() - k,
{
    if k < s.len() && s[k] != '?' && s[k] != '>' {
        lemma_hdr_end_bounds(s, k + 1);
    }
}

/// A header found at `i` ends at least seven characters later, within the
/// document.
pub proof fn lemma_hdr_at_bounds(s: Seq<char>, i: int)
    requires
        0 <= i <= s.len(),
    ensures
        hdr_at(s, i) matches Some(m) ==> i + 7 <= m <= s.len(),
{
    if xml_open_at(s, i) {
        lemma_hdr_end_bounds(s, i + 5);
    }
}

/// One front-to-back removal pass from index `i`: characters are kept until
/// a header starts, a found header (and one line break after it) is dropped,
/// and scanning resumes right after it.
pub open spec fn strip_from(s: Seq<char>, i: int) -> Seq<char>
    recommends
        0 <= i <= s.len(),
    decreases s.len() - i,
    when 0 <= i <= s.len()
    via strip_from_decreases
{
    if i >= s.len() {
        Seq::empty()
    } else {
        match hdr_at(s, i) {
            Some(m) => if m < s.len() && s[m] == '\n' {
                strip_from(s, m + 1)
            } else {
                strip_from(s, m)
            },
            None => seq![s[i]] + strip_from(s, i + 1),
        }
    }
}

#[via_fn]
proof fn strip_from_decreases(s: Seq<char>, i: int) {
    lemma_hdr_at_bounds(s, i);
}

/// One pass removes at least seven characters whenever a header is present,
/// and never adds any.
pub proof fn lemma_strip_from_len(s: Seq<char>, i: int)
    requires
        0 <= i <= s.len(),
    ensures
        strip_from(s, i).len() <= s.len() - i,
        has_hdr_from(s, i) ==> strip_from(s, i).len() < s.len() - i,
    decreases s.len() - i,
{
    if i < s.len() {
        lemma_hdr_at_bounds(s, i);
        match hdr_at(s, i) {
            Some(m) => {
                if m < s.len() && s[m] == '\n' {
                    lemma_strip_from_len(s, m + 1);
                } else {
                    lemma_strip_from_len(s, m);
                }
            },
            None => {
                lemma_strip_from_len(s, i + 1);
            },
        }
    }
}

/// Removal passes applied until no header remains.
pub open spec fn strip_all(s: Seq<char>) -> Seq<char>
    decreases s.len(),
    via strip_all_decreases
{
    if has_hdr(s) {
        strip_all(strip_from(s, 0))
    } else {
        s
    }
}

#[via_fn]
proof fn strip_all_decreases(s: Seq<char>) {
    if has_hdr(s) {
        lemma_strip_from_len(s, 0);
    }
}

/// What stripping leaves contains no header.
pub proof fn lemma_strip_all_clean(s: Seq<char>)
    ensures
        !has_hdr(strip_all(s)),
    decreases s.len(),
{
    if has_hdr(s) {
        lemma_strip_from_len(s, 0);
        lemma_strip_all_clean(strip_from(s, 0));
    }
}

/// Stripping the header twice is stripping it once.
pub proof fn lemma_strip_idempotent(s: Seq<char>)
    ensures
        strip_all(strip_all(s)) == strip_all(s),
{
    lemma_strip_all_clean(s);
}

/// The text of the standard declaration header this crate prepends.
pub open spec fn xml_header_text() -> Seq<char> {
    "<?xml version=\"1.0\" standalone=\"no\"?>"@
}

/// A single line break.
pub open spec fn newline_text() -> Seq<char> {
    "\n"@
}

/// The document with the standard header prepended, unless one is already
/// present.
pub open spec fn with_header(s: Seq<char>) -> Seq<char> {
    if has_hdr(s) {
        s
    } else {
        xml_header_text() + newline_text() + s
    }
}

/// The standard header, followed by anything, is recognized as a header
/// match of exactly the standard header's 37 characters.
pub proof fn lemma_header_match(rest: Seq<char>)
    ensures
        xml_header_text().len() == 37,
        hdr_at(xml_header_text() + rest, 0) == Some(37int),
{
    reveal_strlit("<?xml version=\"1.0\" standalone=\"no\"?>");
    let t = xml_header_text() + rest;
    assert(xml_header_text().len() == 37);
    assert(t.len() == 37 + rest.len());
    assert(t[0] == '<');
    assert(t[1] == '?');
    assert(t[2] == 'x');
    assert(t[3] == 'm');
    assert(t[4] == 'l');
    assert(xml_open_at(t, 0));
    assert(t[35] == '?');
    assert(t[36] == '>');
    assert(hdr_end_from(t, 35) == Some(37int));
    assert(t[34] == '"');
    assert(hdr_end_from(t, 34) == Some(37int));
    assert(t[33] == 'o');
    assert(hdr_end_from(t, 33) == Some(37int));
    assert(t[32] == 'n');
    assert(hdr_end_from(t, 32) == Some(37int));
    assert(t[31] == '"');
    assert(hdr_end_from(t, 31) == Some(37int));
    assert(t[30] == '=');
    assert(hdr_end_from(t, 30) == Some(37int));
    assert(t[29] == 'e');
    assert(hdr_end_from(t, 29) == Some(37int));
    assert(t[28] == 'n');
    assert(hdr_end_from(t, 28) == Some(37int));
    assert(t[27] == 'o');
    assert(hdr_end_from(t, 27) == Some(37int));
    assert(t[26] == 'l');
    assert(hdr_end_from(t, 26) == Some(37int));
    assert(t[25] == 'a');
    assert(hdr_end_from(t, 25) == Some(37int));
    assert(t[24] == 'd');
    assert(hdr_end_from(t, 24) == Some(37int));
    assert(t[23] == 'n');
    assert(hdr_end_from(t, 23) == Some(37int));
    assert(t[22] == 'a');
    assert(hdr_end_from(t, 22) == Some(37int));
    assert(t[21] == 't');
    assert(hdr_end_from(t, 21) == Some(37int));
    assert(t[20] == 's');
    assert(hdr_end_from(t, 20) == Some(37int));
    assert(t[19] == ' ');
    assert(hdr_end_from(t, 19) == Some(37int));
    assert(t[18] == '"');
    assert(hdr_end_from(t, 18) == Some(37int));
    assert(t[17] == '0');
    assert(hdr_end_from(t, 17) == Some(37int));
    assert(t[16] == '.');
    assert(hdr_end_from(t, 16) == Some(37int));
    assert(t[15] == '1');
    assert(hdr_end_from(t, 15) == Some(37int));
    assert(t[14] == '"');
    assert(hdr_end_from(t, 14) == Some(37int));
    assert(t[13] == '=');
    assert(hdr_end_from(t, 13) == Some(37int));
    assert(t[12] == 'n');
    assert(hdr_end_from(t, 12) == Some(37int));
    assert(t[11] == 'o');
    assert(hdr_end_from(t, 11) == Some(37int));
    assert(t[10] == 'i');
    assert(hdr_end_from(t, 10) == Some(37int));
    assert(t[9] == 's');
    assert(hdr_end_from(t, 9) == Some(37int));
    assert(t[8] == 'r');
    assert(hdr_end_from(t, 8) == Some(37int));
    assert(t[7] == 'e');
    assert(hdr_end_from(t, 7) == Some(37int));
    assert(t[6] == 'v');
    assert(hdr_end_from(t, 6) == Some(37int));
    assert(t[5] == ' ');
    assert(hdr_end_from(t, 5) == Some(37int));
    assert(hdr_at(t, 0) == Some(37int));
}

/// Prepending the header makes the header present.
pub proof fn lemma_with_header_has(s: Seq<char>)
    ensures
        has_hdr(with_header(s)),
{
    if !has_hdr(s) {
        let t = with_header(s);
        assert(t =~= xml_header_text() + (newline_text() + s));
        lemma_header_match(newline_text() + s);
        assert(hdr_at(t, 0) == Some(37int));
        assert(has_hdr_from(t, 0));
    }
}

/// Adding the header twice is adding it once.
pub proof fn lemma_add_header_idempotent(s: Seq<char>)
    ensures
        with_header(with_header(s)) == with_header(s),
{
    lemma_with_header_has(s);
}

/// In a document with no header anywhere, no position starts one.
proof fn lemma_no_hdr_up(s: Seq<char>, j: int)
    requires
        0 <= j <= s.len(),
        !has_hdr_from(s, 0),
    ensures
        !has_hdr_from(s, j),
    decreases j,
{
    if j > 0 {
        lemma_no_hdr_up(s, j - 1);
    }
}

/// Scanning a pure suffix copy behaves as scanning the suffix itself,
/// shifted.
proof fn lemma_hdr_end_shift(t: Seq<char>, b: int, s: Seq<char>, k: int)
    requires
        0 <= b,
        0 <= k <= s.len(),
        t.len() == b + s.len(),
        forall|j: int| 0 <= j < s.len() ==> t[b + j] == s[j],
    ensures
        hdr_end_from(t, b + k) == (match hdr_end_from(s, k) {
            Some(e) => Some(e + b),
            None => None::<int>,
        }),
    decreases s.len() - k,
{
    if k < s.len() {
        assert(t[b + k] == s[k]);
        if s[k] == '?' {
            if k + 1 < s.len() {
                assert(t[b + k + 1] == s[k + 1]);
            }
        } else if s[k] != '>' {
            lemma_hdr_end_shift(t, b, s, k + 1);
        }
    }
}

/// A header found inside a suffix copy is the suffix's own header, shifted.
proof fn lemma_hdr_at_shift(t: Seq<char>, b: int, s: Seq<char>, i: int)
    requires
        0 <= b,
        0 <= i <= s.len(),
        t.len() == b + s.len(),
        forall|j: int| 0 <= j < s.len() ==> t[b + j] == s[j],
    ensures
        hdr_at(t, b + i) == (match hdr_at(s, i) {
            Some(e) => Some(e + b),
            None => None::<int>,
        }),
{
    if xml_open_at(s, i) {
        assert(t[b + i] == s[i]);
        assert(t[b + i + 1] == s[i + 1]);
        assert(t[b + i + 2] == s[i + 2]);
        assert(t[b + i + 3] == s[i + 3]);
        assert(t[b + i + 4] == s[i + 4]);
        assert(xml_open_at(t, b + i));
        lemma_hdr_end_shift(t, b, s, i + 5);
    } else {
        if xml_open_at(t, b + i) {
            assert(t[b + i] == s[i]);
            assert(t[b + i + 1] == s[i + 1]);
            assert(t[b + i + 2] == s[i + 2]);
            assert(t[b + i + 3] == s[i + 3]);
            assert(t[b + i + 4] == s[i + 4]);
            assert(xml_open_at(s, i));
        }
    }
}

/// A removal pass over a suffix copy that contains no header reproduces the
/// suffix unchanged.
proof fn lemma_strip_suffix(t: Seq<char>, b: int, s: Seq<char>, i: int)
    requires
        0 <= b,
        0 <= i <= s.len(),
        t.len() == b + s.len(),
        forall|j: int| 0 <= j < s.len() ==> t[b + j] == s[j],
        !has_hdr(s),
    ensures
        strip_from(t, b + i) =~= s.subrange(i, s.len() as int),
    decreases s.len() - i,
{
    if i < s.len() {
        lemma_no_hdr_up(s, i);
        lemma_hdr_at_shift(t, b, s, i);
        assert(hdr_at(t, b + i) is None);
        lemma_strip_suffix(t, b, s, i + 1);
        assert(t[b + i] == s[i]);
        assert(strip_from(t, b + i) =~= seq![s[i]] + s.subrange(i + 1, s.len() as int));
    }
}

/// Stripping the header from a document that just had it added recovers the
/// document, provided it had no header of its own.
pub proof fn lemma_strip_after_add_roundtrip(s: Seq<char>)
    requires
        !has_hdr(s),
    ensures
        strip_all(with_header(s)) == s,
{
    let t = with_header(s);
    assert(t =~= xml_header_text() + (newline_text() + s));
    lemma_header_match(newline_text() + s);
    lemma_with_header_has(s);
    reveal_strlit("\n");
    assert(newline_text().len() == 1 && newline_text()[0] == '\n');
    assert(t.len() == 38 + s.len());
    assert(t[37] == '\n');
    assert(forall|j: int| 0 <= j < s.len() ==> t[38 + j] == s[j]) by {
        assert(forall|j: int| 0 <= j < s.len() ==> (xml_header_text() + (newline_text() + s))[38
            + j] == s[j]);
    }
    assert(hdr_at(t, 0) == Some(37int));
    lemma_strip_suffix(t, 38, s, 0);
    assert(strip_from(t, 38) =~= s.subrange(0, s.len() as int));
    assert(s.subrange(0, s.len() as int) =~= s);
    assert(strip_from(t, 0) == strip_from(t, 38));
    assert(strip_all(t) == strip_all(strip_from(t, 0)));
    assert(strip_all(s) == s);
}

/// Finds a header starting at `i`, if any: the index just past its `?>`.
fn hdr_at_str(s: &str, n: usize, i: usize) -> (r: Option<usize>)
    requires
        n == s@.len(),
        i <= n,
    ensures
        r is Some <==> hdr_at(s@, i as int) is Some,
        r matches Some(m) ==> hdr_at(s@, i as int) == Some(m as int) && i + 7 <= m <= n,
{
    proof {
        lemma_hdr_at_bounds(s@, i as int);
    }
    if n < 5 || i > n - 5 {
        assert(!xml_open_at(s@, i as int));
        return None;
    }
    if !(s.get_char(i) == '<' && s.get_char(i + 1) == '?' && s.get_char(i + 2) == 'x'
        && s.get_char(i + 3) == 'm' && s.get_char(i + 4) == 'l') {
        assert(!xml_open_at(s@, i as int));
        return None;
    }
    assert(xml_open_at(s@, i as int));
    let mut k = i + 5;
    loop
        invariant
            n == s@.len(),
            i + 5 <= k <= n,
            xml_open_at(s@, i as int),
            hdr_end_from(s@, i as int + 5) == hdr_end_from(s@, k as int),
        decreases n - k,
    {
        if k >= n {
            return None;
        }
        let c = s.get_char(k);
        if c == '?' {
            if k + 1 < n {
                if s.get_char(k + 1) == '>' {
                    return Some(k + 2);
                }
            }
            return None;
        }
        if c == '>' {
            return None;
        }
        k = k + 1;
    }
}

/// The document contains a header somewhere.
fn has_hdr_str(s: &str) -> (b: bool)
    ensures
        b == has_hdr(s@),
{
    let n = s.unicode_len();
    let mut i: usize = 0;
    while i < n
        invariant
            n == s@.len(),
            i <= n,
            has_hdr(s@) == has_hdr_from(s@, i as int),
        decreases n - i,
    {
        if hdr_at_str(s, n, i).is_some() {
            return true;
        }
        i = i + 1;
    }
    false
}

/// One removal pass over the whole document.
fn strip_once_str(s: &str) -> (r: String)
    ensures
        r@ == strip_from(s@, 0),
{
    let n = s.unicode_len();
    let mut out = String::new();
    let mut i: usize = 0;
    while i < n
        invariant
            n == s@.len(),
            i <= n,
            strip_from(s@, 0) == out@ + strip_from(s@, i as int),
        decreases n - i,
    {
        match hdr_at_str(s, n, i) {
            Some(m) => {
                if m < n {
                    if s.get_char(m) == '\n' {
                        i = m + 1;
                    } else {
                        i = m;
                    }
                } else {
                    i = m;
                }
            },
            None => {
                let ghost old_out = out@;
                let piece = s.substring_char(i, i + 1);
                out.append(piece);
                proof {
                    assert(piece@ =~= seq![s@[i as int]]);
                    assert(old_out + (seq![s@[i as int]] + strip_from(s@, i as int + 1)) =~= (
                    old_out + seq![s@[i as int]]) + strip_from(s@, i as int + 1));
                }
                i = i + 1;
            },
        }
    }
    proof {
        assert(strip_from(s@, n as int) =~= Seq::<char>::empty());
        assert(out@ + Seq::<char>::empty() =~= out@);
    }
    out
}

/// Prepends the standard XML declaration header unless the document already
/// contains one; adding twice is adding once.
pub fn add_xml_header(svg: &str) -> (r: String)
    ensures
        r@ == with_header(svg@),
{
    if has_hdr_str(svg) {
        svg.to_owned()
    } else {
        let mut out = String::from_str("<?xml version=\"1.0\" standalone=\"no\"?>");
        out.append("\n");
        out.append(svg);
        proof {
            assert(out@ =~= xml_header_text() + newline_text() + svg@);
        }
        out
    }
}

/// Removes every XML declaration header (with the line break following it,
/// if any), rescanning until none is left; stripping twice is stripping
/// once, and stripping what `add_xml_header` added recovers the document.
pub fn remove_xml_header(svg: &str) -> (r: String)
    ensures
        r@ == strip_all(svg@),
        !has_hdr(r@),
{
    let mut cur: String = svg.to_owned();
    let mut go = has_hdr_str(cur.as_str());
    while go
        invariant
            strip_all(svg@) == strip_all(cur@),
            go == has_hdr(cur@),
        decreases cur@.len(),
    {
        proof {
            lemma_strip_from_len(cur@, 0);
        }
        let next = strip_once_str(cur.as_str());
        cur = next;
        go = has_hdr_str(cur.as_str());
    }
    cur
}

} // verus!
