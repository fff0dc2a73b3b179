use vstd::prelude::*;
use vstd::string::StrSliceExecFns;

verus! {

/// ASCII lower-casing of one character; every other character is kept.
pub open spec fn lower_char(c: char) -> char {
    if 'A' <= c && c <= 'Z' {
        ((c as u32) + 32) as char
    } else {
        c
    }
}

/// ASCII lower-casing of a whole text.
pub open spec fn lower(s: Seq<char>) -> Seq<char> {
    Seq::new(s.len(), |i: int| lower_char(s[i]))
}

/// Optional whitespace around a list element: a space or a tab.
pub open spec fn is_ows(c: char) -> bool {
    c == ' ' || c == '\t'
}

/// Position `a` of `v` starts a list element, once whitespace is skipped:
/// going back from `a` over spaces and tabs reaches the start or a comma.
pub open spec fn opens_element(v: Seq<char>, a: int) -> bool
    decreases a,
{
    if a <= 0 || a > v.len() {
        a == 0
    } else if v[a - 1] == ',' {
        true
    } else if is_ows(v[a - 1]) {
        opens_element(v, a - 1)
    } else {
        false
    }
}

/// Position `b` of `v` ends a list element, once whitespace is skipped:
/// going on from `b` over spaces and tabs reaches the end or a comma.
pub open spec fn closes_element(v: Seq<char>, b: int) -> bool
    decreases v.len() - b,
{
    if b < 0 || b >= v.len() {
        b == v.len()
    } else if v[b] == ',' {
        true
    } else if is_ows(v[b]) {
        closes_element(v, b + 1)
    } else {
        false
    }
}

/// The comma-separated element of `v` that starts at `a`, trimmed of
/// spaces and tabs, is `t` in any ASCII casing.
pub open spec fn element_at(v: Seq<char>, a: int, t: Seq<char>) -> bool {
    0 <= a && a + t.len() <= v.len() && lower(v.subrange(a, a + t.len())) == t && opens_element(v, a)
        && closes_element(v, a + t.len())
}

/// Some comma-separated element of `v`, trimmed, is `t` in any ASCII casing.
pub open spec fn has_element(v: Seq<char>, t: Seq<char>) -> bool {
    exists|a: int| element_at(v, a, t)
}

/// Relies on `String::push`: appends one character at the end.
#[verifier::external_body]
pub(crate) fn push_char(s: &mut String, c: char)
    ensures
        final(s)@ == old(s)@.push(c),
{
    s.push(c)
}

pub fn to_lower_char(c: char) -> (r: char)
    ensures
        r == lower_char(c),
{
    if 'A' <= c && c <= 'Z' {
        ((c as u8) + 32) as char
    } else {
        c
    }
}

/// ASCII lower-casing, as HTTP header names are compared.
pub fn to_lower(s: &str) -> (r: String)
    ensures
        r@ == lower(s@),
{
    let n = s.unicode_len();
    let mut r = String::new();
    let mut i: usize = 0;
    while i < n
        invariant
            n == s@.len(),
            i <= n,
            r@ == lower(s@).subrange(0, i as int),
        decreases n - i,
    {
        let c = s.get_char(i);
        push_char(&mut r, to_lower_char(c));
        i = i + 1;
        assert(r@ =~= lower(s@).subrange(0, i as int));
    }
    assert(r@ =~= lower(s@));
    r
}

fn is_ows_exec(c: char) -> (r: bool)
    ensures
        r == is_ows(c),
{
    c == ' ' || c == '\t'
}

fn opens_at(v: &str, n: usize, a: usize) -> (r: bool)
    requires
        n == v@.len(),
        a <= n,
    ensures
        r == opens_element(v@, a as int),
{
    let mut i = a;
    while i > 0 && is_ows_exec(v.get_char(i - 1)) && v.get_char(i - 1) != ','
        invariant
            n == v@.len(),
            i <= a <= n,
            opens_element(v@, i as int) == opens_element(v@, a as int),
        decreases i,
    {
        i = i - 1;
    }
    i == 0 || v.get_char(i - 1) == ','
}

fn closes_at(v: &str, n: usize, b: usize) -> (r: bool)
    requires
        n == v@.len(),
        b <= n,
    ensures
        r == closes_element(v@, b as int),
{
    let mut j = b;
    while j < n && is_ows_exec(v.get_char(j)) && v.get_char(j) != ','
        invariant
            n == v@.len(),
            b <= j <= n,
            closes_element(v@, j as int) == closes_element(v@, b as int),
        decreases n - j,
    {
        j = j + 1;
    }
    j == n || v.get_char(j) == ','
}

/// `l` holds `t` at position `a`.
fn holds_at(l: &str, n: usize, t: &str, a: usize) -> (r: bool)
    requires
        n == l@.len(),
        a + t@.len() <= n,
    ensures
        r == (l@.subrange(a as int, a + t@.len()) == t@),
{
    let m = t.unicode_len();
    let mut k: usize = 0;
    while k < m
        invariant
            m == t@.len(),
            n == l@.len(),
            a + m <= n,
            k <= m,
            forall|q: int| 0 <= q < k ==> l@[a + q] == t@[q],
        decreases m - k,
    {
        if l.get_char(a + k) != t.get_char(k) {
            assert(l@.subrange(a as int, a + m)[k as int] != t@[k as int]);
            return false;
        }
        k = k + 1;
    }
    assert(l@.subrange(a as int, a + m) =~= t@);
    true
}

/// Whether some comma-separated element of `v`, trimmed of spaces and tabs,
/// is `t` in any ASCII casing; `t` is given lower-cased.
pub fn has_list_element(v: &str, t: &str) -> (r: bool)
    requires
        lower(t@) == t@,
        t@.len() > 0,
    ensures
        r == has_element(v@, t@),
{
    let n = v.unicode_len();
    let m = t.unicode_len();
    if m > n {
        assert forall|a: int| !element_at(v@, a, t@) by {}
        return false;
    }
    let l = to_lower(v);
    let mut a: usize = 0;
    while a <= n - m
        invariant
            n == v@.len(),
            m == t@.len(),
            0 < m <= n,
            a <= n - m + 1,
            l@ == lower(v@),
            forall|c: int| 0 <= c < a ==> !element_at(v@, c, t@),
        decreases n - m + 1 - a,
    {
        assert(lower(v@.subrange(a as int, a + m)) =~= l@.subrange(a as int, a + m));
        if holds_at(l.as_str(), n, t, a) && opens_at(v, n, a) && closes_at(v, n, a + m) {
            assert(element_at(v@, a as int, t@));
            return true;
        }
        a = a + 1;
    }
    assert forall|c: int| !element_at(v@, c, t@) by {
        if 0 <= c && c < a {
        }
    }
    false
}

} // verus!
