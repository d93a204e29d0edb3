//! Character-level helpers shared by the robots.txt and sitemap readers.
use vstd::prelude::*;

verus! {

/// The characters that `char::is_whitespace` accepts (Unicode `White_Space`).
pub open spec fn is_ws(c: char) -> bool {
    c == '\t' || c == '\n' || c == '\x0B' || c == '\x0C' || c == '\r' || c == ' '
        || c == '\u{85}' || c == '\u{A0}' || c == '\u{1680}'
        || ('\u{2000}' <= c && c <= '\u{200A}')
        || c == '\u{2028}' || c == '\u{2029}' || c == '\u{202F}' || c == '\u{205F}'
        || c == '\u{3000}'
}

/// `s` without its leading whitespace.
pub open spec fn trim_start(s: Seq<char>) -> Seq<char>
    decreases s.len(),
{
    if s.len() > 0 && is_ws(s[0]) {
        trim_start(s.drop_first())
    } else {
        s
    }
}

/// `s` without its trailing whitespace.
pub open spec fn trim_end(s: Seq<char>) -> Seq<char>
    decreases s.len(),
{
    if s.len() > 0 && is_ws(s.last()) {
        trim_end(s.drop_last())
    } else {
        s
    }
}

/// `s` without whitespace at either end.
pub open spec fn trim(s: Seq<char>) -> Seq<char> {
    trim_end(trim_start(s))
}

/// `s` without its trailing `'/'` characters.
pub open spec fn strip_trailing_slashes(s: Seq<char>) -> Seq<char>
    decreases s.len(),
{
    if s.len() > 0 && s.last() == '/' {
        strip_trailing_slashes(s.drop_last())
    } else {
        s
    }
}

/// Whether `s` ends with `suffix`.
pub open spec fn ends_with(s: Seq<char>, suffix: Seq<char>) -> bool {
    suffix.len() <= s.len() && s.subrange(s.len() - suffix.len(), s.len() as int) == suffix
}

/// Whether `s` starts with `prefix`.
pub open spec fn starts_with(s: Seq<char>, prefix: Seq<char>) -> bool {
    prefix.len() <= s.len() && s.subrange(0, prefix.len() as int) == prefix
}

/// Relies on `str::chars` collected into a `Vec`: the characters of `s`, in order.
#[verifier::external_body]
pub(crate) fn chars_of(s: &str) -> (r: Vec<char>)
    ensures
        r@ == s@,
{
    s.chars().collect()
}

/// Relies on collecting a slice of characters into a `String`: the same characters.
#[verifier::external_body]
pub(crate) fn string_of(cs: &[char]) -> (r: String)
    ensures
        r@ == cs@,
{
    cs.iter().collect()
}

/// The characters `cs[from..to]` as a `String`.
pub(crate) fn string_of_range(cs: &Vec<char>, from: usize, to: usize) -> (r: String)
    requires
        from <= to <= cs.len(),
    ensures
        r@ == cs@.subrange(from as int, to as int),
{
    let part = vstd::slice::slice_subrange(cs.as_slice(), from, to);
    string_of(part)
}

/// Whether `c` is whitespace in the sense of `char::is_whitespace`.
pub fn is_whitespace_char(c: char) -> (r: bool)
    ensures
        r == is_ws(c),
{
    c == '\t' || c == '\n' || c == '\x0B' || c == '\x0C' || c == '\r' || c == ' '
        || c == '\u{85}' || c == '\u{A0}' || c == '\u{1680}'
        || ('\u{2000}' <= c && c <= '\u{200A}')
        || c == '\u{2028}' || c == '\u{2029}' || c == '\u{202F}' || c == '\u{205F}'
        || c == '\u{3000}'
}

/// The bounds `(a, b)` of `trim(cs[from..to])` inside `cs`.
pub(crate) fn trim_bounds(cs: &Vec<char>, from: usize, to: usize) -> (r: (usize, usize))
    requires
        from <= to <= cs.len(),
    ensures
        from <= r.0 <= r.1 <= to,
        cs@.subrange(r.0 as int, r.1 as int) == trim(cs@.subrange(from as int, to as int)),
{
    let ghost s = cs@.subrange(from as int, to as int);
    let mut a: usize = from;
    while a < to && is_whitespace_char(cs[a])
        invariant
            from <= a <= to <= cs.len(),
            s == cs@.subrange(from as int, to as int),
            trim_start(s) == trim_start(cs@.subrange(a as int, to as int)),
        decreases to - a,
    {
        assert(cs@.subrange(a as int, to as int).drop_first() =~= cs@.subrange(a + 1, to as int));
        a = a + 1;
    }
    assert(trim_start(s) == cs@.subrange(a as int, to as int));
    let mut b: usize = to;
    while b > a && is_whitespace_char(cs[b - 1])
        invariant
            from <= a <= b <= to <= cs.len(),
            trim(s) == trim_end(cs@.subrange(a as int, b as int)),
        decreases b - a,
    {
        assert(cs@.subrange(a as int, b as int).drop_last() =~= cs@.subrange(a as int, b - 1));
        b = b - 1;
    }
    (a, b)
}

/// Whether `cs[from..to]` starts with `prefix`.
pub(crate) fn range_starts_with(cs: &Vec<char>, from: usize, to: usize, prefix: &Vec<char>) -> (r: bool)
    requires
        from <= to <= cs.len(),
    ensures
        r == starts_with(cs@.subrange(from as int, to as int), prefix@),
{
    if prefix.len() > to - from {
        return false;
    }
    let mut i: usize = 0;
    while i < prefix.len()
        invariant
            from <= to <= cs.len(),
            prefix.len() <= to - from,
            i <= prefix.len(),
            forall|j: int| 0 <= j < i ==> cs@[from + j] == prefix@[j],
        decreases prefix.len() - i,
    {
        if cs[from + i] != prefix[i] {
            assert(cs@.subrange(from as int, to as int).subrange(0, prefix.len() as int)[i as int]
                != prefix@[i as int]);
            return false;
        }
        i = i + 1;
    }
    assert(cs@.subrange(from as int, to as int).subrange(0, prefix.len() as int) =~= prefix@);
    true
}

/// Whether `cs[from..to]` ends with `suffix`.
pub(crate) fn range_ends_with(cs: &Vec<char>, from: usize, to: usize, suffix: &Vec<char>) -> (r: bool)
    requires
        from <= to <= cs.len(),
    ensures
        r == ends_with(cs@.subrange(from as int, to as int), suffix@),
{
    if suffix.len() > to - from {
        return false;
    }
    let start = to - suffix.len();
    let r = range_starts_with(cs, start, to, suffix);
    assert(cs@.subrange(from as int, to as int).subrange(start - from, to - from)
        =~= cs@.subrange(start as int, to as int));
    assert(cs@.subrange(start as int, to as int).subrange(0, suffix.len() as int)
        =~= cs@.subrange(start as int, to as int));
    r
}

/// Stripping trailing slashes a second time changes nothing.
pub proof fn lemma_strip_idempotent(s: Seq<char>)
    ensures
        strip_trailing_slashes(strip_trailing_slashes(s)) == strip_trailing_slashes(s),
    decreases s.len(),
{
    if s.len() > 0 && s.last() == '/' {
        lemma_strip_idempotent(s.drop_last());
    }
}

/// `url` without its trailing slashes: the form under which URLs are compared.
pub fn normalize_url(url: &str) -> (r: String)
    ensures
        r@ == strip_trailing_slashes(url@),
        strip_trailing_slashes(r@) == r@,
{
    proof {
        lemma_strip_idempotent(url@);
    }
    let cs = chars_of(url);
    let mut end: usize = cs.len();
    assert(cs@.subrange(0, end as int) =~= cs@);
    while end > 0 && cs[end - 1] == '/'
        invariant
            end <= cs.len(),
            cs@ == url@,
            strip_trailing_slashes(url@) == strip_trailing_slashes(cs@.subrange(0, end as int)),
        decreases end,
    {
        assert(cs@.subrange(0, end as int).drop_last() =~= cs@.subrange(0, end - 1));
        end = end - 1;
    }
    string_of_range(&cs, 0, end)
}

} // verus!
