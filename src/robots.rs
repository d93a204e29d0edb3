//! Reading the `Sitemap:` directives of a robots.txt file.
use vstd::prelude::*;

use crate::sitemap::views;
use crate::text::{chars_of, range_starts_with, starts_with, string_of_range, trim, trim_bounds};

verus! {

/// The directive prefix that announces a sitemap.
pub open spec fn sitemap_directive() -> Seq<char> {
    seq!['S', 'i', 't', 'e', 'm', 'a', 'p', ':']
}

/// `s` cut at every `'\n'`: one more piece than `s` has newlines.
pub open spec fn split_lines(s: Seq<char>) -> Seq<Seq<char>>
    decreases s.len(),
{
    if s.len() == 0 {
        seq![seq![]]
    } else {
        let prev = split_lines(s.drop_last());
        if s.last() == '\n' {
            prev.push(seq![])
        } else {
            prev.update(prev.len() - 1, prev.last().push(s.last()))
        }
    }
}

/// The sitemap URLs that `lines` announce, in order: each line that starts
/// with `Sitemap:` gives its remainder, trimmed.
pub open spec fn sitemap_entries(lines: Seq<Seq<char>>) -> Seq<Seq<char>>
    decreases lines.len(),
{
    if lines.len() == 0 {
        seq![]
    } else {
        let prev = sitemap_entries(lines.drop_last());
        let l = lines.last();
        if starts_with(l, sitemap_directive()) {
            prev.push(trim(l.subrange(sitemap_directive().len() as int, l.len() as int)))
        } else {
            prev
        }
    }
}

/// The sitemap URLs announced by a robots.txt body.
pub open spec fn robots_sitemaps(text: Seq<char>) -> Seq<Seq<char>> {
    sitemap_entries(split_lines(text))
}

/// Adds the entry of the line `cs[from..to]`, if it announces a sitemap.
fn take_line(cs: &Vec<char>, from: usize, to: usize, directive: &Vec<char>, out: &mut Vec<String>)
    requires
        from <= to <= cs.len(),
        directive@ == sitemap_directive(),
    ensures
        views(final(out)@) == ({
            let l = cs@.subrange(from as int, to as int);
            if starts_with(l, sitemap_directive()) {
                views(old(out)@).push(trim(l.subrange(8, l.len() as int)))
            } else {
                views(old(out)@)
            }
        }),
{
    if range_starts_with(cs, from, to, directive) {
        let (a, b) = trim_bounds(cs, from + 8, to);
        let ghost l = cs@.subrange(from as int, to as int);
        assert(l.subrange(8, l.len() as int) =~= cs@.subrange(from + 8, to as int));
        let entry = string_of_range(cs, a, b);
        out.push(entry);
        assert(views(out@) =~= views(old(out)@).push(entry@));
    }
}

/// The sitemap URLs announced in a robots.txt body: for each line that
/// starts with `Sitemap:` (case-sensitive), the rest of the line, trimmed.
pub fn sitemaps_from_robots_txt(text: &str) -> (r: Vec<String>)
    ensures
        views(r@) == robots_sitemaps(text@),
{
    let cs = chars_of(text);
    let directive = vec!['S', 'i', 't', 'e', 'm', 'a', 'p', ':'];
    assert(directive@ =~= sitemap_directive());
    let mut out: Vec<String> = Vec::new();
    let mut start: usize = 0;
    let mut i: usize = 0;
    assert(cs@.take(0) =~= Seq::<char>::empty());
    assert(cs@.subrange(0, 0) =~= Seq::<char>::empty());
    while i < cs.len()
        invariant
            start <= i <= cs.len(),
            cs@ == text@,
            directive@ == sitemap_directive(),
            split_lines(cs@.take(i as int)).len() >= 1,
            split_lines(cs@.take(i as int)).last() == cs@.subrange(start as int, i as int),
            views(out@) == sitemap_entries(split_lines(cs@.take(i as int)).drop_last()),
        decreases cs.len() - i,
    {
        let ghost prev = split_lines(cs@.take(i as int));
        assert(cs@.take(i + 1).drop_last() =~= cs@.take(i as int));
        assert(cs@.take(i + 1).last() == cs@[i as int]);
        if cs[i] == '\n' {
            assert(split_lines(cs@.take(i + 1)) == prev.push(seq![]));
            assert(split_lines(cs@.take(i + 1)).drop_last() =~= prev);
            assert(prev =~= prev.drop_last().push(prev.last()));
            take_line(&cs, start, i, &directive, &mut out);
            start = i + 1;
            assert(cs@.subrange(start as int, start as int) =~= seq![]);
        } else {
            assert(split_lines(cs@.take(i + 1)).drop_last() =~= prev.drop_last());
            assert(cs@.subrange(start as int, i + 1) =~= cs@.subrange(start as int, i as int).push(cs@[i as int]));
        }
        i = i + 1;
    }
    assert(cs@.take(i as int) =~= cs@);
    let ghost all = split_lines(cs@);
    assert(all =~= all.drop_last().push(all.last()));
    take_line(&cs, start, i, &directive, &mut out);
    out
}

} // verus!
