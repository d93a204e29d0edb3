//! Cycle-safe expansion of sitemap indexes, as a worklist that the caller
//! drives: take the next sitemap to fetch, hand its body back, repeat.
use vstd::prelude::*;

use crate::sitemap::{parse_sitemap_xml_locs, sitemap_links, views};
use crate::text::{normalize_url, strip_trailing_slashes};

verus! {

/// The state of one discovery run's sitemap expansion.
pub struct SitemapExpansion {
    /// Sitemap URLs waiting to be expanded; the last one is taken first.
    pub pending: Vec<String>,
    /// Normalized sitemap URLs already handed out for fetching, in that order.
    pub visited: Vec<String>,
    /// Normalized page URLs collected so far, each once.
    pub collected: Vec<String>,
}

/// What `next_sitemap` does to the worklist: drop entries whose normalized
/// form was already visited, then take the next one (if any).
pub open spec fn next_pick(pending: Seq<Seq<char>>, visited: Seq<Seq<char>>) -> (Seq<Seq<char>>, Option<Seq<char>>)
    decreases pending.len(),
{
    if pending.len() == 0 {
        (pending, None)
    } else {
        let u = strip_trailing_slashes(pending.last());
        if visited.contains(u) {
            next_pick(pending.drop_last(), visited)
        } else {
            (pending.drop_last(), Some(u))
        }
    }
}

/// `collected` with the normalized form of each of `pages` added, unless
/// already present.
pub open spec fn add_unique(collected: Seq<Seq<char>>, pages: Seq<Seq<char>>) -> Seq<Seq<char>>
    decreases pages.len(),
{
    if pages.len() == 0 {
        collected
    } else {
        let prev = add_unique(collected, pages.drop_last());
        let u = strip_trailing_slashes(pages.last());
        if prev.contains(u) {
            prev
        } else {
            prev.push(u)
        }
    }
}

/// Every URL of `urls` is in normalized form (no trailing slash).
pub open spec fn all_normalized(urls: Seq<Seq<char>>) -> bool {
    forall|i: int| 0 <= i < urls.len() ==> #[trigger] strip_trailing_slashes(urls[i]) == urls[i]
}

impl SitemapExpansion {
    /// Well-formed: visited sitemaps and collected pages are held in
    /// normalized form, and none of them twice.
    pub open spec fn wf(&self) -> bool {
        &&& views(self.visited@).no_duplicates()
        &&& views(self.collected@).no_duplicates()
        &&& all_normalized(views(self.visited@))
        &&& all_normalized(views(self.collected@))
    }

    /// A fresh run over `seeds`, with nothing visited or collected.
    pub fn new(seeds: Vec<String>) -> (r: SitemapExpansion)
        ensures
            r.wf(),
            r.pending@ == seeds@,
            r.visited@.len() == 0,
            r.collected@.len() == 0,
    {
        let r = SitemapExpansion { pending: seeds, visited: Vec::new(), collected: Vec::new() };
        assert(views(r.visited@) =~= Seq::<Seq<char>>::empty());
        assert(views(r.collected@) =~= Seq::<Seq<char>>::empty());
        r
    }

    /// The next sitemap to fetch, normalized, or `None` when the worklist is
    /// exhausted. A URL is marked visited as it is handed out, so no URL is
    /// handed out twice in a run.
    pub fn next_sitemap(&mut self) -> (r: Option<String>)
        requires
            old(self).wf(),
        ensures
            final(self).wf(),
            (views(final(self).pending@), match r {
                Some(u) => Some(u@),
                None => None,
            }) == next_pick(views(old(self).pending@), views(old(self).visited@)),
            match r {
                Some(u) => views(final(self).visited@) == views(old(self).visited@).push(u@)
                    && !views(old(self).visited@).contains(u@),
                None => final(self).visited@ == old(self).visited@,
            },
            final(self).collected@ == old(self).collected@,
    {
        while self.pending.len() > 0
            invariant
                self.wf(),
                self.visited@ == old(self).visited@,
                self.collected@ == old(self).collected@,
                next_pick(views(old(self).pending@), views(self.visited@)) == next_pick(
                    views(self.pending@),
                    views(self.visited@),
                ),
            decreases self.pending.len(),
        {
            let ghost before = views(self.pending@);
            let top = self.pending.pop().unwrap();
            assert(views(self.pending@) =~= before.drop_last());
            let u = normalize_url(top.as_str());
            assert(before.last() == top@);
            if !contains_url(&self.visited, &u) {
                let ghost vis = views(self.visited@);
                assert(before.last() == top@);
                assert(next_pick(before, vis) == (views(self.pending@), Some(u@)));
                assert(vis == views(old(self).visited@));
                assert(next_pick(views(old(self).pending@), vis) == (views(self.pending@), Some(u@)));
                self.visited.push(u.clone());
                assert(views(self.visited@) =~= vis.push(u@));
                return Some(u);
            }
        }
        None
    }

    /// Records a fetched sitemap body: its pages join the collected set
    /// (normalized, each once) and its nested sitemaps join the worklist.
    pub fn add_sitemap_body(&mut self, body: &str)
        requires
            old(self).wf(),
        ensures
            final(self).wf(),
            views(final(self).pending@) == views(old(self).pending@) + sitemap_links(body@).1,
            final(self).visited@ == old(self).visited@,
            views(final(self).collected@) == add_unique(
                views(old(self).collected@),
                sitemap_links(body@).0,
            ),
    {
        let (pages, maps) = parse_sitemap_xml_locs(body);
        let ghost c0 = views(self.collected@);
        let mut i: usize = 0;
        while i < pages.len()
            invariant
                i <= pages.len(),
                self.wf(),
                self.visited@ == old(self).visited@,
                self.pending@ == old(self).pending@,
                views(self.collected@) == add_unique(c0, views(pages@).take(i as int)),
            decreases pages.len() - i,
        {
            assert(views(pages@).take(i + 1).drop_last() =~= views(pages@).take(i as int));
            let u = normalize_url(pages[i].as_str());
            if !contains_url(&self.collected, &u) {
                let ghost col = views(self.collected@);
                self.collected.push(u);
                assert(views(self.collected@) =~= col.push(u@));
            }
            i = i + 1;
        }
        assert(views(pages@).take(i as int) =~= views(pages@));
        let mut j: usize = 0;
        let ghost p0 = views(self.pending@);
        while j < maps.len()
            invariant
                j <= maps.len(),
                self.wf(),
                self.visited@ == old(self).visited@,
                views(self.collected@) == add_unique(c0, views(pages@)),
                views(self.pending@) == p0 + views(maps@).take(j as int),
            decreases maps.len() - j,
        {
            let ghost pend = views(self.pending@);
            self.pending.push(maps[j].clone());
            assert(views(self.pending@) =~= pend.push(maps@[j as int]@));
            assert(views(maps@).take(j + 1) =~= views(maps@).take(j as int).push(maps@[j as int]@));
            j = j + 1;
        }
        assert(views(maps@).take(j as int) =~= views(maps@));
    }

    /// The page URLs collected in this run, each once.
    pub fn into_urls(self) -> (r: Vec<String>)
        requires
            self.wf(),
        ensures
            r@ == self.collected@,
            all_normalized(views(r@)),
            forall|i: int, j: int|
                0 <= i < r@.len() && 0 <= j < r@.len() && i != j ==> strip_trailing_slashes(
                    #[trigger] r@[i]@,
                ) != strip_trailing_slashes(#[trigger] r@[j]@),
    {
        assert forall|i: int, j: int|
            0 <= i < self.collected@.len() && 0 <= j < self.collected@.len() && i != j implies strip_trailing_slashes(
            #[trigger] self.collected@[i]@,
        ) != strip_trailing_slashes(#[trigger] self.collected@[j]@) by {
            let v = views(self.collected@);
            assert(strip_trailing_slashes(v[i]) == v[i]);
            assert(strip_trailing_slashes(v[j]) == v[j]);
        }
        self.collected
    }
}

/// Whether `u` is among `v`.
fn contains_url(v: &Vec<String>, u: &String) -> (r: bool)
    ensures
        r == views(v@).contains(u@),
{
    let mut i: usize = 0;
    while i < v.len()
        invariant
            i <= v.len(),
            forall|j: int| 0 <= j < i ==> v@[j]@ != u@,
        decreases v.len() - i,
    {
        if v[i] == *u {
            assert(views(v@)[i as int] == u@);
            return true;
        }
        i = i + 1;
    }
    assert(!views(v@).contains(u@)) by {
        if views(v@).contains(u@) {
            let k = choose|k: int| 0 <= k < views(v@).len() && views(v@)[k] == u@;
            assert(v@[k]@ == u@);
        }
    }
    false
}

/// Page URLs are collected once each: adding a sitemap's pages to a list
/// without duplicates leaves it without duplicates, holding the normalized
/// form of every page and nothing else new.
pub proof fn lemma_pages_collected_once(collected: Seq<Seq<char>>, pages: Seq<Seq<char>>)
    requires
        collected.no_duplicates(),
    ensures
        add_unique(collected, pages).no_duplicates(),
        forall|i: int| 0 <= i < pages.len() ==> add_unique(collected, pages).contains(
            strip_trailing_slashes(#[trigger] pages[i]),
        ),
        forall|x: Seq<char>| #[trigger] add_unique(collected, pages).contains(x) ==> collected.contains(x)
            || exists|i: int| 0 <= i < pages.len() && strip_trailing_slashes(pages[i]) == x,
    decreases pages.len(),
{
    if pages.len() > 0 {
        let prefix = pages.drop_last();
        lemma_pages_collected_once(collected, prefix);
        let prev = add_unique(collected, prefix);
        let u = strip_trailing_slashes(pages.last());
        let r = add_unique(collected, pages);
        assert forall|i: int| 0 <= i < pages.len() implies r.contains(
            strip_trailing_slashes(#[trigger] pages[i]),
        ) by {
            if i < pages.len() - 1 {
                assert(prefix[i] == pages[i]);
                let j = choose|j: int| 0 <= j < prev.len() && prev[j] == strip_trailing_slashes(prefix[i]);
                if !prev.contains(u) {
                    assert(r[j] == prev[j]);
                }
            } else if !prev.contains(u) {
                assert(r[prev.len() as int] == u);
            }
        }
        assert forall|x: Seq<char>| #[trigger] r.contains(x) implies collected.contains(x)
            || exists|i: int| 0 <= i < pages.len() && strip_trailing_slashes(pages[i]) == x by {
            if prev.contains(x) {
                if !collected.contains(x) {
                    let i = choose|i: int| 0 <= i < prefix.len() && strip_trailing_slashes(prefix[i]) == x;
                    assert(pages[i] == prefix[i]);
                }
            } else {
                let j = choose|j: int| 0 <= j < r.len() && r[j] == x;
                assert(j == prev.len());
                assert(strip_trailing_slashes(pages[pages.len() - 1]) == x);
            }
        }
    }
}

/// The URL that `next_pick` hands out is the normalized form of a pending
/// entry, and one not visited yet.
pub proof fn lemma_pick_is_pending(pending: Seq<Seq<char>>, visited: Seq<Seq<char>>)
    ensures
        next_pick(pending, visited).1 matches Some(u) ==> !visited.contains(u) && exists|i: int|
            0 <= i < pending.len() && strip_trailing_slashes(pending[i]) == u,
    decreases pending.len(),
{
    if pending.len() > 0 {
        let u = strip_trailing_slashes(pending.last());
        if visited.contains(u) {
            lemma_pick_is_pending(pending.drop_last(), visited);
            if let Some(w) = next_pick(pending, visited).1 {
                let i = choose|i: int|
                    0 <= i < pending.drop_last().len() && strip_trailing_slashes(pending.drop_last()[i]) == w;
                assert(pending[i] == pending.drop_last()[i]);
            }
        } else {
            assert(strip_trailing_slashes(pending[pending.len() - 1]) == u);
        }
    }
}

/// Expansion ends, even on cyclic sitemaps. Let `reachable` be a finite set
/// holding the visited URLs and the normalized form of every pending one
/// (as it does over a whole run when it holds every sitemap URL reachable
/// from the seeds). Then each URL handed out is new and in `reachable`, so
/// the visited list, which gains one URL per fetch, never outgrows it: a
/// run makes at most `reachable.len()` fetches and fetches each URL once.
pub proof fn lemma_run_is_bounded(
    pending: Seq<Seq<char>>,
    visited: Seq<Seq<char>>,
    reachable: Set<Seq<char>>,
)
    requires
        visited.no_duplicates(),
        reachable.finite(),
        forall|u: Seq<char>| visited.contains(u) ==> reachable.contains(u),
        forall|i: int| 0 <= i < pending.len() ==> reachable.contains(
            strip_trailing_slashes(#[trigger] pending[i]),
        ),
    ensures
        visited.len() <= reachable.len(),
        next_pick(pending, visited).1 matches Some(u) ==> reachable.contains(u) && !visited.contains(u)
            && visited.push(u).no_duplicates() && visited.len() + 1 <= reachable.len(),
{
    visited.unique_seq_to_set();
    vstd::set_lib::lemma_len_subset(visited.to_set(), reachable);
    lemma_pick_is_pending(pending, visited);
    if let Some(u) = next_pick(pending, visited).1 {
        let i = choose|i: int| 0 <= i < pending.len() && strip_trailing_slashes(pending[i]) == u;
        assert(reachable.contains(strip_trailing_slashes(pending[i])));
        let grown = visited.push(u);
        assert forall|a: int, b: int| 0 <= a < b < grown.len() implies grown[a] != grown[b] by {
            if b == visited.len() {
                assert(visited.contains(grown[a]));
            }
        }
        assert forall|w: Seq<char>| grown.contains(w) implies reachable.contains(w) by {
            let k = choose|k: int| 0 <= k < grown.len() && grown[k] == w;
            if k < visited.len() {
                assert(visited.contains(grown[k]));
            }
        }
        grown.unique_seq_to_set();
        vstd::set_lib::lemma_len_subset(grown.to_set(), reachable);
    }
}

} // verus!
