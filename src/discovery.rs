//! The discovery engine's decisions: which fallback tier comes next, and the
//! cycle-safe expansion of sitemap indexes. The fetching itself is done by
//! the caller, which hands each outcome back.
use vstd::prelude::*;

use crate::robots::{robots_sitemaps, sitemaps_from_robots_txt};
use crate::sitemap::{parse_sitemap_xml_locs, sitemap_links, views};

verus! {

/// What discovery does next once a tier has been tried.
pub enum DiscoveryStep {
    /// Expand these sitemap URLs recursively.
    Expand(Vec<String>),
    /// Fetch this `sitemap.xml` URL and hand its body to `after_sitemap_xml`.
    FetchSitemapXml(String),
    /// Crawl this domain live; the crawl's URLs are the discovery result.
    Crawl(String),
}

/// The mathematical value of a [`DiscoveryStep`].
pub enum DiscoveryStepView {
    Expand(Seq<Seq<char>>),
    FetchSitemapXml(Seq<char>),
    Crawl(Seq<char>),
}

impl View for DiscoveryStep {
    type V = DiscoveryStepView;

    open spec fn view(&self) -> DiscoveryStepView {
        match self {
            DiscoveryStep::Expand(v) => DiscoveryStepView::Expand(views(v@)),
            DiscoveryStep::FetchSitemapXml(u) => DiscoveryStepView::FetchSitemapXml(u@),
            DiscoveryStep::Crawl(d) => DiscoveryStepView::Crawl(d@),
        }
    }
}

/// `{domain}/robots.txt`.
pub open spec fn robots_url_of(domain: Seq<char>) -> Seq<char> {
    domain + seq!['/', 'r', 'o', 'b', 'o', 't', 's', '.', 't', 'x', 't']
}

/// `{domain}/sitemap.xml`.
pub open spec fn sitemap_xml_url_of(domain: Seq<char>) -> Seq<char> {
    domain + seq!['/', 's', 'i', 't', 'e', 'm', 'a', 'p', '.', 'x', 'm', 'l']
}

/// The step after the robots.txt tier; `robots` is the body when the fetch succeeded.
pub open spec fn step_after_robots(domain: Seq<char>, robots: Option<Seq<char>>) -> DiscoveryStepView {
    match robots {
        Some(text) if robots_sitemaps(text).len() > 0 => DiscoveryStepView::Expand(
            robots_sitemaps(text),
        ),
        _ => DiscoveryStepView::FetchSitemapXml(sitemap_xml_url_of(domain)),
    }
}

/// The step after the sitemap.xml tier; `xml` is the body when the fetch succeeded.
pub open spec fn step_after_sitemap_xml(domain: Seq<char>, xml: Option<Seq<char>>) -> DiscoveryStepView {
    match xml {
        Some(x) if sitemap_links(x).0.len() > 0 => DiscoveryStepView::Expand(
            seq![sitemap_xml_url_of(domain)],
        ),
        _ => DiscoveryStepView::Crawl(domain),
    }
}

/// The URL of a domain's robots.txt.
pub fn robots_url(domain: &str) -> (r: String)
    ensures
        r@ == robots_url_of(domain@),
{
    let mut s = String::from_str(domain);
    proof {
        reveal_strlit("/robots.txt");
    }
    s.append("/robots.txt");
    assert(s@ =~= robots_url_of(domain@));
    s
}

/// The URL of a domain's sitemap.xml.
pub fn sitemap_xml_url(domain: &str) -> (r: String)
    ensures
        r@ == sitemap_xml_url_of(domain@),
{
    let mut s = String::from_str(domain);
    proof {
        reveal_strlit("/sitemap.xml");
    }
    s.append("/sitemap.xml");
    assert(s@ =~= sitemap_xml_url_of(domain@));
    s
}

/// Decides the step after fetching robots.txt: its `Sitemap:` URLs, when it
/// was fetched and announces at least one; otherwise the sitemap.xml tier.
pub fn after_robots(domain: &str, robots: Option<&str>) -> (r: DiscoveryStep)
    ensures
        r@ == step_after_robots(
            domain@,
            match robots {
                Some(t) => Some(t@),
                None => None,
            },
        ),
{
    match robots {
        Some(text) => {
            let seeds = sitemaps_from_robots_txt(text);
            if seeds.len() > 0 {
                DiscoveryStep::Expand(seeds)
            } else {
                DiscoveryStep::FetchSitemapXml(sitemap_xml_url(domain))
            }
        },
        None => DiscoveryStep::FetchSitemapXml(sitemap_xml_url(domain)),
    }
}

/// Decides the step after fetching sitemap.xml: expand it, when it was
/// fetched and lists at least one page; otherwise crawl the live site.
pub fn after_sitemap_xml(domain: &str, xml: Option<&str>) -> (r: DiscoveryStep)
    ensures
        r@ == step_after_sitemap_xml(
            domain@,
            match xml {
                Some(x) => Some(x@),
                None => None,
            },
        ),
{
    match xml {
        Some(x) => {
            let (pages, _) = parse_sitemap_xml_locs(x);
            if pages.len() > 0 {
                let mut seeds: Vec<String> = Vec::new();
                seeds.push(sitemap_xml_url(domain));
                assert(views(seeds@) =~= seq![sitemap_xml_url_of(domain@)]);
                DiscoveryStep::Expand(seeds)
            } else {
                DiscoveryStep::Crawl(String::from_str(domain))
            }
        },
        None => DiscoveryStep::Crawl(String::from_str(domain)),
    }
}

/// When robots.txt was fetched and announces at least one sitemap, those
/// sitemaps are expanded: neither sitemap.xml nor the live crawl is tried.
pub proof fn lemma_robots_sitemaps_settle_discovery(domain: Seq<char>, text: Seq<char>)
    requires
        robots_sitemaps(text).len() > 0,
    ensures
        step_after_robots(domain, Some(text)) == DiscoveryStepView::Expand(robots_sitemaps(text)),
{
}

/// When robots.txt gives no sitemap (its fetch failed, or it announces
/// none) and sitemap.xml lists at least one page, sitemap.xml is fetched
/// and then expanded: the live crawl is not tried.
pub proof fn lemma_sitemap_xml_settles_discovery(
    domain: Seq<char>,
    robots: Option<Seq<char>>,
    xml: Seq<char>,
)
    requires
        robots matches Some(t) ==> robots_sitemaps(t).len() == 0,
        sitemap_links(xml).0.len() > 0,
    ensures
        step_after_robots(domain, robots) == DiscoveryStepView::FetchSitemapXml(
            sitemap_xml_url_of(domain),
        ),
        step_after_sitemap_xml(domain, Some(xml)) == DiscoveryStepView::Expand(
            seq![sitemap_xml_url_of(domain)],
        ),
{
}

/// When neither robots.txt nor sitemap.xml gives anything usable, the live
/// crawl of the domain is what remains, and its result is the discovery result.
pub proof fn lemma_crawl_when_sitemaps_fail(
    domain: Seq<char>,
    robots: Option<Seq<char>>,
    xml: Option<Seq<char>>,
)
    requires
        robots matches Some(t) ==> robots_sitemaps(t).len() == 0,
        xml matches Some(x) ==> sitemap_links(x).0.len() == 0,
    ensures
        step_after_robots(domain, robots) == DiscoveryStepView::FetchSitemapXml(
            sitemap_xml_url_of(domain),
        ),
        step_after_sitemap_xml(domain, xml) == DiscoveryStepView::Crawl(domain),
{
}

} // verus!
