use rust_web_crawler::cli::parse_arguments;
use rust_web_crawler::discovery::{after_robots, after_sitemap_xml, robots_url, sitemap_xml_url, DiscoveryStep};
use rust_web_crawler::expansion::SitemapExpansion;
use rust_web_crawler::robots::sitemaps_from_robots_txt;
use rust_web_crawler::text::normalize_url;

fn strings(v: &[&str]) -> Vec<String> {
    v.iter().map(|s| s.to_string()).collect()
}

#[test]
fn robots_sitemap_lines_become_seeds() {
    let body = "User-agent: *\nSitemap: https://ex.com/s1.xml\nSitemap: https://ex.com/s2.xml";
    assert_eq!(
        sitemaps_from_robots_txt(body),
        strings(&["https://ex.com/s1.xml", "https://ex.com/s2.xml"])
    );
}

#[test]
fn robots_directive_is_case_sensitive_and_trimmed() {
    let body = "sitemap: https://ex.com/a.xml\r\nSitemap:\t https://ex.com/b.xml  \r\n Sitemap: x\n";
    assert_eq!(sitemaps_from_robots_txt(body), strings(&["https://ex.com/b.xml"]));
}

#[test]
fn robots_without_directives_gives_nothing() {
    assert!(sitemaps_from_robots_txt("").is_empty());
    assert!(sitemaps_from_robots_txt("User-agent: *\nDisallow: /\n").is_empty());
}

#[test]
fn tier_urls() {
    assert_eq!(robots_url("https://ex.com"), "https://ex.com/robots.txt");
    assert_eq!(sitemap_xml_url("https://ex.com"), "https://ex.com/sitemap.xml");
}

#[test]
fn robots_with_sitemaps_skips_other_tiers() {
    let step = after_robots("https://ex.com", Some("Sitemap: https://ex.com/s1.xml\n"));
    match step {
        DiscoveryStep::Expand(seeds) => assert_eq!(seeds, strings(&["https://ex.com/s1.xml"])),
        _ => panic!("expected expansion"),
    }
}

#[test]
fn robots_failure_falls_to_sitemap_xml() {
    match after_robots("https://ex.com", None) {
        DiscoveryStep::FetchSitemapXml(u) => assert_eq!(u, "https://ex.com/sitemap.xml"),
        _ => panic!("expected sitemap.xml tier"),
    }
    match after_robots("https://ex.com", Some("User-agent: *\n")) {
        DiscoveryStep::FetchSitemapXml(u) => assert_eq!(u, "https://ex.com/sitemap.xml"),
        _ => panic!("expected sitemap.xml tier"),
    }
}

#[test]
fn sitemap_xml_with_pages_is_expanded() {
    let xml = "<urlset><url><loc>https://ex.com/a</loc></url></urlset>";
    match after_sitemap_xml("https://ex.com", Some(xml)) {
        DiscoveryStep::Expand(seeds) => assert_eq!(seeds, strings(&["https://ex.com/sitemap.xml"])),
        _ => panic!("expected expansion"),
    }
}

#[test]
fn both_tiers_empty_fall_to_crawl() {
    match after_sitemap_xml("https://ex.com", None) {
        DiscoveryStep::Crawl(d) => assert_eq!(d, "https://ex.com"),
        _ => panic!("expected crawl"),
    }
    let only_maps = "<sitemapindex><sitemap><loc>https://ex.com/s.xml</loc></sitemap></sitemapindex>";
    match after_sitemap_xml("https://ex.com", Some(only_maps)) {
        DiscoveryStep::Crawl(d) => assert_eq!(d, "https://ex.com"),
        _ => panic!("expected crawl"),
    }
}

/// Runs an expansion against a fixed site, returning the fetched URLs and the result.
fn run(seeds: &[&str], site: &[(&str, &str)]) -> (Vec<String>, Vec<String>) {
    let mut e = SitemapExpansion::new(strings(seeds));
    let mut fetched = Vec::new();
    while let Some(url) = e.next_sitemap() {
        fetched.push(url.clone());
        if let Some((_, body)) = site.iter().find(|(u, _)| *u == url) {
            e.add_sitemap_body(body);
        }
    }
    (fetched, e.into_urls())
}

#[test]
fn cyclic_sitemaps_are_fetched_once_each() {
    let a = "<sitemapindex><sitemap><loc>https://ex.com/b.xml</loc></sitemap></sitemapindex>\
             <urlset><url><loc>https://ex.com/p1</loc></url></urlset>";
    let b = "<sitemapindex><sitemap><loc>https://ex.com/a.xml</loc></sitemap></sitemapindex>\
             <urlset><url><loc>https://ex.com/p2</loc></url></urlset>";
    let (mut fetched, mut urls) =
        run(&["https://ex.com/a.xml"], &[("https://ex.com/a.xml", a), ("https://ex.com/b.xml", b)]);
    fetched.sort();
    urls.sort();
    assert_eq!(fetched, strings(&["https://ex.com/a.xml", "https://ex.com/b.xml"]));
    assert_eq!(urls, strings(&["https://ex.com/p1", "https://ex.com/p2"]));
}

#[test]
fn duplicate_locs_are_collected_once() {
    let s = "<urlset><url><loc>https://ex.com/a</loc></url><url><loc>https://ex.com/a/</loc></url>\
             <url><loc>https://ex.com/b</loc></url><url><loc>https://ex.com/a</loc></url></urlset>";
    let (fetched, mut urls) = run(&["https://ex.com/s.xml", "https://ex.com/s.xml/"], &[("https://ex.com/s.xml", s)]);
    urls.sort();
    assert_eq!(fetched, strings(&["https://ex.com/s.xml"]));
    assert_eq!(urls, strings(&["https://ex.com/a", "https://ex.com/b"]));
}

#[test]
fn failed_sitemap_branch_contributes_nothing() {
    let idx = "<sitemapindex><sitemap><loc>https://ex.com/gone.xml</loc></sitemap>\
               <sitemap><loc>https://ex.com/ok.xml</loc></sitemap></sitemapindex>";
    let ok = "<urlset><url><loc>https://ex.com/page</loc></url></urlset>";
    let (fetched, urls) = run(&["https://ex.com/idx.xml"], &[("https://ex.com/idx.xml", idx), ("https://ex.com/ok.xml", ok)]);
    assert_eq!(fetched.len(), 3);
    assert_eq!(urls, strings(&["https://ex.com/page"]));
}

#[test]
fn empty_seed_list_yields_nothing() {
    let (fetched, urls) = run(&[], &[]);
    assert!(fetched.is_empty());
    assert!(urls.is_empty());
}

#[test]
fn normalize_strips_trailing_slashes() {
    assert_eq!(normalize_url("https://x.com/a/"), "https://x.com/a");
    assert_eq!(normalize_url("https://x.com/a//"), "https://x.com/a");
    assert_eq!(normalize_url("https://x.com/a"), "https://x.com/a");
    assert_eq!(normalize_url(""), "");
}

#[test]
fn arguments_give_target_domain() {
    assert_eq!(parse_arguments(&strings(&["prog"])), None);
    assert_eq!(parse_arguments(&strings(&[])), None);
    assert_eq!(
        parse_arguments(&strings(&["prog", "https://example.com", "extra"])),
        Some("https://example.com".to_string())
    );
}
