use rust_web_crawler::sitemap::{classify_locs, parse_sitemap_xml_locs, resolve_xml_entity, XmlToken};

fn strings(v: &[&str]) -> Vec<String> {
    v.iter().map(|s| s.to_string()).collect()
}

#[test]
fn locs_are_classified_by_suffix() {
    let xml = "<urlset><url><loc>https://ex.com/a</loc></url><url><loc>https://ex.com/sub.xml</loc></url></urlset>";
    let (pages, maps) = parse_sitemap_xml_locs(xml);
    assert_eq!(pages, strings(&["https://ex.com/a"]));
    assert_eq!(maps, strings(&["https://ex.com/sub.xml"]));
}

#[test]
fn parsing_twice_gives_the_same_result() {
    let xml = "<urlset><url><loc> https://ex.com/a </loc></url><url><loc>https://ex.com/s.xml</loc></url></urlset>";
    assert_eq!(parse_sitemap_xml_locs(xml), parse_sitemap_xml_locs(xml));
}

#[test]
fn locs_are_trimmed_and_blank_ones_ignored() {
    let xml = "<urlset>\n  <url>\n    <loc>\n      https://ex.com/a\n    </loc>\n  </url>\n  <url><loc>   </loc></url>\n</urlset>";
    let (pages, maps) = parse_sitemap_xml_locs(xml);
    assert_eq!(pages, strings(&["https://ex.com/a"]));
    assert!(maps.is_empty());
}

#[test]
fn malformed_markup_keeps_entries_before_the_error() {
    let xml = "<urlset><url><loc>https://ex.com/a</loc></url><url><loc>https://ex.com/b</lox></url><url><loc>https://ex.com/c</loc>";
    let (pages, _) = parse_sitemap_xml_locs(xml);
    assert_eq!(pages[0], "https://ex.com/a");
    assert!(!pages.contains(&"https://ex.com/c".to_string()));
}

#[test]
fn empty_or_garbage_markup_gives_two_empty_lists() {
    assert_eq!(parse_sitemap_xml_locs(""), (vec![], vec![]));
    assert_eq!(parse_sitemap_xml_locs("not xml at all"), (vec![], vec![]));
}

#[test]
fn content_url_ending_in_xml_counts_as_sitemap() {
    let (pages, maps) = parse_sitemap_xml_locs("<urlset><url><loc>https://ex.com/feed.xml</loc></url></urlset>");
    assert!(pages.is_empty());
    assert_eq!(maps, strings(&["https://ex.com/feed.xml"]));
}

#[test]
fn classify_reads_loc_elements_only() {
    let text = |s: &str| XmlToken::Text(Some(s.to_string()));
    let tokens = vec![
        text("ignored"),
        XmlToken::Start(b"loc".to_vec()),
        text("https://ex.com/x"),
        XmlToken::Other,
        text("?q=1"),
        XmlToken::End,
        text("https://ex.com/outside"),
        XmlToken::Start(b"loc".to_vec()),
        XmlToken::End,
        XmlToken::Start(b"lastmod".to_vec()),
        text("2024-01-01"),
        XmlToken::End,
        XmlToken::Start(b"loc".to_vec()),
        XmlToken::Text(None),
        XmlToken::End,
        XmlToken::Start(b"loc".to_vec()),
        text("  "),
        XmlToken::End,
        XmlToken::Start(b"loc".to_vec()),
        text("https://ex.com/m.xml"),
        XmlToken::End,
    ];
    let (pages, maps) = classify_locs(&tokens);
    assert_eq!(pages, strings(&["https://ex.com/x?q=1"]));
    assert_eq!(maps, strings(&["https://ex.com/m.xml"]));
}

#[test]
fn classify_resolves_references() {
    let tokens = vec![
        XmlToken::Start(b"loc".to_vec()),
        XmlToken::Text(Some("https://ex.com/?a=1".to_string())),
        XmlToken::Ref(Some("amp".to_string()), None),
        XmlToken::Text(Some("b=2".to_string())),
        XmlToken::Ref(Some("#x26".to_string()), Some('&')),
        XmlToken::Text(Some("c=3".to_string())),
        XmlToken::End,
        XmlToken::Start(b"loc".to_vec()),
        XmlToken::Text(Some("https://ex.com/".to_string())),
        XmlToken::Ref(Some("nbsp".to_string()), None),
        XmlToken::End,
    ];
    let (pages, maps) = classify_locs(&tokens);
    assert_eq!(pages, strings(&["https://ex.com/?a=1&b=2&c=3"]));
    assert!(maps.is_empty());
}

#[test]
fn entities_in_loc_are_resolved() {
    let xml = "<urlset><url><loc>https://ex.com/?a=1&amp;b=2&#38;c=&lt;3&gt;</loc></url></urlset>";
    let (pages, maps) = parse_sitemap_xml_locs(xml);
    assert_eq!(pages, strings(&["https://ex.com/?a=1&b=2&c=<3>"]));
    assert!(maps.is_empty());
}

#[test]
fn empty_loc_does_not_take_following_text() {
    let xml = "<urlset><url><loc></loc><lastmod>2024-01-01</lastmod></url>\
               <url><loc>   </loc><lastmod>2024-01-02</lastmod></url>\
               <url><loc>https://ex.com/b</loc></url></urlset>";
    let (pages, maps) = parse_sitemap_xml_locs(xml);
    assert_eq!(pages, strings(&["https://ex.com/b"]));
    assert!(maps.is_empty());
}

#[test]
fn predefined_entities() {
    assert_eq!(resolve_xml_entity("lt"), Some('<'));
    assert_eq!(resolve_xml_entity("gt"), Some('>'));
    assert_eq!(resolve_xml_entity("amp"), Some('&'));
    assert_eq!(resolve_xml_entity("apos"), Some('\''));
    assert_eq!(resolve_xml_entity("quot"), Some('"'));
    assert_eq!(resolve_xml_entity("nbsp"), None);
    assert_eq!(resolve_xml_entity(""), None);
}
