//! Reading `<loc>` entries out of sitemap markup and sorting them into page
//! URLs and nested sitemap URLs.
use std::borrow::Cow;

use spider::quick_xml::events::Event;
use spider::quick_xml::Reader;
use vstd::prelude::*;

use crate::text::{
    chars_of, ends_with, range_ends_with, range_starts_with, string_of, string_of_range, trim,
    trim_bounds,
};

verus! {

/// One event of the XML reader, reduced to what the `<loc>` scan reads.
pub enum XmlToken {
    /// An opening tag, with its qualified name.
    Start(Vec<u8>),
    /// A closing tag.
    End,
    /// Character data, decoded (`None` when decoding failed).
    Text(Option<String>),
    /// An entity or character reference: its name, decoded, and the
    /// character it denotes when it is a valid character reference.
    Ref(Option<String>, Option<char>),
    /// Any other event (comments, CDATA sections, declarations, ...).
    Other,
}

/// The mathematical value of an [`XmlToken`].
pub enum XmlTokenView {
    Start(Seq<u8>),
    End,
    Text(Option<Seq<char>>),
    Ref(Option<Seq<char>>, Option<char>),
    Other,
}

/// The view of an optional string.
pub open spec fn opt_view(s: Option<String>) -> Option<Seq<char>> {
    match s {
        Some(v) => Some(v@),
        None => None,
    }
}

impl View for XmlToken {
    type V = XmlTokenView;

    open spec fn view(&self) -> XmlTokenView {
        match self {
            XmlToken::Start(name) => XmlTokenView::Start(name@),
            XmlToken::End => XmlTokenView::End,
            XmlToken::Text(t) => XmlTokenView::Text(opt_view(*t)),
            XmlToken::Ref(name, char_ref) => XmlTokenView::Ref(opt_view(*name), *char_ref),
            XmlToken::Other => XmlTokenView::Other,
        }
    }
}

/// The events that the XML reader (text trimming on) yields for `xml`, up to
/// the end of input or the first syntax error.
pub uninterp spec fn xml_tokens_of(xml: Seq<char>) -> Seq<XmlTokenView>;

/// Relies on quick-xml's `Reader::from_str`, `Config::trim_text`,
/// `Reader::read_event`, the `decode` methods of text and reference events, and `BytesRef::resolve_char_ref`: the events of `xml` in document
/// order, stopping at end of input or at the first error.
#[verifier::external_body]
fn xml_tokens(xml: &str) -> (r: Vec<XmlToken>)
    ensures
        r@.map_values(|t: XmlToken| t@) == xml_tokens_of(xml@),
{
    let mut reader = Reader::from_str(xml);
    reader.config_mut().trim_text(true);
    let mut tokens = Vec::new();
    loop {
        tokens.push(match reader.read_event() {
            Ok(Event::Start(e)) => XmlToken::Start(e.name().0.to_vec()),
            Ok(Event::End(_)) => XmlToken::End,
            Ok(Event::Text(e)) => XmlToken::Text(e.decode().ok().map(Cow::into_owned)),
            Ok(Event::GeneralRef(r)) => XmlToken::Ref(r.decode().ok().map(Cow::into_owned), r.resolve_char_ref().ok().flatten()),
            Ok(Event::Eof) | Err(_) => return tokens,
            Ok(_) => XmlToken::Other,
        });
    }
}

/// The tag whose text is a sitemap entry.
pub open spec fn loc_tag() -> Seq<u8> {
    seq![108u8, 111u8, 99u8]
}

/// The suffix that marks an entry as a nested sitemap.
pub open spec fn xml_suffix() -> Seq<char> {
    seq!['.', 'x', 'm', 'l']
}

/// Whether an entry names a nested sitemap (by its `.xml` suffix) rather
/// than a page.
pub open spec fn is_sitemap_ref(url: Seq<char>) -> bool {
    ends_with(url, xml_suffix())
}

/// The character that one of the five entities predefined by XML denotes.
pub open spec fn predefined_entity(name: Seq<char>) -> Option<char> {
    if name == seq!['l', 't'] {
        Some('<')
    } else if name == seq!['g', 't'] {
        Some('>')
    } else if name == seq!['a', 'm', 'p'] {
        Some('&')
    } else if name == seq!['a', 'p', 'o', 's'] {
        Some('\'')
    } else if name == seq!['q', 'u', 'o', 't'] {
        Some('"')
    } else {
        None
    }
}

/// The character a reference stands for: the character of a character
/// reference, else that of a predefined entity; `None` for any other.
pub open spec fn ref_char(name: Option<Seq<char>>, char_ref: Option<char>) -> Option<char> {
    match char_ref {
        Some(c) => Some(c),
        None => match name {
            Some(n) => predefined_entity(n),
            None => None,
        },
    }
}

/// The state of the `<loc>` scan: the page URLs and nested sitemap URLs
/// found, whether a `<loc>` element is open, whether its content has been
/// read without fault so far, and that content.
pub struct LocScan {
    pub pages: Seq<Seq<char>>,
    pub maps: Seq<Seq<char>>,
    pub in_loc: bool,
    pub ok: bool,
    pub text: Seq<char>,
}

/// The state of the `<loc>` scan after `tokens`. A `<loc>` element's text
/// is the text and resolved references between `<loc>` and the next
/// closing tag; an element holding another element, an unknown reference or
/// undecodable text gives nothing. The trimmed text is an entry unless it
/// is blank; an entry ending in `.xml` is a nested sitemap.
pub open spec fn scan_locs(tokens: Seq<XmlTokenView>) -> LocScan
    decreases tokens.len(),
{
    if tokens.len() == 0 {
        LocScan { pages: seq![], maps: seq![], in_loc: false, ok: true, text: seq![] }
    } else {
        let s = scan_locs(tokens.drop_last());
        match tokens.last() {
            XmlTokenView::Start(name) => if name == loc_tag() {
                LocScan { in_loc: true, ok: true, text: seq![], ..s }
            } else {
                LocScan { in_loc: false, ..s }
            },
            XmlTokenView::End => if !s.in_loc {
                s
            } else {
                let v = trim(s.text);
                if !s.ok || v.len() == 0 {
                    LocScan { in_loc: false, ..s }
                } else if is_sitemap_ref(v) {
                    LocScan { in_loc: false, maps: s.maps.push(v), ..s }
                } else {
                    LocScan { in_loc: false, pages: s.pages.push(v), ..s }
                }
            },
            XmlTokenView::Text(t) => if !s.in_loc {
                s
            } else {
                match t {
                    Some(v) => LocScan { text: s.text + v, ..s },
                    None => LocScan { ok: false, ..s },
                }
            },
            XmlTokenView::Ref(name, char_ref) => if !s.in_loc {
                s
            } else {
                match ref_char(name, char_ref) {
                    Some(c) => LocScan { text: s.text.push(c), ..s },
                    None => LocScan { ok: false, ..s },
                }
            },
            XmlTokenView::Other => s,
        }
    }
}

/// The page URLs and nested sitemap URLs of a sitemap document, in document order.
pub open spec fn sitemap_links(xml: Seq<char>) -> (Seq<Seq<char>>, Seq<Seq<char>>) {
    let s = scan_locs(xml_tokens_of(xml));
    (s.pages, s.maps)
}

/// The views of a list of strings.
pub open spec fn views(v: Seq<String>) -> Seq<Seq<char>> {
    v.map_values(|s: String| s@)
}

fn is_loc_tag(name: &Vec<u8>) -> (r: bool)
    ensures
        r == (name@ == loc_tag()),
{
    if name.len() == 3 && name[0] == 108u8 && name[1] == 111u8 && name[2] == 99u8 {
        assert(name@ =~= loc_tag());
        true
    } else {
        false
    }
}

/// Whether `cs` is exactly `word`.
fn chars_equal(cs: &Vec<char>, word: &Vec<char>) -> (r: bool)
    ensures
        r == (cs@ == word@),
{
    let n = cs.len();
    if n != word.len() {
        return false;
    }
    let r = range_starts_with(cs, 0, n, word);
    assert(cs@.subrange(0, n as int) =~= cs@);
    assert(cs@.subrange(0, n as int).subrange(0, n as int) =~= cs@);
    r
}

/// The character one of the five entities predefined by XML denotes, as
/// quick-xml's `resolve_xml_entity` gives it.
pub fn resolve_xml_entity(name: &str) -> (r: Option<char>)
    ensures
        r == predefined_entity(name@),
{
    let cs = chars_of(name);
    let lt = vec!['l', 't'];
    let gt = vec!['g', 't'];
    let amp = vec!['a', 'm', 'p'];
    let apos = vec!['a', 'p', 'o', 's'];
    let quot = vec!['q', 'u', 'o', 't'];
    assert(lt@ =~= seq!['l', 't']);
    assert(gt@ =~= seq!['g', 't']);
    assert(amp@ =~= seq!['a', 'm', 'p']);
    assert(apos@ =~= seq!['a', 'p', 'o', 's']);
    assert(quot@ =~= seq!['q', 'u', 'o', 't']);
    if chars_equal(&cs, &lt) {
        Some('<')
    } else if chars_equal(&cs, &gt) {
        Some('>')
    } else if chars_equal(&cs, &amp) {
        Some('&')
    } else if chars_equal(&cs, &apos) {
        Some('\'')
    } else if chars_equal(&cs, &quot) {
        Some('"')
    } else {
        None
    }
}

/// The character a reference token stands for, if it is known.
fn resolve_ref(name: &Option<String>, char_ref: Option<char>) -> (r: Option<char>)
    ensures
        r == ref_char(opt_view(*name), char_ref),
{
    match char_ref {
        Some(c) => Some(c),
        None => match name {
            Some(n) => resolve_xml_entity(n.as_str()),
            None => None,
        },
    }
}

/// The result of the scan of `tokens`: page URLs and nested sitemap URLs.
pub open spec fn token_links(tokens: Seq<XmlTokenView>) -> (Seq<Seq<char>>, Seq<Seq<char>>) {
    let s = scan_locs(tokens);
    (s.pages, s.maps)
}

/// Sorts the `<loc>` entries of a token stream into page URLs and nested
/// sitemap URLs: an entry is the trimmed text of a `<loc>` element, with its
/// references resolved, ignored when blank; an entry ending in `.xml` is a
/// nested sitemap.
pub fn classify_locs(tokens: &Vec<XmlToken>) -> (r: (Vec<String>, Vec<String>))
    ensures
        (views(r.0@), views(r.1@)) == token_links(tokens@.map_values(|t: XmlToken| t@)),
{
    let ghost toks = tokens@.map_values(|t: XmlToken| t@);
    let mut pages: Vec<String> = Vec::new();
    let mut maps: Vec<String> = Vec::new();
    let mut in_loc = false;
    let mut ok = true;
    let mut text = String::new();
    let suffix = vec!['.', 'x', 'm', 'l'];
    assert(suffix@ =~= xml_suffix());
    assert(views(pages@) =~= Seq::<Seq<char>>::empty());
    assert(views(maps@) =~= Seq::<Seq<char>>::empty());
    let mut i: usize = 0;
    while i < tokens.len()
        invariant
            i <= tokens.len(),
            toks == tokens@.map_values(|t: XmlToken| t@),
            suffix@ == xml_suffix(),
            scan_locs(toks.take(i as int)) == (LocScan {
                pages: views(pages@),
                maps: views(maps@),
                in_loc,
                ok,
                text: text@,
            }),
        decreases tokens.len() - i,
    {
        assert(toks.take(i + 1).drop_last() =~= toks.take(i as int));
        assert(toks.take(i + 1).last() == tokens@[i as int]@);
        match &tokens[i] {
            XmlToken::Start(name) => {
                if is_loc_tag(name) {
                    in_loc = true;
                    ok = true;
                    text = String::new();
                    assert(text@ =~= seq![]);
                } else {
                    in_loc = false;
                }
            },
            XmlToken::End => {
                if in_loc {
                    if ok {
                        let cs = chars_of(text.as_str());
                        let (a, b) = trim_bounds(&cs, 0, cs.len());
                        assert(cs@.subrange(0, cs.len() as int) =~= cs@);
                        assert(cs@.subrange(a as int, b as int) == trim(text@));
                        if a < b {
                            let entry = string_of_range(&cs, a, b);
                            let ghost p0 = views(pages@);
                            let ghost m0 = views(maps@);
                            if range_ends_with(&cs, a, b, &suffix) {
                                maps.push(entry);
                                assert(views(maps@) =~= m0.push(entry@));
                                assert(views(pages@) == p0);
                            } else {
                                pages.push(entry);
                                assert(views(pages@) =~= p0.push(entry@));
                                assert(views(maps@) == m0);
                            }
                        }
                    }
                    in_loc = false;
                }
            },
            XmlToken::Text(t) => {
                if in_loc {
                    match t {
                        Some(v) => text.append(v.as_str()),
                        None => ok = false,
                    }
                }
            },
            XmlToken::Ref(name, char_ref) => {
                if in_loc {
                    match resolve_ref(name, *char_ref) {
                        Some(c) => {
                            let piece = vec![c];
                            let one = string_of(piece.as_slice());
                            assert(one@ =~= seq![c]);
                            let ghost before = text@;
                            text.append(one.as_str());
                            assert(text@ =~= before.push(c));
                        },
                        None => ok = false,
                    }
                }
            },
            XmlToken::Other => {},
        }
        i = i + 1;
    }
    assert(toks.take(i as int) =~= toks);
    (pages, maps)
}

/// Reads the `<loc>` entries of a sitemap document and sorts them into page
/// URLs and nested sitemap URLs. Malformed markup never fails: the entries
/// read before the first error are kept.
pub fn parse_sitemap_xml_locs(xml: &str) -> (r: (Vec<String>, Vec<String>))
    ensures
        (views(r.0@), views(r.1@)) == sitemap_links(xml@),
{
    let tokens = xml_tokens(xml);
    classify_locs(&tokens)
}

/// Parsing is a function of the markup alone: the same markup, read twice,
/// gives the same pages and the same nested sitemaps.
pub proof fn lemma_parse_is_deterministic(a: Seq<char>, b: Seq<char>)
    requires
        a == b,
    ensures
        sitemap_links(a) == sitemap_links(b),
{
}

} // verus!
