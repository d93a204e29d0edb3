//! The per-URL bookkeeping of the materialization pipeline: where each
//! document is saved, and what each URL's task came to.
use spider::url::Url;
use vstd::prelude::*;

use crate::sitemap::views;

verus! {

/// The path segments of `url` as the URL parser splits them, or `None` when
/// it does not parse or has no path segments.
pub uninterp spec fn url_path_segments_of(url: Seq<char>) -> Option<Seq<Seq<char>>>;

/// Relies on url's `Url::parse` and `Url::path_segments`: the `/`-separated
/// segments of the parsed URL's path (empty ones included), or `None` when
/// the URL does not parse or cannot be a base.
#[verifier::external_body]
fn url_path_segments(url: &str) -> (r: Option<Vec<String>>)
    ensures
        r is Some <==> url_path_segments_of(url@) is Some,
        r matches Some(v) ==> views(v@) == url_path_segments_of(url@)->0,
{
    let parsed = Url::parse(url).ok()?;
    let segments = parsed.path_segments()?;
    Some(segments.map(|s| s.to_string()).collect())
}

/// The last non-empty segment, if any.
pub open spec fn last_nonempty(segments: Seq<Seq<char>>) -> Option<Seq<char>>
    decreases segments.len(),
{
    if segments.len() == 0 {
        None
    } else if segments.last().len() > 0 {
        Some(segments.last())
    } else {
        last_nonempty(segments.drop_last())
    }
}

/// The name a document is saved under, without directory or extension.
pub open spec fn file_stem_of(segments: Seq<Seq<char>>) -> Seq<char> {
    match last_nonempty(segments) {
        Some(s) => s,
        None => seq!['i', 'n', 'd', 'e', 'x'],
    }
}

/// `output/{stem}.md`.
pub open spec fn output_file_of(segments: Seq<Seq<char>>) -> Seq<char> {
    seq!['o', 'u', 't', 'p', 'u', 't', '/'] + file_stem_of(segments) + seq!['.', 'm', 'd']
}

/// The destination of a URL's document, when the URL has path segments.
pub open spec fn output_path_of(url: Seq<char>) -> Option<Seq<char>> {
    match url_path_segments_of(url) {
        Some(segs) => Some(output_file_of(segs)),
        None => None,
    }
}

/// The file a document is saved to, given its URL's path segments: the
/// last non-empty segment, or `index` when there is none, under `output/`
/// with the extension `.md`.
pub fn output_file_for_segments(segments: &Vec<String>) -> (r: String)
    ensures
        r@ == output_file_of(views(segments@)),
{
    let ghost segs = views(segments@);
    let mut i: usize = segments.len();
    assert(segs.take(i as int) =~= segs);
    while i > 0 && segments[i - 1].as_str().is_empty()
        invariant
            i <= segments.len(),
            segs == views(segments@),
            last_nonempty(segs) == last_nonempty(segs.take(i as int)),
        decreases i,
    {
        assert(segs.take(i as int).drop_last() =~= segs.take(i - 1));
        i = i - 1;
    }
    let mut r = String::from_str("output/");
    proof {
        reveal_strlit("output/");
        reveal_strlit("index");
        reveal_strlit(".md");
    }
    if i == 0 {
        assert(segs.take(0) =~= Seq::<Seq<char>>::empty());
        r.append("index");
    } else {
        assert(segs.take(i as int).last() == segments@[i - 1]@);
        r.append(segments[i - 1].as_str());
    }
    r.append(".md");
    assert(r@ =~= output_file_of(segs));
    r
}

/// The file a URL's document is saved to; `None` when the URL does not
/// parse or has no path segments.
pub fn output_file_path(url: &str) -> (r: Option<String>)
    ensures
        r is Some <==> output_path_of(url@) is Some,
        r matches Some(p) ==> p@ == output_path_of(url@)->0,
{
    match url_path_segments(url) {
        Some(segments) => Some(output_file_for_segments(&segments)),
        None => None,
    }
}

/// How one URL's task ended, as reported by the task that fetched,
/// transformed and wrote it.
#[derive(PartialEq, Eq, Structural, Clone, Copy, Debug)]
pub enum TaskReport {
    /// The document was written to its file.
    Written,
    /// The page could not be fetched.
    FetchFailed,
    /// The page could not be converted to a document.
    TransformFailed,
    /// The file could not be written.
    WriteFailed,
}

/// Why a URL was not materialized.
#[derive(PartialEq, Eq, Structural, Clone, Copy, Debug)]
pub enum FailureKind {
    /// The URL gives no file name (it does not parse, or has no path).
    InvalidUrl,
    Fetch,
    Transform,
    Filesystem,
}

/// The result of materializing one URL.
pub enum MaterializationOutcome {
    /// The document was saved to `path`.
    Saved { url: String, path: String },
    /// The URL failed, for the reason given.
    Failed { url: String, kind: FailureKind },
}

/// The mathematical value of a [`MaterializationOutcome`].
pub enum OutcomeView {
    Saved { url: Seq<char>, path: Seq<char> },
    Failed { url: Seq<char>, kind: FailureKind },
}

impl View for MaterializationOutcome {
    type V = OutcomeView;

    open spec fn view(&self) -> OutcomeView {
        match self {
            MaterializationOutcome::Saved { url, path } => OutcomeView::Saved { url: url@, path: path@ },
            MaterializationOutcome::Failed { url, kind } => OutcomeView::Failed { url: url@, kind: *kind },
        }
    }
}

/// The outcome for `url` given its task's report.
pub open spec fn outcome_of(url: Seq<char>, report: TaskReport) -> OutcomeView {
    match output_path_of(url) {
        None => OutcomeView::Failed { url, kind: FailureKind::InvalidUrl },
        Some(path) => match report {
            TaskReport::Written => OutcomeView::Saved { url, path },
            TaskReport::FetchFailed => OutcomeView::Failed { url, kind: FailureKind::Fetch },
            TaskReport::TransformFailed => OutcomeView::Failed { url, kind: FailureKind::Transform },
            TaskReport::WriteFailed => OutcomeView::Failed { url, kind: FailureKind::Filesystem },
        },
    }
}

/// The outcomes of a run, one per URL, each from that URL and its own report.
pub open spec fn outcomes_of(urls: Seq<Seq<char>>, reports: Seq<TaskReport>) -> Seq<OutcomeView> {
    Seq::new(urls.len(), |i: int| outcome_of(urls[i], reports[i]))
}

/// The outcome of one URL's task: a URL without a file name fails as
/// invalid; otherwise the task's report decides.
pub fn outcome_for(url: &str, report: TaskReport) -> (r: MaterializationOutcome)
    ensures
        r@ == outcome_of(url@, report),
{
    let u = String::from_str(url);
    match output_file_path(url) {
        None => MaterializationOutcome::Failed { url: u, kind: FailureKind::InvalidUrl },
        Some(path) => match report {
            TaskReport::Written => MaterializationOutcome::Saved { url: u, path },
            TaskReport::FetchFailed => MaterializationOutcome::Failed { url: u, kind: FailureKind::Fetch },
            TaskReport::TransformFailed => MaterializationOutcome::Failed {
                url: u,
                kind: FailureKind::Transform,
            },
            TaskReport::WriteFailed => MaterializationOutcome::Failed {
                url: u,
                kind: FailureKind::Filesystem,
            },
        },
    }
}

/// The outcomes of a run, in the order of `urls`, where `reports[i]` is how
/// the task for `urls[i]` ended.
pub fn collect_outcomes(urls: &Vec<String>, reports: &Vec<TaskReport>) -> (r: Vec<MaterializationOutcome>)
    requires
        urls.len() == reports.len(),
    ensures
        r@.map_values(|o: MaterializationOutcome| o@) == outcomes_of(views(urls@), reports@),
{
    let mut out: Vec<MaterializationOutcome> = Vec::new();
    let mut i: usize = 0;
    while i < urls.len()
        invariant
            i <= urls.len() == reports.len(),
            out@.map_values(|o: MaterializationOutcome| o@) == outcomes_of(views(urls@), reports@).take(i as int),
        decreases urls.len() - i,
    {
        let o = outcome_for(urls[i].as_str(), reports[i]);
        let ghost prev = out@.map_values(|o: MaterializationOutcome| o@);
        out.push(o);
        assert(out@.map_values(|o: MaterializationOutcome| o@) =~= prev.push(o@));
        assert(outcomes_of(views(urls@), reports@).take(i + 1) =~= outcomes_of(views(urls@), reports@).take(i as int).push(o@));
        i = i + 1;
    }
    assert(outcomes_of(views(urls@), reports@).take(i as int) =~= outcomes_of(views(urls@), reports@));
    out
}

/// A failing URL affects no other: when the task of `urls[k]` fails to
/// fetch and every other task wrote its document, every other URL is saved
/// to its own file and `urls[k]` alone is reported, as a fetch failure.
pub proof fn lemma_failure_is_isolated(urls: Seq<Seq<char>>, reports: Seq<TaskReport>, k: int)
    requires
        urls.len() == reports.len(),
        0 <= k < urls.len(),
        reports[k] == TaskReport::FetchFailed,
        forall|i: int| 0 <= i < urls.len() && i != k ==> reports[i] == TaskReport::Written,
        forall|i: int| 0 <= i < urls.len() ==> (#[trigger] output_path_of(urls[i])) is Some,
    ensures
        outcomes_of(urls, reports).len() == urls.len(),
        outcomes_of(urls, reports)[k] == (OutcomeView::Failed { url: urls[k], kind: FailureKind::Fetch }),
        forall|i: int|
            0 <= i < urls.len() && i != k ==> #[trigger] outcomes_of(urls, reports)[i] == (OutcomeView::Saved {
                url: urls[i],
                path: output_path_of(urls[i])->0,
            }),
{
    assert(output_path_of(urls[k]) is Some);
    assert forall|i: int| 0 <= i < urls.len() && i != k implies #[trigger] outcomes_of(urls, reports)[i]
        == (OutcomeView::Saved { url: urls[i], path: output_path_of(urls[i])->0 }) by {
        assert(output_path_of(urls[i]) is Some);
    }
}

} // verus!
