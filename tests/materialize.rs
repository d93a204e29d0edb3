use rust_web_crawler::fetch::{fetch_content, status_succeeded, FetchFailure};
use rust_web_crawler::materialize::{
    collect_outcomes, outcome_for, output_file_for_segments, output_file_path, FailureKind,
    MaterializationOutcome, TaskReport,
};

fn strings(v: &[&str]) -> Vec<String> {
    v.iter().map(|s| s.to_string()).collect()
}

#[test]
fn file_name_from_last_path_segment() {
    assert_eq!(output_file_path("https://ex.com/blog/post-1"), Some("output/post-1.md".to_string()));
    assert_eq!(output_file_path("https://ex.com/"), Some("output/index.md".to_string()));
    assert_eq!(output_file_path("https://ex.com/docs/intro/"), Some("output/intro.md".to_string()));
}

#[test]
fn file_name_without_path_segments() {
    assert_eq!(output_file_path("not a url"), None);
    assert_eq!(output_file_path("mailto:someone@ex.com"), None);
}

#[test]
fn file_name_from_segments() {
    assert_eq!(output_file_for_segments(&strings(&["a", "b", ""])), "output/b.md");
    assert_eq!(output_file_for_segments(&strings(&["", ""])), "output/index.md");
    assert_eq!(output_file_for_segments(&strings(&[])), "output/index.md");
}

#[test]
fn one_failure_does_not_affect_others() {
    let urls = strings(&["https://ex.com/a", "https://ex.com/b", "https://ex.com/c"]);
    let reports = vec![TaskReport::Written, TaskReport::FetchFailed, TaskReport::Written];
    let out = collect_outcomes(&urls, &reports);
    assert_eq!(out.len(), 3);
    match &out[0] {
        MaterializationOutcome::Saved { url, path } => {
            assert_eq!(url, "https://ex.com/a");
            assert_eq!(path, "output/a.md");
        }
        _ => panic!("expected saved"),
    }
    match &out[1] {
        MaterializationOutcome::Failed { url, kind } => {
            assert_eq!(url, "https://ex.com/b");
            assert_eq!(*kind, FailureKind::Fetch);
        }
        _ => panic!("expected failure"),
    }
    match &out[2] {
        MaterializationOutcome::Saved { path, .. } => assert_eq!(path, "output/c.md"),
        _ => panic!("expected saved"),
    }
}

#[test]
fn each_failure_kind_is_reported() {
    let kind = |url: &str, r: TaskReport| match outcome_for(url, r) {
        MaterializationOutcome::Failed { kind, .. } => Some(kind),
        MaterializationOutcome::Saved { .. } => None,
    };
    assert_eq!(kind("nope", TaskReport::Written), Some(FailureKind::InvalidUrl));
    assert_eq!(kind("https://ex.com/a", TaskReport::FetchFailed), Some(FailureKind::Fetch));
    assert_eq!(kind("https://ex.com/a", TaskReport::TransformFailed), Some(FailureKind::Transform));
    assert_eq!(kind("https://ex.com/a", TaskReport::WriteFailed), Some(FailureKind::Filesystem));
    assert_eq!(kind("https://ex.com/a", TaskReport::Written), None);
}

#[test]
fn fetch_succeeds_only_on_200_with_utf8_body() {
    let ok = fetch_content("https://ex.com/a", 200, Some("héllo".as_bytes().to_vec()));
    assert_eq!(ok.ok(), Some("héllo".to_string()));
    let e = fetch_content("https://ex.com/a", 404, Some(b"x".to_vec())).err().unwrap();
    assert_eq!((e.url.as_str(), e.status, e.cause), ("https://ex.com/a", 404, FetchFailure::BadStatus));
    let e = fetch_content("https://ex.com/a", 200, None).err().unwrap();
    assert_eq!(e.cause, FetchFailure::MissingBody);
    let e = fetch_content("https://ex.com/a", 200, Some(vec![0xff, 0xfe])).err().unwrap();
    assert_eq!(e.cause, FetchFailure::InvalidUtf8);
    assert_eq!(e.cause.describe(), "the body is not valid UTF-8");
    assert_eq!(FetchFailure::BadStatus.describe(), "the server did not answer with status 200");
    assert_eq!(FetchFailure::MissingBody.describe(), "the server answered without a body");
}

#[test]
fn only_status_200_is_success() {
    assert!(status_succeeded(200));
    assert!(!status_succeeded(201));
    assert!(!status_succeeded(404));
}
