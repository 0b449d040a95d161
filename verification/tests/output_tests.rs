use resourcer::TreeFile;
use resourcer::validate_output;

fn file(path: &str, data: &str) -> TreeFile {
    TreeFile { path: path.to_string(), data: data.as_bytes().to_vec() }
}

#[test]
fn validate_output_success() {
    let src = vec![file("file.js", "alert('x');")];
    let dst = vec![file("file.js", "alert('x');")];
    assert!(validate_output(&src, &dst).is_empty());
}

#[test]
fn validate_output_detects_mismatch() {
    let src = vec![file("file.js", "console.log('a');")];
    let dst = vec![file("file.js", "modified")];
    assert_eq!(validate_output(&src, &dst), vec!["file.js"]);
}

#[test]
fn validate_output_detects_missing() {
    let src = vec![file("a.js", "1"), file("b.js", "2")];
    let dst = vec![file("a.js", "1")];
    assert_eq!(validate_output(&src, &dst), vec!["b.js"]);
}

#[test]
fn validate_output_empty_iff_all_match() {
    let src = vec![file("x/a.js", "aa"), file("y/b.js", "bb")];
    let same = vec![file("y/b.js", "bb"), file("x/a.js", "aa")];
    assert!(validate_output(&src, &same).is_empty());
    let differing = vec![file("y/b.js", "bb"), file("x/a.js", "changed")];
    assert_eq!(validate_output(&src, &differing), vec!["x/a.js"]);
}

#[test]
fn download_records_hold_one_outcome() {
    let ok = resourcer::DownloadResult::success("https://a".to_string(), "body".to_string());
    assert_eq!(ok.url, "https://a");
    assert_eq!(ok.content.as_deref(), Some("body"));
    assert!(ok.error.is_none());

    let bad = resourcer::DownloadResult::failure(
        "https://b".to_string(),
        resourcer::FetchError::HttpStatus(500),
    );
    assert_eq!(bad.url, "https://b");
    assert!(bad.content.is_none());
    assert!(matches!(bad.error, Some(resourcer::FetchError::HttpStatus(500))));
}

#[test]
fn default_download_config() {
    let cfg = resourcer::DownloadManagerConfig::default();
    assert_eq!(cfg.concurrency, 8);
    assert_eq!(cfg.retry_attempts, 3);
}

#[test]
fn live_url_filter_keeps_2xx() {
    let probes = vec![
        resourcer::HeadProbe { url: "https://h/chunk.js".to_string(), status: Some(200) },
        resourcer::HeadProbe { url: "https://h/bad.js".to_string(), status: Some(404) },
        resourcer::HeadProbe { url: "https://h/err.js".to_string(), status: None },
        resourcer::HeadProbe { url: "https://h/alt.js".to_string(), status: Some(299) },
    ];
    let live = resourcer::filter_live_urls(&probes);
    assert_eq!(live, vec!["https://h/chunk.js", "https://h/alt.js"]);
}

#[test]
fn truncation_caps_the_list() {
    let mut urls: Vec<String> =
        vec!["a".to_string(), "b".to_string(), "c".to_string()];
    resourcer::truncate_urls(&mut urls, 2);
    assert_eq!(urls, vec!["a", "b"]);
    resourcer::truncate_urls(&mut urls, 5);
    assert_eq!(urls, vec!["a", "b"]);
}
