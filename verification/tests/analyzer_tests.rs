use resourcer::extract_chunk_ids;
use resourcer::extract_chunk_maps;
use resourcer::extract_literal_chunk_paths;
use resourcer::extract_paths_from_build_manifest;
use resourcer::generate_urls_from_chunk_maps;

#[test]
fn chunk_ids_from_registry_pushes() {
    let js = r#"self.webpackChunk_my_app.push([["7431", {}]]);
    webpackChunk.push([[123, {}]]);"#;
    let ids = extract_chunk_ids(js);
    assert_eq!(ids, vec!["7431", "123"]);
}

#[test]
fn chunk_ids_from_hardcoded_cases() {
    let js = r#"return 7561 === e ? "static/chunks/7561-be856e985935a49b.js" : 331 === e ? "static/chunks/331-ab12cd34ef56ab78.js" : void 0"#;
    let ids = extract_chunk_ids(js);
    assert_eq!(ids, vec!["7561", "331"]);
}

#[test]
fn chunk_ids_from_object_literals() {
    let js = r#"u = e => "static/chunks/"+({1255:"7d0bf13e",2725:"ui"}[e]||e)+"."+{1255:"abc123",43:"7fa619f5"}[e]+".js""#;
    let ids = extract_chunk_ids(js);
    assert_eq!(ids, vec!["1255", "2725", "43"]);
}

#[test]
fn literal_chunk_paths_deduplicated() {
    let js = r#"load("static/chunks/100-aa.js");load("static/chunks/100-aa.js");load("static/chunks/200-bb.js")"#;
    let paths = extract_literal_chunk_paths(js);
    assert_eq!(paths, vec!["static/chunks/100-aa.js", "static/chunks/200-bb.js"]);
}

#[test]
fn build_manifest_paths() {
    let js = r#"self.__BUILD_MANIFEST={ "/": ["static/chunks/pages/index-1a2b.js","static/css/main-3c4d.css"], "/about": ["static/chunks/pages/about-5e6f.js","static/chunks/pages/index-1a2b.js"] }"#;
    let paths = extract_paths_from_build_manifest(js);
    assert_eq!(
        paths,
        vec![
            "static/chunks/pages/index-1a2b.js",
            "static/css/main-3c4d.css",
            "static/chunks/pages/about-5e6f.js",
        ],
    );
}

#[test]
fn chunk_maps_and_generated_urls() {
    let js = r#"u = e => "static/chunks/"+({1255:"7d0bf13e"}[e]||e)+"."+{1255:"abc123",43:"7fa619f5"}[e]+".js""#;
    let info = extract_chunk_maps(js).expect("map info");
    assert_eq!(info.prefix, "static/chunks/");
    assert_eq!(info.separator, ".");
    assert_eq!(info.map_first, vec![("1255".to_string(), "7d0bf13e".to_string())]);
    assert_eq!(
        info.map_second,
        vec![
            ("1255".to_string(), "abc123".to_string()),
            ("43".to_string(), "7fa619f5".to_string()),
        ],
    );

    let ids = vec!["1255".to_string(), "43".to_string(), "9".to_string()];
    let urls = generate_urls_from_chunk_maps("https://h.example/_next/", &info, &ids);
    assert_eq!(
        urls,
        vec![
            "https://h.example/_next/static/chunks/7d0bf13e.abc123.js",
            "https://h.example/_next/static/chunks/43.7fa619f5.js",
        ],
    );
}

#[test]
fn no_chunk_maps_in_plain_code() {
    assert!(extract_chunk_maps("console.log('nothing')").is_none());
}

#[test]
fn derive_base_with_and_without_prefix() {
    let base = resourcer::derive_base_from_runtime(
        "https://site.example/_next/static/chunks/webpack-abc.js",
        "static/",
    )
    .expect("base");
    assert_eq!(base, "https://site.example/_next/");

    let root = resourcer::derive_base_from_runtime(
        "https://site.example/js/webpack-abc.js",
        "static/chunks/",
    )
    .expect("base");
    assert_eq!(root, "https://site.example/");
}

#[test]
fn script_urls_from_html() {
    let html = r#"<head><script src="/js/app.js"></script>
    <script async src='vendor.js?v=2'></script>
    <script src="/style.css"></script></head>"#;
    let urls = resourcer::extract_script_urls(html, "https://p.example/deep/page.html");
    assert_eq!(
        urls,
        vec!["https://p.example/js/app.js", "https://p.example/deep/vendor.js?v=2"],
    );
}

#[test]
fn chunk_ids_deduplicate_across_patterns() {
    let js = r#"webpackChunk.push([["42", {}]]);
    42 === e ? "static/chunks/42-ffff.js" : 0;
    "static/chunks/"+({42:"a"}[e]||e)+"."+{42:"h",7:"g"}[e]"#;
    let ids = extract_chunk_ids(js);
    assert_eq!(ids, vec!["42", "7"]);
}

#[test]
fn derive_base_when_prefix_opens_the_path() {
    let base = resourcer::derive_base_from_runtime(
        "https://s.example/static/chunks/webpack-1.js",
        "static/chunks/",
    )
    .expect("base");
    assert_eq!(base, "https://s.example/");
}

#[test]
fn runtime_path_recognition() {
    assert!(resourcer::is_webpack_runtime_path("/_next/static/chunks/webpack-abc123.js"));
    assert!(resourcer::is_webpack_runtime_path("/webpack-1.js"));
    assert!(!resourcer::is_webpack_runtime_path("webpack-1.js"));
    assert!(!resourcer::is_webpack_runtime_path("/js/webpack-.js"));
    assert!(!resourcer::is_webpack_runtime_path("/js/main-abc.js"));
    assert!(!resourcer::is_webpack_runtime_path("/webpack-abc.css"));
}

#[test]
fn manifest_urls_filter_join_and_dedup() {
    let paths = vec![
        "static/chunks/pages/index-1a2b.js".to_string(),
        "static/css/main-3c4d.css".to_string(),
        "static/chunks/pages/index-1a2b.js".to_string(),
        "static/chunks/app-9f.js".to_string(),
    ];
    let urls = resourcer::manifest_chunk_urls("https://h.example/_next/", &paths);
    assert_eq!(
        urls,
        vec![
            "https://h.example/_next/static/chunks/pages/index-1a2b.js",
            "https://h.example/_next/static/chunks/app-9f.js",
        ],
    );
}
