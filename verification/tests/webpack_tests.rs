use resourcer::ChunkFilenameTemplate;
use resourcer::build_chunk_url;
use resourcer::extract_public_path;
use resourcer::infer_chunk_filename_template;

#[test]
fn infer_standard_template() {
    let runtime = r#"
    __webpack_require__.u = function(chunkId) {
        return "static/js/" + chunkId + ".js";
    };
    "#;

    let tpl = infer_chunk_filename_template(runtime).expect("should detect template");
    assert_eq!(tpl, ChunkFilenameTemplate { prefix: "static/js/".into(), suffix: ".js".into() });
}

#[test]
fn no_template_found() {
    let runtime = "console.log('no webpack');";
    assert!(infer_chunk_filename_template(runtime).is_none());
}

#[test]
fn extract_public_and_build_url() {
    let js = r#"__webpack_require__.p = "https://cdn.example.com/assets/";"#;
    let public = extract_public_path(js).expect("public path");
    assert_eq!(public, "https://cdn.example.com/assets/");

    let tpl = ChunkFilenameTemplate { prefix: "js/".into(), suffix: ".js".into() };
    let url = build_chunk_url(Some(public.as_str()), &tpl, "123").expect("url");
    assert_eq!(url, "https://cdn.example.com/assets/js/123.js");
}

#[test]
fn infer_arrow_template() {
    let runtime = r#"__webpack_require__.u = (id) => "chunks/" + id + ".chunk.js";"#;
    let tpl = infer_chunk_filename_template(runtime).expect("detect");
    assert_eq!(
        tpl,
        ChunkFilenameTemplate { prefix: "chunks/".into(), suffix: ".chunk.js".into() },
    );
}

#[test]
fn infer_template_literal() {
    let runtime = r#"__webpack_require__.u = function(id) { return `assets/${id}.bundle.js`; };"#;
    let tpl = infer_chunk_filename_template(runtime).expect("detect");
    assert_eq!(
        tpl,
        ChunkFilenameTemplate { prefix: "assets/".into(), suffix: ".bundle.js".into() },
    );
}

#[test]
fn empty_public_path_is_absent() {
    let js = r#"__webpack_require__.p = "";"#;
    assert!(extract_public_path(js).is_none());
}

#[test]
fn template_round_trip_rebuilds_path() {
    // the rendered classic helper is recognized and rebuilds its own path
    let runtime =
        "__webpack_require__.u = function(e) { return \"static/chunks/\" + e + \"-abc.js\"; }";
    let tpl = infer_chunk_filename_template(runtime).expect("detect");
    assert_eq!(tpl.prefix, "static/chunks/");
    assert_eq!(tpl.suffix, "-abc.js");
    let mut path = tpl.prefix.clone();
    path.push_str("777");
    path.push_str(&tpl.suffix);
    assert_eq!(path, "static/chunks/777-abc.js");
}

#[test]
fn generate_urls_skips_unbuildable() {
    let tpl = ChunkFilenameTemplate { prefix: "js/".into(), suffix: ".js".into() };
    let ids = vec!["1".to_string(), "2".to_string()];
    let urls = resourcer::generate_chunk_urls(Some("https://a.example/"), &tpl, &ids);
    assert_eq!(urls, vec!["https://a.example/js/1.js", "https://a.example/js/2.js"]);
    // without a base the relative path parses as no URL at all
    let none = resourcer::generate_chunk_urls(None, &tpl, &ids);
    assert!(none.is_empty());
}
