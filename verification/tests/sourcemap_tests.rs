use resourcer::extract_sourcemap_urls;
use resourcer::validate_sourcemap_urls;

#[test]
fn single_line_comment() {
    let js = "console.log(1);\n//# sourceMappingURL=app.js.map\n";
    let urls = extract_sourcemap_urls(js);
    assert_eq!(urls, vec!["app.js.map"]);
}

#[test]
fn block_comment() {
    let js = "/*# sourceMappingURL=vendor.map */\nfunction x(){}";
    let urls = extract_sourcemap_urls(js);
    assert_eq!(urls, vec!["vendor.map"]);
}

#[test]
fn multiple_and_none() {
    let js = "//# sourceMappingURL=first.map\n/*# sourceMappingURL=second.map */\nconsole.log('x');";
    let urls = extract_sourcemap_urls(js);
    assert_eq!(urls, vec!["first.map", "second.map"]);

    let none = "function test() {}";
    assert!(extract_sourcemap_urls(none).is_empty());
}

#[test]
fn validate_and_dedup() {
    let base = "https://example.com/js/app.js";
    let raw = vec![
        "app.js.map".to_string(),
        "https://cdn.com/vendor.map".to_string(),
        "app.js.map".to_string(),
    ];
    let urls = validate_sourcemap_urls(base, &raw);
    assert_eq!(urls.len(), 2);
    assert!(urls.iter().any(|u| u == "https://example.com/js/app.js.map"));
    assert!(urls.iter().any(|u| u == "https://cdn.com/vendor.map"));
}

#[test]
fn extraction_is_repeatable() {
    let js = "//@ sourceMappingURL=one.map\nsomething\n/*# sourceMappingURL= two.map */";
    let first = extract_sourcemap_urls(js);
    let second = extract_sourcemap_urls(js);
    assert_eq!(first, second);
    assert_eq!(first, vec!["one.map", "two.map"]);
}

#[test]
fn block_value_is_trimmed() {
    let js = "/*# sourceMappingURL=   spaced.map   */";
    assert_eq!(extract_sourcemap_urls(js), vec!["spaced.map"]);
}

#[test]
fn validate_skips_unresolvable() {
    let raw = vec!["rel.map".to_string()];
    let urls = validate_sourcemap_urls("not a url", &raw);
    assert!(urls.is_empty());
}

#[test]
fn find_first_sourcemap_comment() {
    let js = "var x;\n//# sourceMappingURL=runtime.js.map\n//# sourceMappingURL=later.map";
    assert_eq!(
        resourcer::find_sourcemap_url_in_js(js),
        Some("runtime.js.map".to_string())
    );
    assert_eq!(resourcer::find_sourcemap_url_in_js("no comments here"), None);
}

#[test]
fn value_at_end_of_text() {
    let js = "//# sourceMappingURL=last.map";
    assert_eq!(extract_sourcemap_urls(js), vec!["last.map"]);
}
