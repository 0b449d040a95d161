use resourcer::parse_sourcemap;
use resourcer::sources_list;

#[test]
fn parse_basic_sourcemap() {
    let json = r#"{
        "version":3,
        "file":"out.js",
        "sourceRoot":"",
        "sources":["foo.ts"],
        "names":[],
        "mappings":"AAAA"
    }"#;
    let sm = parse_sourcemap(json).unwrap();
    let sources = sources_list(&sm);
    assert_eq!(sources, vec!["foo.ts"]);
}

#[test]
fn parse_failure_is_reported() {
    let err = parse_sourcemap("not json at all").unwrap_err();
    let msg = err.message();
    assert!(!msg.is_empty());
}

#[test]
fn sources_content_travels_through() {
    let json = r#"{
        "version":3,
        "sources":["a.js","b.js"],
        "sourcesContent":["var a = 1;", null],
        "mappings":"AAAA"
    }"#;
    let sm = parse_sourcemap(json).unwrap();
    assert_eq!(sm.sources.len(), sm.sources_content.len());
    assert_eq!(sm.sources_content[0].as_deref(), Some("var a = 1;"));
    assert!(sm.sources_content[1].is_none());
}
