use resourcer::parse_sourcemap;
use resourcer::reconstruct_paths;

#[test]
fn webpack_protocol_and_source_root() {
    let json = r#"{
        "version":3,
        "sourceRoot":"src/",
        "sources":["webpack:///./foo/bar.js","webpack://namespace/./baz.js"]
    }"#;
    let sm = parse_sourcemap(json).unwrap();

    let paths = reconstruct_paths("/tmp/rsrc_out", &sm);
    let expected1 = "/tmp/rsrc_out/src/foo/bar.js";
    let expected2 = "/tmp/rsrc_out/src/baz.js";

    assert_eq!(paths, vec![expected1, expected2]);
}

#[test]
fn reconstruction_sandboxes_traversal() {
    let json = r#"{
        "version":3,
        "sources":["webpack:///../../etc/passwd","/abs/x.js","./ok.js"]
    }"#;
    let sm = parse_sourcemap(json).unwrap();
    let paths = reconstruct_paths("/out", &sm);
    assert_eq!(paths.len(), 3);
    for p in &paths {
        assert!(p.starts_with("/out"));
    }
    assert_eq!(paths[0], "/out/etc/passwd");
    assert_eq!(paths[1], "/out/abs/x.js");
    assert_eq!(paths[2], "/out/ok.js");
}

#[test]
fn dot_segments_are_folded() {
    let json = r#"{
        "version":3,
        "sources":["a/./b//c.js","a/b/../d.js"]
    }"#;
    let sm = parse_sourcemap(json).unwrap();
    let paths = reconstruct_paths("root", &sm);
    assert_eq!(paths, vec!["root/a/b/c.js", "root/a/d.js"]);
}

#[test]
fn empty_sources_are_dropped() {
    let json = r#"{
        "version":3,
        "sources":["", "x.js"]
    }"#;
    let sm = parse_sourcemap(json).unwrap();
    let paths = reconstruct_paths("/o", &sm);
    assert_eq!(paths, vec!["/o/x.js"]);
}

#[test]
fn paths_pair_with_their_contents() {
    let json = r#"{
        "version":3,
        "sources":["a.js", "", "b.js", "c.js"],
        "sourcesContent":["var a;", "skip", null]
    }"#;
    let sm = parse_sourcemap(json).unwrap();
    let pairs = resourcer::reconstruct_paths_with_contents("/o", &sm);
    assert_eq!(
        pairs,
        vec![
            ("/o/a.js".to_string(), Some("var a;".to_string())),
            ("/o/b.js".to_string(), None),
            ("/o/c.js".to_string(), None),
        ],
    );
}

#[test]
fn parsed_fields_mirror_the_document() {
    let json = r#"{
        "version":3,
        "sourceRoot":"lib",
        "sources":["x.js"],
        "sourcesContent":["var x;"]
    }"#;
    let sm = parse_sourcemap(json).unwrap();
    assert_eq!(sm.source_root.as_deref(), Some("lib"));
    assert_eq!(sm.sources, vec![Some("lib/x.js".to_string())]);
    assert_eq!(sm.sources_content, vec![Some("var x;".to_string())]);
}
