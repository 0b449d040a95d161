use resourcer::MemoryStorage;

#[test]
fn save_and_get_round_trip() {
    let mut store = MemoryStorage::new();
    store.save_html("https://example.com", "<html>hello</html>").unwrap();
    let doc = store.get("https://example.com").expect("stored");
    assert_eq!(doc.url, "https://example.com");
    assert!(doc.content.contains("hello"));
}

#[test]
fn later_saves_override_earlier() {
    let mut store = MemoryStorage::new();
    store.save_html("https://a.example", "first").unwrap();
    store.save_html("https://a.example", "second").unwrap();
    store.save_html("https://b.example", "other").unwrap();
    assert_eq!(store.get("https://a.example").unwrap().content, "second");
    assert_eq!(store.get("https://b.example").unwrap().content, "other");
    assert!(store.get("https://c.example").is_none());
}
