use novel_platform::scraper::{extract_meta, initial_state_text, next_data_text, MetaMap};

#[test]
fn next_data_script_text() {
    let html = "<html><script id=\"__NEXT_DATA__\" type=\"application/json\">{\"props\":{}}</script></html>";
    assert_eq!(next_data_text(html).as_deref(), Some("{\"props\":{}}"));
    assert_eq!(next_data_text("<script>var a = 1;</script>"), None);
}

#[test]
fn initial_state_assignment_text() {
    let html = "<script>window.__INITIAL_STATE__ = {\"book\":{\"id\":1}} ;</script>";
    assert_eq!(initial_state_text(html, "INITIAL_STATE").as_deref(), Some("{\"book\":{\"id\":1}}"));
    assert_eq!(initial_state_text(html, "NUXT"), None);
}

#[test]
fn page_meta_tags() {
    let html = "<head><title>书页</title><meta property=\"og:title\" content=\"剑来\"><meta property=\"og:image\" content=\"c.jpg\"><meta property=\"og:title\" content=\"剑来2\"><meta name=\"description\" content=\"简介\"></head>";
    let meta = extract_meta(html);
    assert_eq!(meta.len(), 4);
    assert_eq!(meta.get("title").map(|s| s.as_str()), Some("书页"));
    assert_eq!(meta.get("og:title").map(|s| s.as_str()), Some("剑来2"));
    assert_eq!(meta.get("og:image").map(|s| s.as_str()), Some("c.jpg"));
    assert_eq!(meta.get("description").map(|s| s.as_str()), Some("简介"));
    assert_eq!(meta.get("og:url"), None);
}

#[test]
fn page_without_meta() {
    assert_eq!(extract_meta("<p>plain</p>").len(), 0);
}

#[test]
fn meta_map_insert_replaces() {
    let mut m = MetaMap::new();
    m.insert("k".to_string(), "1".to_string());
    m.insert("k".to_string(), "2".to_string());
    m.insert("j".to_string(), "3".to_string());
    assert_eq!(m.len(), 2);
    assert_eq!(m.get("k").map(|s| s.as_str()), Some("2"));
}
