use novel_platform::json::JsonValue;
use novel_platform::model::{ChapterRef, ChapterState, SearchResult};
use novel_platform::qimao::{
    api_hits_if_any, chapter_from_api, chapter_from_page, chapter_page_failed, chapters_from_catalog,
    detail_from_chapters, fetch_book_meta, hit_from_json, parse_chapter_content,
    parse_chapter_list_from_html, qimao_meta, search_results_from_api, search_results_from_page,
    HtmlCleaner,
};

fn s(t: &str) -> JsonValue {
    JsonValue::Str(t.to_string())
}

fn n(v: u64) -> JsonValue {
    JsonValue::Number(Some(v))
}

fn obj(members: Vec<(&str, JsonValue)>) -> JsonValue {
    JsonValue::Object(members.into_iter().map(|(k, v)| (k.to_string(), v)).collect())
}

fn book(id: &str, title: &str) -> JsonValue {
    obj(vec![
        ("book_id", s(id)),
        ("title", s(title)),
        ("author", s("作者")),
        ("desc", s("简介")),
        ("cover", s("https://img/c.jpg")),
        ("total_chapter", n(120)),
        ("finished", n(1)),
    ])
}

#[test]
fn meta_describes_qimao() {
    let m = qimao_meta();
    assert_eq!(m.id, "qimao");
    assert_eq!(m.name, "七猫免费小说");
    assert_eq!(m.domain, "qimao.com");
    assert!(!m.requires_auth);
    assert!(m.is_free);
}

#[test]
fn hit_from_full_item() {
    let h = hit_from_json(&book("1001", "剑来"));
    assert_eq!(h.id.platform, "qimao");
    assert_eq!(h.id.raw, "1001");
    assert_eq!(h.title, "剑来");
    assert_eq!(h.author, "作者");
    assert_eq!(h.platform_name, "七猫免费小说");
    assert_eq!(h.intro.as_deref(), Some("简介"));
    assert_eq!(h.cover_url.as_deref(), Some("https://img/c.jpg"));
    assert_eq!(h.chapter_count, Some(120));
    assert_eq!(h.finished, Some(true));
}

#[test]
fn hit_from_sparse_item() {
    let h = hit_from_json(&obj(vec![("title", n(3)), ("finished", n(0)), ("total_chapter", s("9"))]));
    assert_eq!(h.id.raw, "");
    assert_eq!(h.title, "");
    assert_eq!(h.intro, None);
    assert_eq!(h.chapter_count, None);
    assert_eq!(h.finished, Some(false));
}

#[test]
fn hit_chapter_count_is_truncated_to_u32() {
    let h = hit_from_json(&obj(vec![("total_chapter", n(4_294_967_297))]));
    assert_eq!(h.chapter_count, Some(1));
}

#[test]
fn api_search_reply() {
    let reply = obj(vec![("data", obj(vec![("list", JsonValue::Array(vec![book("1", "甲"), book("2", "乙")]))]))]);
    let hits = search_results_from_api(&reply).ok().unwrap();
    let titles: Vec<&str> = hits.iter().map(|h| h.title.as_str()).collect();
    assert_eq!(titles, vec!["甲", "乙"]);
}

#[test]
fn api_search_reply_without_list_is_an_error() {
    let reply = obj(vec![("data", obj(vec![("list", s("oops"))]))]);
    assert_eq!(search_results_from_api(&reply).err().unwrap().message, "搜索响应格式异常");
    assert_eq!(search_results_from_api(&JsonValue::Null).err().unwrap().message, "搜索响应格式异常");
}

#[test]
fn page_search_prefers_page_data() {
    let nd = obj(vec![("props", obj(vec![("pageProps", obj(vec![("books", JsonValue::Array(vec![book("7", "丙")]))]))]))]);
    let hits = search_results_from_page("<html></html>", Some(&nd)).ok().unwrap();
    assert_eq!(hits.len(), 1);
    assert_eq!(hits[0].title, "丙");
    let empty = obj(vec![("props", obj(vec![("pageProps", obj(vec![("books", JsonValue::Array(vec![]))]))]))]);
    assert!(search_results_from_page("<html></html>", Some(&empty)).ok().unwrap().is_empty());
}

#[test]
fn page_search_reads_cards() {
    let html = "<a class=\"card\" href=\"/shuku/999\"><img/><h3 class=\"t\"> 书名 </h3><span>x</span><p> 作者甲 </p></a>";
    let hits = search_results_from_page(html, None).ok().unwrap();
    assert_eq!(hits.len(), 1);
    assert_eq!(hits[0].id.raw, "999");
    assert_eq!(hits[0].title, "书名");
    assert_eq!(hits[0].author, "作者甲");
    assert_eq!(hits[0].intro, None);
}

#[test]
fn page_search_without_anything_is_an_error() {
    let err = search_results_from_page("<html>nothing</html>", None).err().unwrap();
    assert_eq!(err.message, "七猫搜索:API 与 HTML 解析均未获取到结果(接口可能已变更)");
}

#[test]
fn api_hits_used_only_when_present() {
    let one = vec![hit_from_json(&book("1", "甲"))];
    assert_eq!(api_hits_if_any(Ok(one)).unwrap().len(), 1);
    assert!(api_hits_if_any(Ok(Vec::<SearchResult>::new())).is_none());
    assert!(api_hits_if_any(Err(novel_platform::model::PlatformError::new("x"))).is_none());
}

fn refs(list: &[ChapterRef]) -> Vec<(String, String, u32)> {
    list.iter().map(|c| (c.id.clone(), c.title.clone(), c.index)).collect()
}

#[test]
fn catalog_reply() {
    let item = |id: &str, t: &str| obj(vec![("chapter_id", s(id)), ("title", s(t))]);
    let reply = obj(vec![("data", obj(vec![("list", JsonValue::Array(vec![item("a", "一"), item("b", "二")]))]))]);
    assert_eq!(
        refs(&chapters_from_catalog(&reply)),
        vec![("a".to_string(), "一".to_string(), 0), ("b".to_string(), "二".to_string(), 1)]
    );
    assert!(chapters_from_catalog(&obj(vec![])).is_empty());
}

#[test]
fn chapter_list_from_links() {
    let html = "<ul><li><a href=\"/shuku/123-abc1/\"> 第一章 </a></li><li><a class=\"x\" href=\"/shuku/123-ff/\">第二章</a></li><a href=\"/shuku/9/\">目录</a></ul>";
    assert_eq!(
        refs(&parse_chapter_list_from_html(html, None)),
        vec![("abc1".to_string(), "第一章".to_string(), 0), ("ff".to_string(), "第二章".to_string(), 1)]
    );
}

#[test]
fn chapter_list_from_page_data() {
    let nd = obj(vec![("props", obj(vec![("pageProps", obj(vec![("chapters", JsonValue::Array(vec![obj(vec![("chapter_id", s("z")), ("title", s("终"))])]))]))]))]);
    let html = "<a href=\"/shuku/1-aa/\">ignored</a>";
    assert_eq!(refs(&parse_chapter_list_from_html(html, Some(&nd))), vec![("z".to_string(), "终".to_string(), 0)]);
}

#[test]
fn detail_needs_chapters() {
    let err = detail_from_chapters("55", Vec::new()).err().unwrap();
    assert_eq!(err.message, "七猫:未获取到任何章节(接口可能已变更)");
    let chapters = vec![ChapterRef { id: "a".to_string(), title: "一".to_string(), index: 0 }];
    let d = detail_from_chapters("55", chapters).ok().unwrap();
    assert_eq!(d.id.platform, "qimao");
    assert_eq!(d.id.raw, "55");
    assert_eq!(d.title, "未知书名");
    assert_eq!(d.author, "未知作者");
    assert_eq!(d.chapter_count, Some(1));
    assert_eq!(d.word_count, None);
    assert_eq!(d.chapters.len(), 1);
}

#[test]
fn placeholder_book_meta() {
    let (title, author, intro, cover, tags, finished) = fetch_book_meta("1");
    assert_eq!(title, "未知书名");
    assert_eq!(author, "未知作者");
    assert!(intro.is_none() && cover.is_none() && tags.is_empty() && finished.is_none());
}

#[test]
fn chapter_text_from_page_data_and_patterns() {
    let cleaner = HtmlCleaner::new().unwrap();
    let nd = obj(vec![("props", obj(vec![("pageProps", obj(vec![("content", s("<p>正文</p>"))]))]))]);
    assert_eq!(parse_chapter_content(&cleaner, "", Some(&nd)).as_deref(), Some("正文"));
    let html = "<body><div class=\"chapter-content\">\n<p>一</p>\n<p>二</p>\n</div></body>";
    assert_eq!(parse_chapter_content(&cleaner, html, None).as_deref(), Some("一\n二"));
    let html = "<article> 文章 </article>";
    assert_eq!(parse_chapter_content(&cleaner, html, None).as_deref(), Some("文章"));
    let html = "<div id=\"main-content\"><p>三</p></div>";
    assert_eq!(parse_chapter_content(&cleaner, html, None).as_deref(), Some("三"));
    assert_eq!(parse_chapter_content(&cleaner, "<div>none</div>", None), None);
    let empty_nd = obj(vec![("props", obj(vec![("pageProps", obj(vec![("content", s(""))]))]))]);
    assert_eq!(parse_chapter_content(&cleaner, "<article>备用</article>", Some(&empty_nd)).as_deref(), Some("备用"));
}

#[test]
fn chapter_from_api_reply() {
    let cleaner = HtmlCleaner::new().unwrap();
    let reply = obj(vec![("data", obj(vec![("content", s("<p>第一段</p>\n<p>第二段</p>"))]))]);
    let c = chapter_from_api(&cleaner, "c1", "第一章", &reply);
    assert!(matches!(c.state, ChapterState::Fetched));
    assert_eq!(c.body.as_deref(), Some("第一段\n第二段"));
    let reply = obj(vec![("data", obj(vec![("content", s(""))]))]);
    let c = chapter_from_api(&cleaner, "c1", "第一章", &reply);
    assert!(matches!(c.state, ChapterState::Locked { ref reason } if reason == "章节内容为空,可能需要看广告解锁"));
}

#[test]
fn chapter_from_web_page() {
    let cleaner = HtmlCleaner::new().unwrap();
    let c = chapter_from_page(&cleaner, "c2", "第二章", "<article>正文</article>", None);
    assert_eq!(c.body.as_deref(), Some("正文"));
    assert_eq!(c.chapter_id, "c2");
    let c = chapter_from_page(&cleaner, "c2", "第二章", "<p>nothing</p>", None);
    assert!(matches!(c.state, ChapterState::Failed { ref reason } if reason == "无法从 HTML 中提取章节正文"));
    let c = chapter_page_failed("c3", "第三章", "timeout");
    assert!(matches!(c.state, ChapterState::Failed { ref reason } if reason == "章节页面获取失败: timeout"));
}
