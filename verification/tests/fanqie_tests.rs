use novel_platform::fanqie::{Directory, DirectoryChapter, FanqiePlatform};
use novel_platform::json::JsonValue;
use novel_platform::model::ChapterState;

fn s(t: &str) -> JsonValue {
    JsonValue::Str(t.to_string())
}

fn obj(members: Vec<(&str, JsonValue)>) -> JsonValue {
    JsonValue::Object(members.into_iter().map(|(k, v)| (k.to_string(), v)).collect())
}

fn reply(items: Vec<JsonValue>) -> JsonValue {
    obj(vec![("data", obj(vec![("contents", JsonValue::Array(items))]))])
}

#[test]
fn platform_identity() {
    let p = FanqiePlatform::new();
    assert_eq!(p.id(), "fanqie");
    assert_eq!(p.meta().name, "番茄小说");
    assert_eq!(p.meta().domain, "fanqienovel.com");
    assert!(p.is_free_platform());
}

#[test]
fn search_hit_fields() {
    let h = FanqiePlatform::search_hit("77", "书".to_string(), "人".to_string());
    assert_eq!(h.id.platform, "fanqie");
    assert_eq!(h.id.raw, "77");
    assert_eq!(h.platform_name, "番茄小说");
    assert_eq!(h.title, "书");
    assert_eq!(h.author, "人");
    assert!(h.intro.is_none() && h.chapter_count.is_none());
}

#[test]
fn detail_from_full_directory() {
    let dir = Directory {
        chapters: vec![
            DirectoryChapter { id: "a".to_string(), title: "一".to_string() },
            DirectoryChapter { id: "b".to_string(), title: "二".to_string() },
        ],
        book_name: Some("书".to_string()),
        author: Some("作者".to_string()),
        description: Some("简介".to_string()),
        cover_path: Some("/tmp/c.jpg".to_string()),
        cover_url: Some("https://c".to_string()),
        tags: vec!["玄幻".to_string()],
        finished: Some(false),
        chapter_count: Some(2),
        word_count: Some(5_000_000_000),
    };
    let d = FanqiePlatform::detail_from_directory("42", dir);
    assert_eq!(d.id.platform, "fanqie");
    assert_eq!(d.title, "书");
    assert_eq!(d.author, "作者");
    assert_eq!(d.cover_url.as_deref(), Some("/tmp/c.jpg"));
    assert_eq!(d.tags, vec!["玄幻"]);
    assert_eq!(d.chapter_count, Some(2));
    assert_eq!(d.word_count, Some(705_032_704));
    assert_eq!(d.chapters[1].id, "b");
    assert_eq!(d.chapters[1].index, 1);
}

#[test]
fn detail_fallbacks() {
    let dir = Directory {
        chapters: Vec::new(),
        book_name: None,
        author: None,
        description: None,
        cover_path: None,
        cover_url: Some("https://c".to_string()),
        tags: Vec::new(),
        finished: None,
        chapter_count: None,
        word_count: None,
    };
    let d = FanqiePlatform::detail_from_directory("42", dir);
    assert_eq!(d.title, "42");
    assert_eq!(d.author, "");
    assert_eq!(d.cover_url.as_deref(), Some("https://c"));
    assert!(d.chapters.is_empty());
}

#[test]
fn chapter_from_reply_states() {
    let items = vec![
        obj(vec![("item_id", s("x")), ("content", s("别的"))]),
        obj(vec![("item_id", s("c1")), ("content", s("正文"))]),
        obj(vec![("item_id", s("c2")), ("content", s("  \n"))]),
    ];
    let r = reply(items);
    let c = FanqiePlatform::chapter_from_reply("c1", "一", &r);
    assert!(matches!(c.state, ChapterState::Fetched));
    assert_eq!(c.body.as_deref(), Some("正文"));
    let c = FanqiePlatform::chapter_from_reply("c2", "二", &r);
    assert!(matches!(c.state, ChapterState::Locked { ref reason } if reason == "章节内容为空,可能需要看广告解锁"));
    let c = FanqiePlatform::chapter_from_reply("c9", "九", &r);
    assert!(matches!(c.state, ChapterState::Failed { ref reason } if reason == "响应中未找到对应章节内容"));
}

#[test]
fn chapter_from_error_states() {
    let c = FanqiePlatform::chapter_from_error("c1", "一", "Cooldown: wait 30s");
    assert!(matches!(c.state, ChapterState::Locked { ref reason } if reason == "触发频率限制: Cooldown: wait 30s"));
    let c = FanqiePlatform::chapter_from_error("c1", "一", "in cooldown");
    assert!(matches!(c.state, ChapterState::Locked { .. }));
    let c = FanqiePlatform::chapter_from_error("c1", "一", "HTTP 500");
    assert!(matches!(c.state, ChapterState::Failed { ref reason } if reason == "获取失败: HTTP 500"));
}
