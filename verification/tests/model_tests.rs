use novel_platform::model::{ChapterContent, ChapterState, NovelId, PlatformError};

#[test]
fn novel_id_new_keeps_both_parts() {
    let id = NovelId::new("fanqie", "7143038691944959011");
    assert_eq!(id.platform, "fanqie");
    assert_eq!(id.raw, "7143038691944959011");
}

#[test]
fn novel_id_parse_splits_at_first_colon() {
    let id = NovelId::parse("qimao:1234").unwrap();
    assert_eq!(id.platform, "qimao");
    assert_eq!(id.raw, "1234");
    let id = NovelId::parse("a:b:c").unwrap();
    assert_eq!(id.platform, "a");
    assert_eq!(id.raw, "b:c");
}

#[test]
fn novel_id_parse_rejects_missing_parts() {
    assert!(NovelId::parse("no-colon").is_none());
    assert!(NovelId::parse(":123").is_none());
    assert!(NovelId::parse("fanqie:").is_none());
    assert!(NovelId::parse("").is_none());
    assert!(NovelId::parse(":").is_none());
}

#[test]
fn novel_id_written_form_reads_back() {
    let id = NovelId::new("七猫", "书-1");
    let text = id.to_string();
    assert_eq!(text, "七猫:书-1");
    assert_eq!(NovelId::parse(&text), Some(id));
}

#[test]
fn chapter_content_constructors() {
    let ok = ChapterContent::ok("c1", "第一章", "正文".to_string());
    assert_eq!(ok.chapter_id, "c1");
    assert_eq!(ok.chapter_title, "第一章");
    assert!(matches!(ok.state, ChapterState::Fetched));
    assert_eq!(ok.body.as_deref(), Some("正文"));

    let locked = ChapterContent::locked("c2", "第二章", "需要解锁");
    assert!(matches!(locked.state, ChapterState::Locked { ref reason } if reason == "需要解锁"));
    assert!(locked.body.is_none());

    let failed = ChapterContent::failed("c3", "第三章", "网络错误");
    assert!(matches!(failed.state, ChapterState::Failed { ref reason } if reason == "网络错误"));
    assert!(failed.body.is_none());
}

#[test]
fn platform_error_keeps_message() {
    assert_eq!(PlatformError::new("出错了").message, "出错了");
}
