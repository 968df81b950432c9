use novel_platform::json::JsonValue;
use novel_platform::model::ChapterState;
use novel_platform::qimao::HtmlCleaner;
use novel_platform::qimao_flow::{ChapterFlow, DetailFlow, Reply, Request, SearchFlow, Stage, Step};

fn s(t: &str) -> JsonValue {
    JsonValue::Str(t.to_string())
}

fn obj(members: Vec<(&str, JsonValue)>) -> JsonValue {
    JsonValue::Object(members.into_iter().map(|(k, v)| (k.to_string(), v)).collect())
}

fn list(items: Vec<JsonValue>) -> JsonValue {
    obj(vec![("data", obj(vec![("list", JsonValue::Array(items))]))])
}

fn url(r: &Request) -> (&'static str, String) {
    match r {
        Request::Json(u) => ("json", u.clone()),
        Request::Page(u) => ("page", u.clone()),
    }
}

#[test]
fn search_uses_api_hits() {
    let (mut flow, req) = SearchFlow::start("剑来");
    assert_eq!(url(&req), ("json", "https://api.qimao.com/api/search?keyword=%E5%89%91%E6%9D%A5&page=1&size=20".to_string()));
    let reply = Reply::Json(Ok(list(vec![obj(vec![("book_id", s("1")), ("title", s("剑来"))])])));
    match flow.on_reply(reply) {
        Step::Done(Ok(hits)) => assert_eq!(hits[0].title, "剑来"),
        _ => panic!("expected hits"),
    }
}

#[test]
fn search_falls_back_to_page() {
    let (mut flow, _) = SearchFlow::start("a b");
    match flow.on_reply(Reply::Json(Ok(list(vec![])))) {
        Step::Fetch(req) => assert_eq!(url(&req), ("page", "https://www.qimao.com/search/index/?keyword=a+b".to_string())),
        _ => panic!("expected a page request"),
    }
    assert!(matches!(flow.stage, Stage::Page));
    let html = "<a href=\"/shuku/5\"><h3>书</h3><p>人</p></a>".to_string();
    match flow.on_reply(Reply::Page(Ok((html, None)))) {
        Step::Done(Ok(hits)) => assert_eq!(hits[0].id.raw, "5"),
        _ => panic!("expected card hits"),
    }
}

#[test]
fn search_page_failure_is_an_error() {
    let (mut flow, _) = SearchFlow::start("x");
    assert!(matches!(flow.on_reply(Reply::Json(Err("down".to_string()))), Step::Fetch(Request::Page(_))));
    match flow.on_reply(Reply::Page(Err("HTTP GET u 失败".to_string()))) {
        Step::Done(Err(e)) => assert_eq!(e.message, "七猫搜索页面获取失败: HTTP GET u 失败"),
        _ => panic!("expected an error"),
    }
}

#[test]
fn detail_from_catalog_or_page() {
    let (mut flow, req) = DetailFlow::start("88");
    assert_eq!(url(&req), ("json", "https://api.qimao.com/api/book/catalog?book_id=88&page=1&size=5000".to_string()));
    let reply = Reply::Json(Ok(list(vec![obj(vec![("chapter_id", s("c")), ("title", s("一"))])])));
    match flow.on_reply(reply) {
        Step::Done(Ok(d)) => assert_eq!(d.chapters[0].id, "c"),
        _ => panic!("expected details"),
    }

    let (mut flow, _) = DetailFlow::start("88");
    match flow.on_reply(Reply::Json(Err("x".to_string()))) {
        Step::Fetch(req) => assert_eq!(url(&req), ("page", "https://www.qimao.com/shuku/88/".to_string())),
        _ => panic!("expected a page request"),
    }
    match flow.on_reply(Reply::Page(Ok(("<p>none</p>".to_string(), None)))) {
        Step::Done(Err(e)) => assert_eq!(e.message, "七猫:未获取到任何章节(接口可能已变更)"),
        _ => panic!("expected an error"),
    }
}

#[test]
fn detail_page_failure_is_an_error() {
    let (mut flow, _) = DetailFlow::start("88");
    let _ = flow.on_reply(Reply::Json(Err("x".to_string())));
    match flow.on_reply(Reply::Page(Err("timeout".to_string()))) {
        Step::Done(Err(e)) => assert_eq!(e.message, "七猫小说页面获取失败: timeout"),
        _ => panic!("expected an error"),
    }
}

#[test]
fn chapter_from_api_or_page() {
    let cleaner = HtmlCleaner::new().unwrap();
    let (mut flow, req) = ChapterFlow::start("1", "2", "第二章");
    assert_eq!(url(&req), ("json", "https://api.qimao.com/api/book/chapter?book_id=1&chapter_id=2".to_string()));
    let reply = Reply::Json(Ok(obj(vec![("data", obj(vec![("content", s("<p>正文</p>"))]))])));
    match flow.on_reply(&cleaner, reply) {
        Step::Done(c) => assert_eq!(c.body.as_deref(), Some("正文")),
        _ => panic!("expected a chapter"),
    }

    let (mut flow, _) = ChapterFlow::start("1", "2", "第二章");
    match flow.on_reply(&cleaner, Reply::Json(Err("x".to_string()))) {
        Step::Fetch(req) => assert_eq!(url(&req), ("page", "https://www.qimao.com/shuku/1-2/".to_string())),
        _ => panic!("expected a page request"),
    }
    match flow.on_reply(&cleaner, Reply::Page(Err("HTTP GET u 返回 404".to_string()))) {
        Step::Done(c) => {
            assert!(matches!(c.state, ChapterState::Failed { ref reason } if reason == "章节页面获取失败: HTTP GET u 返回 404"))
        }
        _ => panic!("expected a chapter"),
    }
}
