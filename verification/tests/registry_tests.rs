use novel_platform::model::{
    ChapterContent, NovelDetail, NovelId, PlatformError, PlatformId, PlatformMeta, SearchResult,
};
use novel_platform::platform::NovelPlatform;
use novel_platform::cli::{fanqie_fallback_item, needs_fanqie_fallback, search_items};
use novel_platform::registry::{gather_hits, PlatformRegistry};

struct Fake {
    id: &'static str,
    meta: PlatformMeta,
    hits: Result<Vec<&'static str>, &'static str>,
}

fn fake(id: &'static str, name: &'static str, hits: Result<Vec<&'static str>, &'static str>) -> Fake {
    Fake {
        id,
        meta: PlatformMeta { id, name, domain: "example.com", requires_auth: false, is_free: true },
        hits,
    }
}

fn hit(platform: &str, title: &str) -> SearchResult {
    SearchResult {
        id: NovelId::new(platform, title),
        title: title.to_string(),
        author: String::new(),
        platform_name: platform.to_string(),
        intro: None,
        cover_url: None,
        chapter_count: None,
        finished: None,
    }
}

impl NovelPlatform for Fake {
    fn id(&self) -> PlatformId {
        self.id
    }

    fn meta(&self) -> &PlatformMeta {
        &self.meta
    }

    fn search(&self, _keyword: &str) -> Result<Vec<SearchResult>, PlatformError> {
        match &self.hits {
            Ok(titles) => Ok(titles.iter().map(|t| hit(self.id, t)).collect()),
            Err(e) => Err(PlatformError::new(e)),
        }
    }

    fn fetch_detail(&self, novel_id: &str) -> Result<NovelDetail, PlatformError> {
        Ok(NovelDetail {
            id: NovelId::new(self.id, novel_id),
            title: format!("{}-detail", self.id),
            author: String::new(),
            intro: None,
            cover_url: None,
            tags: Vec::new(),
            finished: None,
            chapter_count: None,
            word_count: None,
            chapters: Vec::new(),
        })
    }

    fn fetch_chapter(
        &self,
        _novel_id: &str,
        chapter_id: &str,
        chapter_title: &str,
    ) -> Result<ChapterContent, PlatformError> {
        Ok(ChapterContent::ok(chapter_id, chapter_title, self.id.to_string()))
    }
}

#[test]
fn new_registry_is_empty() {
    let r: PlatformRegistry<Fake> = PlatformRegistry::new();
    assert!(r.is_empty());
    assert_eq!(r.len(), 0);
    assert!(r.ids().is_empty());
}

#[test]
fn register_then_get_returns_the_platform() {
    let mut r = PlatformRegistry::new();
    r.register(fake("qimao", "七猫免费小说", Ok(vec![])));
    r.register(fake("fanqie", "番茄小说", Ok(vec![])));
    assert_eq!(r.get("qimao").ok().unwrap().meta.name, "七猫免费小说");
    assert_eq!(r.get("fanqie").ok().unwrap().meta.name, "番茄小说");
    assert_eq!(r.len(), 2);
}

#[test]
fn get_unknown_platform_is_an_error() {
    let mut r = PlatformRegistry::new();
    r.register(fake("fanqie", "番茄小说", Ok(vec![])));
    let err = r.get("zongheng").err().unwrap();
    assert_eq!(err.message, "未知平台: zongheng");
}

#[test]
fn ids_are_in_order_and_unique() {
    let mut r = PlatformRegistry::new();
    r.register(fake("qimao", "a", Ok(vec![])));
    r.register(fake("fanqie", "b", Ok(vec![])));
    r.register(fake("biquge", "c", Ok(vec![])));
    r.register(fake("fanqie", "d", Ok(vec![])));
    assert_eq!(r.ids(), vec!["biquge", "fanqie", "qimao"]);
    assert_eq!(r.len(), 3);
    assert_eq!(r.get("fanqie").ok().unwrap().meta.name, "d");
}

#[test]
fn list_all_in_id_order() {
    let mut r = PlatformRegistry::new();
    r.register(fake("qimao", "七猫免费小说", Ok(vec![])));
    r.register(fake("fanqie", "番茄小说", Ok(vec![])));
    let all = r.list_all();
    assert_eq!(
        all,
        vec![
            ("fanqie", "番茄小说".to_string(), "example.com".to_string()),
            ("qimao", "七猫免费小说".to_string(), "example.com".to_string()),
        ]
    );
}

#[test]
fn search_across_all_skips_failures() {
    let mut r = PlatformRegistry::new();
    r.register(fake("qimao", "q", Ok(vec!["q1", "q2"])));
    r.register(fake("broken", "b", Err("timeout")));
    r.register(fake("fanqie", "f", Ok(vec!["f1"])));
    let hits = r.search_across("剑来", &[]);
    let titles: Vec<String> = hits.into_iter().map(|h| h.title).collect();
    assert_eq!(titles, vec!["f1", "q1", "q2"]);
}

#[test]
fn search_across_listed_platforms_in_listed_order() {
    let mut r = PlatformRegistry::new();
    r.register(fake("qimao", "q", Ok(vec!["q1"])));
    r.register(fake("fanqie", "f", Ok(vec!["f1"])));
    let only = vec!["qimao".to_string(), "missing".to_string(), "fanqie".to_string(), "qimao".to_string()];
    let titles: Vec<String> = r.search_across("x", &only).into_iter().map(|h| h.title).collect();
    assert_eq!(titles, vec!["q1", "f1", "q1"]);
    assert_eq!(r.search_targets(&only), vec![1, 0, 1]);
    assert_eq!(r.search_targets(&[]), vec![0, 1]);
}

#[test]
fn fetch_routes_by_platform_of_the_id() {
    let mut r = PlatformRegistry::new();
    r.register(fake("qimao", "q", Ok(vec![])));
    r.register(fake("fanqie", "f", Ok(vec![])));
    let detail = r.fetch_detail(&NovelId::new("fanqie", "42")).ok().unwrap();
    assert_eq!(detail.title, "fanqie-detail");
    assert_eq!(detail.id.raw, "42");
    let ch = r.fetch_chapter(&NovelId::new("qimao", "42"), "c1", "第一章").ok().unwrap();
    assert_eq!(ch.body.as_deref(), Some("qimao"));
    let err = r.fetch_detail(&NovelId::new("none", "1")).err().unwrap();
    assert_eq!(err.message, "未知平台: none");
    let err = r.fetch_chapter(&NovelId::new("none", "1"), "c", "t").err().unwrap();
    assert_eq!(err.message, "未知平台: none");
}

#[test]
fn register_twice_under_one_id_keeps_the_last() {
    let mut r = PlatformRegistry::new();
    r.register(fake("fanqie", "old", Ok(vec![])));
    r.register(fake("fanqie", "new", Ok(vec![])));
    assert_eq!(r.len(), 1);
    assert_eq!(r.position("fanqie"), Some(0));
    assert_eq!(r.get("fanqie").ok().unwrap().meta.name, "new");
}

#[test]
fn gather_hits_joins_successes_in_order() {
    let outcomes = vec![
        Ok(vec![hit("a", "a1"), hit("a", "a2")]),
        Err(PlatformError::new("down")),
        Ok(vec![]),
        Ok(vec![hit("c", "c1")]),
    ];
    let titles: Vec<String> = gather_hits(outcomes).into_iter().map(|h| h.title).collect();
    assert_eq!(titles, vec!["a1", "a2", "c1"]);
    assert!(gather_hits(vec![Err(PlatformError::new("x"))]).is_empty());
}

#[test]
fn no_filter_searches_like_listing_every_id() {
    let mut r = PlatformRegistry::new();
    r.register(fake("qimao", "q", Ok(vec!["q1"])));
    r.register(fake("fanqie", "f", Ok(vec!["f1", "f2"])));
    let all: Vec<String> = r.ids().iter().map(|s| s.to_string()).collect();
    assert_eq!(r.search_targets(&[]), r.search_targets(&all));
    let a: Vec<String> = r.search_across("k", &[]).into_iter().map(|h| h.title).collect();
    let b: Vec<String> = r.search_across("k", &all).into_iter().map(|h| h.title).collect();
    assert_eq!(a, b);
}

#[test]
fn search_route_items_and_fallback_decision() {
    let mut h = hit("qimao", "q1");
    h.intro = Some("简介".to_string());
    h.chapter_count = Some(12);
    let results = vec![h];
    let items = search_items(&results);
    assert_eq!(items.len(), 1);
    assert_eq!(items[0].book_id, "qimao:q1");
    assert_eq!(items[0].platform_id, "qimao");
    assert_eq!(items[0].title, "q1");
    let d = items[0].details.as_ref().unwrap();
    assert_eq!(d.intro.as_deref(), Some("简介"));
    assert_eq!(d.chapter_count, Some(12));
    assert_eq!(d.finished, None);
    assert!(!needs_fanqie_fallback(&results, &[]));
    assert!(needs_fanqie_fallback(&Vec::new(), &[]));
    assert!(!needs_fanqie_fallback(&Vec::new(), &["qimao".to_string()]));
    let f = fanqie_fallback_item("7", "剑来", "烽火戏诸侯");
    assert_eq!(f.book_id, "fanqie:7");
    assert_eq!(f.platform_name, "番茄小说");
    assert_eq!(f.author, "烽火戏诸侯");
    assert!(f.details.is_none());
}
