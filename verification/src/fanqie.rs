//! The 番茄 (fanqienovel.com) adapter: how the official client's replies
//! become search hits, book details and chapters. The client calls
//! themselves are made by the caller, which hands the replies in.

use vstd::prelude::*;

use crate::json::{json_array, json_get, json_path, json_str, JsonValue};
use crate::model::{
    chapter_is, failed_with, fetched_with, locked_with, ChapterContent, ChapterRef, NovelDetail,
    NovelId, PlatformId, PlatformMeta, SearchResult,
};
use crate::qimao::count_u32;
use crate::text::{concat2, contains_str, contains_text, trim, trim_str};

verus! {

/// The 番茄 platform.
pub struct FanqiePlatform;

/// One table-of-contents entry of a directory reply.
pub struct DirectoryChapter {
    pub id: String,
    pub title: String,
}

/// A directory reply of the official client: the table of contents and
/// the book's metadata (the cover path already written as text).
pub struct Directory {
    pub chapters: Vec<DirectoryChapter>,
    pub book_name: Option<String>,
    pub author: Option<String>,
    pub description: Option<String>,
    pub cover_path: Option<String>,
    pub cover_url: Option<String>,
    pub tags: Vec<String>,
    pub finished: Option<bool>,
    pub chapter_count: Option<u64>,
    pub word_count: Option<u64>,
}

/// The first item whose `item_id` is the text `id`.
pub open spec fn item_with_id(items: Seq<JsonValue>, id: Seq<char>) -> Option<JsonValue>
    decreases items.len(),
{
    if items.len() == 0 {
        None
    } else if json_str(json_get(items[0], "item_id"@)) == Some(id) {
        Some(items[0])
    } else {
        item_with_id(items.drop_first(), id)
    }
}

/// Item `x` carries the id `id`.
pub open spec fn has_item_id(x: JsonValue, id: Seq<char>) -> bool {
    json_str(json_get(x, "item_id"@)) == Some(id)
}

/// Looking an id up finds the first item that carries it, wherever it
/// stands, and finds nothing only when no item carries it.
pub proof fn law_item_with_id_finds_first(items: Seq<JsonValue>, id: Seq<char>)
    ensures
        match item_with_id(items, id) {
            Some(x) => exists|i: int|
                0 <= i < items.len() && items[i] == x && #[trigger] has_item_id(items[i], id) && forall|j: int|
                    0 <= j < i ==> !has_item_id(#[trigger] items[j], id),
            None => forall|j: int| 0 <= j < items.len() ==> !has_item_id(#[trigger] items[j], id),
        },
    decreases items.len(),
{
    if items.len() > 0 {
        law_item_with_id_finds_first(items.drop_first(), id);
        if !has_item_id(items[0], id) {
            match item_with_id(items.drop_first(), id) {
                Some(x) => {
                    let k = choose|k: int|
                        0 <= k < items.drop_first().len() && items.drop_first()[k] == x && #[trigger] has_item_id(
                            items.drop_first()[k],
                            id,
                        ) && forall|j: int| 0 <= j < k ==> !has_item_id(#[trigger] items.drop_first()[j], id);
                    assert(items[k + 1] == items.drop_first()[k]);
                    assert forall|j: int| 0 <= j < k + 1 implies !has_item_id(#[trigger] items[j], id) by {
                        if j > 0 {
                            assert(items[j] == items.drop_first()[j - 1]);
                        }
                    }
                    assert(has_item_id(items[k + 1], id));
                },
                None => {
                    assert forall|j: int| 0 <= j < items.len() implies !has_item_id(#[trigger] items[j], id) by {
                        if j > 0 {
                            assert(items[j] == items.drop_first()[j - 1]);
                        }
                    }
                },
            }
        } else {
            assert(has_item_id(items[0], id));
        }
    }
}

/// An item that carries the requested id is found when it stands first,
/// whatever follows.
pub proof fn law_item_with_id_first_item(x: JsonValue, rest: Seq<JsonValue>, id: Seq<char>)
    requires
        has_item_id(x, id),
    ensures
        item_with_id(seq![x] + rest, id) == Some(x),
{
    assert((seq![x] + rest)[0] == x);
}

/// A content reply whose `data.contents` holds an item carrying the requested
/// id, and no earlier one, gives that item's content.
pub proof fn law_reply_content_of_requested_item(value: JsonValue, items: Seq<JsonValue>, i: int, id: Seq<char>)
    requires
        json_array(json_path(value, seq!["data"@, "contents"@])) == Some(items),
        0 <= i < items.len(),
        has_item_id(items[i], id),
        forall|j: int| 0 <= j < i ==> !has_item_id(#[trigger] items[j], id),
    ensures
        reply_content(value, id) == json_str(json_get(items[i], "content"@)),
{
    law_item_with_id_finds_first(items, id);
    match item_with_id(items, id) {
        Some(x) => {
            let k = choose|k: int|
                0 <= k < items.len() && items[k] == x && #[trigger] has_item_id(items[k], id) && forall|j: int|
                    0 <= j < k ==> !has_item_id(#[trigger] items[j], id);
            if k < i {
                assert(!has_item_id(items[k], id));
            } else if k > i {
                assert(!has_item_id(items[i], id));
            }
        },
        None => {
            assert(!has_item_id(items[i], id));
        },
    }
}

/// The text of chapter `id` in a content reply: the `content` string of the
/// first `data.contents` item whose `item_id` is `id`.
pub open spec fn reply_content(value: JsonValue, id: Seq<char>) -> Option<Seq<char>> {
    match json_array(json_path(value, seq!["data"@, "contents"@])) {
        Some(items) => match item_with_id(items, id) {
            Some(item) => json_str(json_get(item, "content"@)),
            None => None,
        },
        None => None,
    }
}

impl FanqiePlatform {
    pub fn new() -> (r: FanqiePlatform) {
        FanqiePlatform
    }

    /// `"fanqie"`.
    pub fn id(&self) -> (r: PlatformId)
        ensures
            r@ == "fanqie"@,
    {
        "fanqie"
    }

    /// The platform's description.
    pub fn meta(&self) -> (r: PlatformMeta)
        ensures
            r.id@ == "fanqie"@,
            r.name@ == "番茄小说"@,
            r.domain@ == "fanqienovel.com"@,
            !r.requires_auth,
            r.is_free,
    {
        PlatformMeta {
            id: "fanqie",
            name: "番茄小说",
            domain: "fanqienovel.com",
            requires_auth: false,
            is_free: true,
        }
    }

    /// The platform is free to read (chapters unlock by advertising).
    pub fn is_free_platform(&self) -> (r: bool)
        ensures
            r,
    {
        true
    }

    /// The search hit for one book of a search reply.
    pub fn search_hit(book_id: &str, title: String, author: String) -> (r: SearchResult)
        ensures
            r.id.platform@ == "fanqie"@,
            r.id.raw@ == book_id@,
            r.title == title,
            r.author == author,
            r.platform_name@ == "番茄小说"@,
            r.intro is None,
            r.cover_url is None,
            r.chapter_count is None,
            r.finished is None,
    {
        SearchResult {
            id: NovelId::new("fanqie", book_id),
            title,
            author,
            platform_name: "番茄小说".to_owned(),
            intro: None,
            cover_url: None,
            chapter_count: None,
            finished: None,
        }
    }

    /// A book's details from a directory reply: the title falls back to the
    /// id, the author to the empty text, the cover to the cover URL; the
    /// entries are numbered from 0.
    pub fn detail_from_directory(novel_id: &str, dir: Directory) -> (r: NovelDetail)
        ensures
            r.id.platform@ == "fanqie"@,
            r.id.raw@ == novel_id@,
            r.title@ == (match dir.book_name { Some(n) => n@, None => novel_id@ }),
            r.author@ == (match dir.author { Some(a) => a@, None => Seq::<char>::empty() }),
            r.intro == dir.description,
            r.cover_url == (match dir.cover_path { Some(p) => Some(p), None => dir.cover_url }),
            r.tags == dir.tags,
            r.finished == dir.finished,
            r.chapter_count == count_u32(dir.chapter_count),
            r.word_count == count_u32(dir.word_count),
            r.chapters.len() == dir.chapters.len(),
            forall|i: int|
                0 <= i < dir.chapters.len() ==> (#[trigger] r.chapters@[i]).id == dir.chapters@[i].id
                    && r.chapters@[i].title == dir.chapters@[i].title && r.chapters@[i].index == i as u32,
    {
        let Directory {
            chapters: entries,
            book_name,
            author,
            description,
            cover_path,
            cover_url,
            tags,
            finished,
            chapter_count,
            word_count,
        } = dir;
        let ghost src = entries@;
        let mut rest = entries;
        let mut chapters: Vec<ChapterRef> = Vec::new();
        let mut i: usize = 0;
        let n = rest.len();
        assert(src.skip(0) =~= src);
        while i < n
            invariant
                i <= n,
                n == src.len(),
                chapters.len() == i,
                rest@ == src.skip(i as int),
                forall|k: int|
                    0 <= k < i ==> (#[trigger] chapters@[k]).id == src[k].id && chapters@[k].title
                        == src[k].title && chapters@[k].index == k as u32,
            decreases n - i,
        {
            let ch = rest.remove(0);
            assert(src.skip(i as int).drop_first() =~= src.skip(i + 1));
            chapters.push(ChapterRef { id: ch.id, title: ch.title, index: i as u32 });
            i = i + 1;
        }
        let title = match book_name {
            Some(name) => name,
            None => novel_id.to_owned(),
        };
        let author = match author {
            Some(a) => a,
            None => String::new(),
        };
        let cover = match cover_path {
            Some(p) => Some(p),
            None => cover_url,
        };
        NovelDetail {
            id: NovelId::new("fanqie", novel_id),
            title,
            author,
            intro: description,
            cover_url: cover,
            tags,
            finished,
            chapter_count: to_u32(chapter_count),
            word_count: to_u32(word_count),
            chapters,
        }
    }

    /// The chapter from a content reply: fetched when the reply holds text
    /// for it that is not blank; restricted with
    /// "章节内容为空,可能需要看广告解锁" when that text is blank; failed with
    /// "响应中未找到对应章节内容" when the reply holds no text for it.
    pub fn chapter_from_reply(chapter_id: &str, chapter_title: &str, value: &JsonValue) -> (r: ChapterContent)
        ensures
            chapter_is(r, chapter_id@, chapter_title@),
            match reply_content(*value, chapter_id@) {
                Some(text) => if trim(text).len() > 0 {
                    fetched_with(r, text)
                } else {
                    locked_with(r, "章节内容为空,可能需要看广告解锁"@)
                },
                None => failed_with(r, "响应中未找到对应章节内容"@),
            },
    {
        let content: Option<String> = match value.get2("data", "contents") {
            Some(list) => match list.as_array() {
                Some(items) => match find_item(items, chapter_id) {
                    Some(item) => match item.get("content") {
                        Some(c) => match c.as_str() {
                            Some(t) => Some(t.to_owned()),
                            None => None,
                        },
                        None => None,
                    },
                    None => None,
                },
                None => None,
            },
            None => None,
        };
        match content {
            Some(text) => {
                let t = trim_str(text.as_str());
                if !t.as_str().is_empty() {
                    ChapterContent::ok(chapter_id, chapter_title, text)
                } else {
                    ChapterContent::locked(chapter_id, chapter_title, "章节内容为空,可能需要看广告解锁")
                }
            },
            None => ChapterContent::failed(chapter_id, chapter_title, "响应中未找到对应章节内容"),
        }
    }

    /// The chapter when the client reports an error: restricted with
    /// "触发频率限制: " and the message when it mentions `Cooldown` or
    /// `cooldown`; else failed with "获取失败: " and the message.
    pub fn chapter_from_error(chapter_id: &str, chapter_title: &str, message: &str) -> (r: ChapterContent)
        ensures
            chapter_is(r, chapter_id@, chapter_title@),
            if contains_text(message@, "Cooldown"@) || contains_text(message@, "cooldown"@) {
                locked_with(r, "触发频率限制: "@ + message@)
            } else {
                failed_with(r, "获取失败: "@ + message@)
            },
    {
        if contains_str(message, "Cooldown") || contains_str(message, "cooldown") {
            let reason = concat2("触发频率限制: ", message);
            ChapterContent::locked(chapter_id, chapter_title, reason.as_str())
        } else {
            let reason = concat2("获取失败: ", message);
            ChapterContent::failed(chapter_id, chapter_title, reason.as_str())
        }
    }
}

fn to_u32(n: Option<u64>) -> (r: Option<u32>)
    ensures
        r == count_u32(n),
{
    match n {
        Some(n) => Some(n as u32),
        None => None,
    }
}

/// The first item whose `item_id` is the text `id`.
fn find_item<'a>(items: &'a Vec<JsonValue>, id: &str) -> (r: Option<&'a JsonValue>)
    ensures
        match r {
            Some(x) => item_with_id(items@, id@) == Some(*x),
            None => item_with_id(items@, id@) is None,
        },
{
    let mut i: usize = 0;
    assert(items@.skip(0) =~= items@);
    while i < items.len()
        invariant
            i <= items.len(),
            item_with_id(items@, id@) == item_with_id(items@.skip(i as int), id@),
        decreases items.len() - i,
    {
        assert(items@.skip(i as int).drop_first() =~= items@.skip(i + 1));
        assert(items@.skip(i as int)[0] == items@[i as int]);
        let matches = match items[i].get("item_id") {
            Some(v) => match v.as_str() {
                Some(s) => crate::text::str_equal(s, id),
                None => false,
            },
            None => false,
        };
        if matches {
            return Some(&items[i]);
        }
        i = i + 1;
    }
    None
}

} // verus!
