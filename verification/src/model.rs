//! The data shared by every platform: identifiers, search hits, book
//! details, table-of-contents entries and fetched chapters.

use vstd::prelude::*;

use crate::text::{chars_of, find_char, is_first_index, lemma_first_index_unique, string_from_chars, sub_chars};

verus! {

/// The stable short name of a platform, such as `"fanqie"` or `"qimao"`.
pub type PlatformId = &'static str;

/// What a platform says about itself.
#[derive(Debug, Clone)]
pub struct PlatformMeta {
    pub id: PlatformId,
    pub name: &'static str,
    pub domain: &'static str,
    /// Whether downloading chapter text needs a login or cookie.
    pub requires_auth: bool,
    /// Whether the platform is free to read (advertising rather than a paywall).
    pub is_free: bool,
}

/// A book, identified by its platform and the platform's own id for it;
/// written `"{platform}:{raw}"`.
#[derive(Debug, Clone, PartialEq, Eq, Hash)]
pub struct NovelId {
    pub platform: String,
    pub raw: String,
}

/// The written form `"{platform}:{raw}"`.
pub open spec fn novel_id_text(platform: Seq<char>, raw: Seq<char>) -> Seq<char> {
    platform + seq![':'] + raw
}

/// What `NovelId::parse` reads from `s`: the text before and after the
/// first `':'`, when there is one and neither side is empty.
pub open spec fn parse_novel_id(s: Seq<char>) -> Option<(Seq<char>, Seq<char>)> {
    if exists|i: int| is_first_index(s, ':', i) {
        let i = choose|i: int| is_first_index(s, ':', i);
        let platform = s.take(i);
        let raw = s.skip(i + 1);
        if platform.len() == 0 || raw.len() == 0 {
            None
        } else {
            Some((platform, raw))
        }
    } else {
        None
    }
}

impl NovelId {
    pub fn new(platform: &str, raw: &str) -> (r: NovelId)
        ensures
            r.platform@ == platform@,
            r.raw@ == raw@,
    {
        NovelId { platform: platform.to_owned(), raw: raw.to_owned() }
    }

    /// Reads the `"platform:raw"` form: splits at the first `':'`; `None`
    /// when there is no `':'` or either side is empty.
    pub fn parse(combined: &str) -> (r: Option<NovelId>)
        ensures
            match r {
                Some(id) => parse_novel_id(combined@) == Some((id.platform@, id.raw@)),
                None => parse_novel_id(combined@) is None,
            },
    {
        let v = chars_of(combined);
        match find_char(&v, ':') {
            None => {
                proof {
                    if exists|i: int| is_first_index(combined@, ':', i) {
                        let i = choose|i: int| is_first_index(combined@, ':', i);
                        assert(v@.contains(':')) by {
                            assert(v@[i] == ':');
                        }
                    }
                }
                None
            },
            Some(pos) => {
                proof {
                    let i = choose|i: int| is_first_index(combined@, ':', i);
                    lemma_first_index_unique(combined@, ':', i, pos as int);
                }
                if pos == 0 || pos + 1 == v.len() {
                    return None;
                }
                let p = sub_chars(&v, 0, pos);
                let r = sub_chars(&v, pos + 1, v.len());
                assert(p@ =~= combined@.take(pos as int));
                assert(r@ =~= combined@.skip(pos + 1));
                Some(NovelId { platform: string_from_chars(&p), raw: string_from_chars(&r) })
            },
        }
    }

    /// The written form `"{platform}:{raw}"`.
    pub fn to_string(&self) -> (r: String)
        ensures
            r@ == novel_id_text(self.platform@, self.raw@),
    {
        let mut v = chars_of(self.platform.as_str());
        v.push(':');
        let raw = chars_of(self.raw.as_str());
        crate::text::extend_chars(&mut v, &raw);
        string_from_chars(&v)
    }
}

/// Reading back the written form of an id gives the id, when the platform
/// part is non-empty and holds no `':'` and the raw part is non-empty.
pub proof fn law_parse_written_id(platform: Seq<char>, raw: Seq<char>)
    requires
        platform.len() > 0,
        raw.len() > 0,
        !platform.contains(':'),
    ensures
        parse_novel_id(novel_id_text(platform, raw)) == Some((platform, raw)),
{
    let s = novel_id_text(platform, raw);
    let k = platform.len() as int;
    assert(s[k] == ':');
    assert forall|j: int| 0 <= j < k implies s[j] != ':' by {
        assert(s[j] == platform[j]);
        if platform[j] == ':' {
            assert(platform.contains(':'));
        }
    }
    assert(is_first_index(s, ':', k));
    let i = choose|i: int| is_first_index(s, ':', i);
    lemma_first_index_unique(s, ':', i, k);
    assert(s.take(k) =~= platform);
    assert(s.skip(k + 1) =~= raw);
}

/// Writing out an id that was read from `s` gives back `s`.
pub proof fn law_write_parsed_id(s: Seq<char>)
    requires
        parse_novel_id(s) is Some,
    ensures
        novel_id_text(parse_novel_id(s).unwrap().0, parse_novel_id(s).unwrap().1) == s,
{
    let i = choose|i: int| is_first_index(s, ':', i);
    assert(s.take(i) + seq![':'] + s.skip(i + 1) =~= s);
}

/// A book found by a search.
#[derive(Debug, Clone)]
pub struct SearchResult {
    pub id: NovelId,
    pub title: String,
    pub author: String,
    pub platform_name: String,
    pub intro: Option<String>,
    pub cover_url: Option<String>,
    pub chapter_count: Option<u32>,
    pub finished: Option<bool>,
}

/// A book's details: metadata and its whole table of contents.
#[derive(Debug, Clone)]
pub struct NovelDetail {
    pub id: NovelId,
    pub title: String,
    pub author: String,
    pub intro: Option<String>,
    pub cover_url: Option<String>,
    pub tags: Vec<String>,
    pub finished: Option<bool>,
    pub chapter_count: Option<u32>,
    pub word_count: Option<u32>,
    pub chapters: Vec<ChapterRef>,
}

/// One entry of a table of contents.
#[derive(Debug, Clone)]
pub struct ChapterRef {
    pub id: String,
    pub title: String,
    pub index: u32,
}

/// How fetching a chapter ended.
#[derive(Debug, Clone)]
pub enum ChapterState {
    /// The text was fetched (the state the serialized form calls `Ok`).
    Fetched,
    /// The chapter is restricted (advertising unlock, membership or payment)
    /// and cannot be fetched by the backend.
    Locked { reason: String },
    /// Fetching failed (network or parsing).
    Failed { reason: String },
}

/// A fetched chapter and how fetching it ended.
#[derive(Debug, Clone)]
pub struct ChapterContent {
    pub chapter_id: String,
    pub chapter_title: String,
    pub state: ChapterState,
    pub body: Option<String>,
}

impl ChapterContent {
    /// A chapter whose text was fetched.
    pub fn ok(chapter_id: &str, chapter_title: &str, body: String) -> (r: ChapterContent)
        ensures
            r.chapter_id@ == chapter_id@,
            r.chapter_title@ == chapter_title@,
            r.state is Fetched,
            r.body == Some(body),
    {
        ChapterContent {
            chapter_id: chapter_id.to_owned(),
            chapter_title: chapter_title.to_owned(),
            state: ChapterState::Fetched,
            body: Some(body),
        }
    }

    /// A restricted chapter, with the reason, and no text.
    pub fn locked(chapter_id: &str, chapter_title: &str, reason: &str) -> (r: ChapterContent)
        ensures
            r.chapter_id@ == chapter_id@,
            r.chapter_title@ == chapter_title@,
            r.state matches ChapterState::Locked { reason: why } && why@ == reason@,
            r.body is None,
    {
        ChapterContent {
            chapter_id: chapter_id.to_owned(),
            chapter_title: chapter_title.to_owned(),
            state: ChapterState::Locked { reason: reason.to_owned() },
            body: None,
        }
    }

    /// A chapter that could not be fetched, with the reason, and no text.
    pub fn failed(chapter_id: &str, chapter_title: &str, reason: &str) -> (r: ChapterContent)
        ensures
            r.chapter_id@ == chapter_id@,
            r.chapter_title@ == chapter_title@,
            r.state matches ChapterState::Failed { reason: why } && why@ == reason@,
            r.body is None,
    {
        ChapterContent {
            chapter_id: chapter_id.to_owned(),
            chapter_title: chapter_title.to_owned(),
            state: ChapterState::Failed { reason: reason.to_owned() },
            body: None,
        }
    }
}

/// `c` is the chapter `id` titled `title`.
pub open spec fn chapter_is(c: ChapterContent, id: Seq<char>, title: Seq<char>) -> bool {
    c.chapter_id@ == id && c.chapter_title@ == title
}

/// `c` was fetched, with text `body`.
pub open spec fn fetched_with(c: ChapterContent, body: Seq<char>) -> bool {
    &&& c.state is Fetched
    &&& c.body matches Some(b) && b@ == body
}

/// `c` is restricted for `reason`, with no text.
pub open spec fn locked_with(c: ChapterContent, reason: Seq<char>) -> bool {
    &&& c.state matches ChapterState::Locked { reason: why } && why@ == reason
    &&& c.body is None
}

/// `c` could not be fetched, for `reason`, and has no text.
pub open spec fn failed_with(c: ChapterContent, reason: Seq<char>) -> bool {
    &&& c.state matches ChapterState::Failed { reason: why } && why@ == reason
    &&& c.body is None
}

/// Why a platform operation did not succeed.
#[derive(Debug, Clone)]
pub struct PlatformError {
    pub message: String,
}

impl PlatformError {
    pub fn new(message: &str) -> (r: PlatformError)
        ensures
            r.message@ == message@,
    {
        PlatformError { message: message.to_owned() }
    }
}

} // verus!
