//! The decisions of the command line and the web search route: which
//! platforms a comma-separated list names, which search keyword a query
//! gives, and how an environment flag is read.

use vstd::prelude::*;

use crate::model::{law_parse_written_id, novel_id_text, parse_novel_id, NovelId, SearchResult};
use crate::qimao::opt_view;
use crate::text::{
    ascii_lowercase, chars_of, keep_trimmed, split_chars, split_on, str_equal, string_from_chars,
    to_ascii_lowercase, trim, trim_chars, trim_str, views,
};

verus! {

/// The texts that switch a flag on.
pub open spec fn is_on_word(s: Seq<char>) -> bool {
    s == "1"@ || s == "true"@ || s == "yes"@ || s == "on"@
}

/// Reads the value of a boolean environment variable: on when, trimmed and
/// in ASCII lower case, it is `1`, `true`, `yes` or `on`.
pub fn parse_bool_flag(value: &str) -> (r: bool)
    ensures
        r == is_on_word(ascii_lowercase(trim(value@))),
{
    let t = trim_str(value);
    let l = to_ascii_lowercase(t.as_str());
    let w = l.as_str();
    str_equal(w, "1") || str_equal(w, "true") || str_equal(w, "yes") || str_equal(w, "on")
}

/// The views of a sequence of strings.
pub open spec fn string_views(v: Seq<String>) -> Seq<Seq<char>> {
    v.map_values(|s: String| s@)
}

fn strings_of(pieces: &Vec<Vec<char>>) -> (r: Vec<String>)
    ensures
        string_views(r@) == views(pieces@),
{
    let mut out: Vec<String> = Vec::new();
    let mut i: usize = 0;
    while i < pieces.len()
        invariant
            i <= pieces.len(),
            string_views(out@) =~= views(pieces@).take(i as int),
        decreases pieces.len() - i,
    {
        let ghost before = out@;
        out.push(string_from_chars(&pieces[i]));
        assert(string_views(out@) =~= string_views(before).push(pieces@[i as int]@));
        assert(views(pieces@).take(i + 1) =~= views(pieces@).take(i as int).push(pieces@[i as int]@));
        i = i + 1;
    }
    assert(views(pieces@).take(pieces.len() as int) =~= views(pieces@));
    out
}

/// The platform list of the command line: none for an empty text, else
/// every comma-separated piece, trimmed (empty pieces kept).
pub fn cli_platform_filter(platform: &str) -> (r: Vec<String>)
    ensures
        platform@.len() == 0 ==> r.len() == 0,
        platform@.len() > 0 ==> string_views(r@) == split_on(platform@, ',').map_values(
            |p: Seq<char>| trim(p),
        ),
{
    if platform.is_empty() {
        return Vec::new();
    }
    let v = chars_of(platform);
    let pieces = split_chars(&v, ',');
    let mut trimmed: Vec<Vec<char>> = Vec::new();
    let mut i: usize = 0;
    while i < pieces.len()
        invariant
            i <= pieces.len(),
            views(trimmed@) =~= views(pieces@).take(i as int).map_values(|p: Seq<char>| trim(p)),
        decreases pieces.len() - i,
    {
        let ghost before = trimmed@;
        trimmed.push(trim_chars(&pieces[i]));
        assert(views(trimmed@) =~= views(before).push(trim(pieces@[i as int]@)));
        assert(views(pieces@).take(i + 1) =~= views(pieces@).take(i as int).push(pieces@[i as int]@));
        i = i + 1;
    }
    assert(views(pieces@).take(pieces.len() as int) =~= views(pieces@));
    strings_of(&trimmed)
}

/// The platform list of the web search route: none for an empty text, else
/// the comma-separated pieces, trimmed, without the empty ones.
pub fn route_platform_filter(platform: &str) -> (r: Vec<String>)
    ensures
        platform@.len() == 0 ==> r.len() == 0,
        platform@.len() > 0 ==> string_views(r@) == keep_trimmed(split_on(platform@, ',')),
{
    if platform.is_empty() {
        return Vec::new();
    }
    let v = chars_of(platform);
    let pieces = split_chars(&v, ',');
    let mut kept: Vec<Vec<char>> = Vec::new();
    let mut i: usize = 0;
    while i < pieces.len()
        invariant
            i <= pieces.len(),
            views(kept@) == keep_trimmed(views(pieces@).take(i as int)),
        decreases pieces.len() - i,
    {
        assert(views(pieces@).take(i + 1).drop_last() =~= views(pieces@).take(i as int));
        let t = trim_chars(&pieces[i]);
        if t.len() > 0 {
            let ghost before = kept@;
            kept.push(t);
            assert(views(kept@) =~= views(before).push(t@));
        }
        i = i + 1;
    }
    assert(views(pieces@).take(pieces.len() as int) =~= views(pieces@));
    strings_of(&kept)
}

/// The keyword of a search query: the query trimmed, or `None` when that
/// is empty (the route then answers with no items).
pub fn search_keyword(q: &str) -> (r: Option<String>)
    ensures
        trim(q@).len() == 0 ==> r is None,
        trim(q@).len() > 0 ==> (r matches Some(k) && k@ == trim(q@)),
{
    let k = trim_str(q);
    if k.as_str().is_empty() {
        None
    } else {
        Some(k)
    }
}

/// The details of a search item that come from a platform's own hit.
pub struct ItemDetails {
    pub intro: Option<String>,
    pub cover_url: Option<String>,
    pub chapter_count: Option<u32>,
    pub finished: Option<bool>,
}

/// One item of the search route's answer. An item of the 番茄 fallback
/// search has no details.
pub struct SearchItem {
    pub book_id: String,
    pub platform_id: String,
    pub platform_name: String,
    pub title: String,
    pub author: String,
    pub details: Option<ItemDetails>,
}

/// `item` is the answer's item for the hit `r`: its written id, its
/// platform's id and name, title, author and details.
pub open spec fn item_for_hit(r: SearchResult, item: SearchItem) -> bool {
    &&& item.book_id@ == novel_id_text(r.id.platform@, r.id.raw@)
    &&& item.platform_id@ == r.id.platform@
    &&& item.platform_name@ == r.platform_name@
    &&& item.title@ == r.title@
    &&& item.author@ == r.author@
    &&& item.details matches Some(d) && {
        &&& opt_view(d.intro) == opt_view(r.intro)
        &&& opt_view(d.cover_url) == opt_view(r.cover_url)
        &&& d.chapter_count == r.chapter_count
        &&& d.finished == r.finished
    }
}

/// The answer's item for a hit carries every field of the hit: its written
/// id (which reads back as the hit's platform and raw id), platform, name,
/// title, author, intro, cover, chapter count and finished flag.
pub proof fn law_item_keeps_hit(r: SearchResult, item: SearchItem)
    requires
        item_for_hit(r, item),
    ensures
        item.details is Some,
        opt_view(item.details.unwrap().intro) == opt_view(r.intro),
        opt_view(item.details.unwrap().cover_url) == opt_view(r.cover_url),
        item.details.unwrap().chapter_count == r.chapter_count,
        item.details.unwrap().finished == r.finished,
        item.platform_id@ == r.id.platform@,
        item.platform_name@ == r.platform_name@,
        item.title@ == r.title@,
        item.author@ == r.author@,
        r.id.platform@.len() > 0 && r.id.raw@.len() > 0 && !r.id.platform@.contains(':')
            ==> parse_novel_id(item.book_id@) == Some((r.id.platform@, r.id.raw@)),
{
    if r.id.platform@.len() > 0 && r.id.raw@.len() > 0 && !r.id.platform@.contains(':') {
        law_parse_written_id(r.id.platform@, r.id.raw@);
    }
}

fn copy_text(o: &Option<String>) -> (r: Option<String>)
    ensures
        opt_view(r) == opt_view(*o),
{
    match o {
        Some(t) => Some(t.clone()),
        None => None,
    }
}

/// The answer's item for one hit.
pub fn search_item(r: &SearchResult) -> (item: SearchItem)
    ensures
        item_for_hit(*r, item),
{
    SearchItem {
        book_id: r.id.to_string(),
        platform_id: r.id.platform.clone(),
        platform_name: r.platform_name.clone(),
        title: r.title.clone(),
        author: r.author.clone(),
        details: Some(
            ItemDetails {
                intro: copy_text(&r.intro),
                cover_url: copy_text(&r.cover_url),
                chapter_count: r.chapter_count,
                finished: r.finished,
            },
        ),
    }
}

/// The answer's items for the hits, one per hit, in order.
pub fn search_items(results: &Vec<SearchResult>) -> (items: Vec<SearchItem>)
    ensures
        items.len() == results.len(),
        forall|i: int| 0 <= i < items.len() ==> #[trigger] item_for_hit(results@[i], items@[i]),
{
    let mut items: Vec<SearchItem> = Vec::new();
    let mut i: usize = 0;
    while i < results.len()
        invariant
            i <= results.len(),
            items.len() == i,
            forall|j: int| 0 <= j < i ==> #[trigger] item_for_hit(results@[j], items@[j]),
        decreases results.len() - i,
    {
        items.push(search_item(&results[i]));
        i = i + 1;
    }
    items
}

/// Whether the route falls back to the 番茄 official search: when no
/// platform list was given and no platform found anything.
pub fn needs_fanqie_fallback(results: &Vec<SearchResult>, only: &[String]) -> (r: bool)
    ensures
        r == (results.len() == 0 && only.len() == 0),
{
    results.len() == 0 && only.len() == 0
}

/// The answer's item for a book found by the 番茄 official search:
/// `"fanqie:{book_id}"`, platform `fanqie` (番茄小说), title and author, no
/// details.
pub fn fanqie_fallback_item(book_id: &str, title: &str, author: &str) -> (item: SearchItem)
    ensures
        item.book_id@ == novel_id_text("fanqie"@, book_id@),
        item.platform_id@ == "fanqie"@,
        item.platform_name@ == "番茄小说"@,
        item.title@ == title@,
        item.author@ == author@,
        item.details is None,
{
    let id = NovelId::new("fanqie", book_id);
    SearchItem {
        book_id: id.to_string(),
        platform_id: "fanqie".to_owned(),
        platform_name: "番茄小说".to_owned(),
        title: title.to_owned(),
        author: author.to_owned(),
        details: None,
    }
}

} // verus!
