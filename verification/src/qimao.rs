//! The 七猫 (qimao.com) adapter: its endpoints, and how its JSON replies and
//! HTML pages are turned into search hits, tables of contents and chapters.
//! The requests themselves are made by the caller, which hands the replies in.

use vstd::prelude::*;

use crate::json::{
    json_array, json_get, json_path, json_str, json_str_or_empty, json_u64, opt_str, opt_u64,
    str_or_empty, JsonValue,
};
use crate::model::{
    chapter_is, failed_with, fetched_with, locked_with, ChapterContent, ChapterRef, NovelDetail,
    NovelId, PlatformError, PlatformMeta, SearchResult,
};
use crate::pattern::{
    get_group_or_empty, group_or_empty, regex_all_captures, regex_captures, regex_captures_all,
    regex_compiles, regex_first_captures, regex_is_valid, regex_replace_all,
    regex_replace_all_result,
};
use crate::text::{
    chars_of, compact_lines, compact_lines_chars, concat2, concat3, concat4,
    law_compact_lines_are_trimmed, replace_all, replace_str, split_on, string_from_chars, trim,
    trim_str,
};

verus! {

/// The upper-case hexadecimal digit for `n < 16`.
pub open spec fn hex_digit(n: u8) -> char {
    if n == 0 { '0' } else if n == 1 { '1' } else if n == 2 { '2' } else if n == 3 { '3' }
    else if n == 4 { '4' } else if n == 5 { '5' } else if n == 6 { '6' } else if n == 7 { '7' }
    else if n == 8 { '8' } else if n == 9 { '9' } else if n == 10 { 'A' } else if n == 11 { 'B' }
    else if n == 12 { 'C' } else if n == 13 { 'D' } else if n == 14 { 'E' } else { 'F' }
}

fn hex_digit_exec(n: u8) -> (r: char)
    ensures
        r == hex_digit(n),
{
    if n == 0 { '0' } else if n == 1 { '1' } else if n == 2 { '2' } else if n == 3 { '3' }
    else if n == 4 { '4' } else if n == 5 { '5' } else if n == 6 { '6' } else if n == 7 { '7' }
    else if n == 8 { '8' } else if n == 9 { '9' } else if n == 10 { 'A' } else if n == 11 { 'B' }
    else if n == 12 { 'C' } else if n == 13 { 'D' } else if n == 14 { 'E' } else { 'F' }
}

/// ASCII letters, digits and `-`, `_`, `.`, `~` are written as they are.
pub open spec fn is_unreserved(b: u8) -> bool {
    ||| 65 <= b <= 90
    ||| 97 <= b <= 122
    ||| 48 <= b <= 57
    ||| b == 45
    ||| b == 95
    ||| b == 46
    ||| b == 126
}

/// How one byte is written: unreserved bytes as the character, a space as
/// `'+'`, any other byte as `'%'` and two upper-case hex digits.
pub open spec fn url_encode_byte(b: u8) -> Seq<char> {
    if is_unreserved(b) {
        seq![b as char]
    } else if b == 32 {
        seq!['+']
    } else {
        seq!['%', hex_digit(b / 16), hex_digit(b % 16)]
    }
}

/// The encoding of a byte sequence, byte by byte.
pub open spec fn url_encode(bytes: Seq<u8>) -> Seq<char>
    decreases bytes.len(),
{
    if bytes.len() == 0 {
        Seq::<char>::empty()
    } else {
        url_encode(bytes.drop_last()) + url_encode_byte(bytes.last())
    }
}

/// Percent-encodes the UTF-8 bytes of `s` for a query string: unreserved
/// ASCII kept, spaces as `+`, every other byte as `%XX`.
pub fn urlencoding(s: &str) -> (r: String)
    ensures
        r@ == url_encode(vstd::utf8::encode_utf8(s@)),
{
    let bytes = s.as_bytes();
    let mut out: Vec<char> = Vec::new();
    let mut i: usize = 0;
    while i < bytes.len()
        invariant
            i <= bytes.len(),
            bytes@ == vstd::utf8::encode_utf8(s@),
            out@ == url_encode(bytes@.take(i as int)),
        decreases bytes.len() - i,
    {
        let b = bytes[i];
        assert(bytes@.take(i + 1).drop_last() =~= bytes@.take(i as int));
        let ghost before = out@;
        if (b >= 65 && b <= 90) || (b >= 97 && b <= 122) || (b >= 48 && b <= 57) || b == 45 || b
            == 95 || b == 46 || b == 126 {
            out.push(b as char);
        } else if b == 32 {
            out.push('+');
        } else {
            out.push('%');
            out.push(hex_digit_exec(b / 16));
            out.push(hex_digit_exec(b % 16));
        }
        assert(out@ =~= before + url_encode_byte(b));
        i = i + 1;
    }
    assert(bytes@.take(bytes.len() as int) =~= bytes@);
    string_from_chars(&out)
}

/// The characters an encoded query can hold: unreserved ASCII, `'+'`, `'%'`.
pub open spec fn is_query_safe(c: char) -> bool {
    let n = c as u32;
    ||| 65 <= n <= 90
    ||| 97 <= n <= 122
    ||| 48 <= n <= 57
    ||| n == 45
    ||| n == 95
    ||| n == 46
    ||| n == 126
    ||| n == 43
    ||| n == 37
}

/// Whatever the bytes, their encoding holds only unreserved ASCII, `'+'` and
/// `'%'` (so no space, `&`, `=` or non-ASCII character reaches the URL).
pub proof fn law_url_encode_is_query_safe(bytes: Seq<u8>)
    ensures
        forall|i: int| 0 <= i < url_encode(bytes).len() ==> is_query_safe(#[trigger] url_encode(bytes)[i]),
    decreases bytes.len(),
{
    if bytes.len() > 0 {
        law_url_encode_is_query_safe(bytes.drop_last());
        let prev = url_encode(bytes.drop_last());
        let b = bytes.last();
        let tail = url_encode_byte(b);
        assert forall|i: int| 0 <= i < tail.len() implies is_query_safe(#[trigger] tail[i]) by {
            if is_unreserved(b) {
                assert(tail[i] == b as char);
                assert((b as char) as u32 == b as u32);
            } else if b != 32 {
                if i > 0 {
                    let d: u8 = if i == 1 { b / 16 } else { b % 16 };
                    assert(tail[i] == hex_digit(d));
                }
            }
        }
        assert forall|i: int| 0 <= i < url_encode(bytes).len() implies is_query_safe(#[trigger] url_encode(bytes)[i]) by {
            if i < prev.len() {
                assert(url_encode(bytes)[i] == prev[i]);
            } else {
                assert(url_encode(bytes)[i] == tail[i - prev.len()]);
            }
        }
    }
}

/// The value of an upper-case hexadecimal digit.
pub open spec fn hex_value(c: char) -> int {
    let n = c as u32;
    if 48 <= n <= 57 {
        n - 48
    } else if 65 <= n <= 70 {
        n - 55
    } else {
        0
    }
}

/// Reading an encoded query back: `'+'` is a space, `'%'` and two hex digits
/// are the byte they spell, any other character is its own code.
pub open spec fn url_decode(s: Seq<char>) -> Seq<u8>
    decreases s.len(),
{
    if s.len() == 0 {
        Seq::<u8>::empty()
    } else if s[0] == '+' {
        seq![32u8] + url_decode(s.drop_first())
    } else if s[0] == '%' && s.len() >= 3 {
        seq![(hex_value(s[1]) * 16 + hex_value(s[2])) as u8] + url_decode(s.subrange(3, s.len() as int))
    } else {
        seq![(s[0] as u32) as u8] + url_decode(s.drop_first())
    }
}

proof fn lemma_hex_value(n: u8)
    requires
        n < 16,
    ensures
        hex_value(hex_digit(n)) == n,
{
}

proof fn lemma_decode_byte(b: u8, rest: Seq<char>)
    ensures
        url_decode(url_encode_byte(b) + rest) == seq![b] + url_decode(rest),
{
    let s = url_encode_byte(b) + rest;
    if is_unreserved(b) {
        assert((b as char) as u32 == b as u32);
        assert(s[0] == b as char);
        assert(s.drop_first() =~= rest);
    } else if b == 32 {
        assert(s.drop_first() =~= rest);
    } else {
        lemma_hex_value(b / 16);
        lemma_hex_value(b % 16);
        assert(s[1] == hex_digit(b / 16));
        assert(s[2] == hex_digit(b % 16));
        assert(s.subrange(3, s.len() as int) =~= rest);
    }
}

proof fn lemma_decode_encoded(bytes: Seq<u8>, rest: Seq<char>)
    ensures
        url_decode(url_encode(bytes) + rest) == bytes + url_decode(rest),
    decreases bytes.len(),
{
    if bytes.len() == 0 {
        assert(url_encode(bytes) + rest =~= rest);
        assert(bytes + url_decode(rest) =~= url_decode(rest));
    } else {
        let b = bytes.last();
        let front = bytes.drop_last();
        assert(url_encode(bytes) + rest =~= url_encode(front) + (url_encode_byte(b) + rest));
        lemma_decode_encoded(front, url_encode_byte(b) + rest);
        lemma_decode_byte(b, rest);
        assert(front + (seq![b] + url_decode(rest)) =~= bytes + url_decode(rest));
    }
}

/// Reading an encoded query back gives the bytes that were encoded, so two
/// different byte sequences never share an encoding.
pub proof fn law_url_decode_inverts_encode(bytes: Seq<u8>)
    ensures
        url_decode(url_encode(bytes)) == bytes,
        forall|other: Seq<u8>| url_encode(other) == url_encode(bytes) ==> other == bytes,
{
    lemma_decode_encoded(bytes, Seq::<char>::empty());
    assert(url_encode(bytes) + Seq::<char>::empty() =~= url_encode(bytes));
    assert(bytes + url_decode(Seq::<char>::empty()) =~= bytes);
    assert forall|other: Seq<u8>| url_encode(other) == url_encode(bytes) implies other == bytes by {
        lemma_decode_encoded(other, Seq::<char>::empty());
        assert(url_encode(other) + Seq::<char>::empty() =~= url_encode(other));
        assert(other + url_decode(Seq::<char>::empty()) =~= other);
    }
}

/// The search endpoint for `keyword`.
pub open spec fn search_api_url_text(keyword: Seq<char>) -> Seq<char> {
    "https://api.qimao.com/api/search?keyword="@ + url_encode(vstd::utf8::encode_utf8(keyword))
        + "&page=1&size=20"@
}

/// The table-of-contents endpoint of a book.
pub open spec fn catalog_url_text(book_id: Seq<char>) -> Seq<char> {
    "https://api.qimao.com/api/book/catalog?book_id="@ + book_id + "&page=1&size=5000"@
}

/// The chapter-text endpoint.
pub open spec fn chapter_api_url_text(book_id: Seq<char>, chapter_id: Seq<char>) -> Seq<char> {
    "https://api.qimao.com/api/book/chapter?book_id="@ + book_id + "&chapter_id="@ + chapter_id
}

/// The web search page for `keyword`.
pub open spec fn web_search_url_text(keyword: Seq<char>) -> Seq<char> {
    "https://www.qimao.com/search/index/?keyword="@ + url_encode(vstd::utf8::encode_utf8(keyword))
}

/// The web page of a book.
pub open spec fn web_book_url_text(book_id: Seq<char>) -> Seq<char> {
    "https://www.qimao.com/shuku/"@ + book_id + "/"@
}

/// The web page of a chapter.
pub open spec fn web_chapter_url_text(book_id: Seq<char>, chapter_id: Seq<char>) -> Seq<char> {
    "https://www.qimao.com/shuku/"@ + book_id + "-"@ + chapter_id + "/"@
}

/// The search endpoint for `keyword`.
pub fn search_api_url(keyword: &str) -> (r: String)
    ensures
        r@ == search_api_url_text(keyword@),
{
    let k = urlencoding(keyword);
    concat3("https://api.qimao.com/api/search?keyword=", k.as_str(), "&page=1&size=20")
}

/// The book-information endpoint.
pub fn book_info_api_url(book_id: &str) -> (r: String)
    ensures
        r@ == "https://api.qimao.com/api/book/info?book_id="@ + book_id@,
{
    concat2("https://api.qimao.com/api/book/info?book_id=", book_id)
}

/// The table-of-contents endpoint.
pub fn book_catalog_api_url(book_id: &str) -> (r: String)
    ensures
        r@ == catalog_url_text(book_id@),
{
    concat3("https://api.qimao.com/api/book/catalog?book_id=", book_id, "&page=1&size=5000")
}

/// The chapter-text endpoint.
pub fn chapter_api_url(book_id: &str, chapter_id: &str) -> (r: String)
    ensures
        r@ == chapter_api_url_text(book_id@, chapter_id@),
{
    concat4("https://api.qimao.com/api/book/chapter?book_id=", book_id, "&chapter_id=", chapter_id)
}

/// The web search page for `keyword` (the HTML fallback).
pub fn web_search_url(keyword: &str) -> (r: String)
    ensures
        r@ == web_search_url_text(keyword@),
{
    let k = urlencoding(keyword);
    concat2("https://www.qimao.com/search/index/?keyword=", k.as_str())
}

/// The web page of a book.
pub fn web_book_url(book_id: &str) -> (r: String)
    ensures
        r@ == web_book_url_text(book_id@),
{
    concat3("https://www.qimao.com/shuku/", book_id, "/")
}

/// The web page of a chapter.
pub fn web_chapter_url(book_id: &str, chapter_id: &str) -> (r: String)
    ensures
        r@ == web_chapter_url_text(book_id@, chapter_id@),
{
    crate::text::concat5("https://www.qimao.com/shuku/", book_id, "-", chapter_id, "/")
}

/// HTML entities decoded, each once: `&nbsp;`, `&lt;`, `&gt;`, `&quot;`,
/// `&#39;`, `&mdash;`, `&ndash;`, and `&amp;` last, so that `&amp;quot;`
/// stays the text `&quot;`.
pub open spec fn decode_entities(s: Seq<char>) -> Seq<char> {
    let s1 = replace_all(s, "&nbsp;"@, " "@);
    let s2 = replace_all(s1, "&lt;"@, "<"@);
    let s3 = replace_all(s2, "&gt;"@, ">"@);
    let s4 = replace_all(s3, "&quot;"@, "\""@);
    let s5 = replace_all(s4, "&#39;"@, "'"@);
    let s6 = replace_all(s5, "&mdash;"@, "—"@);
    let s7 = replace_all(s6, "&ndash;"@, "–"@);
    replace_all(s7, "&amp;"@, "&"@)
}

/// The text after its `<br>` and `</p>` tags became line breaks and every
/// remaining tag was removed.
pub open spec fn untagged_text(html: Seq<char>) -> Seq<char> {
    let breaks = regex_replace_all_result(r"<\s*br\s*/?\s*>"@, html, "\n"@);
    let paragraphs = regex_replace_all_result(r"<\s*/\s*p\s*>"@, breaks, "\n"@);
    regex_replace_all_result(r"<[^>]*>"@, paragraphs, ""@)
}

/// What `strip_html_tags` makes of `html`: `<br>` and `</p>` turned into line
/// breaks, every other tag removed, entities decoded, then every line
/// trimmed and blank lines dropped.
pub open spec fn stripped_text(html: Seq<char>) -> Seq<char> {
    compact_lines(decode_entities(untagged_text(html)))
}

/// Every line of stripped text is non-empty and has no white space at
/// either end (blank lines are gone, lines are trimmed).
pub proof fn law_stripped_lines_are_trimmed(html: Seq<char>)
    ensures
        forall|i: int|
            0 <= i < split_on(stripped_text(html), '\n').len() && stripped_text(html).len() > 0 ==> {
                let l = #[trigger] split_on(stripped_text(html), '\n')[i];
                &&& l.len() > 0
                &&& trim(l) == l
            },
{
    law_compact_lines_are_trimmed(decode_entities(untagged_text(html)));
}

/// Turns chapter HTML into plain text. A value of this type exists only
/// when the patterns it uses compile.
pub struct HtmlCleaner {
    ready: bool,
}

impl HtmlCleaner {
    #[verifier::type_invariant]
    closed spec fn patterns_compile(&self) -> bool {
        &&& regex_compiles(r"<[^>]*>"@)
        &&& regex_compiles(r"<\s*br\s*/?\s*>"@)
        &&& regex_compiles(r"<\s*/\s*p\s*>"@)
    }

    /// A cleaner, when its patterns compile (`None` where a pattern would be
    /// refused and stripping would panic).
    pub fn new() -> (r: Option<HtmlCleaner>)
        ensures
            r is Some == (regex_compiles(r"<[^>]*>"@) && regex_compiles(r"<\s*br\s*/?\s*>"@)
                && regex_compiles(r"<\s*/\s*p\s*>"@)),
    {
        if regex_is_valid(r"<[^>]*>") && regex_is_valid(r"<\s*br\s*/?\s*>") && regex_is_valid(
            r"<\s*/\s*p\s*>",
        ) {
            Some(HtmlCleaner { ready: true })
        } else {
            None
        }
    }

    /// Turns `<br>` and `</p>` into line breaks, removes every other HTML
    /// tag, decodes common entities once each, trims every line and drops
    /// blank lines.
    pub fn strip_html_tags(&self, html: &str) -> (r: String)
        ensures
            r@ == stripped_text(html@),
    {
        proof {
            use_type_invariant(self);
        }
        let breaks = unwrap_compiled(regex_replace_all(r"<\s*br\s*/?\s*>", html, "\n"));
        let paragraphs = unwrap_compiled(
            regex_replace_all(r"<\s*/\s*p\s*>", breaks.as_str(), "\n"),
        );
        let no_tags = unwrap_compiled(regex_replace_all(r"<[^>]*>", paragraphs.as_str(), ""));
        let decoded = decode_entities_str(no_tags.as_str());
        let v = chars_of(decoded.as_str());
        let out = compact_lines_chars(&v);
        string_from_chars(&out)
    }
}

fn unwrap_compiled(r: Option<String>) -> (s: String)
    requires
        r is Some,
    ensures
        r == Some(s),
{
    match r {
        Some(s) => s,
        None => String::new(),
    }
}

/// Decodes the entities listed in `decode_entities`.
pub fn decode_entities_str(s: &str) -> (r: String)
    ensures
        r@ == decode_entities(s@),
{
    proof {
        reveal_strlit("&nbsp;");
        reveal_strlit("&lt;");
        reveal_strlit("&gt;");
        reveal_strlit("&amp;");
        reveal_strlit("&quot;");
        reveal_strlit("&#39;");
        reveal_strlit("&mdash;");
        reveal_strlit("&ndash;");
    }
    let s1 = replace_str(s, "&nbsp;", " ");
    let s2 = replace_str(s1.as_str(), "&lt;", "<");
    let s3 = replace_str(s2.as_str(), "&gt;", ">");
    let s4 = replace_str(s3.as_str(), "&quot;", "\"");
    let s5 = replace_str(s4.as_str(), "&#39;", "'");
    let s6 = replace_str(s5.as_str(), "&mdash;", "—");
    let s7 = replace_str(s6.as_str(), "&ndash;", "–");
    replace_str(s7.as_str(), "&amp;", "&")
}


/// The 七猫 platform's description.
pub fn qimao_meta() -> (r: PlatformMeta)
    ensures
        r.id@ == "qimao"@,
        r.name@ == "七猫免费小说"@,
        r.domain@ == "qimao.com"@,
        !r.requires_auth,
        r.is_free,
{
    PlatformMeta {
        id: "qimao",
        name: "七猫免费小说",
        domain: "qimao.com",
        requires_auth: false,
        is_free: true,
    }
}

/// The views of optional strings.
pub open spec fn opt_view(o: Option<String>) -> Option<Seq<char>> {
    match o {
        Some(s) => Some(s@),
        None => None,
    }
}

/// A count kept as `u32` (`n as u32`).
pub open spec fn count_u32(o: Option<u64>) -> Option<u32> {
    match o {
        Some(n) => Some(n as u32),
        None => None,
    }
}

/// A finished flag: `1` means finished.
pub open spec fn flag_is_one(o: Option<u64>) -> Option<bool> {
    match o {
        Some(n) => Some(n == 1),
        None => None,
    }
}

/// `r` is the search hit made from one JSON book item.
pub open spec fn hit_from_item(r: SearchResult, item: JsonValue) -> bool {
    &&& r.id.platform@ == "qimao"@
    &&& r.id.raw@ == json_str_or_empty(json_get(item, "book_id"@))
    &&& r.title@ == json_str_or_empty(json_get(item, "title"@))
    &&& r.author@ == json_str_or_empty(json_get(item, "author"@))
    &&& r.platform_name@ == "七猫免费小说"@
    &&& opt_view(r.intro) == json_str(json_get(item, "desc"@))
    &&& opt_view(r.cover_url) == json_str(json_get(item, "cover"@))
    &&& r.chapter_count == count_u32(json_u64(json_get(item, "total_chapter"@)))
    &&& r.finished == flag_is_one(json_u64(json_get(item, "finished"@)))
}

/// `r` is the search hit made from one match of the search-card pattern:
/// book id, then trimmed title and author, nothing else known.
pub open spec fn hit_from_card(r: SearchResult, groups: Seq<Option<Seq<char>>>) -> bool {
    &&& r.id.platform@ == "qimao"@
    &&& r.id.raw@ == group_or_empty(groups, 1)
    &&& r.title@ == trim(group_or_empty(groups, 2))
    &&& r.author@ == trim(group_or_empty(groups, 3))
    &&& r.platform_name@ == "七猫免费小说"@
    &&& r.intro is None
    &&& r.cover_url is None
    &&& r.chapter_count is None
    &&& r.finished is None
}

fn optional_u32(n: Option<u64>) -> (r: Option<u32>)
    ensures
        r == count_u32(n),
{
    match n {
        Some(n) => Some(n as u32),
        None => None,
    }
}

fn optional_flag(n: Option<u64>) -> (r: Option<bool>)
    ensures
        r == flag_is_one(n),
{
    match n {
        Some(n) => Some(n == 1),
        None => None,
    }
}

/// The search hit for one JSON book item.
pub fn hit_from_json(item: &JsonValue) -> (r: SearchResult)
    ensures
        hit_from_item(r, *item),
{
    let raw = str_or_empty(item.get("book_id"));
    SearchResult {
        id: NovelId::new("qimao", raw.as_str()),
        title: str_or_empty(item.get("title")),
        author: str_or_empty(item.get("author")),
        platform_name: "七猫免费小说".to_owned(),
        intro: opt_str(item.get("desc")),
        cover_url: opt_str(item.get("cover")),
        chapter_count: optional_u32(opt_u64(item.get("total_chapter"))),
        finished: optional_flag(opt_u64(item.get("finished"))),
    }
}

/// The search hits for a list of JSON book items, in order.
pub fn hits_from_items(items: &Vec<JsonValue>) -> (r: Vec<SearchResult>)
    ensures
        r.len() == items.len(),
        forall|i: int| 0 <= i < items.len() ==> hit_from_item(#[trigger] r@[i], items@[i]),
{
    let mut out: Vec<SearchResult> = Vec::new();
    let mut i: usize = 0;
    while i < items.len()
        invariant
            i <= items.len(),
            out.len() == i,
            forall|j: int| 0 <= j < i ==> hit_from_item(#[trigger] out@[j], items@[j]),
        decreases items.len() - i,
    {
        out.push(hit_from_json(&items[i]));
        i = i + 1;
    }
    out
}

/// `hits` are the hits made from `items`, in order.
pub open spec fn hits_from(items: Seq<JsonValue>, hits: Seq<SearchResult>) -> bool {
    hits.len() == items.len() && forall|i: int| 0 <= i < items.len() ==> hit_from_item(#[trigger] hits[i], items[i])
}

/// The outcome of reading a search reply: the hits of the `data.list`
/// items, or the error "搜索响应格式异常" when `data.list` is not an array.
pub open spec fn api_search_outcome(json: JsonValue, r: Result<Vec<SearchResult>, PlatformError>) -> bool {
    match json_array(json_path(json, seq!["data"@, "list"@])) {
        Some(items) => r matches Ok(hits) && hits_from(items, hits@),
        None => r matches Err(e) && e.message@ == "搜索响应格式异常"@,
    }
}

/// The hits of a search reply: the items of `data.list`; the error
/// "搜索响应格式异常" when `data.list` is not an array.
pub fn search_results_from_api(json: &JsonValue) -> (r: Result<Vec<SearchResult>, PlatformError>)
    ensures
        api_search_outcome(*json, r),
{
    match json.get2("data", "list") {
        Some(list) => match list.as_array() {
            Some(items) => Ok(hits_from_items(items)),
            None => Err(PlatformError::new("搜索响应格式异常")),
        },
        None => Err(PlatformError::new("搜索响应格式异常")),
    }
}

/// The search-card pattern of the web search page.
pub open spec fn card_pattern() -> Seq<char> {
    r#"<a[^>]*href="/shuku/([^/"]+)"[^>]*>.*?<h3[^>]*>([^<]+)</h3>.*?<p[^>]*>([^<]*)</p>"#@
}

/// `hits` are the hits made from the search-card matches, in order.
pub open spec fn hits_from_cards(cards: Seq<Seq<Option<Seq<char>>>>, hits: Seq<SearchResult>) -> bool {
    hits.len() == cards.len() && forall|i: int| 0 <= i < cards.len() ==> hit_from_card(#[trigger] hits[i], cards[i])
}

/// The page data embedded in a page, as a value.
pub open spec fn opt_json(v: Option<&JsonValue>) -> Option<JsonValue> {
    match v {
        Some(x) => Some(*x),
        None => None,
    }
}

/// The outcome of reading the web search page: the `props.pageProps.books`
/// items of the page data when that is an array (even an empty one); else
/// the search-card matches when there are any; else the error saying that
/// neither way found anything.
pub open spec fn page_search_outcome(
    html: Seq<char>,
    next_data: Option<JsonValue>,
    r: Result<Vec<SearchResult>, PlatformError>,
) -> bool {
    let books = match next_data {
        Some(nd) => json_array(json_path(nd, seq!["props"@, "pageProps"@, "books"@])),
        None => None,
    };
    match books {
        Some(items) => r matches Ok(hits) && hits_from(items, hits@),
        None => {
            let cards = regex_all_captures(card_pattern(), html);
            if regex_compiles(card_pattern()) && cards.len() > 0 {
                r matches Ok(hits) && hits_from_cards(cards, hits@)
            } else {
                r matches Err(e) && e.message@ == "七猫搜索:API 与 HTML 解析均未获取到结果(接口可能已变更)"@
            }
        },
    }
}

/// The hits of the web search page, given the page and the page data
/// embedded in it (see `scraper::next_data_text`): the `props.pageProps.books`
/// items of the page data when that is an array (even an empty one); else
/// the matches of the search-card pattern when there are any; else the error
/// saying that neither way found anything.
pub fn search_results_from_page(html: &str, next_data: Option<&JsonValue>) -> (r: Result<
    Vec<SearchResult>,
    PlatformError,
>)
    ensures
        page_search_outcome(html@, opt_json(next_data), r),
{
    match next_data {
        Some(nd) => match nd.get3("props", "pageProps", "books") {
            Some(books) => match books.as_array() {
                Some(items) => {
                    return Ok(hits_from_items(items));
                },
                None => {},
            },
            None => {},
        },
        None => {},
    }
    match regex_captures_all(
        r#"<a[^>]*href="/shuku/([^/"]+)"[^>]*>.*?<h3[^>]*>([^<]+)</h3>.*?<p[^>]*>([^<]*)</p>"#,
        html,
    ) {
        Some(all) => {
            let mut results: Vec<SearchResult> = Vec::new();
            let mut i: usize = 0;
            while i < all.len()
                invariant
                    i <= all.len(),
                    results.len() == i,
                    forall|j: int| 0 <= j < i ==> hit_from_card(#[trigger] results@[j], all.deep_view()[j]),
                decreases all.len() - i,
            {
                let groups = &all[i];
                let raw = get_group_or_empty(groups, 1);
                let title = get_group_or_empty(groups, 2);
                let author = get_group_or_empty(groups, 3);
                assert(groups.deep_view() == all.deep_view()[i as int]);
                results.push(
                    SearchResult {
                        id: NovelId::new("qimao", raw.as_str()),
                        title: trim_str(title.as_str()),
                        author: trim_str(author.as_str()),
                        platform_name: "七猫免费小说".to_owned(),
                        intro: None,
                        cover_url: None,
                        chapter_count: None,
                        finished: None,
                    },
                );
                i = i + 1;
            }
            if results.len() > 0 {
                return Ok(results);
            }
        },
        None => {},
    }
    Err(PlatformError::new("七猫搜索:API 与 HTML 解析均未获取到结果(接口可能已变更)"))
}

/// The search hits to use from the API search: its hits when it succeeded
/// with at least one; `None` when the web search page must be asked instead.
pub fn api_hits_if_any(api: Result<Vec<SearchResult>, PlatformError>) -> (r: Option<Vec<SearchResult>>)
    ensures
        match api {
            Ok(hits) if hits.len() > 0 => r == Some(hits),
            _ => r is None,
        },
{
    match api {
        Ok(hits) => {
            if hits.len() > 0 {
                Some(hits)
            } else {
                None
            }
        },
        Err(_) => None,
    }
}


/// `c` is the table-of-contents entry made from JSON item `item` at `i`.
pub open spec fn ref_from_item(c: ChapterRef, item: JsonValue, i: int) -> bool {
    &&& c.id@ == json_str_or_empty(json_get(item, "chapter_id"@))
    &&& c.title@ == json_str_or_empty(json_get(item, "title"@))
    &&& c.index == i as u32
}

/// `c` is the table-of-contents entry made from match `i` of the
/// chapter-link pattern: chapter id, then trimmed title.
pub open spec fn ref_from_link(c: ChapterRef, groups: Seq<Option<Seq<char>>>, i: int) -> bool {
    &&& c.id@ == group_or_empty(groups, 1)
    &&& c.title@ == trim(group_or_empty(groups, 2))
    &&& c.index == i as u32
}

/// The entries made from a list of JSON chapter items, numbered from 0.
pub fn refs_from_items(items: &Vec<JsonValue>) -> (r: Vec<ChapterRef>)
    ensures
        r.len() == items.len(),
        forall|i: int| 0 <= i < items.len() ==> ref_from_item(#[trigger] r@[i], items@[i], i),
{
    let mut out: Vec<ChapterRef> = Vec::new();
    let mut i: usize = 0;
    while i < items.len()
        invariant
            i <= items.len(),
            out.len() == i,
            forall|j: int| 0 <= j < i ==> ref_from_item(#[trigger] out@[j], items@[j], j),
        decreases items.len() - i,
    {
        let ch = &items[i];
        out.push(
            ChapterRef {
                id: str_or_empty(ch.get("chapter_id")),
                title: str_or_empty(ch.get("title")),
                index: i as u32,
            },
        );
        i = i + 1;
    }
    out
}

/// `refs` are the entries made from `items`, numbered from 0.
pub open spec fn refs_from(items: Seq<JsonValue>, refs: Seq<ChapterRef>) -> bool {
    refs.len() == items.len() && forall|i: int| 0 <= i < items.len() ==> ref_from_item(#[trigger] refs[i], items[i], i)
}

/// The table of contents read from a catalog reply: the `data.list` items,
/// or nothing when that is not an array.
pub open spec fn catalog_outcome(json: JsonValue, refs: Seq<ChapterRef>) -> bool {
    match json_array(json_path(json, seq!["data"@, "list"@])) {
        Some(items) => refs_from(items, refs),
        None => refs.len() == 0,
    }
}

/// The table of contents of a catalog reply: the items of `data.list`, or
/// nothing when that is not an array.
pub fn chapters_from_catalog(json: &JsonValue) -> (r: Vec<ChapterRef>)
    ensures
        catalog_outcome(*json, r@),
{
    match json.get2("data", "list") {
        Some(list) => match list.as_array() {
            Some(items) => refs_from_items(items),
            None => Vec::new(),
        },
        None => Vec::new(),
    }
}

/// The chapter-link pattern of a book page.
pub open spec fn link_pattern() -> Seq<char> {
    r#"<a[^>]*href="/shuku/[^/]+-([0-9a-f]+)/"[^>]*>([^<]+)</a>"#@
}

/// The table of contents read from a book page: the
/// `props.pageProps.chapters` items of the page data when that is an array;
/// else one entry per chapter-link match; nothing when that pattern does not
/// compile.
pub open spec fn page_list_outcome(html: Seq<char>, next_data: Option<JsonValue>, refs: Seq<ChapterRef>) -> bool {
    let listed = match next_data {
        Some(nd) => json_array(json_path(nd, seq!["props"@, "pageProps"@, "chapters"@])),
        None => None,
    };
    match listed {
        Some(items) => refs_from(items, refs),
        None => if regex_compiles(link_pattern()) {
            let links = regex_all_captures(link_pattern(), html);
            refs.len() == links.len() && forall|i: int|
                0 <= i < links.len() ==> ref_from_link(#[trigger] refs[i], links[i], i)
        } else {
            refs.len() == 0
        },
    }
}

/// Reads a book page's table of contents, given the page and the page data
/// embedded in it: the `props.pageProps.chapters` items of the page data
/// when that is an array; else one entry per match of the chapter-link
/// pattern; nothing when that pattern does not compile.
pub fn parse_chapter_list_from_html(html: &str, next_data: Option<&JsonValue>) -> (r: Vec<ChapterRef>)
    ensures
        page_list_outcome(html@, opt_json(next_data), r@),
{
    match next_data {
        Some(nd) => match nd.get3("props", "pageProps", "chapters") {
            Some(list) => match list.as_array() {
                Some(items) => {
                    return refs_from_items(items);
                },
                None => {},
            },
            None => {},
        },
        None => {},
    }
    let mut chapters: Vec<ChapterRef> = Vec::new();
    match regex_captures_all(r#"<a[^>]*href="/shuku/[^/]+-([0-9a-f]+)/"[^>]*>([^<]+)</a>"#, html) {
        Some(all) => {
            let mut i: usize = 0;
            while i < all.len()
                invariant
                    i <= all.len(),
                    chapters.len() == i,
                    forall|j: int| 0 <= j < i ==> ref_from_link(#[trigger] chapters@[j], all.deep_view()[j], j),
                decreases all.len() - i,
            {
                let groups = &all[i];
                let id = get_group_or_empty(groups, 1);
                let title = get_group_or_empty(groups, 2);
                assert(groups.deep_view() == all.deep_view()[i as int]);
                chapters.push(ChapterRef { id, title: trim_str(title.as_str()), index: i as u32 });
                i = i + 1;
            }
        },
        None => {},
    }
    chapters
}

/// The placeholder metadata of a book: title "未知书名", author "未知作者",
/// no introduction, cover, tags or finished flag.
pub fn fetch_book_meta(novel_id: &str) -> (r: (String, String, Option<String>, Option<String>, Vec<String>, Option<bool>))
    ensures
        r.0@ == "未知书名"@,
        r.1@ == "未知作者"@,
        r.2 is None,
        r.3 is None,
        r.4.len() == 0,
        r.5 is None,
{
    ("未知书名".to_owned(), "未知作者".to_owned(), None, None, Vec::new(), None)
}

/// The details made from a table of contents: the error
/// "七猫:未获取到任何章节(接口可能已变更)" for an empty one; else the
/// placeholder metadata, the chapter count, and the entries.
pub open spec fn detail_outcome(novel_id: Seq<char>, chapters: Seq<ChapterRef>, r: Result<NovelDetail, PlatformError>) -> bool {
    if chapters.len() == 0 {
        r matches Err(e) && e.message@ == "七猫:未获取到任何章节(接口可能已变更)"@
    } else {
        r matches Ok(d) && {
            &&& d.id.platform@ == "qimao"@
            &&& d.id.raw@ == novel_id
            &&& d.title@ == "未知书名"@
            &&& d.author@ == "未知作者"@
            &&& d.intro is None
            &&& d.cover_url is None
            &&& d.tags.len() == 0
            &&& d.finished is None
            &&& d.chapter_count == Some(chapters.len() as u32)
            &&& d.word_count is None
            &&& d.chapters@ == chapters
        }
    }
}

/// A book's details from its table of contents: the error
/// "七猫:未获取到任何章节(接口可能已变更)" for an empty one; else the
/// placeholder metadata, the chapter count, and the entries.
pub fn detail_from_chapters(novel_id: &str, chapters: Vec<ChapterRef>) -> (r: Result<NovelDetail, PlatformError>)
    ensures
        detail_outcome(novel_id@, chapters@, r),
{
    if chapters.len() == 0 {
        return Err(PlatformError::new("七猫:未获取到任何章节(接口可能已变更)"));
    }
    let (title, author, intro, cover_url, tags, finished) = fetch_book_meta(novel_id);
    let count = chapters.len() as u32;
    Ok(
        NovelDetail {
            id: NovelId::new("qimao", novel_id),
            title,
            author,
            intro,
            cover_url,
            tags,
            finished,
            chapter_count: Some(count),
            word_count: None,
            chapters,
        },
    )
}


/// The body patterns tried in turn on a chapter page.
pub open spec fn content_pattern(k: int) -> Seq<char> {
    if k == 0 {
        r#"<div[^>]*class="[^"]*content[^"]*"[^>]*>\s*([\s\S]*?)\s*</div>"#@
    } else if k == 1 {
        r#"<article[^>]*>\s*([\s\S]*?)\s*</article>"#@
    } else if k == 2 {
        r#"<div[^>]*class="[^"]*chapter-content[^"]*"[^>]*>\s*([\s\S]*?)\s*</div>"#@
    } else {
        r#"<div[^>]*id="[^"]*content[^"]*"[^>]*>\s*([\s\S]*?)\s*</div>"#@
    }
}

/// The chapter text one body pattern yields: the first match's body,
/// stripped of HTML and trimmed, when that is not empty.
pub open spec fn content_by_pattern(pattern: Seq<char>, html: Seq<char>) -> Option<Seq<char>> {
    if !regex_compiles(pattern) {
        None
    } else {
        match regex_first_captures(pattern, html) {
            Some(groups) => {
                let t = trim(stripped_text(group_or_empty(groups, 1)));
                if t.len() > 0 {
                    Some(t)
                } else {
                    None
                }
            },
            None => None,
        }
    }
}

/// The `props.pageProps.content` text of a page's embedded data.
pub open spec fn page_data_content(next_data: Option<JsonValue>) -> Option<Seq<char>> {
    match next_data {
        Some(nd) => json_str(json_path(nd, seq!["props"@, "pageProps"@, "content"@])),
        None => None,
    }
}

/// The chapter text of a page: the embedded `props.pageProps.content`,
/// stripped, when it is not empty; else what the first body pattern that
/// yields anything yields.
pub open spec fn chapter_text_of_page(html: Seq<char>, next_data: Option<JsonValue>) -> Option<Seq<char>> {
    let direct = page_data_content(next_data);
    if direct is Some && direct.unwrap().len() > 0 {
        Some(stripped_text(direct.unwrap()))
    } else if content_by_pattern(content_pattern(0), html) is Some {
        content_by_pattern(content_pattern(0), html)
    } else if content_by_pattern(content_pattern(1), html) is Some {
        content_by_pattern(content_pattern(1), html)
    } else if content_by_pattern(content_pattern(2), html) is Some {
        content_by_pattern(content_pattern(2), html)
    } else {
        content_by_pattern(content_pattern(3), html)
    }
}

/// A page whose embedded data holds non-empty content gives that content,
/// stripped of HTML, whatever its body holds.
pub proof fn law_page_text_prefers_page_data(html: Seq<char>, next_data: Option<JsonValue>, d: Seq<char>)
    requires
        page_data_content(next_data) == Some(d),
        d.len() > 0,
    ensures
        chapter_text_of_page(html, next_data) == Some(stripped_text(d)),
{
}

/// Without page data, a page gives what the first body pattern that yields
/// anything yields, in the order `div.content`, `article`,
/// `div.chapter-content`, `div#content`; and nothing when none yields.
pub proof fn law_page_text_is_first_yielding_pattern(html: Seq<char>, next_data: Option<JsonValue>, k: int)
    requires
        !(page_data_content(next_data) is Some && page_data_content(next_data).unwrap().len() > 0),
        0 <= k < 4,
        content_by_pattern(content_pattern(k), html) is Some,
        forall|j: int| 0 <= j < k ==> (#[trigger] content_by_pattern(content_pattern(j), html)) is None,
    ensures
        chapter_text_of_page(html, next_data) == content_by_pattern(content_pattern(k), html),
{
    if k > 0 {
        assert(content_by_pattern(content_pattern(0), html) is None);
    }
    if k > 1 {
        assert(content_by_pattern(content_pattern(1), html) is None);
    }
    if k > 2 {
        assert(content_by_pattern(content_pattern(2), html) is None);
    }
}

/// Without page data, a page whose text sits in a `div` of class
/// `content` gives that text.
pub proof fn law_page_text_from_content_div(html: Seq<char>, next_data: Option<JsonValue>)
    requires
        !(page_data_content(next_data) is Some && page_data_content(next_data).unwrap().len() > 0),
        content_by_pattern(r#"<div[^>]*class="[^"]*content[^"]*"[^>]*>\s*([\s\S]*?)\s*</div>"#@, html) is Some,
    ensures
        chapter_text_of_page(html, next_data) == content_by_pattern(
            r#"<div[^>]*class="[^"]*content[^"]*"[^>]*>\s*([\s\S]*?)\s*</div>"#@,
            html,
        ),
{
}

/// Without page data, a page that no body pattern yields anything for gives
/// no text.
pub proof fn law_page_text_none_without_match(html: Seq<char>, next_data: Option<JsonValue>)
    requires
        !(page_data_content(next_data) is Some && page_data_content(next_data).unwrap().len() > 0),
        forall|j: int| 0 <= j < 4 ==> (#[trigger] content_by_pattern(content_pattern(j), html)) is None,
    ensures
        chapter_text_of_page(html, next_data) is None,
{
    assert(content_by_pattern(content_pattern(0), html) is None);
    assert(content_by_pattern(content_pattern(1), html) is None);
    assert(content_by_pattern(content_pattern(2), html) is None);
    assert(content_by_pattern(content_pattern(3), html) is None);
}

/// The chapter text one body pattern yields.
fn content_by(cleaner: &HtmlCleaner, pattern: &str, html: &str) -> (r: Option<String>)
    ensures
        match r {
            Some(t) => content_by_pattern(pattern@, html@) == Some(t@),
            None => content_by_pattern(pattern@, html@) is None,
        },
{
    match regex_captures(pattern, html) {
        Some(Some(groups)) => {
            let raw = get_group_or_empty(&groups, 1);
            let cleaned = cleaner.strip_html_tags(raw.as_str());
            let trimmed = trim_str(cleaned.as_str());
            if !trimmed.as_str().is_empty() {
                Some(trimmed)
            } else {
                None
            }
        },
        _ => None,
    }
}

/// Reads a chapter's text from its web page, given the page and the page
/// data embedded in it.
pub fn parse_chapter_content(cleaner: &HtmlCleaner, html: &str, next_data: Option<&JsonValue>) -> (r: Option<String>)
    ensures
        match r {
            Some(t) => chapter_text_of_page(html@, opt_json(next_data)) == Some(t@),
            None => chapter_text_of_page(html@, opt_json(next_data)) is None,
        },
{
    match next_data {
        Some(nd) => match nd.get3("props", "pageProps", "content") {
            Some(c) => match c.as_str() {
                Some(text) => {
                    if !text.is_empty() {
                        return Some(cleaner.strip_html_tags(text));
                    }
                },
                None => {},
            },
            None => {},
        },
        None => {},
    }
    match content_by(cleaner, r#"<div[^>]*class="[^"]*content[^"]*"[^>]*>\s*([\s\S]*?)\s*</div>"#, html) {
        Some(t) => {
            return Some(t);
        },
        None => {},
    }
    match content_by(cleaner, r#"<article[^>]*>\s*([\s\S]*?)\s*</article>"#, html) {
        Some(t) => {
            return Some(t);
        },
        None => {},
    }
    match content_by(
        cleaner,
        r#"<div[^>]*class="[^"]*chapter-content[^"]*"[^>]*>\s*([\s\S]*?)\s*</div>"#,
        html,
    ) {
        Some(t) => {
            return Some(t);
        },
        None => {},
    }
    content_by(cleaner, r#"<div[^>]*id="[^"]*content[^"]*"[^>]*>\s*([\s\S]*?)\s*</div>"#, html)
}

/// The chapter read from a chapter reply: fetched, with `data.content`
/// stripped of HTML, when that is a non-empty string; else restricted with
/// "章节内容为空,可能需要看广告解锁".
pub open spec fn api_chapter_outcome(id: Seq<char>, title: Seq<char>, json: JsonValue, c: ChapterContent) -> bool {
    &&& chapter_is(c, id, title)
    &&& match json_str(json_path(json, seq!["data"@, "content"@])) {
        Some(text) if text.len() > 0 => fetched_with(c, stripped_text(text)),
        _ => locked_with(c, "章节内容为空,可能需要看广告解锁"@),
    }
}

/// The chapter from a chapter reply: fetched, with `data.content` stripped
/// of HTML, when that is a non-empty string; else restricted with
/// "章节内容为空,可能需要看广告解锁".
pub fn chapter_from_api(cleaner: &HtmlCleaner, chapter_id: &str, chapter_title: &str, json: &JsonValue) -> (r: ChapterContent)
    ensures
        api_chapter_outcome(chapter_id@, chapter_title@, *json, r),
{
    match json.get2("data", "content") {
        Some(c) => match c.as_str() {
            Some(content) => {
                if !content.is_empty() {
                    let cleaned = cleaner.strip_html_tags(content);
                    return ChapterContent::ok(chapter_id, chapter_title, cleaned);
                }
            },
            None => {},
        },
        None => {},
    }
    ChapterContent::locked(chapter_id, chapter_title, "章节内容为空,可能需要看广告解锁")
}

/// The chapter read from its web page: fetched when the page yields text;
/// restricted with "章节内容为空" when it yields empty text; failed with
/// "无法从 HTML 中提取章节正文" when it yields none.
pub open spec fn page_chapter_outcome(
    id: Seq<char>,
    title: Seq<char>,
    html: Seq<char>,
    next_data: Option<JsonValue>,
    c: ChapterContent,
) -> bool {
    &&& chapter_is(c, id, title)
    &&& match chapter_text_of_page(html, next_data) {
        Some(t) => if t.len() == 0 {
            locked_with(c, "章节内容为空"@)
        } else {
            fetched_with(c, t)
        },
        None => failed_with(c, "无法从 HTML 中提取章节正文"@),
    }
}

/// The chapter from its web page: fetched when the page yields text;
/// restricted with "章节内容为空" when it yields empty text; failed with
/// "无法从 HTML 中提取章节正文" when it yields none.
pub fn chapter_from_page(
    cleaner: &HtmlCleaner,
    chapter_id: &str,
    chapter_title: &str,
    html: &str,
    next_data: Option<&JsonValue>,
) -> (r: ChapterContent)
    ensures
        page_chapter_outcome(chapter_id@, chapter_title@, html@, opt_json(next_data), r),
{
    match parse_chapter_content(cleaner, html, next_data) {
        Some(content) => {
            if content.as_str().is_empty() {
                ChapterContent::locked(chapter_id, chapter_title, "章节内容为空")
            } else {
                ChapterContent::ok(chapter_id, chapter_title, content)
            }
        },
        None => ChapterContent::failed(chapter_id, chapter_title, "无法从 HTML 中提取章节正文"),
    }
}

/// The chapter when its web page could not be fetched: failed with
/// "章节页面获取失败: " and the error.
pub fn chapter_page_failed(chapter_id: &str, chapter_title: &str, error: &str) -> (r: ChapterContent)
    ensures
        chapter_is(r, chapter_id@, chapter_title@),
        failed_with(r, "章节页面获取失败: "@ + error@),
{
    let reason = concat2("章节页面获取失败: ", error);
    ChapterContent::failed(chapter_id, chapter_title, reason.as_str())
}

} // verus!
