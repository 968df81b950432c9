//! The request flows of the 七猫 adapter. Each operation first asks the JSON
//! API and falls back to the web page; the caller performs every request a
//! flow asks for and hands the reply back, until the flow is done.

use vstd::prelude::*;

use crate::json::{json_array, json_path, JsonValue};
use crate::model::{chapter_is, failed_with, ChapterContent, NovelDetail, PlatformError, SearchResult};
use crate::qimao::{
    api_chapter_outcome, api_hits_if_any, book_catalog_api_url, catalog_outcome, catalog_url_text,
    chapter_api_url, chapter_api_url_text, chapter_from_api, chapter_from_page, chapter_page_failed,
    chapters_from_catalog, detail_from_chapters, detail_outcome, hits_from, page_chapter_outcome,
    page_list_outcome, page_search_outcome, parse_chapter_list_from_html, search_api_url,
    search_api_url_text, search_results_from_api, search_results_from_page, web_book_url,
    web_book_url_text, web_chapter_url, web_chapter_url_text, web_search_url, web_search_url_text,
    HtmlCleaner,
};
use crate::text::concat2;

verus! {

/// What to fetch next.
pub enum Request {
    /// A JSON API reply from this URL.
    Json(String),
    /// A web page from this URL.
    Page(String),
}

/// What a fetch gave: a parsed JSON reply or the error's message; a page
/// with the page data embedded in it (what `scraper::next_data_text` finds,
/// parsed) or the error's message.
pub enum Reply {
    Json(Result<JsonValue, String>),
    Page(Result<(String, Option<JsonValue>), String>),
}

/// The next thing to do: fetch, or finish with a result.
pub enum Step<T> {
    Fetch(Request),
    Done(T),
}

/// Which source a flow is waiting on.
pub enum Stage {
    Api,
    Page,
}

/// Searching for a keyword: the API search, then the web search page when
/// the API gives no hits.
pub struct SearchFlow {
    pub keyword: String,
    pub stage: Stage,
}

/// Reading a book's details: the catalog API, then the book page.
pub struct DetailFlow {
    pub novel_id: String,
    pub stage: Stage,
}

/// Fetching a chapter: the chapter API, then the chapter page.
pub struct ChapterFlow {
    pub novel_id: String,
    pub chapter_id: String,
    pub chapter_title: String,
    pub stage: Stage,
}

/// The reply fits what the flow waits on.
pub open spec fn reply_fits(stage: Stage, reply: Reply) -> bool {
    match stage {
        Stage::Api => reply is Json,
        Stage::Page => reply is Page,
    }
}

impl SearchFlow {
    /// Starts a search: asks the API.
    pub fn start(keyword: &str) -> (r: (SearchFlow, Request))
        ensures
            r.0.keyword@ == keyword@,
            r.0.stage is Api,
            r.1 matches Request::Json(u) && u@ == search_api_url_text(keyword@),
    {
        (SearchFlow { keyword: keyword.to_owned(), stage: Stage::Api }, Request::Json(search_api_url(keyword)))
    }

    /// Takes the reply to the last request: the API's hits when it gave
    /// any; else the web search page is asked for, and its hits are the
    /// result, or the error "七猫搜索页面获取失败: " and the message.
    pub fn on_reply(&mut self, reply: Reply) -> (r: Step<Result<Vec<SearchResult>, PlatformError>>)
        requires
            reply_fits(old(self).stage, reply),
        ensures
            final(self).keyword == old(self).keyword,
            old(self).stage is Api ==> match reply {
                Reply::Json(Ok(j)) => match json_array(json_path(j, seq!["data"@, "list"@])) {
                    Some(items) if items.len() > 0 => r matches Step::Done(Ok(hits)) && hits_from(items, hits@),
                    _ => (r matches Step::Fetch(Request::Page(u)) && u@ == web_search_url_text(old(self).keyword@))
                        && final(self).stage is Page,
                },
                _ => (r matches Step::Fetch(Request::Page(u)) && u@ == web_search_url_text(old(self).keyword@))
                    && final(self).stage is Page,
            },
            old(self).stage is Page ==> match reply {
                Reply::Page(Ok((html, nd))) => r matches Step::Done(res) && page_search_outcome(html@, nd, res),
                Reply::Page(Err(msg)) => r matches Step::Done(Err(e)) && e.message@ == "七猫搜索页面获取失败: "@ + msg@,
                _ => true,
            },
    {
        match self.stage {
            Stage::Api => {
                let found = match reply {
                    Reply::Json(Ok(j)) => {
                        let api = search_results_from_api(&j);
                        api_hits_if_any(api)
                    },
                    _ => None,
                };
                match found {
                    Some(hits) => Step::Done(Ok(hits)),
                    None => {
                        self.stage = Stage::Page;
                        Step::Fetch(Request::Page(web_search_url(self.keyword.as_str())))
                    },
                }
            },
            Stage::Page => match reply {
                Reply::Page(Ok((html, nd))) => {
                    let res = match &nd {
                        Some(v) => search_results_from_page(html.as_str(), Some(v)),
                        None => search_results_from_page(html.as_str(), None),
                    };
                    Step::Done(res)
                },
                Reply::Page(Err(msg)) => {
                    let m = concat2("七猫搜索页面获取失败: ", msg.as_str());
                    Step::Done(Err(PlatformError { message: m }))
                },
                Reply::Json(_) => Step::Done(Err(PlatformError { message: String::new() })),
            },
        }
    }
}

impl DetailFlow {
    /// Starts reading a book's details: asks the catalog API.
    pub fn start(novel_id: &str) -> (r: (DetailFlow, Request))
        ensures
            r.0.novel_id@ == novel_id@,
            r.0.stage is Api,
            r.1 matches Request::Json(u) && u@ == catalog_url_text(novel_id@),
    {
        (DetailFlow { novel_id: novel_id.to_owned(), stage: Stage::Api }, Request::Json(book_catalog_api_url(novel_id)))
    }

    /// Takes the reply to the last request: the details made from the
    /// catalog; when the API fails, the book page is asked for and the
    /// details are made from its table of contents, or the error
    /// "七猫小说页面获取失败: " and the message.
    pub fn on_reply(&mut self, reply: Reply) -> (r: Step<Result<NovelDetail, PlatformError>>)
        requires
            reply_fits(old(self).stage, reply),
        ensures
            final(self).novel_id == old(self).novel_id,
            old(self).stage is Api ==> match reply {
                Reply::Json(Ok(j)) => r matches Step::Done(res) && exists|cs: Seq<crate::model::ChapterRef>|
                    catalog_outcome(j, cs) && #[trigger] detail_outcome(old(self).novel_id@, cs, res),
                _ => (r matches Step::Fetch(Request::Page(u)) && u@ == web_book_url_text(old(self).novel_id@))
                    && final(self).stage is Page,
            },
            old(self).stage is Page ==> match reply {
                Reply::Page(Ok((html, nd))) => r matches Step::Done(res) && exists|cs: Seq<crate::model::ChapterRef>|
                    page_list_outcome(html@, nd, cs) && #[trigger] detail_outcome(old(self).novel_id@, cs, res),
                Reply::Page(Err(msg)) => r matches Step::Done(Err(e)) && e.message@ == "七猫小说页面获取失败: "@ + msg@,
                _ => true,
            },
    {
        match self.stage {
            Stage::Api => match reply {
                Reply::Json(Ok(j)) => {
                    let chapters = chapters_from_catalog(&j);
                    let ghost cs = chapters@;
                    let res = detail_from_chapters(self.novel_id.as_str(), chapters);
                    assert(catalog_outcome(j, cs) && detail_outcome(self.novel_id@, cs, res));
                    Step::Done(res)
                },
                _ => {
                    self.stage = Stage::Page;
                    Step::Fetch(Request::Page(web_book_url(self.novel_id.as_str())))
                },
            },
            Stage::Page => match reply {
                Reply::Page(Ok((html, nd))) => {
                    let chapters = match &nd {
                        Some(v) => parse_chapter_list_from_html(html.as_str(), Some(v)),
                        None => parse_chapter_list_from_html(html.as_str(), None),
                    };
                    let ghost cs = chapters@;
                    let res = detail_from_chapters(self.novel_id.as_str(), chapters);
                    assert(page_list_outcome(html@, nd, cs) && detail_outcome(self.novel_id@, cs, res));
                    Step::Done(res)
                },
                Reply::Page(Err(msg)) => {
                    let m = concat2("七猫小说页面获取失败: ", msg.as_str());
                    Step::Done(Err(PlatformError { message: m }))
                },
                Reply::Json(_) => Step::Done(Err(PlatformError { message: String::new() })),
            },
        }
    }
}

impl ChapterFlow {
    /// Starts fetching a chapter: asks the chapter API.
    pub fn start(novel_id: &str, chapter_id: &str, chapter_title: &str) -> (r: (ChapterFlow, Request))
        ensures
            r.0.novel_id@ == novel_id@,
            r.0.chapter_id@ == chapter_id@,
            r.0.chapter_title@ == chapter_title@,
            r.0.stage is Api,
            r.1 matches Request::Json(u) && u@ == chapter_api_url_text(novel_id@, chapter_id@),
    {
        (
            ChapterFlow {
                novel_id: novel_id.to_owned(),
                chapter_id: chapter_id.to_owned(),
                chapter_title: chapter_title.to_owned(),
                stage: Stage::Api,
            },
            Request::Json(chapter_api_url(novel_id, chapter_id)),
        )
    }

    /// Takes the reply to the last request: the chapter read from the API
    /// reply; when the API fails, the chapter page is asked for and the
    /// chapter is read from it, or marked failed with
    /// "章节页面获取失败: " and the message.
    pub fn on_reply(&mut self, cleaner: &HtmlCleaner, reply: Reply) -> (r: Step<ChapterContent>)
        requires
            reply_fits(old(self).stage, reply),
        ensures
            final(self).novel_id == old(self).novel_id,
            final(self).chapter_id == old(self).chapter_id,
            final(self).chapter_title == old(self).chapter_title,
            old(self).stage is Api ==> match reply {
                Reply::Json(Ok(j)) => r matches Step::Done(c) && api_chapter_outcome(
                    old(self).chapter_id@,
                    old(self).chapter_title@,
                    j,
                    c,
                ),
                _ => (r matches Step::Fetch(Request::Page(u)) && u@ == web_chapter_url_text(
                    old(self).novel_id@,
                    old(self).chapter_id@,
                )) && final(self).stage is Page,
            },
            old(self).stage is Page ==> match reply {
                Reply::Page(Ok((html, nd))) => r matches Step::Done(c) && page_chapter_outcome(
                    old(self).chapter_id@,
                    old(self).chapter_title@,
                    html@,
                    nd,
                    c,
                ),
                Reply::Page(Err(msg)) => r matches Step::Done(c) && chapter_is(
                    c,
                    old(self).chapter_id@,
                    old(self).chapter_title@,
                ) && failed_with(c, "章节页面获取失败: "@ + msg@),
                _ => true,
            },
    {
        match self.stage {
            Stage::Api => match reply {
                Reply::Json(Ok(j)) => Step::Done(
                    chapter_from_api(cleaner, self.chapter_id.as_str(), self.chapter_title.as_str(), &j),
                ),
                _ => {
                    self.stage = Stage::Page;
                    Step::Fetch(Request::Page(web_chapter_url(self.novel_id.as_str(), self.chapter_id.as_str())))
                },
            },
            Stage::Page => match reply {
                Reply::Page(Ok((html, nd))) => {
                    let c = match &nd {
                        Some(v) => chapter_from_page(
                            cleaner,
                            self.chapter_id.as_str(),
                            self.chapter_title.as_str(),
                            html.as_str(),
                            Some(v),
                        ),
                        None => chapter_from_page(
                            cleaner,
                            self.chapter_id.as_str(),
                            self.chapter_title.as_str(),
                            html.as_str(),
                            None,
                        ),
                    };
                    Step::Done(c)
                },
                Reply::Page(Err(msg)) => Step::Done(
                    chapter_page_failed(self.chapter_id.as_str(), self.chapter_title.as_str(), msg.as_str()),
                ),
                Reply::Json(_) => Step::Done(
                    chapter_page_failed(self.chapter_id.as_str(), self.chapter_title.as_str(), ""),
                ),
            },
        }
    }
}

} // verus!
