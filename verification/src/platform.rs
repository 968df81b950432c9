//! The interface every platform adapter offers.

use vstd::prelude::*;

use crate::model::{ChapterContent, NovelDetail, PlatformError, PlatformId, PlatformMeta, SearchResult};

verus! {

/// One novel platform. The search, detail and chapter operations reach the
/// platform over the network, so nothing is promised about what they return.
pub trait NovelPlatform: Send + Sync {
    /// The platform's unique short id, such as `"fanqie"` or `"qimao"`.
    fn id(&self) -> PlatformId;

    /// The platform's description.
    fn meta(&self) -> &PlatformMeta;

    /// Searches the platform for books matching `keyword`.
    fn search(&self, keyword: &str) -> Result<Vec<SearchResult>, PlatformError>;

    /// A book's metadata and whole table of contents, by the platform's own id.
    fn fetch_detail(&self, novel_id: &str) -> Result<NovelDetail, PlatformError>;

    /// Fetches one chapter; the returned state says whether its text could be
    /// read, is restricted, or could not be fetched.
    fn fetch_chapter(&self, novel_id: &str, chapter_id: &str, chapter_title: &str) -> Result<
        ChapterContent,
        PlatformError,
    >;

    /// Whether the platform is entirely free to read (advertising rather than
    /// a paywall); decides how restricted chapters are explained. A platform
    /// that does not say otherwise is not free.
    fn is_free_platform(&self) -> (r: bool)
        default_ensures
            !r,
    {
        false
    }
}

} // verus!
