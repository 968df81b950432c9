//! Platform layer of a multi-platform novel downloader: shared data model,
//! platform registry, and the text, URL and page handling of the adapters.

pub mod text;
pub mod json;
pub mod model;
pub mod platform;
pub mod registry;
pub mod pattern;
pub mod qimao;
pub mod qimao_flow;
pub mod scraper;
pub mod cli;
pub mod fanqie;
