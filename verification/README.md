# novel_platform

The platform layer of a multi-platform novel downloader (番茄小说, 七猫免费小说),
written in Verus.

- `src/` is the verified library:
  - `model`: the shared data (book ids and their `platform:raw` form, search hits,
    book details, table-of-contents entries, chapters and their state);
  - `platform`: the `NovelPlatform` interface of an adapter;
  - `registry`: the registry of platforms, kept in id order, with lookup, listing and
    searching across platforms;
  - `qimao`, `qimao_flow`: the 七猫 endpoints, how its JSON replies and HTML pages
    become hits, tables of contents and chapter text, and the API-then-web-page flows;
  - `fanqie`: how the 番茄 official client's replies become hits, details and chapters;
  - `scraper`: the JSON text embedded in pages, and page meta tags;
  - `cli`: command-line and search-route decisions (platform lists, keywords, flags);
  - `json`, `text`, `pattern`: a JSON value as the adapters read it, character-level
    text helpers, and regular-expression matching through the `regex` crate.
- `app/` is the command-line program: HTTP requests with `reqwest`, JSON parsing with
  `serde_json`, and the 七猫 adapter that runs the library's flows. It lists platforms and
  searches; `--server` and `--update` end in an error, since the web UI and the download
  pipeline are not part of this crate.
- `app/fanqie.rs` is the 番茄 adapter around the official client crate
  (`tomato_novel_official_api`) and its session configuration. Neither is available to this
  crate and no `official-api` feature is declared, so that file is not built here; the
  library's `fanqie` module holds the verified logic it calls.
- `tests/` exercises the library on concrete inputs.
