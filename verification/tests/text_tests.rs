use novel_platform::cli::{cli_platform_filter, parse_bool_flag, route_platform_filter, search_keyword};
use novel_platform::qimao::{
    book_catalog_api_url, book_info_api_url, chapter_api_url, decode_entities_str, search_api_url,
    urlencoding, web_book_url, web_chapter_url, web_search_url, HtmlCleaner,
};
use novel_platform::text::{replace_str, trim_str};

#[test]
fn urlencoding_keeps_unreserved_ascii() {
    assert_eq!(urlencoding("AZaz09-_.~"), "AZaz09-_.~");
}

#[test]
fn urlencoding_spaces_and_reserved_bytes() {
    assert_eq!(urlencoding("a b"), "a+b");
    assert_eq!(urlencoding("&=/?"), "%26%3D%2F%3F");
    assert_eq!(urlencoding(""), "");
}

#[test]
fn urlencoding_encodes_utf8_bytes() {
    assert_eq!(urlencoding("中"), "%E4%B8%AD");
    assert_eq!(urlencoding("剑来 1"), "%E5%89%91%E6%9D%A5+1");
}

#[test]
fn qimao_endpoints() {
    assert_eq!(
        search_api_url("剑来"),
        "https://api.qimao.com/api/search?keyword=%E5%89%91%E6%9D%A5&page=1&size=20"
    );
    assert_eq!(book_info_api_url("123"), "https://api.qimao.com/api/book/info?book_id=123");
    assert_eq!(
        book_catalog_api_url("123"),
        "https://api.qimao.com/api/book/catalog?book_id=123&page=1&size=5000"
    );
    assert_eq!(
        chapter_api_url("123", "456"),
        "https://api.qimao.com/api/book/chapter?book_id=123&chapter_id=456"
    );
    assert_eq!(web_search_url("a b"), "https://www.qimao.com/search/index/?keyword=a+b");
    assert_eq!(web_book_url("123"), "https://www.qimao.com/shuku/123/");
    assert_eq!(web_chapter_url("123", "ab"), "https://www.qimao.com/shuku/123-ab/");
}

#[test]
fn replace_is_left_to_right_and_non_overlapping() {
    assert_eq!(replace_str("aaaa", "aa", "b"), "bb");
    assert_eq!(replace_str("abcabc", "bc", ""), "aa");
    assert_eq!(replace_str("xyz", "q", "r"), "xyz");
}

#[test]
fn trim_removes_unicode_white_space() {
    assert_eq!(trim_str("\u{3000} 正文\t\n"), "正文");
    assert_eq!(trim_str("   "), "");
}

#[test]
fn entities_are_decoded_in_order() {
    assert_eq!(
        decode_entities_str("&lt;b&gt;&nbsp;&quot;x&quot; &#39;y&#39; &mdash; &ndash; &amp;lt;"),
        "<b> \"x\" 'y' — – &lt;"
    );
}

#[test]
fn strip_html_tags_keeps_text_lines() {
    let cleaner = HtmlCleaner::new().unwrap();
    let html = "<div>\n  <p>第一行</p>\n\n<p>第二行 &amp; 更多</p>\n</div>";
    assert_eq!(cleaner.strip_html_tags(html), "第一行\n第二行 & 更多");
}

#[test]
fn strip_html_tags_breaks_at_br_and_closing_p() {
    let cleaner = HtmlCleaner::new().unwrap();
    assert_eq!(cleaner.strip_html_tags("第一段<br>第二段"), "第一段\n第二段");
    assert_eq!(cleaner.strip_html_tags("<p>第一段</p><p>第二段</p>"), "第一段\n第二段");
    assert_eq!(cleaner.strip_html_tags("甲<br />乙< / p >丙<BR>丁"), "甲\n乙\n丙丁");
    assert_eq!(cleaner.strip_html_tags("  \n\n  "), "");
}

#[test]
fn strip_html_tags_keeps_escaped_tags_as_text() {
    let cleaner = HtmlCleaner::new().unwrap();
    assert_eq!(cleaner.strip_html_tags("甲&lt;br /&gt;乙"), "甲<br />乙");
}

#[test]
fn strip_html_tags_decodes_each_entity_once() {
    let cleaner = HtmlCleaner::new().unwrap();
    assert_eq!(cleaner.strip_html_tags("&amp;quot;"), "&quot;");
    assert_eq!(cleaner.strip_html_tags("&amp;#39;"), "&#39;");
    assert_eq!(decode_entities_str("&amp;mdash; &amp;ndash; &amp;nbsp;"), "&mdash; &ndash; &nbsp;");
}

#[test]
fn bool_flags() {
    assert!(parse_bool_flag("1"));
    assert!(parse_bool_flag(" TRUE "));
    assert!(parse_bool_flag("Yes\n"));
    assert!(parse_bool_flag("on"));
    assert!(!parse_bool_flag("0"));
    assert!(!parse_bool_flag("y"));
    assert!(!parse_bool_flag(""));
}

#[test]
fn cli_platform_list_keeps_empty_pieces() {
    assert_eq!(cli_platform_filter(""), Vec::<String>::new());
    assert_eq!(cli_platform_filter("fanqie, qimao,"), vec!["fanqie", "qimao", ""]);
}

#[test]
fn route_platform_list_drops_empty_pieces() {
    assert_eq!(route_platform_filter(""), Vec::<String>::new());
    assert_eq!(route_platform_filter(" fanqie ,, qimao ,"), vec!["fanqie", "qimao"]);
    assert_eq!(route_platform_filter(" , "), Vec::<String>::new());
}

#[test]
fn search_keyword_is_trimmed() {
    assert_eq!(search_keyword("  剑来 "), Some("剑来".to_string()));
    assert_eq!(search_keyword(" \t "), None);
}
