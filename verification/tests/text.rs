use bookmarks::html::{copy_btn, js_attr_string, linked_name, page, PAGE_0};
use bookmarks::order::{sorted_order, str_eq, str_le};
use bookmarks::strings::err_group_entries_missing;
use bookmarks::text::{decimal, escape, join_strings, join_strs, parse_list, trim};

#[test]
fn js_attribute_strings_are_json_literals_and_html_escaped() {
    let literal = js_attr_string("a&b\"c'd<e>");
    assert!(literal.starts_with("&quot;"));
    assert!(literal.ends_with("&quot;"));
    assert!(literal.contains("&amp;"));
    assert!(literal.contains("\\&quot;"));
    assert!(!literal.contains('"'));
    assert!(!literal.contains('<'));
}

#[test]
fn js_attribute_string_of_plain_text() {
    assert_eq!(js_attr_string("a"), "&quot;a&quot;");
    assert_eq!(js_attr_string(""), "&quot;&quot;");
    assert_eq!(js_attr_string("x\ny"), "&quot;x\\ny&quot;");
}

#[test]
fn escape_replaces_the_four_html_characters() {
    assert_eq!(escape("a&b<c>d\"e'f"), "a&amp;b&lt;c&gt;d&quot;e'f");
    assert_eq!(escape(""), "");
    assert_eq!(escape("&amp;"), "&amp;amp;");
    assert_eq!(escape("plain"), "plain");
}

#[test]
fn escaped_text_has_no_markup_characters() {
    let e = escape("<script>alert(\"x\")</script>");
    assert!(!e.contains('<') && !e.contains('>') && !e.contains('"'));
}

#[test]
fn group_entries_missing_message() {
    assert_eq!(err_group_entries_missing(&["a", "b"]), "group entries not found: a, b");
    assert_eq!(err_group_entries_missing(&["nonexistent"]), "group entries not found: nonexistent");
    assert_eq!(err_group_entries_missing(&[]), "group entries not found: ");
}

#[test]
fn joins() {
    let v = vec!["x".to_string(), "y".to_string(), "z".to_string()];
    assert_eq!(join_strings(&v, ", "), "x, y, z");
    assert_eq!(join_strings(&[], ", "), "");
    assert_eq!(join_strs(&["one"], ","), "one");
}

#[test]
fn decimal_numbers() {
    assert_eq!(decimal(0), "0");
    assert_eq!(decimal(7), "7");
    assert_eq!(decimal(10), "10");
    assert_eq!(decimal(1414), "1414");
    assert_eq!(decimal(usize::MAX), usize::MAX.to_string());
}

#[test]
fn trims_white_space() {
    assert_eq!(trim("  a b \t\n"), "a b");
    assert_eq!(trim("\u{3000}x\u{a0}"), "x");
    assert_eq!(trim("   "), "");
    assert_eq!(trim(""), "");
}

#[test]
fn parses_comma_separated_lists() {
    assert_eq!(parse_list("gh,rs"), vec!["gh", "rs"]);
    assert_eq!(parse_list("gh, rs , ,li,"), vec!["gh", "rs", "li"]);
    assert_eq!(parse_list(""), Vec::<String>::new());
    assert_eq!(parse_list(" , "), Vec::<String>::new());
    assert_eq!(parse_list("rs"), vec!["rs"]);
}

#[test]
fn parse_list_gives_back_joined_items() {
    let items = vec!["gh".to_string(), "rust lang".to_string(), "li".to_string()];
    let joined = join_strings(&items, ", ");
    assert_eq!(parse_list(&joined), items);
}

#[test]
fn compares_texts() {
    assert!(str_eq("abc", "abc"));
    assert!(!str_eq("abc", "abd"));
    assert!(!str_eq("ab", "abc"));
    assert!(str_le("ab", "abc"));
    assert!(str_le("abc", "abd"));
    assert!(!str_le("b", "abc"));
    assert!(str_le("", ""));
    assert!(str_le("Z", "a"));
}

#[test]
fn sorts_stably_by_key() {
    let keys = vec!["rs", "gh", "li", "gh"];
    assert_eq!(sorted_order(&keys), vec![1, 3, 2, 0]);
    assert_eq!(sorted_order(&vec![]), Vec::<usize>::new());
}

#[test]
fn links_and_buttons() {
    assert_eq!(
        linked_name("a<b", "https://x.io/?a=1&b=2"),
        "<a href=\"https://x.io/?a=1&amp;b=2\" target=\"_blank\" rel=\"noopener\" title=\"https://x.io/?a=1&amp;b=2\">a&lt;b</a>"
    );
    let b = copy_btn("https://x.io");
    assert!(b.starts_with("<button class=\"copy-btn\" onclick=\"copyUrl(this,&quot;https://x.io&quot;)\""));
    assert!(b.ends_with("</svg></button>"));
}

#[test]
fn page_wraps_the_body() {
    let p = page("<p>hello</p>");
    assert!(p.starts_with(PAGE_0));
    assert!(p.contains("<div id=\"content\">\n    <p>hello</p>\n  </div>"));
    assert!(p.contains("<h1>Bookmarks</h1>"));
    assert!(p.contains("href=\"https://dkdc.io/bookmarks/\""));
    assert!(p.ends_with("</script>\n</body>\n</html>"));
}

fn html_unescape(t: &str) -> String {
    t.replace("&quot;", "\"").replace("&gt;", ">").replace("&lt;", "<").replace("&amp;", "&")
}

#[test]
fn js_attribute_string_escapes_control_characters() {
    assert_eq!(js_attr_string("\u{1}\u{1f}"), "&quot;\\u0001\\u001f&quot;");
    assert_eq!(js_attr_string("a\\b\t\r\u{8}\u{c}"), "&quot;a\\\\b\\t\\r\\b\\f&quot;");
    assert_eq!(js_attr_string("é/\u{7f}"), "&quot;é/\u{7f}&quot;");
}

#[test]
fn js_attribute_string_reads_back_as_the_text() {
    for s in ["", "a&b\"c'd<e>", "x\ny\u{1}", "&quot;\\\"", "ünïcödé ✓ 𝄞"] {
        let back: String = serde_json::from_str(&html_unescape(&js_attr_string(s))).unwrap();
        assert_eq!(back, s);
    }
}

#[test]
fn escaping_is_undone_by_unescaping() {
    for s in ["", "a&b<c>d\"e'f", "&amp;lt;", "&&<<>>\"\"", "plain"] {
        assert_eq!(html_unescape(&escape(s)), s);
    }
}
