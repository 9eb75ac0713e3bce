use bookmarks::text::text_contains;
use bookmarks::webapp::{health_step, HealthStep, HEALTH_ATTEMPTS};
use bookmarks::config::{Config, UrlEntry};
use bookmarks::render::{group_row, render_content, url_row, SortField};
use bookmarks::webapp::{
    add_group_request, add_url_request, edit_group_request, edit_url_request, index_page,
    modify_response, modify_step, parse_sort, render_state_content, ContentQuery, Edit,
};

/// A configuration store for one test: what loading gives.
struct Store {
    loaded: Result<Config, String>,
}

impl Store {
    fn new() -> Self {
        Store { loaded: Ok(Config::new()) }
    }

    fn broken() -> Self {
        Store { loaded: Err("bad bookmarks.toml".to_string()) }
    }

    /// Loads, edits and saves, then answers with the content as the webapp does.
    fn modify(&mut self, edit: Option<Edit>) -> String {
        let outcome = match edit {
            None => Ok(()),
            Some(edit) => match modify_step(self.loaded.clone(), edit) {
                Ok(config) => {
                    self.loaded = Ok(config);
                    Ok(())
                }
                Err(e) => Err(e),
            },
        };
        modify_response(&outcome, &self.loaded)
    }
}

fn some(s: &str) -> Option<String> {
    Some(s.to_string())
}

#[test]
fn get_index_returns_200_without_external_assets() {
    let body = index_page(&Store::new().loaded, &ContentQuery::default());
    assert!(body.contains("Bookmarks"));
    assert!(!body.contains("https://unpkg"));
    assert!(!body.contains("script src=\"http"));
}

#[test]
fn load_errors_render_without_falling_back_to_empty_config() {
    let body = index_page(&Store::broken().loaded, &ContentQuery::default());
    assert!(body.contains("error-banner"));
    assert!(body.contains("failed to load config: bad bookmarks.toml"));
}

#[test]
fn mutations_do_not_save_when_config_load_fails() {
    let mut store = Store::broken();
    let edit = add_url_request(some("rust"), some("https://rust-lang.org"));
    assert!(edit.is_some());
    let outcome = modify_step(Err("bad bookmarks.toml".to_string()), edit.clone().unwrap());
    assert_eq!(outcome.unwrap_err(), "bad bookmarks.toml");
    let body = store.modify(edit);
    assert!(body.contains("failed to load config: bad bookmarks.toml"));
    assert!(store.loaded.is_err());
}

#[test]
fn get_content_returns_200() {
    let body = render_state_content(&Store::new().loaded, SortField::Name, None);
    assert!(body.contains("no urls yet"));
    assert!(body.contains("no groups yet"));
}

#[test]
fn add_edit_and_delete_url() {
    let mut store = Store::new();
    let body = store.modify(add_url_request(some("rust"), some("https://rust-lang.org")));
    assert!(body.contains("rust"));

    let body = store.modify(Some(edit_url_request("rust".to_string(), some("ferris"), None, some("rs"))));
    assert!(body.contains("ferris"));
    assert!(body.contains("rs"));
    assert!(!body.contains("error-banner"));

    let body = store.modify(Some(Edit::DeleteUrl { name: "ferris".to_string() }));
    assert!(!body.contains("rust-lang.org"));
}

#[test]
fn add_url_empty_fields_is_noop() {
    let mut store = Store::new();
    let edit = add_url_request(some(""), some(""));
    assert!(edit.is_none());
    let body = store.modify(edit);
    assert!(body.contains("no urls yet"));
    assert!(add_url_request(some("rust"), None).is_none());
}

#[test]
fn add_edit_and_delete_group() {
    let mut store = Store::new();
    store.modify(add_url_request(some("gh"), some("https://github.com")));
    store.modify(add_url_request(some("rs"), some("https://rust-lang.org")));

    let body = store.modify(add_group_request(some("dev"), some("gh")));
    assert!(body.contains("dev"));

    let body = store.modify(Some(edit_group_request("dev".to_string(), some("code"), some("gh,rs"))));
    assert!(body.contains("code"));
    assert!(body.contains("rs"));
    assert!(body.contains("title=\"open all 2 urls\""));

    let body = store.modify(Some(Edit::DeleteGroup { name: "code".to_string() }));
    assert!(!body.contains(">code<"));
}

#[test]
fn add_group_with_missing_entries_shows_error() {
    let mut store = Store::new();
    let body = store.modify(add_group_request(some("bad"), some("nonexistent")));
    assert!(body.contains("error-banner"));
    assert!(body.contains("group entries not found: nonexistent"));
    assert!(add_group_request(some("bad"), some(" , ")).is_none());
}

#[test]
fn delete_nonexistent_url_shows_error() {
    let mut store = Store::new();
    let body = store.modify(Some(Edit::DeleteUrl { name: "nope".to_string() }));
    assert!(body.contains("error-banner"));
    assert!(body.contains("url not found: nope"));
}

#[test]
fn sort_by_url() {
    let q = ContentQuery { sort: some("url") };
    assert_eq!(parse_sort(&q), SortField::Url);
    assert_eq!(parse_sort(&ContentQuery { sort: some("name") }), SortField::Name);
    assert_eq!(parse_sort(&ContentQuery::default()), SortField::Name);
    let body = index_page(&Store::new().loaded, &q);
    assert!(body.contains("<h1>Bookmarks</h1>"));
}

fn config_with(urls: &[(&str, &str)]) -> Config {
    let mut c = Config::new();
    for (n, u) in urls {
        c.urls.push((n.to_string(), UrlEntry { url: u.to_string(), aliases: vec![] }));
    }
    c
}

#[test]
fn urls_are_listed_by_name_or_by_url() {
    let c = config_with(&[("b", "https://a.example"), ("a", "https://c.example"), ("c", "https://b.example")]);
    let by_name = render_content(&c, SortField::Name, None);
    let pa = by_name.find("data-name=\"a\"").unwrap();
    let pb = by_name.find("data-name=\"b\"").unwrap();
    let pc = by_name.find("data-name=\"c\"").unwrap();
    assert!(pa < pb && pb < pc);
    assert!(by_name.contains("<th class=\"sortable active\" data-fetch=\"/content?sort=name\">name</th>"));
    let by_url = render_content(&c, SortField::Url, None);
    let pa = by_url.find("data-name=\"a\"").unwrap();
    let pb = by_url.find("data-name=\"b\"").unwrap();
    let pc = by_url.find("data-name=\"c\"").unwrap();
    assert!(pb < pc && pc < pa);
    assert!(by_url.contains("<th class=\"sortable active\" data-fetch=\"/content?sort=url\">url</th>"));
    assert!(by_url.contains("urls<span class=\"counts\">3</span>"));
}

#[test]
fn error_banner_escapes_the_message() {
    let body = render_content(&Config::new(), SortField::Name, Some("<b>"));
    assert!(body.contains("<div class=\"error-banner\" onclick=\"this.remove()\">&lt;b&gt; <span"));
}

#[test]
fn load_error_is_added_to_a_pending_error() {
    let body = render_state_content(&Err("io".to_string()), SortField::Name, Some("oops"));
    assert!(body.contains("oops; failed to load config: io"));
}

#[test]
fn url_row_shows_name_url_and_aliases() {
    let e = UrlEntry { url: "https://github.com".to_string(), aliases: vec!["gh".to_string(), "hub".to_string()] };
    let row = url_row("github", &e);
    assert!(row.starts_with("<tr data-filter=\"github https://github.com gh hub\">"));
    assert!(row.contains("<span style=\"color:#a640f2;font-size:0.8rem\">gh, hub</span>"));
    assert!(row.contains("startEdit(event,'url',&quot;github&quot;,'aliases',&quot;gh, hub&quot;)"));
    let bare = url_row("x", &UrlEntry { url: "https://x.io".to_string(), aliases: vec![] });
    assert!(bare.contains("+ aliases</span>"));
}

#[test]
fn group_row_links_known_entries_only() {
    let c = config_with(&[("gh", "https://github.com")]);
    let row = group_row("dev", &["gh".to_string(), "zz".to_string()], &c);
    assert!(row.contains("onclick=\"openGroup([&quot;https://github.com&quot;]);return false;\" title=\"open all 1 urls\">dev</a>"));
    assert!(row.contains(">gh</a>, zz</td>"));
    let none = group_row("empty", &["zz".to_string()], &c);
    assert!(none.contains("ondblclick=\"startEdit(event,'group',&quot;empty&quot;,'name',&quot;empty&quot;)\">empty</td>"));
}

#[test]
fn health_steps_follow_the_reply_and_the_attempt() {
    let up = "HTTP/1.1 200 OK\r\n\r\n{\"status\":\"ok\",\"app\":\"bookmarks-webapp\"}";
    assert_eq!(health_step(0, Some(up)), HealthStep::Ready);
    assert_eq!(health_step(HEALTH_ATTEMPTS - 1, Some(up)), HealthStep::Ready);
    assert_eq!(health_step(0, None), HealthStep::Retry);
    assert_eq!(health_step(0, Some("{\"status\":\"starting\"}")), HealthStep::Retry);
    assert_eq!(health_step(48, None), HealthStep::Retry);
    assert_eq!(health_step(49, None), HealthStep::GiveUp);
    assert_eq!(health_step(49, Some("")), HealthStep::GiveUp);
    assert_eq!(HEALTH_ATTEMPTS, 50);
}

#[test]
fn text_contains_finds_parts() {
    assert!(text_contains("abc", ""));
    assert!(text_contains("", ""));
    assert!(text_contains("abcabd", "abd"));
    assert!(text_contains("ünï", "nï"));
    assert!(!text_contains("ab", "abc"));
    assert!(!text_contains("abcabc", "abd"));
    assert!(!text_contains("", "a"));
}
