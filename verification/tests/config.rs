use bookmarks::config::{resolve_uri, Config, ConfigError, UrlEntry};

fn entry(url: &str, aliases: &[&str]) -> UrlEntry {
    UrlEntry { url: url.to_string(), aliases: aliases.iter().map(|a| a.to_string()).collect() }
}

fn sample() -> Config {
    let mut c = Config::new();
    c.urls.push(("github".to_string(), entry("https://github.com", &["gh"])));
    c.urls.push(("linkedin".to_string(), entry("https://linkedin.com", &["li"])));
    c.groups.push(("socials".to_string(), vec!["gh".to_string(), "linkedin".to_string()]));
    c
}

fn strings(v: &[&str]) -> Vec<String> {
    v.iter().map(|s| s.to_string()).collect()
}

#[test]
fn resolves_names_then_aliases() {
    let c = sample();
    assert_eq!(resolve_uri("github", &c).unwrap(), "https://github.com");
    assert_eq!(resolve_uri("gh", &c).unwrap(), "https://github.com");
    assert_eq!(resolve_uri("li", &c).unwrap(), "https://linkedin.com");
    let e = resolve_uri("socials", &c).unwrap_err();
    assert_eq!(e.message(), "not found: socials");
}

#[test]
fn a_name_wins_over_an_alias() {
    let mut c = sample();
    c.urls.push(("gh".to_string(), entry("https://gh.example", &[])));
    assert_eq!(resolve_uri("gh", &c).unwrap(), "https://gh.example");
}

#[test]
fn upsert_url_adds_then_updates_keeping_aliases() {
    let mut c = sample();
    c.upsert_url("rust".to_string(), "https://rust-lang.org".to_string());
    assert_eq!(c.urls.len(), 3);
    assert_eq!(resolve_uri("rust", &c).unwrap(), "https://rust-lang.org");
    c.upsert_url("github".to_string(), "https://github.com/dkdc-io".to_string());
    assert_eq!(c.urls.len(), 3);
    assert_eq!(c.urls[0].1.url(), "https://github.com/dkdc-io");
    assert_eq!(c.urls[0].1.aliases(), &strings(&["gh"]));
}

#[test]
fn groups_need_known_entries() {
    let mut c = sample();
    let e = c.upsert_group("dev".to_string(), strings(&["gh", "nope", "zz"])).unwrap_err();
    assert!(matches!(e, ConfigError::EntriesMissing(_)));
    assert_eq!(e.message(), "group entries not found: nope, zz");
    assert_eq!(c.groups.len(), 1);
    c.upsert_group("dev".to_string(), strings(&["gh", "li"])).unwrap();
    assert_eq!(c.groups.len(), 2);
    c.upsert_group("dev".to_string(), strings(&["github"])).unwrap();
    assert_eq!(c.groups.len(), 2);
    assert_eq!(c.groups[1].1, strings(&["github"]));
    assert!(c.validate_group_entries(&strings(&["gh", "linkedin"])).is_ok());
    assert_eq!(c.missing_entries(&strings(&["x", "gh", "y"])), strings(&["x", "y"]));
}

#[test]
fn deletes_report_unknown_names() {
    let mut c = sample();
    assert_eq!(c.delete_url("nope").unwrap_err().message(), "url not found: nope");
    assert_eq!(c.delete_group("nope").unwrap_err().message(), "group not found: nope");
    c.delete_url("github").unwrap();
    assert_eq!(c.urls.len(), 1);
    assert!(resolve_uri("github", &c).is_err());
    c.delete_group("socials").unwrap();
    assert!(c.groups.is_empty());
}

#[test]
fn renames_refuse_taken_names() {
    let mut c = sample();
    assert_eq!(c.rename_url("github", "linkedin").unwrap_err().message(), "url already exists: linkedin");
    assert_eq!(c.rename_url("nope", "x").unwrap_err().message(), "url not found: nope");
    c.rename_url("github", "hub").unwrap();
    assert_eq!(resolve_uri("hub", &c).unwrap(), "https://github.com");
    assert_eq!(resolve_uri("gh", &c).unwrap(), "https://github.com");
    assert!(resolve_uri("github", &c).is_err());
    c.groups.push(("work".to_string(), strings(&["li"])));
    assert_eq!(c.rename_group("socials", "work").unwrap_err().message(), "group already exists: work");
    assert_eq!(c.rename_group("nope", "x").unwrap_err().message(), "group not found: nope");
    c.rename_group("socials", "social").unwrap();
    assert_eq!(c.groups[0].0, "social");
}

#[test]
fn sets_fields_of_existing_items() {
    let mut c = sample();
    c.set_url_value("github", "https://github.com/x".to_string()).unwrap();
    assert_eq!(c.urls[0].1.url, "https://github.com/x");
    c.set_url_aliases("github", strings(&["g", "hub"])).unwrap();
    assert_eq!(resolve_uri("hub", &c).unwrap(), "https://github.com/x");
    assert!(resolve_uri("gh", &c).is_err());
    assert_eq!(c.set_url_value("nope", String::new()).unwrap_err().message(), "url not found: nope");
    assert_eq!(c.set_url_aliases("nope", vec![]).unwrap_err().message(), "url not found: nope");
    c.set_group_entries("socials", strings(&["li"])).unwrap();
    assert_eq!(c.groups[0].1, strings(&["li"]));
    assert_eq!(c.set_group_entries("nope", vec![]).unwrap_err().message(), "group not found: nope");
}

#[test]
fn parse_list_is_a_config_function() {
    assert_eq!(Config::parse_list("a, b"), strings(&["a", "b"]));
    assert!(Config::default().urls.is_empty());
}
