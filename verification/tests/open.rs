use bookmarks::config::{Config, UrlEntry};
use bookmarks::open::open_targets;

fn config_sample() -> Config {
    let mut c = Config::new();
    c.urls.push(("github".to_string(), UrlEntry { url: "https://github.com".to_string(), aliases: vec!["gh".to_string()] }));
    c.urls.push(("linkedin".to_string(), UrlEntry { url: "https://linkedin.com".to_string(), aliases: vec!["li".to_string()] }));
    c.groups.push(("socials".to_string(), vec!["gh".to_string(), "linkedin".to_string()]));
    c
}

fn names(v: &[&str]) -> Vec<String> {
    v.iter().map(|s| s.to_string()).collect()
}

#[test]
fn opens_names_aliases_and_groups_in_order() {
    let c = config_sample();
    let t = open_targets(&names(&["li", "socials", "github"]), &c).unwrap();
    assert_eq!(t, names(&["https://linkedin.com", "https://github.com", "https://linkedin.com", "https://github.com"]));
    assert!(open_targets(&[], &c).unwrap().is_empty());
}

#[test]
fn unknown_names_and_dangling_entries_are_reported() {
    let mut c = config_sample();
    assert_eq!(open_targets(&names(&["gh", "nope"]), &c).unwrap_err().message(), "not found: nope");
    c.groups.push(("old".to_string(), names(&["gone"])));
    assert_eq!(open_targets(&names(&["old"]), &c).unwrap_err().message(), "not found: gone");
}
