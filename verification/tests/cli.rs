use bookmarks::cli::config_lines;
use bookmarks::config::{Config, UrlEntry};
use bookmarks::cli::{cli_action, resolve_storage, Args, CliAction, ResolveError, StorageChoice};

fn args(app: bool, webapp: bool, config: bool, urls: &[&str]) -> Args {
    Args {
        bookmarks_file: None,
        global: false,
        local: false,
        config,
        app,
        webapp,
        urls: urls.iter().map(|s| s.to_string()).collect(),
    }
}

#[test]
fn explicit_file_must_exist() {
    match resolve_storage(Some("b.toml".to_string()), true, false, false, None, false) {
        Ok(StorageChoice::Explicit(p)) => assert_eq!(p, "b.toml"),
        other => panic!("unexpected {:?}", other),
    }
    match resolve_storage(Some("b.toml".to_string()), false, false, false, None, false) {
        Err(e) => {
            assert!(matches!(e, ResolveError::FileNotFound(_)));
            assert_eq!(e.message(), "bookmarks file not found: b.toml");
        }
        other => panic!("unexpected {:?}", other),
    }
}

#[test]
fn local_flag_uses_current_directory() {
    let cwd = Some("./bookmarks.toml".to_string());
    match resolve_storage(None, false, false, true, cwd, false) {
        Ok(StorageChoice::Local(p)) => assert_eq!(p, "./bookmarks.toml"),
        other => panic!("unexpected {:?}", other),
    }
    match resolve_storage(None, false, false, true, None, false) {
        Err(e) => assert_eq!(e.message(), "failed to get current directory"),
        other => panic!("unexpected {:?}", other),
    }
}

#[test]
fn existing_local_file_wins_unless_global() {
    let cwd = Some("./bookmarks.toml".to_string());
    match resolve_storage(None, false, false, false, cwd.clone(), true) {
        Ok(StorageChoice::Cwd(p)) => assert_eq!(p, "./bookmarks.toml"),
        other => panic!("unexpected {:?}", other),
    }
    assert!(matches!(
        resolve_storage(None, false, true, false, cwd.clone(), true),
        Ok(StorageChoice::Global)
    ));
    assert!(matches!(
        resolve_storage(None, false, false, false, cwd, false),
        Ok(StorageChoice::Global)
    ));
}

#[test]
fn actions_in_order_of_precedence() {
    assert!(matches!(cli_action(&args(true, true, true, &["gh"])), CliAction::App));
    assert!(matches!(cli_action(&args(false, true, true, &["gh"])), CliAction::Webapp));
    assert!(matches!(cli_action(&args(false, false, true, &["gh"])), CliAction::EditConfig));
    assert!(matches!(cli_action(&args(false, false, false, &[])), CliAction::PrintConfig));
    assert!(matches!(cli_action(&args(false, false, false, &["gh", "li"])), CliAction::OpenLinks));
}

#[test]
fn config_lines_list_urls_then_groups() {
    let mut config = Config::new();
    config.urls.push((
        "github".to_string(),
        UrlEntry { url: "https://github.com".to_string(), aliases: vec!["gh".to_string(), "hub".to_string()] },
    ));
    config.urls.push((
        "docs".to_string(),
        UrlEntry { url: "https://docs.rs".to_string(), aliases: vec![] },
    ));
    config.groups.push(("dev".to_string(), vec!["gh".to_string(), "docs".to_string()]));
    config.groups.push(("none".to_string(), vec![]));
    assert_eq!(
        config_lines(&config),
        vec![
            "github (gh, hub): https://github.com".to_string(),
            "docs: https://docs.rs".to_string(),
            "dev: [gh, docs]".to_string(),
            "none: []".to_string(),
        ]
    );
    assert!(config_lines(&Config::new()).is_empty());
}
