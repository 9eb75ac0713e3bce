use bookmarks::desktop::{
    default_webapp_addr, is_local_webapp_url, is_loopback, should_open_externally, IpAddress,
    SocketAddress, UrlParts,
};

const LOOPBACK_V4: u32 = 0x7f00_0001;

fn addr_1414() -> SocketAddress {
    SocketAddress { ip: IpAddress::V4(LOOPBACK_V4), port: 1414 }
}

fn url(scheme: &str, host: Option<&str>, host_ip: Option<IpAddress>, port: Option<u16>) -> UrlParts {
    UrlParts {
        scheme: scheme.to_string(),
        host: host.map(|h| h.to_string()),
        host_ip,
        port,
    }
}

#[test]
fn local_webapp_url_matches_loopback_addr() {
    // http://127.0.0.1:1414/content
    let addr = addr_1414();
    let u = url("http", Some("127.0.0.1"), Some(IpAddress::V4(LOOPBACK_V4)), Some(1414));
    assert!(is_local_webapp_url(&u, addr));
}

#[test]
fn localhost_matches_loopback_addr() {
    // http://localhost:1414/content
    let addr = addr_1414();
    let u = url("http", Some("localhost"), None, Some(1414));
    assert!(is_local_webapp_url(&u, addr));
}

#[test]
fn external_urls_are_not_local_webapp_urls() {
    // https://github.com/dkdc-io/bookmarks
    let addr = addr_1414();
    let u = url("https", Some("github.com"), None, Some(443));
    assert!(!is_local_webapp_url(&u, addr));
}

#[test]
fn custom_url_schemes_open_externally() {
    // mailto:cody@dkdc.io and obsidian://open?vault=notes
    let mailto = url("mailto", None, None, None);
    let obsidian = url("obsidian", Some("open"), None, None);
    assert!(should_open_externally(&mailto));
    assert!(should_open_externally(&obsidian));
}

#[test]
fn script_like_url_schemes_do_not_open_externally() {
    // javascript:alert(1) and data:text/html,<h1>x</h1>
    let javascript = url("javascript", None, None, None);
    let data = url("data", None, None, None);
    assert!(!should_open_externally(&javascript));
    assert!(!should_open_externally(&data));
}

#[test]
fn other_internal_schemes_stay_in_the_window() {
    for scheme in ["about", "blob", "tauri", "asset"] {
        assert!(!should_open_externally(&url(scheme, None, None, None)));
    }
    assert!(should_open_externally(&url("https", Some("example.com"), None, Some(443))));
}

#[test]
fn local_url_needs_http_scheme_and_port() {
    let addr = addr_1414();
    let https = url("https", Some("localhost"), None, Some(1414));
    assert!(!is_local_webapp_url(&https, addr));
    let other_port = url("http", Some("localhost"), None, Some(8080));
    assert!(!is_local_webapp_url(&other_port, addr));
    let no_host = url("http", None, None, Some(1414));
    assert!(!is_local_webapp_url(&no_host, addr));
    let other_ip = url("http", Some("10.0.0.1"), Some(IpAddress::V4(0x0a00_0001)), Some(1414));
    assert!(!is_local_webapp_url(&other_ip, addr));
}

#[test]
fn localhost_needs_a_loopback_addr() {
    let addr = SocketAddress { ip: IpAddress::V4(0x0a00_0001), port: 1414 };
    let u = url("http", Some("localhost"), None, Some(1414));
    assert!(!is_local_webapp_url(&u, addr));
}

#[test]
fn loopback_addresses() {
    assert!(is_loopback(IpAddress::V4(LOOPBACK_V4)));
    assert!(is_loopback(IpAddress::V4(0x7fff_ffff)));
    assert!(!is_loopback(IpAddress::V4(0x0a00_0001)));
    assert!(is_loopback(IpAddress::V6(1)));
    assert!(!is_loopback(IpAddress::V6(0)));
}

#[test]
fn default_webapp_addr_is_loopback_1414() {
    let a = default_webapp_addr();
    assert_eq!(a.ip, IpAddress::V4(LOOPBACK_V4));
    assert_eq!(a.port, 1414);
}
