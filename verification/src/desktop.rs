//! The desktop shell's decisions about where a navigation goes: urls of the
//! local webapp stay in the window; others open in the system's browser,
//! unless their scheme is one that must not be handed out.

use vstd::prelude::*;

use crate::order::str_eq;

verus! {

/// An IP address, as its bits in network order (`0x7f000001` is `127.0.0.1`).
#[derive(Clone, Copy, Debug, PartialEq, Eq, Structural)]
pub enum IpAddress {
    V4(u32),
    V6(u128),
}

/// An IP address and a port.
#[derive(Clone, Copy, Debug, PartialEq, Eq, Structural)]
pub struct SocketAddress {
    pub ip: IpAddress,
    pub port: u16,
}

/// What the shell reads of a url: its scheme, its host (and that host as an
/// IP address when it is one) and its port, or the scheme's default port.
#[derive(Clone, Debug)]
pub struct UrlParts {
    pub scheme: String,
    pub host: Option<String>,
    pub host_ip: Option<IpAddress>,
    pub port: Option<u16>,
}

/// The loopback addresses: `127.0.0.0/8` and `::1`.
pub open spec fn is_loopback_spec(ip: IpAddress) -> bool {
    match ip {
        IpAddress::V4(bits) => bits / 0x100_0000 == 127,
        IpAddress::V6(bits) => bits == 1,
    }
}

/// Whether an address is a loopback address.
pub fn is_loopback(ip: IpAddress) -> (r: bool)
    ensures
        r == is_loopback_spec(ip),
{
    match ip {
        IpAddress::V4(bits) => bits / 0x100_0000 == 127,
        IpAddress::V6(bits) => bits == 1,
    }
}

/// The address the webapp listens on by default: `127.0.0.1:1414`.
pub fn default_webapp_addr() -> (r: SocketAddress)
    ensures
        r.ip == IpAddress::V4(0x7f00_0001),
        r.port == 1414,
{
    SocketAddress { ip: IpAddress::V4(0x7f00_0001), port: 1414 }
}

/// A url belongs to the local webapp at `addr` when it is `http`, its host is
/// `localhost` (and `addr` is a loopback address) or the address itself, and
/// its port is the address's port.
pub open spec fn is_local_webapp_url_spec(url: &UrlParts, addr: SocketAddress) -> bool {
    let host_matches = match url.host {
        Some(h) => if h@ == "localhost"@ {
            is_loopback_spec(addr.ip)
        } else {
            url.host_ip == Some(addr.ip)
        },
        None => false,
    };
    url.scheme@ == "http"@ && host_matches && url.port == Some(addr.port)
}

/// Whether a url belongs to the local webapp at `addr`.
pub fn is_local_webapp_url(url: &UrlParts, addr: SocketAddress) -> (r: bool)
    ensures
        r == is_local_webapp_url_spec(url, addr),
{
    let host_matches = match &url.host {
        Some(h) => if str_eq(h.as_str(), "localhost") {
            is_loopback(addr.ip)
        } else {
            match url.host_ip {
                Some(ip) => ip == addr.ip,
                None => false,
            }
        },
        None => false,
    };
    let port_matches = match url.port {
        Some(p) => p == addr.port,
        None => false,
    };
    str_eq(url.scheme.as_str(), "http") && host_matches && port_matches
}

/// The schemes that are never handed to the system: pages and data of the
/// window itself, and script.
pub open spec fn is_internal_scheme(scheme: Seq<char>) -> bool {
    ||| scheme == "about"@
    ||| scheme == "blob"@
    ||| scheme == "data"@
    ||| scheme == "javascript"@
    ||| scheme == "tauri"@
    ||| scheme == "asset"@
}

/// Whether a url may be opened in the system's browser or handler.
pub fn should_open_externally(url: &UrlParts) -> (r: bool)
    ensures
        r == !is_internal_scheme(url.scheme@),
{
    let s = url.scheme.as_str();
    !(str_eq(s, "about") || str_eq(s, "blob") || str_eq(s, "data") || str_eq(s, "javascript")
        || str_eq(s, "tauri") || str_eq(s, "asset"))
}

} // verus!
