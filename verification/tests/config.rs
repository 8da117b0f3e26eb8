use route_resolver::config::{BindAddress, MAX_PORT};

fn parts(text: &str) -> Option<(String, u16)> {
    BindAddress::parse(text).map(|address| (address.host().to_string(), address.port()))
}

fn address(host: &str, port: u16) -> Option<(String, u16)> {
    Some((host.to_string(), port))
}

#[test]
fn address_is_host_and_port() {
    assert_eq!(parts("127.0.0.1:7878"), address("127.0.0.1", 7878));
    assert_eq!(parts("0.0.0.0:8080"), address("0.0.0.0", 8080));
    assert_eq!(parts("127.0.0.1:3000"), address("127.0.0.1", 3000));
    assert_eq!(parts("localhost:80"), address("localhost", 80));
}

#[test]
fn host_may_hold_colons() {
    assert_eq!(parts("[::1]:8080"), address("[::1]", 8080));
    assert_eq!(parts("a:1:2"), address("a:1", 2));
}

#[test]
fn port_bounds_are_kept() {
    assert_eq!(MAX_PORT, 65535);
    assert_eq!(parts("h:0"), address("h", 0));
    assert_eq!(parts("h:65535"), address("h", 65535));
    assert_eq!(parts("h:00080"), address("h", 80));
    assert_eq!(parts("h:65536"), None);
    assert_eq!(parts("h:99999"), None);
    assert_eq!(parts("h:000080"), None);
    assert_eq!(parts("h:123456"), None);
}

#[test]
fn address_without_host_or_port_is_refused() {
    for text in ["", ":", "h", "h:", ":80", "80", "h:8o", "h:-1", "h:+1", "h: 80", "h:80 ", "h;80"] {
        assert_eq!(BindAddress::parse(text), None);
    }
}

#[test]
fn host_is_taken_as_written() {
    assert_eq!(parts("münchen.example:443"), address("münchen.example", 443));
    assert_eq!(parts("h:٣"), None);
}
