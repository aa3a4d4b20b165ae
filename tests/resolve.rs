use server_probe::endpoint::{
    discovery_name, parse_port_str, resolve, resolve_without_lookup, split_host_port, Endpoint,
    DEFAULT_PORT,
};

fn ep(host: &str, port: u16) -> Endpoint {
    Endpoint { host: host.to_string(), port }
}

#[test]
fn explicit_port_overrides_embedded_port() {
    let r = resolve("example.com:1234", Some(5678), &Vec::new());
    assert_eq!(r, ep("example.com:1234", 5678));
}

#[test]
fn embedded_port_without_override() {
    let r = resolve("example.com:25566", None, &Vec::new());
    assert_eq!(r, ep("example.com", 25566));
}

#[test]
fn no_signal_and_no_record_uses_default_port() {
    let r = resolve("example.com", None, &Vec::new());
    assert_eq!(r, ep("example.com", 25565));
    assert_eq!(DEFAULT_PORT, 25565);
}

#[test]
fn discovery_record_is_used() {
    let candidates = vec![ep("10.0.0.5", 30000)];
    let r = resolve("example.com", None, &candidates);
    assert_eq!(r, ep("10.0.0.5", 30000));
}

#[test]
fn first_discovery_candidate_wins() {
    let candidates = vec![ep("10.0.0.5", 30000), ep("10.0.0.6", 30001)];
    assert_eq!(resolve("example.com", None, &candidates), ep("10.0.0.5", 30000));
}

#[test]
fn discovery_not_used_when_port_is_known() {
    let candidates = vec![ep("10.0.0.5", 30000)];
    assert_eq!(resolve("example.com:1", None, &candidates), ep("example.com", 1));
    assert_eq!(resolve("example.com", Some(7), &candidates), ep("example.com", 7));
}

#[test]
fn resolving_twice_gives_the_same_endpoint() {
    let candidates = vec![ep("10.0.0.5", 30000)];
    for (addr, port) in [("example.com:1234", Some(5678)), ("example.com:25566", None), ("example.com", None)] {
        let a = resolve(addr, port, &candidates);
        let b = resolve(addr, port, &candidates);
        assert_eq!(a, b);
    }
}

#[test]
fn lookup_needed_only_without_port() {
    assert_eq!(resolve_without_lookup("example.com", None), None);
    assert_eq!(resolve_without_lookup("example.com", Some(1)), Some(ep("example.com", 1)));
    assert_eq!(resolve_without_lookup("a:b:80", None), Some(ep("a:b", 80)));
}

#[test]
fn discovery_name_has_service_prefix() {
    assert_eq!(discovery_name("example.com"), "_minecraft._tcp.example.com");
}

#[test]
fn port_syntax() {
    assert_eq!(parse_port_str("25565"), Some(25565));
    assert_eq!(parse_port_str("+80"), Some(80));
    assert_eq!(parse_port_str("0"), Some(0));
    assert_eq!(parse_port_str("00065535"), Some(65535));
    assert_eq!(parse_port_str("65536"), None);
    assert_eq!(parse_port_str("999999999999"), None);
    assert_eq!(parse_port_str(""), None);
    assert_eq!(parse_port_str("+"), None);
    assert_eq!(parse_port_str("-1"), None);
    assert_eq!(parse_port_str("8a"), None);
}

#[test]
fn invalid_embedded_port_is_not_split() {
    assert_eq!(split_host_port("example.com:abc"), None);
    assert_eq!(split_host_port("example.com:70000"), None);
    assert_eq!(split_host_port("example.com:"), None);
    assert_eq!(resolve("example.com:abc", None, &Vec::new()), ep("example.com:abc", 25565));
}
