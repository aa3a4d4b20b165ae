use server_probe::decode::{RawResponse, ServerMetadata, ServerType, TextNode};
use server_probe::endpoint::Endpoint;
use server_probe::error::Error;
use server_probe::probe::{after_primary, after_secondary, probe_secondary, ProbeStep};

fn response() -> RawResponse {
    RawResponse {
        description: TextNode { text: "motd".to_string(), children: Vec::new() },
        version: "1.20".to_string(),
        online_players: 1,
        max_players: 10,
        sample: None,
        favicon: None,
    }
}

fn endpoint() -> Endpoint {
    Endpoint { host: "example.com".to_string(), port: 25565 }
}

/// Runs the fallback chain with the given probers, as a caller does.
fn run(
    primary: impl Fn(&Endpoint) -> Result<RawResponse, Error>,
    secondary: impl Fn(&Endpoint) -> Result<RawResponse, Error>,
) -> Result<ServerMetadata, Error> {
    let e = endpoint();
    match after_primary(primary(&e), 5) {
        ProbeStep::Finished(r) => r,
        ProbeStep::ProbeSecondary(err) => after_secondary(err, secondary(&e), 7),
    }
}

#[test]
fn primary_success_never_asks_secondary() {
    let calls = std::cell::Cell::new(0u32);
    let r = run(|_| Ok(response()), |_| {
        calls.set(calls.get() + 1);
        Ok(response())
    });
    let m = r.unwrap();
    assert_eq!(calls.get(), 0);
    assert_eq!(m.server_type, ServerType::Java);
    assert_eq!(m.latency, 5);
}

#[test]
fn primary_error_wins_over_secondary_error() {
    let r = run(
        |_| Err(Error::ConnectionFailed("A".to_string())),
        |_| Err(Error::ProtocolFailed("B".to_string())),
    );
    assert_eq!(r.unwrap_err(), Error::ConnectionFailed("A".to_string()));
}

#[test]
fn secondary_success_after_primary_failure() {
    let calls = std::cell::Cell::new(0u32);
    let r = run(|_| Err(Error::ConnectionFailed("A".to_string())), |e| {
        calls.set(calls.get() + 1);
        assert_eq!(e, &endpoint());
        Ok(response())
    });
    assert_eq!(calls.get(), 1);
    let m = r.unwrap();
    assert_eq!(m.server_type, ServerType::Bedrock);
    assert_eq!(m.latency, 7);
}

#[test]
fn secondary_family_is_unsupported() {
    assert!(matches!(probe_secondary(&endpoint()), Err(Error::ProtocolFailed(_))));
    let r = run(|_| Err(Error::TransportFailed("io".to_string())), probe_secondary);
    assert_eq!(r.unwrap_err(), Error::TransportFailed("io".to_string()));
}

#[test]
fn error_messages() {
    assert_eq!(Error::ConnectionFailed("x".to_string()).message(), "Failed to connect to server: x");
    assert_eq!(Error::ProtocolFailed("y".to_string()).message(), "Server ping failed: y");
    assert_eq!(Error::TransportFailed("z".to_string()).message(), "z");
}
