use tonic_lnd::ConnectError;
use tonic_lnd::Endpoint;

#[test]
fn parse_accepts_secure_address() {
    let endpoint = Endpoint::parse("https://node.example:10009".to_string()).unwrap();
    assert_eq!(endpoint.uri(), "https://node.example:10009");
}

#[test]
fn parse_accepts_shortest_secure_address() {
    let endpoint = Endpoint::parse("https://x".to_string()).unwrap();
    assert_eq!(endpoint.uri(), "https://x");
}

#[test]
fn parse_rejects_bare_scheme_with_no_destination() {
    let result = Endpoint::parse("https://".to_string());
    assert!(matches!(result, Err(ConnectError::InvalidAddress { .. })));
}

#[test]
fn parse_rejects_empty_address() {
    let result = Endpoint::parse(String::new());
    assert!(matches!(result, Err(ConnectError::InvalidAddress { .. })));
}

#[test]
fn parse_rejects_plain_scheme() {
    let result = Endpoint::parse("http://node.example:10009".to_string());
    match result {
        Err(ConnectError::InvalidAddress { address, cause: _ }) => {
            assert_eq!(address, "http://node.example:10009");
        }
        other => panic!("expected InvalidAddress, got {:?}", other),
    }
}

#[test]
fn parse_is_case_sensitive_about_the_scheme() {
    let result = Endpoint::parse("HTTPS://node.example:10009".to_string());
    assert!(matches!(result, Err(ConnectError::InvalidAddress { .. })));
}
