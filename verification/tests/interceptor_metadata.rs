use tonic_lnd::EncodingError;
use tonic_lnd::MacaroonInterceptor;
use tonic_lnd::RequestMetadata;
use tonic_lnd::macaroon_key;

#[test]
fn fixed_key_is_macaroon() {
    assert_eq!(macaroon_key(), "macaroon");
}

#[test]
fn call_sets_credential_on_fresh_request() {
    let interceptor = MacaroonInterceptor::new("010203".to_string());
    let request = interceptor.call(RequestMetadata::new()).unwrap();
    assert_eq!(request.macaroon_value(), Some(&"010203".to_string()));
}

#[test]
fn call_overwrites_prior_value() {
    let interceptor = MacaroonInterceptor::new("010203".to_string());
    let mut stale = RequestMetadata::new();
    stale.insert("macaroon".to_string(), "someone-elses-token".to_string());
    let request = interceptor.call(stale).unwrap();
    assert_eq!(request.macaroon_value(), Some(&"010203".to_string()));
}

#[test]
fn call_leaves_other_metadata_untouched() {
    let interceptor = MacaroonInterceptor::new("010203".to_string());
    let mut request = RequestMetadata::new();
    request.insert("grpc-timeout".to_string(), "5S".to_string());
    request.insert("macaroon".to_string(), "stale".to_string());
    request.insert("user-agent".to_string(), "node-client".to_string());
    let stamped = interceptor.call(request).unwrap();
    assert_eq!(stamped.macaroon_value(), Some(&"010203".to_string()));
    assert_eq!(stamped.get(&"grpc-timeout".to_string()), Some(&"5S".to_string()));
    assert_eq!(stamped.get(&"user-agent".to_string()), Some(&"node-client".to_string()));
    assert_eq!(stamped.get(&"absent".to_string()), None);
}

#[test]
fn insert_overwrites_by_key() {
    let mut request = RequestMetadata::new();
    request.insert("k".to_string(), "one".to_string());
    request.insert("k".to_string(), "two".to_string());
    assert_eq!(request.get(&"k".to_string()), Some(&"two".to_string()));
}

#[test]
fn fresh_request_has_no_credential() {
    assert_eq!(RequestMetadata::new().macaroon_value(), None);
}

#[test]
fn call_rejects_credential_with_illegal_character() {
    let interceptor = MacaroonInterceptor::new("bad\u{7}token".to_string());
    assert_eq!(interceptor.call(RequestMetadata::new()), Err(EncodingError));
}

#[test]
fn call_accepts_horizontal_tab() {
    let interceptor = MacaroonInterceptor::new("a\tb".to_string());
    let request = interceptor.call(RequestMetadata::new()).unwrap();
    assert_eq!(request.macaroon_value(), Some(&"a\tb".to_string()));
}

#[test]
fn call_rejects_delete_character() {
    let interceptor = MacaroonInterceptor::new("a\u{7f}b".to_string());
    assert_eq!(interceptor.call(RequestMetadata::new()), Err(EncodingError));
}

#[test]
fn call_accepts_character_above_ascii() {
    let interceptor = MacaroonInterceptor::new("caf\u{e9}".to_string());
    let request = interceptor.call(RequestMetadata::new()).unwrap();
    assert_eq!(request.macaroon_value(), Some(&"caf\u{e9}".to_string()));
}

#[test]
fn many_in_flight_requests_leave_credential_intact() {
    let interceptor = MacaroonInterceptor::new("00ff10ab".to_string());
    let mut i: usize = 0;
    while i < 100 {
        let request = interceptor.call(RequestMetadata::new()).unwrap();
        assert_eq!(request.macaroon_value(), Some(&"00ff10ab".to_string()));
        i += 1;
    }
    assert_eq!(interceptor.macaroon(), "00ff10ab");
}
