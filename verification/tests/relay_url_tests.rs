use simulcast_mpv::relay_url::{check_relay_url, RelayUrlError};

#[test]
fn websocket_addresses_pass() {
    assert_eq!(check_relay_url(true, Some("ws")), Ok(()));
    assert_eq!(check_relay_url(true, Some("wss")), Ok(()));
}

#[test]
fn an_address_without_host_is_refused_first() {
    assert_eq!(check_relay_url(false, Some("ws")), Err(RelayUrlError::MissingHost));
    assert_eq!(check_relay_url(false, Some("http")), Err(RelayUrlError::MissingHost));
    assert_eq!(check_relay_url(false, None), Err(RelayUrlError::MissingHost));
}

#[test]
fn other_schemes_are_refused() {
    for scheme in ["http", "https", "WS", "wss ", "w", "", "wsss"] {
        assert_eq!(check_relay_url(true, Some(scheme)), Err(RelayUrlError::WrongScheme));
    }
    assert_eq!(check_relay_url(true, None), Err(RelayUrlError::WrongScheme));
}

#[test]
fn addresses_parsed_by_http_are_checked_alike() {
    let cases = [
        ("ws://relay.example.org:30777/", Ok(())),
        ("wss://relay.example.org/", Ok(())),
        ("https://relay.example.org/", Err(RelayUrlError::WrongScheme)),
        ("/only/a/path", Err(RelayUrlError::MissingHost)),
    ];
    for (text, expected) in cases {
        let uri: http::Uri = text.parse().unwrap();
        assert_eq!(check_relay_url(uri.host().is_some(), uri.scheme_str()), expected);
    }
}
