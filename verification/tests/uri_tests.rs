use mayastor::status::NexusBdevError;
use mayastor::uri::parse_child_uri;

#[test]
fn parse_local_and_shared_uris() {
    match parse_child_uri(&String::from("loopback:///U")) {
        Ok(t) => {
            assert!(!t.shared);
            assert_eq!(t.uuid, "U");
        },
        Err(_) => panic!("loopback URI must parse"),
    }
    match parse_child_uri(&String::from("nvmf://127.0.0.1:8420/nqn-2019-05:repl1")) {
        Ok(t) => {
            assert!(t.shared);
            assert_eq!(t.uuid, "repl1");
        },
        Err(_) => panic!("nvmf URI must parse"),
    }
}

#[test]
fn parse_uri_errors() {
    assert!(matches!(
        parse_child_uri(&String::from("nothing")),
        Err(NexusBdevError::UrlParseError { .. })
    ));
    assert!(matches!(
        parse_child_uri(&String::from("malloc:///disk0?size_mb=64")),
        Err(NexusBdevError::UriSchemeUnsupported { .. })
    ));
    assert!(matches!(
        parse_child_uri(&String::from("loopback:///")),
        Err(NexusBdevError::UriInvalid { .. })
    ));
    assert!(matches!(
        parse_child_uri(&String::from("nvmf://hostonly")),
        Err(NexusBdevError::UriInvalid { .. })
    ));
}
