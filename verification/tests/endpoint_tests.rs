use mayastor::endpoint::{
    canonicalize_endpoint, default_endpoint, default_endpoint_str, default_port, endpoint,
    try_endpoint, Endpoint,
};

#[test]
fn default_port_value() {
    assert_eq!(default_port(), 10124);
}

#[test]
fn default_endpoint_string() {
    assert_eq!(default_endpoint_str(), "0.0.0.0:10124");
}

#[test]
fn default_endpoint_matches_its_string() {
    let e = default_endpoint();
    assert_eq!(e, Endpoint { ip0: 0, ip1: 0, ip2: 0, ip3: 0, port: 10124 });
    assert_eq!(try_endpoint(String::from("0.0.0.0")), Some(e));
    assert_eq!(try_endpoint(String::from(default_endpoint_str())), Some(e));
}

#[test]
fn endpoint_appends_default_port() {
    let e = endpoint(String::from("127.0.0.1"));
    assert_eq!((e.ip0, e.ip1, e.ip2, e.ip3), (127, 0, 0, 1));
    assert_eq!(e.port, 10124);
}

#[test]
fn endpoint_keeps_explicit_port() {
    let e = endpoint(String::from("10.1.0.1:8420"));
    assert_eq!((e.ip0, e.ip1, e.ip2, e.ip3), (10, 1, 0, 1));
    assert_eq!(e.port, 8420);
}

#[test]
fn endpoint_rejects_bad_addresses() {
    assert_eq!(try_endpoint(String::from("example.com:80")), None);
    assert_eq!(try_endpoint(String::from("1.2.3:80")), None);
    assert_eq!(try_endpoint(String::from("256.0.0.1:80")), None);
    assert_eq!(try_endpoint(String::from("1.2.3.4:70000")), None);
    assert_eq!(try_endpoint(String::from("01.2.3.4:80")), None);
    assert_eq!(try_endpoint(String::from("1.2.3.4:")), None);
    assert_eq!(try_endpoint(String::from("")), None);
}

#[test]
fn canonicalization_rule() {
    assert_eq!(canonicalize_endpoint(String::from("127.0.0.1")), "127.0.0.1:10124");
    assert_eq!(canonicalize_endpoint(String::from("127.0.0.1:80")), "127.0.0.1:80");
}
