use ufmclient::{RestError, RestScheme, UFMError, PortMembership, UFMConfig};
use ufmclient::config::resolve_config;

#[test]
fn transport_errors_map_onto_the_domain_taxonomy() {
    match UFMError::from_rest(RestError::Unknown(String::from("boom"))) {
        UFMError::Unknown(m) => assert_eq!(m, "boom"),
        _ => panic!("expected unknown"),
    }
    match UFMError::from_rest(RestError::NotFound(String::from("0x2"))) {
        UFMError::NotFound(m) => assert_eq!(m, "0x2"),
        _ => panic!("expected not found"),
    }
    match UFMError::from_rest(RestError::AuthFailure(String::from("bad auth"))) {
        UFMError::InvalidConfig(m) => assert_eq!(m, "bad auth"),
        _ => panic!("expected invalid configuration"),
    }
    match UFMError::from_rest(RestError::InvalidConfig(String::from("bad host"))) {
        UFMError::InvalidConfig(m) => assert_eq!(m, "bad host"),
        _ => panic!("expected invalid configuration"),
    }
}

#[test]
fn delete_of_a_missing_pkey_surfaces_not_found_never_unknown() {
    // the transport reports 404 as NotFound; the translator must keep
    // the kind
    let surfaced = UFMError::from_rest(RestError::NotFound(String::from("0x7")));
    assert!(matches!(surfaced, UFMError::NotFound(_)));
    assert!(!matches!(surfaced, UFMError::Unknown(_)));
}

#[test]
fn error_messages_follow_their_kinds() {
    assert_eq!(UFMError::Unknown(String::from("boom")).message(), "boom");
    assert_eq!(UFMError::NotFound(String::from("0x2")).message(), "'0x2' not found");
    assert_eq!(
        UFMError::InvalidConfig(String::from("bad url")).message(),
        "invalid configuration 'bad url'"
    );
    assert_eq!(RestError::AuthFailure(String::from("x")).message(), "failed to auth 'x'");
    assert_eq!(RestError::NotFound(String::from("y")).message(), "'y' not found");
}

#[test]
fn scheme_text_is_read_case_insensitively_with_http_fallback() {
    assert_eq!(RestScheme::from_text("http"), RestScheme::Http);
    assert_eq!(RestScheme::from_text("HTTP"), RestScheme::Http);
    assert_eq!(RestScheme::from_text("https"), RestScheme::Https);
    assert_eq!(RestScheme::from_text("HtTpS"), RestScheme::Https);
    assert_eq!(RestScheme::from_text("ftp"), RestScheme::Http);
    assert_eq!(RestScheme::from_text(""), RestScheme::Http);
    assert_eq!(RestScheme::Http.as_text(), "http");
    assert_eq!(RestScheme::Https.as_text(), "https");
}

#[test]
fn membership_text_round_trip() {
    assert_eq!(PortMembership::Full.as_text(), "full");
    assert_eq!(PortMembership::Limited.as_text(), "limited");
    assert_eq!(PortMembership::from_text("full"), Some(PortMembership::Full));
    assert_eq!(PortMembership::from_text("Limited"), Some(PortMembership::Limited));
    assert_eq!(PortMembership::from_text("none"), None);
}

#[test]
fn config_resolves_host_port_and_scheme() {
    let conf = UFMConfig {
        address: String::from("https://ufm.example.com:8443/base"),
        username: String::from("admin"),
        password: String::from("secret"),
    };
    let c = resolve_config(&conf).unwrap();
    assert_eq!(c.address, "ufm.example.com");
    assert_eq!(c.port, Some(8443));
    assert_eq!(c.scheme, RestScheme::Https);
    assert_eq!(c.username, "admin");
}

#[test]
fn config_with_an_unparsable_address_is_invalid() {
    let conf = UFMConfig {
        address: String::from("not a url"),
        username: String::new(),
        password: String::new(),
    };
    match resolve_config(&conf) {
        Err(UFMError::InvalidConfig(m)) => assert_eq!(m, "invalid UFM url"),
        _ => panic!("expected an invalid configuration error"),
    }
}

#[test]
fn config_without_a_host_is_invalid() {
    let conf = UFMConfig {
        address: String::from("unix:/run/foo.socket"),
        username: String::new(),
        password: String::new(),
    };
    match resolve_config(&conf) {
        Err(UFMError::InvalidConfig(m)) => assert_eq!(m, "invalid UFM host"),
        _ => panic!("expected an invalid configuration error"),
    }
}
