use ufmclient::util::{build_pkey, is_default_pkey, parse_pkey};
use ufmclient::{PartitionKey, UFMError};

#[test]
fn encode_canonical_form() {
    assert_eq!(build_pkey(0x7fff), "0x7fff");
    assert_eq!(build_pkey(0), "0x0");
    assert_eq!(build_pkey(10), "0xa");
    assert_eq!(build_pkey(0x7fffffff), "0x7fffffff");
}

#[test]
fn encode_negative_uses_bits() {
    assert_eq!(build_pkey(-1), "0xffffffff");
    assert_eq!(build_pkey(-0x8000_0000), "0x80000000");
}

#[test]
fn decode_encode_round_trip() {
    let samples: Vec<i32> = vec![0, 1, 10, 15, 16, 255, 0x7fff, 0x12345, 0x7fffffff];
    for x in samples {
        assert_eq!(parse_pkey(&build_pkey(x)).unwrap(), x);
    }
}

#[test]
fn decode_rejects_non_hex() {
    match parse_pkey(&String::from("xyz")) {
        Err(UFMError::InvalidPKey(m)) => assert_eq!(m, "xyz"),
        _ => panic!("expected an invalid pkey error"),
    }
}

#[test]
fn decode_prefix_optional_and_case_insensitive() {
    assert_eq!(parse_pkey(&String::from("0x7fff")).unwrap(), 0x7fff);
    assert_eq!(parse_pkey(&String::from("7fff")).unwrap(), 0x7fff);
    assert_eq!(parse_pkey(&String::from("0X7FFF")).unwrap(), 0x7fff);
    assert_eq!(parse_pkey(&String::from("0x7FfF")).unwrap(), 0x7fff);
}

#[test]
fn decode_rejects_empty_and_bare_prefix() {
    assert!(parse_pkey(&String::from("")).is_err());
    assert!(parse_pkey(&String::from("0x")).is_err());
}

#[test]
fn decode_rejects_values_out_of_range() {
    assert!(parse_pkey(&String::from("0xffffffff")).is_err());
    assert!(parse_pkey(&String::from("0x100000000")).is_err());
    assert_eq!(parse_pkey(&String::from("0x7fffffff")).unwrap(), 0x7fffffff);
    assert_eq!(parse_pkey(&String::from("000000007fff")).unwrap(), 0x7fff);
}

#[test]
fn default_pkey_is_0x7fff() {
    assert!(is_default_pkey(0x7fff));
    assert!(!is_default_pkey(0x7ffe));
    assert!(is_default_pkey(parse_pkey(&String::from("0x7fff")).unwrap()));
}

#[test]
fn partition_key_try_from_and_to_text() {
    let k = PartitionKey::try_from(&String::from("0x10")).unwrap();
    assert_eq!(k.0, 16);
    assert_eq!(k.to_text(), "0x10");
    assert!(PartitionKey::try_from(&String::from("pk")).is_err());
}

#[test]
fn invalid_pkey_message_names_the_text() {
    let e = UFMError::InvalidPKey(String::from("xyz"));
    assert_eq!(e.message(), "invalid pkey 'xyz'");
}
