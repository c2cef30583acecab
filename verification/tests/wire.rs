use ufmclient::json::JsonValue;
use ufmclient::partition::{
    bind_ports_body, create_partition_body, delete_partition_path, get_partition_path,
    get_partition_response, list_guids_path, list_partition_response, list_qos_path,
    partition_collection_path, unbind_path, unbind_ports_body,
};
use ufmclient::port::{parse_ports_response, ports_path};
use ufmclient::version::{version_path, version_response};
use ufmclient::{
    Partition, PartitionKey, PartitionQoS, PortConfig, PortMembership, UFMError,
};

fn obj(fields: Vec<(&str, JsonValue)>) -> JsonValue {
    JsonValue::Obj(fields.into_iter().map(|(k, v)| (k.to_string(), v)).collect())
}

fn s(text: &str) -> JsonValue {
    JsonValue::Str(text.to_string())
}

fn num(text: &str) -> JsonValue {
    JsonValue::Num(text.to_string())
}

fn qos_record(mtu: &str, sl: &str, rate: &str) -> JsonValue {
    obj(vec![
        ("mtu_limit", num(mtu)),
        ("service_level", num(sl)),
        ("rate_limit", num(rate)),
    ])
}

fn guid_record(guid: &str, index0: bool, membership: &str) -> JsonValue {
    obj(vec![
        ("guid", s(guid)),
        ("index0", JsonValue::Bool(index0)),
        ("membership", s(membership)),
    ])
}

fn binding(guid: &str, index0: bool, membership: PortMembership) -> PortConfig {
    PortConfig { guid: guid.to_string(), index0, membership }
}

fn sample_partition(pkey: i32, guids: Vec<PortConfig>) -> Partition {
    Partition {
        name: String::new(),
        pkey: PartitionKey(pkey),
        ipoib: true,
        qos: PartitionQoS {
            mtu_limit: 2048,
            service_level: 0,
            rate_limit: String::from("100"),
        },
        guids,
    }
}

#[test]
fn paths_are_fixed_resources() {
    assert_eq!(partition_collection_path(), "/ufmRest/resources/pkeys");
    assert_eq!(unbind_path(), "/ufmRest/actions/remove_guids_from_pkey");
    assert_eq!(list_qos_path(), "/ufmRest/resources/pkeys?qos_conf=true");
    assert_eq!(list_guids_path(), "/ufmRest/resources/pkeys?guids_data=true");
    assert_eq!(ports_path(), "/ufmRest/resources/ports?sys_type=Computer");
    assert_eq!(version_path(), "/ufmRest/app/ufm_version");
    assert_eq!(
        get_partition_path(&String::from("0x7fff")),
        "/ufmRest/resources/pkeys/0x7fff?guids_data=true&qos_conf=true"
    );
    assert_eq!(
        delete_partition_path(&String::from("0x2")),
        "/ufmRest/resources/pkeys/0x2"
    );
}

#[test]
fn create_body_takes_membership_and_index0_from_last_binding() {
    let b1 = binding("b1", true, PortMembership::Full);
    let b2 = binding("b2", false, PortMembership::Limited);
    let p = sample_partition(0x7fff, vec![b1, b2]);
    let body = create_partition_body(&p);
    assert_eq!(
        body,
        "{\"pkey\":\"0x7fff\",\"ip_over_ib\":true,\"membership\":\"limited\",\
         \"index0\":false,\"guids\":[\"b1\",\"b2\"]}"
    );
}

#[test]
fn create_body_with_no_bindings_defaults_to_full_and_index0() {
    let p = sample_partition(0x2, vec![]);
    let body = create_partition_body(&p);
    assert_eq!(
        body,
        "{\"pkey\":\"0x2\",\"ip_over_ib\":true,\"membership\":\"full\",\
         \"index0\":true,\"guids\":[]}"
    );
}

#[test]
fn create_body_escapes_guid_text() {
    let p = sample_partition(0x3, vec![binding("g\"1\\", true, PortMembership::Full)]);
    let body = create_partition_body(&p);
    assert_eq!(
        body,
        "{\"pkey\":\"0x3\",\"ip_over_ib\":true,\"membership\":\"full\",\
         \"index0\":true,\"guids\":[\"g\\\"1\\\\\"]}"
    );
}

#[test]
fn create_body_escapes_control_characters() {
    let p = sample_partition(0x4, vec![binding("a\n\u{1}", true, PortMembership::Full)]);
    let body = create_partition_body(&p);
    assert_eq!(
        body,
        "{\"pkey\":\"0x4\",\"ip_over_ib\":true,\"membership\":\"full\",\
         \"index0\":true,\"guids\":[\"a\\n\\u0001\"]}"
    );
}

#[test]
fn bind_body_uses_the_given_ports_not_the_partition_bindings() {
    let p = sample_partition(0x5, vec![binding("old", true, PortMembership::Full)]);
    let ports = vec![
        binding("n1", true, PortMembership::Full),
        binding("n2", true, PortMembership::Limited),
    ];
    let body = bind_ports_body(&p, &ports);
    assert_eq!(
        body,
        "{\"pkey\":\"0x5\",\"ip_over_ib\":true,\"membership\":\"limited\",\
         \"index0\":true,\"guids\":[\"n1\",\"n2\"]}"
    );
}

#[test]
fn unbind_body_lists_pkey_and_guids() {
    let body = unbind_ports_body(
        &PartitionKey(0x7fff),
        &vec![String::from("g1"), String::from("g2")],
    );
    assert_eq!(body, "{\"pkey\":\"0x7fff\",\"guids\":[\"g1\",\"g2\"]}");
}

#[test]
fn get_on_empty_object_is_not_found() {
    let r = get_partition_response(&String::from("0x7fff"), &obj(vec![]));
    match r {
        Err(UFMError::NotFound(m)) => assert_eq!(m, "0x7fff"),
        _ => panic!("expected not found"),
    }
}

#[test]
fn get_decodes_key_locally_before_reading_the_body() {
    let r = get_partition_response(&String::from("zz"), &obj(vec![]));
    match r {
        Err(UFMError::InvalidPKey(m)) => assert_eq!(m, "zz"),
        _ => panic!("expected an invalid pkey error"),
    }
}

#[test]
fn get_reads_a_full_partition_record() {
    let body = obj(vec![
        ("partition", s("tenant")),
        ("ip_over_ib", JsonValue::Bool(true)),
        ("qos_conf", qos_record("2048", "15", "2.5")),
        ("guids", JsonValue::Arr(vec![guid_record("g1", true, "full")])),
    ]);
    let p = get_partition_response(&String::from("0x7fff"), &body).unwrap();
    assert_eq!(p.name, "tenant");
    assert_eq!(p.pkey.0, 0x7fff);
    assert!(p.ipoib);
    assert_eq!(p.qos.mtu_limit, 2048);
    assert_eq!(p.qos.service_level, 15);
    assert_eq!(p.qos.rate_limit, "2.5");
    assert_eq!(p.guids.len(), 1);
    assert_eq!(p.guids[0].guid, "g1");
    assert!(p.guids[0].index0);
    assert_eq!(p.guids[0].membership, PortMembership::Full);
}

#[test]
fn get_without_qos_data_is_an_invalid_response() {
    let body = obj(vec![
        ("partition", s("tenant")),
        ("ip_over_ib", JsonValue::Bool(false)),
        ("guids", JsonValue::Arr(vec![])),
    ]);
    let r = get_partition_response(&String::from("0x1"), &body);
    match r {
        Err(UFMError::InvalidConfig(m)) => assert_eq!(m, "invalid response"),
        _ => panic!("expected an invalid response error"),
    }
}

fn list_record(name: &str, qos: Option<JsonValue>, guids: Option<JsonValue>) -> JsonValue {
    let mut fields = vec![("partition", s(name)), ("ip_over_ib", JsonValue::Bool(true))];
    if let Some(q) = qos {
        fields.push(("qos_conf", q));
    }
    if let Some(g) = guids {
        fields.push(("guids", g));
    }
    obj(fields)
}

#[test]
fn list_emits_every_qos_key_and_defaults_missing_guids() {
    let qos_body = obj(vec![
        ("0x1", list_record("p1", Some(qos_record("2048", "0", "100")), None)),
        ("0x2", list_record("p2", Some(qos_record("4096", "1", "2.5")), None)),
    ]);
    let guids_body = obj(vec![(
        "0x1",
        list_record(
            "p1",
            None,
            Some(JsonValue::Arr(vec![guid_record("g1", false, "limited")])),
        ),
    )]);
    let ps = list_partition_response(&qos_body, &guids_body).unwrap();
    assert_eq!(ps.len(), 2);
    assert_eq!(ps[0].name, "p1");
    assert_eq!(ps[0].pkey.0, 1);
    assert_eq!(ps[0].qos.mtu_limit, 2048);
    assert_eq!(ps[0].guids.len(), 1);
    assert_eq!(ps[0].guids[0].guid, "g1");
    assert_eq!(ps[0].guids[0].membership, PortMembership::Limited);
    assert_eq!(ps[1].name, "p2");
    assert_eq!(ps[1].pkey.0, 2);
    assert_eq!(ps[1].qos.rate_limit, "2.5");
    assert_eq!(ps[1].guids.len(), 0);
}

#[test]
fn list_ignores_keys_present_only_in_the_guid_fetch() {
    let qos_body = obj(vec![(
        "0x1",
        list_record("p1", Some(qos_record("2048", "0", "100")), None),
    )]);
    let guids_body = obj(vec![
        (
            "0x1",
            list_record("p1", None, Some(JsonValue::Arr(vec![]))),
        ),
        (
            "0x9",
            list_record("p9", None, Some(JsonValue::Arr(vec![guid_record("gx", true, "full")]))),
        ),
    ]);
    let ps = list_partition_response(&qos_body, &guids_body).unwrap();
    assert_eq!(ps.len(), 1);
    assert_eq!(ps[0].name, "p1");
}

#[test]
fn list_fails_on_a_key_that_does_not_decode() {
    let qos_body = obj(vec![(
        "zz",
        list_record("p", Some(qos_record("2048", "0", "100")), None),
    )]);
    let guids_body = obj(vec![]);
    match list_partition_response(&qos_body, &guids_body) {
        Err(UFMError::InvalidPKey(m)) => assert_eq!(m, "zz"),
        _ => panic!("expected an invalid pkey error"),
    }
}

#[test]
fn list_without_qos_data_is_an_invalid_response() {
    let qos_body = obj(vec![("0x1", list_record("p1", None, None))]);
    let guids_body = obj(vec![]);
    match list_partition_response(&qos_body, &guids_body) {
        Err(UFMError::InvalidConfig(m)) => assert_eq!(m, "invalid response"),
        _ => panic!("expected an invalid response error"),
    }
}

fn port_record(guid: &str, lid: &str) -> JsonValue {
    obj(vec![
        ("guid", s(guid)),
        ("name", s("p1")),
        ("systemID", s("sys1")),
        ("lid", num(lid)),
        ("dname", s("d1")),
        ("system_name", s("host1")),
        ("physical_state", s("LinkUp")),
        ("logical_state", s("Active")),
    ])
}

#[test]
fn ports_response_reads_every_record() {
    let body = JsonValue::Arr(vec![port_record("a", "3"), port_record("b", "-2")]);
    let ports = parse_ports_response(&body).unwrap();
    assert_eq!(ports.len(), 2);
    assert_eq!(ports[0].guid, "a");
    assert_eq!(ports[0].system_id, "sys1");
    assert_eq!(ports[0].lid, 3);
    assert_eq!(ports[1].lid, -2);
}

#[test]
fn ports_response_rejects_a_malformed_record() {
    let body = JsonValue::Arr(vec![port_record("a", "3"), obj(vec![("guid", s("b"))])]);
    match parse_ports_response(&body) {
        Err(UFMError::InvalidConfig(m)) => assert_eq!(m, "invalid response"),
        _ => panic!("expected an invalid response error"),
    }
}

#[test]
fn version_response_reads_the_release_version() {
    let body = obj(vec![("ufm_release_version", s("6.11.0-2"))]);
    assert_eq!(version_response(&body).unwrap(), "6.11.0-2");
    let r = version_response(&obj(vec![]));
    match r {
        Err(UFMError::InvalidConfig(m)) => assert_eq!(m, "invalid response"),
        _ => panic!("expected an invalid response error"),
    }
}

#[test]
fn qos_numbers_out_of_range_are_an_invalid_response() {
    let body = obj(vec![
        ("partition", s("p")),
        ("ip_over_ib", JsonValue::Bool(true)),
        ("qos_conf", qos_record("70000", "0", "100")),
        ("guids", JsonValue::Arr(vec![])),
    ]);
    assert!(get_partition_response(&String::from("0x1"), &body).is_err());
}
