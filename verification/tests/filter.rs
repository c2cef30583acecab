use ufmclient::port::filter_ports;
use ufmclient::{Filter, Port, PortConfig, PortMembership};

fn port(guid: &str) -> Port {
    Port {
        guid: guid.to_string(),
        name: format!("{}-name", guid),
        system_id: String::from("sys"),
        lid: 3,
        dname: String::from("d"),
        system_name: String::from("sn"),
        physical_state: String::from("LinkUp"),
        logical_state: String::from("Active"),
    }
}

#[test]
fn no_guid_set_admits_any_port() {
    let f = Filter { guids: None };
    assert!(f.valid(&port("a")));
    assert!(f.valid(&port("c")));
    assert!(f.valid(&port("")));
}

#[test]
fn guid_set_admits_exactly_its_members() {
    let f = Filter { guids: Some(vec![String::from("a"), String::from("b")]) };
    assert!(f.valid(&port("a")));
    assert!(f.valid(&port("b")));
    assert!(!f.valid(&port("c")));
    assert!(!f.valid(&port("")));
}

#[test]
fn empty_guid_set_admits_nothing() {
    let f = Filter { guids: Some(vec![]) };
    assert!(!f.valid(&port("a")));
}

#[test]
fn filter_from_bindings_lists_every_guid_in_order() {
    let bindings = vec![
        PortConfig { guid: String::from("g1"), index0: true, membership: PortMembership::Full },
        PortConfig { guid: String::from("g2"), index0: false, membership: PortMembership::Limited },
    ];
    let f = Filter::from_bindings(&bindings);
    assert_eq!(f.guids, Some(vec![String::from("g1"), String::from("g2")]));
    assert!(f.valid(&port("g1")));
    assert!(f.valid(&port("g2")));
    assert!(!f.valid(&port("g3")));
}

#[test]
fn filter_ports_without_filter_keeps_everything() {
    let ports = vec![port("a"), port("b")];
    let kept = filter_ports(None, ports);
    assert_eq!(kept.len(), 2);
    assert_eq!(kept[0].guid, "a");
    assert_eq!(kept[1].guid, "b");
}

#[test]
fn filter_ports_keeps_members_in_order() {
    let f = Filter { guids: Some(vec![String::from("c"), String::from("a")]) };
    let ports = vec![port("a"), port("b"), port("c"), port("d")];
    let kept = filter_ports(Some(f), ports);
    assert_eq!(kept.len(), 2);
    assert_eq!(kept[0].guid, "a");
    assert_eq!(kept[1].guid, "c");
}
