//! The partition service's computational core: the resource paths it
//! talks to, the wire bodies it sends, and the translation of wire
//! partition resources into the domain model.
//!
//! A caller composes these with the transport collaborator: build the
//! path and body here, perform the network call outside, and hand the
//! response body back for translation.

use vstd::prelude::*;
use vstd::string::StringExecFns;

use crate::error::UFMError;
use crate::json::json_string_text;
use crate::json::lookup_entries;
use crate::json::obj_get;
use crate::json::parse_u16_text;
use crate::json::parse_u8_text;
use crate::json::push_json_string;
use crate::json::spec_parse_u16;
use crate::json::spec_parse_u8;
use crate::json::JsonValue;
use crate::model::Partition;
use crate::model::PartitionKey;
use crate::model::PartitionQoS;
use crate::model::PortConfig;
use crate::model::PortMembership;
use crate::util;

verus! {

/// The partition collection resource: creation requests and port
/// bindings are posted here.
pub fn partition_collection_path() -> (r: String)
    ensures
        r@ == "/ufmRest/resources/pkeys"@,
{
    "/ufmRest/resources/pkeys".to_owned()
}

/// The action resource that removes GUIDs from a pkey.
pub fn unbind_path() -> (r: String)
    ensures
        r@ == "/ufmRest/actions/remove_guids_from_pkey"@,
{
    "/ufmRest/actions/remove_guids_from_pkey".to_owned()
}

/// The single-partition resource for `pkey`, requesting embedded QoS
/// and guid data.  The key text goes into the path as given.
pub fn get_partition_path(pkey: &String) -> (r: String)
    ensures
        r@ == "/ufmRest/resources/pkeys/"@ + pkey@ + "?guids_data=true&qos_conf=true"@,
{
    let mut r = "/ufmRest/resources/pkeys/".to_owned();
    r.append(pkey.as_str());
    r.append("?guids_data=true&qos_conf=true");
    r
}

/// The single-partition resource for `pkey`, as a delete target.
pub fn delete_partition_path(pkey: &String) -> (r: String)
    ensures
        r@ == "/ufmRest/resources/pkeys/"@ + pkey@,
{
    let mut r = "/ufmRest/resources/pkeys/".to_owned();
    r.append(pkey.as_str());
    r
}

/// The partition collection annotated with QoS data; the fetch that is
/// authoritative for which partitions exist.
pub fn list_qos_path() -> (r: String)
    ensures
        r@ == "/ufmRest/resources/pkeys?qos_conf=true"@,
{
    "/ufmRest/resources/pkeys?qos_conf=true".to_owned()
}

/// The partition collection annotated with guid data.
pub fn list_guids_path() -> (r: String)
    ensures
        r@ == "/ufmRest/resources/pkeys?guids_data=true"@,
{
    "/ufmRest/resources/pkeys?guids_data=true".to_owned()
}

/// The JSON text of a boolean.
pub open spec fn bool_text(b: bool) -> Seq<char> {
    if b {
        "true"@
    } else {
        "false"@
    }
}

/// Appends the JSON text of a boolean to `out`.
fn push_bool(out: &mut String, b: bool)
    ensures
        final(out)@ == old(out)@ + bool_text(b),
{
    if b {
        out.append("true");
    } else {
        out.append("false");
    }
}

/// The comma-separated JSON string literals of `guids`, in order.
pub open spec fn guids_array_text(guids: Seq<String>) -> Seq<char>
    decreases guids.len(),
{
    if guids.len() == 0 {
        Seq::<char>::empty()
    } else if guids.len() == 1 {
        json_string_text(guids[0]@)
    } else {
        guids_array_text(guids.drop_last()) + seq![','] + json_string_text(guids.last()@)
    }
}

/// Appends the comma-separated JSON string literals of `guids` to
/// `out`.
fn push_guid_array(out: &mut String, guids: &Vec<String>)
    ensures
        final(out)@ == old(out)@ + guids_array_text(guids@),
{
    let n: usize = guids.len();
    let mut i: usize = 0;
    proof {
        assert(guids@.take(0) =~= Seq::<String>::empty());
    }
    while i < n
        invariant
            n == guids@.len(),
            i <= n,
            out@ == old(out)@ + guids_array_text(guids@.take(i as int)),
        decreases n - i,
    {
        let ghost done: Seq<String> = guids@.take(i as int);
        let ghost next: Seq<String> = guids@.take(i as int + 1);
        proof {
            assert(next.drop_last() =~= done);
            assert(next.last() == guids@[i as int]);
            assert(next[0] == guids@[0]);
        }
        if i > 0 {
            out.push(',');
        }
        push_json_string(out, guids[i].as_str());
        proof {
            assert(out@ =~= old(out)@ + guids_array_text(next));
        }
        i += 1;
    }
    proof {
        assert(guids@.take(n as int) =~= guids@);
    }
}

/// The membership a creation request carries: that of the last
/// binding in the list, or full membership when the list is empty.
/// The wire protocol takes one membership per request, not one per
/// binding; the last one wins.
pub open spec fn last_membership(bindings: Seq<PortConfig>) -> PortMembership {
    if bindings.len() == 0 {
        PortMembership::Full
    } else {
        bindings.last().membership
    }
}

/// The index0 flag a creation request carries: that of the last
/// binding in the list, or true when the list is empty.
pub open spec fn last_index0(bindings: Seq<PortConfig>) -> bool {
    if bindings.len() == 0 {
        true
    } else {
        bindings.last().index0
    }
}

/// The wire body of a creation or binding request: the encoded pkey,
/// the `ip_over_ib` flag, a single membership/index0 pair, and the
/// full ordered guid list.
pub open spec fn spec_pkey_body(
    pkey: i32,
    ipoib: bool,
    membership: PortMembership,
    index0: bool,
    guids: Seq<String>,
) -> Seq<char> {
    "{\"pkey\":\""@ + util::spec_build_pkey(pkey) + "\",\"ip_over_ib\":"@ + bool_text(ipoib)
        + ",\"membership\":\""@ + membership.spec_as_text() + "\",\"index0\":"@ + bool_text(
        index0,
    ) + ",\"guids\":["@ + guids_array_text(guids) + "]}"@
}

/// The wire body that creates the partition `p`: its key and
/// `ip_over_ib` flag, its full ordered guid list, and the
/// membership/index0 pair of the last binding.
pub open spec fn spec_create_body(p: Partition) -> Seq<char> {
    spec_pkey_body(
        p.pkey.0,
        p.ipoib,
        last_membership(p.guids@),
        last_index0(p.guids@),
        p.guids@.map_values(|pc: PortConfig| pc.guid),
    )
}

/// The guid texts of a binding list, in order.
fn guid_texts(bindings: &Vec<PortConfig>) -> (r: Vec<String>)
    ensures
        r@ == bindings@.map_values(|pc: PortConfig| pc.guid),
{
    let n: usize = bindings.len();
    let mut gs: Vec<String> = Vec::new();
    let mut i: usize = 0;
    while i < n
        invariant
            n == bindings@.len(),
            i <= n,
            gs@ == bindings@.take(i as int).map_values(|pc: PortConfig| pc.guid),
        decreases n - i,
    {
        gs.push(bindings[i].guid.clone());
        proof {
            assert(gs@ =~= bindings@.take(i as int + 1).map_values(|pc: PortConfig| pc.guid));
        }
        i += 1;
    }
    proof {
        assert(bindings@.take(n as int) =~= bindings@);
    }
    gs
}

/// Builds the wire body that binds `bindings` to the partition keyed
/// `pkey` with the flag `ipoib`: the shared core of creation and
/// binding requests.
fn build_pkey_body(pkey: PartitionKey, ipoib: bool, bindings: &Vec<PortConfig>) -> (r: String)
    ensures
        r@ == spec_pkey_body(
            pkey.0,
            ipoib,
            last_membership(bindings@),
            last_index0(bindings@),
            bindings@.map_values(|pc: PortConfig| pc.guid),
        ),
{
    let n: usize = bindings.len();
    let membership: PortMembership = if n == 0 {
        PortMembership::Full
    } else {
        bindings[n - 1].membership
    };
    let index0: bool = if n == 0 {
        true
    } else {
        bindings[n - 1].index0
    };
    let guids: Vec<String> = guid_texts(bindings);
    let mut out = "{\"pkey\":\"".to_owned();
    let key_text = util::build_pkey(pkey.0);
    out.append(key_text.as_str());
    out.append("\",\"ip_over_ib\":");
    push_bool(&mut out, ipoib);
    out.append(",\"membership\":\"");
    let mt = membership.as_text();
    out.append(mt.as_str());
    out.append("\",\"index0\":");
    push_bool(&mut out, index0);
    out.append(",\"guids\":[");
    push_guid_array(&mut out, &guids);
    out.append("]}");
    proof {
        assert(out@ =~= spec_pkey_body(
            pkey.0,
            ipoib,
            last_membership(bindings@),
            last_index0(bindings@),
            bindings@.map_values(|pc: PortConfig| pc.guid),
        ));
    }
    out
}

/// Builds the wire body that creates the partition `p`.  Building is
/// total: local encoding cannot fail, so no request is ever preempted
/// by an encoding error.
pub fn create_partition_body(p: &Partition) -> (r: String)
    ensures
        r@ == spec_create_body(*p),
{
    build_pkey_body(p.pkey, p.ipoib, &p.guids)
}

/// Builds the wire body that binds `ports` into the partition `p`.
/// As in a creation request, the membership/index0 pair is that of
/// the last binding in `ports`.
pub fn bind_ports_body(p: &Partition, ports: &Vec<PortConfig>) -> (r: String)
    ensures
        r@ == spec_pkey_body(
            p.pkey.0,
            p.ipoib,
            last_membership(ports@),
            last_index0(ports@),
            ports@.map_values(|pc: PortConfig| pc.guid),
        ),
{
    build_pkey_body(p.pkey, p.ipoib, ports)
}

/// The wire body that removes `guids` from the partition keyed
/// `pkey`.
pub open spec fn spec_unbind_body(pkey: i32, guids: Seq<String>) -> Seq<char> {
    "{\"pkey\":\""@ + util::spec_build_pkey(pkey) + "\",\"guids\":["@ + guids_array_text(guids)
        + "]}"@
}

/// Builds the wire body that removes `guids` from the partition keyed
/// `pkey`.
pub fn unbind_ports_body(pkey: &PartitionKey, guids: &Vec<String>) -> (r: String)
    ensures
        r@ == spec_unbind_body(pkey.0, guids@),
{
    let mut out = "{\"pkey\":\"".to_owned();
    let key_text = util::build_pkey(pkey.0);
    out.append(key_text.as_str());
    out.append("\",\"guids\":[");
    push_guid_array(&mut out, guids);
    out.append("]}");
    proof {
        assert(out@ =~= spec_unbind_body(pkey.0, guids@));
    }
    out
}

/// The QoS a wire `qos_conf` value describes: an object whose
/// `mtu_limit` and `service_level` are numbers in range and whose
/// `rate_limit` is a number, forwarded as its wire text.
pub open spec fn spec_qos_of(v: JsonValue) -> Option<PartitionQoS> {
    match (v.spec_get("mtu_limit"@), v.spec_get("service_level"@), v.spec_get("rate_limit"@)) {
        (
            Some(JsonValue::Num(mtu_text)),
            Some(JsonValue::Num(sl_text)),
            Some(JsonValue::Num(rate_text)),
        ) => {
            match (spec_parse_u16(mtu_text@), spec_parse_u8(sl_text@)) {
                (Some(mtu), Some(sl)) => Some(
                    PartitionQoS { mtu_limit: mtu, service_level: sl, rate_limit: rate_text },
                ),
                _ => None,
            }
        },
        _ => None,
    }
}

/// Reads one wire `qos_conf` value.
pub fn parse_qos(v: &JsonValue) -> (r: Option<PartitionQoS>)
    ensures
        r == spec_qos_of(*v),
{
    let entries = match v {
        JsonValue::Obj(entries) => entries,
        _ => { return None },
    };
    let mtu_text: &String = match obj_get(entries, "mtu_limit") {
        Some(JsonValue::Num(s)) => s,
        _ => { return None },
    };
    let sl_text: &String = match obj_get(entries, "service_level") {
        Some(JsonValue::Num(s)) => s,
        _ => { return None },
    };
    let rate_text: &String = match obj_get(entries, "rate_limit") {
        Some(JsonValue::Num(s)) => s,
        _ => { return None },
    };
    let mtu: u16 = match parse_u16_text(mtu_text.as_str()) {
        Some(m) => m,
        None => { return None },
    };
    let sl: u8 = match parse_u8_text(sl_text.as_str()) {
        Some(s) => s,
        None => { return None },
    };
    Some(PartitionQoS { mtu_limit: mtu, service_level: sl, rate_limit: rate_text.clone() })
}

/// The port binding a wire guid record describes: a string `guid`, a
/// boolean `index0`, and a `membership` named by its text.
pub open spec fn spec_port_config_of(v: JsonValue) -> Option<PortConfig> {
    match (v.spec_get("guid"@), v.spec_get("index0"@), v.spec_get("membership"@)) {
        (Some(JsonValue::Str(guid)), Some(JsonValue::Bool(index0)), Some(
            JsonValue::Str(mem_text),
        )) => {
            match PortMembership::spec_from_text(mem_text@) {
                Some(membership) => Some(PortConfig { guid, index0, membership }),
                None => None,
            }
        },
        _ => None,
    }
}

/// Reads one wire guid record.
pub fn parse_port_config(v: &JsonValue) -> (r: Option<PortConfig>)
    ensures
        r == spec_port_config_of(*v),
{
    let entries = match v {
        JsonValue::Obj(entries) => entries,
        _ => { return None },
    };
    let guid: &String = match obj_get(entries, "guid") {
        Some(JsonValue::Str(s)) => s,
        _ => { return None },
    };
    let index0: bool = match obj_get(entries, "index0") {
        Some(JsonValue::Bool(b)) => *b,
        _ => { return None },
    };
    let mem_text: &String = match obj_get(entries, "membership") {
        Some(JsonValue::Str(s)) => s,
        _ => { return None },
    };
    let membership: PortMembership = match PortMembership::from_text(mem_text.as_str()) {
        Some(m) => m,
        None => { return None },
    };
    Some(PortConfig { guid: guid.clone(), index0, membership })
}

/// The bindings a sequence of wire guid records describes, in order;
/// none when any record is malformed.
pub open spec fn spec_port_configs_of_items(items: Seq<JsonValue>) -> Option<Seq<PortConfig>>
    decreases items.len(),
{
    if items.len() == 0 {
        Some(Seq::<PortConfig>::empty())
    } else {
        match (spec_port_configs_of_items(items.drop_last()), spec_port_config_of(items.last())) {
            (Some(s), Some(pc)) => Some(s.push(pc)),
            _ => None,
        }
    }
}

/// The bindings a wire `guids` value describes: an array of guid
/// records; anything else describes none.
pub open spec fn spec_port_configs_of(v: JsonValue) -> Option<Seq<PortConfig>> {
    match v {
        JsonValue::Arr(items) => spec_port_configs_of_items(items@),
        _ => None,
    }
}

/// A well-formed run of guid records stays well formed when cut
/// short.
proof fn lemma_port_configs_items_prefix(items: Seq<JsonValue>, i: int)
    requires
        0 <= i <= items.len(),
        spec_port_configs_of_items(items) is Some,
    ensures
        spec_port_configs_of_items(items.take(i)) is Some,
    decreases items.len(),
{
    if i < items.len() {
        assert(items.take(i) =~= items.drop_last().take(i));
        lemma_port_configs_items_prefix(items.drop_last(), i);
    } else {
        assert(items.take(i) =~= items);
    }
}

/// Reads a wire `guids` value.
pub fn parse_port_configs(v: &JsonValue) -> (r: Option<Vec<PortConfig>>)
    ensures
        match spec_port_configs_of(*v) {
            Some(s) => r matches Some(pcs) && pcs@ == s,
            None => r is None,
        },
{
    let items = match v {
        JsonValue::Arr(items) => items,
        _ => { return None },
    };
    let n: usize = items.len();
    let mut pcs: Vec<PortConfig> = Vec::new();
    let mut i: usize = 0;
    proof {
        assert(items@.take(0) =~= Seq::<JsonValue>::empty());
    }
    while i < n
        invariant
            n == items@.len(),
            i <= n,
            v matches JsonValue::Arr(its) && its@ == items@,
            spec_port_configs_of_items(items@.take(i as int)) == Some(pcs@),
        decreases n - i,
    {
        let ghost done: Seq<JsonValue> = items@.take(i as int);
        let ghost next: Seq<JsonValue> = items@.take(i as int + 1);
        proof {
            assert(next.drop_last() =~= done);
            assert(next.last() == items@[i as int]);
        }
        match parse_port_config(&items[i]) {
            Some(pc) => {
                pcs.push(pc);
            },
            None => {
                proof {
                    assert(spec_port_configs_of_items(next) is None);
                    if spec_port_configs_of_items(items@) is Some {
                        lemma_port_configs_items_prefix(items@, i as int + 1);
                    }
                }
                return None;
            },
        }
        i += 1;
    }
    proof {
        assert(items@.take(n as int) =~= items@);
    }
    Some(pcs)
}

/// The partition data a wire partition record describes: a string
/// `partition` name and a boolean `ip_over_ib`, then an optional
/// `qos_conf` and an optional `guids` list, either of which may also
/// stand absent as JSON null.  A present field that does not parse
/// spoils the whole record.
pub open spec fn spec_list_record(v: JsonValue) -> Option<
    (String, bool, Option<PartitionQoS>, Option<Seq<PortConfig>>),
> {
    match (v.spec_get("partition"@), v.spec_get("ip_over_ib"@)) {
        (Some(JsonValue::Str(name)), Some(JsonValue::Bool(ipoib))) => {
            let qres: Option<Option<PartitionQoS>> = match v.spec_get("qos_conf"@) {
                None => Some(None),
                Some(JsonValue::Null) => Some(None),
                Some(qv) => match spec_qos_of(qv) {
                    Some(q) => Some(Some(q)),
                    None => None,
                },
            };
            let gres: Option<Option<Seq<PortConfig>>> = match v.spec_get("guids"@) {
                None => Some(None),
                Some(JsonValue::Null) => Some(None),
                Some(gv) => match spec_port_configs_of(gv) {
                    Some(gs) => Some(Some(gs)),
                    None => None,
                },
            };
            match (qres, gres) {
                (Some(q), Some(g)) => Some((name, ipoib, q, g)),
                _ => None,
            }
        },
        _ => None,
    }
}

/// A wire partition record, read into owned values.
struct ListRecord {
    name: String,
    ipoib: bool,
    qos: Option<PartitionQoS>,
    guids: Option<Vec<PortConfig>>,
}

/// Reads one wire partition record.
fn parse_list_record(v: &JsonValue) -> (r: Option<ListRecord>)
    ensures
        match spec_list_record(*v) {
            Some(rec) => r matches Some(lr) && lr.name == rec.0 && lr.ipoib == rec.1 && (match rec.2 {
                Some(q) => lr.qos == Some(q),
                None => lr.qos is None,
            }) && (match rec.3 {
                Some(gs) => lr.guids matches Some(gv) && gv@ == gs,
                None => lr.guids is None,
            }),
            None => r is None,
        },
{
    let entries = match v {
        JsonValue::Obj(entries) => entries,
        _ => { return None },
    };
    let name: &String = match obj_get(entries, "partition") {
        Some(JsonValue::Str(s)) => s,
        _ => { return None },
    };
    let ipoib: bool = match obj_get(entries, "ip_over_ib") {
        Some(JsonValue::Bool(b)) => *b,
        _ => { return None },
    };
    let qos: Option<PartitionQoS> = match obj_get(entries, "qos_conf") {
        None => None,
        Some(JsonValue::Null) => None,
        Some(qv) => match parse_qos(qv) {
            Some(q) => Some(q),
            None => { return None },
        },
    };
    let guids: Option<Vec<PortConfig>> = match obj_get(entries, "guids") {
        None => None,
        Some(JsonValue::Null) => None,
        Some(gv) => match parse_port_configs(gv) {
            Some(gs) => Some(gs),
            None => { return None },
        },
    };
    Some(ListRecord { name: name.clone(), ipoib, qos, guids })
}

/// The full partition data a get response must carry: the name and
/// flag, and both the QoS and guid data the request asked for.
pub open spec fn spec_get_partition_record(v: JsonValue) -> Option<
    (String, bool, PartitionQoS, Seq<PortConfig>),
> {
    match spec_list_record(v) {
        Some((name, ipoib, Some(q), Some(gs))) => Some((name, ipoib, q, gs)),
        _ => None,
    }
}

/// Translates a get response into a partition.
///
/// The key comes from the given text, decoded locally, never from the
/// server payload; text that does not decode is rejected before
/// anything else is looked at.  An empty object means the partition
/// does not exist — that is `NotFound`, not a decode error.  Any
/// other body must be a full partition record.
pub fn get_partition_response(pkey: &String, body: &JsonValue) -> (r: Result<Partition, UFMError>)
    ensures
        match util::spec_parse_pkey(pkey@) {
            None => r == Err::<Partition, UFMError>(UFMError::InvalidPKey(*pkey)),
            Some(kv) => {
                if *body matches JsonValue::Obj(es) && es@.len() == 0 {
                    r == Err::<Partition, UFMError>(UFMError::NotFound(*pkey))
                } else {
                    match spec_get_partition_record(*body) {
                        Some(rec) => r matches Ok(p) && p.name == rec.0 && p.pkey
                            == PartitionKey(kv) && p.ipoib == rec.1 && p.qos == rec.2 && p.guids@
                            == rec.3,
                        None => r matches Err(e) && e matches UFMError::InvalidConfig(m) && m@
                            == "invalid response"@,
                    }
                }
            },
        },
{
    let kv: i32 = match util::parse_pkey(pkey) {
        Ok(v) => v,
        Err(e) => { return Err(e) },
    };
    if let JsonValue::Obj(es) = body {
        if es.len() == 0 {
            return Err(UFMError::NotFound(pkey.clone()));
        }
    }
    let lr: ListRecord = match parse_list_record(body) {
        Some(lr) => lr,
        None => { return Err(UFMError::InvalidConfig("invalid response".to_owned())) },
    };
    let qos: PartitionQoS = match lr.qos {
        Some(q) => q,
        None => { return Err(UFMError::InvalidConfig("invalid response".to_owned())) },
    };
    let guids: Vec<PortConfig> = match lr.guids {
        Some(g) => g,
        None => { return Err(UFMError::InvalidConfig("invalid response".to_owned())) },
    };
    Ok(Partition { name: lr.name, pkey: PartitionKey(kv), ipoib: lr.ipoib, qos, guids })
}

/// Every entry's value is a well-formed partition record.
pub open spec fn list_records_ok(entries: Seq<(String, JsonValue)>) -> bool {
    forall|i: int|
        0 <= i < entries.len() ==> (#[trigger] spec_list_record(entries[i].1)) is Some
}

/// A well-formed partition record that carries QoS data.
pub open spec fn qos_record_ok(v: JsonValue) -> bool {
    spec_list_record(v) matches Some(rec) && rec.2 is Some
}

/// Every entry's value is a well-formed partition record that carries
/// QoS data.
pub open spec fn qos_records_ok(entries: Seq<(String, JsonValue)>) -> bool {
    forall|i: int| 0 <= i < entries.len() ==> qos_record_ok(#[trigger] entries[i].1)
}

/// A well-formed QoS-annotated listing: an object of partition
/// records, each carrying QoS data.
pub open spec fn spec_qos_body_ok(v: JsonValue) -> bool {
    v matches JsonValue::Obj(es) && qos_records_ok(es@)
}

/// A well-formed guid-annotated listing: an object of partition
/// records.
pub open spec fn spec_guids_body_ok(v: JsonValue) -> bool {
    v matches JsonValue::Obj(es) && list_records_ok(es@)
}

/// Every key decodes as a partition key.
pub open spec fn all_keys_parse(entries: Seq<(String, JsonValue)>) -> bool {
    forall|i: int|
        0 <= i < entries.len() ==> util::spec_parse_pkey(#[trigger] entries[i].0@) is Some
}

/// The bindings the guid-annotated listing holds for the key: an
/// absent key, or one without guid data, contributes an empty list —
/// defined behaviour, not a failure.
pub open spec fn spec_guids_for(key: Seq<char>, guids_body: JsonValue) -> Seq<PortConfig> {
    match guids_body.spec_get(key) {
        None => Seq::<PortConfig>::empty(),
        Some(gv) => match spec_list_record(gv) {
            Some(rec) => match rec.3 {
                Some(gs) => gs,
                None => Seq::<PortConfig>::empty(),
            },
            None => Seq::<PortConfig>::empty(),
        },
    }
}

/// The partition `p` renders one merged listing row: named and
/// flagged by the QoS record under the key, keyed by the decoded key
/// text, and carrying the guid fetch's bindings for that key.
pub open spec fn row_matches(
    p: Partition,
    key: String,
    rec_v: JsonValue,
    guids_body: JsonValue,
) -> bool {
    match spec_list_record(rec_v) {
        Some(rec) => {
            &&& p.name == rec.0
            &&& p.ipoib == rec.1
            &&& (match rec.2 {
                Some(q) => p.qos == q,
                None => false,
            })
            &&& (match util::spec_parse_pkey(key@) {
                Some(kv) => p.pkey == PartitionKey(kv),
                None => false,
            })
            &&& p.guids@ == spec_guids_for(key@, guids_body)
        },
        None => false,
    }
}

/// Checks that every entry is a well-formed partition record, and,
/// when `need_qos` holds, that each carries QoS data.
fn check_list_entries(entries: &Vec<(String, JsonValue)>, need_qos: bool) -> (r: bool)
    ensures
        r == if need_qos {
            qos_records_ok(entries@)
        } else {
            list_records_ok(entries@)
        },
{
    let n: usize = entries.len();
    let mut i: usize = 0;
    while i < n
        invariant
            n == entries@.len(),
            i <= n,
            forall|j: int|
                0 <= j < i ==> (#[trigger] spec_list_record(entries@[j].1)) is Some,
            need_qos ==> forall|j: int| 0 <= j < i ==> qos_record_ok(#[trigger] entries@[j].1),
        decreases n - i,
    {
        match parse_list_record(&entries[i].1) {
            None => {
                return false;
            },
            Some(lr) => {
                if need_qos && lr.qos.is_none() {
                    return false;
                }
            },
        }
        i += 1;
    }
    true
}

/// Merges the two listing fetches into partitions.
///
/// The QoS fetch is authoritative for existence: every key present
/// there is emitted, in its wire order, with guids looked up from the
/// guid fetch and defaulted to an empty list when absent.  A key
/// present only in the guid fetch is not emitted.  A malformed body is
/// an invalid response; a key that does not decode fails the whole
/// listing with `InvalidPKey`.
pub fn list_partition_response(qos_body: &JsonValue, guids_body: &JsonValue) -> (r: Result<
    Vec<Partition>,
    UFMError,
>)
    ensures
        ({
            if !(spec_qos_body_ok(*qos_body) && spec_guids_body_ok(*guids_body)) {
                r matches Err(e) && e matches UFMError::InvalidConfig(m) && m@
                    == "invalid response"@
            } else {
                let entries = qos_body->Obj_0@;
                if all_keys_parse(entries) {
                    r matches Ok(ps) && ps@.len() == entries.len() && (forall|i: int|
                        0 <= i < entries.len() ==> row_matches(
                            #[trigger] ps@[i],
                            entries[i].0,
                            entries[i].1,
                            *guids_body,
                        ))
                } else {
                    exists|i: int|
                        0 <= i < entries.len() && util::spec_parse_pkey(
                            #[trigger] entries[i].0@,
                        ) is None && (forall|j: int|
                            0 <= j < i ==> util::spec_parse_pkey(#[trigger] entries[j].0@) is Some)
                            && r == Err::<Vec<Partition>, UFMError>(
                            UFMError::InvalidPKey(entries[i].0),
                        )
                }
            }
        }),
{
    let qos_entries = match qos_body {
        JsonValue::Obj(es) => es,
        _ => { return Err(UFMError::InvalidConfig("invalid response".to_owned())) },
    };
    let guid_entries = match guids_body {
        JsonValue::Obj(es) => es,
        _ => { return Err(UFMError::InvalidConfig("invalid response".to_owned())) },
    };
    if !check_list_entries(qos_entries, true) {
        return Err(UFMError::InvalidConfig("invalid response".to_owned()));
    }
    if !check_list_entries(guid_entries, false) {
        return Err(UFMError::InvalidConfig("invalid response".to_owned()));
    }
    let n: usize = qos_entries.len();
    let mut parts: Vec<Partition> = Vec::new();
    let mut i: usize = 0;
    while i < n
        invariant
            n == qos_entries@.len(),
            i <= n,
            qos_body matches JsonValue::Obj(qes) && qes@ == qos_entries@,
            guids_body matches JsonValue::Obj(ges) && ges@ == guid_entries@,
            qos_records_ok(qos_entries@),
            list_records_ok(guid_entries@),
            parts@.len() == i,
            forall|j: int|
                0 <= j < i ==> util::spec_parse_pkey(#[trigger] qos_entries@[j].0@) is Some,
            forall|j: int|
                0 <= j < i ==> row_matches(
                    #[trigger] parts@[j],
                    qos_entries@[j].0,
                    qos_entries@[j].1,
                    *guids_body,
                ),
        decreases n - i,
    {
        let key: &String = &qos_entries[i].0;
        let kv: i32 = match util::parse_pkey(key) {
            Ok(v) => v,
            Err(e) => {
                proof {
                    let wi = i as int;
                    assert(util::spec_parse_pkey(qos_entries@[wi].0@) is None);
                    assert(!all_keys_parse(qos_entries@));
                }
                return Err(e);
            },
        };
        let lr: ListRecord = match parse_list_record(&qos_entries[i].1) {
            Some(lr) => lr,
            None => {
                proof {
                    assert(spec_list_record(qos_entries@[i as int].1) is Some);
                    assert(false);
                }
                return Err(UFMError::InvalidConfig("invalid response".to_owned()));
            },
        };
        let qos: PartitionQoS = match lr.qos {
            Some(q) => q,
            None => {
                proof {
                    assert(spec_list_record(qos_entries@[i as int].1) matches Some(rec)
                        && rec.2 is Some);
                    assert(false);
                }
                return Err(UFMError::InvalidConfig("invalid response".to_owned()));
            },
        };
        let guids: Vec<PortConfig> = match obj_get(guid_entries, key.as_str()) {
            None => Vec::new(),
            Some(gv) => {
                match parse_list_record(gv) {
                    Some(glr) => match glr.guids {
                        Some(g) => g,
                        None => Vec::new(),
                    },
                    None => {
                        proof {
                            crate::json::lemma_lookup_in_entries(guid_entries@, key@);
                            assert(false);
                        }
                        return Err(UFMError::InvalidConfig("invalid response".to_owned()));
                    },
                }
            },
        };
        parts.push(Partition { name: lr.name, pkey: PartitionKey(kv), ipoib: lr.ipoib, qos, guids });
        proof {
            assert(row_matches(
                parts@[i as int],
                qos_entries@[i as int].0,
                qos_entries@[i as int].1,
                *guids_body,
            ));
        }
        i += 1;
    }
    Ok(parts)
}

} // verus!
