//! The port service's computational core: translation of wire port
//! resources into the domain model, and client-side filtering.
//!
//! The server has no partition-scoped port query: a caller fetches all
//! ports of the `Computer` system type and filters them here.

use vstd::prelude::*;

use crate::error::UFMError;
use crate::json::spec_parse_i32;
use crate::json::parse_i32_text;
use crate::json::JsonValue;
use crate::json::obj_get;
use crate::model::Filter;
use crate::model::Port;

verus! {

/// The path that lists every port of the `Computer` system type.
pub fn ports_path() -> (r: String)
    ensures
        r@ == "/ufmRest/resources/ports?sys_type=Computer"@,
{
    "/ufmRest/resources/ports?sys_type=Computer".to_owned()
}

/// The port a wire port resource describes: an object carrying the
/// port's text fields and its numeric `lid`.  A resource of any other
/// shape describes none.
pub open spec fn spec_port_of(v: JsonValue) -> Option<Port> {
    match (
        v.spec_get("guid"@),
        v.spec_get("name"@),
        v.spec_get("systemID"@),
        v.spec_get("lid"@),
        v.spec_get("dname"@),
        v.spec_get("system_name"@),
        v.spec_get("physical_state"@),
        v.spec_get("logical_state"@),
    ) {
        (
            Some(JsonValue::Str(guid)),
            Some(JsonValue::Str(name)),
            Some(JsonValue::Str(system_id)),
            Some(JsonValue::Num(lid_text)),
            Some(JsonValue::Str(dname)),
            Some(JsonValue::Str(system_name)),
            Some(JsonValue::Str(physical_state)),
            Some(JsonValue::Str(logical_state)),
        ) => {
            match spec_parse_i32(lid_text@) {
                Some(lid) => Some(
                    Port {
                        guid,
                        name,
                        system_id,
                        lid,
                        dname,
                        system_name,
                        physical_state,
                        logical_state,
                    },
                ),
                None => None,
            }
        },
        _ => None,
    }
}

/// Reads one wire port resource.
pub fn parse_port(v: &JsonValue) -> (r: Option<Port>)
    ensures
        r == spec_port_of(*v),
{
    let entries = match v {
        JsonValue::Obj(entries) => entries,
        _ => { return None },
    };
    let guid: &String = match obj_get(entries, "guid") {
        Some(JsonValue::Str(s)) => s,
        _ => { return None },
    };
    let name: &String = match obj_get(entries, "name") {
        Some(JsonValue::Str(s)) => s,
        _ => { return None },
    };
    let system_id: &String = match obj_get(entries, "systemID") {
        Some(JsonValue::Str(s)) => s,
        _ => { return None },
    };
    let lid_text: &String = match obj_get(entries, "lid") {
        Some(JsonValue::Num(s)) => s,
        _ => { return None },
    };
    let dname: &String = match obj_get(entries, "dname") {
        Some(JsonValue::Str(s)) => s,
        _ => { return None },
    };
    let system_name: &String = match obj_get(entries, "system_name") {
        Some(JsonValue::Str(s)) => s,
        _ => { return None },
    };
    let physical_state: &String = match obj_get(entries, "physical_state") {
        Some(JsonValue::Str(s)) => s,
        _ => { return None },
    };
    let logical_state: &String = match obj_get(entries, "logical_state") {
        Some(JsonValue::Str(s)) => s,
        _ => { return None },
    };
    let lid: i32 = match parse_i32_text(lid_text.as_str()) {
        Some(l) => l,
        None => { return None },
    };
    Some(
        Port {
            guid: guid.clone(),
            name: name.clone(),
            system_id: system_id.clone(),
            lid,
            dname: dname.clone(),
            system_name: system_name.clone(),
            physical_state: physical_state.clone(),
            logical_state: logical_state.clone(),
        },
    )
}

/// The ports a sequence of wire resources describes, in order; none
/// when any resource is malformed.
pub open spec fn spec_ports_of_items(items: Seq<JsonValue>) -> Option<Seq<Port>>
    decreases items.len(),
{
    if items.len() == 0 {
        Some(Seq::<Port>::empty())
    } else {
        match (spec_ports_of_items(items.drop_last()), spec_port_of(items.last())) {
            (Some(s), Some(p)) => Some(s.push(p)),
            _ => None,
        }
    }
}

/// The ports a wire response body describes: an array of port
/// resources; anything else describes none.
pub open spec fn spec_ports_of(v: JsonValue) -> Option<Seq<Port>> {
    match v {
        JsonValue::Arr(items) => spec_ports_of_items(items@),
        _ => None,
    }
}

/// A well-formed run of port resources stays well formed when cut
/// short.
proof fn lemma_ports_items_prefix(items: Seq<JsonValue>, i: int)
    requires
        0 <= i <= items.len(),
        spec_ports_of_items(items) is Some,
    ensures
        spec_ports_of_items(items.take(i)) is Some,
    decreases items.len(),
{
    if i < items.len() {
        assert(items.take(i) =~= items.drop_last().take(i));
        lemma_ports_items_prefix(items.drop_last(), i);
    } else {
        assert(items.take(i) =~= items);
    }
}

/// Translates a port-list response body into ports.  A body that is
/// not an array of well-formed port resources is an invalid response.
pub fn parse_ports_response(body: &JsonValue) -> (r: Result<Vec<Port>, UFMError>)
    ensures
        match spec_ports_of(*body) {
            Some(s) => r matches Ok(ps) && ps@ == s,
            None => r matches Err(e) && e matches UFMError::InvalidConfig(m) && m@
                == "invalid response"@,
        },
{
    let items = match body {
        JsonValue::Arr(items) => items,
        _ => { return Err(UFMError::InvalidConfig("invalid response".to_owned())) },
    };
    let n: usize = items.len();
    let mut ps: Vec<Port> = Vec::new();
    let mut i: usize = 0;
    proof {
        assert(items@.take(0) =~= Seq::<JsonValue>::empty());
    }
    while i < n
        invariant
            n == items@.len(),
            i <= n,
            body matches JsonValue::Arr(its) && its@ == items@,
            spec_ports_of_items(items@.take(i as int)) == Some(ps@),
        decreases n - i,
    {
        let ghost done: Seq<JsonValue> = items@.take(i as int);
        let ghost next: Seq<JsonValue> = items@.take(i as int + 1);
        proof {
            assert(next.drop_last() =~= done);
            assert(next.last() == items@[i as int]);
        }
        match parse_port(&items[i]) {
            Some(p) => {
                ps.push(p);
            },
            None => {
                proof {
                    assert(spec_ports_of_items(next) is None);
                    if spec_ports_of_items(items@) is Some {
                        lemma_ports_items_prefix(items@, i as int + 1);
                    }
                }
                return Err(UFMError::InvalidConfig("invalid response".to_owned()));
            },
        }
        i += 1;
    }
    proof {
        assert(items@.take(n as int) =~= items@);
    }
    Ok(ps)
}

/// Whether a port passes an optional filter: no filter admits every
/// port.
pub open spec fn spec_passes(filter: Option<Filter>, p: Port) -> bool {
    match filter {
        None => true,
        Some(f) => f.spec_valid(&p),
    }
}

/// Keeps exactly the ports that pass the filter, in their response
/// order.  Callers inspecting the default/management partition should
/// pass no filter: that partition conceptually contains every host.
pub fn filter_ports(filter: Option<Filter>, ports: Vec<Port>) -> (r: Vec<Port>)
    ensures
        r@ == ports@.filter(|p: Port| spec_passes(filter, p)),
{
    let ghost orig: Seq<Port> = ports@;
    let empty = Filter { guids: None };
    let f: &Filter = match &filter {
        None => &empty,
        Some(g) => g,
    };
    let mut rest: Vec<Port> = ports;
    let mut acc: Vec<Port> = Vec::new();
    let ghost mut k: int = 0;
    proof {
        assert(orig.take(0) =~= Seq::<Port>::empty());
        reveal(Seq::filter);
        assert(rest@ =~= orig.skip(0));
    }
    while rest.len() > 0
        invariant
            0 <= k <= orig.len(),
            rest@ == orig.skip(k),
            acc@ == orig.take(k).filter(|p: Port| spec_passes(filter, p)),
            forall|p: Port| f.spec_valid(&p) == #[trigger] spec_passes(filter, p),
        decreases rest@.len(),
    {
        let p: Port = rest.remove(0);
        proof {
            assert(p == orig.skip(k)[0]);
            assert(p == orig[k]);
            assert(rest@ =~= orig.skip(k + 1));
            assert(orig.take(k + 1).drop_last() =~= orig.take(k));
            assert(orig.take(k + 1).last() == orig[k]);
            reveal(Seq::filter);
        }
        let keep: bool = f.valid(&p);
        if keep {
            acc.push(p);
        }
        proof {
            assert(acc@ =~= orig.take(k + 1).filter(|q: Port| spec_passes(filter, q)));
            k = k + 1;
        }
    }
    proof {
        assert(orig.take(orig.len() as int) =~= orig);
        assert(k == orig.len());
    }
    acc
}

} // verus!
