//! The typed partition/port domain model: immutable value records
//! built freshly from each server response, never cached.

use vstd::prelude::*;

use crate::error::UFMError;
use crate::text::eq_ignore_ascii_case;
use crate::text::str_eq_ignore_ascii_case;
use crate::util;

verus! {

/// How a port participates in a partition: a full member talks to
/// every member, a limited member talks to everyone but other limited
/// members.
#[derive(Clone, Copy, Debug, PartialEq, Eq, Structural)]
pub enum PortMembership {
    Limited,
    Full,
}

impl PortMembership {
    /// The membership's wire text: `"full"` or `"limited"`.
    pub open spec fn spec_as_text(self) -> Seq<char> {
        match self {
            PortMembership::Full => "full"@,
            PortMembership::Limited => "limited"@,
        }
    }

    /// Writes the membership in its wire text form.
    pub fn as_text(&self) -> (r: String)
        ensures
            r@ == self.spec_as_text(),
    {
        match self {
            PortMembership::Full => "full".to_owned(),
            PortMembership::Limited => "limited".to_owned(),
        }
    }

    /// The membership a text names, compared without regard to ASCII
    /// case; unrecognised text names none.
    pub open spec fn spec_from_text(s: Seq<char>) -> Option<PortMembership> {
        if eq_ignore_ascii_case(s, "full"@) {
            Some(PortMembership::Full)
        } else if eq_ignore_ascii_case(s, "limited"@) {
            Some(PortMembership::Limited)
        } else {
            None
        }
    }

    /// Reads a membership from its text form.
    pub fn from_text(s: &str) -> (r: Option<PortMembership>)
        ensures
            r == PortMembership::spec_from_text(s@),
    {
        if str_eq_ignore_ascii_case(s, "full") {
            Some(PortMembership::Full)
        } else if str_eq_ignore_ascii_case(s, "limited") {
            Some(PortMembership::Limited)
        } else {
            None
        }
    }
}

/// One port bound into a partition: the port's GUID, whether this
/// pkey takes index 0 of the port's pkey table, and the membership.
#[derive(Debug, Clone)]
pub struct PortConfig {
    pub guid: String,
    pub index0: bool,
    pub membership: PortMembership,
}

/// A partition key.  The numeric value is conventionally constrained
/// to 15 significant bits plus a membership flag bit, but the client
/// does not enforce that.
#[derive(Clone, Copy, Debug, PartialEq, Eq, Structural)]
pub struct PartitionKey(pub i32);

impl PartitionKey {
    /// Decodes a key from text, as `util::parse_pkey` does.
    pub fn try_from(pkey: &String) -> (r: Result<PartitionKey, UFMError>)
        ensures
            match util::spec_parse_pkey(pkey@) {
                Some(v) => r == Ok::<PartitionKey, UFMError>(PartitionKey(v)),
                None => r == Err::<PartitionKey, UFMError>(UFMError::InvalidPKey(*pkey)),
            },
    {
        match util::parse_pkey(pkey) {
            Ok(v) => Ok(PartitionKey(v)),
            Err(e) => Err(e),
        }
    }

    /// Writes the key in its canonical text form.
    pub fn to_text(&self) -> (r: String)
        ensures
            r@ == util::spec_build_pkey(self.0),
    {
        util::build_pkey(self.0)
    }
}

/// The quality-of-service parameters of a partition.
#[derive(Debug, Clone)]
pub struct PartitionQoS {
    /// The MTU of the services; the server accepts 2048 or 4096.
    pub mtu_limit: u16,
    /// The service level, 0 through 15.
    pub service_level: u8,
    /// The rate limit, carried as the decimal text of one of the
    /// server's fixed link-speed values (for instance `2.5` or `100`).
    /// The client does not validate membership in that set; it only
    /// forwards the value.
    pub rate_limit: String,
}

/// A partition of the fabric.
#[derive(Debug)]
pub struct Partition {
    /// The server-assigned name; empty on creation requests.
    pub name: String,
    /// The partition key.
    pub pkey: PartitionKey,
    /// Whether IP over InfiniBand is enabled.
    pub ipoib: bool,
    /// The partition's quality of service.
    pub qos: PartitionQoS,
    /// The ports bound into the partition, in order.
    pub guids: Vec<PortConfig>,
}

/// A read-only snapshot of a fabric port, sourced entirely from the
/// server.
#[derive(Debug, Clone)]
pub struct Port {
    pub guid: String,
    pub name: String,
    pub system_id: String,
    pub lid: i32,
    pub dname: String,
    pub system_name: String,
    pub physical_state: String,
    pub logical_state: String,
}

/// True when the text `g` stands among `gs`.
pub open spec fn guid_listed(gs: Seq<String>, g: Seq<char>) -> bool {
    exists|i: int| 0 <= i < gs.len() && gs[i]@ == g
}

/// A client-side port filter: an optional set of GUIDs.
pub struct Filter {
    pub guids: Option<Vec<String>>,
}

impl Filter {
    /// A port passes the filter when the filter holds no GUID set, or
    /// when the port's GUID is listed in it.
    pub open spec fn spec_valid(&self, p: &Port) -> bool {
        match self.guids {
            None => true,
            Some(gs) => guid_listed(gs@, p.guid@),
        }
    }

    /// Decides whether the port `p` passes this filter.
    pub fn valid(&self, p: &Port) -> (r: bool)
        ensures
            r == self.spec_valid(p),
    {
        match &self.guids {
            None => true,
            Some(gs) => {
                let n: usize = gs.len();
                let mut i: usize = 0;
                while i < n
                    invariant
                        n == gs@.len(),
                        i <= n,
                        self.guids matches Some(v) && v@ == gs@,
                        forall|j: int| 0 <= j < i ==> gs@[j]@ != p.guid@,
                    decreases n - i,
                {
                    if gs[i].eq(&p.guid) {
                        proof {
                            let wi = i as int;
                            assert(0 <= wi < gs@.len() && gs@[wi]@ == p.guid@);
                            assert(guid_listed(gs@, p.guid@));
                        }
                        return true;
                    }
                    i += 1;
                }
                false
            },
        }
    }

    /// A filter that holds no GUID set admits every port.
    pub proof fn lemma_no_filter_admits_all(&self, p: &Port)
        requires
            self.guids is None,
        ensures
            self.spec_valid(p),
    {
    }

    /// Derives the filter that means "only this partition's ports"
    /// from a partition's guid-binding list.
    pub fn from_bindings(bindings: &Vec<PortConfig>) -> (r: Filter)
        ensures
            r.guids matches Some(gs) && gs@ == bindings@.map_values(
                |pc: PortConfig| pc.guid,
            ),
    {
        let n: usize = bindings.len();
        let mut gs: Vec<String> = Vec::new();
        let mut i: usize = 0;
        while i < n
            invariant
                n == bindings@.len(),
                i <= n,
                gs@ == bindings@.take(i as int).map_values(|pc: PortConfig| pc.guid),
            decreases n - i,
        {
            gs.push(bindings[i].guid.clone());
            proof {
                assert(gs@ =~= bindings@.take(i as int + 1).map_values(
                    |pc: PortConfig| pc.guid,
                ));
            }
            i += 1;
        }
        proof {
            assert(bindings@.take(n as int) =~= bindings@);
        }
        Filter { guids: Some(gs) }
    }
}

} // verus!
