//! Client-side core of an InfiniBand fabric partition manager.
//!
//! The library translates between wire JSON resources and a typed
//! partition/port domain model, encodes and decodes partition keys,
//! filters ports client-side, and maps transport failures onto a
//! unified error taxonomy.  The HTTP transport and the command-line
//! front end are collaborators outside this crate; they exchange plain
//! values with the functions here.

pub mod config;
mod error;
pub mod json;
mod model;
pub mod partition;
pub mod port;
pub mod rest;
mod text;
pub mod util;
pub mod version;

pub use config::UFMConfig;
pub use error::UFMError;
pub use model::Filter;
pub use model::Partition;
pub use model::PartitionKey;
pub use model::PartitionQoS;
pub use model::Port;
pub use model::PortConfig;
pub use model::PortMembership;
pub use rest::RestClientConfig;
pub use rest::RestError;
pub use rest::RestScheme;

use vstd::prelude::*;

verus! {

/// The partition key of the fabric's default/management partition,
/// which implicitly contains all hosts.
pub const DEFAULT_PKEY: i32 = 0x7fff;

} // verus!
