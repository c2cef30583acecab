//! The domain error taxonomy and the translation of transport errors
//! into it.

use vstd::prelude::*;
use vstd::string::StringExecFns;

use crate::rest::RestError;

verus! {

/// A failure surfaced by the client.
///
/// `Unknown` is an unclassified transport or server failure.
/// `NotFound` reports an absent resource, including a `get` that the
/// server answered with an empty object.  `InvalidPKey` is a local
/// partition-key parse failure, raised before any network call.
/// `InvalidConfig` covers a bad address or host, bad credentials, and
/// invalid wire payloads.
#[derive(Debug)]
pub enum UFMError {
    Unknown(String),
    NotFound(String),
    InvalidPKey(String),
    InvalidConfig(String),
}

impl UFMError {
    /// The human-readable text of this error.
    pub open spec fn spec_message(&self) -> Seq<char> {
        match self {
            UFMError::Unknown(m) => m@,
            UFMError::NotFound(m) => "'"@ + m@ + "' not found"@,
            UFMError::InvalidPKey(m) => "invalid pkey '"@ + m@ + "'"@,
            UFMError::InvalidConfig(m) => "invalid configuration '"@ + m@ + "'"@,
        }
    }

    /// Renders the error as text, one line, without a trailing newline.
    pub fn message(&self) -> (r: String)
        ensures
            r@ == self.spec_message(),
    {
        match self {
            UFMError::Unknown(m) => m.clone(),
            UFMError::NotFound(m) => {
                let mut r = "'".to_owned();
                r.append(m.as_str());
                r.append("' not found");
                assert(r@ =~= self.spec_message());
                r
            },
            UFMError::InvalidPKey(m) => {
                let mut r = "invalid pkey '".to_owned();
                r.append(m.as_str());
                r.append("'");
                assert(r@ =~= self.spec_message());
                r
            },
            UFMError::InvalidConfig(m) => {
                let mut r = "invalid configuration '".to_owned();
                r.append(m.as_str());
                r.append("'");
                assert(r@ =~= self.spec_message());
                r
            },
        }
    }

    /// The translation a transport error goes through before it
    /// reaches a caller: `Unknown` and `NotFound` keep their kind and
    /// message, while `AuthFailure` collapses into `InvalidConfig`,
    /// credentials being a client configuration concern.  `InvalidPKey`
    /// is never produced here.
    pub open spec fn spec_from_rest(e: RestError) -> UFMError {
        match e {
            RestError::Unknown(m) => UFMError::Unknown(m),
            RestError::NotFound(m) => UFMError::NotFound(m),
            RestError::AuthFailure(m) => UFMError::InvalidConfig(m),
            RestError::InvalidConfig(m) => UFMError::InvalidConfig(m),
        }
    }

    /// A transport `NotFound` surfaces as the domain `NotFound`, with
    /// its message kept — never as `Unknown`.
    pub proof fn lemma_not_found_passes_through(m: String)
        ensures
            UFMError::spec_from_rest(RestError::NotFound(m)) == UFMError::NotFound(m),
    {
    }

    /// Maps a transport error onto the domain taxonomy; the total,
    /// explicit counterpart of `spec_from_rest`.
    pub fn from_rest(e: RestError) -> (r: UFMError)
        ensures
            r == UFMError::spec_from_rest(e),
    {
        match e {
            RestError::Unknown(m) => UFMError::Unknown(m),
            RestError::NotFound(m) => UFMError::NotFound(m),
            RestError::AuthFailure(m) => UFMError::InvalidConfig(m),
            RestError::InvalidConfig(m) => UFMError::InvalidConfig(m),
        }
    }
}

} // verus!
