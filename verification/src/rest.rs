//! Types of the transport collaborator's interface: the error kinds a
//! transport call can report, the scheme it talks, and the
//! configuration it is constructed from.
//!
//! The transport itself (connection handling, TLS, verb execution)
//! lives outside this crate; these types are the vocabulary the core
//! shares with it.

use vstd::prelude::*;
use vstd::string::StringExecFns;

use crate::text::eq_ignore_ascii_case;
use crate::text::str_eq_ignore_ascii_case;

verus! {

/// A failure reported by the transport collaborator, before the core
/// translates it into the domain taxonomy.
#[derive(Debug)]
pub enum RestError {
    Unknown(String),
    NotFound(String),
    AuthFailure(String),
    InvalidConfig(String),
}

impl RestError {
    /// The human-readable text of this transport error.
    pub open spec fn spec_message(&self) -> Seq<char> {
        match self {
            RestError::Unknown(m) => m@,
            RestError::NotFound(m) => "'"@ + m@ + "' not found"@,
            RestError::AuthFailure(m) => "failed to auth '"@ + m@ + "'"@,
            RestError::InvalidConfig(m) => "invalid configuration '"@ + m@ + "'"@,
        }
    }

    /// Renders the error as text, one line, without a trailing newline.
    pub fn message(&self) -> (r: String)
        ensures
            r@ == self.spec_message(),
    {
        match self {
            RestError::Unknown(m) => m.clone(),
            RestError::NotFound(m) => {
                let mut r = "'".to_owned();
                r.append(m.as_str());
                r.append("' not found");
                assert(r@ =~= self.spec_message());
                r
            },
            RestError::AuthFailure(m) => {
                let mut r = "failed to auth '".to_owned();
                r.append(m.as_str());
                r.append("'");
                assert(r@ =~= self.spec_message());
                r
            },
            RestError::InvalidConfig(m) => {
                let mut r = "invalid configuration '".to_owned();
                r.append(m.as_str());
                r.append("'");
                assert(r@ =~= self.spec_message());
                r
            },
        }
    }
}

/// The scheme a transport connection uses.
#[derive(Clone, Copy, Debug, PartialEq, Eq, Structural)]
pub enum RestScheme {
    Http,
    Https,
}

impl RestScheme {
    /// The scheme named by `text`: `"http"` or `"https"`, compared
    /// without regard to ASCII case; any other text falls back to
    /// `Http`.
    pub open spec fn spec_from_text(text: Seq<char>) -> RestScheme {
        if eq_ignore_ascii_case(text, "http"@) {
            RestScheme::Http
        } else if eq_ignore_ascii_case(text, "https"@) {
            RestScheme::Https
        } else {
            RestScheme::Http
        }
    }

    /// Reads a scheme from its text form, falling back to `Http` on
    /// anything unrecognised.
    pub fn from_text(text: &str) -> (r: RestScheme)
        ensures
            r == RestScheme::spec_from_text(text@),
    {
        if str_eq_ignore_ascii_case(text, "http") {
            RestScheme::Http
        } else if str_eq_ignore_ascii_case(text, "https") {
            RestScheme::Https
        } else {
            RestScheme::Http
        }
    }

    /// The canonical lower-case text of the scheme.
    pub open spec fn spec_as_text(self) -> Seq<char> {
        match self {
            RestScheme::Http => "http"@,
            RestScheme::Https => "https"@,
        }
    }

    /// Writes the scheme in its canonical lower-case text form.
    pub fn as_text(&self) -> (r: String)
        ensures
            r@ == self.spec_as_text(),
    {
        match self {
            RestScheme::Http => "http".to_owned(),
            RestScheme::Https => "https".to_owned(),
        }
    }
}

/// What a transport client is constructed from: the host, an optional
/// port, the scheme, and the credentials the fabric manager expects.
pub struct RestClientConfig {
    pub username: String,
    pub password: String,
    pub address: String,
    pub port: Option<u16>,
    pub scheme: RestScheme,
}

} // verus!
