//! Client configuration, and its translation into the transport
//! collaborator's configuration.
//!
//! Configuration is an explicit value constructed once by the caller
//! and passed in; the core performs no implicit lookups.

use vstd::prelude::*;

use crate::error::UFMError;
use crate::rest::RestClientConfig;
use crate::rest::RestScheme;

verus! {

/// What a client is configured with: the fabric manager's address as
/// a URL, and the credentials it expects.
pub struct UFMConfig {
    pub address: String,
    pub username: String,
    pub password: String,
}

/// What parsing `s` as an absolute URL yields: nothing when `s` does
/// not parse; otherwise the URL's host (which some URLs lack), its
/// explicit port, and its scheme text.  URL parsing depends on the
/// text alone, so the outcome is a function of `s`.
pub uninterp spec fn spec_url_parts(s: Seq<char>) -> Option<
    (Option<Seq<char>>, Option<u16>, Seq<char>),
>;

/// Relies on `url::Url::parse`, and on the accessors `host_str`,
/// `port` and `scheme` to hand the parsed URL out as plain values:
/// the host when the URL carries one, the port written in the URL
/// (a scheme's default port counting as none), and the scheme text.
/// Text that does not parse yields nothing.
#[verifier::external_body]
fn url_parts(s: &str) -> (r: Option<(Option<String>, Option<u16>, String)>)
    ensures
        match r {
            Some(parts) => spec_url_parts(s@) matches Some(sp) && (match (parts.0, sp.0) {
                (Some(h), Some(sh)) => h@ == sh,
                (None, None) => true,
                _ => false,
            }) && parts.1 == sp.1 && parts.2@ == sp.2,
            None => spec_url_parts(s@) is None,
        },
{
    match url::Url::parse(s) {
        Ok(u) => Some((u.host_str().map(|h| h.to_string()), u.port(), u.scheme().to_string())),
        Err(_) => None,
    }
}

/// Derives the transport configuration from the client
/// configuration, once, at construction: an address that does not
/// parse as a URL, or parses to a host-less URL, is an invalid
/// configuration; otherwise the host and explicit port are taken
/// from the address URL, the scheme text maps onto a transport
/// scheme with anything unrecognised falling back to HTTP, and the
/// credentials are passed through.
pub fn resolve_config(conf: &UFMConfig) -> (r: Result<RestClientConfig, UFMError>)
    ensures
        match spec_url_parts(conf.address@) {
            None => r matches Err(e) && e matches UFMError::InvalidConfig(m) && m@
                == "invalid UFM url"@,
            Some(parts) => match parts.0 {
                None => r matches Err(e) && e matches UFMError::InvalidConfig(m) && m@
                    == "invalid UFM host"@,
                Some(host) => r matches Ok(c) && c.address@ == host && c.port == parts.1
                    && c.scheme == RestScheme::spec_from_text(parts.2) && c.username
                    == conf.username && c.password == conf.password,
            },
        },
{
    let parts: (Option<String>, Option<u16>, String) = match url_parts(conf.address.as_str()) {
        Some(p) => p,
        None => { return Err(UFMError::InvalidConfig("invalid UFM url".to_owned())) },
    };
    let host: String = match parts.0 {
        Some(h) => h,
        None => { return Err(UFMError::InvalidConfig("invalid UFM host".to_owned())) },
    };
    let scheme: RestScheme = RestScheme::from_text(parts.2.as_str());
    Ok(
        RestClientConfig {
            username: conf.username.clone(),
            password: conf.password.clone(),
            address: host,
            port: parts.1,
            scheme,
        },
    )
}

} // verus!
