//! Which HTTP client WebDAV requests go through: the strict one, or, when the
//! user opts in, the one that accepts self-signed certificates.

use vstd::prelude::*;

verus! {

/// Whether requests skip server certificate validation (self-signed or
/// privately signed certificates of intranet servers).
#[derive(Clone, Copy, Debug, PartialEq, Eq, Structural)]
pub struct HttpTrust {
    pub accept_self_signed: bool,
}

/// The two clients a request can go through.
#[derive(Clone, Copy, Debug, PartialEq, Eq, Structural)]
pub enum ClientKind {
    /// Validates server certificates.
    Strict,
    /// Accepts invalid certificates.
    Relaxed,
}

impl HttpTrust {
    /// Certificates are validated until the user opts out.
    pub fn new() -> (r: Self)
        ensures
            !r.accept_self_signed,
    {
        HttpTrust { accept_self_signed: false }
    }

    /// The client the next request goes through.
    pub fn client_for_request(&self) -> (r: ClientKind)
        ensures
            r == (if self.accept_self_signed { ClientKind::Relaxed } else { ClientKind::Strict }),
    {
        if self.accept_self_signed {
            ClientKind::Relaxed
        } else {
            ClientKind::Strict
        }
    }
}

/// Sets whether requests accept self-signed certificates.
pub fn set_trust_self_signed(trust: &mut HttpTrust, accept: bool)
    ensures
        final(trust).accept_self_signed == accept,
{
    trust.accept_self_signed = accept;
}

} // verus!
