//! The decisions of the HTTP proxy handler: what each request gets, from
//! the authentication outcome, its method and its target.
use vstd::prelude::*;
use crate::auth::{AuthError, Authenticator};
use crate::extension::Extension;

verus! {

/// What the handler does with a request.
#[derive(Clone, Copy, Debug, PartialEq, Eq, Structural)]
pub enum HttpAction {
    /// Answer with the status of the authentication failure.
    Reject(AuthError),
    /// Answer 400: a CONNECT request without an authority.
    BadConnect,
    /// Answer 200 with an empty body, then tunnel to the authority.
    Tunnel(Extension),
    /// Send the request on through the forwarding client.
    Forward(Extension),
}

/// The action for a request whose authentication came out as `auth`.
pub open spec fn action_spec(
    auth: Result<Extension, AuthError>,
    is_connect: bool,
    has_authority: bool,
) -> HttpAction {
    match auth {
        Err(e) => HttpAction::Reject(e),
        Ok(ext) => if !is_connect {
            HttpAction::Forward(ext)
        } else if has_authority {
            HttpAction::Tunnel(ext)
        } else {
            HttpAction::BadConnect
        },
    }
}

/// The action for an authentication outcome, a method (CONNECT or not),
/// and whether the request URI carries an authority.
pub fn action_for(auth: Result<Extension, AuthError>, is_connect: bool, has_authority: bool) -> (r:
    HttpAction)
    ensures
        r == action_spec(auth, is_connect, has_authority),
{
    match auth {
        Err(e) => HttpAction::Reject(e),
        Ok(ext) => if !is_connect {
            HttpAction::Forward(ext)
        } else if has_authority {
            HttpAction::Tunnel(ext)
        } else {
            HttpAction::BadConnect
        },
    }
}

/// The action for a request: authenticate its `Proxy-Authorization`
/// value, then tunnel a CONNECT to its authority, refuse a CONNECT
/// without one, or forward any other method.
pub fn decide(
    authenticator: &Authenticator,
    header: Option<&[u8]>,
    is_connect: bool,
    has_authority: bool,
) -> (r: HttpAction)
    ensures
        r == action_spec(
            authenticator.authenticate_result(
                match header {
                    Some(h) => Some(h@),
                    None => None,
                },
            ),
            is_connect,
            has_authority,
        ),
{
    action_for(authenticator.authenticate(header), is_connect, has_authority)
}

impl AuthError {
    /// The HTTP status of the refusal: 407 for a missing or malformed
    /// credential, 403 for a mismatch.
    pub fn status(&self) -> (r: u16)
        ensures
            r == match self {
                AuthError::ProxyAuthenticationRequired => 407u16,
                AuthError::Forbidden => 403u16,
            },
    {
        match self {
            AuthError::ProxyAuthenticationRequired => 407,
            AuthError::Forbidden => 403,
        }
    }

    /// The `Proxy-Authenticate` challenge sent with the refusal, if any.
    pub fn challenge(&self) -> (r: Option<String>)
        ensures
            match self {
                AuthError::ProxyAuthenticationRequired => r is Some && r->Some_0@
                    == "Basic realm=\"Proxy\""@,
                AuthError::Forbidden => r is None,
            },
    {
        match self {
            AuthError::ProxyAuthenticationRequired => Some(
                String::from_str("Basic realm=\"Proxy\""),
            ),
            AuthError::Forbidden => None,
        }
    }
}

/// The body of the 400 answer to a CONNECT without an authority.
pub fn bad_connect_body() -> (r: String)
    ensures
        r@ == "CONNECT must be to a socket address"@,
{
    String::from_str("CONNECT must be to a socket address")
}

} // verus!
