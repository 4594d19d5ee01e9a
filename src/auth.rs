//! Proxy authentication: a configured username and password, checked
//! against the HTTP `Proxy-Authorization: Basic` credential or the SOCKS5
//! username/password request. The presented username may extend the
//! configured one with a tag, which selects the request's extension.
use vstd::prelude::*;
use vstd::string::StringSliceAdditionalSpecFns;
use vstd::utf8::{encode_utf8, valid_utf8};
use crate::extension::{extension_of, parser, Extension};
use crate::text::{has_prefix, starts_with, tail_from, take_range};

verus! {

/// What base64's standard engine decodes `input` to, or `None` where it
/// rejects the input.
pub uninterp spec fn base64_decoded(input: Seq<u8>) -> Option<Seq<u8>>;

/// Relies on `base64::engine::general_purpose::STANDARD.decode`: the
/// decoded bytes, or an error for input that is not standard base64 with
/// padding.
#[verifier::external_body]
fn decode_base64(input: &[u8]) -> (r: Option<Vec<u8>>)
    ensures
        match r {
            Some(v) => base64_decoded(input@) == Some(v@),
            None => base64_decoded(input@) is None,
        },
{
    base64::Engine::decode(&base64::engine::general_purpose::STANDARD, input).ok()
}

/// Relies on `std::str::from_utf8`: it accepts exactly the well-formed
/// UTF-8 byte strings.
#[verifier::external_body]
fn is_utf8(bytes: &[u8]) -> (r: bool)
    ensures
        r == valid_utf8(bytes@),
{
    std::str::from_utf8(bytes).is_ok()
}

/// Why a request was refused.
#[derive(Clone, Copy, Debug, PartialEq, Eq, Structural)]
pub enum AuthError {
    /// The credential is missing or malformed (HTTP 407).
    ProxyAuthenticationRequired,
    /// The credential does not match (HTTP 403).
    Forbidden,
}

/// The configured proxy credential, if any.
#[derive(Clone, Debug)]
pub enum Authenticator {
    /// Every request is accepted.
    NoAuth,
    /// Requests must present this username (or an extension of it) and
    /// this password.
    Password { username: Vec<u8>, password: Vec<u8> },
}

/// The username and password options of the command line; authentication
/// is on only when both are given.
#[derive(Clone, Debug)]
pub struct AuthMode {
    pub username: Option<String>,
    pub password: Option<String>,
}

/// The bytes of `Basic `.
pub open spec fn basic_prefix() -> Seq<u8> {
    seq![66u8, 97u8, 115u8, 105u8, 99u8, 32u8]
}

/// The index of the last `b` in `s`.
pub open spec fn last_index_of(s: Seq<u8>, b: u8) -> Option<int>
    decreases s.len(),
{
    if s.len() == 0 {
        None
    } else if s.last() == b {
        Some(s.len() - 1)
    } else {
        last_index_of(s.drop_last(), b)
    }
}

/// The outcome of checking the decoded credential `user:pass` against the
/// configured `username` and `password`. The split is at the last `:`;
/// the presented username must start with the configured one and the
/// password must match byte for byte.
pub open spec fn credentials_result(username: Seq<u8>, password: Seq<u8>, decoded: Seq<u8>) -> Result<
    Extension,
    AuthError,
> {
    if !valid_utf8(decoded) {
        Err(AuthError::ProxyAuthenticationRequired)
    } else {
        match last_index_of(decoded, 58u8) {
            None => Err(AuthError::ProxyAuthenticationRequired),
            Some(i) => {
                let user = decoded.subrange(0, i);
                let pass = decoded.skip(i + 1);
                if has_prefix(user, username) && pass == password {
                    Ok(extension_of(username, user))
                } else {
                    Err(AuthError::Forbidden)
                }
            },
        }
    }
}

/// The outcome of a presented username and password checked against the
/// configured ones (SOCKS5): the extension on a match.
pub open spec fn user_pass_result(
    username: Seq<u8>,
    password: Seq<u8>,
    user: Seq<u8>,
    pass: Seq<u8>,
) -> Option<Extension> {
    if has_prefix(user, username) && pass == password {
        Some(extension_of(username, user))
    } else {
        None
    }
}

fn basic_prefix_bytes() -> (r: Vec<u8>)
    ensures
        r@ == basic_prefix(),
{
    let r = vec![66u8, 97u8, 115u8, 105u8, 99u8, 32u8];
    assert(r@ =~= basic_prefix());
    r
}

fn bytes_of(s: &str) -> (r: Vec<u8>)
    ensures
        r@ == s.spec_bytes(),
{
    let b = s.as_bytes();
    let r = tail_from(b, 0);
    assert(b@.skip(0) =~= b@);
    r
}

/// The index of the last `b` in `s`.
pub fn rfind(s: &[u8], b: u8) -> (r: Option<usize>)
    ensures
        match last_index_of(s@, b) {
            Some(i) => r == Some(i as usize),
            None => r is None,
        },
{
    let mut i: usize = s.len();
    assert(s@.subrange(0, s@.len() as int) =~= s@);
    while i > 0
        invariant
            i <= s@.len(),
            last_index_of(s@, b) == last_index_of(s@.subrange(0, i as int), b),
        decreases i,
    {
        assert(s@.subrange(0, i as int).drop_last() =~= s@.subrange(0, i - 1));
        if s[i - 1] == b {
            return Some(i - 1);
        }
        i = i - 1;
    }
    assert(s@.subrange(0, 0).len() == 0);
    None
}

proof fn lemma_last_index_of(s: Seq<u8>, b: u8)
    ensures
        match last_index_of(s, b) {
            Some(i) => 0 <= i < s.len() && s[i] == b,
            None => true,
        },
    decreases s.len(),
{
    if s.len() > 0 && s.last() != b {
        lemma_last_index_of(s.drop_last(), b);
    }
}

impl Authenticator {
    /// Password authentication with the given username and password.
    pub fn password(username: &str, password: &str) -> (r: Authenticator)
        ensures
            r is Password,
            r->username@ == username.spec_bytes(),
            r->password@ == password.spec_bytes(),
    {
        Authenticator::Password { username: bytes_of(username), password: bytes_of(password) }
    }

    /// Password authentication when the mode names both a username and a
    /// password; none otherwise.
    pub fn from_mode(mode: &AuthMode) -> (r: Authenticator)
        ensures
            match (mode.username, mode.password) {
                (Some(u), Some(p)) => r is Password && r->username@ == encode_utf8(u@)
                    && r->password@ == encode_utf8(p@),
                _ => r is NoAuth,
            },
    {
        match (&mode.username, &mode.password) {
            (Some(u), Some(p)) => Authenticator::password(u.as_str(), p.as_str()),
            _ => Authenticator::NoAuth,
        }
    }

    /// The outcome for the `Proxy-Authorization` header value `header`.
    pub open spec fn authenticate_result(&self, header: Option<Seq<u8>>) -> Result<
        Extension,
        AuthError,
    > {
        match self {
            Authenticator::NoAuth => Ok(Extension::Empty),
            Authenticator::Password { username, password } => match header {
                None => Err(AuthError::ProxyAuthenticationRequired),
                Some(h) => if !has_prefix(h, basic_prefix()) {
                    Err(AuthError::ProxyAuthenticationRequired)
                } else {
                    match base64_decoded(h.skip(6)) {
                        None => Err(AuthError::ProxyAuthenticationRequired),
                        Some(decoded) => credentials_result(username@, password@, decoded),
                    }
                },
            },
        }
    }

    /// Checks the value of the `Proxy-Authorization` header (`None` when
    /// the header is absent or not visible ASCII). Without a configured
    /// credential every request passes with no extension. Otherwise the
    /// value must read `Basic ` and the base64 of `user:pass`; a missing
    /// or malformed credential gives `ProxyAuthenticationRequired`, a
    /// mismatch `Forbidden`, and a match the extension that the presented
    /// username selects.
    pub fn authenticate(&self, header: Option<&[u8]>) -> (r: Result<Extension, AuthError>)
        ensures
            r == self.authenticate_result(
                match header {
                    Some(h) => Some(h@),
                    None => None,
                },
            ),
    {
        match self {
            Authenticator::NoAuth => Ok(Extension::Empty),
            Authenticator::Password { .. } => {
                let h = match header {
                    Some(h) => h,
                    None => {
                        return Err(AuthError::ProxyAuthenticationRequired);
                    },
                };
                let basic = basic_prefix_bytes();
                if !starts_with(h, basic.as_slice()) {
                    return Err(AuthError::ProxyAuthenticationRequired);
                }
                let encoded = tail_from(h, 6);
                match decode_base64(encoded.as_slice()) {
                    None => Err(AuthError::ProxyAuthenticationRequired),
                    Some(decoded) => self.check_credentials(decoded.as_slice()),
                }
            },
        }
    }

    /// Checks a decoded `user:pass` credential against the configured one.
    pub fn check_credentials(&self, decoded: &[u8]) -> (r: Result<Extension, AuthError>)
        ensures
            match self {
                Authenticator::NoAuth => r == Ok::<Extension, AuthError>(Extension::Empty),
                Authenticator::Password { username, password } => r == credentials_result(
                    username@,
                    password@,
                    decoded@,
                ),
            },
    {
        match self {
            Authenticator::NoAuth => Ok(Extension::Empty),
            Authenticator::Password { username, password } => {
                if !is_utf8(decoded) {
                    return Err(AuthError::ProxyAuthenticationRequired);
                }
                proof {
                    lemma_last_index_of(decoded@, 58u8);
                }
                let colon = match rfind(decoded, 58u8) {
                    Some(i) => i,
                    None => {
                        return Err(AuthError::ProxyAuthenticationRequired);
                    },
                };
                let n = decoded.len();
                assert(colon < n);
                let user = take_range(decoded, 0, colon);
                let pass = tail_from(decoded, colon + 1);
                assert(pass@ == decoded@.skip(colon + 1));
                match check_user_pass(username.as_slice(), password.as_slice(), user.as_slice(), pass.as_slice()) {
                    Some(ext) => Ok(ext),
                    None => Err(AuthError::Forbidden),
                }
            },
        }
    }
}

/// Whether two byte strings are equal.
pub fn bytes_eq(a: &[u8], b: &[u8]) -> (r: bool)
    ensures
        r == (a@ == b@),
{
    if a.len() != b.len() {
        return false;
    }
    let mut i: usize = 0;
    while i < a.len()
        invariant
            a@.len() == b@.len(),
            i <= a@.len(),
            forall|j: int| 0 <= j < i ==> a@[j] == b@[j],
        decreases a@.len() - i,
    {
        if a[i] != b[i] {
            return false;
        }
        i = i + 1;
    }
    assert(a@ =~= b@);
    true
}

/// Checks a presented username and password against the configured ones:
/// the presented username must start with the configured one and the
/// passwords must be equal. On a match, the extension that the presented
/// username selects.
pub fn check_user_pass(username: &[u8], password: &[u8], user: &[u8], pass: &[u8]) -> (r: Option<
    Extension,
>)
    ensures
        r == user_pass_result(username@, password@, user@, pass@),
{
    if starts_with(user, username) && bytes_eq(pass, password) {
        Some(parser(username, user))
    } else {
        None
    }
}

} // verus!
