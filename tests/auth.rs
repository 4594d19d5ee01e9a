use base64::Engine;
use vproxy::auth::{AuthError, AuthMode, Authenticator};
use vproxy::extension::Extension;
use vproxy::http::{bad_connect_body, decide, HttpAction};
use vproxy::socks::{password_status, AuthAdaptor, PasswordAuth};

fn basic(cred: &str) -> Vec<u8> {
    let mut v = b"Basic ".to_vec();
    v.extend_from_slice(base64::engine::general_purpose::STANDARD.encode(cred).as_bytes());
    v
}

#[test]
fn password_accepts_session_username() {
    let auth = Authenticator::password("u", "p");
    let header = basic("u-session-x:p");
    assert_eq!(
        auth.authenticate(Some(header.as_slice())),
        Ok(Extension::Session(fxhash::hash64("u-session-x".as_bytes())))
    );
}

#[test]
fn password_rejects_wrong_password() {
    let auth = Authenticator::password("u", "p");
    let header = basic("u:wrong");
    assert_eq!(auth.authenticate(Some(header.as_slice())), Err(AuthError::Forbidden));
}

#[test]
fn password_rejects_wrong_username() {
    let auth = Authenticator::password("alice", "pw");
    let header = basic("bob:pw");
    assert_eq!(auth.authenticate(Some(header.as_slice())), Err(AuthError::Forbidden));
}

#[test]
fn plain_username_gives_no_extension() {
    let auth = Authenticator::password("alice", "pw");
    let header = basic("alice:pw");
    assert_eq!(auth.authenticate(Some(header.as_slice())), Ok(Extension::Empty));
    let header = basic("alice-ttl-30:pw");
    assert_eq!(auth.authenticate(Some(header.as_slice())), Ok(Extension::TTL(30)));
}

#[test]
fn password_split_at_last_colon() {
    let auth = Authenticator::password("a:b", "pw");
    let header = basic("a:b:pw");
    assert_eq!(auth.authenticate(Some(header.as_slice())), Ok(Extension::Empty));
}

#[test]
fn missing_or_malformed_credential_requires_auth() {
    let auth = Authenticator::password("u", "p");
    assert_eq!(auth.authenticate(None), Err(AuthError::ProxyAuthenticationRequired));
    assert_eq!(
        auth.authenticate(Some(b"Bearer abc".as_slice())),
        Err(AuthError::ProxyAuthenticationRequired)
    );
    assert_eq!(
        auth.authenticate(Some(b"Basic !!!!".as_slice())),
        Err(AuthError::ProxyAuthenticationRequired)
    );
    let header = basic("nocolon");
    assert_eq!(
        auth.authenticate(Some(header.as_slice())),
        Err(AuthError::ProxyAuthenticationRequired)
    );
    assert_eq!(
        auth.check_credentials(&[0xff, b':', b'p']),
        Err(AuthError::ProxyAuthenticationRequired)
    );
}

#[test]
fn no_auth_accepts_everything() {
    let auth = Authenticator::NoAuth;
    assert_eq!(auth.authenticate(None), Ok(Extension::Empty));
}

#[test]
fn mode_needs_both_options() {
    let both = AuthMode { username: Some("u".to_string()), password: Some("p".to_string()) };
    assert!(matches!(Authenticator::from_mode(&both), Authenticator::Password { .. }));
    let one = AuthMode { username: Some("u".to_string()), password: None };
    assert!(matches!(Authenticator::from_mode(&one), Authenticator::NoAuth));
}

#[test]
fn socks_password_selects_session() {
    let auth = PasswordAuth::new("alice", "pw");
    let a = auth.execute(b"alice-session-7", b"pw");
    let b = auth.execute(b"alice-session-7", b"pw");
    let c = auth.execute(b"alice-session-9", b"pw");
    assert_eq!(a, Some(Extension::Session(fxhash::hash64("alice-session-7".as_bytes()))));
    assert_eq!(a, b);
    assert_ne!(a, c);
    assert_eq!(auth.execute(b"alice", b"nope"), None);
    assert_eq!(password_status(a.is_some()), 0);
    assert_eq!(password_status(false), 1);
}

#[test]
fn socks_adaptor_outcomes() {
    let none = AuthAdaptor::new_no_auth();
    assert_eq!(none.execute(None), Some(Extension::Empty));
    let pw = AuthAdaptor::new_password("alice", "pw");
    assert_eq!(pw.execute(None), None);
    assert_eq!(pw.execute(Some((b"alice".as_slice(), b"pw".as_slice()))), Some(Extension::Empty));
}

#[test]
fn http_decisions() {
    let auth = Authenticator::password("u", "p");
    let ok = basic("u-session-x:p");
    let ext = Extension::Session(fxhash::hash64("u-session-x".as_bytes()));
    assert_eq!(decide(&auth, Some(ok.as_slice()), true, true), HttpAction::Tunnel(ext));
    assert_eq!(decide(&auth, Some(ok.as_slice()), true, false), HttpAction::BadConnect);
    assert_eq!(decide(&auth, Some(ok.as_slice()), false, false), HttpAction::Forward(ext));
    assert_eq!(decide(&auth, None, true, true), HttpAction::Reject(AuthError::ProxyAuthenticationRequired));
    assert_eq!(AuthError::ProxyAuthenticationRequired.status(), 407);
    assert_eq!(AuthError::Forbidden.status(), 403);
    assert_eq!(AuthError::ProxyAuthenticationRequired.challenge().as_deref(), Some("Basic realm=\"Proxy\""));
    assert_eq!(AuthError::Forbidden.challenge(), None);
    assert_eq!(bad_connect_body(), "CONNECT must be to a socket address");
}
