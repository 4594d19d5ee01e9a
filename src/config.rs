//! The server's configuration: which proxy to serve, the maintenance
//! commands, the kernel settings the server asks for, and the stream
//! acceptor that the HTTP server layers TLS on.
use vstd::prelude::*;
use crate::auth::AuthMode;

verus! {

/// The proxy protocol to serve, each with its authentication options.
#[derive(Clone, Debug)]
pub enum Proxy {
    Http { auth: AuthMode },
    /// HTTPS with a PEM certificate chain and key, or a self-signed pair
    /// when they are not given.
    Https { auth: AuthMode, tls_cert: Option<String>, tls_key: Option<String> },
    Socks5 { auth: AuthMode },
}

impl Proxy {
    /// The authentication options of the chosen proxy.
    pub fn auth(&self) -> (r: &AuthMode)
        ensures
            match self {
                Proxy::Http { auth } => r == auth,
                Proxy::Https { auth, .. } => r == auth,
                Proxy::Socks5 { auth } => r == auth,
            },
    {
        match self {
            Proxy::Http { auth } => auth,
            Proxy::Https { auth, .. } => auth,
            Proxy::Socks5 { auth } => auth,
        }
    }
}

/// Maintenance of the installed binary.
#[derive(Clone, Copy, Debug, PartialEq, Eq, Structural)]
pub enum Oneself {
    /// Download and install updates.
    Update,
    /// Remove the installed binary.
    Uninstall,
}

/// A kernel parameter and the value to write to it.
#[derive(Clone, Debug)]
pub struct SysctlSetting {
    pub name: String,
    pub value: String,
}

/// Allows binding to addresses that are not configured on an interface
/// (`net.ipv6.ip_nonlocal_bind = 1`), so that any address of the block can
/// be a source address.
pub fn sysctl_ipv6_no_local_bind() -> (r: SysctlSetting)
    ensures
        r.name@ == "net.ipv6.ip_nonlocal_bind"@,
        r.value@ == "1"@,
{
    SysctlSetting {
        name: String::from_str("net.ipv6.ip_nonlocal_bind"),
        value: String::from_str("1"),
    }
}

/// Enables IPv6 on all interfaces (`net.ipv6.conf.all.disable_ipv6 = 0`).
pub fn sysctl_ipv6_all_enable_ipv6() -> (r: SysctlSetting)
    ensures
        r.name@ == "net.ipv6.conf.all.disable_ipv6"@,
        r.value@ == "0"@,
{
    SysctlSetting {
        name: String::from_str("net.ipv6.conf.all.disable_ipv6"),
        value: String::from_str("0"),
    }
}

/// Turns an accepted stream into the stream the HTTP server speaks over
/// (for instance by a TLS handshake).
pub trait Accept<I> {
    type Stream;

    fn accept(&self, stream: I) -> Self::Stream;
}

/// The acceptor that hands the stream on as it is.
#[derive(Clone, Copy, Debug, Default)]
pub struct DefaultAcceptor;

impl DefaultAcceptor {
    pub fn new() -> (r: DefaultAcceptor)
        ensures
            r == DefaultAcceptor,
    {
        DefaultAcceptor
    }
}

impl<I> Accept<I> for DefaultAcceptor {
    type Stream = I;

    fn accept(&self, stream: I) -> I {
        stream
    }
}

} // verus!
