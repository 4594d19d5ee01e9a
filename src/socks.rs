//! The decisions of the SOCKS5 server (RFC 1928, RFC 1929): the method it
//! offers, the password check, the replies, and the UDP relay's limits.
use vstd::prelude::*;
use vstd::string::StringSliceAdditionalSpecFns;
use crate::auth::{check_user_pass, user_pass_result};
use crate::addr::IpAddress;
use crate::extension::Extension;
use crate::text::{tail_from, take_range};

verus! {

/// Method code: no authentication.
pub const METHOD_NO_AUTH: u8 = 0x00;

/// Method code: username and password.
pub const METHOD_PASSWORD: u8 = 0x02;

/// Method code: none of the offered methods is acceptable.
pub const METHOD_NO_ACCEPTABLE: u8 = 0xff;

/// Reply code: the request succeeded.
pub const REPLY_SUCCEEDED: u8 = 0x00;

/// Reply code: general failure.
pub const REPLY_GENERAL_FAILURE: u8 = 0x01;

/// Reply code: the target host is unreachable.
pub const REPLY_HOST_UNREACHABLE: u8 = 0x04;

/// The largest UDP datagram the relay handles.
pub const MAX_UDP_RELAY_PACKET_SIZE: usize = 1500;

/// The largest SOCKS5 UDP header: reserved (2), fragment (1), address
/// type (1), a domain of length byte and 255 bytes, port (2).
pub const MAX_UDP_HEADER_SIZE: usize = 262;

/// No authentication: every client passes, with no extension.
#[derive(Clone, Copy, Debug, Default)]
pub struct NoAuth;

/// Username and password authentication.
#[derive(Clone, Debug)]
pub struct PasswordAuth {
    pub username: Vec<u8>,
    pub password: Vec<u8>,
}

/// The authentication method the server runs.
#[derive(Clone, Debug)]
pub enum AuthAdaptor {
    NoAuth(NoAuth),
    Password(PasswordAuth),
}

impl PasswordAuth {
    pub fn new(username: &str, password: &str) -> (r: PasswordAuth)
        ensures
            r.username@ == username.spec_bytes(),
            r.password@ == password.spec_bytes(),
    {
        let u = username.as_bytes();
        let p = password.as_bytes();
        assert(u@.skip(0) =~= u@);
        assert(p@.skip(0) =~= p@);
        PasswordAuth { username: tail_from(u, 0), password: tail_from(p, 0) }
    }

    /// Checks the presented username and password: the username must
    /// start with the configured one and the password must be equal. On a
    /// match, the extension that the presented username selects.
    pub fn execute(&self, user: &[u8], pass: &[u8]) -> (r: Option<Extension>)
        ensures
            r == user_pass_result(self.username@, self.password@, user@, pass@),
    {
        check_user_pass(self.username.as_slice(), self.password.as_slice(), user, pass)
    }
}

impl AuthAdaptor {
    pub fn new_no_auth() -> (r: AuthAdaptor)
        ensures
            r is NoAuth,
    {
        AuthAdaptor::NoAuth(NoAuth)
    }

    pub fn new_password(username: &str, password: &str) -> (r: AuthAdaptor)
        ensures
            r is Password,
            r->Password_0.username@ == username.spec_bytes(),
            r->Password_0.password@ == password.spec_bytes(),
    {
        AuthAdaptor::Password(PasswordAuth::new(username, password))
    }

    /// The method code the server advertises.
    pub fn method(&self) -> (r: u8)
        ensures
            r == match self {
                AuthAdaptor::NoAuth(_) => METHOD_NO_AUTH,
                AuthAdaptor::Password(_) => METHOD_PASSWORD,
            },
    {
        match self {
            AuthAdaptor::NoAuth(_) => METHOD_NO_AUTH,
            AuthAdaptor::Password(_) => METHOD_PASSWORD,
        }
    }

    /// The method chosen from the client's offer: the server's own method
    /// if the client offers it, else "no acceptable method".
    pub fn select_method(&self, offered: &[u8]) -> (r: u8)
        ensures
            offered@.contains(self.method_spec()) ==> r == self.method_spec(),
            !offered@.contains(self.method_spec()) ==> r == METHOD_NO_ACCEPTABLE,
    {
        let m = self.method();
        let mut i: usize = 0;
        while i < offered.len()
            invariant
                m == self.method_spec(),
                i <= offered@.len(),
                forall|j: int| 0 <= j < i ==> offered@[j] != m,
            decreases offered@.len() - i,
        {
            if offered[i] == m {
                return m;
            }
            i = i + 1;
        }
        METHOD_NO_ACCEPTABLE
    }

    pub open spec fn method_spec(&self) -> u8 {
        match self {
            AuthAdaptor::NoAuth(_) => METHOD_NO_AUTH,
            AuthAdaptor::Password(_) => METHOD_PASSWORD,
        }
    }

    /// The outcome of the authentication step: with no authentication,
    /// success with no extension; with a password, the outcome of the
    /// check on the presented credential (`None` when the client sent
    /// none).
    pub fn execute(&self, credential: Option<(&[u8], &[u8])>) -> (r: Option<Extension>)
        ensures
            match self {
                AuthAdaptor::NoAuth(_) => r == Some(Extension::Empty),
                AuthAdaptor::Password(p) => match credential {
                    Some((u, w)) => r == user_pass_result(p.username@, p.password@, u@, w@),
                    None => r is None,
                },
            },
    {
        match self {
            AuthAdaptor::NoAuth(_) => Some(Extension::Empty),
            AuthAdaptor::Password(p) => match credential {
                Some((u, w)) => p.execute(u, w),
                None => None,
            },
        }
    }
}

/// The status byte of the password sub-negotiation reply: 0 on success,
/// 1 on failure.
pub fn password_status(accepted: bool) -> (r: u8)
    ensures
        r == (if accepted { 0u8 } else { 1u8 }),
{
    if accepted {
        0
    } else {
        1
    }
}

/// The reply to CONNECT: succeeded when the upstream connection was made,
/// host unreachable when it was not.
pub fn connect_reply(connected: bool) -> (r: u8)
    ensures
        r == (if connected { REPLY_SUCCEEDED } else { REPLY_HOST_UNREACHABLE }),
{
    if connected {
        REPLY_SUCCEEDED
    } else {
        REPLY_HOST_UNREACHABLE
    }
}

/// The reply to UDP ASSOCIATE: succeeded when the relay socket was bound,
/// general failure when it was not.
pub fn associate_reply(bound: bool) -> (r: u8)
    ensures
        r == (if bound { REPLY_SUCCEEDED } else { REPLY_GENERAL_FAILURE }),
{
    if bound {
        REPLY_SUCCEEDED
    } else {
        REPLY_GENERAL_FAILURE
    }
}

/// The relay forwards a client datagram only when it is not a fragment.
pub fn accepts_fragment(frag: u8) -> (r: bool)
    ensures
        r == (frag == 0),
{
    frag == 0
}

/// The largest payload the UDP relay reads: the largest datagram less
/// the largest header.
pub fn udp_payload_capacity() -> (r: usize)
    ensures
        r == MAX_UDP_RELAY_PACKET_SIZE - MAX_UDP_HEADER_SIZE,
{
    MAX_UDP_RELAY_PACKET_SIZE - MAX_UDP_HEADER_SIZE
}

/// A socket address: an address of either family and a port.
#[derive(Clone, Copy, Debug, PartialEq, Eq, Structural)]
pub struct SocketAddress {
    pub ip: IpAddress,
    pub port: u16,
}

/// What happened on a UDP association.
#[derive(Clone, Copy, Debug, PartialEq, Eq, Structural)]
pub enum UdpEvent {
    /// The client sent a datagram with this fragment number from `src`.
    FromClient { frag: u8, src: SocketAddress },
    /// A remote host answered on the dispatch socket.
    FromRemote,
    /// The TCP control channel closed.
    ControlClosed,
}

/// What the relay does next.
#[derive(Clone, Copy, Debug, PartialEq, Eq, Structural)]
pub enum UdpAction {
    /// Send the client's payload to its destination via the dispatch
    /// socket.
    Dispatch,
    /// Wrap the remote's datagram in a SOCKS5 header and send it to this
    /// client address.
    ReplyTo(SocketAddress),
    /// Stop with an error: fragments are not supported.
    RejectFragment,
    /// Stop: the association is over.
    Stop,
}

/// The state of a UDP association: the client address that sent the last
/// datagram, where the remotes' answers go.
#[derive(Clone, Copy, Debug)]
pub struct UdpAssociation {
    pub incoming: SocketAddress,
}

impl UdpAssociation {
    /// A new association; answers go to `0.0.0.0:0` until the client
    /// sends.
    pub fn new() -> (r: UdpAssociation)
        ensures
            r.incoming == (SocketAddress { ip: IpAddress::V4(0), port: 0 }),
    {
        UdpAssociation { incoming: SocketAddress { ip: IpAddress::V4(0), port: 0 } }
    }

    /// One step of the relay loop. A client datagram that is not a
    /// fragment records its sender and is dispatched; a fragment stops the
    /// relay with an error. A remote's answer goes to the last recorded
    /// sender. A closed control channel ends the relay.
    pub fn step(&mut self, event: UdpEvent) -> (r: UdpAction)
        ensures
            match event {
                UdpEvent::FromClient { frag, src } => if frag == 0 {
                    r == UdpAction::Dispatch && final(self).incoming == src
                } else {
                    r == UdpAction::RejectFragment && final(self).incoming == old(self).incoming
                },
                UdpEvent::FromRemote => r == UdpAction::ReplyTo(old(self).incoming)
                    && final(self).incoming == old(self).incoming,
                UdpEvent::ControlClosed => r == UdpAction::Stop && final(self).incoming == old(
                    self,
                ).incoming,
            },
    {
        match event {
            UdpEvent::FromClient { frag, src } => {
                if accepts_fragment(frag) {
                    self.incoming = src;
                    UdpAction::Dispatch
                } else {
                    UdpAction::RejectFragment
                }
            },
            UdpEvent::FromRemote => UdpAction::ReplyTo(self.incoming),
            UdpEvent::ControlClosed => UdpAction::Stop,
        }
    }
}

/// A SOCKS5 address as it travels: an IPv4 (4 bytes) or IPv6 (16 bytes)
/// address, or a domain name, with a port.
#[derive(Clone, Debug, PartialEq, Eq)]
pub enum Address {
    Ip(Vec<u8>, u16),
    Domain(Vec<u8>, u16),
}

/// The big-endian bytes of a port.
pub open spec fn port_bytes(port: u16) -> Seq<u8> {
    seq![(port / 256) as u8, (port % 256) as u8]
}

/// An address that can be written: an IP of 4 or 16 bytes, a domain of at
/// most 255 bytes.
pub open spec fn address_wf(a: Address) -> bool {
    match a {
        Address::Ip(ip, _) => ip@.len() == 4 || ip@.len() == 16,
        Address::Domain(d, _) => d@.len() <= 255,
    }
}

/// The wire form of an address: type byte (1 IPv4, 3 domain, 4 IPv6),
/// the address (a domain with its length byte first), the port.
pub open spec fn address_bytes(a: Address) -> Seq<u8> {
    match a {
        Address::Ip(ip, port) => if ip@.len() == 4 {
            seq![1u8] + ip@ + port_bytes(port)
        } else {
            seq![4u8] + ip@ + port_bytes(port)
        },
        Address::Domain(d, port) => seq![3u8, d@.len() as u8] + d@ + port_bytes(port),
    }
}

/// The length of the address that `s` starts with, read from its type
/// byte (and length byte for a domain); `None` for an unknown type.
pub open spec fn address_len(s: Seq<u8>) -> Option<int> {
    if s.len() == 0 {
        None
    } else if s[0] == 1 {
        Some(7)
    } else if s[0] == 4 {
        Some(19)
    } else if s[0] == 3 && s.len() >= 2 {
        Some(4 + s[1])
    } else {
        None
    }
}

fn push_all(v: &mut Vec<u8>, s: &[u8])
    ensures
        final(v)@ == old(v)@ + s@,
{
    let mut i: usize = 0;
    while i < s.len()
        invariant
            i <= s@.len(),
            v@ == old(v)@ + s@.subrange(0, i as int),
        decreases s@.len() - i,
    {
        v.push(s[i]);
        i = i + 1;
        assert(v@ =~= old(v)@ + s@.subrange(0, i as int));
    }
    assert(s@.subrange(0, s@.len() as int) =~= s@);
}

/// Appends the wire form of `a` to `out`.
pub fn encode_address(out: &mut Vec<u8>, a: &Address)
    requires
        address_wf(*a),
    ensures
        final(out)@ == old(out)@ + address_bytes(*a),
{
    match a {
        Address::Ip(ip, port) => {
            if ip.len() == 4 {
                out.push(1u8);
            } else {
                out.push(4u8);
            }
            push_all(out, ip.as_slice());
            out.push((*port / 256) as u8);
            out.push((*port % 256) as u8);
        },
        Address::Domain(d, port) => {
            out.push(3u8);
            out.push(d.len() as u8);
            push_all(out, d.as_slice());
            out.push((*port / 256) as u8);
            out.push((*port % 256) as u8);
        },
    }
    assert(final(out)@ =~= old(out)@ + address_bytes(*a));
}

/// Reads the address at the start of `s`: `None` for an unknown type or
/// a buffer too short for the address its type announces.
pub fn parse_address(s: &[u8]) -> (r: Option<(Address, usize)>)
    ensures
        match r {
            Some((a, n)) => address_len(s@) == Some(n as int) && n <= s@.len() && address_wf(a)
                && s@.subrange(0, n as int) == address_bytes(a),
            None => match address_len(s@) {
                Some(n) => n > s@.len(),
                None => true,
            },
        },
{
    if s.len() == 0 {
        return None;
    }
    let atyp = s[0];
    let (start, alen): (usize, usize) = if atyp == 1 {
        (1, 4)
    } else if atyp == 4 {
        (1, 16)
    } else if atyp == 3 && s.len() >= 2 {
        (2, s[1] as usize)
    } else {
        return None;
    };
    if s.len() < start + alen + 2 {
        return None;
    }
    let body = take_range(s, start, start + alen);
    let port: u16 = (s[start + alen] as u16) * 256 + s[start + alen + 1] as u16;
    let a = if atyp == 3 {
        Address::Domain(body, port)
    } else {
        Address::Ip(body, port)
    };
    let n = start + alen + 2;
    assert(s@.subrange(0, n as int) =~= address_bytes(a));
    Some((a, n))
}

/// The header of a relayed UDP datagram: two reserved zero bytes, the
/// fragment number, then the address.
pub open spec fn udp_header_bytes(frag: u8, a: Address) -> Seq<u8> {
    seq![0u8, 0u8, frag] + address_bytes(a)
}

/// A relayed datagram: its fragment number, the address it is for (or
/// from), and where its payload starts.
pub struct UdpHeader {
    pub frag: u8,
    pub address: Address,
    pub payload_start: usize,
}

/// The header for a datagram from or to `a`, with fragment number 0.
pub fn encode_udp_header(a: &Address) -> (r: Vec<u8>)
    requires
        address_wf(*a),
    ensures
        r@ == udp_header_bytes(0, *a),
{
    let mut r: Vec<u8> = vec![0u8, 0u8, 0u8];
    encode_address(&mut r, a);
    assert(r@ =~= udp_header_bytes(0, *a));
    r
}

/// Reads the header of a relayed datagram: the fragment number is its
/// third byte and the address follows; the reserved bytes are not looked
/// at. `None` when the datagram is shorter than its header or its
/// address type is unknown.
pub fn parse_udp_header(d: &[u8]) -> (r: Option<UdpHeader>)
    ensures
        match r {
            Some(h) => 3 <= h.payload_start <= d@.len() && address_wf(h.address) && h.frag
                == d@[2] && d@.subrange(3, h.payload_start as int) == address_bytes(h.address),
            None => d@.len() < 3 || match address_len(d@.skip(3)) {
                Some(n) => n > d@.len() - 3,
                None => true,
            },
        },
{
    if d.len() < 3 {
        return None;
    }
    let rest = tail_from(d, 3);
    match parse_address(rest.as_slice()) {
        None => None,
        Some((a, n)) => {
            assert(d@.subrange(3, 3 + n) =~= rest@.subrange(0, n as int));
            Some(UdpHeader { frag: d[2], address: a, payload_start: 3 + n })
        },
    }
}

} // verus!
