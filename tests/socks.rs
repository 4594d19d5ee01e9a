use vproxy::config::{
    sysctl_ipv6_all_enable_ipv6, sysctl_ipv6_no_local_bind, Accept, DefaultAcceptor, Oneself, Proxy,
};
use vproxy::addr::IpAddress;
use vproxy::auth::AuthMode;
use vproxy::socks::{
    encode_address, encode_udp_header, parse_address, parse_udp_header, Address, SocketAddress,
    UdpAction, UdpAssociation, UdpEvent,
};
use vproxy::socks::{
    accepts_fragment, associate_reply, connect_reply, udp_payload_capacity, AuthAdaptor,
    METHOD_NO_ACCEPTABLE, METHOD_NO_AUTH, METHOD_PASSWORD,
};

#[test]
fn method_negotiation() {
    let none = AuthAdaptor::new_no_auth();
    assert_eq!(none.method(), METHOD_NO_AUTH);
    assert_eq!(none.select_method(&[0x00]), METHOD_NO_AUTH);
    assert_eq!(none.select_method(&[0x02]), METHOD_NO_ACCEPTABLE);
    let pw = AuthAdaptor::new_password("u", "p");
    assert_eq!(pw.method(), METHOD_PASSWORD);
    assert_eq!(pw.select_method(&[0x00, 0x02]), METHOD_PASSWORD);
    assert_eq!(pw.select_method(&[]), METHOD_NO_ACCEPTABLE);
}

#[test]
fn replies() {
    assert_eq!(connect_reply(true), 0x00);
    assert_eq!(connect_reply(false), 0x04);
    assert_eq!(associate_reply(false), 0x01);
    assert_eq!(associate_reply(true), 0x00);
}

#[test]
fn udp_relay_limits() {
    assert!(accepts_fragment(0));
    assert!(!accepts_fragment(1));
    assert_eq!(udp_payload_capacity(), 1500 - 262);
}

#[test]
fn sysctl_settings() {
    let a = sysctl_ipv6_no_local_bind();
    assert_eq!((a.name.as_str(), a.value.as_str()), ("net.ipv6.ip_nonlocal_bind", "1"));
    let b = sysctl_ipv6_all_enable_ipv6();
    assert_eq!((b.name.as_str(), b.value.as_str()), ("net.ipv6.conf.all.disable_ipv6", "0"));
}

#[test]
fn default_acceptor_passes_stream_through() {
    let acceptor = DefaultAcceptor::new();
    assert_eq!(acceptor.accept(5u8), 5u8);
}

#[test]
fn proxy_auth_options() {
    let auth = AuthMode { username: Some("u".to_string()), password: None };
    let p = Proxy::Socks5 { auth };
    assert_eq!(p.auth().username.as_deref(), Some("u"));
    assert_ne!(Oneself::Update, Oneself::Uninstall);
}

#[test]
fn udp_relay_steps() {
    let mut assoc = UdpAssociation::new();
    assert_eq!(assoc.step(UdpEvent::FromRemote), UdpAction::ReplyTo(SocketAddress { ip: IpAddress::V4(0), port: 0 }));
    let client = SocketAddress { ip: IpAddress::V4(0x7f00_0001), port: 5000 };
    assert_eq!(assoc.step(UdpEvent::FromClient { frag: 0, src: client }), UdpAction::Dispatch);
    assert_eq!(assoc.step(UdpEvent::FromRemote), UdpAction::ReplyTo(client));
    let other = SocketAddress { ip: IpAddress::V4(0x7f00_0002), port: 6000 };
    assert_eq!(assoc.step(UdpEvent::FromClient { frag: 1, src: other }), UdpAction::RejectFragment);
    assert_eq!(assoc.incoming, client);
    assert_eq!(assoc.step(UdpEvent::ControlClosed), UdpAction::Stop);
}

#[test]
fn udp_header_codec() {
    let addr = Address::Ip(vec![127, 0, 0, 1], 9001);
    let header = encode_udp_header(&addr);
    assert_eq!(header, vec![0, 0, 0, 1, 127, 0, 0, 1, 0x23, 0x29]);
    let mut datagram = header.clone();
    datagram.extend_from_slice(b"pong");
    let parsed = parse_udp_header(&datagram).unwrap();
    assert_eq!(parsed.frag, 0);
    assert_eq!(parsed.address, addr);
    assert_eq!(&datagram[parsed.payload_start..], b"pong");
    let fragment = [0u8, 0, 1, 3, 4, b'a', b'b', b'c', b'd', 0, 80, b'x'];
    let parsed = parse_udp_header(&fragment).unwrap();
    assert_eq!(parsed.frag, 1);
    assert_eq!(parsed.address, Address::Domain(b"abcd".to_vec(), 80));
    assert!(!accepts_fragment(parsed.frag));
    assert!(parse_udp_header(&[0, 0, 0, 1, 127, 0]).is_none());
    assert!(parse_udp_header(&[0, 0, 0, 9, 1, 2, 3, 4, 0, 1]).is_none());
}

#[test]
fn address_codec_v6() {
    let mut out = vec![5u8, 0, 0];
    encode_address(&mut out, &Address::Ip(vec![0; 16], 0));
    assert_eq!(out.len(), 3 + 1 + 16 + 2);
    assert_eq!(out[3], 4);
    let (a, n) = parse_address(&out[3..]).unwrap();
    assert_eq!(n, 19);
    assert_eq!(a, Address::Ip(vec![0; 16], 0));
}
