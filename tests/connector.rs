use vproxy::addr::{IpAddress, IpCidr, Ipv4Cidr, Ipv6Cidr};
use vproxy::connect::{error, BindPlan, ConnectFailure, Connector, LocalAddrs};
use vproxy::extension::Extension;

fn v4(o: [u8; 4]) -> u32 {
    u32::from_be_bytes(o)
}

fn v6(s: [u16; 8]) -> u128 {
    s.iter().fold(0u128, |acc, x| (acc << 16) | *x as u128)
}

fn block4() -> IpCidr {
    IpCidr::V4(Ipv4Cidr::new(v4([10, 9, 0, 0]), 16).unwrap())
}

fn block6() -> IpCidr {
    IpCidr::V6(Ipv6Cidr::new(v6([0x2001, 0xdb8, 0, 0, 0, 0, 0, 0]), 32).unwrap())
}

#[test]
fn no_block_no_fallback_uses_system_choice() {
    let c = Connector::new(None, None, None, 10);
    assert_eq!(c.bind_plan(Extension::Session(1)), BindPlan::Unspecified);
    assert_eq!(c.http_local_addresses(Extension::Empty), LocalAddrs::Unspecified);
    let d = IpAddress::V4(v4([127, 0, 0, 1]));
    assert_eq!(c.bind_socket_addr(Some(d), Extension::Empty), Some(d));
    assert_eq!(c.bind_socket_addr(None, Extension::Empty), None);
}

#[test]
fn fallback_only_uses_fallback() {
    let f = IpAddress::V6(v6([0x2001, 0xdb8, 0, 0, 0, 0, 0, 0x1]));
    let c = Connector::new(None, None, Some(f), 10);
    assert_eq!(c.bind_plan(Extension::Session(1)), BindPlan::Fallback(f));
    assert_eq!(c.http_local_addresses(Extension::Empty), LocalAddrs::One(f));
    assert_eq!(c.bind_socket_addr(Some(IpAddress::V4(1)), Extension::Empty), Some(f));
}

#[test]
fn block_only_allocates() {
    let c = Connector::new(Some(block6()), None, None, 10);
    let expected = IpAddress::V6(v6([0x2001, 0xdb8, 0, 0, 0, 0, 0, 0x9]));
    assert_eq!(c.bind_plan(Extension::Session(9)), BindPlan::Allocated(expected));
    assert_eq!(c.http_local_addresses(Extension::Session(9)), LocalAddrs::One(expected));
    assert_eq!(c.bind_socket_addr(None, Extension::Session(9)), Some(expected));
}

#[test]
fn block_and_fallback_retry_from_fallback() {
    let f = IpAddress::V4(v4([192, 0, 2, 1]));
    let c = Connector::new(Some(block4()), None, Some(f), 10);
    let expected = IpAddress::V4(v4([10, 9, 0, 9]));
    assert_eq!(c.bind_plan(Extension::Session(9)), BindPlan::AllocatedThenFallback(expected, f));
    assert_eq!(c.http_local_addresses(Extension::Session(9)), LocalAddrs::One(expected));
}

#[test]
fn mixed_families_give_both_local_addresses() {
    let c = Connector::new(Some(block4()), None, Some(IpAddress::V6(v6([0x2001, 0xdb8, 0, 0, 0, 0, 0, 0x5]))), 10);
    assert_eq!(
        c.http_local_addresses(Extension::Session(3)),
        LocalAddrs::Both(v4([10, 9, 0, 3]), v6([0x2001, 0xdb8, 0, 0, 0, 0, 0, 0x5]))
    );
    let c = Connector::new(Some(block6()), None, Some(IpAddress::V4(v4([192, 0, 2, 7]))), 10);
    assert_eq!(
        c.http_local_addresses(Extension::Session(3)),
        LocalAddrs::Both(v4([192, 0, 2, 7]), v6([0x2001, 0xdb8, 0, 0, 0, 0, 0, 0x3]))
    );
}

#[test]
fn same_session_binds_same_source() {
    let c = Connector::new(Some(block6()), Some(48), None, 10);
    let a = c.bind_plan(Extension::Session(fxhash::hash64("alice-session-7".as_bytes())));
    let b = c.bind_plan(Extension::Session(fxhash::hash64("alice-session-7".as_bytes())));
    let d = c.bind_plan(Extension::Session(fxhash::hash64("alice-session-9".as_bytes())));
    assert_eq!(a, b);
    assert_ne!(a, d);
}

#[test]
fn connect_loop_failure() {
    assert_eq!(error::<u8>(None), ConnectFailure::Aborted);
    assert_eq!(error(Some(7u8)), ConnectFailure::Last(7));
}
