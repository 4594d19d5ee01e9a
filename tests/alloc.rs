use vproxy::addr::{
    alloc_ipv4, alloc_ipv6, assign_ipv4_with_range, assign_ipv4_with_session,
    assign_ipv6_with_range, assign_rand_ipv4, IpCidr, Ipv4Cidr, Ipv6Cidr,
};
use vproxy::connect::{assign_ipv4_from_extension, assign_ipv6_from_extension, combined};
use vproxy::extension::Extension;
use vproxy::ttl::TTLCalculator;

fn v4(o: [u8; 4]) -> u32 {
    u32::from_be_bytes(o)
}

fn v6(s: [u16; 8]) -> u128 {
    s.iter().fold(0u128, |acc, x| (acc << 16) | *x as u128)
}

fn in_v4(c: Ipv4Cidr, a: u32) -> bool {
    let host = if c.len >= 32 { 0 } else { u32::MAX >> c.len };
    a & !host == c.first & !host
}

fn in_v6(c: Ipv6Cidr, a: u128) -> bool {
    let host = if c.len >= 128 { 0 } else { u128::MAX >> c.len };
    a & !host == c.first & !host
}

#[test]
fn test_assign_ipv4_with_fixed_combined() {
    let cidr = Ipv4Cidr::new(v4([192, 168, 0, 0]), 24).unwrap();
    let range = 28;
    let mut combined = 0x5;

    for i in 0..5 {
        combined += i;

        let ipv4_address1 = assign_ipv4_with_range(cidr, range, combined, rand::random());
        let ipv4_address2 = assign_ipv4_with_range(cidr, range, combined, rand::random());

        println!("IPv4 Address 1: {:08x}", ipv4_address1);
        println!("IPv4 Address 2: {:08x}", ipv4_address2);
        assert_eq!(ipv4_address1 >> 4, ipv4_address2 >> 4);
        assert!(in_v4(cidr, ipv4_address1));
    }
}

#[test]
fn test_assign_ipv6_with_fixed_combined() {
    let cidr = Ipv6Cidr::new(v6([0x2001, 0x470, 0xe953, 0, 0, 0, 0, 0]), 48).unwrap();
    let range = 64;
    let mut combined: u128 = 0x12345;

    for i in 0..5 {
        combined += i;
        let ipv6_address1 = assign_ipv6_with_range(cidr, range, combined, rand::random());
        let ipv6_address2 = assign_ipv6_with_range(cidr, range, combined, rand::random());

        println!("{:032x}", ipv6_address1);
        println!("{:032x}", ipv6_address2);
        assert_eq!(ipv6_address1 >> 64, ipv6_address2 >> 64);
        assert!(in_v6(cidr, ipv6_address1));
    }
}

#[test]
fn test_assign_ipv4_from_extension() {
    let cidr = Ipv6Cidr::new(v6([0x2001, 0x470, 0xe953, 0, 0, 0, 0, 0]), 48).unwrap();
    let extension = Extension::Session(0x12345);
    let ipv6_address = assign_ipv6_from_extension(cidr, None, extension);
    assert_eq!(
        ipv6_address,
        v6([0x2001, 0x470, 0xe953, 0, 0, 0, 1, 0x2345])
    );
}

#[test]
fn test_get_current_stable_value_with_different_ttl() {
    let calculator = TTLCalculator;

    for _ in 0..10 {
        let start = std::time::Instant::now();
        while start.elapsed() < std::time::Duration::from_secs(1) {}
        let result = calculator.ttl_boundary(2);
        println!("Result: {}", result);
    }
}

#[test]
fn session_address_is_in_block_and_stable() {
    let cidr = Ipv4Cidr::new(v4([10, 1, 0, 0]), 16).unwrap();
    for sel in [0u64, 1, 65534, 65535, 65536, u64::MAX, 0xdead_beef_cafe] {
        let a = assign_ipv4_from_extension(cidr, None, Extension::Session(sel));
        let b = assign_ipv4_from_extension(cidr, Some(24), Extension::Session(sel));
        assert!(in_v4(cidr, a));
        assert_eq!(a, b);
        assert_eq!(a, v4([10, 1, 0, 0]) | (sel % 65535) as u32);
    }
    let c6 = Ipv6Cidr::new(v6([0x2001, 0xdb8, 0, 0, 0, 0, 0, 0]), 32).unwrap();
    let x = assign_ipv6_from_extension(c6, None, Extension::Session(7));
    assert_eq!(x, v6([0x2001, 0xdb8, 0, 0, 0, 0, 0, 0x7]));
    assert_eq!(x, assign_ipv6_from_extension(c6, None, Extension::Session(7)));
}

#[test]
fn session_selector_taken_modulo_capacity() {
    let cidr = Ipv4Cidr::new(v4([192, 168, 0, 0]), 24).unwrap();
    assert_eq!(assign_ipv4_with_session(cidr, 255), v4([192, 168, 0, 0]));
    assert_eq!(assign_ipv4_with_session(cidr, 256), v4([192, 168, 0, 1]));
    assert_eq!(assign_ipv4_with_session(cidr, 0x1_0000_0005), v4([192, 168, 0, 0]) | (0x1_0000_0005u64 % 255) as u32);
}

#[test]
fn single_address_blocks() {
    let c = Ipv4Cidr::new(v4([1, 2, 3, 4]), 32).unwrap();
    assert_eq!(assign_ipv4_from_extension(c, None, Extension::Session(99)), v4([1, 2, 3, 4]));
    assert_eq!(assign_ipv4_from_extension(c, None, Extension::Empty), v4([1, 2, 3, 4]));
    let c6 = Ipv6Cidr::new(v6([0x2001, 0xdb8, 0, 0, 0, 0, 0, 0x1]), 128).unwrap();
    assert_eq!(assign_ipv6_from_extension(c6, Some(64), Extension::Range(5)), v6([0x2001, 0xdb8, 0, 0, 0, 0, 0, 0x1]));
}

#[test]
fn whole_space_blocks() {
    let c = Ipv4Cidr::new(0, 0).unwrap();
    assert_eq!(assign_ipv4_with_session(c, 10), 10);
    assert_eq!(assign_rand_ipv4(c, 0xabcd_ef01), 0xabcd_ef01);
    let c6 = Ipv6Cidr::new(0, 0).unwrap();
    assert_eq!(alloc_ipv6(c6, None, Extension::Session(3), Some(3), 0), 3);
}

#[test]
fn block_constructors_reject_bad_input() {
    assert!(Ipv4Cidr::new(v4([192, 168, 0, 1]), 24).is_none());
    assert!(Ipv4Cidr::new(0, 33).is_none());
    assert!(Ipv6Cidr::new(1, 127).is_none());
    assert!(Ipv6Cidr::new(0, 129).is_none());
}

#[test]
fn range_fixes_top_bits_v6() {
    let cidr = Ipv6Cidr::new(v6([0x2001, 0xdb8, 0, 0, 0, 0, 0, 0]), 32).unwrap();
    let h: u64 = 0x1234_5678_9abc_def0;
    let expected_top = (0x2001_0db8u128 << 16) | (h as u128 & 0xffff);
    for _ in 0..8 {
        let a = assign_ipv6_from_extension(cidr, Some(48), Extension::Range(h));
        assert_eq!(a >> 80, expected_top);
    }
    let a = alloc_ipv6(cidr, Some(48), Extension::Range(h), Some(h), u128::MAX);
    assert_eq!(a, (expected_top << 80) | ((1u128 << 80) - 1));
}

#[test]
fn range_fixes_top_bits_v4() {
    let cidr = Ipv4Cidr::new(v4([192, 168, 0, 0]), 24).unwrap();
    let a = alloc_ipv4(cidr, Some(28), Extension::Range(0x5), Some(0x5), 0);
    assert_eq!(a, v4([192, 168, 0, 80]));
    let b = alloc_ipv4(cidr, Some(28), Extension::Range(0x5), Some(0x5), 0xffff_ffff);
    assert_eq!(b, v4([192, 168, 0, 95]));
}

#[test]
fn range_shorter_than_prefix_is_random_in_block() {
    let cidr = Ipv4Cidr::new(v4([192, 168, 0, 0]), 24).unwrap();
    let a = alloc_ipv4(cidr, Some(16), Extension::Range(7), Some(7), 0x0000_00ab);
    assert_eq!(a, v4([192, 168, 0, 171]));
    let b = alloc_ipv4(cidr, None, Extension::Range(7), Some(7), 0x0000_00ab);
    assert_eq!(b, v4([192, 168, 0, 171]));
}

#[test]
fn empty_extension_is_random_in_block() {
    let cidr = Ipv6Cidr::new(v6([0x2001, 0xdb8, 0x1, 0, 0, 0, 0, 0]), 48).unwrap();
    for _ in 0..16 {
        assert!(in_v6(cidr, assign_ipv6_from_extension(cidr, None, Extension::Empty)));
    }
    let c4 = IpCidr::V4(Ipv4Cidr::new(v4([10, 0, 0, 0]), 8).unwrap());
    assert!(matches!(c4, IpCidr::V4(_)));
}

#[test]
fn ttl_windows() {
    let t = TTLCalculator;
    assert_eq!(t.calculate_ttl_boundary(35, 10), 30);
    assert_eq!(t.calculate_ttl_boundary(30, 10), 30);
    assert_eq!(t.selector_at(31, 10), t.selector_at(39, 10));
    assert_ne!(t.selector_at(29, 10), t.selector_at(30, 10));
    assert_eq!(t.selector_at(31, 10), fxhash::hash64(&30u64.to_be_bytes()));
    let cidr = Ipv4Cidr::new(v4([10, 0, 0, 0]), 8).unwrap();
    let a = alloc_ipv4(cidr, None, Extension::TTL(10), Some(t.selector_at(31, 10)), 1);
    let b = alloc_ipv4(cidr, None, Extension::TTL(10), Some(t.selector_at(39, 10)), 2);
    assert_eq!(a, b);
}

#[test]
fn combined_selectors() {
    assert_eq!(combined(Extension::Session(4)), Some(4));
    assert_eq!(combined(Extension::Range(5)), Some(5));
    assert_eq!(combined(Extension::Empty), None);
    assert_eq!(combined(Extension::TTL(0)), None);
    assert!(combined(Extension::TTL(60)).is_some());
}
