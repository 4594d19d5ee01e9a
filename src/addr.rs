//! CIDR blocks and the address allocator: from a block, an optional
//! sub-range length and a selector to one address of the block.
use vstd::prelude::*;
use crate::extension::Extension;

verus! {

/// An IPv4 block: its first address as a number and its prefix length.
#[derive(Clone, Copy, Debug, PartialEq, Eq, Structural)]
pub struct Ipv4Cidr {
    pub first: u32,
    pub len: u8,
}

/// An IPv6 block: its first address as a number and its prefix length.
#[derive(Clone, Copy, Debug, PartialEq, Eq, Structural)]
pub struct Ipv6Cidr {
    pub first: u128,
    pub len: u8,
}

/// A block of either family.
#[derive(Clone, Copy, Debug, PartialEq, Eq, Structural)]
pub enum IpCidr {
    V4(Ipv4Cidr),
    V6(Ipv6Cidr),
}

/// An address of either family, as a number.
#[derive(Clone, Copy, Debug, PartialEq, Eq, Structural)]
pub enum IpAddress {
    V4(u32),
    V6(u128),
}

/// The host bits of a `/len` IPv4 block.
pub open spec fn host_mask_v4(len: u8) -> u32 {
    if len >= 32 {
        0
    } else {
        0xffff_ffffu32 >> (len as u32)
    }
}

/// The host bits of a `/len` IPv6 block.
pub open spec fn host_mask_v6(len: u8) -> u128 {
    if len >= 128 {
        0
    } else {
        0xffff_ffff_ffff_ffff_ffff_ffff_ffff_ffffu128 >> (len as u128)
    }
}

/// The low `k` bits of a 32-bit word.
pub open spec fn low_bits_v4(k: u8) -> u32 {
    if k == 0 {
        0
    } else if k >= 32 {
        0xffff_ffffu32
    } else {
        0xffff_ffffu32 >> ((32 - k) as u32)
    }
}

/// The low `k` bits of a 128-bit word.
pub open spec fn low_bits_v6(k: u8) -> u128 {
    if k == 0 {
        0
    } else if k >= 128 {
        0xffff_ffff_ffff_ffff_ffff_ffff_ffff_ffffu128
    } else {
        0xffff_ffff_ffff_ffff_ffff_ffff_ffff_ffffu128 >> ((128 - k) as u128)
    }
}

impl Ipv4Cidr {
    /// A prefix length of at most 32 and no host bit set in the first
    /// address.
    pub open spec fn wf(self) -> bool {
        self.len <= 32 && self.first & host_mask_v4(self.len) == 0
    }

    /// `a` lies in this block.
    pub open spec fn contains(self, a: u32) -> bool {
        a & !host_mask_v4(self.len) == self.first & !host_mask_v4(self.len)
    }

    /// The block `addr/len`; `None` when `len` is over 32 or `addr` has
    /// a host bit set.
    pub fn new(addr: u32, len: u8) -> (r: Option<Ipv4Cidr>)
        ensures
            r == (if len <= 32 && addr & host_mask_v4(len) == 0 {
                Some(Ipv4Cidr { first: addr, len })
            } else {
                None
            }),
    {
        if len <= 32 && addr & host_mask_v4_exec(len) == 0 {
            Some(Ipv4Cidr { first: addr, len })
        } else {
            None
        }
    }
}

impl Ipv6Cidr {
    /// A prefix length of at most 128 and no host bit set in the first
    /// address.
    pub open spec fn wf(self) -> bool {
        self.len <= 128 && self.first & host_mask_v6(self.len) == 0
    }

    /// `a` lies in this block.
    pub open spec fn contains(self, a: u128) -> bool {
        a & !host_mask_v6(self.len) == self.first & !host_mask_v6(self.len)
    }

    /// The block `addr/len`; `None` when `len` is over 128 or `addr` has
    /// a host bit set.
    pub fn new(addr: u128, len: u8) -> (r: Option<Ipv6Cidr>)
        ensures
            r == (if len <= 128 && addr & host_mask_v6(len) == 0 {
                Some(Ipv6Cidr { first: addr, len })
            } else {
                None
            }),
    {
        if len <= 128 && addr & host_mask_v6_exec(len) == 0 {
            Some(Ipv6Cidr { first: addr, len })
        } else {
            None
        }
    }
}

impl IpCidr {
    pub open spec fn wf(self) -> bool {
        match self {
            IpCidr::V4(c) => c.wf(),
            IpCidr::V6(c) => c.wf(),
        }
    }

    /// `a` is of the block's family and lies in it.
    pub open spec fn contains(self, a: IpAddress) -> bool {
        match (self, a) {
            (IpCidr::V4(c), IpAddress::V4(x)) => c.contains(x),
            (IpCidr::V6(c), IpAddress::V6(x)) => c.contains(x),
            _ => false,
        }
    }
}

fn host_mask_v4_exec(len: u8) -> (r: u32)
    ensures
        r == host_mask_v4(len),
{
    if len >= 32 {
        0
    } else {
        0xffff_ffffu32 >> (len as u32)
    }
}

fn host_mask_v6_exec(len: u8) -> (r: u128)
    ensures
        r == host_mask_v6(len),
{
    if len >= 128 {
        0
    } else {
        0xffff_ffff_ffff_ffff_ffff_ffff_ffff_ffffu128 >> (len as u128)
    }
}

fn low_bits_v4_exec(k: u8) -> (r: u32)
    ensures
        r == low_bits_v4(k),
{
    if k == 0 {
        0
    } else if k >= 32 {
        0xffff_ffffu32
    } else {
        0xffff_ffffu32 >> ((32 - k) as u32)
    }
}

fn low_bits_v6_exec(k: u8) -> (r: u128)
    ensures
        r == low_bits_v6(k),
{
    if k == 0 {
        0
    } else if k >= 128 {
        0xffff_ffff_ffff_ffff_ffff_ffff_ffff_ffffu128
    } else {
        0xffff_ffff_ffff_ffff_ffff_ffff_ffff_ffffu128 >> ((128 - k) as u128)
    }
}

// ---------------------------------------------------------------- IPv4

/// Session and ttl selectors: the network bits of the block, and the
/// selector modulo the capacity `2^(32-len) - 1` in the host bits. A block
/// with no capacity gives its network address.
pub open spec fn session_v4(c: Ipv4Cidr, selector: u64) -> u32 {
    let cap = host_mask_v4(c.len);
    if cap == 0 {
        c.first & !cap
    } else {
        (c.first & !cap) | ((selector % (cap as u64)) as u32)
    }
}

/// The fixed segment of a range address: the low `r - len` bits of the
/// selector, placed just below the top `len` bits.
pub open spec fn fixed_segment_v4(c: Ipv4Cidr, r: u8, selector: u32) -> u32 {
    if r == 0 {
        0
    } else {
        (selector & low_bits_v4((r - c.len) as u8)) << ((32 - r) as u32)
    }
}

/// The top `r` bits of a range address: network bits, then the fixed
/// segment.
pub open spec fn range_prefix_v4(c: Ipv4Cidr, r: u8, selector: u32) -> u32 {
    (c.first & !host_mask_v4(c.len)) | fixed_segment_v4(c, r, selector)
}

/// A range address: the top `r` bits fixed, the rest from `rnd`.
pub open spec fn range_v4(c: Ipv4Cidr, r: u8, selector: u32, rnd: u32) -> u32 {
    range_prefix_v4(c, r, selector) | (rnd & host_mask_v4(r))
}

/// A random address of the block: its network bits, host bits from `rnd`.
pub open spec fn random_v4(c: Ipv4Cidr, rnd: u32) -> u32 {
    (c.first & !host_mask_v4(c.len)) | (rnd & host_mask_v4(c.len))
}

/// The address that the allocator gives for `ext`, with `selector` the
/// number the extension stands for (if any) and `rnd` the random word.
pub open spec fn alloc_v4(
    c: Ipv4Cidr,
    sub_range: Option<u8>,
    ext: Extension,
    selector: Option<u64>,
    rnd: u32,
) -> u32 {
    match selector {
        Some(sel) => match ext {
            Extension::TTL(_) => session_v4(c, sel),
            Extension::Session(_) => session_v4(c, sel),
            Extension::Range(_) => match sub_range {
                Some(r) => if c.len <= r && r <= 32 {
                    range_v4(c, r, sel as u32, rnd)
                } else {
                    random_v4(c, rnd)
                },
                None => random_v4(c, rnd),
            },
            Extension::Empty => random_v4(c, rnd),
        },
        None => random_v4(c, rnd),
    }
}

proof fn lemma_v4_in_block(first: u32, x: u32, len: u32)
    by (bit_vector)
    requires
        len < 32,
        x <= (0xffff_ffffu32 >> len),
    ensures
        ((first & !(0xffff_ffffu32 >> len)) | x) & !(0xffff_ffffu32 >> len) == first & !(
        0xffff_ffffu32 >> len),
{
}

proof fn lemma_v4_range_bits(
    first: u32,
    sel: u32,
    rnd: u32,
    len: u32,
    r: u32,
    hp: u32,
    hr: u32,
    lo: u32,
    fx: u32,
)
    by (bit_vector)
    requires
        len <= r <= 32,
        hp == if len >= 32 { 0u32 } else { 0xffff_ffffu32 >> len },
        hr == if r >= 32 { 0u32 } else { 0xffff_ffffu32 >> r },
        lo == if r - len == 0 { 0u32 } else if r - len >= 32 { 0xffff_ffffu32 } else {
            0xffff_ffffu32 >> ((32 - (r - len)) as u32)
        },
        fx == if r == 0 { 0u32 } else { (sel & lo) << ((32 - r) as u32) },
    ensures
        (((first & !hp) | fx) | (rnd & hr)) & !hp == first & !hp,
        (((first & !hp) | fx) | (rnd & hr)) & !hr == (first & !hp) | fx,
{
}

/// Session and ttl addresses of a block lie in the block.
pub proof fn lemma_session_v4_in_block(c: Ipv4Cidr, selector: u64)
    requires
        c.wf(),
    ensures
        c.contains(session_v4(c, selector)),
{
    let cap = host_mask_v4(c.len);
    if cap != 0 {
        let x = (selector % (cap as u64)) as u32;
        assert(selector % (cap as u64) < cap as u64) by (nonlinear_arith)
            requires
                cap != 0,
        ;
        lemma_v4_in_block(c.first, x, c.len as u32);
    } else {
        let f = c.first;
        assert((f & !0u32) & !0u32 == f & !0u32) by (bit_vector);
    }
}

/// Range addresses lie in the block, and their top `r` bits are the
/// network bits followed by the fixed segment, whatever `rnd` is.
pub proof fn lemma_range_v4_bits(c: Ipv4Cidr, r: u8, selector: u32, rnd: u32)
    requires
        c.wf(),
        c.len <= r <= 32,
    ensures
        c.contains(range_v4(c, r, selector, rnd)),
        range_v4(c, r, selector, rnd) & !host_mask_v4(r) == range_prefix_v4(c, r, selector),
{
    let lenw = c.len as u32;
    let rw = r as u32;
    let lo = if rw - lenw == 0 {
        0u32
    } else if rw - lenw >= 32 {
        0xffff_ffffu32
    } else {
        0xffff_ffffu32 >> ((32 - (rw - lenw)) as u32)
    };
    assert(low_bits_v4((r - c.len) as u8) == lo);
    lemma_v4_range_bits(
        c.first,
        selector,
        rnd,
        lenw,
        rw,
        host_mask_v4(c.len),
        host_mask_v4(r),
        lo,
        fixed_segment_v4(c, r, selector),
    );
}

/// Random addresses of a block lie in the block.
pub proof fn lemma_random_v4_in_block(c: Ipv4Cidr, rnd: u32)
    requires
        c.wf(),
    ensures
        c.contains(random_v4(c, rnd)),
{
    if c.len >= 32 {
        let f = c.first;
        assert(((f & !0u32) | (rnd & 0u32)) & !0u32 == f & !0u32) by (bit_vector);
    } else {
        let m = 0xffff_ffffu32 >> (c.len as u32);
        assert(rnd & m <= m) by (bit_vector);
        lemma_v4_in_block(c.first, rnd & m, c.len as u32);
    }
}

/// Every address the allocator gives lies in the block.
pub proof fn lemma_alloc_v4_in_block(
    c: Ipv4Cidr,
    sub_range: Option<u8>,
    ext: Extension,
    selector: Option<u64>,
    rnd: u32,
)
    requires
        c.wf(),
    ensures
        c.contains(alloc_v4(c, sub_range, ext, selector, rnd)),
{
    lemma_random_v4_in_block(c, rnd);
    if let Some(sel) = selector {
        lemma_session_v4_in_block(c, sel);
        if let Some(r) = sub_range {
            if c.len <= r && r <= 32 {
                lemma_range_v4_bits(c, r, sel as u32, rnd);
            }
        }
    }
}

/// The session / ttl address of `cidr` for `selector`.
pub fn assign_ipv4_with_session(cidr: Ipv4Cidr, selector: u64) -> (r: u32)
    ensures
        r == session_v4(cidr, selector),
{
    let cap = host_mask_v4_exec(cidr.len);
    if cap == 0 {
        cidr.first & !cap
    } else {
        let host = selector % (cap as u64);
        assert(host < cap as u64) by (nonlinear_arith)
            requires
                host == selector % (cap as u64),
                cap != 0,
        ;
        (cidr.first & !cap) | (host as u32)
    }
}

/// The range address of `cidr` with sub-range length `range`: the low
/// `range - len` bits of `combined` fix the bits below the network bits,
/// `rnd` fills the rest. A sub-range shorter than the prefix, or longer
/// than 32, gives a random address.
pub fn assign_ipv4_with_range(cidr: Ipv4Cidr, range: u8, combined: u32, rnd: u32) -> (r: u32)
    ensures
        r == (if cidr.len <= range && range <= 32 {
            range_v4(cidr, range, combined, rnd)
        } else {
            random_v4(cidr, rnd)
        }),
{
    if range < cidr.len || range > 32 {
        return assign_rand_ipv4(cidr, rnd);
    }
    let fixed: u32 = if range == 0 {
        0
    } else {
        (combined & low_bits_v4_exec(range - cidr.len)) << ((32 - range) as u32)
    };
    (cidr.first & !host_mask_v4_exec(cidr.len)) | fixed | (rnd & host_mask_v4_exec(range))
}

/// A random address of `cidr`: its network bits, host bits from `rnd`.
pub fn assign_rand_ipv4(cidr: Ipv4Cidr, rnd: u32) -> (r: u32)
    ensures
        r == random_v4(cidr, rnd),
{
    let host = host_mask_v4_exec(cidr.len);
    (cidr.first & !host) | (rnd & host)
}

/// The allocator for IPv4: what `ext` selects in `cidr`, with `selector`
/// the number the extension stands for and `rnd` the random word.
pub fn alloc_ipv4(
    cidr: Ipv4Cidr,
    sub_range: Option<u8>,
    ext: Extension,
    selector: Option<u64>,
    rnd: u32,
) -> (r: u32)
    ensures
        r == alloc_v4(cidr, sub_range, ext, selector, rnd),
        cidr.wf() ==> cidr.contains(r),
{
    proof {
        if cidr.wf() {
            lemma_alloc_v4_in_block(cidr, sub_range, ext, selector, rnd);
        }
    }
    match selector {
        Some(sel) => match ext {
            Extension::TTL(_) => assign_ipv4_with_session(cidr, sel),
            Extension::Session(_) => assign_ipv4_with_session(cidr, sel),
            Extension::Range(_) => match sub_range {
                Some(range) => assign_ipv4_with_range(cidr, range, sel as u32, rnd),
                None => assign_rand_ipv4(cidr, rnd),
            },
            Extension::Empty => assign_rand_ipv4(cidr, rnd),
        },
        None => assign_rand_ipv4(cidr, rnd),
    }
}

// ---------------------------------------------------------------- IPv6

/// Session and ttl selectors: the network bits of the block, and the
/// selector modulo the capacity `2^(128-len) - 1` in the host bits. A block
/// with no capacity gives its network address.
pub open spec fn session_v6(c: Ipv6Cidr, selector: u64) -> u128 {
    let cap = host_mask_v6(c.len);
    if cap == 0 {
        c.first & !cap
    } else {
        (c.first & !cap) | ((selector as u128) % cap)
    }
}

/// The fixed segment of a range address: the low `r - len` bits of the
/// selector, placed just below the top `len` bits.
pub open spec fn fixed_segment_v6(c: Ipv6Cidr, r: u8, selector: u128) -> u128 {
    if r == 0 {
        0
    } else {
        (selector & low_bits_v6((r - c.len) as u8)) << ((128 - r) as u128)
    }
}

/// The top `r` bits of a range address: network bits, then the fixed
/// segment.
pub open spec fn range_prefix_v6(c: Ipv6Cidr, r: u8, selector: u128) -> u128 {
    (c.first & !host_mask_v6(c.len)) | fixed_segment_v6(c, r, selector)
}

/// A range address: the top `r` bits fixed, the rest from `rnd`.
pub open spec fn range_v6(c: Ipv6Cidr, r: u8, selector: u128, rnd: u128) -> u128 {
    range_prefix_v6(c, r, selector) | (rnd & host_mask_v6(r))
}

/// A random address of the block: its network bits, host bits from `rnd`.
pub open spec fn random_v6(c: Ipv6Cidr, rnd: u128) -> u128 {
    (c.first & !host_mask_v6(c.len)) | (rnd & host_mask_v6(c.len))
}

/// The address that the allocator gives for `ext`, with `selector` the
/// number the extension stands for (if any) and `rnd` the random word.
pub open spec fn alloc_v6(
    c: Ipv6Cidr,
    sub_range: Option<u8>,
    ext: Extension,
    selector: Option<u64>,
    rnd: u128,
) -> u128 {
    match selector {
        Some(sel) => match ext {
            Extension::TTL(_) => session_v6(c, sel),
            Extension::Session(_) => session_v6(c, sel),
            Extension::Range(_) => match sub_range {
                Some(r) => if c.len <= r && r <= 128 {
                    range_v6(c, r, sel as u128, rnd)
                } else {
                    random_v6(c, rnd)
                },
                None => random_v6(c, rnd),
            },
            Extension::Empty => random_v6(c, rnd),
        },
        None => random_v6(c, rnd),
    }
}

proof fn lemma_v6_in_block(first: u128, x: u128, len: u128)
    by (bit_vector)
    requires
        len < 128,
        x <= (0xffff_ffff_ffff_ffff_ffff_ffff_ffff_ffffu128 >> len),
    ensures
        ((first & !(0xffff_ffff_ffff_ffff_ffff_ffff_ffff_ffffu128 >> len)) | x) & !(0xffff_ffff_ffff_ffff_ffff_ffff_ffff_ffffu128 >> len) == first & !(
        0xffff_ffff_ffff_ffff_ffff_ffff_ffff_ffffu128 >> len),
{
}

proof fn lemma_v6_range_bits(
    first: u128,
    sel: u128,
    rnd: u128,
    len: u128,
    r: u128,
    hp: u128,
    hr: u128,
    lo: u128,
    fx: u128,
)
    by (bit_vector)
    requires
        len <= r <= 128,
        hp == if len >= 128 { 0u128 } else { 0xffff_ffff_ffff_ffff_ffff_ffff_ffff_ffffu128 >> len },
        hr == if r >= 128 { 0u128 } else { 0xffff_ffff_ffff_ffff_ffff_ffff_ffff_ffffu128 >> r },
        lo == if r - len == 0 { 0u128 } else if r - len >= 128 { 0xffff_ffff_ffff_ffff_ffff_ffff_ffff_ffffu128 } else {
            0xffff_ffff_ffff_ffff_ffff_ffff_ffff_ffffu128 >> ((128 - (r - len)) as u128)
        },
        fx == if r == 0 { 0u128 } else { (sel & lo) << ((128 - r) as u128) },
    ensures
        (((first & !hp) | fx) | (rnd & hr)) & !hp == first & !hp,
        (((first & !hp) | fx) | (rnd & hr)) & !hr == (first & !hp) | fx,
{
}

/// Session and ttl addresses of a block lie in the block.
pub proof fn lemma_session_v6_in_block(c: Ipv6Cidr, selector: u64)
    requires
        c.wf(),
    ensures
        c.contains(session_v6(c, selector)),
{
    let cap = host_mask_v6(c.len);
    if cap != 0 {
        let x = (selector as u128) % cap;
        assert((selector as u128) % cap < cap) by (nonlinear_arith)
            requires
                cap != 0,
        ;
        lemma_v6_in_block(c.first, x, c.len as u128);
    } else {
        let f = c.first;
        assert((f & !0u128) & !0u128 == f & !0u128) by (bit_vector);
    }
}

/// Range addresses lie in the block, and their top `r` bits are the
/// network bits followed by the fixed segment, whatever `rnd` is.
pub proof fn lemma_range_v6_bits(c: Ipv6Cidr, r: u8, selector: u128, rnd: u128)
    requires
        c.wf(),
        c.len <= r <= 128,
    ensures
        c.contains(range_v6(c, r, selector, rnd)),
        range_v6(c, r, selector, rnd) & !host_mask_v6(r) == range_prefix_v6(c, r, selector),
{
    let lenw = c.len as u128;
    let rw = r as u128;
    let lo = if rw - lenw == 0 {
        0u128
    } else if rw - lenw >= 128 {
        0xffff_ffff_ffff_ffff_ffff_ffff_ffff_ffffu128
    } else {
        0xffff_ffff_ffff_ffff_ffff_ffff_ffff_ffffu128 >> ((128 - (rw - lenw)) as u128)
    };
    assert(low_bits_v6((r - c.len) as u8) == lo);
    lemma_v6_range_bits(
        c.first,
        selector,
        rnd,
        lenw,
        rw,
        host_mask_v6(c.len),
        host_mask_v6(r),
        lo,
        fixed_segment_v6(c, r, selector),
    );
}

/// Random addresses of a block lie in the block.
pub proof fn lemma_random_v6_in_block(c: Ipv6Cidr, rnd: u128)
    requires
        c.wf(),
    ensures
        c.contains(random_v6(c, rnd)),
{
    if c.len >= 128 {
        let f = c.first;
        assert(((f & !0u128) | (rnd & 0u128)) & !0u128 == f & !0u128) by (bit_vector);
    } else {
        let m = 0xffff_ffff_ffff_ffff_ffff_ffff_ffff_ffffu128 >> (c.len as u128);
        assert(rnd & m <= m) by (bit_vector);
        lemma_v6_in_block(c.first, rnd & m, c.len as u128);
    }
}

/// Every address the allocator gives lies in the block.
pub proof fn lemma_alloc_v6_in_block(
    c: Ipv6Cidr,
    sub_range: Option<u8>,
    ext: Extension,
    selector: Option<u64>,
    rnd: u128,
)
    requires
        c.wf(),
    ensures
        c.contains(alloc_v6(c, sub_range, ext, selector, rnd)),
{
    lemma_random_v6_in_block(c, rnd);
    if let Some(sel) = selector {
        lemma_session_v6_in_block(c, sel);
        if let Some(r) = sub_range {
            if c.len <= r && r <= 128 {
                lemma_range_v6_bits(c, r, sel as u128, rnd);
            }
        }
    }
}

/// The session / ttl address of `cidr` for `selector`.
pub fn assign_ipv6_with_session(cidr: Ipv6Cidr, selector: u64) -> (r: u128)
    ensures
        r == session_v6(cidr, selector),
{
    let cap = host_mask_v6_exec(cidr.len);
    if cap == 0 {
        cidr.first & !cap
    } else {
        let host = (selector as u128) % cap;
        assert(host < cap) by (nonlinear_arith)
            requires
                host == (selector as u128) % cap,
                cap != 0,
        ;
        (cidr.first & !cap) | (host as u128)
    }
}

/// The range address of `cidr` with sub-range length `range`: the low
/// `range - len` bits of `combined` fix the bits below the network bits,
/// `rnd` fills the rest. A sub-range shorter than the prefix, or longer
/// than 128, gives a random address.
pub fn assign_ipv6_with_range(cidr: Ipv6Cidr, range: u8, combined: u128, rnd: u128) -> (r: u128)
    ensures
        r == (if cidr.len <= range && range <= 128 {
            range_v6(cidr, range, combined, rnd)
        } else {
            random_v6(cidr, rnd)
        }),
{
    if range < cidr.len || range > 128 {
        return assign_rand_ipv6(cidr, rnd);
    }
    let fixed: u128 = if range == 0 {
        0
    } else {
        (combined & low_bits_v6_exec(range - cidr.len)) << ((128 - range) as u128)
    };
    (cidr.first & !host_mask_v6_exec(cidr.len)) | fixed | (rnd & host_mask_v6_exec(range))
}

/// A random address of `cidr`: its network bits, host bits from `rnd`.
pub fn assign_rand_ipv6(cidr: Ipv6Cidr, rnd: u128) -> (r: u128)
    ensures
        r == random_v6(cidr, rnd),
{
    let host = host_mask_v6_exec(cidr.len);
    (cidr.first & !host) | (rnd & host)
}

/// The allocator for IPv6: what `ext` selects in `cidr`, with `selector`
/// the number the extension stands for and `rnd` the random word.
pub fn alloc_ipv6(
    cidr: Ipv6Cidr,
    sub_range: Option<u8>,
    ext: Extension,
    selector: Option<u64>,
    rnd: u128,
) -> (r: u128)
    ensures
        r == alloc_v6(cidr, sub_range, ext, selector, rnd),
        cidr.wf() ==> cidr.contains(r),
{
    proof {
        if cidr.wf() {
            lemma_alloc_v6_in_block(cidr, sub_range, ext, selector, rnd);
        }
    }
    match selector {
        Some(sel) => match ext {
            Extension::TTL(_) => assign_ipv6_with_session(cidr, sel),
            Extension::Session(_) => assign_ipv6_with_session(cidr, sel),
            Extension::Range(_) => match sub_range {
                Some(range) => assign_ipv6_with_range(cidr, range, sel as u128, rnd),
                None => assign_rand_ipv6(cidr, rnd),
            },
            Extension::Empty => assign_rand_ipv6(cidr, rnd),
        },
        None => assign_rand_ipv6(cidr, rnd),
    }
}

/// With a sub-range of `r` bits (`len <= r`), two allocations for the same
/// range selector agree on their top `r` bits, the network bits followed by
/// the low `r - len` bits of the selector; only the low bits may differ.
pub proof fn lemma_range_split_v4(c: Ipv4Cidr, r: u8, selector: u64, rnd1: u32, rnd2: u32)
    requires
        c.wf(),
        c.len <= r <= 32,
    ensures
        alloc_v4(c, Some(r), Extension::Range(selector), Some(selector), rnd1) & !host_mask_v4(r)
            == alloc_v4(c, Some(r), Extension::Range(selector), Some(selector), rnd2)
            & !host_mask_v4(r),
        alloc_v4(c, Some(r), Extension::Range(selector), Some(selector), rnd1) & !host_mask_v4(r)
            == range_prefix_v4(c, r, selector as u32),
{
    lemma_range_v4_bits(c, r, selector as u32, rnd1);
    lemma_range_v4_bits(c, r, selector as u32, rnd2);
}

/// With a sub-range of `r` bits (`len <= r`), two allocations for the same
/// range selector agree on their top `r` bits, the network bits followed by
/// the low `r - len` bits of the selector; only the low bits may differ.
pub proof fn lemma_range_split_v6(c: Ipv6Cidr, r: u8, selector: u64, rnd1: u128, rnd2: u128)
    requires
        c.wf(),
        c.len <= r <= 128,
    ensures
        alloc_v6(c, Some(r), Extension::Range(selector), Some(selector), rnd1) & !host_mask_v6(r)
            == alloc_v6(c, Some(r), Extension::Range(selector), Some(selector), rnd2)
            & !host_mask_v6(r),
        alloc_v6(c, Some(r), Extension::Range(selector), Some(selector), rnd1) & !host_mask_v6(r)
            == range_prefix_v6(c, r, selector as u128),
{
    lemma_range_v6_bits(c, r, selector as u128, rnd1);
    lemma_range_v6_bits(c, r, selector as u128, rnd2);
}

} // verus!
