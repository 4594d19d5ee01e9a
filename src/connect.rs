//! The outbound bind policy: which local address each outbound socket is
//! bound to, from the configured block, sub-range and fallback address
//! and the request's extension.
use vstd::prelude::*;
use crate::addr::{
    alloc_ipv4, alloc_ipv6, alloc_v4, alloc_v6, host_mask_v4, host_mask_v6,
    lemma_range_split_v4, lemma_range_split_v6, lemma_session_v4_in_block,
    lemma_session_v6_in_block, range_prefix_v4, range_prefix_v6, session_v4, session_v6,
    IpAddress, IpCidr, Ipv4Cidr, Ipv6Cidr,
};
use crate::extension::Extension;
use crate::ttl::{lemma_ttl_window, ttl_selector, TTLCalculator};

verus! {

/// The selectors that `combined` may give for `ext`: the value itself for
/// session and range, the selector of some instant's window for a
/// positive ttl, and none otherwise.
pub open spec fn possible_selector(ext: Extension, selector: Option<u64>) -> bool {
    match ext {
        Extension::Session(v) => selector == Some(v),
        Extension::Range(v) => selector == Some(v),
        Extension::TTL(n) => if n == 0 {
            selector is None
        } else {
            exists|t: u64| selector == Some(#[trigger] ttl_selector(t, n))
        },
        Extension::Empty => selector is None,
    }
}

/// The number that the extension stands for: the session or range hash,
/// or for a ttl the selector of the current window. A ttl of zero has no
/// window and gives `None`, as an empty extension does.
pub fn combined(extension: Extension) -> (r: Option<u64>)
    ensures
        possible_selector(extension, r),
{
    match extension {
        Extension::Range(value) => Some(value),
        Extension::Session(value) => Some(value),
        Extension::TTL(ttl) => {
            if ttl == 0 {
                None
            } else {
                let s = TTLCalculator.ttl_boundary(ttl);
                let ghost t = choose|t: u64| s == ttl_selector(t, ttl);
                assert(Some(s) == Some(ttl_selector(t, ttl)));
                Some(s)
            }
        },
        Extension::Empty => None,
    }
}

/// An IPv4 address of `cidr` for `extension`, with the selector from
/// `combined` and host bits from the random generator where the extension
/// leaves them open.
pub fn assign_ipv4_from_extension(cidr: Ipv4Cidr, cidr_range: Option<u8>, extension: Extension) -> (r:
    u32)
    ensures
        cidr.wf() ==> cidr.contains(r),
        exists|selector: Option<u64>, rnd: u32|
            possible_selector(extension, selector) && r == alloc_v4(
                cidr,
                cidr_range,
                extension,
                selector,
                rnd,
            ),
{
    let selector = combined(extension);
    let rnd: u32 = rand::random::<u32>();
    alloc_ipv4(cidr, cidr_range, extension, selector, rnd)
}

/// An IPv6 address of `cidr` for `extension`, with the selector from
/// `combined` and host bits from the random generator where the extension
/// leaves them open.
pub fn assign_ipv6_from_extension(cidr: Ipv6Cidr, cidr_range: Option<u8>, extension: Extension) -> (r:
    u128)
    ensures
        cidr.wf() ==> cidr.contains(r),
        exists|selector: Option<u64>, rnd: u128|
            possible_selector(extension, selector) && r == alloc_v6(
                cidr,
                cidr_range,
                extension,
                selector,
                rnd,
            ),
{
    let selector = combined(extension);
    let rnd: u128 = rand::random::<u128>();
    alloc_ipv6(cidr, cidr_range, extension, selector, rnd)
}

/// The address that the allocator may give in `cidr` for `ext`.
pub open spec fn allocatable(cidr: IpCidr, cidr_range: Option<u8>, ext: Extension, a: IpAddress) -> bool {
    match (cidr, a) {
        (IpCidr::V4(c), IpAddress::V4(x)) => exists|selector: Option<u64>, rnd: u32|
            possible_selector(ext, selector) && x == alloc_v4(c, cidr_range, ext, selector, rnd),
        (IpCidr::V6(c), IpAddress::V6(x)) => exists|selector: Option<u64>, rnd: u128|
            possible_selector(ext, selector) && x == alloc_v6(c, cidr_range, ext, selector, rnd),
        _ => false,
    }
}

/// The outbound configuration: an optional block to draw source addresses
/// from, an optional sub-range length, an optional fallback address, and
/// the connect timeout in seconds.
#[derive(Clone, Copy, Debug)]
pub struct Connector {
    pub cidr: Option<IpCidr>,
    pub cidr_range: Option<u8>,
    pub fallback: Option<IpAddress>,
    pub connect_timeout: u64,
}

/// The local address plan of one outbound socket.
#[derive(Clone, Copy, Debug, PartialEq, Eq, Structural)]
pub enum BindPlan {
    /// Let the system choose (`0.0.0.0` or `::`).
    Unspecified,
    /// Bind to the fallback address.
    Fallback(IpAddress),
    /// Bind to an address of the block.
    Allocated(IpAddress),
    /// Bind to an address of the block; should the connect fail, retry
    /// once from the fallback address.
    AllocatedThenFallback(IpAddress, IpAddress),
}

/// The local addresses the forwarding HTTP client is given.
#[derive(Clone, Copy, Debug, PartialEq, Eq, Structural)]
pub enum LocalAddrs {
    /// None: the system chooses.
    Unspecified,
    /// One address for every target.
    One(IpAddress),
    /// One address per family; the client picks by the target's family.
    Both(u32, u128),
}

/// Why no outbound connection was made.
#[derive(Clone, Copy, Debug, PartialEq, Eq)]
pub enum ConnectFailure<E> {
    /// No address was tried: the name resolved to none.
    Aborted,
    /// Every address failed; this is the error of the last attempt.
    Last(E),
}

/// The failure of a connect loop that tried every resolved address: the
/// last error, or `Aborted` when there was no address to try.
pub fn error<E>(last_err: Option<E>) -> (r: ConnectFailure<E>)
    ensures
        match last_err {
            Some(e) => r == ConnectFailure::Last(e),
            None => r == ConnectFailure::<E>::Aborted,
        },
{
    match last_err {
        Some(e) => ConnectFailure::Last(e),
        None => ConnectFailure::Aborted,
    }
}

impl Connector {
    /// The block, when there is one, is a valid block.
    pub open spec fn wf(&self) -> bool {
        match self.cidr {
            Some(c) => c.wf(),
            None => true,
        }
    }

    pub fn new(
        cidr: Option<IpCidr>,
        cidr_range: Option<u8>,
        fallback: Option<IpAddress>,
        connect_timeout: u64,
    ) -> (r: Connector)
        ensures
            r == (Connector { cidr, cidr_range, fallback, connect_timeout }),
    {
        Connector { cidr, cidr_range, fallback, connect_timeout }
    }

    /// An address of `cidr` for `extension`.
    pub fn allocate(&self, cidr: IpCidr, extension: Extension) -> (r: IpAddress)
        ensures
            cidr.wf() ==> cidr.contains(r),
            allocatable(cidr, self.cidr_range, extension, r),
    {
        match cidr {
            IpCidr::V4(c) => IpAddress::V4(
                assign_ipv4_from_extension(c, self.cidr_range, extension),
            ),
            IpCidr::V6(c) => IpAddress::V6(
                assign_ipv6_from_extension(c, self.cidr_range, extension),
            ),
        }
    }

    /// The plan for a TCP connect or a UDP bind: no block and no fallback,
    /// the system's choice; only a fallback, the fallback; a block, an
    /// address of the block, and with a fallback too, a retry from it
    /// should the first attempt fail.
    pub fn bind_plan(&self, extension: Extension) -> (r: BindPlan)
        ensures
            match (self.cidr, self.fallback) {
                (None, None) => r == BindPlan::Unspecified,
                (None, Some(f)) => r == BindPlan::Fallback(f),
                (Some(c), None) => r is Allocated && allocatable(
                    c,
                    self.cidr_range,
                    extension,
                    r->Allocated_0,
                ) && (c.wf() ==> c.contains(r->Allocated_0)),
                (Some(c), Some(f)) => r is AllocatedThenFallback && r->AllocatedThenFallback_1
                    == f && allocatable(c, self.cidr_range, extension, r->AllocatedThenFallback_0)
                    && (c.wf() ==> c.contains(r->AllocatedThenFallback_0)),
            },
    {
        match (self.cidr, self.fallback) {
            (None, None) => BindPlan::Unspecified,
            (None, Some(f)) => BindPlan::Fallback(f),
            (Some(c), None) => BindPlan::Allocated(self.allocate(c, extension)),
            (Some(c), Some(f)) => BindPlan::AllocatedThenFallback(self.allocate(c, extension), f),
        }
    }

    /// The local address of a listening socket (the SOCKS5 BIND command):
    /// an address of the block if there is one, else the fallback, else
    /// `default`.
    pub fn bind_socket_addr(&self, default: Option<IpAddress>, extension: Extension) -> (r: Option<
        IpAddress,
    >)
        ensures
            match (self.cidr, self.fallback) {
                (Some(c), _) => r is Some && allocatable(c, self.cidr_range, extension, r->Some_0)
                    && (c.wf() ==> c.contains(r->Some_0)),
                (None, Some(f)) => r == Some(f),
                (None, None) => r == default,
            },
    {
        match (self.cidr, self.fallback) {
            (Some(c), _) => Some(self.allocate(c, extension)),
            (None, Some(f)) => Some(f),
            (None, None) => default,
        }
    }

    /// The local addresses of the forwarding HTTP client. A block and a
    /// fallback of different families give one address of each family;
    /// a block alone, or with a fallback of its own family, gives the
    /// block's address; a fallback alone gives the fallback.
    pub fn http_local_addresses(&self, extension: Extension) -> (r: LocalAddrs)
        ensures
            match (self.cidr, self.fallback) {
                (None, None) => r == LocalAddrs::Unspecified,
                (None, Some(f)) => r == LocalAddrs::One(f),
                (Some(IpCidr::V4(c)), Some(IpAddress::V6(f))) => r is Both && r->Both_1 == f
                    && allocatable(
                    IpCidr::V4(c),
                    self.cidr_range,
                    extension,
                    IpAddress::V4(r->Both_0),
                ) && (c.wf() ==> c.contains(r->Both_0)),
                (Some(IpCidr::V6(c)), Some(IpAddress::V4(f))) => r is Both && r->Both_0 == f
                    && allocatable(
                    IpCidr::V6(c),
                    self.cidr_range,
                    extension,
                    IpAddress::V6(r->Both_1),
                ) && (c.wf() ==> c.contains(r->Both_1)),
                (Some(c), _) => r is One && allocatable(c, self.cidr_range, extension, r->One_0)
                    && (c.wf() ==> c.contains(r->One_0)),
            },
    {
        match (self.cidr, self.fallback) {
            (Some(IpCidr::V4(c)), Some(IpAddress::V6(f))) => {
                let v4 = assign_ipv4_from_extension(c, self.cidr_range, extension);
                LocalAddrs::Both(v4, f)
            },
            (Some(IpCidr::V6(c)), Some(IpAddress::V4(f))) => {
                let v6 = assign_ipv6_from_extension(c, self.cidr_range, extension);
                LocalAddrs::Both(f, v6)
            },
            (Some(c), _) => LocalAddrs::One(self.allocate(c, extension)),
            (None, Some(f)) => LocalAddrs::One(f),
            (None, None) => LocalAddrs::Unspecified,
        }
    }
}

/// A session extension always allocates the same address of the block,
/// whatever the random generator gives: the network bits of the block and
/// the selector modulo the block's capacity in the host bits. That address
/// lies in the block.
pub proof fn lemma_session_allocation(
    cidr: IpCidr,
    cidr_range: Option<u8>,
    selector: u64,
    a1: IpAddress,
    a2: IpAddress,
)
    requires
        allocatable(cidr, cidr_range, Extension::Session(selector), a1),
        allocatable(cidr, cidr_range, Extension::Session(selector), a2),
    ensures
        a1 == a2,
        match (cidr, a1) {
            (IpCidr::V4(c), IpAddress::V4(x)) => x == session_v4(c, selector),
            (IpCidr::V6(c), IpAddress::V6(x)) => x == session_v6(c, selector),
            _ => false,
        },
        cidr.wf() ==> cidr.contains(a1),
{
    match cidr {
        IpCidr::V4(c) => {
            if c.wf() {
                lemma_session_v4_in_block(c, selector);
            }
        },
        IpCidr::V6(c) => {
            if c.wf() {
                lemma_session_v6_in_block(c, selector);
            }
        },
    }
}

/// Two instants in the same `ttl`-second window allocate the same address
/// for a ttl extension, whatever the random generator gives.
pub proof fn lemma_ttl_allocation_stable(
    cidr: IpCidr,
    cidr_range: Option<u8>,
    ttl: u64,
    t1: u64,
    t2: u64,
    rnd1: u128,
    rnd2: u128,
)
    requires
        ttl > 0,
        t1 / ttl == t2 / ttl,
    ensures
        match cidr {
            IpCidr::V4(c) => alloc_v4(
                c,
                cidr_range,
                Extension::TTL(ttl),
                Some(ttl_selector(t1, ttl)),
                rnd1 as u32,
            ) == alloc_v4(c, cidr_range, Extension::TTL(ttl), Some(ttl_selector(t2, ttl)), rnd2 as u32),
            IpCidr::V6(c) => alloc_v6(
                c,
                cidr_range,
                Extension::TTL(ttl),
                Some(ttl_selector(t1, ttl)),
                rnd1,
            ) == alloc_v6(c, cidr_range, Extension::TTL(ttl), Some(ttl_selector(t2, ttl)), rnd2),
        },
{
    lemma_ttl_window(t1, t2, ttl);
}

/// Two allocations for the same range extension, with a sub-range of `r`
/// bits no shorter than the prefix, agree on their top `r` bits.
pub proof fn lemma_range_allocation(
    cidr: IpCidr,
    r: u8,
    selector: u64,
    a1: IpAddress,
    a2: IpAddress,
)
    requires
        cidr.wf(),
        allocatable(cidr, Some(r), Extension::Range(selector), a1),
        allocatable(cidr, Some(r), Extension::Range(selector), a2),
        match cidr {
            IpCidr::V4(c) => c.len <= r <= 32,
            IpCidr::V6(c) => c.len <= r <= 128,
        },
    ensures
        match (cidr, a1, a2) {
            (IpCidr::V4(c), IpAddress::V4(x), IpAddress::V4(y)) => x & !host_mask_v4(r) == y
                & !host_mask_v4(r) && x & !host_mask_v4(r) == range_prefix_v4(c, r, selector as u32),
            (IpCidr::V6(c), IpAddress::V6(x), IpAddress::V6(y)) => x & !host_mask_v6(r) == y
                & !host_mask_v6(r) && x & !host_mask_v6(r) == range_prefix_v6(
                c,
                r,
                selector as u128,
            ),
            _ => false,
        },
{
    match (cidr, a1, a2) {
        (IpCidr::V4(c), IpAddress::V4(x), IpAddress::V4(y)) => {
            let rnd1 = choose|rnd: u32|
                x == alloc_v4(c, Some(r), Extension::Range(selector), Some(selector), rnd);
            let rnd2 = choose|rnd: u32|
                y == alloc_v4(c, Some(r), Extension::Range(selector), Some(selector), rnd);
            lemma_range_split_v4(c, r, selector, rnd1, rnd2);
        },
        (IpCidr::V6(c), IpAddress::V6(x), IpAddress::V6(y)) => {
            let rnd1 = choose|rnd: u128|
                x == alloc_v6(c, Some(r), Extension::Range(selector), Some(selector), rnd);
            let rnd2 = choose|rnd: u128|
                y == alloc_v6(c, Some(r), Extension::Range(selector), Some(selector), rnd);
            lemma_range_split_v6(c, r, selector, rnd1, rnd2);
        },
        _ => {},
    }
}

} // verus!
