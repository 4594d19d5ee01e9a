//! Time windows for the ttl extension: within one window of `ttl`
//! seconds the selector, and so the address, stays the same.
use vstd::prelude::*;
use crate::hashing::{fxhash64_of, hash64};

verus! {

/// Relies on `SystemTime::now` and `SystemTime::duration_since` with
/// `UNIX_EPOCH`: the whole seconds since the epoch, or `None` when the
/// clock reads a time before it. Nothing is promised of the value.
#[verifier::external_body]
fn unix_seconds() -> (r: Option<u64>) {
    std::time::SystemTime::now().duration_since(std::time::UNIX_EPOCH).ok().map(|d| d.as_secs())
}

/// The start of the `ttl`-second window that holds `timestamp`.
pub open spec fn window_start(timestamp: u64, ttl: u64) -> u64
    recommends
        ttl > 0,
{
    (timestamp - timestamp % ttl) as u64
}

/// The eight big-endian bytes of `x`.
pub open spec fn be_bytes(x: u64) -> Seq<u8> {
    seq![
        (x >> 56u64) as u8,
        (x >> 48u64) as u8,
        (x >> 40u64) as u8,
        (x >> 32u64) as u8,
        (x >> 24u64) as u8,
        (x >> 16u64) as u8,
        (x >> 8u64) as u8,
        x as u8,
    ]
}

/// The selector of the ttl extension at `timestamp`: the hash of the big-
/// endian bytes of the window start.
pub open spec fn ttl_selector(timestamp: u64, ttl: u64) -> u64 {
    fxhash64_of(be_bytes(window_start(timestamp, ttl)))
}

/// The eight big-endian bytes of `x`.
pub fn to_be_bytes(x: u64) -> (r: Vec<u8>)
    ensures
        r@ == be_bytes(x),
{
    let r = vec![
        (x >> 56u64) as u8,
        (x >> 48u64) as u8,
        (x >> 40u64) as u8,
        (x >> 32u64) as u8,
        (x >> 24u64) as u8,
        (x >> 16u64) as u8,
        (x >> 8u64) as u8,
        x as u8,
    ];
    assert(r@ =~= be_bytes(x));
    r
}

/// Computes ttl windows and their selectors.
#[derive(Clone, Copy, Debug)]
pub struct TTLCalculator;

impl TTLCalculator {
    /// The selector of the current `ttl`-second window. When the clock
    /// reads a time before the epoch a random instant stands in for it.
    pub fn ttl_boundary(&self, ttl: u64) -> (r: u64)
        requires
            ttl > 0,
        ensures
            exists|t: u64| r == ttl_selector(t, ttl),
    {
        let timestamp: u64 = match unix_seconds() {
            Some(secs) => secs,
            None => rand::random::<u64>(),
        };
        self.selector_at(timestamp, ttl)
    }

    /// The selector of the `ttl`-second window that holds `timestamp`.
    pub fn selector_at(&self, timestamp: u64, ttl: u64) -> (r: u64)
        requires
            ttl > 0,
        ensures
            r == ttl_selector(timestamp, ttl),
    {
        let time = self.calculate_ttl_boundary(timestamp, ttl);
        let bytes = to_be_bytes(time);
        hash64(bytes.as_slice())
    }

    /// The start of the `ttl`-second window that holds `timestamp`.
    pub fn calculate_ttl_boundary(&self, timestamp: u64, ttl: u64) -> (r: u64)
        requires
            ttl > 0,
        ensures
            r == window_start(timestamp, ttl),
            r <= timestamp,
            r % ttl == 0,
            timestamp - r < ttl,
    {
        proof {
            vstd::arithmetic::div_mod::lemma_fundamental_div_mod(timestamp as int, ttl as int);
            assert((timestamp - timestamp % ttl) % (ttl as int) == 0) by (nonlinear_arith)
                requires
                    ttl > 0,
                    timestamp == ttl * (timestamp / ttl) + timestamp % ttl,
            {
                vstd::arithmetic::div_mod::lemma_mod_multiples_basic(
                    (timestamp / ttl) as int,
                    ttl as int,
                );
            }
        }
        timestamp - (timestamp % ttl)
    }
}

/// Two instants in the same `ttl`-second window give the same selector;
/// instants in different windows lie in windows with different starts
/// (their selectors then differ unless the hash collides).
pub proof fn lemma_ttl_window(t1: u64, t2: u64, ttl: u64)
    requires
        ttl > 0,
    ensures
        t1 / ttl == t2 / ttl <==> window_start(t1, ttl) == window_start(t2, ttl),
        t1 / ttl == t2 / ttl ==> ttl_selector(t1, ttl) == ttl_selector(t2, ttl),
{
    vstd::arithmetic::div_mod::lemma_fundamental_div_mod(t1 as int, ttl as int);
    vstd::arithmetic::div_mod::lemma_fundamental_div_mod(t2 as int, ttl as int);
    assert(window_start(t1, ttl) == ttl * (t1 / ttl));
    assert(window_start(t2, ttl) == ttl * (t2 / ttl));
    if window_start(t1, ttl) == window_start(t2, ttl) {
        assert(t1 / ttl == t2 / ttl) by (nonlinear_arith)
            requires
                ttl > 0,
                ttl * (t1 / ttl) == ttl * (t2 / ttl),
        ;
    }
}

} // verus!
