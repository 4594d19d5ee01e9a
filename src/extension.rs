//! The per-request selector carried by the presented username, and its
//! parser.
use vstd::prelude::*;
use vstd::string::StringSliceAdditionalSpecFns;
use crate::hashing::{fxhash64_of, hash64};
use crate::text::{
    contains, contains_seq, decimal_u64, has_prefix, parse_u64, starts_with, tail_from,
    trim_start_matches, trim_start_seq,
};

verus! {

/// The selector a request carries, derived from the presented username.
#[derive(Clone, Copy, Debug, PartialEq, Eq, Structural)]
pub enum Extension {
    /// No selector: the allocator draws a random address.
    Empty,
    /// A window length in seconds; the address is stable within a window.
    TTL(u64),
    /// The hash of the range payload; fixes the sub-range bits.
    Range(u64),
    /// The hash of the whole presented username; fixes the whole address.
    Session(u64),
}

impl Default for Extension {
    fn default() -> (r: Extension)
        ensures
            r == Extension::Empty,
    {
        Extension::Empty
    }
}

/// The bytes of `-session-`.
pub open spec fn session_tag() -> Seq<u8> {
    seq![45u8, 115u8, 101u8, 115u8, 115u8, 105u8, 111u8, 110u8, 45u8]
}

/// The bytes of `-ttl-`.
pub open spec fn ttl_tag() -> Seq<u8> {
    seq![45u8, 116u8, 116u8, 108u8, 45u8]
}

/// The bytes of `-range-`.
pub open spec fn range_tag() -> Seq<u8> {
    seq![45u8, 114u8, 97u8, 110u8, 103u8, 101u8, 45u8]
}

fn session_tag_bytes() -> (r: Vec<u8>)
    ensures
        r@ == session_tag(),
{
    let r = vec![45u8, 115u8, 101u8, 115u8, 115u8, 105u8, 111u8, 110u8, 45u8];
    assert(r@ =~= session_tag());
    r
}

fn ttl_tag_bytes() -> (r: Vec<u8>)
    ensures
        r@ == ttl_tag(),
{
    let r = vec![45u8, 116u8, 116u8, 108u8, 45u8];
    assert(r@ =~= ttl_tag());
    r
}

fn range_tag_bytes() -> (r: Vec<u8>)
    ensures
        r@ == range_tag(),
{
    let r = vec![45u8, 114u8, 97u8, 110u8, 103u8, 101u8, 45u8];
    assert(r@ =~= range_tag());
    r
}

/// Which tag a presented username carries, with the bytes that its hash
/// is taken over or the number that it names.
#[derive(Debug, PartialEq, Eq)]
pub enum TagMatch {
    NoTag,
    /// `-session-`: the whole presented username.
    Session(Vec<u8>),
    /// `-ttl-`: the parsed number, if the text after the tag is one.
    TTL(Option<u64>),
    /// `-range-`: the text after the prefix with the leading tags removed.
    Range(Vec<u8>),
}

/// A tag found in a presented username, with the text that follows it.
pub ghost enum FoundTag {
    Session(Seq<u8>),
    TTL(Seq<u8>),
    Range(Seq<u8>),
}

/// The tag that `full` carries after `prefix`: session, then ttl, then
/// range, the first that occurs wins. The session payload is the whole
/// username; the others are the text after the prefix with the leading
/// copies of the tag removed.
pub open spec fn tag_match_spec(prefix: Seq<u8>, full: Seq<u8>) -> Option<FoundTag> {
    let rest = full.skip(prefix.len() as int);
    if !has_prefix(full, prefix) {
        None
    } else if contains_seq(full, session_tag()) {
        Some(FoundTag::Session(full))
    } else if contains_seq(rest, ttl_tag()) {
        Some(FoundTag::TTL(trim_start_seq(rest, ttl_tag())))
    } else if contains_seq(rest, range_tag()) {
        Some(FoundTag::Range(trim_start_seq(rest, range_tag())))
    } else {
        None
    }
}

/// The extension that `full` selects when the configured username is
/// `prefix`.
pub open spec fn extension_of(prefix: Seq<u8>, full: Seq<u8>) -> Extension {
    match tag_match_spec(prefix, full) {
        Some(FoundTag::Session(payload)) => Extension::Session(fxhash64_of(payload)),
        Some(FoundTag::TTL(payload)) => match decimal_u64(payload) {
            Some(n) => Extension::TTL(n),
            None => Extension::Empty,
        },
        Some(FoundTag::Range(payload)) => Extension::Range(fxhash64_of(payload)),
        None => Extension::Empty,
    }
}

/// Finds the tag that `full` carries after `prefix`. Session is looked
/// for in the whole username, ttl and range in the text after the prefix.
pub fn parse_tags(prefix: &[u8], full: &[u8]) -> (r: TagMatch)
    ensures
        match tag_match_spec(prefix@, full@) {
            None => r == TagMatch::NoTag,
            Some(FoundTag::Session(payload)) => r is Session && r->Session_0@ == payload,
            Some(FoundTag::TTL(payload)) => r == TagMatch::TTL(decimal_u64(payload)),
            Some(FoundTag::Range(payload)) => r is Range && r->Range_0@ == payload,
        },
{
    if !starts_with(full, prefix) {
        return TagMatch::NoTag;
    }
    let rest = tail_from(full, prefix.len());
    let session = session_tag_bytes();
    if contains(full, session.as_slice()) {
        return TagMatch::Session(tail_from(full, 0));
    }
    let ttl = ttl_tag_bytes();
    if contains(rest.as_slice(), ttl.as_slice()) {
        let digits = trim_start_matches(rest.as_slice(), ttl.as_slice());
        return TagMatch::TTL(parse_u64(digits.as_slice()));
    }
    let range = range_tag_bytes();
    if contains(rest.as_slice(), range.as_slice()) {
        return TagMatch::Range(trim_start_matches(rest.as_slice(), range.as_slice()));
    }
    TagMatch::NoTag
}

/// The extension that the presented username `full` selects when the
/// configured username is `prefix`. A username that does not start with
/// `prefix`, or that carries no tag, selects nothing; a ttl tag that is
/// not followed by a decimal number selects nothing either.
pub fn parser(prefix: &[u8], full: &[u8]) -> (r: Extension)
    ensures
        r == extension_of(prefix@, full@),
{
    match parse_tags(prefix, full) {
        TagMatch::NoTag => Extension::Empty,
        TagMatch::Session(bytes) => Extension::Session(hash64(bytes.as_slice())),
        TagMatch::TTL(n) => match n {
            Some(n) => Extension::TTL(n),
            None => Extension::Empty,
        },
        TagMatch::Range(bytes) => Extension::Range(hash64(bytes.as_slice())),
    }
}

/// Parses the text after a ttl tag: a decimal `u64` gives `TTL`, anything
/// else `Empty`.
pub fn parse_ttl_extension(s: &[u8]) -> (r: Extension)
    ensures
        r == match decimal_u64(s@) {
            Some(n) => Extension::TTL(n),
            None => Extension::Empty,
        },
{
    match parse_u64(s) {
        Some(n) => Extension::TTL(n),
        None => Extension::Empty,
    }
}

impl Extension {
    /// The extension that the presented username `full` selects when the
    /// configured username is `prefix`.
    pub fn try_from(prefix: &str, full: &str) -> (r: Extension)
        ensures
            r == extension_of(prefix.spec_bytes(), full.spec_bytes()),
    {
        parser(prefix.as_bytes(), full.as_bytes())
    }
}

} // verus!
