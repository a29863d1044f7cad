use vstd::prelude::*;

use chrono::{DateTime, Utc};
use uuid::Uuid;

verus! {

/// An instant in UTC: whole seconds since the Unix epoch and the
/// nanoseconds past that second.
#[derive(Debug, Clone, Copy, PartialEq, Eq, Structural)]
pub struct Timestamp {
    pub secs: i64,
    pub nanos: u32,
}

/// The globally unique identifier of an action, as its 128-bit value.
#[derive(Debug, Clone, Copy, PartialEq, Eq, Structural)]
pub struct ActionId {
    pub value: u128,
}

/// Whether `a` is not after `b`.
pub open spec fn ts_le(a: Timestamp, b: Timestamp) -> bool {
    a.secs < b.secs || (a.secs == b.secs && a.nanos <= b.nanos)
}

/// The later of two instants.
pub fn later(a: Timestamp, b: Timestamp) -> (r: Timestamp)
    ensures
        r == (if ts_le(a, b) { b } else { a }),
        ts_le(a, r),
        ts_le(b, r),
{
    if a.secs < b.secs || (a.secs == b.secs && a.nanos <= b.nanos) {
        b
    } else {
        a
    }
}

/// The instant that an RFC 3339 text denotes, as seconds and nanoseconds.
pub uninterp spec fn rfc3339_instant(s: Seq<char>) -> Option<(i64, u32)>;

/// The RFC 3339 text of an instant, where the instant can be represented.
pub uninterp spec fn rfc3339_text(secs: i64, nanos: u32) -> Option<Seq<char>>;

/// The identifier that a UUID text denotes.
pub uninterp spec fn uuid_value(s: Seq<char>) -> Option<u128>;

/// The base-16 digit of `v` at position `j`, counted from the least
/// significant.
pub open spec fn nibble(v: int, j: nat) -> int
    decreases j,
{
    if j == 0 {
        v % 16
    } else {
        nibble(v / 16, (j - 1) as nat)
    }
}

/// A digit below sixteen as a lowercase hexadecimal character.
pub open spec fn hex_char(d: int) -> char {
    if d < 10 {
        ((48 + d) as u8) as char
    } else {
        ((87 + d) as u8) as char
    }
}

/// The 32 lowercase hexadecimal digits of a 128-bit value, most
/// significant first.
pub open spec fn hex32(v: u128) -> Seq<char> {
    Seq::new(32, |k: int| hex_char(nibble(v as int, (31 - k) as nat)))
}

/// The hyphenated text of a UUID: its hexadecimal digits in groups of 8,
/// 4, 4, 4 and 12.
pub open spec fn uuid_text(v: u128) -> Seq<char> {
    let h = hex32(v);
    h.subrange(0, 8) + seq!['-'] + h.subrange(8, 12) + seq!['-'] + h.subrange(12, 16) + seq!['-']
        + h.subrange(16, 20) + seq!['-'] + h.subrange(20, 32)
}

/// Whether a text holds no line feed.
pub open spec fn no_newline(s: Seq<char>) -> bool {
    forall|i: int| 0 <= i < s.len() ==> s[i] != '\n'
}

/// Relies on chrono's `Utc::now`, read as seconds and subsecond nanoseconds.
#[verifier::external_body]
pub(crate) fn now() -> (r: Timestamp) {
    let t = Utc::now();
    Timestamp { secs: t.timestamp(), nanos: t.timestamp_subsec_nanos() }
}

/// Relies on uuid's `Uuid::new_v4`: a fresh random identifier.
#[verifier::external_body]
pub(crate) fn fresh_id() -> (r: ActionId) {
    ActionId { value: Uuid::new_v4().as_u128() }
}

/// Relies on uuid's `Uuid::parse_str`: the identifier a text denotes, if any.
#[verifier::external_body]
pub(crate) fn parse_id(s: &str) -> (r: Option<ActionId>)
    ensures
        match uuid_value(s@) {
            Some(v) => r == Some(ActionId { value: v }),
            None => r is None,
        },
{
    match Uuid::parse_str(s) {
        Ok(u) => Some(ActionId { value: u.as_u128() }),
        Err(_) => None,
    }
}

/// Relies on uuid's `Display` for `Uuid`: the lowercase hyphenated form.
#[verifier::external_body]
pub(crate) fn id_text(id: ActionId) -> (r: String)
    ensures
        r@ == uuid_text(id.value),
{
    Uuid::from_u128(id.value).to_string()
}

/// Relies on chrono's `DateTime::parse_from_rfc3339`, the result read as a UTC
/// instant.
#[verifier::external_body]
pub(crate) fn parse_timestamp(s: &str) -> (r: Option<Timestamp>)
    ensures
        match rfc3339_instant(s@) {
            Some(p) => r == Some(Timestamp { secs: p.0, nanos: p.1 }),
            None => r is None,
        },
{
    match DateTime::parse_from_rfc3339(s) {
        Ok(d) => Some(Timestamp { secs: d.timestamp(), nanos: d.timestamp_subsec_nanos() }),
        Err(_) => None,
    }
}

/// Relies on chrono's `DateTime::<Utc>::from_timestamp` and `to_rfc3339`: the
/// RFC 3339 text of an instant, a single line such as
/// `1996-12-19T16:39:57+00:00`; none where chrono cannot represent it.
#[verifier::external_body]
pub(crate) fn timestamp_text(t: Timestamp) -> (r: Option<String>)
    ensures
        match rfc3339_text(t.secs, t.nanos) {
            Some(x) => r matches Some(s) && s@ == x,
            None => r is None,
        },
        r matches Some(s) ==> no_newline(s@),
{
    match DateTime::<Utc>::from_timestamp(t.secs, t.nanos) {
        Some(d) => Some(d.to_rfc3339()),
        None => None,
    }
}

proof fn lemma_nibble_range(v: int, j: nat)
    requires
        v >= 0,
    ensures
        0 <= nibble(v, j) < 16,
    decreases j,
{
    if j > 0 {
        lemma_nibble_range(v / 16, (j - 1) as nat);
    }
}

/// The text of a UUID is a single line.
pub proof fn lemma_uuid_text_single_line(v: u128)
    ensures
        no_newline(uuid_text(v)),
{
    let h = hex32(v);
    assert forall|k: int| 0 <= k < 32 implies h[k] != '\n' by {
        lemma_nibble_range(v as int, (31 - k) as nat);
    }
    let t = uuid_text(v);
    assert forall|i: int| 0 <= i < t.len() implies t[i] != '\n' by {
        if i < 8 {
            assert(t[i] == h[i]);
        } else if i == 8 || i == 13 || i == 18 || i == 23 {
        } else if i < 13 {
            assert(t[i] == h[i - 1]);
        } else if i < 18 {
            assert(t[i] == h[i - 2]);
        } else if i < 23 {
            assert(t[i] == h[i - 3]);
        } else {
            assert(t[i] == h[i - 4]);
        }
    }
}

} // verus!
