//! Wall-clock instants, read from the system clock and rendered through chrono.

use crate::text::{append_chars, decimal, decimal_chars, string_of};
use vstd::prelude::*;

verus! {

/// An instant as whole seconds since the Unix epoch plus nanoseconds.
#[derive(Clone, Copy, Debug, PartialEq, Eq, Structural)]
pub struct Timestamp {
    pub secs: i64,
    pub nanos: u32,
}

impl Timestamp {
    /// The instant `secs` seconds and `nanos` nanoseconds after the epoch.
    pub fn from_unix(secs: i64, nanos: u32) -> (t: Timestamp)
        ensures
            t.secs == secs,
            t.nanos == nanos,
    {
        Timestamp { secs, nanos }
    }

    /// `self` is at or after `other`.
    pub open spec fn spec_not_before(self, other: Timestamp) -> bool {
        self.secs > other.secs || (self.secs == other.secs && self.nanos >= other.nanos)
    }

    /// Whether `self` is at or after `other`.
    pub fn not_before(&self, other: &Timestamp) -> (r: bool)
        ensures
            r == self.spec_not_before(*other),
    {
        self.secs > other.secs || (self.secs == other.secs && self.nanos >= other.nanos)
    }
}

/// Reads the system clock (`SystemTime::now`, measured from `UNIX_EPOCH`; an instant before the
/// epoch reads as the epoch itself). Nothing is claimed of the value but that the nanosecond
/// part is below one second, as `Duration::subsec_nanos` documents.
#[verifier::external_body]
pub(crate) fn utc_now() -> (t: Timestamp)
    ensures
        t.nanos < 1_000_000_000,
{
    let now = std::time::SystemTime::now().duration_since(std::time::UNIX_EPOCH).unwrap_or_default();
    Timestamp { secs: now.as_secs() as i64, nanos: now.subsec_nanos() }
}

/// The text that chrono's inherent `DateTime::to_rfc3339` gives `DateTime<Utc>` for an
/// instant (RFC 3339 with a `+00:00` offset and as many fraction digits as the nanoseconds
/// need: none, 3, 6 or 9), or `None` where `DateTime::from_timestamp` rejects it.
pub uninterp spec fn utc_rfc3339_text(secs: i64, nanos: u32) -> Option<Seq<char>>;

/// chrono's `DateTime::from_timestamp` followed by the inherent `DateTime::to_rfc3339`; the
/// text is named by `utc_rfc3339_text`.
#[verifier::external_body]
fn chrono_rfc3339(secs: i64, nanos: u32) -> (r: Option<String>)
    ensures
        r matches Some(s) ==> utc_rfc3339_text(secs, nanos) == Some(s@),
        r is None ==> utc_rfc3339_text(secs, nanos) is None,
{
    match chrono::DateTime::from_timestamp(secs, nanos) {
        Some(dt) => Some(dt.to_rfc3339()),
        None => None,
    }
}

/// The text that chrono's `Display` gives `DateTime<Utc>` for an instant, or `None` where
/// `DateTime::from_timestamp` rejects it.
pub uninterp spec fn utc_display_text(secs: i64, nanos: u32) -> Option<Seq<char>>;

/// chrono's `DateTime::from_timestamp` followed by `to_string`; the text is named by
/// `utc_display_text`.
#[verifier::external_body]
fn chrono_display(secs: i64, nanos: u32) -> (r: Option<String>)
    ensures
        r matches Some(s) ==> utc_display_text(secs, nanos) == Some(s@),
        r is None ==> utc_display_text(secs, nanos) is None,
{
    match chrono::DateTime::from_timestamp(secs, nanos) {
        Some(dt) => Some(dt.to_string()),
        None => None,
    }
}

/// The `Display` text of an instant, where chrono can represent it.
pub fn display_text(t: Timestamp) -> (r: Option<String>)
    ensures
        r matches Some(s) ==> utc_display_text(t.secs, t.nanos) == Some(s@),
        r is None ==> utc_display_text(t.secs, t.nanos) is None,
{
    chrono_display(t.secs, t.nanos)
}

/// `n` in decimal, zero-padded on the left to at least `width` characters.
pub open spec fn padded(n: nat, width: nat) -> Seq<char>
    decreases width,
{
    if decimal(n).len() >= width {
        decimal(n)
    } else {
        seq!['0'] + padded(n, (width - 1) as nat)
    }
}

/// `n` in decimal zero-padded to `width`, as `format!("{:0width$}")` renders a signed integer:
/// a minus sign counts toward the width.
pub open spec fn signed_padded(n: int, width: nat) -> Seq<char> {
    if n >= 0 {
        padded(n as nat, width)
    } else {
        seq!['-'] + padded((-n) as nat, if width > 0 { (width - 1) as nat } else { 0 })
    }
}

/// `n` zero-padded to `width` digits.
pub fn padded_chars(n: u64, width: usize) -> (v: Vec<char>)
    ensures
        v@ == padded(n as nat, width as nat),
    decreases width,
{
    let digits = decimal_chars(n);
    if digits.len() >= width {
        digits
    } else {
        let rest = padded_chars(n, width - 1);
        let mut v: Vec<char> = Vec::new();
        v.push('0');
        append_chars(&mut v, rest.as_slice());
        assert(v@ =~= seq!['0'] + padded(n as nat, (width - 1) as nat));
        v
    }
}

/// `n` zero-padded to `width` characters, sign included.
pub fn signed_padded_chars(n: i32, width: usize) -> (v: Vec<char>)
    ensures
        v@ == signed_padded(n as int, width as nat),
{
    if n >= 0 {
        padded_chars(n as u64, width)
    } else {
        let magnitude: u64 = (0i64 - n as i64) as u64;
        let w = if width > 0 {
            width - 1
        } else {
            0
        };
        let rest = padded_chars(magnitude, w);
        let mut v: Vec<char> = Vec::new();
        v.push('-');
        append_chars(&mut v, rest.as_slice());
        assert(v@ =~= seq!['-'] + padded((-n) as nat, w as nat));
        v
    }
}

/// The RFC 3339 text of an instant as chrono writes it (see `utc_rfc3339_text`), where chrono
/// can represent the instant.
pub fn rfc3339_text(t: Timestamp) -> (r: Option<String>)
    ensures
        r matches Some(s) ==> utc_rfc3339_text(t.secs, t.nanos) == Some(s@),
        r is None ==> utc_rfc3339_text(t.secs, t.nanos) is None,
{
    chrono_rfc3339(t.secs, t.nanos)
}

} // verus!
