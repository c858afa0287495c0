//! Ages of resources: elapsed time rendered as short human text.

use vstd::prelude::*;
use crate::text::{decimal, decimal_text};

verus! {

/// Seconds since the Unix epoch of an RFC 3339 timestamp, where it parses.
pub uninterp spec fn rfc3339_seconds(s: Seq<char>) -> Option<i64>;

/// Relies on chrono's `FromStr` for `DateTime<Utc>` (a relaxed RFC 3339 parser)
/// and on `DateTime::timestamp`: the whole seconds since the epoch.
#[verifier::external_body]
pub(crate) fn timestamp_seconds(s: &str) -> (r: Option<i64>)
    ensures
        r == rfc3339_seconds(s@),
{
    match s.parse::<chrono::DateTime<chrono::Utc>>() {
        Ok(d) => Some(d.timestamp()),
        Err(_) => None,
    }
}

/// A unit letter and a space.
pub open spec fn two(a: char, b: char) -> Seq<char> {
    seq![a, b]
}

/// Text of a span of `s` seconds: the two largest units among years (365 days),
/// days, hours and minutes, or the seconds alone under a minute.
pub open spec fn duration_text(s: int) -> Seq<char> {
    let d = s / 86400;
    let h = s / 3600;
    let m = s / 60;
    if d > 365 {
        decimal(d / 365) + two('y', ' ') + decimal(d - (d / 365) * 365) + seq!['d']
    } else if d > 0 {
        decimal(d) + two('d', ' ') + decimal(h - 24 * d) + seq!['h']
    } else if h > 0 {
        decimal(h) + two('h', ' ') + decimal(m - 60 * h) + seq!['m']
    } else if m > 0 {
        decimal(m) + two('m', ' ') + decimal(s - 60 * m) + seq!['s']
    } else {
        decimal(s) + seq!['s']
    }
}

/// `a`, then the unit `u1` and a space, then `b` and the unit `u2`.
fn two_units(a: i128, u1: &str, b: i128, u2: &str) -> (r: String)
    ensures
        r@ == decimal(a as int) + u1@ + decimal(b as int) + u2@,
{
    let mut r = decimal_text(a);
    r.append(u1);
    let t = decimal_text(b);
    r.append(t.as_str());
    r.append(u2);
    r
}

/// Renders a span of seconds as `"<y>y <d>d"`, `"<d>d <h>h"`, `"<h>h <m>m"`,
/// `"<m>m <s>s"` or `"<s>s"`.
pub fn format_duration(seconds: i128) -> (r: String)
    ensures
        r@ == duration_text(seconds as int),
{
    proof {
        reveal_strlit("y ");
        reveal_strlit("d ");
        reveal_strlit("h ");
        reveal_strlit("m ");
        reveal_strlit("d");
        reveal_strlit("h");
        reveal_strlit("m");
        reveal_strlit("s");
    }
    if seconds < 60 {
        assert(seconds / 86400 <= 0 && seconds / 3600 <= 0 && seconds / 60 <= 0);
        let mut r = decimal_text(seconds);
        r.append("s");
        return r;
    }
    let d = seconds / 86400;
    let h = seconds / 3600;
    let m = seconds / 60;
    if d > 365 {
        let y = d / 365;
        two_units(y, "y ", d - y * 365, "d")
    } else if d > 0 {
        two_units(d, "d ", h - 24 * d, "h")
    } else if h > 0 {
        two_units(h, "h ", m - 60 * h, "m")
    } else {
        two_units(m, "m ", seconds - 60 * m, "s")
    }
}

/// The age of something created at `created`, as seen at `now` (both in
/// seconds since the epoch).
pub fn time_since(now: i64, created: i64) -> (r: String)
    ensures
        r@ == duration_text(now - created),
{
    format_duration(now as i128 - created as i128)
}

} // verus!
