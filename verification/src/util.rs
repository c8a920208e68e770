//! Rendering a duration in seconds as a human-readable string.

use vstd::prelude::*;
use crate::numbers::{dec_str, i64_string, int_str, u64_string};

verus! {

/// The plural suffix a count takes: `s` unless the count is exactly one.
pub open spec fn plural_suffix(n: int) -> Seq<char> {
    if n != 1 {
        "s"@
    } else {
        Seq::empty()
    }
}

/// The human-readable form of a duration: seconds under a minute, whole
/// minutes under an hour, whole hours under a day, and days with leftover
/// whole hours from there, each unit pluralized.
pub open spec fn normalize_duration_spec(seconds: int) -> Seq<char> {
    if seconds < 60 {
        int_str(seconds) + " second"@ + plural_suffix(seconds)
    } else if seconds < 3600 {
        int_str(seconds / 60) + " minute"@ + plural_suffix(seconds / 60)
    } else if seconds < 86400 {
        int_str(seconds / 3600) + " hour"@ + plural_suffix(seconds / 3600)
    } else {
        int_str(seconds / 86400) + " day"@ + plural_suffix(seconds / 86400) + " "@ + int_str(
            (seconds % 86400) / 3600,
        ) + " hour"@ + plural_suffix((seconds % 86400) / 3600)
    }
}

/// Convert seconds to a human-readable duration string.
pub fn normalize_duration(seconds: i64) -> (r: String)
    ensures
        r@ == normalize_duration_spec(seconds as int),
{
    if seconds < 60 {
        let mut out = i64_string(seconds);
        out.append(" second");
        if seconds != 1 {
            out.append("s");
        }
        proof {
            assert(out@ =~= normalize_duration_spec(seconds as int));
        }
        out
    } else if seconds < 3600 {
        let m: u64 = (seconds as u64) / 60;
        let mut out = u64_string(m);
        out.append(" minute");
        if m != 1 {
            out.append("s");
        }
        proof {
            assert(m as int == (seconds as int) / 60);
            assert(out@ =~= normalize_duration_spec(seconds as int));
        }
        out
    } else if seconds < 86400 {
        let h: u64 = (seconds as u64) / 3600;
        let mut out = u64_string(h);
        out.append(" hour");
        if h != 1 {
            out.append("s");
        }
        proof {
            assert(h as int == (seconds as int) / 3600);
            assert(out@ =~= normalize_duration_spec(seconds as int));
        }
        out
    } else {
        let d: u64 = (seconds as u64) / 86400;
        let h: u64 = ((seconds as u64) % 86400) / 3600;
        let mut out = u64_string(d);
        out.append(" day");
        if d != 1 {
            out.append("s");
        }
        out.append(" ");
        let hs = u64_string(h);
        out.append(hs.as_str());
        out.append(" hour");
        if h != 1 {
            out.append("s");
        }
        proof {
            assert(d as int == (seconds as int) / 86400);
            assert(h as int == ((seconds as int) % 86400) / 3600);
            assert(out@ =~= normalize_duration_spec(seconds as int));
        }
        out
    }
}

} // verus!
