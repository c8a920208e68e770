//! Mirror configuration and mirror health: resolving the first active
//! mirror's base URL, turning a fetched freshness marker into a sync age,
//! and measuring a timed transfer. The network fetches themselves happen
//! outside; this module does the deciding and computing.

use vstd::prelude::*;
use vstd::arithmetic::div_mod::{
    lemma_div_is_ordered, lemma_div_is_ordered_by_denominator, lemma_div_multiples_vanish,
    lemma_div_of0,
};
use crate::logscan::{clamped_age, lines_spec, split_lines};
use crate::numbers::{parse_i64_chars, parse_i64_spec};
use crate::text::{
    chars_of, match_at, match_at_exec, starts_with_seq, starts_with_str, string_of, subvec,
    trim_chars, trim_spec,
};

verus! {

/// The part of `h` before the first occurrence of `n`, or all of `h` when
/// `n` does not occur (what `h.split(n).next()` yields).
pub open spec fn split_first_spec(h: Seq<char>, n: Seq<char>) -> Seq<char>
    decreases h.len(),
{
    if n.len() <= h.len() && match_at(h, n, 0) {
        Seq::empty()
    } else if h.len() == 0 {
        h
    } else {
        seq![h[0]] + split_first_spec(h.drop_first(), n)
    }
}

pub(crate) proof fn lemma_split_first_found(h: Seq<char>, n: Seq<char>, i: int)
    requires
        0 <= i,
        i + n.len() <= h.len(),
        match_at(h, n, i),
        forall|k: int| 0 <= k < i ==> !match_at(h, n, k),
    ensures
        split_first_spec(h, n) == h.take(i),
    decreases i,
{
    if n.len() <= h.len() && match_at(h, n, 0) {
        assert(i == 0);
        assert(split_first_spec(h, n) =~= h.take(0));
    } else {
        assert(i > 0);
        let h1 = h.drop_first();
        assert(match_at(h1, n, i - 1)) by {
            assert forall|j: int| 0 <= j < n.len() implies h1[i - 1 + j] == n[j] by {
                assert(h1[i - 1 + j] == h[i + j]);
            }
        }
        assert forall|k: int| 0 <= k < i - 1 implies !match_at(h1, n, k) by {
            if match_at(h1, n, k) {
                assert(match_at(h, n, k + 1)) by {
                    assert forall|j: int| 0 <= j < n.len() implies h[k + 1 + j] == n[j] by {
                        assert(h[k + 1 + j] == h1[k + j]);
                    }
                }
            }
        }
        lemma_split_first_found(h1, n, i - 1);
        assert(seq![h[0]] + h1.take(i - 1) =~= h.take(i));
    }
}

proof fn lemma_split_first_absent(h: Seq<char>, n: Seq<char>)
    requires
        n.len() > 0,
        forall|k: int| 0 <= k && k + n.len() <= h.len() ==> !match_at(h, n, k),
    ensures
        split_first_spec(h, n) == h,
    decreases h.len(),
{
    if n.len() <= h.len() && match_at(h, n, 0) {
        assert(false);
    } else if h.len() == 0 {
    } else {
        let h1 = h.drop_first();
        assert forall|k: int| 0 <= k && k + n.len() <= h1.len() implies !match_at(h1, n, k) by {
            if match_at(h1, n, k) {
                assert(match_at(h, n, k + 1)) by {
                    assert forall|j: int| 0 <= j < n.len() implies h[k + 1 + j] == n[j] by {
                        assert(h[k + 1 + j] == h1[k + j]);
                    }
                }
            }
        }
        lemma_split_first_absent(h1, n);
        assert(seq![h[0]] + h1 =~= h);
    }
}

/// The part of `h` before the first occurrence of `n`.
fn split_first_chars(h: &Vec<char>, n: &Vec<char>) -> (r: Vec<char>)
    requires
        n@.len() > 0,
    ensures
        r@ == split_first_spec(h@, n@),
{
    let hl = h.len();
    let nl = n.len();
    if nl <= hl {
        let mut i: usize = 0;
        while i <= hl - nl
            invariant
                nl <= hl,
                hl == h@.len(),
                nl == n@.len(),
                i <= hl - nl + 1,
                forall|k: int| 0 <= k < i ==> !match_at(h@, n@, k),
            decreases hl - nl - i + 1,
        {
            if match_at_exec(h, n, i) {
                proof {
                    lemma_split_first_found(h@, n@, i as int);
                }
                return subvec(h, 0, i);
            }
            i += 1;
        }
    }
    proof {
        lemma_split_first_absent(h@, n@);
        assert(h@.subrange(0, hl as int) =~= h@);
    }
    subvec(h, 0, hl)
}

/// The base URL an active mirror-list entry yields: what stands after
/// `Server = `, cut before the repository/architecture placeholder.
pub open spec fn server_url_of(t: Seq<char>) -> Seq<char> {
    split_first_spec(t.skip("Server = "@.len() as int), "/$repo"@)
}

/// The first active entry's base URL among the lines, if any: the first
/// line that, trimmed, starts with `Server = `.
pub open spec fn mirror_url_from_lines(lines: Seq<Seq<char>>) -> Option<Seq<char>>
    decreases lines.len(),
{
    if lines.len() == 0 {
        None
    } else {
        let t = trim_spec(lines[0]);
        if starts_with_seq(t, "Server = "@) {
            Some(server_url_of(t))
        } else {
            mirror_url_from_lines(lines.drop_first())
        }
    }
}

/// The first active mirror's base URL in a mirror-list file's contents.
pub open spec fn first_mirror_url_spec(contents: Seq<char>) -> Option<Seq<char>> {
    mirror_url_from_lines(lines_spec(contents))
}

/// Parse a mirror list: the first uncommented `Server = ` entry's base
/// URL, with the placeholder segment stripped; absent when no active
/// entry exists.
pub fn first_mirror_url(contents: &str) -> (r: Option<String>)
    ensures
        match (r, first_mirror_url_spec(contents@)) {
            (Some(s), Some(v)) => s@ == v,
            (None, None) => true,
            _ => false,
        },
{
    let v = chars_of(contents);
    let lines = split_lines(&v);
    let n = lines.len();
    let mut i: usize = 0;
    proof {
        assert(lines.deep_view().skip(0) =~~= lines.deep_view());
    }
    while i < n
        invariant
            i <= n,
            n == lines@.len(),
            lines.deep_view() == lines_spec(v@),
            first_mirror_url_spec(contents@) == mirror_url_from_lines(
                lines.deep_view().skip(i as int),
            ),
        decreases n - i,
    {
        proof {
            assert(lines.deep_view().skip(i as int)[0] == lines@[i as int]@);
        }
        let t = trim_chars(&lines[i]);
        if starts_with_str(&t, "Server = ") {
            proof {
                reveal_strlit("Server = ");
            }
            let rest = subvec(&t, 9, t.len());
            proof {
                assert(rest@ =~= t@.skip("Server = "@.len() as int));
            }
            let marker = chars_of("/$repo");
            proof {
                reveal_strlit("/$repo");
            }
            let url = split_first_chars(&rest, &marker);
            return Some(string_of(&url));
        }
        proof {
            assert(lines.deep_view().skip(i as int).drop_first() =~~= lines.deep_view().skip(
                i + 1 as int,
            ));
        }
        i += 1;
    }
    proof {
        assert(lines.deep_view().skip(n as int) =~~= Seq::<Seq<char>>::empty());
    }
    None
}

/// The sync age a fetched freshness marker yields: the marker, trimmed,
/// read as an epoch second count and subtracted from `now`, clamped to be
/// nonnegative; absent when it does not parse as an integer.
pub open spec fn lastsync_age_spec(body: Seq<char>, now: int) -> Option<i64> {
    match parse_i64_spec(trim_spec(body)) {
        None => None,
        Some(ts) => Some(clamped_age(now, ts as int) as i64),
    }
}

/// The mirror's sync age in seconds, from the fetched `lastsync` body and
/// the current epoch second count.
pub fn lastsync_age_seconds(body: &str, now: i64) -> (r: Option<i64>)
    ensures
        r == lastsync_age_spec(body@, now as int),
{
    let v = chars_of(body);
    let t = trim_chars(&v);
    match parse_i64_chars(&t) {
        None => None,
        Some(ts) => {
            let d: i128 = now as i128 - ts as i128;
            let age: i64 = if d < 0 {
                0
            } else if d > i64::MAX as i128 {
                i64::MAX
            } else {
                d as i64
            };
            Some(age)
        },
    }
}

/// The mirror's sync age measured against the clock now: for some current
/// moment `now`, the result is exactly the fetched marker's age at `now`.
pub fn lastsync_age_now(body: &str) -> (r: Option<i64>)
    ensures
        exists|now: int| r == lastsync_age_spec(body@, now),
{
    let now = crate::logscan::now_epoch_seconds();
    let r = lastsync_age_seconds(body, now);
    proof {
        assert(r == lastsync_age_spec(body@, now as int));
    }
    r
}

/// The measured transfer rate, in thousandths of a mebibyte per second:
/// bytes transferred, scaled by 1000000, divided by the elapsed
/// milliseconds times one mebibyte. A zero-duration transfer yields no
/// rate at all.
pub open spec fn transfer_rate_spec(bytes: u64, millis: u64) -> Option<u64> {
    if millis == 0 {
        None
    } else {
        Some(((bytes * 1000000) / (millis * 1048576)) as u64)
    }
}

/// The rate of a timed transfer, absent for a zero-duration measurement.
pub fn transfer_rate_milli_mb(bytes: u64, millis: u64) -> (r: Option<u64>)
    ensures
        r == transfer_rate_spec(bytes, millis),
{
    if millis == 0 {
        return None;
    }
    let nu: u128 = bytes as u128 * 1000000;
    let de: u128 = millis as u128 * 1048576;
    let q: u128 = nu / de;
    proof {
        lemma_div_is_ordered_by_denominator(nu as int, 1048576, de as int);
        lemma_div_is_ordered(nu as int, bytes as int * 1048576, 1048576);
        lemma_div_multiples_vanish(bytes as int, 1048576);
        lemma_div_of0(de as int);
        lemma_div_is_ordered(0, nu as int, de as int);
    }
    Some(q as u64)
}

/// The percentage of a sized download that has arrived, clamped to 100.
pub open spec fn percent_done_spec(downloaded: u64, total: u64) -> int {
    if total == 0 {
        0
    } else if downloaded * 100 / (total as int) > 100 {
        100
    } else {
        downloaded * 100 / (total as int)
    }
}

/// Progress of a streamed download, as a 0 to 100 percentage; zero when
/// the content length is unknown.
pub fn percent_done(downloaded: u64, total: u64) -> (r: u64)
    ensures
        r as int == percent_done_spec(downloaded, total),
{
    if total == 0 {
        return 0;
    }
    let q: u128 = (downloaded as u128 * 100) / (total as u128);
    if q > 100 {
        100
    } else {
        q as u64
    }
}

} // verus!
