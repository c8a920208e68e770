//! Scanning the package-manager log for the most recent completed
//! full-system-upgrade transaction block, and turning its bracketed start
//! timestamp into an age in seconds.
//!
//! A block is complete when an upgrade run started, the package lists were
//! synchronized, the full system upgrade started, and a per-action tag
//! confirmed that the transaction actually began; a different run starting
//! in between discards the pending block.

use vstd::prelude::*;
use crate::text::{
    chars_of, contains_seq, contains_str, drop_leading, drop_leading_chars, find_char,
    first_char_idx, lemma_first_char_idx, string_of, subvec, trim_chars, trim_spec,
};

verus! {

/// A line's trailing carriage return removed, as `str::lines` strips it.
pub open spec fn strip_cr(l: Seq<char>) -> Seq<char> {
    if l.len() > 0 && l.last() == '\r' {
        l.drop_last()
    } else {
        l
    }
}

/// The lines of `s`, split on newlines, each with a trailing carriage
/// return removed, a final line without trailing newline included and a
/// trailing empty line excluded (as `str::lines`).
pub open spec fn lines_spec(s: Seq<char>) -> Seq<Seq<char>>
    decreases s.len(),
{
    if s.len() == 0 {
        Seq::empty()
    } else {
        let i = first_char_idx(s, '\n');
        if 0 <= i < s.len() {
            seq![strip_cr(s.take(i))] + lines_spec(s.skip(i + 1))
        } else {
            seq![strip_cr(s)]
        }
    }
}

/// The lines of `v`, as `str::lines` yields them.
pub fn split_lines(v: &Vec<char>) -> (r: Vec<Vec<char>>)
    ensures
        r.deep_view() == lines_spec(v@),
{
    let n = v.len();
    let mut r: Vec<Vec<char>> = Vec::new();
    let mut pos: usize = 0;
    proof {
        assert(r.deep_view() =~~= Seq::<Seq<char>>::empty());
        assert(v@.skip(0) =~= v@);
    }
    while pos < n
        invariant
            pos <= n,
            n == v@.len(),
            lines_spec(v@) == r.deep_view() + lines_spec(v@.skip(pos as int)),
        decreases n - pos,
    {
        let ghost rest = v@.skip(pos as int);
        let mut k: usize = pos;
        while k < n && v[k] != '\n'
            invariant
                pos <= k <= n,
                n == v@.len(),
                forall|j: int| pos <= j < k ==> v@[j] != '\n',
            decreases n - k,
        {
            k += 1;
        }
        proof {
            lemma_first_char_idx(rest, '\n');
            assert forall|m: int| 0 <= m < k - pos implies rest[m] != '\n' by {
                assert(rest[m] == v@[pos + m]);
            }
            if k < n {
                assert(rest[k - pos] == v@[k as int]);
            }
            assert(k - pos == first_char_idx(rest, '\n'));
        }
        let mut line = subvec(v, pos, k);
        if line.len() > 0 && line[line.len() - 1] == '\r' {
            let shorter = subvec(&line, 0, line.len() - 1);
            line = shorter;
        }
        proof {
            assert(line@ =~= strip_cr(v@.subrange(pos as int, k as int)));
            if k < n {
                assert(rest.take(k - pos) =~= v@.subrange(pos as int, k as int));
                assert(rest.skip(k - pos + 1) =~= v@.skip(k + 1 as int));
            } else {
                assert(rest =~= v@.subrange(pos as int, k as int));
                assert(v@.skip(n as int) =~= Seq::<char>::empty());
            }
        }
        let ghost old_dv = r.deep_view();
        r.push(line);
        proof {
            assert(r.deep_view() =~~= old_dv.push(line@));
            if k < n {
                assert(lines_spec(rest) == seq![line@] + lines_spec(v@.skip(k + 1 as int)));
                assert(old_dv.push(line@) + lines_spec(v@.skip(k + 1 as int)) =~~= old_dv + (seq![
                    line@,
                ] + lines_spec(v@.skip(k + 1 as int))));
            } else {
                assert(lines_spec(rest) == seq![line@]);
                assert(old_dv.push(line@) + lines_spec(v@.skip(n as int)) =~~= old_dv + seq![
                    line@,
                ]);
            }
        }
        pos = if k < n {
            k + 1
        } else {
            n
        };
    }
    proof {
        assert(v@.skip(n as int) =~= Seq::<char>::empty());
        assert(r.deep_view() + lines_spec(Seq::<char>::empty()) =~~= r.deep_view());
    }
    r
}

/// The bracketed timestamp of a log line: the part before the first `]`,
/// with every leading `[` removed.
pub open spec fn timestamp_of(t: Seq<char>) -> Seq<char> {
    drop_leading(t.take(first_char_idx(t, ']')), '[')
}

/// The timestamp part of one trimmed log line.
pub fn timestamp_chars(t: &Vec<char>) -> (r: Vec<char>)
    ensures
        r@ == timestamp_of(t@),
{
    let k = find_char(t, ']');
    proof {
        lemma_first_char_idx(t@, ']');
        assert(t@.subrange(0, k as int) =~= t@.take(k as int));
    }
    let head = subvec(t, 0, k);
    drop_leading_chars(&head, '[')
}

/// The scanner's state between log lines: which stages of the current
/// block have been seen, the block's start timestamp, and the start
/// timestamp of the last block seen to complete.
pub struct ScanStateV {
    pub saw_run: bool,
    pub saw_sync: bool,
    pub saw_upgrade: bool,
    pub saw_action: bool,
    pub block_ts: Option<Seq<char>>,
    pub last_valid: Option<Seq<char>>,
}

impl ScanStateV {
    pub open spec fn initial() -> ScanStateV {
        ScanStateV {
            saw_run: false,
            saw_sync: false,
            saw_upgrade: false,
            saw_action: false,
            block_ts: None,
            last_valid: None,
        }
    }
}

/// How one trimmed log line moves the scanner.
pub open spec fn scan_step(st: ScanStateV, line: Seq<char>) -> ScanStateV {
    let t = trim_spec(line);
    if contains_seq(t, "Running 'pacman -Syu'"@) {
        ScanStateV {
            saw_run: true,
            saw_sync: false,
            saw_upgrade: false,
            saw_action: false,
            block_ts: Some(timestamp_of(t)),
            last_valid: st.last_valid,
        }
    } else if st.saw_run && contains_seq(t, "synchronizing package lists"@) {
        ScanStateV { saw_sync: true, ..st }
    } else if st.saw_sync && contains_seq(t, "starting full system upgrade"@) {
        ScanStateV { saw_upgrade: true, ..st }
    } else {
        let st1 = if st.saw_upgrade && contains_seq(t, "[ALPM]"@) {
            ScanStateV { saw_action: true, ..st }
        } else {
            st
        };
        if contains_seq(t, "[PACMAN] Running"@) && !contains_seq(t, "pacman -Syu"@) {
            ScanStateV {
                saw_run: false,
                saw_sync: false,
                saw_upgrade: false,
                saw_action: false,
                block_ts: None,
                last_valid: st1.last_valid,
            }
        } else if st1.saw_run && st1.saw_sync && st1.saw_upgrade && st1.saw_action {
            ScanStateV { last_valid: st1.block_ts, ..st1 }
        } else {
            st1
        }
    }
}

/// The scanner folded over a list of lines.
pub open spec fn scan_fold(st: ScanStateV, lines: Seq<Seq<char>>) -> ScanStateV
    decreases lines.len(),
{
    if lines.len() == 0 {
        st
    } else {
        scan_fold(scan_step(st, lines[0]), lines.drop_first())
    }
}

pub proof fn lemma_scan_fold_snoc(st: ScanStateV, lines: Seq<Seq<char>>, l: Seq<char>)
    ensures
        scan_fold(st, lines.push(l)) == scan_step(scan_fold(st, lines), l),
    decreases lines.len(),
{
    if lines.len() == 0 {
        assert(lines.push(l).drop_first() =~~= Seq::<Seq<char>>::empty());
        assert(lines.push(l)[0] == l);
    } else {
        assert(lines.push(l).drop_first() =~~= lines.drop_first().push(l));
        assert(lines.push(l)[0] == lines[0]);
        lemma_scan_fold_snoc(scan_step(st, lines[0]), lines.drop_first(), l);
    }
}

/// The executable scanner state.
pub struct ScanState {
    pub saw_run: bool,
    pub saw_sync: bool,
    pub saw_upgrade: bool,
    pub saw_action: bool,
    pub block_ts: Option<Vec<char>>,
    pub last_valid: Option<Vec<char>>,
}

impl View for ScanState {
    type V = ScanStateV;

    open spec fn view(&self) -> ScanStateV {
        ScanStateV {
            saw_run: self.saw_run,
            saw_sync: self.saw_sync,
            saw_upgrade: self.saw_upgrade,
            saw_action: self.saw_action,
            block_ts: match self.block_ts {
                Some(v) => Some(v@),
                None => None,
            },
            last_valid: match self.last_valid {
                Some(v) => Some(v@),
                None => None,
            },
        }
    }
}

impl ScanState {
    pub fn new() -> (r: Self)
        ensures
            r@ == ScanStateV::initial(),
    {
        ScanState {
            saw_run: false,
            saw_sync: false,
            saw_upgrade: false,
            saw_action: false,
            block_ts: None,
            last_valid: None,
        }
    }

    /// Feed one log line.
    pub fn feed_line(&mut self, line: &Vec<char>)
        ensures
            final(self)@ == scan_step(old(self)@, line@),
    {
        let t = trim_chars(line);
        if contains_str(&t, "Running 'pacman -Syu'") {
            let ts = timestamp_chars(&t);
            self.saw_run = true;
            self.saw_sync = false;
            self.saw_upgrade = false;
            self.saw_action = false;
            self.block_ts = Some(ts);
            return;
        }
        if self.saw_run && contains_str(&t, "synchronizing package lists") {
            self.saw_sync = true;
            return;
        }
        if self.saw_sync && contains_str(&t, "starting full system upgrade") {
            self.saw_upgrade = true;
            return;
        }
        if self.saw_upgrade && contains_str(&t, "[ALPM]") {
            self.saw_action = true;
        }
        if contains_str(&t, "[PACMAN] Running") && !contains_str(&t, "pacman -Syu") {
            self.saw_run = false;
            self.saw_sync = false;
            self.saw_upgrade = false;
            self.saw_action = false;
            self.block_ts = None;
            return;
        }
        if self.saw_run && self.saw_sync && self.saw_upgrade && self.saw_action {
            self.last_valid = match &self.block_ts {
                Some(v) => Some(v.clone()),
                None => None,
            };
        }
    }
}

/// The start timestamp of the most recent completed full-system-upgrade
/// block in the log, if any.
pub open spec fn last_upgrade_stamp_spec(log: Seq<char>) -> Option<Seq<char>> {
    scan_fold(ScanStateV::initial(), lines_spec(log)).last_valid
}

/// Scan the whole log text for the most recent completed
/// full-system-upgrade block and return its start timestamp.
pub fn last_upgrade_stamp(log: &str) -> (r: Option<String>)
    ensures
        match (r, last_upgrade_stamp_spec(log@)) {
            (Some(s), Some(v)) => s@ == v,
            (None, None) => true,
            _ => false,
        },
{
    let v = chars_of(log);
    let lines = split_lines(&v);
    let mut st = ScanState::new();
    let n = lines.len();
    let mut i: usize = 0;
    proof {
        assert(lines.deep_view().take(0) =~~= Seq::<Seq<char>>::empty());
    }
    while i < n
        invariant
            i <= n,
            n == lines@.len(),
            lines.deep_view() == lines_spec(v@),
            st@ == scan_fold(ScanStateV::initial(), lines.deep_view().take(i as int)),
        decreases n - i,
    {
        st.feed_line(&lines[i]);
        proof {
            assert(lines.deep_view().take(i as int).push(lines@[i as int]@) =~~= lines.deep_view()
                .take(i + 1 as int));
            lemma_scan_fold_snoc(
                ScanStateV::initial(),
                lines.deep_view().take(i as int),
                lines@[i as int]@,
            );
        }
        i += 1;
    }
    proof {
        assert(lines.deep_view().take(n as int) =~~= lines.deep_view());
    }
    match &st.last_valid {
        Some(ts) => Some(string_of(ts)),
        None => None,
    }
}

/// The timestamp with a colon inserted before its final two characters'
/// worth of offset, turning the log's `-0800`-style suffix into the
/// `-08:00` form RFC 3339 requires; absent when the stamp is too short.
pub open spec fn rfc3339_form(ts: Seq<char>) -> Option<Seq<char>> {
    if ts.len() >= 22 {
        Some(ts.take(22) + seq![':'] + ts.skip(22))
    } else {
        None
    }
}

/// The epoch second count an RFC 3339 timestamp denotes, if it parses.
pub uninterp spec fn rfc3339_epoch_of(s: Seq<char>) -> Option<i64>;

/// Relies on chrono's `DateTime::parse_from_rfc3339` and
/// `DateTime::timestamp`: parsing a fixed string, and the epoch second
/// count of the parsed instant, depend on the characters alone.
#[verifier::external_body]
fn parse_rfc3339_epoch(s: &str) -> (r: Option<i64>)
    ensures
        r == rfc3339_epoch_of(s@),
{
    chrono::DateTime::parse_from_rfc3339(s).ok().map(|dt| dt.timestamp())
}

/// Relies on chrono's `Local::now` and `DateTime::timestamp`: the current
/// moment as seconds since the Unix epoch. Nothing is assumed of the
/// clock's value.
#[verifier::external_body]
pub(crate) fn now_epoch_seconds() -> i64 {
    chrono::Local::now().timestamp()
}

/// An age in seconds: `now` minus `then`, clamped into `0 ..= i64::MAX`.
pub open spec fn clamped_age(now: int, then: int) -> int {
    if now - then < 0 {
        0
    } else if now - then > i64::MAX {
        i64::MAX as int
    } else {
        now - then
    }
}

/// The seconds elapsed at `now` since the most recent completed
/// full-system-upgrade block in the log: its bracketed start timestamp,
/// brought into RFC 3339 form and parsed to an epoch second count, is
/// subtracted from `now` and clamped to be nonnegative; absent when no
/// completed block exists or its timestamp does not parse.
pub open spec fn seconds_since_upgrade_spec(log: Seq<char>, now: int) -> Option<i64> {
    match last_upgrade_stamp_spec(log) {
        None => None,
        Some(ts) => match rfc3339_form(ts) {
            None => None,
            Some(f) => match rfc3339_epoch_of(f) {
                None => None,
                Some(e) => Some(clamped_age(now, e as int) as i64),
            },
        },
    }
}

/// The age in seconds of the last completed full-system upgrade the log
/// records, measured against the given current epoch second count.
pub fn seconds_since_upgrade(log: &str, now: i64) -> (r: Option<i64>)
    ensures
        r == seconds_since_upgrade_spec(log@, now as int),
{
    let stamp = last_upgrade_stamp(log);
    match stamp {
        None => None,
        Some(ts) => {
            let tv = chars_of(ts.as_str());
            if tv.len() < 22 {
                return None;
            }
            let mut f = subvec(&tv, 0, 22);
            f.push(':');
            let tail = subvec(&tv, 22, tv.len());
            proof {
                assert(tv@.subrange(0, 22).push(':') =~= tv@.take(22) + seq![':']
                    + tv@.skip(22).take(0));
                assert(tail@ =~= tv@.skip(22));
            }
            let mut j: usize = 0;
            while j < tail.len()
                invariant
                    j <= tail@.len(),
                    f@ == tv@.take(22) + seq![':'] + tail@.take(j as int),
                    tail@ == tv@.skip(22),
                decreases tail@.len() - j,
            {
                f.push(tail[j]);
                proof {
                    assert(tail@.take(j + 1 as int) =~= tail@.take(j as int).push(
                        tail@[j as int],
                    ));
                    assert(f@ =~= tv@.take(22) + seq![':'] + tail@.take(j + 1 as int));
                }
                j += 1;
            }
            proof {
                assert(tail@.take(tail@.len() as int) =~= tail@);
            }
            let fs = string_of(&f);
            match parse_rfc3339_epoch(fs.as_str()) {
                None => None,
                Some(e) => {
                    let d: i128 = now as i128 - e as i128;
                    let age: i64 = if d < 0 {
                        0
                    } else if d > i64::MAX as i128 {
                        i64::MAX
                    } else {
                        d as i64
                    };
                    Some(age)
                },
            }
        },
    }
}

/// The age of the last completed full-system upgrade measured against the
/// clock now: for some current moment `now`, the result is exactly the
/// log's upgrade age at `now`.
pub fn seconds_since_upgrade_now(log: &str) -> (r: Option<i64>)
    ensures
        exists|now: int| r == seconds_since_upgrade_spec(log@, now),
{
    let now = now_epoch_seconds();
    let r = seconds_since_upgrade(log, now);
    proof {
        assert(r == seconds_since_upgrade_spec(log@, now as int));
    }
    r
}

} // verus!
