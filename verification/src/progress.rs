//! The database-sync progress tracker: three named slots, each syncing at
//! some percentage or complete, updated from classified terminal lines.

use vstd::prelude::*;
use crate::ansi::{strip_ansi_chars, strip_ansi_spec};
use crate::numbers::{dec_str, parse_u8_chars, parse_u8_spec, u64_string};
use crate::text::{
    chars_of, contains_seq, contains_str, eq_str, is_space, is_space_char, starts_with_seq,
    starts_with_str, string_of, subvec, trim_chars, trim_spec,
};

verus! {

#[derive(Clone, Copy, PartialEq, Eq, Structural, Debug)]
pub enum DbSyncState {
    Syncing(u8),
    Complete,
}

/// Progress of the three repository databases.
#[derive(Clone, Copy, PartialEq, Eq, Structural, Debug)]
pub struct SyncProgress {
    pub core: DbSyncState,
    pub extra: DbSyncState,
    pub multilib: DbSyncState,
}

pub open spec fn has_space(t: Seq<char>) -> bool {
    exists|i: int| 0 <= i < t.len() && is_space_char(t[i])
}

/// The least whitespace position in `t`, or `t.len()` when there is none.
pub open spec fn first_space_idx(t: Seq<char>) -> int
    decreases t.len(),
{
    if t.len() == 0 {
        0
    } else if is_space_char(t[0]) {
        0
    } else {
        1 + first_space_idx(t.drop_first())
    }
}

/// The greatest whitespace position in `t`, or `-1` when there is none.
pub open spec fn last_space_idx(t: Seq<char>) -> int
    decreases t.len(),
{
    if t.len() == 0 {
        -1
    } else if is_space_char(t.last()) {
        t.len() - 1
    } else {
        last_space_idx(t.drop_last())
    }
}

pub proof fn lemma_first_space_idx(t: Seq<char>)
    ensures
        0 <= first_space_idx(t) <= t.len(),
        first_space_idx(t) < t.len() ==> is_space_char(t[first_space_idx(t)]),
        forall|k: int| 0 <= k < first_space_idx(t) ==> !is_space_char(t[k]),
    decreases t.len(),
{
    if t.len() == 0 || is_space_char(t[0])  {
    } else {
        lemma_first_space_idx(t.drop_first());
        let f = first_space_idx(t);
        if f < t.len() {
            assert(t[f] == t.drop_first()[f - 1]);
        }
        assert forall|k: int| 0 <= k < f implies !is_space_char(t[k]) by {
            if k > 0 {
                assert(t[k] == t.drop_first()[k - 1]);
            }
        }
    }
}

pub proof fn lemma_last_space_idx(t: Seq<char>)
    ensures
        -1 <= last_space_idx(t) < t.len(),
        last_space_idx(t) >= 0 ==> is_space_char(t[last_space_idx(t)]),
        forall|k: int| last_space_idx(t) < k < t.len() ==> !is_space_char(t[k]),
    decreases t.len(),
{
    if t.len() == 0 || is_space_char(t.last()) {
    } else {
        lemma_last_space_idx(t.drop_last());
        let l = last_space_idx(t);
        if l >= 0 {
            assert(t[l] == t.drop_last()[l]);
        }
        assert forall|k: int| l < k < t.len() implies !is_space_char(t[k]) by {
            if k < t.len() - 1 {
                assert(t[k] == t.drop_last()[k]);
            }
        }
    }
}

/// The slot state a parsed percentage yields: complete at or above 100.
pub open spec fn db_state_of(pct: u8) -> DbSyncState {
    if pct >= 100 {
        DbSyncState::Complete
    } else {
        DbSyncState::Syncing(pct)
    }
}

/// `st` with the slot called `name` set to `ns`; unknown names change nothing.
pub open spec fn apply_named(st: SyncProgress, name: Seq<char>, ns: DbSyncState) -> SyncProgress {
    if name == "core"@ {
        SyncProgress { core: ns, extra: st.extra, multilib: st.multilib }
    } else if name == "extra"@ {
        SyncProgress { core: st.core, extra: ns, multilib: st.multilib }
    } else if name == "multilib"@ {
        SyncProgress { core: st.core, extra: st.extra, multilib: ns }
    } else {
        st
    }
}

/// How one terminal line updates the tracker. The line is stripped of
/// escape sequences and trimmed; a line holding "is up to date" completes
/// the slot it starts with; otherwise a line of at least two
/// whitespace-separated tokens whose last token is a `%`-suffixed integer
/// updates the slot named by its first token; anything else changes nothing.
pub open spec fn line_update(st: SyncProgress, line: Seq<char>) -> SyncProgress {
    let t = trim_spec(strip_ansi_spec(line));
    if contains_seq(t, "is up to date"@) {
        if starts_with_seq(t, "core"@) {
            SyncProgress { core: DbSyncState::Complete, extra: st.extra, multilib: st.multilib }
        } else if starts_with_seq(t, "extra"@) {
            SyncProgress { core: st.core, extra: DbSyncState::Complete, multilib: st.multilib }
        } else if starts_with_seq(t, "multilib"@) {
            SyncProgress { core: st.core, extra: st.extra, multilib: DbSyncState::Complete }
        } else {
            st
        }
    } else if t.len() > 0 && has_space(t) {
        let first = t.subrange(0, first_space_idx(t));
        let lastt = t.subrange(last_space_idx(t) + 1, t.len() as int);
        if lastt.len() > 0 && lastt.last() == '%' {
            match parse_u8_spec(lastt.drop_last()) {
                Some(pct) => apply_named(st, first, db_state_of(pct)),
                None => st,
            }
        } else {
            st
        }
    } else {
        st
    }
}

/// The rendering of one slot: `NN%` while syncing, a completion glyph when
/// complete.
pub open spec fn state_str(s: DbSyncState) -> Seq<char> {
    match s {
        DbSyncState::Syncing(p) => dec_str(p as int) + "%"@,
        DbSyncState::Complete => "\u{2713}"@,
    }
}

/// The fixed one-line rendering of the tracker, in fixed name order.
pub open spec fn format_spec(st: SyncProgress) -> Seq<char> {
    "core "@ + state_str(st.core) + " | extra "@ + state_str(st.extra) + " | multilib "@
        + state_str(st.multilib)
}

impl SyncProgress {
    /// The starting state: all three slots syncing at zero.
    pub open spec fn initial() -> SyncProgress {
        SyncProgress {
            core: DbSyncState::Syncing(0),
            extra: DbSyncState::Syncing(0),
            multilib: DbSyncState::Syncing(0),
        }
    }

    /// All three slots start syncing at zero.
    pub fn new() -> (r: Self)
        ensures
            r == Self::initial(),
    {
        SyncProgress {
            core: DbSyncState::Syncing(0),
            extra: DbSyncState::Syncing(0),
            multilib: DbSyncState::Syncing(0),
        }
    }

    /// One slot rendered as text.
    pub fn format_state(state: DbSyncState) -> (r: String)
        ensures
            r@ == state_str(state),
    {
        match state {
            DbSyncState::Syncing(pct) => {
                let mut r = u64_string(pct as u64);
                crate::text::push_char(&mut r, '%');
                proof {
                    reveal_strlit("%");
                    assert(r@ =~= dec_str(pct as int) + "%"@);
                }
                r
            },
            DbSyncState::Complete => String::from_str("\u{2713}"),
        }
    }

    /// The whole tracker rendered as one line; depends on the state alone.
    pub fn format(&self) -> (r: String)
        ensures
            r@ == format_spec(*self),
    {
        let mut r = String::from_str("core ");
        r.append(Self::format_state(self.core).as_str());
        r.append(" | extra ");
        r.append(Self::format_state(self.extra).as_str());
        r.append(" | multilib ");
        r.append(Self::format_state(self.multilib).as_str());
        r
    }

    /// Feed one line, already split out of the byte stream.
    pub fn update_from_chars(&mut self, line: &Vec<char>)
        ensures
            *final(self) == line_update(*old(self), line@),
    {
        let clean = strip_ansi_chars(line);
        let t = trim_chars(&clean);
        let n = t.len();
        if contains_str(&t, "is up to date") {
            if starts_with_str(&t, "core") {
                self.core = DbSyncState::Complete;
            } else if starts_with_str(&t, "extra") {
                self.extra = DbSyncState::Complete;
            } else if starts_with_str(&t, "multilib") {
                self.multilib = DbSyncState::Complete;
            }
            return;
        }
        if n == 0 {
            return;
        }
        let mut i: usize = 0;
        while i < n && !is_space(t[i])
            invariant
                i <= n,
                n == t@.len(),
                forall|k: int| 0 <= k < i ==> !is_space_char(t@[k]),
            decreases n - i,
        {
            i += 1;
        }
        proof {
            lemma_first_space_idx(t@);
        }
        if i == n {
            proof {
                assert(!has_space(t@));
            }
            return;
        }
        proof {
            assert(i as int == first_space_idx(t@));
        }
        let mut j: usize = n - 1;
        while !is_space(t[j])
            invariant
                i <= j < n,
                n == t@.len(),
                is_space_char(t@[i as int]),
                forall|k: int| j < k < n ==> !is_space_char(t@[k]),
            decreases j,
        {
            j -= 1;
        }
        proof {
            lemma_last_space_idx(t@);
            assert(j as int == last_space_idx(t@));
        }
        let lastt = subvec(&t, j + 1, n);
        if lastt.len() > 0 && lastt[lastt.len() - 1] == '%' {
            let pct_str = subvec(&lastt, 0, lastt.len() - 1);
            proof {
                assert(pct_str@ =~= lastt@.drop_last());
            }
            match parse_u8_chars(&pct_str) {
                Some(pct) => {
                    let ns = if pct >= 100 {
                        DbSyncState::Complete
                    } else {
                        DbSyncState::Syncing(pct)
                    };
                    let first = subvec(&t, 0, i);
                    if eq_str(&first, "core") {
                        self.core = ns;
                    } else if eq_str(&first, "extra") {
                        self.extra = ns;
                    } else if eq_str(&first, "multilib") {
                        self.multilib = ns;
                    }
                },
                None => {},
            }
        }
    }

    /// Feed one raw terminal line.
    pub fn update_from_line(&mut self, line: &str)
        ensures
            *final(self) == line_update(*old(self), line@),
    {
        let v = chars_of(line);
        self.update_from_chars(&v);
    }

    /// Force every slot to complete, as when the driven process has exited.
    pub fn mark_all_complete(&mut self)
        ensures
            *final(self) == (SyncProgress {
                core: DbSyncState::Complete,
                extra: DbSyncState::Complete,
                multilib: DbSyncState::Complete,
            }),
    {
        self.core = DbSyncState::Complete;
        self.extra = DbSyncState::Complete;
        self.multilib = DbSyncState::Complete;
    }
}

} // verus!
