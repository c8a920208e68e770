//! Stripping terminal escape sequences: everything from an ESC (0x1b)
//! character up to and including the next `m` is removed; an unterminated
//! sequence suppresses the rest of the input.

use vstd::prelude::*;
use crate::text::{chars_of, string_of};

verus! {

/// The characters of `s` from position `i` on that survive stripping,
/// starting inside an escape sequence when `in_esc` holds.
pub open spec fn strip_from(s: Seq<char>, i: int, in_esc: bool) -> Seq<char>
    decreases s.len() - i,
{
    if i < 0 || i >= s.len() {
        Seq::empty()
    } else if in_esc {
        if s[i] == 'm' {
            strip_from(s, i + 1, false)
        } else {
            strip_from(s, i + 1, true)
        }
    } else if s[i] == '\x1b' {
        strip_from(s, i + 1, true)
    } else {
        seq![s[i]] + strip_from(s, i + 1, false)
    }
}

/// `s` with every escape sequence removed.
pub open spec fn strip_ansi_spec(s: Seq<char>) -> Seq<char> {
    strip_from(s, 0, false)
}

pub fn strip_ansi_chars(v: &Vec<char>) -> (out: Vec<char>)
    ensures
        out@ == strip_ansi_spec(v@),
{
    let n = v.len();
    let mut out: Vec<char> = Vec::new();
    let mut in_esc = false;
    let mut i: usize = 0;
    proof {
        assert(Seq::<char>::empty() + strip_from(v@, 0, false) =~= strip_from(v@, 0, false));
    }
    while i < n
        invariant
            i <= n,
            n == v@.len(),
            strip_ansi_spec(v@) == out@ + strip_from(v@, i as int, in_esc),
        decreases n - i,
    {
        let c = v[i];
        if in_esc {
            if c == 'm' {
                in_esc = false;
            }
        } else if c == '\x1b' {
            in_esc = true;
        } else {
            out.push(c);
            proof {
                assert(out@ + strip_from(v@, i + 1 as int, false) =~= out@.drop_last() + (seq![
                    v@[i as int],
                ] + strip_from(v@, i + 1 as int, false)));
            }
        }
        i += 1;
    }
    proof {
        assert(out@ + strip_from(v@, n as int, in_esc) =~= out@);
    }
    out
}

/// `s` with every escape sequence removed, as `String`.
pub fn strip_ansi(s: &str) -> (r: String)
    ensures
        r@ == strip_ansi_spec(s@),
{
    let v = chars_of(s);
    let out = strip_ansi_chars(&v);
    string_of(&out)
}

/// Nothing that survives stripping is an ESC character.
pub proof fn lemma_strip_no_esc(s: Seq<char>, i: int, in_esc: bool)
    ensures
        forall|k: int|
            0 <= k < strip_from(s, i, in_esc).len() ==> strip_from(s, i, in_esc)[k] != '\x1b',
    decreases s.len() - i,
{
    if i < 0 || i >= s.len() {
    } else if in_esc || s[i] == '\x1b' {
        let next_esc = in_esc && s[i] != 'm' || !in_esc;
        lemma_strip_no_esc(s, i + 1, next_esc);
        assert(strip_from(s, i, in_esc) == strip_from(s, i + 1, next_esc));
        assert forall|k: int| 0 <= k < strip_from(s, i, in_esc).len() implies strip_from(
            s,
            i,
            in_esc,
        )[k] != '\x1b' by {
            assert(strip_from(s, i + 1, next_esc)[k] != '\x1b');
        }
    } else {
        lemma_strip_no_esc(s, i + 1, false);
        assert forall|k: int| 0 <= k < strip_from(s, i, in_esc).len() implies strip_from(
            s,
            i,
            in_esc,
        )[k] != '\x1b' by {
            assert(strip_from(s, i, in_esc) == seq![s[i]] + strip_from(s, i + 1, false));
            if k == 0 {
                assert(strip_from(s, i, in_esc)[0] == s[i]);
            } else {
                assert(strip_from(s, i, in_esc)[k] == strip_from(s, i + 1, false)[k - 1]);
            }
        }
    }
}

/// Stripping text that holds no ESC character leaves it unchanged.
pub proof fn lemma_strip_identity(s: Seq<char>, i: int)
    requires
        0 <= i <= s.len(),
        forall|k: int| i <= k < s.len() ==> s[k] != '\x1b',
    ensures
        strip_from(s, i, false) == s.skip(i),
    decreases s.len() - i,
{
    if i >= s.len() {
        assert(strip_from(s, i, false) =~= s.skip(i));
    } else {
        lemma_strip_identity(s, i + 1);
        assert(strip_from(s, i, false) =~= s.skip(i));
    }
}

/// Stripping is idempotent: stripping already-stripped text is a no-op.
pub proof fn lemma_strip_ansi_idempotent(s: Seq<char>)
    ensures
        strip_ansi_spec(strip_ansi_spec(s)) == strip_ansi_spec(s),
{
    let t = strip_ansi_spec(s);
    lemma_strip_no_esc(s, 0, false);
    lemma_strip_identity(t, 0);
    assert(t.skip(0) =~= t);
}

} // verus!
