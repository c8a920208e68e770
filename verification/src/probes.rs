//! The computing halves of the local probes: counting the lines of a
//! package listing, pulling the version out of the version command's
//! output, and summing cache file sizes. Reading the files and running
//! the commands happens outside.

use vstd::prelude::*;
use crate::logscan::{lines_spec, split_lines};
use crate::mirror::{lemma_split_first_found, split_first_spec};
use crate::text::{chars_of, contains_seq, contains_str, match_at, match_at_exec, string_of,
    subvec, trim_chars, trim_spec};

verus! {

/// How many lines a command's output holds (as `str::lines` counts them).
pub open spec fn line_count_spec(s: Seq<char>) -> int {
    lines_spec(s).len() as int
}

/// The number of lines in the output of the package listing; one line per
/// installed package.
pub fn count_lines(s: &str) -> (r: usize)
    ensures
        r as int == line_count_spec(s@),
{
    let v = chars_of(s);
    let lines = split_lines(&v);
    proof {
        assert(lines@.len() == lines.deep_view().len());
    }
    lines.len()
}

/// The version text of one line: everything from the first occurrence of
/// the manager's version marker on, trimmed.
pub open spec fn version_of_line(l: Seq<char>) -> Seq<char> {
    trim_spec(l.skip(split_first_spec(l, "Pacman v"@).len() as int))
}

/// A line identifies the manager's version when it names both the manager
/// and its backing library.
pub open spec fn is_version_line(l: Seq<char>) -> bool {
    contains_seq(l, "Pacman v"@) && contains_seq(l, "libalpm v"@)
}

pub open spec fn version_from_lines(lines: Seq<Seq<char>>) -> Option<Seq<char>>
    decreases lines.len(),
{
    if lines.len() == 0 {
        None
    } else if is_version_line(lines[0]) {
        Some(version_of_line(lines[0]))
    } else {
        version_from_lines(lines.drop_first())
    }
}

/// The version string in the version command's output, if its identifying
/// line is present.
pub open spec fn pacman_version_spec(out: Seq<char>) -> Option<Seq<char>> {
    version_from_lines(lines_spec(out))
}

/// Extract the version from the first line of the version command's output
/// that names both the manager and its backing library; absent when no
/// line matches.
pub fn extract_pacman_version(out: &str) -> (r: Option<String>)
    ensures
        match (r, pacman_version_spec(out@)) {
            (Some(s), Some(v)) => s@ == v,
            (None, None) => true,
            _ => false,
        },
{
    let v = chars_of(out);
    let lines = split_lines(&v);
    let n = lines.len();
    let mut i: usize = 0;
    proof {
        assert(lines.deep_view().skip(0) =~~= lines.deep_view());
    }
    while i < n
        invariant
            i <= n,
            n == lines@.len(),
            lines.deep_view() == lines_spec(v@),
            pacman_version_spec(out@) == version_from_lines(lines.deep_view().skip(i as int)),
        decreases n - i,
    {
        proof {
            assert(lines.deep_view().skip(i as int)[0] == lines@[i as int]@);
        }
        let l = &lines[i];
        if contains_str(l, "Pacman v") && contains_str(l, "libalpm v") {
            let marker = chars_of("Pacman v");
            let ll = l.len();
            let ml = marker.len();
            let mut k: usize = 0;
            proof {
                let w = choose|w: int| 0 <= w && w + marker@.len() <= l@.len() && match_at(
                    l@,
                    marker@,
                    w,
                );
                assert(0 <= w && w + marker@.len() <= l@.len() && match_at(l@, marker@, w));
            }
            while !(k + ml <= ll && match_at_exec(l, &marker, k))
                invariant
                    ll == l@.len(),
                    ml == marker@.len(),
                    0 <= k,
                    exists|w: int|
                        k <= w && w + marker@.len() <= l@.len() && match_at(l@, marker@, w),
                    forall|j: int| 0 <= j < k ==> !match_at(l@, marker@, j),
                decreases ll - k,
            {
                k += 1;
            }
            proof {
                lemma_split_first_found(l@, marker@, k as int);
                assert(split_first_spec(l@, marker@).len() == k as int);
            }
            let rest = subvec(l, k, ll);
            proof {
                assert(rest@ =~= l@.skip(k as int));
            }
            let t = trim_chars(&rest);
            return Some(string_of(&t));
        }
        proof {
            assert(lines.deep_view().skip(i as int).drop_first() =~~= lines.deep_view().skip(
                i + 1 as int,
            ));
        }
        i += 1;
    }
    proof {
        assert(lines.deep_view().skip(n as int) =~~= Seq::<Seq<char>>::empty());
    }
    None
}

pub open spec fn sum_sizes(sizes: Seq<u64>) -> int
    decreases sizes.len(),
{
    if sizes.len() == 0 {
        0
    } else {
        sum_sizes(sizes.drop_last()) + sizes.last()
    }
}

proof fn lemma_sum_sizes_bound(sizes: Seq<u64>)
    ensures
        0 <= sum_sizes(sizes) <= sizes.len() * 0xffffffffffffffff,
    decreases sizes.len(),
{
    if sizes.len() > 0 {
        lemma_sum_sizes_bound(sizes.drop_last());
    }
}

/// The total size of the cache's files, in bytes, from their individual
/// sizes; a total beyond `u64` saturates.
pub fn cache_size_bytes(sizes: &Vec<u64>) -> (r: u64)
    ensures
        r as int == if sum_sizes(sizes@) <= u64::MAX {
            sum_sizes(sizes@)
        } else {
            u64::MAX as int
        },
{
    let n = sizes.len();
    let mut total: u128 = 0;
    let mut i: usize = 0;
    while i < n
        invariant
            i <= n,
            n == sizes@.len(),
            total == sum_sizes(sizes@.take(i as int)),
        decreases n - i,
    {
        proof {
            lemma_sum_sizes_bound(sizes@.take(i as int));
            assert(sizes@.take(i as int).len() * 0xffffffffffffffff <= (n as int - 1)
                * 0xffffffffffffffff);
            assert(sizes@.take(i + 1 as int).drop_last() =~= sizes@.take(i as int));
            assert(sizes@.take(i + 1 as int).last() == sizes@[i as int]);
        }
        total = total + sizes[i] as u128;
        i += 1;
    }
    proof {
        assert(sizes@.take(n as int) =~= sizes@);
    }
    if total > u64::MAX as u128 {
        u64::MAX
    } else {
        total as u64
    }
}

} // verus!
