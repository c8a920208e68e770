//! Summarising a simulated full-system-upgrade transaction, and scanning
//! local package records for orphans. The package data arrives as plain
//! values read out of the package-manager databases.

use vstd::prelude::*;

verus! {

/// One package the transaction would add: its download size, its installed
/// size, and the installed size of the version it replaces (absent for a
/// new install). Sizes are in bytes.
#[derive(Clone, Copy, PartialEq, Eq, Debug)]
pub struct PackageDelta {
    pub download_size: i64,
    pub new_size: i64,
    pub old_size: Option<i64>,
}

/// The whole transaction summarised: total download size, total installed
/// size after the upgrade, net size change, and the number of packages
/// added. Sizes are in bytes.
#[derive(Clone, Copy, PartialEq, Eq, Debug)]
pub struct UpgradeSummary {
    pub download_bytes: i64,
    pub installed_bytes: i64,
    pub net_bytes: i64,
    pub package_count: u32,
}

pub open spec fn sum_download(adds: Seq<PackageDelta>) -> int
    decreases adds.len(),
{
    if adds.len() == 0 {
        0
    } else {
        sum_download(adds.drop_last()) + adds.last().download_size
    }
}

pub open spec fn sum_installed(adds: Seq<PackageDelta>) -> int
    decreases adds.len(),
{
    if adds.len() == 0 {
        0
    } else {
        sum_installed(adds.drop_last()) + adds.last().new_size
    }
}

/// What one added package contributes to the net size change: the
/// difference against the replaced version for an upgrade, the full
/// installed size for a new install.
pub open spec fn net_delta(p: PackageDelta) -> int {
    match p.old_size {
        Some(o) => p.new_size - o,
        None => p.new_size as int,
    }
}

pub open spec fn sum_net_adds(adds: Seq<PackageDelta>) -> int
    decreases adds.len(),
{
    if adds.len() == 0 {
        0
    } else {
        sum_net_adds(adds.drop_last()) + net_delta(adds.last())
    }
}

pub open spec fn sum_removed(rems: Seq<i64>) -> int
    decreases rems.len(),
{
    if rems.len() == 0 {
        0
    } else {
        sum_removed(rems.drop_last()) + rems.last()
    }
}

/// The net size change of the whole transaction, before normalization:
/// additions' deltas minus removed packages' sizes.
pub open spec fn raw_net(adds: Seq<PackageDelta>, rems: Seq<i64>) -> int {
    sum_net_adds(adds) - sum_removed(rems)
}

pub open spec fn clamp_i64(n: int) -> int {
    if n > i64::MAX {
        i64::MAX as int
    } else if n < i64::MIN {
        i64::MIN as int
    } else {
        n
    }
}

/// A net size within a hundredth of a mebibyte of zero (10485 bytes or
/// less either way) is reported as exactly zero.
pub open spec fn normalize_net(n: int) -> int {
    if -10486 < n < 10486 {
        0
    } else {
        n
    }
}

proof fn lemma_add_sums_bound(adds: Seq<PackageDelta>)
    ensures
        -(adds.len() * 0x10000000000000000) <= sum_download(adds) <= adds.len()
            * 0x10000000000000000,
        -(adds.len() * 0x10000000000000000) <= sum_installed(adds) <= adds.len()
            * 0x10000000000000000,
        -(adds.len() * 0x10000000000000000) <= sum_net_adds(adds) <= adds.len()
            * 0x10000000000000000,
    decreases adds.len(),
{
    if adds.len() > 0 {
        lemma_add_sums_bound(adds.drop_last());
    }
}

proof fn lemma_removed_sum_bound(rems: Seq<i64>)
    ensures
        -(rems.len() * 0x10000000000000000) <= sum_removed(rems) <= rems.len()
            * 0x10000000000000000,
    decreases rems.len(),
{
    if rems.len() > 0 {
        lemma_removed_sum_bound(rems.drop_last());
    }
}

fn clamp_to_i64(n: i128) -> (r: i64)
    ensures
        r as int == clamp_i64(n as int),
{
    if n > i64::MAX as i128 {
        i64::MAX
    } else if n < i64::MIN as i128 {
        i64::MIN
    } else {
        n as i64
    }
}

/// Summarise a prepared transaction from its added and removed packages.
/// Every field is computed from the same lists at once: the summary is
/// whole, never partial. Sums that cannot fit in an `i64` saturate.
pub fn summarize_upgrade(adds: &Vec<PackageDelta>, removals: &Vec<i64>) -> (s: UpgradeSummary)
    requires
        adds@.len() <= u32::MAX,
        removals@.len() <= u32::MAX,
    ensures
        s.download_bytes as int == clamp_i64(sum_download(adds@)),
        s.installed_bytes as int == clamp_i64(sum_installed(adds@)),
        s.net_bytes as int == normalize_net(clamp_i64(raw_net(adds@, removals@))),
        s.package_count as int == adds@.len(),
{
    let n = adds.len();
    let mut download: i128 = 0;
    let mut installed: i128 = 0;
    let mut net: i128 = 0;
    let mut i: usize = 0;
    while i < n
        invariant
            i <= n,
            n == adds@.len(),
            n <= u32::MAX,
            download == sum_download(adds@.take(i as int)),
            installed == sum_installed(adds@.take(i as int)),
            net == sum_net_adds(adds@.take(i as int)),
        decreases n - i,
    {
        proof {
            lemma_add_sums_bound(adds@.take(i as int));
            assert(adds@.take(i + 1 as int).drop_last() =~= adds@.take(i as int));
            assert(adds@.take(i + 1 as int).last() == adds@[i as int]);
        }
        let p = adds[i];
        download = download + p.download_size as i128;
        installed = installed + p.new_size as i128;
        match p.old_size {
            Some(o) => {
                net = net + (p.new_size as i128 - o as i128);
            },
            None => {
                net = net + p.new_size as i128;
            },
        }
        i += 1;
    }
    proof {
        assert(adds@.take(n as int) =~= adds@);
    }
    let m = removals.len();
    let mut removed: i128 = 0;
    let mut j: usize = 0;
    while j < m
        invariant
            j <= m,
            m == removals@.len(),
            m <= u32::MAX,
            removed == sum_removed(removals@.take(j as int)),
        decreases m - j,
    {
        proof {
            lemma_removed_sum_bound(removals@.take(j as int));
            assert(removals@.take(j + 1 as int).drop_last() =~= removals@.take(j as int));
            assert(removals@.take(j + 1 as int).last() == removals@[j as int]);
        }
        removed = removed + removals[j] as i128;
        j += 1;
    }
    proof {
        assert(removals@.take(m as int) =~= removals@);
        lemma_add_sums_bound(adds@);
        lemma_removed_sum_bound(removals@);
    }
    let raw = clamp_to_i64(net - removed);
    let net_bytes = if raw > -10486 && raw < 10486 {
        0
    } else {
        raw
    };
    UpgradeSummary {
        download_bytes: clamp_to_i64(download),
        installed_bytes: clamp_to_i64(installed),
        net_bytes,
        package_count: n as u32,
    }
}

/// For a pure new install (no added package replaces an older version and
/// nothing is removed) the net size change equals the installed size.
pub proof fn lemma_net_of_new_install(adds: Seq<PackageDelta>, rems: Seq<i64>)
    requires
        forall|i: int| 0 <= i < adds.len() ==> adds[i].old_size is None,
        rems.len() == 0,
    ensures
        raw_net(adds, rems) == sum_installed(adds),
    decreases adds.len(),
{
    if adds.len() > 0 {
        assert(forall|i: int|
            0 <= i < adds.drop_last().len() ==> adds.drop_last()[i].old_size is None);
        lemma_net_of_new_install(adds.drop_last(), rems);
    }
}

/// For a removal-only transaction the net size change is the negative of
/// the removed size.
pub proof fn lemma_net_of_removal_only(adds: Seq<PackageDelta>, rems: Seq<i64>)
    requires
        adds.len() == 0,
    ensures
        raw_net(adds, rems) == -sum_removed(rems),
{
}

/// A net size within a hundredth of a mebibyte of zero normalizes to
/// exactly zero; anything farther out is left as it is.
pub proof fn lemma_net_near_zero(n: int)
    ensures
        -10486 < n < 10486 ==> normalize_net(n) == 0,
        !(-10486 < n < 10486) ==> normalize_net(n) == n,
{
}

/// One locally installed package, as the orphan scan sees it: whether it
/// was installed as a dependency, how many packages require it, how many
/// optionally use it, and its installed size in bytes.
#[derive(Clone, Copy, PartialEq, Eq, Debug)]
pub struct LocalPackage {
    pub dependency_reason: bool,
    pub required_by: u64,
    pub optional_for: u64,
    pub size: i64,
}

/// An orphan: installed as a dependency, and nothing requires or
/// optionally uses it.
pub open spec fn is_orphan(p: LocalPackage) -> bool {
    p.dependency_reason && p.required_by == 0 && p.optional_for == 0
}

pub open spec fn orphan_count(pkgs: Seq<LocalPackage>) -> int
    decreases pkgs.len(),
{
    if pkgs.len() == 0 {
        0
    } else {
        orphan_count(pkgs.drop_last()) + if is_orphan(pkgs.last()) {
            1int
        } else {
            0int
        }
    }
}

pub open spec fn orphan_size(pkgs: Seq<LocalPackage>) -> int
    decreases pkgs.len(),
{
    if pkgs.len() == 0 {
        0
    } else {
        orphan_size(pkgs.drop_last()) + if is_orphan(pkgs.last()) {
            pkgs.last().size as int
        } else {
            0int
        }
    }
}

/// The orphan scan's result: how many orphans, and their total size in bytes.
#[derive(Clone, Copy, PartialEq, Eq, Debug)]
pub struct OrphanSummary {
    pub count: u32,
    pub total_bytes: i64,
}

proof fn lemma_orphan_bounds(pkgs: Seq<LocalPackage>)
    ensures
        0 <= orphan_count(pkgs) <= pkgs.len(),
        -(pkgs.len() * 0x10000000000000000) <= orphan_size(pkgs) <= pkgs.len()
            * 0x10000000000000000,
    decreases pkgs.len(),
{
    if pkgs.len() > 0 {
        lemma_orphan_bounds(pkgs.drop_last());
    }
}

/// Count the orphans among the local packages and sum their sizes; a sum
/// that cannot fit in an `i64` saturates.
pub fn count_orphans(pkgs: &Vec<LocalPackage>) -> (r: OrphanSummary)
    requires
        pkgs@.len() <= u32::MAX,
    ensures
        r.count as int == orphan_count(pkgs@),
        r.total_bytes as int == clamp_i64(orphan_size(pkgs@)),
{
    let n = pkgs.len();
    let mut count: u32 = 0;
    let mut size: i128 = 0;
    let mut i: usize = 0;
    while i < n
        invariant
            i <= n,
            n == pkgs@.len(),
            n <= u32::MAX,
            count as int == orphan_count(pkgs@.take(i as int)),
            size == orphan_size(pkgs@.take(i as int)),
        decreases n - i,
    {
        proof {
            lemma_orphan_bounds(pkgs@.take(i as int));
            assert(pkgs@.take(i + 1 as int).drop_last() =~= pkgs@.take(i as int));
            assert(pkgs@.take(i + 1 as int).last() == pkgs@[i as int]);
        }
        let p = pkgs[i];
        if p.dependency_reason && p.required_by == 0 && p.optional_for == 0 {
            count = count + 1;
            size = size + p.size as i128;
        }
        i += 1;
    }
    proof {
        assert(pkgs@.take(n as int) =~= pkgs@);
    }
    OrphanSummary { count, total_bytes: clamp_to_i64(size) }
}

} // verus!
