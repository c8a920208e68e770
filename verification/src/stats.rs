//! The stat kinds a caller can request, the helpers that decide which
//! probes a request needs, and the assembled stats record.

use vstd::prelude::*;

verus! {

/// One requestable stat kind.
#[derive(Debug, Clone, Copy, PartialEq, Eq, Structural)]
pub enum StatId {
    Installed,
    Upgradable,
    LastUpdate,
    DownloadSize,
    InstalledSize,
    NetUpgradeSize,
    OrphanedPackages,
    CacheSize,
    MirrorUrl,
    MirrorHealth,
}

pub open spec fn label_spec(id: StatId) -> Seq<char> {
    match id {
        StatId::Installed => "Installed"@,
        StatId::Upgradable => "Upgradable"@,
        StatId::LastUpdate => "Last System Update"@,
        StatId::DownloadSize => "Download Size"@,
        StatId::InstalledSize => "Installed Size"@,
        StatId::NetUpgradeSize => "Net Upgrade Size"@,
        StatId::OrphanedPackages => "Orphaned Packages"@,
        StatId::CacheSize => "Package Cache"@,
        StatId::MirrorUrl => "Mirror URL"@,
        StatId::MirrorHealth => "Mirror Health"@,
    }
}

impl StatId {
    /// The display label of this stat kind.
    pub fn label(&self) -> (r: &'static str)
        ensures
            r@ == label_spec(*self),
    {
        match self {
            StatId::Installed => "Installed",
            StatId::Upgradable => "Upgradable",
            StatId::LastUpdate => "Last System Update",
            StatId::DownloadSize => "Download Size",
            StatId::InstalledSize => "Installed Size",
            StatId::NetUpgradeSize => "Net Upgrade Size",
            StatId::OrphanedPackages => "Orphaned Packages",
            StatId::CacheSize => "Package Cache",
            StatId::MirrorUrl => "Mirror URL",
            StatId::MirrorHealth => "Mirror Health",
        }
    }
}

/// Every stat kind once, in display order.
pub open spec fn default_stats_seq() -> Seq<StatId> {
    seq![
        StatId::Installed,
        StatId::Upgradable,
        StatId::LastUpdate,
        StatId::DownloadSize,
        StatId::InstalledSize,
        StatId::NetUpgradeSize,
        StatId::OrphanedPackages,
        StatId::CacheSize,
        StatId::MirrorUrl,
        StatId::MirrorHealth,
    ]
}

/// The default request: every stat kind, in display order.
pub fn default_stats() -> (r: Vec<StatId>)
    ensures
        r@ == default_stats_seq(),
{
    let mut r: Vec<StatId> = Vec::new();
    r.push(StatId::Installed);
    r.push(StatId::Upgradable);
    r.push(StatId::LastUpdate);
    r.push(StatId::DownloadSize);
    r.push(StatId::InstalledSize);
    r.push(StatId::NetUpgradeSize);
    r.push(StatId::OrphanedPackages);
    r.push(StatId::CacheSize);
    r.push(StatId::MirrorUrl);
    r.push(StatId::MirrorHealth);
    proof {
        assert(r@ =~= default_stats_seq());
    }
    r
}

/// Whether the request holds the given kind.
pub fn contains_stat(requested: &[StatId], x: StatId) -> (r: bool)
    ensures
        r == requested@.contains(x),
{
    let n = requested.len();
    let mut i: usize = 0;
    while i < n
        invariant
            i <= n,
            n == requested@.len(),
            forall|k: int| 0 <= k < i ==> requested@[k] != x,
        decreases n - i,
    {
        if requested[i] == x {
            assert(requested@.contains(x));
            return true;
        }
        i += 1;
    }
    proof {
        assert(!requested@.contains(x)) by {
            if requested@.contains(x) {
                let k = choose|k: int| 0 <= k < requested@.len() && requested@[k] == x;
            }
        }
    }
    false
}

pub open spec fn needs_upgrade_stats_spec(req: Seq<StatId>) -> bool {
    req.contains(StatId::Upgradable) || req.contains(StatId::DownloadSize) || req.contains(
        StatId::InstalledSize,
    ) || req.contains(StatId::NetUpgradeSize)
}

/// The upgrade-transaction probe runs iff any of the four transaction
/// stats is requested.
pub fn needs_upgrade_stats(requested: &[StatId]) -> (r: bool)
    ensures
        r == needs_upgrade_stats_spec(requested@),
{
    contains_stat(requested, StatId::Upgradable) || contains_stat(requested, StatId::DownloadSize)
        || contains_stat(requested, StatId::InstalledSize) || contains_stat(
        requested,
        StatId::NetUpgradeSize,
    )
}

pub open spec fn needs_orphan_stats_spec(req: Seq<StatId>) -> bool {
    req.contains(StatId::OrphanedPackages)
}

/// The orphan probe runs iff the orphan count is requested.
pub fn needs_orphan_stats(requested: &[StatId]) -> (r: bool)
    ensures
        r == needs_orphan_stats_spec(requested@),
{
    contains_stat(requested, StatId::OrphanedPackages)
}

pub open spec fn needs_mirror_health_spec(req: Seq<StatId>) -> bool {
    req.contains(StatId::MirrorHealth)
}

/// The mirror-sync-age probe runs iff mirror health is requested.
pub fn needs_mirror_health(requested: &[StatId]) -> (r: bool)
    ensures
        r == needs_mirror_health_spec(requested@),
{
    contains_stat(requested, StatId::MirrorHealth)
}

pub open spec fn needs_mirror_url_spec(req: Seq<StatId>) -> bool {
    req.contains(StatId::MirrorUrl) || needs_mirror_health_spec(req)
}

/// The mirror-URL probe runs iff the URL itself or mirror health is
/// requested: the health check depends on the resolved URL.
pub fn needs_mirror_url(requested: &[StatId]) -> (r: bool)
    ensures
        r == needs_mirror_url_spec(requested@),
{
    contains_stat(requested, StatId::MirrorUrl) || needs_mirror_health(requested)
}

/// A request with duplicates removed, keeping each kind's first
/// occurrence: the result holds exactly the requested kinds, each once.
pub fn dedup_stats(requested: &[StatId]) -> (r: Vec<StatId>)
    ensures
        forall|i: int, j: int| 0 <= i < j < r@.len() ==> r@[i] != r@[j],
        forall|i: int| 0 <= i < r@.len() ==> requested@.contains(r@[i]),
        forall|x: StatId| requested@.contains(x) ==> r@.contains(x),
{
    let n = requested.len();
    let mut r: Vec<StatId> = Vec::new();
    let mut i: usize = 0;
    while i < n
        invariant
            i <= n,
            n == requested@.len(),
            forall|a: int, b: int| 0 <= a < b < r@.len() ==> r@[a] != r@[b],
            forall|a: int| 0 <= a < r@.len() ==> requested@.contains(r@[a]),
            forall|k: int| 0 <= k < i ==> r@.contains(requested@[k]),
        decreases n - i,
    {
        let x = requested[i];
        let mut seen = false;
        let m = r.len();
        let mut j: usize = 0;
        while j < m
            invariant
                j <= m,
                m == r@.len(),
                seen == exists|k: int| 0 <= k < j && r@[k] == x,
            decreases m - j,
        {
            if r[j] == x {
                seen = true;
            }
            j += 1;
        }
        if !seen {
            let ghost old_r = r@;
            r.push(x);
            proof {
                assert(requested@.contains(x)) by {
                    assert(requested@[i as int] == x);
                }
                assert forall|a: int, b: int| 0 <= a < b < r@.len() implies r@[a] != r@[b] by {
                    if b == r@.len() - 1 {
                        assert(old_r[a] != x);
                    }
                }
                assert forall|k: int| 0 <= k < i + 1 implies r@.contains(requested@[k]) by {
                    if k < i {
                        let w = choose|w: int|
                            0 <= w < old_r.len() && old_r[w] == requested@[k];
                        assert(r@[w] == requested@[k]);
                    } else {
                        assert(r@[r@.len() - 1] == x);
                    }
                }
            }
        } else {
            proof {
                let w = choose|w: int| 0 <= w < r@.len() && r@[w] == x;
                assert(r@.contains(x));
            }
        }
        i += 1;
    }
    proof {
        assert forall|x: StatId| requested@.contains(x) implies r@.contains(x) by {
            let k = choose|k: int| 0 <= k < requested@.len() && requested@[k] == x;
        }
    }
    r
}

/// The assembled stats record: one optional field per probe result, plus
/// the counts. Sizes are in bytes, ages in seconds; absence means the
/// probe was not requested, or failed.
#[derive(Debug, Clone, PartialEq, Eq)]
pub struct ManagerStats {
    pub total_installed: u32,
    pub total_upgradable: u32,
    pub seconds_since_last_update: Option<i64>,
    pub download_size_bytes: Option<i64>,
    pub installed_size_bytes: Option<i64>,
    pub net_upgrade_size_bytes: Option<i64>,
    pub orphaned_packages: Option<u32>,
    pub orphaned_size_bytes: Option<i64>,
    pub cache_size_bytes: Option<u64>,
    pub mirror_url: Option<String>,
    pub mirror_sync_age_seconds: Option<i64>,
    pub pacman_version: Option<String>,
}

/// The record before any probe has filled it: zero counts, all else absent.
pub open spec fn empty_stats() -> ManagerStats {
    ManagerStats {
        total_installed: 0,
        total_upgradable: 0,
        seconds_since_last_update: None,
        download_size_bytes: None,
        installed_size_bytes: None,
        net_upgrade_size_bytes: None,
        orphaned_packages: None,
        orphaned_size_bytes: None,
        cache_size_bytes: None,
        mirror_url: None,
        mirror_sync_age_seconds: None,
        pacman_version: None,
    }
}

impl Default for ManagerStats {
    fn default() -> (r: Self)
        ensures
            r == empty_stats(),
    {
        ManagerStats {
            total_installed: 0,
            total_upgradable: 0,
            seconds_since_last_update: None,
            download_size_bytes: None,
            installed_size_bytes: None,
            net_upgrade_size_bytes: None,
            orphaned_packages: None,
            orphaned_size_bytes: None,
            cache_size_bytes: None,
            mirror_url: None,
            mirror_sync_age_seconds: None,
            pacman_version: None,
        }
    }
}

} // verus!
