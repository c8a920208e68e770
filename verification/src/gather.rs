//! The selective stats aggregation: which probes a request needs, and how
//! the probes' outcomes assemble into the stats record. The collaborator
//! that owns the processes, files and network runs exactly the probes the
//! plan names (launching the sync-age probe on its worker), then hands
//! every outcome here; a field whose kind was not requested stays absent
//! whatever the probes returned.

use vstd::prelude::*;
use crate::stats::{
    contains_stat, needs_mirror_health, needs_mirror_health_spec, needs_mirror_url,
    needs_mirror_url_spec, needs_orphan_stats, needs_orphan_stats_spec, needs_upgrade_stats,
    needs_upgrade_stats_spec, ManagerStats, StatId,
};
use crate::upgrade::{OrphanSummary, UpgradeSummary};

verus! {

/// Which probes one request needs.
#[derive(Debug, Clone, Copy, PartialEq, Eq, Structural)]
pub struct ProbePlan {
    pub upgrade: bool,
    pub orphans: bool,
    pub mirror_url: bool,
    pub mirror_sync: bool,
    pub installed: bool,
    pub last_update: bool,
    pub cache: bool,
}

/// The plan a request determines: each probe runs iff a stat kind that
/// depends on it is requested.
pub open spec fn plan_spec(req: Seq<StatId>) -> ProbePlan {
    ProbePlan {
        upgrade: needs_upgrade_stats_spec(req),
        orphans: needs_orphan_stats_spec(req),
        mirror_url: needs_mirror_url_spec(req),
        mirror_sync: needs_mirror_health_spec(req),
        installed: req.contains(StatId::Installed),
        last_update: req.contains(StatId::LastUpdate),
        cache: req.contains(StatId::CacheSize),
    }
}

/// Decide which probes to run for a request. The sync-age probe's
/// prerequisite is kept explicitly: whenever it is planned, the mirror-URL
/// probe is planned too.
pub fn probe_plan(requested: &[StatId]) -> (p: ProbePlan)
    ensures
        p == plan_spec(requested@),
        p.mirror_sync ==> p.mirror_url,
{
    ProbePlan {
        upgrade: needs_upgrade_stats(requested),
        orphans: needs_orphan_stats(requested),
        mirror_url: needs_mirror_url(requested),
        mirror_sync: needs_mirror_health(requested),
        installed: contains_stat(requested, StatId::Installed),
        last_update: contains_stat(requested, StatId::LastUpdate),
        cache: contains_stat(requested, StatId::CacheSize),
    }
}

/// What the probes produced: one optional outcome per probe, each absent
/// when its probe was skipped or failed. The version probe always runs.
#[derive(Debug, Clone, PartialEq, Eq)]
pub struct ProbeOutcomes {
    pub upgrade: Option<UpgradeSummary>,
    pub orphans: Option<OrphanSummary>,
    pub mirror_url: Option<String>,
    pub mirror_sync_age_seconds: Option<i64>,
    pub installed_count: Option<usize>,
    pub update_age_seconds: Option<i64>,
    pub cache_bytes: Option<u64>,
    pub version: Option<String>,
}

/// An installed-package count held to the record's field width.
pub open spec fn count_to_u32(c: int) -> u32 {
    if c > u32::MAX {
        u32::MAX
    } else {
        c as u32
    }
}

/// The record a request and the probes' outcomes assemble into: every
/// field is the matching outcome when its kind is requested, and absent
/// (or zero, for the two counts) otherwise; the version is never gated.
pub open spec fn assemble_spec(req: Seq<StatId>, oc: ProbeOutcomes) -> ManagerStats {
    ManagerStats {
        total_installed: if req.contains(StatId::Installed) {
            match oc.installed_count {
                Some(c) => count_to_u32(c as int),
                None => 0,
            }
        } else {
            0
        },
        total_upgradable: if needs_upgrade_stats_spec(req) {
            match oc.upgrade {
                Some(u) => u.package_count,
                None => 0,
            }
        } else {
            0
        },
        seconds_since_last_update: if req.contains(StatId::LastUpdate) {
            oc.update_age_seconds
        } else {
            None
        },
        download_size_bytes: if needs_upgrade_stats_spec(req) {
            match oc.upgrade {
                Some(u) => Some(u.download_bytes),
                None => None,
            }
        } else {
            None
        },
        installed_size_bytes: if needs_upgrade_stats_spec(req) {
            match oc.upgrade {
                Some(u) => Some(u.installed_bytes),
                None => None,
            }
        } else {
            None
        },
        net_upgrade_size_bytes: if needs_upgrade_stats_spec(req) {
            match oc.upgrade {
                Some(u) => Some(u.net_bytes),
                None => None,
            }
        } else {
            None
        },
        orphaned_packages: if needs_orphan_stats_spec(req) {
            match oc.orphans {
                Some(o) => Some(o.count),
                None => None,
            }
        } else {
            None
        },
        orphaned_size_bytes: if needs_orphan_stats_spec(req) {
            match oc.orphans {
                Some(o) => Some(o.total_bytes),
                None => None,
            }
        } else {
            None
        },
        cache_size_bytes: if req.contains(StatId::CacheSize) {
            oc.cache_bytes
        } else {
            None
        },
        mirror_url: if needs_mirror_url_spec(req) {
            oc.mirror_url
        } else {
            None
        },
        mirror_sync_age_seconds: if needs_mirror_health_spec(req) {
            oc.mirror_sync_age_seconds
        } else {
            None
        },
        pacman_version: oc.version,
    }
}

/// Assemble the stats record from the request and the probes' outcomes.
pub fn assemble_stats(requested: &[StatId], outcomes: ProbeOutcomes) -> (s: ManagerStats)
    ensures
        s == assemble_spec(requested@, outcomes),
{
    let wants_upgrade = needs_upgrade_stats(requested);
    let wants_orphans = needs_orphan_stats(requested);
    let wants_url = needs_mirror_url(requested);
    let wants_health = needs_mirror_health(requested);
    let wants_installed = contains_stat(requested, StatId::Installed);
    let wants_last_update = contains_stat(requested, StatId::LastUpdate);
    let wants_cache = contains_stat(requested, StatId::CacheSize);
    ManagerStats {
        total_installed: if wants_installed {
            match outcomes.installed_count {
                Some(c) => if c > u32::MAX as usize {
                    u32::MAX
                } else {
                    c as u32
                },
                None => 0,
            }
        } else {
            0
        },
        total_upgradable: if wants_upgrade {
            match outcomes.upgrade {
                Some(u) => u.package_count,
                None => 0,
            }
        } else {
            0
        },
        seconds_since_last_update: if wants_last_update {
            outcomes.update_age_seconds
        } else {
            None
        },
        download_size_bytes: if wants_upgrade {
            match outcomes.upgrade {
                Some(u) => Some(u.download_bytes),
                None => None,
            }
        } else {
            None
        },
        installed_size_bytes: if wants_upgrade {
            match outcomes.upgrade {
                Some(u) => Some(u.installed_bytes),
                None => None,
            }
        } else {
            None
        },
        net_upgrade_size_bytes: if wants_upgrade {
            match outcomes.upgrade {
                Some(u) => Some(u.net_bytes),
                None => None,
            }
        } else {
            None
        },
        orphaned_packages: if wants_orphans {
            match outcomes.orphans {
                Some(o) => Some(o.count),
                None => None,
            }
        } else {
            None
        },
        orphaned_size_bytes: if wants_orphans {
            match outcomes.orphans {
                Some(o) => Some(o.total_bytes),
                None => None,
            }
        } else {
            None
        },
        cache_size_bytes: if wants_cache {
            outcomes.cache_bytes
        } else {
            None
        },
        mirror_url: if wants_url {
            outcomes.mirror_url
        } else {
            None
        },
        mirror_sync_age_seconds: if wants_health {
            outcomes.mirror_sync_age_seconds
        } else {
            None
        },
        pacman_version: outcomes.version,
    }
}

/// A stat kind absent from the request's dependency closure is never
/// populated: whatever the probes returned, the assembled record leaves
/// the field absent (or zero, for a count), and the plan never names the
/// probe; the sync-age probe always brings its mirror-URL prerequisite.
pub proof fn lemma_gather_respects_request(req: Seq<StatId>, oc: ProbeOutcomes)
    ensures
        !needs_upgrade_stats_spec(req) ==> !plan_spec(req).upgrade && assemble_spec(
            req,
            oc,
        ).total_upgradable == 0 && assemble_spec(req, oc).download_size_bytes is None
            && assemble_spec(req, oc).installed_size_bytes is None && assemble_spec(
            req,
            oc,
        ).net_upgrade_size_bytes is None,
        !needs_orphan_stats_spec(req) ==> !plan_spec(req).orphans && assemble_spec(
            req,
            oc,
        ).orphaned_packages is None && assemble_spec(req, oc).orphaned_size_bytes is None,
        !needs_mirror_url_spec(req) ==> !plan_spec(req).mirror_url && assemble_spec(
            req,
            oc,
        ).mirror_url is None,
        !needs_mirror_health_spec(req) ==> !plan_spec(req).mirror_sync && assemble_spec(
            req,
            oc,
        ).mirror_sync_age_seconds is None,
        !req.contains(StatId::Installed) ==> !plan_spec(req).installed && assemble_spec(
            req,
            oc,
        ).total_installed == 0,
        !req.contains(StatId::LastUpdate) ==> !plan_spec(req).last_update && assemble_spec(
            req,
            oc,
        ).seconds_since_last_update is None,
        !req.contains(StatId::CacheSize) ==> !plan_spec(req).cache && assemble_spec(
            req,
            oc,
        ).cache_size_bytes is None,
        plan_spec(req).mirror_sync ==> plan_spec(req).mirror_url,
{
}

} // verus!
