use upkg::config::{Config, DisplayConfig};
use upkg::gather::{assemble_stats, probe_plan, ProbeOutcomes};
use upkg::logscan::{last_upgrade_stamp, seconds_since_upgrade};
use upkg::logscan::seconds_since_upgrade_now;
use upkg::mirror::{
    first_mirror_url, lastsync_age_now, lastsync_age_seconds, percent_done, transfer_rate_milli_mb,
};
use upkg::probes::{cache_size_bytes, count_lines, extract_pacman_version};
use upkg::stats::{default_stats, dedup_stats, StatId};
use upkg::upgrade::{count_orphans, summarize_upgrade, LocalPackage, PackageDelta};

const FULL_LOG: &str = "[2025-12-05T15:43:51-0800] [PACMAN] Running 'pacman -Syu'\n\
[2025-12-05T15:43:52-0800] [PACMAN] synchronizing package lists\n\
[2025-12-05T15:44:00-0800] [PACMAN] starting full system upgrade\n\
[2025-12-05T15:44:10-0800] [ALPM] upgraded glibc (2.38-1 -> 2.39-1)\n";

#[test]
fn log_scan_finds_the_completed_block_stamp() {
    assert_eq!(
        last_upgrade_stamp(FULL_LOG).as_deref(),
        Some("2025-12-05T15:43:51-0800")
    );
}

#[test]
fn log_scan_age_is_now_minus_stamp_clamped() {
    let epoch = chrono::DateTime::parse_from_rfc3339("2025-12-05T15:43:51-08:00")
        .unwrap()
        .timestamp();
    assert_eq!(seconds_since_upgrade(FULL_LOG, epoch + 5000), Some(5000));
    assert_eq!(seconds_since_upgrade(FULL_LOG, epoch), Some(0));
    assert_eq!(seconds_since_upgrade(FULL_LOG, epoch - 100), Some(0));
}

#[test]
fn log_scan_ignores_blocks_that_never_ran() {
    let requested_only = "[2025-12-05T15:43:51-0800] [PACMAN] Running 'pacman -Syu'\n\
[2025-12-05T15:43:52-0800] [PACMAN] synchronizing package lists\n\
[2025-12-05T15:44:00-0800] [PACMAN] starting full system upgrade\n";
    assert_eq!(last_upgrade_stamp(requested_only), None);
    assert_eq!(seconds_since_upgrade(requested_only, 2_000_000_000), None);

    let interrupted = "[2025-12-05T15:43:51-0800] [PACMAN] Running 'pacman -Syu'\n\
[2025-12-05T15:43:52-0800] [PACMAN] synchronizing package lists\n\
[2025-12-05T15:44:00-0800] [PACMAN] starting full system upgrade\n\
[2025-12-05T15:44:05-0800] [PACMAN] Running 'pacman -S vim'\n\
[2025-12-05T15:44:10-0800] [ALPM] installed vim (9.1-1)\n";
    assert_eq!(last_upgrade_stamp(interrupted), None);
}

#[test]
fn log_scan_takes_the_most_recent_completed_block() {
    let two_blocks = "[2025-11-01T10:00:00-0800] [PACMAN] Running 'pacman -Syu'\n\
[2025-11-01T10:00:01-0800] [PACMAN] synchronizing package lists\n\
[2025-11-01T10:00:05-0800] [PACMAN] starting full system upgrade\n\
[2025-11-01T10:00:09-0800] [ALPM] upgraded bash (5.2-1 -> 5.2-2)\n\
[2025-12-05T15:43:51-0800] [PACMAN] Running 'pacman -Syu'\n\
[2025-12-05T15:43:52-0800] [PACMAN] synchronizing package lists\n\
[2025-12-05T15:44:00-0800] [PACMAN] starting full system upgrade\n\
[2025-12-05T15:44:10-0800] [ALPM] upgraded glibc (2.38-1 -> 2.39-1)\n";
    assert_eq!(
        last_upgrade_stamp(two_blocks).as_deref(),
        Some("2025-12-05T15:43:51-0800")
    );
}

#[test]
fn log_scan_malformed_stamp_is_absent_not_a_crash() {
    let bad = "[garbage] [PACMAN] Running 'pacman -Syu'\n\
[garbage] [PACMAN] synchronizing package lists\n\
[garbage] [PACMAN] starting full system upgrade\n\
[garbage] [ALPM] upgraded glibc (2.38-1 -> 2.39-1)\n";
    assert_eq!(last_upgrade_stamp(bad).as_deref(), Some("garbage"));
    assert_eq!(seconds_since_upgrade(bad, 2_000_000_000), None);
}

#[test]
fn mirror_list_first_active_entry_wins() {
    let mirrorlist = "## Arch Linux repository mirrorlist\n\
# Server = https://commented.example.org/$repo/os/$arch\n\
\n\
Server = https://mirror.example.com/archlinux/$repo/os/$arch\n\
Server = https://second.example.net/arch/$repo/os/$arch\n";
    assert_eq!(
        first_mirror_url(mirrorlist).as_deref(),
        Some("https://mirror.example.com/archlinux")
    );
}

#[test]
fn mirror_list_without_active_entry_is_absent() {
    assert_eq!(first_mirror_url("# only comments\n\n"), None);
    assert_eq!(first_mirror_url(""), None);
}

#[test]
fn mirror_sync_age_parses_and_clamps() {
    assert_eq!(lastsync_age_seconds("1700000000\n", 1700003600), Some(3600));
    assert_eq!(lastsync_age_seconds(" 1700000000 ", 1699999999), Some(0));
    assert_eq!(lastsync_age_seconds("not a number", 1700000000), None);
    assert_eq!(lastsync_age_seconds("", 1700000000), None);
}

#[test]
fn clock_backed_ages_are_nonnegative() {
    let age = lastsync_age_now("1000000000").expect("marker must parse");
    assert!(age > 0);
    let upgrade_age = seconds_since_upgrade_now(FULL_LOG).expect("block is complete");
    assert!(upgrade_age >= 0);
    assert_eq!(seconds_since_upgrade_now("no upgrades here\n"), None);
}

#[test]
fn transfer_rate_zero_duration_is_absent() {
    assert_eq!(transfer_rate_milli_mb(123456, 0), None);
}

#[test]
fn transfer_rate_one_mebibyte_per_second_reads_one() {
    assert_eq!(transfer_rate_milli_mb(1048576, 1000), Some(1000));
    assert_eq!(transfer_rate_milli_mb(524288, 1000), Some(500));
    assert_eq!(transfer_rate_milli_mb(1048576, 2000), Some(500));
}

#[test]
fn percent_done_is_clamped_to_one_hundred() {
    assert_eq!(percent_done(0, 200), 0);
    assert_eq!(percent_done(100, 200), 50);
    assert_eq!(percent_done(200, 200), 100);
    assert_eq!(percent_done(400, 200), 100);
    assert_eq!(percent_done(50, 0), 0);
}

#[test]
fn upgrade_summary_new_install_nets_its_installed_size() {
    let adds = vec![PackageDelta {
        download_size: 2_000_000,
        new_size: 5_000_000,
        old_size: None,
    }];
    let removals: Vec<i64> = vec![];
    let s = summarize_upgrade(&adds, &removals);
    assert_eq!(s.download_bytes, 2_000_000);
    assert_eq!(s.installed_bytes, 5_000_000);
    assert_eq!(s.net_bytes, 5_000_000);
    assert_eq!(s.package_count, 1);
}

#[test]
fn upgrade_summary_removal_only_nets_negative_removed_size() {
    let adds: Vec<PackageDelta> = vec![];
    let removals: Vec<i64> = vec![3_000_000];
    let s = summarize_upgrade(&adds, &removals);
    assert_eq!(s.net_bytes, -3_000_000);
    assert_eq!(s.download_bytes, 0);
    assert_eq!(s.installed_bytes, 0);
    assert_eq!(s.package_count, 0);
}

#[test]
fn upgrade_summary_near_zero_net_is_exactly_zero() {
    let adds = vec![PackageDelta {
        download_size: 1000,
        new_size: 2_000_000,
        old_size: Some(2_000_000 - 10_485),
    }];
    let removals: Vec<i64> = vec![];
    let s = summarize_upgrade(&adds, &removals);
    assert_eq!(s.net_bytes, 0);

    let adds2 = vec![PackageDelta {
        download_size: 1000,
        new_size: 2_000_000,
        old_size: Some(2_000_000 - 10_486),
    }];
    let s2 = summarize_upgrade(&adds2, &removals);
    assert_eq!(s2.net_bytes, 10_486);
}

#[test]
fn upgrade_summary_mixes_upgrades_installs_and_removals() {
    let adds = vec![
        PackageDelta {
            download_size: 1_000_000,
            new_size: 4_000_000,
            old_size: Some(3_000_000),
        },
        PackageDelta {
            download_size: 500_000,
            new_size: 2_000_000,
            old_size: None,
        },
    ];
    let removals: Vec<i64> = vec![1_500_000];
    let s = summarize_upgrade(&adds, &removals);
    assert_eq!(s.download_bytes, 1_500_000);
    assert_eq!(s.installed_bytes, 6_000_000);
    assert_eq!(s.net_bytes, 1_000_000 + 2_000_000 - 1_500_000);
    assert_eq!(s.package_count, 2);
}

#[test]
fn upgrade_summary_saturates_instead_of_overflowing() {
    let adds = vec![
        PackageDelta {
            download_size: i64::MAX,
            new_size: i64::MAX,
            old_size: None,
        },
        PackageDelta {
            download_size: i64::MAX,
            new_size: i64::MAX,
            old_size: None,
        },
    ];
    let removals: Vec<i64> = vec![];
    let s = summarize_upgrade(&adds, &removals);
    assert_eq!(s.download_bytes, i64::MAX);
    assert_eq!(s.installed_bytes, i64::MAX);
    assert_eq!(s.net_bytes, i64::MAX);
    assert_eq!(s.package_count, 2);
}

#[test]
fn orphan_scan_counts_only_unneeded_dependencies() {
    let pkgs = vec![
        LocalPackage {
            dependency_reason: true,
            required_by: 0,
            optional_for: 0,
            size: 1_000_000,
        },
        LocalPackage {
            dependency_reason: true,
            required_by: 2,
            optional_for: 0,
            size: 9_000_000,
        },
        LocalPackage {
            dependency_reason: false,
            required_by: 0,
            optional_for: 0,
            size: 9_000_000,
        },
        LocalPackage {
            dependency_reason: true,
            required_by: 0,
            optional_for: 1,
            size: 9_000_000,
        },
        LocalPackage {
            dependency_reason: true,
            required_by: 0,
            optional_for: 0,
            size: 2_500_000,
        },
    ];
    let s = count_orphans(&pkgs);
    assert_eq!(s.count, 2);
    assert_eq!(s.total_bytes, 3_500_000);
}

#[test]
fn version_extraction_finds_the_identifying_line() {
    let out = " .--.                  Pacman v6.1.0 - libalpm v14.0.0\n\
/ _.-' .-.  .-.  .-.   Copyright (C) 2006-2024 Pacman Development Team\n\
\\  '-. '-'  '-'  '-'\n";
    assert_eq!(
        extract_pacman_version(out).as_deref(),
        Some("Pacman v6.1.0 - libalpm v14.0.0")
    );
    assert_eq!(extract_pacman_version("no version here\n"), None);
    assert_eq!(extract_pacman_version("Pacman v6.1.0 alone\n"), None);
}

#[test]
fn line_count_counts_packages() {
    assert_eq!(count_lines("glibc 2.39-1\nbash 5.2-2\nvim 9.1-1\n"), 3);
    assert_eq!(count_lines("glibc 2.39-1\nbash 5.2-2"), 2);
    assert_eq!(count_lines(""), 0);
    assert_eq!(count_lines("\n"), 1);
}

#[test]
fn cache_size_sums_file_sizes() {
    assert_eq!(cache_size_bytes(&vec![]), 0);
    assert_eq!(cache_size_bytes(&vec![100, 200, 300]), 600);
    assert_eq!(cache_size_bytes(&vec![u64::MAX, 1]), u64::MAX);
}

fn full_outcomes() -> ProbeOutcomes {
    ProbeOutcomes {
        upgrade: Some(upkg::upgrade::UpgradeSummary {
            download_bytes: 11,
            installed_bytes: 22,
            net_bytes: 33,
            package_count: 4,
        }),
        orphans: Some(upkg::upgrade::OrphanSummary {
            count: 2,
            total_bytes: 99,
        }),
        mirror_url: Some("https://mirror.example.com/archlinux".to_string()),
        mirror_sync_age_seconds: Some(7200),
        installed_count: Some(1200),
        update_age_seconds: Some(5000),
        cache_bytes: Some(777),
        version: Some("Pacman v6.1.0 - libalpm v14.0.0".to_string()),
    }
}

#[test]
fn gather_never_populates_unrequested_fields() {
    let req = [StatId::Installed];
    let plan = probe_plan(&req);
    assert!(plan.installed);
    assert!(!plan.upgrade);
    assert!(!plan.orphans);
    assert!(!plan.mirror_url);
    assert!(!plan.mirror_sync);
    assert!(!plan.last_update);
    assert!(!plan.cache);

    let s = assemble_stats(&req, full_outcomes());
    assert_eq!(s.total_installed, 1200);
    assert_eq!(s.total_upgradable, 0);
    assert!(s.seconds_since_last_update.is_none());
    assert!(s.download_size_bytes.is_none());
    assert!(s.installed_size_bytes.is_none());
    assert!(s.net_upgrade_size_bytes.is_none());
    assert!(s.orphaned_packages.is_none());
    assert!(s.orphaned_size_bytes.is_none());
    assert!(s.cache_size_bytes.is_none());
    assert!(s.mirror_url.is_none());
    assert!(s.mirror_sync_age_seconds.is_none());
    assert_eq!(
        s.pacman_version.as_deref(),
        Some("Pacman v6.1.0 - libalpm v14.0.0")
    );
}

#[test]
fn gather_mirror_health_implies_mirror_url() {
    let req = [StatId::MirrorHealth];
    let plan = probe_plan(&req);
    assert!(plan.mirror_sync);
    assert!(plan.mirror_url);
    let s = assemble_stats(&req, full_outcomes());
    assert_eq!(
        s.mirror_url.as_deref(),
        Some("https://mirror.example.com/archlinux")
    );
    assert_eq!(s.mirror_sync_age_seconds, Some(7200));
}

#[test]
fn gather_fills_requested_upgrade_fields() {
    let req = [
        StatId::Upgradable,
        StatId::DownloadSize,
        StatId::InstalledSize,
        StatId::NetUpgradeSize,
    ];
    let s = assemble_stats(&req, full_outcomes());
    assert_eq!(s.total_upgradable, 4);
    assert_eq!(s.download_size_bytes, Some(11));
    assert_eq!(s.installed_size_bytes, Some(22));
    assert_eq!(s.net_upgrade_size_bytes, Some(33));
    assert_eq!(s.total_installed, 0);
}

#[test]
fn gather_failed_probe_leaves_fields_absent() {
    let mut oc = full_outcomes();
    oc.upgrade = None;
    let req = [StatId::Upgradable, StatId::DownloadSize];
    let s = assemble_stats(&req, oc);
    assert_eq!(s.total_upgradable, 0);
    assert!(s.download_size_bytes.is_none());
}

#[test]
fn dedup_keeps_each_kind_once() {
    let req = [
        StatId::Installed,
        StatId::CacheSize,
        StatId::Installed,
        StatId::MirrorUrl,
        StatId::CacheSize,
    ];
    let d = dedup_stats(&req);
    assert_eq!(
        d,
        vec![StatId::Installed, StatId::CacheSize, StatId::MirrorUrl]
    );
}

#[test]
fn default_request_lists_every_kind_in_display_order() {
    let d = default_stats();
    assert_eq!(d.len(), 10);
    assert_eq!(d[0], StatId::Installed);
    assert_eq!(d[9], StatId::MirrorHealth);
    assert_eq!(StatId::LastUpdate.label(), "Last System Update");
    assert_eq!(StatId::CacheSize.label(), "Package Cache");
}

#[test]
fn config_defaults_to_the_full_display_set() {
    let c = Config::default();
    assert_eq!(c.display.stats, default_stats());
    let d = DisplayConfig::default();
    assert_eq!(d.stats, default_stats());
}
