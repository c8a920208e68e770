use upkg::classify::{filter_upgrade_line, should_print, FetchPacmanStats};
use upkg::progress::{DbSyncState, SyncProgress};
use upkg::pty::{PtyAction, PtySession, SyncSession};

#[test]
fn classifier_suppresses_duplicated_summaries_when_filtering() {
    assert!(!filter_upgrade_line(""));
    assert!(!filter_upgrade_line("   "));
    assert!(!filter_upgrade_line("Total Download Size:   102.33 MiB"));
    assert!(!filter_upgrade_line("Total Installed Size:  400.01 MiB"));
    assert!(!filter_upgrade_line("Net Upgrade Size:      1.20 MiB"));
    assert!(!filter_upgrade_line("resolving dependencies..."));
    assert!(!filter_upgrade_line("looking for conflicting packages..."));
    assert!(!filter_upgrade_line(":: Starting full system upgrade..."));
    assert!(filter_upgrade_line(
        "warning: example-pkg: ignoring package upgrade"
    ));
    assert!(filter_upgrade_line("Packages (3) glibc-2.39-1"));
}

#[test]
fn classifier_keeps_everything_when_filtering_is_off() {
    assert!(should_print("", false));
    assert!(should_print("Total Download Size:   102.33 MiB", false));
    assert!(should_print("anything at all", false));
    assert!(!should_print("Total Download Size: 1 MiB", true));
    assert!(should_print("warning: example-pkg: ignoring package upgrade", true));
}

#[test]
fn classifier_sees_through_color_sequences() {
    assert!(!filter_upgrade_line("\x1b[1mresolving dependencies...\x1b[0m"));
}

#[test]
fn stream_filter_keeps_empty_lines_for_spacing() {
    assert!(FetchPacmanStats::filter_pacman_line(""));
    assert!(FetchPacmanStats::filter_pacman_line("   "));
    assert!(!FetchPacmanStats::filter_pacman_line(
        "Total Download Size:   102.33 MiB"
    ));
    assert!(!FetchPacmanStats::filter_pacman_line("resolving dependencies..."));
    assert!(!FetchPacmanStats::filter_pacman_line(
        "looking for conflicting packages..."
    ));
    assert!(!FetchPacmanStats::filter_pacman_line("core downloading..."));
    assert!(!FetchPacmanStats::filter_pacman_line("extra downloading..."));
    assert!(!FetchPacmanStats::filter_pacman_line("multilib downloading..."));
    assert!(FetchPacmanStats::filter_pacman_line(
        ":: Proceed with installation? [Y/n]"
    ));
    assert!(FetchPacmanStats::filter_pacman_line("upgrading glibc..."));
}

#[test]
fn tracker_initial_state_formats_all_zero() {
    let p = SyncProgress::new();
    assert_eq!(p.format(), "core 0% | extra 0% | multilib 0%");
    assert_eq!(p.format(), "core 0% | extra 0% | multilib 0%");
}

#[test]
fn tracker_up_to_date_completes_only_that_slot() {
    let mut p = SyncProgress::new();
    p.update_from_line("core is up to date");
    assert_eq!(p.core, DbSyncState::Complete);
    assert_eq!(p.extra, DbSyncState::Syncing(0));
    assert_eq!(p.multilib, DbSyncState::Syncing(0));
}

#[test]
fn tracker_percent_updates_named_slot() {
    let mut p = SyncProgress::new();
    p.update_from_line("extra 57%");
    assert_eq!(p.extra, DbSyncState::Syncing(57));
    assert_eq!(p.core, DbSyncState::Syncing(0));
    p.update_from_line("multilib 100%");
    assert_eq!(p.multilib, DbSyncState::Complete);
    assert_eq!(p.format(), "core 0% | extra 57% | multilib \u{2713}");
}

#[test]
fn tracker_treats_percentages_at_or_over_one_hundred_as_complete() {
    let mut p = SyncProgress::new();
    p.update_from_line("core 150%");
    assert_eq!(p.core, DbSyncState::Complete);
    p.update_from_line("extra 300%");
    assert_eq!(p.extra, DbSyncState::Syncing(0));
}

#[test]
fn tracker_ignores_unknown_names_and_unparsed_lines() {
    let mut p = SyncProgress::new();
    p.update_from_line("community 88%");
    p.update_from_line("core");
    p.update_from_line("core abc%");
    p.update_from_line("downloading databases...");
    assert_eq!(p, SyncProgress::new());
}

#[test]
fn tracker_reads_colored_progress_lines() {
    let mut p = SyncProgress::new();
    p.update_from_line(" \x1b[32mcore\x1b[0m     129.8 KiB   506 KiB/s 00:00 45%");
    assert_eq!(p.core, DbSyncState::Syncing(45));
}

#[test]
fn tracker_mark_all_complete_forces_terminal_state() {
    let mut p = SyncProgress::new();
    p.update_from_line("extra 57%");
    p.mark_all_complete();
    assert_eq!(p.core, DbSyncState::Complete);
    assert_eq!(p.extra, DbSyncState::Complete);
    assert_eq!(p.multilib, DbSyncState::Complete);
}

#[test]
fn scripted_sync_session_completes_core_only() {
    let mut s = SyncSession::new();
    for c in "core 45%\n".chars() {
        s.feed_char(c);
    }
    assert_eq!(s.progress.core, DbSyncState::Syncing(45));
    for c in "core is up to date\n".chars() {
        s.feed_char(c);
    }
    s.flush();
    assert_eq!(s.progress.core, DbSyncState::Complete);
    assert_eq!(s.progress.extra, DbSyncState::Syncing(0));
    assert_eq!(s.progress.multilib, DbSyncState::Syncing(0));
}

#[test]
fn sync_session_treats_carriage_return_as_line_end() {
    let mut s = SyncSession::new();
    for c in "extra 31%\rextra 62%\r".chars() {
        s.feed_char(c);
    }
    assert_eq!(s.progress.extra, DbSyncState::Syncing(62));
}

#[test]
fn pty_session_emits_kept_lines_on_newline() {
    let mut s = PtySession::new(true);
    let mut printed: Vec<String> = Vec::new();
    for c in "upgrading glibc...\nresolving dependencies...\n".chars() {
        match s.feed_char(c) {
            PtyAction::PrintLine(l) => printed.push(l),
            PtyAction::Nothing => {}
            _ => panic!("unexpected action"),
        }
    }
    assert_eq!(printed, vec!["upgrading glibc...".to_string()]);
}

#[test]
fn pty_session_redraws_partial_lines_on_carriage_return() {
    let mut s = PtySession::new(false);
    let mut last = String::new();
    for c in "downloading 10%\r".chars() {
        if let PtyAction::Redraw(l) = s.feed_char(c) {
            last = l;
        }
    }
    assert_eq!(last, "downloading 10%");
    if let PtyAction::Redraw(_) = s.feed_char('\r') {
        panic!("empty buffer must not redraw");
    }
}

#[test]
fn pty_session_detects_yes_no_prompt_with_spacing() {
    let mut s = PtySession::new(true);
    let mut prompt: Option<(Option<String>, bool)> = None;
    for c in ":: Proceed with installation? [Y/n] ".chars() {
        if let PtyAction::Prompt { text, spacing } = s.feed_char(c) {
            prompt = Some((text, spacing));
        }
    }
    let (text, spacing) = prompt.expect("prompt not detected");
    assert_eq!(text.as_deref(), Some(":: Proceed with installation? [Y/n] "));
    assert!(spacing);
    let flushed = s.finish();
    assert!(flushed.is_none());
}

#[test]
fn pty_session_detects_labeled_prompt_without_spacing() {
    let mut s = PtySession::new(false);
    let mut prompt: Option<(Option<String>, bool)> = None;
    for c in ":: Enter a selection (default=all) [1-3]: ".chars() {
        if let PtyAction::Prompt { text, spacing } = s.feed_char(c) {
            prompt = Some((text, spacing));
        }
    }
    let (text, spacing) = prompt.expect("prompt not detected");
    assert_eq!(
        text.as_deref(),
        Some(":: Enter a selection (default=all) [1-3]: ")
    );
    assert!(!spacing);
}

#[test]
fn pty_session_finish_flushes_kept_remainder() {
    let mut s = PtySession::new(true);
    for c in "last words".chars() {
        s.feed_char(c);
    }
    assert_eq!(s.finish().as_deref(), Some("last words"));
    let mut quiet = PtySession::new(true);
    for c in "Total Download Size: 1 MiB".chars() {
        quiet.feed_char(c);
    }
    assert!(quiet.finish().is_none());
}
