use staffmon::boot::{
    journal_boot_log_plan, journal_boot_record, journal_list_plan, login_reboot_plan,
    merge_boot_history, parse_journal_boots, parse_login_records,
};

#[test]
fn login_lines_rebuild_timestamps_from_fixed_positions() {
    let out = "reboot   system boot  5.15.0-generic   Mon Jan 15 10:02   still running\n\
               wtmp begins Sat Jan  1 00:00:01 2022\n";
    let recs = parse_login_records(out);
    assert_eq!(recs.len(), 1);
    assert_eq!(recs[0].timestamp, "5.15.0-generic Mon Jan");
    assert_eq!(recs[0].reason, Some("15 10:02 still running".to_string()));
}

#[test]
fn login_line_without_extra_tokens_has_no_reason() {
    let out = "reboot system boot 5.15.0 Mon Jan\n";
    // Six tokens exactly: timestamp positions are filled, nothing is left
    // for a reason.
    let recs = parse_login_records(out);
    assert_eq!(recs.len(), 1);
    assert_eq!(recs[0].timestamp, "5.15.0 Mon Jan");
    assert_eq!(recs[0].reason, None);
}

#[test]
fn short_tagged_lines_are_discarded() {
    let out = "reboot system boot\nreboot\n";
    assert_eq!(parse_login_records(out).len(), 0);
}

#[test]
fn journal_listing_skips_its_header() {
    let out = "IDX BOOT ID FIRST ENTRY LAST ENTRY\n\
               -1 aaaa 2024-01-10 09:00:00\n\
               0 bbbb 2024-01-15 08:30:00\n";
    let boots = parse_journal_boots(out);
    assert_eq!(boots.len(), 2);
    assert_eq!(boots[0].id, "-1");
    assert_eq!(boots[0].timestamp, "aaaa 2024-01-10");
    assert_eq!(boots[1].id, "0");
    assert_eq!(boots[1].timestamp, "bbbb 2024-01-15");
    assert_eq!(parse_journal_boots("").len(), 0);
}

#[test]
fn journal_reason_kept_only_when_the_last_line_mentions_a_shutdown() {
    let rec = journal_boot_record(
        "2024-01-15 08:30".to_string(),
        "Jan 15 08:29:59 host systemd[1]: Starting...\nJan 15 22:01:00 host systemd[1]: reboot: Power down\n",
    );
    assert_eq!(rec.timestamp, "2024-01-15 08:30");
    assert_eq!(
        rec.reason,
        Some("Jan 15 22:01:00 host systemd[1]: reboot: Power down".to_string())
    );
    let rec = journal_boot_record(
        "2024-01-15 08:30".to_string(),
        "Jan 15 08:29:59 host sshd[10]: session opened\n",
    );
    assert_eq!(rec.reason, None);
    let rec = journal_boot_record("stamp".to_string(), "");
    assert_eq!(rec.reason, None);
}

#[test]
fn merged_length_is_the_sum_of_both_sources() {
    let first = parse_login_records(
        "reboot system boot 5.15.0 Mon Jan 15\nreboot system boot 5.15.0 Tue Jan 16\n",
    );
    let second = vec![journal_boot_record("Mon Jan 15".to_string(), "")];
    assert_eq!(first.len(), 2);
    let merged = merge_boot_history(first, second);
    assert_eq!(merged.len(), 3);
    assert_eq!(merged[0].timestamp, "5.15.0 Mon Jan");
    assert_eq!(merged[2].timestamp, "Mon Jan 15");
}

#[test]
fn duplicates_across_sources_are_not_deduplicated() {
    let line = "reboot system boot 5.15.0 Mon Jan\n";
    let first = parse_login_records(line);
    let second = vec![journal_boot_record("5.15.0 Mon Jan".to_string(), "")];
    assert_eq!(first[0].timestamp, second[0].timestamp);
    assert_eq!(first[0].reason, second[0].reason);
    let merged = merge_boot_history(first, second);
    assert_eq!(merged.len(), 2);
    assert_eq!(merged[0].timestamp, merged[1].timestamp);
}

#[test]
fn history_plans_name_both_sources() {
    assert_eq!(login_reboot_plan().program, "last");
    assert_eq!(login_reboot_plan().args, vec!["reboot"]);
    assert_eq!(journal_list_plan().program, "journalctl");
    assert_eq!(journal_list_plan().args, vec!["--list-boots", "--no-pager"]);
    let p = journal_boot_log_plan("-1");
    assert_eq!(p.args, vec!["-b", "-1", "--no-pager"]);
}
