use herobot::cmds::{
    active_mute, lock_overwrite, LOCK_DENY, ban_duration, ban_length_text, ban_purge_days, case_length, case_line, cases_filters,
    cases_limit, cases_listing, check_outranks, cleared_summary, expires_at, mute_duration,
    parse_user_id, precheck_target, reason_or_blank, record_line, records_listing, show,
    slowmode_interval, slowmode_reply, softban_purge_days, top_role, warn_reply, DurationError,
    HierarchyError, Kind, MAX_TIMEOUT,
};
use herobot::tickets::Target;
use herobot::records::{
    browse_query, cache_cutoff, epoch_reading, escape_like_text, now, now_ms, stored_u64, unban_wait, Cached,
    Record, SqlArg, CACHE_KEEP_DAYS,
};

fn record(id: i64, kind: &str, reason: &str, created: i64, expires: Option<i64>, undone: bool) -> Record {
    Record::from_row(id, 42, 7, kind.to_string(), reason.to_string(), created, expires, if undone { 1 } else { 0 })
}

fn arg_text(a: &SqlArg) -> String {
    match a {
        SqlArg::Text(s) => format!("T:{}", s),
        SqlArg::Int(i) => format!("I:{}", i),
    }
}

#[test]
fn record_from_row_reinterprets_ids() {
    let r = Record::from_row(3, -1, 5, "ban".to_string(), "r".to_string(), 100, Some(200), 2);
    assert_eq!(r.id, 3);
    assert_eq!(r.user_id, u64::MAX);
    assert_eq!(r.mod_id, 5);
    assert_eq!(r.kind, "ban");
    assert_eq!(r.expires, Some(200));
    assert!(r.undone);
    let r2 = Record::from_row(3, 1, 5, "ban".to_string(), String::new(), 100, None, 0);
    assert!(!r2.undone);
    let c = Cached::from_row(-2, "hi".to_string(), "a.png".to_string());
    assert_eq!(c.author_id, u64::MAX - 1);
    assert_eq!(c.content, "hi");
}

#[test]
fn stored_numbers_read_back() {
    assert_eq!(stored_u64(Some("42".to_string())), Some(42));
    assert_eq!(stored_u64(Some("x".to_string())), None);
    assert_eq!(stored_u64(Some(" 4".to_string())), None);
    assert_eq!(stored_u64(None), None);
}

#[test]
fn like_escaping_escapes_wildcards() {
    assert_eq!(escape_like_text("50%_a\\b"), "50\\%\\_a\\\\b");
    assert_eq!(escape_like_text("plain alt"), "plain alt");
    assert_eq!(escape_like_text(""), "");
}

#[test]
fn browse_query_without_filters() {
    let q = browse_query(None, None, None, 20);
    assert_eq!(
        q.sql,
        "select id, user_id, mod_id, kind, reason, created, expires, undone from records where 1 = 1 order by created desc limit ?"
    );
    let args: Vec<String> = q.args.iter().map(arg_text).collect();
    assert_eq!(args, vec!["I:20".to_string()]);
}

#[test]
fn browse_query_with_every_filter() {
    let q = browse_query(Some("ban".to_string()), Some(9), Some("alt_%".to_string()), 50);
    assert_eq!(
        q.sql,
        "select id, user_id, mod_id, kind, reason, created, expires, undone from records where 1 = 1 and kind = ? and mod_id = ? and reason like ? escape '\\' order by created desc limit ?"
    );
    let args: Vec<String> = q.args.iter().map(arg_text).collect();
    assert_eq!(args, vec!["T:ban", "I:9", "T:%alt\\_\\%%", "I:50"]);
}

#[test]
fn clock_reads_after_2020() {
    let s = now();
    assert!(s > 1_577_836_800);
    let ms = now_ms();
    assert!((ms / 1000 - s).abs() <= 5);
}

#[test]
fn epoch_readings_are_reinterpreted() {
    assert_eq!(epoch_reading(None), 0);
    assert_eq!(epoch_reading(Some(1_700_000_000)), 1_700_000_000);
    assert_eq!(epoch_reading(Some(u64::MAX as u128)), -1);
    assert_eq!(epoch_reading(Some(1u128 << 64)), 0);
}

#[test]
fn locks_and_running_mutes() {
    let locked = lock_overwrite(77, true);
    assert_eq!(locked.allow, 0);
    assert_eq!(locked.deny, (1u64 << 11) | (1u64 << 38) | (1u64 << 6));
    assert_eq!(locked.deny, LOCK_DENY);
    assert!(locked.target == Target::Role(77));
    let open = lock_overwrite(77, false);
    assert_eq!((open.allow, open.deny), (0, 0));
    assert!(open.target == Target::Role(77));
    assert_eq!(active_mute(Some(200), 100), Some(200));
    assert_eq!(active_mute(Some(100), 100), None);
    assert_eq!(active_mute(Some(50), 100), None);
    assert_eq!(active_mute(None, 100), None);
}

#[test]
fn unban_wait_is_clamped() {
    assert_eq!(unban_wait(None, 100), 3600);
    assert_eq!(unban_wait(Some(50), 100), 1);
    assert_eq!(unban_wait(Some(130), 100), 30);
    assert_eq!(unban_wait(Some(100_000), 100), 3600);
    assert_eq!(unban_wait(Some(i64::MAX), i64::MIN), 3600);
    assert_eq!(unban_wait(Some(i64::MIN), i64::MAX), 1);
}

#[test]
fn cache_cutoff_is_two_weeks_back() {
    assert_eq!(cache_cutoff(2_000_000, CACHE_KEEP_DAYS), 2_000_000 - 1_209_600);
}

#[test]
fn kinds_have_keys_and_names() {
    assert_eq!(Kind::Warn.key(), "warn");
    assert_eq!(Kind::ImageSpam.key(), "imagespam");
    assert_eq!(Kind::ImageSpam.name(), "image spam");
    assert_eq!(Kind::Softban.name(), "Softban");
    let all = [Kind::Warn, Kind::Note, Kind::Mute, Kind::Kick, Kind::Ban, Kind::Softban, Kind::Invite, Kind::ImageSpam];
    for a in all.iter() {
        for b in all.iter() {
            assert_eq!(a.key() == b.key(), a == b);
        }
    }
}

#[test]
fn reasons_are_clamped_and_shown() {
    assert_eq!(reason_or_blank(None), "");
    assert_eq!(reason_or_blank(Some("spam".to_string())), "spam");
    assert_eq!(reason_or_blank(Some("a".repeat(700))).len(), 512);
    assert_eq!(show(""), "*(no reason given)*");
    assert_eq!(show("raid"), "raid");
}

#[test]
fn hierarchy_checks() {
    assert_eq!(precheck_target(1, 1, 2), Err(HierarchyError::TargetIsBot));
    assert_eq!(precheck_target(2, 1, 2), Err(HierarchyError::TargetIsSelf));
    assert_eq!(precheck_target(3, 1, 2), Ok(()));
    assert_eq!(top_role(&vec![]), -1);
    assert_eq!(top_role(&vec![3, 9, 4]), 9);
    assert_eq!(check_outranks(false, &vec![5], &vec![4]), Ok(()));
    assert_eq!(check_outranks(false, &vec![5], &vec![5]), Err(HierarchyError::Outranked));
    assert_eq!(check_outranks(false, &vec![], &vec![]), Err(HierarchyError::Outranked));
    assert_eq!(check_outranks(true, &vec![], &vec![9]), Ok(()));
    assert_eq!(HierarchyError::Outranked.message(), "that user is at or above you in the role list");
    assert_eq!(HierarchyError::TargetIsBot.message(), "that's me");
    assert_eq!(HierarchyError::TargetIsSelf.message(), "that's you");
}

#[test]
fn mute_and_ban_lengths() {
    assert_eq!(mute_duration("2h"), Ok(7200));
    assert_eq!(mute_duration("28d"), Ok(MAX_TIMEOUT));
    assert_eq!(mute_duration("29d"), Err(DurationError::TooLong));
    assert_eq!(mute_duration("soon"), Err(DurationError::BadMute));
    assert_eq!(ban_duration(None), Ok(None));
    assert_eq!(ban_duration(Some("7d")), Ok(Some(604_800)));
    assert_eq!(ban_duration(Some("7x")), Err(DurationError::BadBan));
    assert_eq!(DurationError::TooLong.message(), "Discord caps timeouts at 28 days");
    assert_eq!(DurationError::BadBan.message(), "bad duration, try 7d / 12h / 1d12h");
    assert_eq!(
        DurationError::BadMute.message(),
        "bad duration, try 30m / 2h / 1d12h (bare numbers mean minutes)"
    );
    assert_eq!(ban_length_text(None), "permanent");
    assert_eq!(ban_length_text(Some(43_200)), "12h");
    assert_eq!(expires_at(1_000, 60), 1_060);
    assert_eq!(ban_purge_days(None), 0);
    assert_eq!(softban_purge_days(None), 1);
    assert_eq!(softban_purge_days(Some(7)), 7);
}

#[test]
fn user_ids_are_trimmed_and_parsed() {
    assert_eq!(parse_user_id(" 123456789012345678 "), Some(123456789012345678));
    assert_eq!(parse_user_id("<@1>"), None);
    assert_eq!(parse_user_id(""), None);
}

#[test]
fn replies_read_as_expected() {
    assert_eq!(warn_reply("bob#1", 12, 1, true), "Warned bob#1 \u{2014} case #12 (1 record)");
    assert_eq!(
        warn_reply("bob#1", 13, 2, false),
        "Warned bob#1 \u{2014} case #13 (2 records) \u{2014} DM failed"
    );
    assert_eq!(slowmode_reply(0), "Slowmode off");
    assert_eq!(slowmode_reply(30), "Slowmode set to 30s");
    assert_eq!(slowmode_interval(0), "off");
    assert_eq!(slowmode_interval(21600), "21600s");
}

#[test]
fn record_listing_lines() {
    let timed = record(5, "mute", "", 1_000, Some(4_600), false);
    assert_eq!(record_line(&timed), "`#5` **mute** [1h] by <@7> <t:1000:R>\n*(no reason given)*");
    let lifted = record(6, "ban", "raid", 1_000, Some(87_400), true);
    assert_eq!(record_line(&lifted), "`#6` **ban** [1d - lifted] by <@7> <t:1000:R>\nraid");
    let plain = record(7, "warn", "spam", 50, None, false);
    assert_eq!(record_line(&plain), "`#7` **warn** by <@7> <t:50:R>\nspam");
    assert_eq!(
        records_listing(&vec![plain, timed]),
        "`#7` **warn** by <@7> <t:50:R>\nspam\n\n`#5` **mute** [1h] by <@7> <t:1000:R>\n*(no reason given)*"
    );
    assert_eq!(records_listing(&vec![]), "");
}

#[test]
fn case_listing_lines() {
    let r = record(9, "kick", "rude", 77, None, false);
    assert_eq!(case_line(&r), "`#9` **kick** <@42> - <t:77:R> by <@7>\nrude");
    assert_eq!(cases_listing(&vec![record(1, "note", "", 1, None, false)]), "`#1` **note** <@42> - <t:1:R> by <@7>\n*(no reason given)*");
    assert_eq!(case_length(0, 90, false), "1m30s");
    assert_eq!(case_length(0, 90, true), "1m30s (lifted)");
    assert_eq!(cases_filters(None, None, None), "");
    assert_eq!(
        cases_filters(Some(Kind::Ban), Some("mod#2"), Some("alt")),
        "kind: ban - by: mod#2 - reason contains: alt"
    );
    assert_eq!(cases_limit(None), 20);
    assert_eq!(cases_limit(Some(50)), 50);
}

#[test]
fn cleared_summary_counts_older_records() {
    let rows = vec![record(1, "warn", "a", 1, None, false), record(2, "note", "", 2, None, false)];
    assert_eq!(cleared_summary(&rows, 2), "`#1` warn \u{2014} a\n`#2` note \u{2014} *(no reason given)*");
    assert_eq!(
        cleared_summary(&rows, 30),
        "`#1` warn \u{2014} a\n`#2` note \u{2014} *(no reason given)*\n\u{2026} and 28 older"
    );
    assert_eq!(cleared_summary(&vec![], 0), "");
}
