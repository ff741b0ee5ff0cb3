use herobot::logging::{
    action_title, audit_action, ban_moderator_text, ban_reason_text, delete_is_logged,
    deleted_is_logged,
    deleted_body, edit_is_logged, find_ban_entry, outside_ban_is_logged, role_difference,
    role_mentions, user_label, AuditEntry,
};
use herobot::purge::{
    bad_pattern_reply, compile_pattern, delete_chunks, deleted_reply, filters_summary, judge,
    nothing_matched_reply, purge_cutoff, Candidate, PurgeFilters, PurgeScan, Verdict,
};
use herobot::tickets::{
    check_add, check_remove, close_reason, may_close, next_ticket_number, opener_of, opener_text,
    opener_topic, opening_mentions, participants_text, pings_enabled, pings_setting,
    ticket_kind, ticket_overwrites, with_opener, Kind, Overwrite, Refusal, Target, ACCESS,
    press_outcome, ticket_press, PressOutcome, TicketPress,
    CATEGORY, VIEW_CHANNEL,
};

fn msg(id: u64, timestamp: i64, author: u64, content: &str) -> Candidate {
    Candidate {
        id,
        timestamp,
        pinned: false,
        author,
        author_bot: false,
        attachments: 0,
        embeds: 0,
        content: content.to_string(),
    }
}

fn no_filters() -> PurgeFilters {
    PurgeFilters { user: None, pattern: None, links: None, bots: None }
}

#[test]
fn ticket_channels_are_recognised() {
    assert_eq!(Kind::from_channel("userissue-12"), Some(Kind::UserIssue));
    assert_eq!(Kind::from_channel("bug-3"), Some(Kind::BugReport));
    assert_eq!(Kind::from_channel("bug-"), None);
    assert_eq!(Kind::from_channel("bug-1a"), None);
    assert_eq!(Kind::from_channel("bug-\u{0661}"), None);
    assert_eq!(Kind::from_channel("general"), None);
    assert_eq!(ticket_kind(Some(CATEGORY), "bug-1"), Some(Kind::BugReport));
    assert_eq!(ticket_kind(Some(1), "bug-1"), None);
    assert_eq!(ticket_kind(None, "bug-1"), None);
}

#[test]
fn ticket_names_round_trip() {
    for k in [Kind::UserIssue, Kind::BugReport] {
        for n in [1u64, 42, u64::MAX] {
            assert_eq!(Kind::from_channel(&k.channel_name(n)), Some(k));
        }
    }
    assert_eq!(Kind::UserIssue.channel_name(7), "userissue-7");
    assert_eq!(Kind::BugReport.counter_key(), "ticket_bug-");
    assert_eq!(Kind::UserIssue.name(), "User issue");
    assert_eq!(Kind::BugReport.role(), 1545893087031599145);
}

#[test]
fn ticket_openers_round_trip() {
    assert_eq!(opener_topic(5), "Opened by <@5>");
    assert_eq!(opener_of("Opened by <@123>"), Some(123));
    assert_eq!(opener_of(&opener_topic(u64::MAX)), Some(u64::MAX));
    assert_eq!(opener_of("Opened by <@+5>"), Some(5));
    assert_eq!(opener_of("Opened by <@abc>"), None);
    assert_eq!(opener_of("Opened by <@>"), None);
    assert_eq!(opener_of("opened by <@1>"), None);
    assert_eq!(opener_text(None), "unknown");
    assert_eq!(opener_text(Some(9)), "<@9>");
}

#[test]
fn ticket_overwrites_replace_inherited_ones() {
    let inherited = vec![
        Overwrite { allow: 1, deny: 2, target: Target::Role(100) },
        Overwrite { allow: 3, deny: 0, target: Target::Role(555) },
        Overwrite { allow: 0, deny: 8, target: Target::Member(7) },
    ];
    let r = ticket_overwrites(&inherited, 100, 200, 7, 9);
    assert_eq!(
        r,
        vec![
            Overwrite { allow: 3, deny: 0, target: Target::Role(555) },
            Overwrite { allow: 0, deny: VIEW_CHANNEL, target: Target::Role(100) },
            Overwrite { allow: ACCESS, deny: 0, target: Target::Role(200) },
            Overwrite { allow: ACCESS, deny: 0, target: Target::Member(7) },
            Overwrite { allow: ACCESS, deny: 0, target: Target::Member(9) },
        ]
    );
    assert_eq!(ACCESS, (1 << 10) | (1 << 11) | (1 << 16) | (1 << 15) | (1 << 14));
}

#[test]
fn ticket_access_checks() {
    assert_eq!(check_add(VIEW_CHANNEL), Err(Refusal::AlreadyHasAccess));
    assert_eq!(check_add(0), Ok(()));
    assert_eq!(check_remove(9, 9, Some(VIEW_CHANNEL)), Err(Refusal::RemovingBot));
    assert_eq!(check_remove(1, 9, None), Err(Refusal::NotMember));
    assert_eq!(check_remove(1, 9, Some(0)), Err(Refusal::AlreadyNoAccess));
    assert_eq!(check_remove(1, 9, Some(VIEW_CHANNEL | 8)), Err(Refusal::Administrator));
    assert_eq!(check_remove(1, 9, Some(VIEW_CHANNEL)), Ok(()));
    assert!(may_close(Some(1 << 40)));
    assert!(may_close(Some(8)));
    assert!(!may_close(Some(1 << 13)));
    assert!(!may_close(None));
    assert_eq!(Refusal::AlreadyHasAccess.message(), "User already has access to this ticket!");
    assert_eq!(Refusal::NotTicket.message(), "This isn't a ticket channel");
    assert_eq!(Refusal::NoAccess.message(), "No access");
}

#[test]
fn ticket_counters_and_pings() {
    assert_eq!(next_ticket_number(None), 1);
    assert_eq!(next_ticket_number(Some(41)), 42);
    assert!(pings_enabled(None));
    assert!(pings_enabled(Some("1")));
    assert!(!pings_enabled(Some("0")));
    assert!(pings_enabled(Some("00")));
    assert_eq!(pings_setting(true), "1");
    assert_eq!(pings_setting(false), "0");
    assert_eq!(opening_mentions(5, 6, true), "<@5> <@&6>");
    assert_eq!(opening_mentions(5, 6, false), "<@5>");
    assert_ne!(Kind::UserIssue.counter_key(), Kind::BugReport.counter_key());
    assert_eq!(Kind::UserIssue.counter_key(), "ticket_userissue-");
    assert_eq!(Kind::BugReport.counter_key(), "ticket_bug-");
    assert_ne!(Kind::UserIssue.channel_name(7), Kind::BugReport.channel_name(7));
}

#[test]
fn close_buttons_are_for_moderators_in_tickets() {
    assert_eq!(TicketPress::Close.id(), "ticket:close");
    assert_eq!(TicketPress::CloseWithReason.id(), "ticket:close_reason");
    assert_eq!(TicketPress::ReasonGiven.id(), "ticket:reason");
    assert_eq!(ticket_press("ticket:close", false), Some(TicketPress::Close));
    assert_eq!(ticket_press("ticket:close_reason", false), Some(TicketPress::CloseWithReason));
    assert_eq!(ticket_press("ticket:reason", true), Some(TicketPress::ReasonGiven));
    assert_eq!(ticket_press("ticket:reason", false), None);
    assert_eq!(ticket_press("ticket:close", true), None);
    assert_eq!(ticket_press("other", false), None);
    for p in [TicketPress::Close, TicketPress::CloseWithReason, TicketPress::ReasonGiven] {
        assert_eq!(press_outcome(p, false, true), PressOutcome::Refuse(Refusal::NoAccess));
        assert_eq!(press_outcome(p, true, false), PressOutcome::Refuse(Refusal::NotTicket));
    }
    assert_eq!(press_outcome(TicketPress::Close, true, true), PressOutcome::Close);
    assert_eq!(press_outcome(TicketPress::CloseWithReason, true, true), PressOutcome::AskReason);
    assert_eq!(press_outcome(TicketPress::ReasonGiven, true, true), PressOutcome::Close);
}

#[test]
fn closing_a_ticket() {
    assert_eq!(with_opener(vec![1, 2], Some(2)), vec![1, 2]);
    assert_eq!(with_opener(vec![1, 2], Some(3)), vec![1, 2, 3]);
    assert_eq!(with_opener(vec![], None), Vec::<u64>::new());
    assert_eq!(close_reason(None), "no reason specified");
    assert_eq!(close_reason(Some("   ".to_string())), "no reason specified");
    assert_eq!(close_reason(Some("  fixed  ".to_string())), "fixed");
    assert_eq!(close_reason(Some("x".repeat(600))).len(), 512);
    assert_eq!(participants_text(&vec![]), "none");
    assert_eq!(participants_text(&vec![1, 22]), "<@1> <@22>");
}

#[test]
fn purge_verdicts() {
    let f = no_filters();
    assert!(judge(&msg(1, 10, 5, "hi"), &f, 100) == Verdict::TooOld);
    let mut pinned = msg(1, 200, 5, "hi");
    pinned.pinned = true;
    assert!(judge(&pinned, &f, 100) == Verdict::Keep);
    assert!(judge(&msg(1, 200, 5, "hi"), &f, 100) == Verdict::Delete);
    let by_user = PurgeFilters { user: Some(6), ..no_filters() };
    assert!(judge(&msg(1, 200, 5, "hi"), &by_user, 100) == Verdict::Keep);
    assert!(judge(&msg(1, 200, 6, "hi"), &by_user, 100) == Verdict::Delete);
    let bots = PurgeFilters { bots: Some(true), ..no_filters() };
    assert!(judge(&msg(1, 200, 5, "hi"), &bots, 100) == Verdict::Keep);
    let links = PurgeFilters { links: Some(true), ..no_filters() };
    assert!(judge(&msg(1, 200, 5, "hi"), &links, 100) == Verdict::Keep);
    assert!(judge(&msg(1, 200, 5, "see https://x"), &links, 100) == Verdict::Delete);
    let mut with_file = msg(1, 200, 5, "hi");
    with_file.attachments = 1;
    assert!(judge(&with_file, &links, 100) == Verdict::Delete);
    let pattern = compile_pattern(Some("^b+ad$")).ok().unwrap();
    let re = PurgeFilters { pattern, ..no_filters() };
    assert!(judge(&msg(1, 200, 5, "BBad"), &re, 100) == Verdict::Delete);
    assert!(judge(&msg(1, 200, 5, "good"), &re, 100) == Verdict::Keep);
}

#[test]
fn purge_keeps_pins_counts_old_and_narrows_by_filters() {
    let every = PurgeFilters {
        user: Some(5),
        pattern: compile_pattern(Some("spam")).ok().unwrap(),
        links: Some(true),
        bots: Some(true),
    };
    let mut old_pinned = msg(1, 10, 5, "spam http");
    old_pinned.pinned = true;
    assert!(judge(&old_pinned, &every, 100) == Verdict::TooOld);
    assert!(judge(&old_pinned, &no_filters(), 100) == Verdict::TooOld);
    let mut pinned_bot = msg(2, 200, 5, "spam http");
    pinned_bot.pinned = true;
    pinned_bot.author_bot = true;
    assert!(judge(&pinned_bot, &every, 100) == Verdict::Keep);
    let mut bot = msg(3, 200, 5, "SPAM at http://x");
    bot.author_bot = true;
    assert!(judge(&bot, &every, 100) == Verdict::Delete);
    assert!(judge(&bot, &no_filters(), 100) == Verdict::Delete);
    bot.author = 6;
    assert!(judge(&bot, &every, 100) == Verdict::Keep);
    assert!(judge(&bot, &no_filters(), 100) == Verdict::Delete);
}

#[test]
fn purge_scan_pages_and_counts() {
    let f = no_filters();
    let mut s = PurgeScan::new(150);
    assert_eq!(s.next_request(), Some((100, None)));
    let first: Vec<Candidate> = (0..100).map(|i| msg(1000 - i, if i < 10 { 50 } else { 200 }, 1, "x")).collect();
    s.absorb(&first, &f, 100);
    assert_eq!(s.seen, 100);
    assert_eq!(s.too_old, 10);
    assert_eq!(s.targets.len(), 90);
    assert_eq!(s.next_request(), Some((50, Some(901))));
    s.absorb(&vec![], &f, 100);
    assert!(s.exhausted);
    assert_eq!(s.next_request(), None);
}

#[test]
fn purge_scan_stops_at_the_requested_count() {
    let f = no_filters();
    let mut s = PurgeScan::new(3);
    assert_eq!(s.next_request(), Some((3, None)));
    s.absorb(&vec![msg(3, 200, 1, "a"), msg(2, 200, 1, "b"), msg(1, 200, 1, "c")], &f, 100);
    assert_eq!(s.next_request(), None);
    assert_eq!(s.targets, vec![3, 2, 1]);
}

#[test]
fn deletions_go_in_hundreds() {
    let targets: Vec<u64> = (0..250).collect();
    let chunks = delete_chunks(&targets);
    assert_eq!(chunks.len(), 3);
    assert_eq!(chunks[0], (0..100).collect::<Vec<u64>>());
    assert_eq!(chunks[2], (200..250).collect::<Vec<u64>>());
    assert_eq!(delete_chunks(&vec![]).len(), 0);
    assert_eq!(delete_chunks(&vec![7]), vec![vec![7]]);
    assert_eq!(delete_chunks(&(0..200).collect()).len(), 2);
}

#[test]
fn purge_replies() {
    assert_eq!(nothing_matched_reply(40, 2), "Nothing matched (40 examined, 2 too old to bulk delete)");
    assert_eq!(deleted_reply(12, 40, 0), "Deleted 12 of 40 examined");
    assert_eq!(deleted_reply(12, 40, 3), "Deleted 12 of 40 examined (3 skipped, over 14 days old)");
    assert_eq!(filters_summary(None, None, None, None), "none");
    assert_eq!(filters_summary(None, None, Some(false), None), "none");
    assert_eq!(
        filters_summary(Some("bob#1"), Some("a.*"), Some(true), Some(true)),
        "user: bob#1, regex: `a.*`, links only, bots only"
    );
    assert_eq!(purge_cutoff(2_000_000), 2_000_000 - 14 * 86_400);
    let now = 2_000_000;
    let cutoff = purge_cutoff(now);
    let f = no_filters();
    assert!(judge(&msg(1, now - 14 * 86_400 + 300, 5, "x"), &f, cutoff) == Verdict::Delete);
    assert!(judge(&msg(1, now - 14 * 86_400, 5, "x"), &f, cutoff) == Verdict::Delete);
    assert!(judge(&msg(1, now - 14 * 86_400 - 1, 5, "x"), &f, cutoff) == Verdict::TooOld);
    match compile_pattern(Some("(")) {
        Err(e) => assert!(bad_pattern_reply(&e).starts_with("bad regex: ")),
        Ok(_) => panic!("accepted a bad pattern"),
    }
    assert!(matches!(compile_pattern(None), Ok(None)));
}

#[test]
fn log_entry_texts() {
    assert_eq!(action_title("Warn", Some(4)), "Warn - case #4");
    assert_eq!(action_title("Unmute", None), "Unmute");
    assert_eq!(user_label("bob#1", 77), "bob#1 `77`");
    assert_eq!(deleted_body(""), "*(no text)*");
    assert_eq!(deleted_body("gone"), "gone");
    assert_eq!(ban_moderator_text(None), "unknown");
    assert_eq!(ban_reason_text(None), "*(no reason given)*");
    assert_eq!(ban_reason_text(Some("raid")), "raid");
}

#[test]
fn log_filters() {
    assert!(delete_is_logged(true, 1, 2, None));
    assert!(!delete_is_logged(false, 1, 2, None));
    assert!(!delete_is_logged(true, 2, 2, None));
    assert!(!delete_is_logged(true, 1, 2, Some(1)));
    assert!(edit_is_logged(true, 1, 2, false, "a", "b"));
    assert!(!edit_is_logged(true, 1, 2, false, "a", "a"));
    assert!(!edit_is_logged(true, 1, 2, true, "a", "b"));
    assert!(!edit_is_logged(true, 2, 2, false, "a", "b"));
    assert!(deleted_is_logged(Some(false), false));
    assert!(!deleted_is_logged(Some(true), true));
    assert!(deleted_is_logged(None, true));
    assert!(!deleted_is_logged(None, false));
}

#[test]
fn role_changes() {
    let was = vec![1, 2, 3];
    let now = vec![2, 3, 4, 5];
    assert_eq!(role_difference(&was, &now), vec![4, 5]);
    assert_eq!(role_difference(&now, &was), vec![1]);
    assert_eq!(role_mentions(&vec![4, 5]), "<@&4> <@&5>");
    assert_eq!(role_mentions(&vec![]), "");
}

#[test]
fn outside_bans() {
    assert_eq!(audit_action(true), 22);
    assert_eq!(audit_action(false), 23);
    let entries = vec![
        AuditEntry { action: 22, target: Some(5), user: 1 },
        AuditEntry { action: 23, target: Some(6), user: 2 },
        AuditEntry { action: 23, target: Some(6), user: 3 },
    ];
    assert_eq!(find_ban_entry(&entries, 23, 6), Some(1));
    assert_eq!(find_ban_entry(&entries, 22, 6), None);
    assert!(!outside_ban_is_logged(Some(entries[0]), 1));
    assert!(outside_ban_is_logged(Some(entries[0]), 9));
    assert!(outside_ban_is_logged(None, 9));
    assert_eq!(ban_moderator_text(Some(entries[1])), "<@2>");
}
