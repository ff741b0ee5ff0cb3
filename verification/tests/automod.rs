use herobot::pattern::CiRegex;
use herobot::spam::{
    count_images, daily_name, day_number, honeypot_action, image_flood_reason, invite_filter,
    is_staff, mirror_content, needs_rename, route_message, today, HoneypotAction, ImageWindows,
    MessageFacts, Route, STAFF_PERMISSIONS,
};

fn facts(in_guild: bool, from_self: bool, in_honeypot: bool, from_bot: bool, from_staff: bool) -> MessageFacts {
    MessageFacts { in_guild, from_self, in_honeypot, from_bot, from_staff }
}

#[test]
fn day_numbers_round_toward_zero() {
    assert_eq!(day_number(0), 0);
    assert_eq!(day_number(86_399), 0);
    assert_eq!(day_number(3 * 86_400 + 5), 3);
    assert_eq!(day_number(-1), 0);
    assert_eq!(day_number(-86_400), -1);
    assert_eq!(day_number(i64::MIN), i64::MIN / 86_400);
    assert!(today() > 18_000);
}

#[test]
fn honeypot_name_is_ten_lowercase_alphanumerics() {
    for (g, d) in [(1u64, 0i64), (1551418015042768906, 20_000), (0, -5), (u64::MAX, i64::MAX)] {
        let n = daily_name(g, d);
        assert_eq!(n.chars().count(), 10);
        assert!(n.chars().all(|c| c.is_ascii_lowercase() || c.is_ascii_digit()), "{}", n);
        assert_eq!(n, daily_name(g, d));
    }
    assert_ne!(daily_name(5, 20_000), daily_name(5, 20_001));
}

#[test]
fn honeypot_names_for_known_days() {
    assert_eq!(daily_name(1, 0), "7f7rfbjvd0");
    assert_eq!(daily_name(987654321, 19_999), "5ybs71u28b");
    assert_eq!(daily_name(u64::MAX, -3), "s9zryyazxh");
    assert_eq!(daily_name(1551418015042768906, 20_000), "wv8uj9sqe0");
}

#[test]
fn rename_only_on_a_new_day() {
    assert!(needs_rename(None, 5));
    assert!(needs_rename(Some(4), 5));
    assert!(!needs_rename(Some(5), 5));
}

#[test]
fn staff_detection() {
    assert!(!is_staff(false, true, None));
    assert!(is_staff(true, true, None));
    assert!(!is_staff(true, false, None));
    assert!(!is_staff(true, false, Some(&vec![1 << 10, 1 << 11])));
    assert!(is_staff(true, false, Some(&vec![1 << 10, 1 << 40])));
    assert!(is_staff(true, false, Some(&vec![1 << 13])));
    assert!(is_staff(true, false, Some(&vec![8])));
    assert_eq!(STAFF_PERMISSIONS, 8 | 4 | 2 | (1 << 40) | (1 << 13));
}

#[test]
fn invite_links_are_found_without_regard_to_case() {
    let re = invite_filter().ok().expect("invite pattern compiles");
    assert!(re.is_match("join discord.gg/abc"));
    assert!(re.is_match("JOIN DISCORD.GG/ABC"));
    assert!(re.is_match("https://discordapp.com/invite/x-y_z"));
    assert!(!re.is_match("discord.gg/"));
    assert!(!re.is_match("hello there"));
}

#[test]
fn messages_are_routed() {
    let re = invite_filter().ok().unwrap();
    assert!(matches!(route_message(&facts(false, false, false, false, false), &re, "x"), Route::Ignore));
    assert!(matches!(route_message(&facts(true, true, true, false, false), &re, "x"), Route::Ignore));
    assert!(matches!(route_message(&facts(true, false, true, true, true), &re, "x"), Route::Honeypot));
    assert!(matches!(route_message(&facts(true, false, false, true, false), &re, "x"), Route::Ignore));
    assert!(matches!(route_message(&facts(true, false, false, false, true), &re, "discord.gg/a"), Route::MirrorOnly));
    assert!(matches!(route_message(&facts(true, false, false, false, false), &re, "discord.gg/a"), Route::MirrorThenInvite));
    assert!(matches!(route_message(&facts(true, false, false, false, false), &re, "hi"), Route::MirrorThenImages));
}

#[test]
fn honeypot_actions() {
    assert!(matches!(honeypot_action(true, true), HoneypotAction::DeleteOnly));
    assert!(matches!(honeypot_action(false, true), HoneypotAction::DeleteAndLog));
    assert!(matches!(honeypot_action(false, false), HoneypotAction::Ban));
}

#[test]
fn images_are_counted_by_content_type() {
    let types = vec![
        Some("image/png".to_string()),
        None,
        Some("video/mp4".to_string()),
        Some("image/".to_string()),
        Some("IMAGE/png".to_string()),
    ];
    assert_eq!(count_images(&types), 2);
    assert_eq!(count_images(&vec![]), 0);
}

#[test]
fn image_flood_trips_at_four_in_the_window() {
    let mut w = ImageWindows::new();
    assert!(!w.record(1, 1_000, 0));
    assert!(!w.record(1, 1_000, 3));
    assert!(!w.record(2, 1_500, 3));
    assert!(w.record(1, 2_000, 1));
    // the window was emptied by the flood
    assert!(!w.record(1, 2_100, 3));
    assert!(w.record(1, 2_200, 1));
}

#[test]
fn image_window_forgets_old_stamps() {
    let mut w = ImageWindows::new();
    assert!(!w.record(1, 0, 3));
    assert!(!w.record(1, 5_000, 1));
    assert!(!w.record(1, 5_000, 2));
    assert!(w.record(1, 5_001, 1));
    assert!(w.record(3, 0, 4));
}

#[test]
fn pruning_drops_expired_windows() {
    let mut w = ImageWindows::new();
    w.record(1, 0, 2);
    w.record(2, 4_000, 2);
    w.prune(6_000);
    // user 1's stamps expired; user 2 keeps two, so two more trip
    assert!(!w.record(1, 6_000, 3));
    assert!(w.record(2, 6_000, 2));
}

#[test]
fn mirrored_content_is_capped() {
    assert_eq!(mirror_content("hi"), "hi");
    assert_eq!(mirror_content(&"a".repeat(5000)).len(), 4000);
}

#[test]
fn image_flood_reason_text() {
    assert_eq!(image_flood_reason(), "4+ images within 5s");
}

#[test]
fn pattern_compile_errors_are_reported() {
    assert!(CiRegex::compile("(", 1 << 20).is_err());
    match CiRegex::compile("(", 1 << 20) {
        Err(e) => assert!(!e.message.is_empty()),
        Ok(_) => panic!("accepted a bad pattern"),
    }
    match CiRegex::compile("\\w{1000}", 1000) {
        Err(e) => assert_eq!(e.message, "Compiled regex exceeds size limit of 1000 bytes."),
        Ok(_) => panic!("accepted a pattern over the size limit"),
    }
    assert!(CiRegex::compile("spam", 1 << 20).ok().unwrap().is_match("SPAM"));
}
