//! Moderator commands: case kinds, reasons, who may act on whom, punishment
//! lengths, and the text of the replies and record listings.
use vstd::prelude::*;
use crate::records::{opt_view, Record};
use crate::tickets::{Overwrite, Target};
use crate::text::{
    chars_of, decimal, decimal_int, joined, parse_u64, parsed_u64, push_i64, push_str, push_u64,
    strings_view, trim, trimmed, join,
};
use crate::util::{clamp_reason, duration_secs, duration_text, first_chars, fmt_duration, parse_duration};
use vstd::string::StringExecFns;

verus! {

broadcast use {vstd::string::group_string_axioms, vstd::seq::group_seq_axioms};

/// The longest timeout Discord allows: 28 days.
pub const MAX_TIMEOUT: i64 = 2419200;

// ----------------------------------------------------------------------
// Kinds and reasons
// ----------------------------------------------------------------------

/// The kind of action a case records.
#[derive(Clone, Copy, PartialEq, Eq, Debug, Structural)]
pub enum Kind {
    Warn,
    Note,
    Mute,
    Kick,
    Ban,
    Softban,
    Invite,
    ImageSpam,
}

pub open spec fn kind_key(k: Kind) -> Seq<char> {
    match k {
        Kind::Warn => "warn"@,
        Kind::Note => "note"@,
        Kind::Mute => "mute"@,
        Kind::Kick => "kick"@,
        Kind::Ban => "ban"@,
        Kind::Softban => "softban"@,
        Kind::Invite => "invite"@,
        Kind::ImageSpam => "imagespam"@,
    }
}

impl Kind {
    /// The kind as it is stored in a record.
    pub fn key(&self) -> (r: &'static str)
        ensures
            r@ == kind_key(*self),
    {
        match self {
            Kind::Warn => "warn",
            Kind::Note => "note",
            Kind::Mute => "mute",
            Kind::Kick => "kick",
            Kind::Ban => "ban",
            Kind::Softban => "softban",
            Kind::Invite => "invite",
            Kind::ImageSpam => "imagespam",
        }
    }

    /// The kind as moderators pick it.
    pub fn name(&self) -> (r: &'static str)
        ensures
            r@ == match *self {
                Kind::Warn => "Warn"@,
                Kind::Note => "Note"@,
                Kind::Mute => "Mute"@,
                Kind::Kick => "Kick"@,
                Kind::Ban => "Ban"@,
                Kind::Softban => "Softban"@,
                Kind::Invite => "Invite"@,
                Kind::ImageSpam => "image spam"@,
            },
    {
        match self {
            Kind::Warn => "Warn",
            Kind::Note => "Note",
            Kind::Mute => "Mute",
            Kind::Kick => "Kick",
            Kind::Ban => "Ban",
            Kind::Softban => "Softban",
            Kind::Invite => "Invite",
            Kind::ImageSpam => "image spam",
        }
    }
}

/// Different kinds are stored under different keys.
pub proof fn lemma_kind_keys_distinct(a: Kind, b: Kind)
    requires
        a != b,
    ensures
        kind_key(a) != kind_key(b),
{
    reveal_strlit("warn");
    reveal_strlit("note");
    reveal_strlit("mute");
    reveal_strlit("kick");
    reveal_strlit("ban");
    reveal_strlit("softban");
    reveal_strlit("invite");
    reveal_strlit("imagespam");
    let ka = kind_key(a);
    let kb = kind_key(b);
    if ka.len() == kb.len() {
        if ka[0] == kb[0] {
            assert(ka[1] != kb[1]);
        } else {
            assert(ka[0] != kb[0]);
        }
    }
}

/// A reason given with a command, clamped; none is the empty reason.
pub fn reason_or_blank(r: Option<String>) -> (out: String)
    ensures
        out@ == match opt_view(r) {
            Some(s) => first_chars(s, 512),
            None => Seq::<char>::empty(),
        },
{
    match r {
        Some(s) => clamp_reason(s.as_str()),
        None => String::new(),
    }
}

/// Shown in place of an empty reason.
pub open spec fn no_reason_text() -> Seq<char> {
    "*(no reason given)*"@
}

/// A reason as shown: the placeholder when it is empty.
pub fn show(reason: &str) -> (r: &str)
    ensures
        r@ == if reason@.len() == 0 {
            no_reason_text()
        } else {
            reason@
        },
{
    if reason.is_empty() {
        "*(no reason given)*"
    } else {
        reason
    }
}

// ----------------------------------------------------------------------
// Who may act on whom
// ----------------------------------------------------------------------

/// The highest role position among a member's roles, or -1 with none.
pub open spec fn top_position(positions: Seq<i64>) -> i64
    decreases positions.len(),
{
    if positions.len() == 0 {
        -1i64
    } else {
        let rest = top_position(positions.drop_last());
        if positions.last() > rest {
            positions.last()
        } else {
            rest
        }
    }
}

/// The position of a member's highest role.
pub fn top_role(positions: &Vec<i64>) -> (r: i64)
    ensures
        r == top_position(positions@),
{
    let mut best: i64 = -1;
    let mut i: usize = 0;
    while i < positions.len()
        invariant
            i <= positions@.len(),
            best == top_position(positions@.take(i as int)),
        decreases positions@.len() - i,
    {
        assert(positions@.take(i + 1).drop_last() =~= positions@.take(i as int));
        if positions[i] > best {
            best = positions[i];
        }
        i = i + 1;
    }
    assert(positions@.take(positions@.len() as int) =~= positions@);
    best
}

/// The top position is at least every position, and is one of them when there
/// are any.
pub proof fn lemma_top_position(positions: Seq<i64>)
    ensures
        forall|i: int| 0 <= i < positions.len() ==> #[trigger] positions[i] <= top_position(positions),
        positions.len() == 0 ==> top_position(positions) == -1,
        positions.len() > 0 ==> top_position(positions) == -1 || positions.contains(
            top_position(positions),
        ),
    decreases positions.len(),
{
    if positions.len() > 0 {
        let front = positions.drop_last();
        lemma_top_position(front);
        assert forall|i: int| 0 <= i < positions.len() implies #[trigger] positions[i]
            <= top_position(positions) by {
            if i < positions.len() - 1 {
                assert(positions[i] == front[i]);
            }
        }
        if top_position(positions) != -1 && top_position(positions) != positions.last() {
            let k = choose|k: int| 0 <= k < front.len() && front[k] == top_position(front);
            assert(positions[k] == front[k]);
        }
        if top_position(positions) == positions.last() {
            assert(positions[positions.len() - 1] == positions.last());
        }
    }
}

/// Why a moderator may not act on someone.
#[derive(Clone, Copy, PartialEq, Eq, Debug, Structural)]
pub enum HierarchyError {
    /// The target is the bot.
    TargetIsBot,
    /// The target is the moderator.
    TargetIsSelf,
    /// The target is at or above the moderator in the role list.
    Outranked,
}

impl HierarchyError {
    pub fn message(self) -> (r: &'static str)
        ensures
            r@ == match self {
                HierarchyError::TargetIsBot => "that's me"@,
                HierarchyError::TargetIsSelf => "that's you"@,
                HierarchyError::Outranked => "that user is at or above you in the role list"@,
            },
    {
        match self {
            HierarchyError::TargetIsBot => "that's me",
            HierarchyError::TargetIsSelf => "that's you",
            HierarchyError::Outranked => "that user is at or above you in the role list",
        }
    }
}

/// The checks made before anything is fetched: never the bot, never oneself.
pub fn precheck_target(target: u64, bot: u64, author: u64) -> (r: Result<(), HierarchyError>)
    ensures
        r == if target == bot {
            Err::<(), HierarchyError>(HierarchyError::TargetIsBot)
        } else if target == author {
            Err(HierarchyError::TargetIsSelf)
        } else {
            Ok(())
        },
{
    if target == bot {
        Err(HierarchyError::TargetIsBot)
    } else if target == author {
        Err(HierarchyError::TargetIsSelf)
    } else {
        Ok(())
    }
}

/// Whether a moderator outranks a target that is in the server: the guild owner
/// always does, anyone else needs a strictly higher top role.
pub fn check_outranks(author_is_owner: bool, author_positions: &Vec<i64>, target_positions: &Vec<i64>) -> (r: Result<(), HierarchyError>)
    ensures
        r == if author_is_owner || top_position(author_positions@) > top_position(target_positions@) {
            Ok::<(), HierarchyError>(())
        } else {
            Err(HierarchyError::Outranked)
        },
{
    if author_is_owner || top_role(author_positions) > top_role(target_positions) {
        Ok(())
    } else {
        Err(HierarchyError::Outranked)
    }
}

// ----------------------------------------------------------------------
// How long
// ----------------------------------------------------------------------

/// Why a duration was refused.
#[derive(Clone, Copy, PartialEq, Eq, Debug, Structural)]
pub enum DurationError {
    /// A mute length that does not read as a duration.
    BadMute,
    /// A ban length that does not read as a duration.
    BadBan,
    /// Longer than Discord's timeout cap.
    TooLong,
}

impl DurationError {
    pub fn message(self) -> (r: &'static str)
        ensures
            r@ == match self {
                DurationError::BadMute => "bad duration, try 30m / 2h / 1d12h (bare numbers mean minutes)"@,
                DurationError::BadBan => "bad duration, try 7d / 12h / 1d12h"@,
                DurationError::TooLong => "Discord caps timeouts at 28 days"@,
            },
    {
        match self {
            DurationError::BadMute => "bad duration, try 30m / 2h / 1d12h (bare numbers mean minutes)",
            DurationError::BadBan => "bad duration, try 7d / 12h / 1d12h",
            DurationError::TooLong => "Discord caps timeouts at 28 days",
        }
    }
}

/// The length of a mute: it must read as a duration and be at most 28 days.
pub fn mute_duration(input: &str) -> (r: Result<i64, DurationError>)
    ensures
        r == match duration_secs(input@) {
            None => Err::<i64, DurationError>(DurationError::BadMute),
            Some(s) => if s > MAX_TIMEOUT {
                Err(DurationError::TooLong)
            } else {
                Ok(s)
            },
        },
{
    match parse_duration(input) {
        None => Err(DurationError::BadMute),
        Some(s) => if s > MAX_TIMEOUT {
            Err(DurationError::TooLong)
        } else {
            Ok(s)
        },
    }
}

/// The length of a ban: none means permanent; a given one must read as a duration.
pub fn ban_duration(input: Option<&str>) -> (r: Result<Option<i64>, DurationError>)
    ensures
        r == match input {
            None => Ok::<Option<i64>, DurationError>(None),
            Some(d) => match duration_secs(d@) {
                None => Err(DurationError::BadBan),
                Some(s) => Ok(Some(s)),
            },
        },
{
    match input {
        None => Ok(None),
        Some(d) => match parse_duration(d) {
            None => Err(DurationError::BadBan),
            Some(s) => Ok(Some(s)),
        },
    }
}

/// A ban's length as people read it.
pub fn ban_length_text(secs: Option<i64>) -> (r: String)
    ensures
        r@ == match secs {
            Some(s) => duration_text(s as int),
            None => "permanent"@,
        },
{
    match secs {
        Some(s) => fmt_duration(s),
        None => String::from_str("permanent"),
    }
}

/// When a punishment of `secs` seconds given at `now` ends.
pub fn expires_at(now: i64, secs: i64) -> (r: i64)
    requires
        i64::MIN <= now + secs <= i64::MAX,
    ensures
        r == now + secs,
{
    now + secs
}

/// A user id typed by a moderator: surrounding whitespace is ignored.
pub fn parse_user_id(s: &str) -> (r: Option<u64>)
    ensures
        r == parsed_u64(trimmed(s@)),
{
    parse_u64(&trim(&chars_of(s)))
}

/// Messages deleted with a ban, in days: 0 unless given.
pub fn ban_purge_days(given: Option<u8>) -> (r: u8)
    ensures
        r == match given {
            Some(d) => d,
            None => 0,
        },
{
    match given {
        Some(d) => d,
        None => 0,
    }
}

/// Messages deleted with a softban, in days: 1 unless given.
pub fn softban_purge_days(given: Option<u8>) -> (r: u8)
    ensures
        r == match given {
            Some(d) => d,
            None => 1,
        },
{
    match given {
        Some(d) => d,
        None => 1,
    }
}

// ----------------------------------------------------------------------
// Replies
// ----------------------------------------------------------------------

pub open spec fn warn_reply_text(tag: Seq<char>, case: i64, total: i64, dm_ok: bool) -> Seq<char> {
    "Warned "@ + tag + " \u{2014} case #"@ + decimal_int(case as int) + " ("@ + decimal_int(
        total as int,
    ) + " record"@ + (if total == 1 {
        Seq::<char>::empty()
    } else {
        "s"@
    }) + ")"@ + if dm_ok {
        Seq::<char>::empty()
    } else {
        " \u{2014} DM failed"@
    }
}

/// The reply to a warning: its case number, how many records the user now has,
/// and whether the DM failed.
pub fn warn_reply(tag: &str, case: i64, total: i64, dm_ok: bool) -> (r: String)
    ensures
        r@ == warn_reply_text(tag@, case, total, dm_ok),
{
    let mut r = String::from_str("Warned ");
    push_str(&mut r, tag);
    push_str(&mut r, " \u{2014} case #");
    push_i64(&mut r, case);
    push_str(&mut r, " (");
    push_i64(&mut r, total);
    push_str(&mut r, " record");
    let ghost a = r@;
    if total != 1 {
        push_str(&mut r, "s");
    }
    assert(r@ =~= a + (if total == 1 {
        Seq::<char>::empty()
    } else {
        "s"@
    }));
    push_str(&mut r, ")");
    let ghost b = r@;
    if !dm_ok {
        push_str(&mut r, " \u{2014} DM failed");
    }
    assert(r@ =~= b + (if dm_ok {
        Seq::<char>::empty()
    } else {
        " \u{2014} DM failed"@
    }));
    r
}

pub open spec fn slowmode_reply_text(seconds: u16) -> Seq<char> {
    if seconds == 0 {
        "Slowmode off"@
    } else {
        "Slowmode set to "@ + decimal(seconds as nat) + "s"@
    }
}

/// The reply to a slowmode change.
pub fn slowmode_reply(seconds: u16) -> (r: String)
    ensures
        r@ == slowmode_reply_text(seconds),
{
    if seconds == 0 {
        String::from_str("Slowmode off")
    } else {
        let mut r = String::from_str("Slowmode set to ");
        push_u64(&mut r, seconds as u64);
        push_str(&mut r, "s");
        r
    }
}

/// The interval as the log shows it.
pub fn slowmode_interval(seconds: u16) -> (r: String)
    ensures
        r@ == if seconds == 0 {
            "off"@
        } else {
            decimal(seconds as nat) + "s"@
        },
{
    if seconds == 0 {
        String::from_str("off")
    } else {
        let mut r = String::new();
        push_u64(&mut r, seconds as u64);
        push_str(&mut r, "s");
        r
    }
}

// ----------------------------------------------------------------------
// Channel locks and mutes
// ----------------------------------------------------------------------

/// What a lock takes from everyone: Send Messages, Send Messages in Threads
/// and Add Reactions.
pub const LOCK_DENY: u64 = 274877909056;

/// The overwrite for the guild's own role (everyone) that locks a channel, or,
/// when unlocking, resets it to neutral.
pub fn lock_overwrite(guild: u64, locked: bool) -> (r: Overwrite)
    ensures
        r == (Overwrite {
            allow: 0,
            deny: if locked {
                LOCK_DENY
            } else {
                0
            },
            target: Target::Role(guild),
        }),
{
    Overwrite {
        allow: 0,
        deny: if locked {
            LOCK_DENY
        } else {
            0
        },
        target: Target::Role(guild),
    }
}

/// The end of a timeout still running at `now`, if there is one.
pub fn active_mute(until: Option<i64>, now: i64) -> (r: Option<i64>)
    ensures
        r == match until {
            Some(u) => if u > now {
                Some(u)
            } else {
                None
            },
            None => None,
        },
{
    match until {
        Some(u) => if u > now {
            Some(u)
        } else {
            None
        },
        None => None,
    }
}

// ----------------------------------------------------------------------
// Record listings
// ----------------------------------------------------------------------

/// A reason as shown.
pub open spec fn shown(reason: Seq<char>) -> Seq<char> {
    if reason.len() == 0 {
        no_reason_text()
    } else {
        reason
    }
}

/// Whether a record's length can be worked out without overflow.
pub open spec fn length_fits(r: Record) -> bool {
    match r.expires {
        Some(e) => i64::MIN <= e - r.created <= i64::MAX,
        None => true,
    }
}

/// The length of a timed record and whether it was lifted, as the listing shows it.
pub open spec fn length_note_text(r: Record) -> Seq<char> {
    match r.expires {
        Some(e) => " ["@ + duration_text(e - r.created) + if r.undone {
            " - lifted]"@
        } else {
            "]"@
        },
        None => Seq::<char>::empty(),
    }
}

/// One entry of `/records`: number, kind, length, moderator, relative time, and
/// the reason on the next line.
pub open spec fn record_line_text(r: Record) -> Seq<char> {
    "`#"@ + decimal_int(r.id as int) + "` **"@ + r.kind@ + "**"@ + length_note_text(r) + " by <@"@
        + decimal(r.mod_id as nat) + "> <t:"@ + decimal_int(r.created as int) + ":R>\n"@ + shown(
        r.reason@,
    )
}

fn push_shown(out: &mut String, reason: &str)
    ensures
        final(out)@ == old(out)@ + shown(reason@),
{
    let s = show(reason);
    push_str(out, s);
}

/// An entry of the `/records` listing.
pub fn record_line(r: &Record) -> (out: String)
    requires
        length_fits(*r),
    ensures
        out@ == record_line_text(*r),
{
    let mut out = String::from_str("`#");
    push_i64(&mut out, r.id);
    push_str(&mut out, "` **");
    push_str(&mut out, r.kind.as_str());
    push_str(&mut out, "**");
    let ghost a = out@;
    match r.expires {
        Some(e) => {
            push_str(&mut out, " [");
            let d = fmt_duration(e - r.created);
            push_str(&mut out, d.as_str());
            if r.undone {
                push_str(&mut out, " - lifted]");
            } else {
                push_str(&mut out, "]");
            }
        },
        None => {},
    }
    assert(out@ =~= a + length_note_text(*r));
    push_str(&mut out, " by <@");
    push_u64(&mut out, r.mod_id);
    push_str(&mut out, "> <t:");
    push_i64(&mut out, r.created);
    push_str(&mut out, ":R>\n");
    push_shown(&mut out, r.reason.as_str());
    out
}

/// One entry of `/cases`: number, kind, user, relative time, moderator, and the
/// reason on the next line.
pub open spec fn case_line_text(r: Record) -> Seq<char> {
    "`#"@ + decimal_int(r.id as int) + "` **"@ + r.kind@ + "** <@"@ + decimal(r.user_id as nat)
        + "> - <t:"@ + decimal_int(r.created as int) + ":R> by <@"@ + decimal(r.mod_id as nat)
        + ">\n"@ + shown(r.reason@)
}

/// An entry of the `/cases` listing.
pub fn case_line(r: &Record) -> (out: String)
    ensures
        out@ == case_line_text(*r),
{
    let mut out = String::from_str("`#");
    push_i64(&mut out, r.id);
    push_str(&mut out, "` **");
    push_str(&mut out, r.kind.as_str());
    push_str(&mut out, "** <@");
    push_u64(&mut out, r.user_id);
    push_str(&mut out, "> - <t:");
    push_i64(&mut out, r.created);
    push_str(&mut out, ":R> by <@");
    push_u64(&mut out, r.mod_id);
    push_str(&mut out, ">\n");
    push_shown(&mut out, r.reason.as_str());
    out
}

/// One entry of what `/clearrecords` destroyed: number, kind and reason.
pub open spec fn cleared_line_text(r: Record) -> Seq<char> {
    "`#"@ + decimal_int(r.id as int) + "` "@ + r.kind@ + " \u{2014} "@ + shown(r.reason@)
}

pub fn cleared_line(r: &Record) -> (out: String)
    ensures
        out@ == cleared_line_text(*r),
{
    let mut out = String::from_str("`#");
    push_i64(&mut out, r.id);
    push_str(&mut out, "` ");
    push_str(&mut out, r.kind.as_str());
    push_str(&mut out, " \u{2014} ");
    push_shown(&mut out, r.reason.as_str());
    out
}

/// A case's length for `/case view`, marked when it was lifted.
pub open spec fn case_length_text(created: i64, expires: i64, undone: bool) -> Seq<char> {
    duration_text(expires - created) + if undone {
        " (lifted)"@
    } else {
        Seq::<char>::empty()
    }
}

pub fn case_length(created: i64, expires: i64, undone: bool) -> (out: String)
    requires
        i64::MIN <= expires - created <= i64::MAX,
    ensures
        out@ == case_length_text(created, expires, undone),
{
    let mut out = fmt_duration(expires - created);
    let ghost a = out@;
    if undone {
        push_str(&mut out, " (lifted)");
    }
    assert(out@ =~= a + if undone {
        " (lifted)"@
    } else {
        Seq::<char>::empty()
    });
    out
}

/// The `/records` entries of the rows.
pub open spec fn record_lines(rows: Seq<Record>) -> Seq<Seq<char>> {
    rows.map_values(|r: Record| record_line_text(r))
}

/// The `/cases` entries of the rows.
pub open spec fn case_lines(rows: Seq<Record>) -> Seq<Seq<char>> {
    rows.map_values(|r: Record| case_line_text(r))
}

/// The `/clearrecords` entries of the rows.
pub open spec fn cleared_lines(rows: Seq<Record>) -> Seq<Seq<char>> {
    rows.map_values(|r: Record| cleared_line_text(r))
}

/// The `/records` listing: the entries separated by blank lines.
pub fn records_listing(rows: &Vec<Record>) -> (out: String)
    requires
        forall|i: int| 0 <= i < rows@.len() ==> length_fits(#[trigger] rows@[i]),
    ensures
        out@ == joined(record_lines(rows@), "\n\n"@),
{
    let mut lines: Vec<String> = Vec::new();
    let mut i: usize = 0;
    while i < rows.len()
        invariant
            i <= rows@.len(),
            forall|k: int| 0 <= k < rows@.len() ==> length_fits(#[trigger] rows@[k]),
            strings_view(lines@) == record_lines(rows@.take(i as int)),
        decreases rows@.len() - i,
    {
        let l = record_line(&rows[i]);
        let ghost prev = strings_view(lines@);
        let ghost lv = l@;
        assert(lv == record_line_text(rows@[i as int]));
        lines.push(l);
        assert(strings_view(lines@) =~= prev.push(lv));
        assert(record_lines(rows@.take(i + 1)) =~= record_lines(rows@.take(i as int)).push(lv));
        i = i + 1;
    }
    assert(rows@.take(rows@.len() as int) =~= rows@);
    join(&lines, "\n\n")
}

/// The `/cases` listing: the entries separated by blank lines.
pub fn cases_listing(rows: &Vec<Record>) -> (out: String)
    ensures
        out@ == joined(case_lines(rows@), "\n\n"@),
{
    let mut lines: Vec<String> = Vec::new();
    let mut i: usize = 0;
    while i < rows.len()
        invariant
            i <= rows@.len(),
            strings_view(lines@) == case_lines(rows@.take(i as int)),
        decreases rows@.len() - i,
    {
        let l = case_line(&rows[i]);
        let ghost prev = strings_view(lines@);
        let ghost lv = l@;
        assert(lv == case_line_text(rows@[i as int]));
        lines.push(l);
        assert(strings_view(lines@) =~= prev.push(lv));
        assert(case_lines(rows@.take(i + 1)) =~= case_lines(rows@.take(i as int)).push(lv));
        i = i + 1;
    }
    assert(rows@.take(rows@.len() as int) =~= rows@);
    join(&lines, "\n\n")
}

pub open spec fn cleared_summary_text(rows: Seq<Record>, cleared: usize) -> Seq<char> {
    joined(cleared_lines(rows), "\n"@) + if cleared > rows.len() {
        "\n\u{2026} and "@ + decimal((cleared - rows.len()) as nat) + " older"@
    } else {
        Seq::<char>::empty()
    }
}

/// What `/clearrecords` destroyed: one line per listed record, and a count of
/// those beyond the listing.
pub fn cleared_summary(rows: &Vec<Record>, cleared: usize) -> (out: String)
    ensures
        out@ == cleared_summary_text(rows@, cleared),
{
    let mut lines: Vec<String> = Vec::new();
    let mut i: usize = 0;
    while i < rows.len()
        invariant
            i <= rows@.len(),
            strings_view(lines@) == cleared_lines(rows@.take(i as int)),
        decreases rows@.len() - i,
    {
        let l = cleared_line(&rows[i]);
        let ghost prev = strings_view(lines@);
        let ghost lv = l@;
        assert(lv == cleared_line_text(rows@[i as int]));
        lines.push(l);
        assert(strings_view(lines@) =~= prev.push(lv));
        assert(cleared_lines(rows@.take(i + 1)) =~= cleared_lines(rows@.take(i as int)).push(lv));
        i = i + 1;
    }
    assert(rows@.take(rows@.len() as int) =~= rows@);
    let mut out = join(&lines, "\n");
    let ghost a = out@;
    if cleared > rows.len() {
        push_str(&mut out, "\n\u{2026} and ");
        push_u64(&mut out, (cleared - rows.len()) as u64);
        push_str(&mut out, " older");
    }
    assert(out@ =~= a + if cleared > rows@.len() {
        "\n\u{2026} and "@ + decimal((cleared - rows@.len()) as nat) + " older"@
    } else {
        Seq::<char>::empty()
    });
    out
}

} // verus!

verus! {

pub open spec fn cases_filters_text(
    kind: Option<Kind>,
    moderator_tag: Option<Seq<char>>,
    search: Option<Seq<char>>,
) -> Seq<char> {
    joined(
        (if kind is Some {
            seq!["kind: "@ + kind_key(kind->0)]
        } else {
            Seq::<Seq<char>>::empty()
        }) + (if moderator_tag is Some {
            seq!["by: "@ + moderator_tag->0]
        } else {
            Seq::<Seq<char>>::empty()
        }) + (if search is Some {
            seq!["reason contains: "@ + search->0]
        } else {
            Seq::<Seq<char>>::empty()
        }),
        " - "@,
    )
}

/// The `/cases` footer: the filters used, joined with " - " (empty with none).
pub fn cases_filters(kind: Option<Kind>, moderator_tag: Option<&str>, search: Option<&str>) -> (r: String)
    ensures
        r@ == cases_filters_text(
            kind,
            match moderator_tag {
                Some(t) => Some(t@),
                None => None,
            },
            match search {
                Some(s) => Some(s@),
                None => None,
            },
        ),
{
    let ghost tag_v = match moderator_tag {
        Some(t) => Some(t@),
        None => None::<Seq<char>>,
    };
    let ghost search_v = match search {
        Some(s) => Some(s@),
        None => None::<Seq<char>>,
    };
    let mut parts: Vec<String> = Vec::new();
    match kind {
        Some(k) => {
            let mut s = String::from_str("kind: ");
            push_str(&mut s, k.key());
            parts.push(s);
        },
        None => {},
    }
    let ghost p1 = strings_view(parts@);
    assert(p1 =~= if kind is Some {
        seq!["kind: "@ + kind_key(kind->0)]
    } else {
        Seq::<Seq<char>>::empty()
    });
    match moderator_tag {
        Some(t) => {
            let mut s = String::from_str("by: ");
            push_str(&mut s, t);
            parts.push(s);
        },
        None => {},
    }
    let ghost p2 = strings_view(parts@);
    assert(p2 =~= p1 + if tag_v is Some {
        seq!["by: "@ + tag_v->0]
    } else {
        Seq::<Seq<char>>::empty()
    });
    match search {
        Some(q) => {
            let mut s = String::from_str("reason contains: ");
            push_str(&mut s, q);
            parts.push(s);
        },
        None => {},
    }
    assert(strings_view(parts@) =~= p2 + if search_v is Some {
        seq!["reason contains: "@ + search_v->0]
    } else {
        Seq::<Seq<char>>::empty()
    });
    join(&parts, " - ")
}

/// How many cases `/cases` shows when no limit is given.
pub fn cases_limit(limit: Option<u8>) -> (r: i64)
    ensures
        r == match limit {
            Some(n) => n as i64,
            None => 20,
        },
{
    match limit {
        Some(n) => n as i64,
        None => 20,
    }
}

} // verus!

verus! {

/// Whether a record's length can be worked out without overflow.
pub fn length_in_range(r: &Record) -> (b: bool)
    ensures
        b == length_fits(*r),
{
    match r.expires {
        Some(e) => {
            let d = (e as i128) - (r.created as i128);
            (i64::MIN as i128) <= d && d <= (i64::MAX as i128)
        },
        None => true,
    }
}

} // verus!
