//! The log channel: which server events are worth an entry, and the text of the
//! entries.
use vstd::prelude::*;
use crate::text::{
    chars_of, decimal, joined, push_str, push_u64, role_mention, role_mention_text, strings_view,
    join,
};
use crate::util::{capped, clamp_field};
use crate::cmds::no_reason_text;
use vstd::string::StringExecFns;

verus! {

broadcast use {vstd::string::group_string_axioms, vstd::seq::group_seq_axioms};

pub const RED: u32 = 0xE05252;

pub const AMBER: u32 = 0xE0A352;

pub const GREEN: u32 = 0x52E086;

pub const GREY: u32 = 0x8A8A8A;

/// The audit-log action number of a ban.
pub const AUDIT_BAN_ADD: u8 = 22;

/// The audit-log action number of an unban.
pub const AUDIT_BAN_REMOVE: u8 = 23;

/// An entry's title, with the case number when there is one.
pub fn action_title(title: &str, case: Option<i64>) -> (r: String)
    ensures
        r@ == match case {
            Some(id) => title@ + " - case #"@ + crate::text::decimal_int(id as int),
            None => title@,
        },
{
    let mut r = String::from_str(title);
    match case {
        Some(id) => {
            push_str(&mut r, " - case #");
            crate::text::push_i64(&mut r, id);
        },
        None => {},
    }
    r
}

/// A user as entries name them: their tag and, in code style, their id.
pub open spec fn user_label_text(tag: Seq<char>, id: u64) -> Seq<char> {
    tag + " `"@ + decimal(id as nat) + "`"@
}

pub fn user_label(tag: &str, id: u64) -> (r: String)
    ensures
        r@ == user_label_text(tag@, id),
{
    let mut r = String::from_str(tag);
    push_str(&mut r, " `");
    push_u64(&mut r, id);
    push_str(&mut r, "`");
    r
}

// ----------------------------------------------------------------------
// Deleted and edited messages
// ----------------------------------------------------------------------

/// Whether a deleted message is logged at all: it must be in the guild, and not
/// in the log channel or the honeypot.
pub fn delete_is_logged(in_guild: bool, channel: u64, log_channel: u64, honeypot: Option<u64>) -> (r: bool)
    ensures
        r == (in_guild && channel != log_channel && honeypot != Some(channel)),
{
    in_guild && channel != log_channel && !(match honeypot {
        Some(h) => h == channel,
        None => false,
    })
}

/// Whether a deleted message that passed `delete_is_logged` is logged, by what
/// is remembered of it: `cached` is whether its author is a bot, when the
/// message is still in memory; otherwise it is logged only when it was `stored`
/// in the message cache.
pub fn deleted_is_logged(cached: Option<bool>, stored: bool) -> (r: bool)
    ensures
        r == match cached {
            Some(bot) => !bot,
            None => stored,
        },
{
    match cached {
        Some(bot) => !bot,
        None => stored,
    }
}

/// The content of a deleted message as logged.
pub fn deleted_body(content: &str) -> (r: String)
    ensures
        r@ == if content@.len() == 0 {
            "*(no text)*"@
        } else {
            capped(content@, 1024)
        },
{
    if content.is_empty() {
        String::from_str("*(no text)*")
    } else {
        clamp_field(content)
    }
}

/// Whether an edit is logged: in the guild, outside the log channel, by a person,
/// and with the text actually changed.
pub fn edit_is_logged(
    in_guild: bool,
    channel: u64,
    log_channel: u64,
    from_bot: bool,
    before: &str,
    after: &str,
) -> (r: bool)
    ensures
        r == (in_guild && channel != log_channel && !from_bot && before@ != after@),
{
    if !in_guild || channel == log_channel || from_bot {
        return false;
    }
    let b = chars_of(before);
    let a = chars_of(after);
    !same_chars(&b, &a)
}

pub(crate) fn same_chars(a: &Vec<char>, b: &Vec<char>) -> (r: bool)
    ensures
        r == (a@ == b@),
{
    if a.len() != b.len() {
        return false;
    }
    let mut i: usize = 0;
    while i < a.len()
        invariant
            a@.len() == b@.len(),
            i <= a@.len(),
            forall|k: int| 0 <= k < i ==> a@[k] == b@[k],
        decreases a@.len() - i,
    {
        if a[i] != b[i] {
            return false;
        }
        i = i + 1;
    }
    assert(a@ =~= b@);
    true
}

// ----------------------------------------------------------------------
// Role changes
// ----------------------------------------------------------------------

/// The roles in `now` that were not in `was`, in their order.
pub open spec fn roles_gained(was: Seq<u64>, now: Seq<u64>) -> Seq<u64> {
    now.filter(|r: u64| !was.contains(r))
}

fn contains_u64(v: &Vec<u64>, x: u64) -> (r: bool)
    ensures
        r == v@.contains(x),
{
    let mut i: usize = 0;
    while i < v.len()
        invariant
            i <= v@.len(),
            forall|k: int| 0 <= k < i ==> v@[k] != x,
        decreases v@.len() - i,
    {
        if v[i] == x {
            assert(v@[i as int] == x);
            return true;
        }
        i = i + 1;
    }
    false
}

/// The roles a member gained; swap the arguments for the roles they lost.
pub fn role_difference(was: &Vec<u64>, now: &Vec<u64>) -> (r: Vec<u64>)
    ensures
        r@ == roles_gained(was@, now@),
{
    let ghost keep = |r: u64| !was@.contains(r);
    let mut out: Vec<u64> = Vec::new();
    let mut i: usize = 0;
    while i < now.len()
        invariant
            i <= now@.len(),
            keep == (|r: u64| !was@.contains(r)),
            out@ == now@.take(i as int).filter(keep),
        decreases now@.len() - i,
    {
        let r = now[i];
        proof {
            assert(now@.take(i + 1) =~= now@.take(i as int).push(r));
            now@.take(i as int).lemma_filter_push(r, keep);
        }
        if !contains_u64(was, r) {
            out.push(r);
        }
        i = i + 1;
    }
    assert(now@.take(now@.len() as int) =~= now@);
    out
}

/// A role that is in both lists is neither gained nor lost.
pub proof fn lemma_role_difference(was: Seq<u64>, now: Seq<u64>, r: u64)
    ensures
        roles_gained(was, now).contains(r) <==> (now.contains(r) && !was.contains(r)),
        roles_gained(now, was).contains(r) <==> (was.contains(r) && !now.contains(r)),
{
    let f = |x: u64| !was.contains(x);
    let g = |x: u64| !now.contains(x);
    if now.contains(r) && !was.contains(r) {
        let k = choose|k: int| 0 <= k < now.len() && now[k] == r;
        now.lemma_filter_contains(f, k);
    }
    if roles_gained(was, now).contains(r) {
        now.lemma_filter_contains_rev(f, r);
        let k = choose|k: int| 0 <= k < now.filter(f).len() && now.filter(f)[k] == r;
        now.lemma_filter_pred(f, k);
    }
    if was.contains(r) && !now.contains(r) {
        let k = choose|k: int| 0 <= k < was.len() && was[k] == r;
        was.lemma_filter_contains(g, k);
    }
    if roles_gained(now, was).contains(r) {
        was.lemma_filter_contains_rev(g, r);
        let k = choose|k: int| 0 <= k < was.filter(g).len() && was.filter(g)[k] == r;
        was.lemma_filter_pred(g, k);
    }
}

pub open spec fn role_mentions_text(roles: Seq<u64>) -> Seq<char> {
    joined(roles.map_values(|r: u64| role_mention_text(r)), " "@)
}

/// Roles written as mentions, separated by spaces.
pub fn role_mentions(roles: &Vec<u64>) -> (r: String)
    ensures
        r@ == role_mentions_text(roles@),
{
    let mut parts: Vec<String> = Vec::new();
    let mut i: usize = 0;
    while i < roles.len()
        invariant
            i <= roles@.len(),
            strings_view(parts@) == roles@.take(i as int).map_values(|r: u64| role_mention_text(r)),
        decreases roles@.len() - i,
    {
        let m = role_mention(roles[i]);
        let ghost prev = strings_view(parts@);
        let ghost mv = m@;
        parts.push(m);
        assert(strings_view(parts@) =~= prev.push(mv));
        assert(roles@.take(i + 1).map_values(|r: u64| role_mention_text(r)) =~= roles@.take(
            i as int,
        ).map_values(|r: u64| role_mention_text(r)).push(mv));
        i = i + 1;
    }
    assert(roles@.take(roles@.len() as int) =~= roles@);
    join(&parts, " ")
}

// ----------------------------------------------------------------------
// Bans made outside the bot
// ----------------------------------------------------------------------

/// An audit-log entry, as much as the ban log looks at.
#[derive(Clone, Copy, PartialEq, Eq, Debug, Structural)]
pub struct AuditEntry {
    pub action: u8,
    pub target: Option<u64>,
    pub user: u64,
}

/// The audit action that records a ban (`added`) or an unban.
pub fn audit_action(added: bool) -> (r: u8)
    ensures
        r == if added {
            AUDIT_BAN_ADD
        } else {
            AUDIT_BAN_REMOVE
        },
{
    if added {
        AUDIT_BAN_ADD
    } else {
        AUDIT_BAN_REMOVE
    }
}

pub open spec fn is_entry_for(e: AuditEntry, action: u8, user: u64) -> bool {
    e.action == action && e.target == Some(user)
}

/// The first entry of the given action against `user`, if any.
pub fn find_ban_entry(entries: &Vec<AuditEntry>, action: u8, user: u64) -> (r: Option<usize>)
    ensures
        match r {
            Some(i) => i < entries@.len() && is_entry_for(entries@[i as int], action, user)
                && forall|k: int| 0 <= k < i ==> !is_entry_for(#[trigger] entries@[k], action, user),
            None => forall|k: int|
                0 <= k < entries@.len() ==> !is_entry_for(#[trigger] entries@[k], action, user),
        },
{
    let mut i: usize = 0;
    while i < entries.len()
        invariant
            i <= entries@.len(),
            forall|k: int| 0 <= k < i ==> !is_entry_for(#[trigger] entries@[k], action, user),
        decreases entries@.len() - i,
    {
        let e = entries[i];
        if e.action == action && e.target == Some(user) {
            return Some(i);
        }
        i = i + 1;
    }
    None
}

/// Whether a ban or unban is logged: not when the bot made it, since the bot
/// logs its own actions.
pub fn outside_ban_is_logged(entry: Option<AuditEntry>, bot: u64) -> (r: bool)
    ensures
        r == !(entry matches Some(e) && e.user == bot),
{
    match entry {
        Some(e) => e.user != bot,
        None => true,
    }
}

/// Who made an outside ban, as logged.
pub fn ban_moderator_text(entry: Option<AuditEntry>) -> (r: String)
    ensures
        r@ == match entry {
            Some(e) => crate::text::user_mention_text(e.user),
            None => "unknown"@,
        },
{
    match entry {
        Some(e) => crate::text::user_mention(e.user),
        None => String::from_str("unknown"),
    }
}

/// The reason of an outside ban, as logged.
pub fn ban_reason_text(reason: Option<&str>) -> (r: String)
    ensures
        r@ == capped(
            match reason {
                Some(s) => s@,
                None => no_reason_text(),
            },
            1024,
        ),
{
    match reason {
        Some(s) => clamp_field(s),
        None => clamp_field("*(no reason given)*"),
    }
}

} // verus!
