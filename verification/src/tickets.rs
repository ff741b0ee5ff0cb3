//! Support tickets: their kinds, channel names and counters, who opened them,
//! the permission overwrites a new ticket gets, who may be added or removed,
//! and the summary sent when one closes.
use vstd::prelude::*;
use crate::text::{
    all_digits, chars_of, decimal, digit, ends_with, has_prefix, has_suffix, is_digit, joined,
    lemma_decimal, lemma_parse_decimal, parse_u64, parsed_u64, push_str, push_u64, slice_chars,
    starts_with, string_from, strings_view, trim, trimmed, user_mention, user_mention_text, join,
};
use crate::util::{clamp_reason, first_chars};
use crate::records::opt_view;
use crate::logging::same_chars;
use vstd::string::StringExecFns;

verus! {

broadcast use {vstd::string::group_string_axioms, vstd::seq::group_seq_axioms};

/// The channel category that holds tickets.
pub const CATEGORY: u64 = 1551418015042768906;

/// The staff role for user issues.
pub const USER_ISSUE_ROLE: u64 = 1551007200577585242;

/// The staff role for bug reports.
pub const BUG_ROLE: u64 = 1545893087031599145;

/// View Channel.
pub const VIEW_CHANNEL: u64 = 1024;

/// Administrator.
pub const ADMINISTRATOR: u64 = 8;

/// View Channel, Send Messages, Read Message History, Attach Files and Embed Links.
pub const ACCESS: u64 = 117760;

/// Moderate Members or Administrator: who may close a ticket with its buttons.
pub const MOD: u64 = 1099511627784;

/// What a ticket is about.
#[derive(Clone, Copy, PartialEq, Eq, Debug, Structural)]
pub enum Kind {
    UserIssue,
    BugReport,
}

/// The start of a ticket channel's name.
pub open spec fn prefix_text(k: Kind) -> Seq<char> {
    match k {
        Kind::UserIssue => "userissue-"@,
        Kind::BugReport => "bug-"@,
    }
}

/// Whether `name` is a ticket channel name of kind `k`: the kind's prefix,
/// then one or more ASCII digits.
pub open spec fn names_ticket(name: Seq<char>, k: Kind) -> bool {
    let p = prefix_text(k);
    has_prefix(name, p) && name.len() > p.len() && all_digits(name.skip(p.len() as int))
}

/// The kind of ticket a channel name belongs to, user issues checked first.
pub open spec fn kind_of_name(name: Seq<char>) -> Option<Kind> {
    if names_ticket(name, Kind::UserIssue) {
        Some(Kind::UserIssue)
    } else if names_ticket(name, Kind::BugReport) {
        Some(Kind::BugReport)
    } else {
        None
    }
}

/// A ticket channel's name: the kind's prefix and the ticket's number.
pub open spec fn channel_name_text(k: Kind, n: u64) -> Seq<char> {
    prefix_text(k) + decimal(n as nat)
}

/// The key under which the kind's ticket counter is stored.
pub open spec fn counter_key_text(k: Kind) -> Seq<char> {
    "ticket_"@ + prefix_text(k)
}

fn digits_from(s: &[char], from: usize) -> (r: bool)
    requires
        from <= s@.len(),
    ensures
        r == all_digits(s@.skip(from as int)),
{
    let mut i = from;
    while i < s.len()
        invariant
            from <= i <= s@.len(),
            forall|k: int| from <= k < i ==> is_digit(#[trigger] s@[k]),
        decreases s@.len() - i,
    {
        if !digit(s[i]) {
            assert(s@.skip(from as int)[i - from] == s@[i as int]);
            return false;
        }
        i = i + 1;
    }
    assert forall|k: int| 0 <= k < s@.skip(from as int).len() implies is_digit(
        #[trigger] s@.skip(from as int)[k],
    ) by {
        assert(s@.skip(from as int)[k] == s@[from + k]);
    }
    true
}

impl Kind {
    /// The start of this kind's channel names.
    pub fn prefix(self) -> (r: &'static str)
        ensures
            r@ == prefix_text(self),
    {
        match self {
            Kind::UserIssue => "userissue-",
            Kind::BugReport => "bug-",
        }
    }

    /// The staff role that handles this kind.
    pub fn role(self) -> (r: u64)
        ensures
            r == match self {
                Kind::UserIssue => USER_ISSUE_ROLE,
                Kind::BugReport => BUG_ROLE,
            },
    {
        match self {
            Kind::UserIssue => USER_ISSUE_ROLE,
            Kind::BugReport => BUG_ROLE,
        }
    }

    /// The name members pick the kind by.
    pub fn name(self) -> (r: &'static str)
        ensures
            r@ == match self {
                Kind::UserIssue => "User issue"@,
                Kind::BugReport => "Bug report"@,
            },
    {
        match self {
            Kind::UserIssue => "User issue",
            Kind::BugReport => "Bug report",
        }
    }

    fn matches_name(self, name: &[char]) -> (r: bool)
        ensures
            r == names_ticket(name@, self),
    {
        let p = chars_of(self.prefix());
        if !starts_with(name, &p) || name.len() <= p.len() {
            return false;
        }
        digits_from(name, p.len())
    }

    /// The kind of ticket a channel with this name is, if it is one.
    pub fn from_channel(name: &str) -> (r: Option<Kind>)
        ensures
            r == kind_of_name(name@),
    {
        let cs = chars_of(name);
        if Kind::UserIssue.matches_name(&cs) {
            Some(Kind::UserIssue)
        } else if Kind::BugReport.matches_name(&cs) {
            Some(Kind::BugReport)
        } else {
            None
        }
    }

    /// The name of this kind's ticket number `n`.
    pub fn channel_name(self, n: u64) -> (r: String)
        ensures
            r@ == channel_name_text(self, n),
    {
        let mut r = String::new();
        push_str(&mut r, self.prefix());
        push_u64(&mut r, n);
        r
    }

    /// The key of this kind's ticket counter.
    pub fn counter_key(self) -> (r: String)
        ensures
            r@ == counter_key_text(self),
    {
        let mut r = String::new();
        push_str(&mut r, "ticket_");
        push_str(&mut r, self.prefix());
        r
    }
}

/// A ticket channel named for kind `k` and number `n` is recognised as a
/// ticket of kind `k`.
pub proof fn lemma_channel_name_round_trip(k: Kind, n: u64)
    ensures
        kind_of_name(channel_name_text(k, n)) == Some(k),
{
    reveal_strlit("userissue-");
    reveal_strlit("bug-");
    let name = channel_name_text(k, n);
    let p = prefix_text(k);
    lemma_decimal(n as nat);
    assert(name.take(p.len() as int) =~= p);
    assert(name.skip(p.len() as int) =~= decimal(n as nat));
    assert(names_ticket(name, k));
    if k == Kind::BugReport {
        let u = prefix_text(Kind::UserIssue);
        if has_prefix(name, u) {
            assert(name[0] == 'b');
            assert(name.take(u.len() as int)[0] == u[0]);
        }
    }
}

/// Each kind keeps its own counter: the two kinds' counters are stored under
/// different keys, and their channel names never coincide.
pub proof fn lemma_kinds_kept_apart(a: Kind, b: Kind, n: u64, m: u64)
    requires
        a != b,
    ensures
        counter_key_text(a) != counter_key_text(b),
        channel_name_text(a, n) != channel_name_text(b, m),
{
    reveal_strlit("ticket_");
    reveal_strlit("userissue-");
    reveal_strlit("bug-");
    let ka = counter_key_text(a);
    let kb = counter_key_text(b);
    assert(ka[7] != kb[7]);
    let na = channel_name_text(a, n);
    let nb = channel_name_text(b, m);
    assert(na[0] != nb[0]);
}

/// Whether a channel is a ticket: it sits in the ticket category and its name
/// is a ticket name.
pub fn ticket_kind(parent: Option<u64>, name: &str) -> (r: Option<Kind>)
    ensures
        r == if parent == Some(CATEGORY) {
            kind_of_name(name@)
        } else {
            None
        },
{
    match parent {
        Some(p) => if p == CATEGORY {
            Kind::from_channel(name)
        } else {
            None
        },
        None => None,
    }
}

// ----------------------------------------------------------------------
// The opener
// ----------------------------------------------------------------------

/// A ticket channel's topic names who opened it.
pub open spec fn opener_topic_text(author: u64) -> Seq<char> {
    "Opened by "@ + user_mention_text(author)
}

/// The opener a topic names: the text between "Opened by <@" and a final ">"
/// read as a number.
pub open spec fn opener_spec(topic: Seq<char>) -> Option<u64> {
    let p = "Opened by <@"@;
    let rest = topic.skip(p.len() as int);
    if has_prefix(topic, p) && has_suffix(rest, ">"@) {
        parsed_u64(rest.take(rest.len() - 1))
    } else {
        None
    }
}

/// The topic of a ticket opened by `author`.
pub fn opener_topic(author: u64) -> (r: String)
    ensures
        r@ == opener_topic_text(author),
{
    let mut r = String::new();
    push_str(&mut r, "Opened by ");
    let m = user_mention(author);
    push_str(&mut r, m.as_str());
    r
}

/// Who opened a ticket, read from its topic.
pub fn opener_of(topic: &str) -> (r: Option<u64>)
    ensures
        r == opener_spec(topic@),
{
    let t = chars_of(topic);
    let p = chars_of("Opened by <@");
    if !starts_with(&t, &p) {
        return None;
    }
    let rest = slice_chars(&t, p.len(), t.len());
    assert(rest@ =~= topic@.skip(p@.len() as int));
    let close = chars_of(">");
    if !ends_with(&rest, &close) {
        return None;
    }
    proof {
        reveal_strlit(">");
    }
    let inner = slice_chars(&rest, 0, rest.len() - 1);
    assert(inner@ =~= rest@.take(rest@.len() - 1));
    parse_u64(&inner)
}

/// The topic written for a ticket names its opener back.
pub proof fn lemma_opener_round_trip(author: u64)
    ensures
        opener_spec(opener_topic_text(author)) == Some(author),
{
    reveal_strlit("Opened by <@");
    reveal_strlit("Opened by ");
    reveal_strlit("<@");
    reveal_strlit(">");
    let d = decimal(author as nat);
    let topic = opener_topic_text(author);
    let p = "Opened by <@"@;
    assert(topic =~= p + d + ">"@);
    let rest = topic.skip(p.len() as int);
    assert(rest =~= d + ">"@);
    assert(topic.take(p.len() as int) =~= p);
    assert(rest.skip(rest.len() - 1) =~= ">"@);
    assert(rest.take(rest.len() - 1) =~= d);
    lemma_parse_decimal(author);
}

// ----------------------------------------------------------------------
// Permission overwrites
// ----------------------------------------------------------------------

/// Whom an overwrite applies to.
#[derive(Clone, Copy, PartialEq, Eq, Debug, Structural)]
pub enum Target {
    Role(u64),
    Member(u64),
}

/// A channel permission overwrite.
#[derive(Clone, Copy, PartialEq, Eq, Debug, Structural)]
pub struct Overwrite {
    pub allow: u64,
    pub deny: u64,
    pub target: Target,
}

/// The overwrites a new ticket needs: hidden from everyone (the guild's own
/// role), open to the kind's staff role, the opener and the bot.
pub open spec fn own_overwrites(guild: u64, role: u64, author: u64, bot: u64) -> Seq<Overwrite> {
    seq![
        Overwrite { allow: 0, deny: VIEW_CHANNEL, target: Target::Role(guild) },
        Overwrite { allow: ACCESS, deny: 0, target: Target::Role(role) },
        Overwrite { allow: ACCESS, deny: 0, target: Target::Member(author) },
        Overwrite { allow: ACCESS, deny: 0, target: Target::Member(bot) },
    ]
}

pub open spec fn targets_of(ours: Seq<Overwrite>, t: Target) -> bool {
    exists|i: int| 0 <= i < ours.len() && (#[trigger] ours[i]).target == t
}

/// The category's overwrites for targets the ticket does not set itself, in
/// their order, followed by the ticket's own.
pub open spec fn merged_overwrites(inherited: Seq<Overwrite>, ours: Seq<Overwrite>) -> Seq<Overwrite> {
    inherited.filter(|o: Overwrite| !targets_of(ours, o.target)) + ours
}

/// A new ticket keeps every overwrite of its category whose target (role or
/// member alike) is none of the four it sets itself: the guild's own role, the
/// kind's staff role, the opener and the bot. Everything before its own four
/// comes from the category, with such a target, in the category's order; and
/// the ticket's own four come last.
pub proof fn lemma_ticket_keeps_category_overwrites(
    inherited: Seq<Overwrite>,
    guild: u64,
    role: u64,
    author: u64,
    bot: u64,
)
    ensures
        ({
            let r = merged_overwrites(inherited, own_overwrites(guild, role, author, bot));
            let n = r.len() - 4;
            &&& n >= 0
            &&& r[n] == (Overwrite { allow: 0, deny: VIEW_CHANNEL, target: Target::Role(guild) })
            &&& r[n + 1] == (Overwrite { allow: ACCESS, deny: 0, target: Target::Role(role) })
            &&& r[n + 2] == (Overwrite { allow: ACCESS, deny: 0, target: Target::Member(author) })
            &&& r[n + 3] == (Overwrite { allow: ACCESS, deny: 0, target: Target::Member(bot) })
            &&& forall|i: int|
                0 <= i < inherited.len() && inherited[i].target != Target::Role(guild)
                    && inherited[i].target != Target::Role(role) && inherited[i].target
                    != Target::Member(author) && inherited[i].target != Target::Member(bot)
                    ==> #[trigger] r.take(n).contains(inherited[i])
            &&& forall|k: int|
                0 <= k < n ==> inherited.contains(#[trigger] r[k]) && r[k].target != Target::Role(
                    guild,
                ) && r[k].target != Target::Role(role) && r[k].target != Target::Member(author)
                    && r[k].target != Target::Member(bot)
        }),
{
    let ours = own_overwrites(guild, role, author, bot);
    let keep = |o: Overwrite| !targets_of(ours, o.target);
    let kept = inherited.filter(keep);
    let r = merged_overwrites(inherited, ours);
    assert(r == kept + ours);
    kept.lemma_filter_len(keep);
    inherited.lemma_filter_len(keep);
    let n = r.len() - 4;
    assert(n == kept.len());
    assert(r.take(n) =~= kept);
    assert(r[n] == ours[0]);
    assert(r[n + 1] == ours[1]);
    assert(r[n + 2] == ours[2]);
    assert(r[n + 3] == ours[3]);
    assert forall|i: int|
        0 <= i < inherited.len() && inherited[i].target != Target::Role(guild)
            && inherited[i].target != Target::Role(role) && inherited[i].target != Target::Member(
            author,
        ) && inherited[i].target != Target::Member(bot) implies #[trigger] r.take(n).contains(
        inherited[i],
    ) by {
        if targets_of(ours, inherited[i].target) {
            let j = choose|j: int| 0 <= j < ours.len() && (#[trigger] ours[j]).target
                == inherited[i].target;
            assert(false);
        }
        assert(keep(inherited[i]));
        inherited.lemma_filter_contains(keep, i);
    }
    assert forall|k: int| 0 <= k < n implies inherited.contains(#[trigger] r[k]) && r[k].target
        != Target::Role(guild) && r[k].target != Target::Role(role) && r[k].target
        != Target::Member(author) && r[k].target != Target::Member(bot) by {
        assert(r[k] == kept[k]);
        inherited.lemma_filter_pred(keep, k);
        assert(kept.contains(kept[k]));
        inherited.lemma_filter_contains_rev(keep, kept[k]);
        if kept[k].target == Target::Role(guild) {
            assert(ours[0].target == kept[k].target);
        }
        if kept[k].target == Target::Role(role) {
            assert(ours[1].target == kept[k].target);
        }
        if kept[k].target == Target::Member(author) {
            assert(ours[2].target == kept[k].target);
        }
        if kept[k].target == Target::Member(bot) {
            assert(ours[3].target == kept[k].target);
        }
    }
}

fn in_targets(ours: &Vec<Overwrite>, t: Target) -> (r: bool)
    ensures
        r == targets_of(ours@, t),
{
    let mut i: usize = 0;
    while i < ours.len()
        invariant
            i <= ours@.len(),
            forall|k: int| 0 <= k < i ==> (#[trigger] ours@[k]).target != t,
        decreases ours@.len() - i,
    {
        if ours[i].target == t {
            return true;
        }
        i = i + 1;
    }
    false
}

/// The overwrites a new ticket channel is created with.
pub fn ticket_overwrites(
    inherited: &Vec<Overwrite>,
    guild: u64,
    role: u64,
    author: u64,
    bot: u64,
) -> (r: Vec<Overwrite>)
    ensures
        r@ == merged_overwrites(inherited@, own_overwrites(guild, role, author, bot)),
{
    let ours = vec![
        Overwrite { allow: 0, deny: VIEW_CHANNEL, target: Target::Role(guild) },
        Overwrite { allow: ACCESS, deny: 0, target: Target::Role(role) },
        Overwrite { allow: ACCESS, deny: 0, target: Target::Member(author) },
        Overwrite { allow: ACCESS, deny: 0, target: Target::Member(bot) },
    ];
    assert(ours@ =~= own_overwrites(guild, role, author, bot));
    let ghost keep = |o: Overwrite| !targets_of(ours@, o.target);
    let mut r: Vec<Overwrite> = Vec::new();
    let mut i: usize = 0;
    while i < inherited.len()
        invariant
            i <= inherited@.len(),
            ours@ == own_overwrites(guild, role, author, bot),
            keep == (|o: Overwrite| !targets_of(ours@, o.target)),
            r@ == inherited@.take(i as int).filter(keep),
        decreases inherited@.len() - i,
    {
        let o = inherited[i];
        proof {
            assert(inherited@.take(i + 1) =~= inherited@.take(i as int).push(o));
            inherited@.take(i as int).lemma_filter_push(o, keep);
        }
        if !in_targets(&ours, o.target) {
            r.push(o);
        }
        i = i + 1;
    }
    assert(inherited@.take(inherited@.len() as int) =~= inherited@);
    let mut k: usize = 0;
    let ghost kept = r@;
    while k < ours.len()
        invariant
            k <= ours@.len(),
            r@ == kept + ours@.take(k as int),
        decreases ours@.len() - k,
    {
        r.push(ours[k]);
        k = k + 1;
        assert(r@ =~= kept + ours@.take(k as int));
    }
    assert(ours@.take(ours@.len() as int) =~= ours@);
    r
}

// ----------------------------------------------------------------------
// Adding and removing people
// ----------------------------------------------------------------------

/// Why a ticket request is turned down.
#[derive(Clone, Copy, PartialEq, Eq, Debug, Structural)]
pub enum Refusal {
    /// The channel is not a ticket.
    NotTicket,
    /// The user is not in the server.
    NotMember,
    /// The user can already see the ticket.
    AlreadyHasAccess,
    /// The bot itself would be removed.
    RemovingBot,
    /// The user already cannot see the ticket.
    AlreadyNoAccess,
    /// Administrators see every channel.
    Administrator,
    /// The member may not close tickets.
    NoAccess,
}

impl Refusal {
    /// The reply that explains the refusal.
    pub fn message(self) -> (r: &'static str)
        ensures
            r@ == refusal_text(self),
    {
        match self {
            Refusal::NotTicket => "This isn't a ticket channel",
            Refusal::NotMember => "That user isn't in the server",
            Refusal::AlreadyHasAccess => "User already has access to this ticket!",
            Refusal::RemovingBot => "Removing me would leave the ticket unclosable",
            Refusal::AlreadyNoAccess => "User already can't view this ticket",
            Refusal::Administrator => "Administrators see every channel, they can't be removed",
            Refusal::NoAccess => "No access",
        }
    }
}

pub open spec fn refusal_text(r: Refusal) -> Seq<char> {
    match r {
        Refusal::NotTicket => "This isn't a ticket channel"@,
        Refusal::NotMember => "That user isn't in the server"@,
        Refusal::AlreadyHasAccess => "User already has access to this ticket!"@,
        Refusal::RemovingBot => "Removing me would leave the ticket unclosable"@,
        Refusal::AlreadyNoAccess => "User already can't view this ticket"@,
        Refusal::Administrator => "Administrators see every channel, they can't be removed"@,
        Refusal::NoAccess => "No access"@,
    }
}

/// Whether a member may be given access: not when they can already see it.
/// `perms` is what they have in the channel.
pub fn check_add(perms: u64) -> (r: Result<(), Refusal>)
    ensures
        r == if perms & VIEW_CHANNEL != 0 {
            Err::<(), Refusal>(Refusal::AlreadyHasAccess)
        } else {
            Ok(())
        },
{
    if perms & VIEW_CHANNEL != 0 {
        Err(Refusal::AlreadyHasAccess)
    } else {
        Ok(())
    }
}

/// Whether a user's access may be taken away: never the bot's, nor from someone
/// who cannot see the ticket already, nor from an administrator. `perms` is what
/// the member has in the channel, `None` when they are not in the server.
pub fn check_remove(target: u64, bot: u64, perms: Option<u64>) -> (r: Result<(), Refusal>)
    ensures
        r == if target == bot {
            Err::<(), Refusal>(Refusal::RemovingBot)
        } else {
            match perms {
                None => Err(Refusal::NotMember),
                Some(p) => if p & VIEW_CHANNEL == 0 {
                    Err(Refusal::AlreadyNoAccess)
                } else if p & ADMINISTRATOR != 0 {
                    Err(Refusal::Administrator)
                } else {
                    Ok(())
                },
            }
        },
{
    if target == bot {
        return Err(Refusal::RemovingBot);
    }
    match perms {
        None => Err(Refusal::NotMember),
        Some(p) => if p & VIEW_CHANNEL == 0 {
            Err(Refusal::AlreadyNoAccess)
        } else if p & ADMINISTRATOR != 0 {
            Err(Refusal::Administrator)
        } else {
            Ok(())
        },
    }
}

/// Whether the ticket buttons may be used: the member's permissions must
/// include Moderate Members or Administrator.
pub fn may_close(member_perms: Option<u64>) -> (r: bool)
    ensures
        r == match member_perms {
            Some(p) => p & MOD != 0,
            None => false,
        },
{
    match member_perms {
        Some(p) => p & MOD != 0,
        None => false,
    }
}

// ----------------------------------------------------------------------
// The close buttons
// ----------------------------------------------------------------------

/// What was pressed or sent in a ticket: the Close button, the Close with
/// Reason button, or the form that carries the reason.
#[derive(Clone, Copy, PartialEq, Eq, Debug, Structural)]
pub enum TicketPress {
    Close,
    CloseWithReason,
    ReasonGiven,
}

pub open spec fn press_id_text(p: TicketPress) -> Seq<char> {
    match p {
        TicketPress::Close => "ticket:close"@,
        TicketPress::CloseWithReason => "ticket:close_reason"@,
        TicketPress::ReasonGiven => "ticket:reason"@,
    }
}

impl TicketPress {
    /// The custom id Discord hands back for this button or form.
    pub fn id(self) -> (r: &'static str)
        ensures
            r@ == press_id_text(self),
    {
        match self {
            TicketPress::Close => "ticket:close",
            TicketPress::CloseWithReason => "ticket:close_reason",
            TicketPress::ReasonGiven => "ticket:reason",
        }
    }
}

/// Which ticket interaction a custom id names: the two buttons come as
/// components, the reason as a submitted form; anything else is not ours.
pub open spec fn ticket_press_spec(id: Seq<char>, is_form: bool) -> Option<TicketPress> {
    if is_form {
        if id == press_id_text(TicketPress::ReasonGiven) {
            Some(TicketPress::ReasonGiven)
        } else {
            None
        }
    } else if id == press_id_text(TicketPress::Close) {
        Some(TicketPress::Close)
    } else if id == press_id_text(TicketPress::CloseWithReason) {
        Some(TicketPress::CloseWithReason)
    } else {
        None
    }
}

/// Reads which ticket interaction arrived.
pub fn ticket_press(custom_id: &str, is_form: bool) -> (r: Option<TicketPress>)
    ensures
        r == ticket_press_spec(custom_id@, is_form),
{
    let id = chars_of(custom_id);
    if is_form {
        if same_chars(&id, &chars_of(TicketPress::ReasonGiven.id())) {
            Some(TicketPress::ReasonGiven)
        } else {
            None
        }
    } else if same_chars(&id, &chars_of(TicketPress::Close.id())) {
        Some(TicketPress::Close)
    } else if same_chars(&id, &chars_of(TicketPress::CloseWithReason.id())) {
        Some(TicketPress::CloseWithReason)
    } else {
        None
    }
}

/// What the bot does about a ticket interaction.
#[derive(Clone, Copy, PartialEq, Eq, Debug, Structural)]
pub enum PressOutcome {
    /// Answer privately with the refusal.
    Refuse(Refusal),
    /// Show the form that asks for a reason.
    AskReason,
    /// Close the ticket.
    Close,
}

/// The answer to a ticket interaction: only members who may close tickets get
/// anywhere, only in a ticket channel; the Close with Reason button asks for the
/// reason first, and the other two close.
pub fn press_outcome(press: TicketPress, may_close: bool, is_ticket: bool) -> (r: PressOutcome)
    ensures
        r == if !may_close {
            PressOutcome::Refuse(Refusal::NoAccess)
        } else if !is_ticket {
            PressOutcome::Refuse(Refusal::NotTicket)
        } else if press == TicketPress::CloseWithReason {
            PressOutcome::AskReason
        } else {
            PressOutcome::Close
        },
{
    if !may_close {
        PressOutcome::Refuse(Refusal::NoAccess)
    } else if !is_ticket {
        PressOutcome::Refuse(Refusal::NotTicket)
    } else {
        match press {
            TicketPress::CloseWithReason => PressOutcome::AskReason,
            _ => PressOutcome::Close,
        }
    }
}

// ----------------------------------------------------------------------
// Counters and pings
// ----------------------------------------------------------------------

/// The number of the next ticket of a kind: one more than the stored counter,
/// or 1 when there is none.
pub fn next_ticket_number(stored: Option<u64>) -> (r: u64)
    requires
        stored != Some(u64::MAX),
    ensures
        r == match stored {
            Some(n) => n + 1,
            None => 1,
        },
{
    match stored {
        Some(n) => n + 1,
        None => 1,
    }
}

/// Staff pings are on unless the stored setting is exactly "0".
pub fn pings_enabled(stored: Option<&str>) -> (r: bool)
    ensures
        r == match stored {
            Some(s) => s@ != "0"@,
            None => true,
        },
{
    match stored {
        Some(s) => {
            let cs = chars_of(s);
            proof {
                reveal_strlit("0");
                assert("0"@ =~= seq!['0']);
            }
            if cs.len() == 1 && cs[0] == '0' {
                assert(s@ =~= "0"@);
                false
            } else {
                assert(s@ != "0"@);
                true
            }
        },
        None => true,
    }
}

/// The stored value of the pings setting.
pub fn pings_setting(enabled: bool) -> (r: &'static str)
    ensures
        r@ == if enabled {
            "1"@
        } else {
            "0"@
        },
{
    if enabled {
        "1"
    } else {
        "0"
    }
}

/// The opening message's mentions: the opener, and the staff role when pings are on.
pub fn opening_mentions(author: u64, role: u64, pings: bool) -> (r: String)
    ensures
        r@ == user_mention_text(author) + if pings {
            " "@ + crate::text::role_mention_text(role)
        } else {
            Seq::<char>::empty()
        },
{
    let mut r = user_mention(author);
    if pings {
        push_str(&mut r, " ");
        let m = crate::text::role_mention(role);
        push_str(&mut r, m.as_str());
        assert(r@ =~= user_mention_text(author) + (" "@ + crate::text::role_mention_text(role)));
    } else {
        assert(r@ =~= user_mention_text(author) + Seq::<char>::empty());
    }
    r
}

// ----------------------------------------------------------------------
// Closing
// ----------------------------------------------------------------------

/// Everyone to notify when a ticket closes: those who spoke in it, then the
/// opener if they did not.
pub fn with_opener(people: Vec<u64>, opener: Option<u64>) -> (r: Vec<u64>)
    ensures
        r@ == match opener {
            Some(o) => if people@.contains(o) {
                people@
            } else {
                people@.push(o)
            },
            None => people@,
        },
{
    let mut people = people;
    match opener {
        Some(o) => {
            let mut i: usize = 0;
            let mut found = false;
            while i < people.len()
                invariant
                    i <= people@.len(),
                    found == people@.take(i as int).contains(o),
                decreases people@.len() - i,
            {
                let ghost before = people@.take(i as int);
                assert(people@.take(i + 1) =~= before.push(people@[i as int]));
                if people[i] == o {
                    found = true;
                    assert(people@.take(i + 1)[i as int] == o);
                } else {
                    assert forall|k: int| 0 <= k < i + 1 implies #[trigger] people@.take(i + 1)[k]
                        != o || before.contains(o) by {
                        if k < i {
                            assert(people@.take(i + 1)[k] == before[k]);
                        }
                    }
                }
                i = i + 1;
            }
            assert(people@.take(people@.len() as int) =~= people@);
            if !found {
                people.push(o);
            }
            people
        },
        None => people,
    }
}

/// The reason shown for a closed ticket: the given one trimmed and clamped, or
/// "no reason specified" when that leaves nothing.
pub open spec fn close_reason_text(reason: Option<Seq<char>>) -> Seq<char> {
    match reason {
        Some(r) => if first_chars(trimmed(r), 512).len() > 0 {
            first_chars(trimmed(r), 512)
        } else {
            "no reason specified"@
        },
        None => "no reason specified"@,
    }
}

pub fn close_reason(reason: Option<String>) -> (r: String)
    ensures
        r@ == close_reason_text(opt_view(reason)),
{
    match reason {
        Some(s) => {
            let t = string_from(&trim(&chars_of(s.as_str())));
            let c = clamp_reason(t.as_str());
            if chars_of(c.as_str()).len() > 0 {
                c
            } else {
                String::from_str("no reason specified")
            }
        },
        None => String::from_str("no reason specified"),
    }
}

} // verus!

verus! {

pub open spec fn participants_text_of(people: Seq<u64>) -> Seq<char> {
    if people.len() == 0 {
        "none"@
    } else {
        joined(people.map_values(|id: u64| user_mention_text(id)), " "@)
    }
}

/// Everyone who took part, as mentions separated by spaces, or "none".
pub fn participants_text(people: &Vec<u64>) -> (r: String)
    ensures
        r@ == participants_text_of(people@),
{
    if people.len() == 0 {
        return String::from_str("none");
    }
    let mut parts: Vec<String> = Vec::new();
    let mut i: usize = 0;
    while i < people.len()
        invariant
            i <= people@.len(),
            strings_view(parts@) == people@.take(i as int).map_values(|id: u64| user_mention_text(id)),
        decreases people@.len() - i,
    {
        let m = user_mention(people[i]);
        let ghost prev = strings_view(parts@);
        let ghost mv = m@;
        parts.push(m);
        assert(strings_view(parts@) =~= prev.push(mv));
        assert(people@.take(i + 1).map_values(|id: u64| user_mention_text(id)) =~= people@.take(
            i as int,
        ).map_values(|id: u64| user_mention_text(id)).push(mv));
        i = i + 1;
    }
    assert(people@.take(people@.len() as int) =~= people@);
    join(&parts, " ")
}

/// Who opened a ticket, as the summary shows it.
pub fn opener_text(opener: Option<u64>) -> (r: String)
    ensures
        r@ == match opener {
            Some(o) => user_mention_text(o),
            None => "unknown"@,
        },
{
    match opener {
        Some(o) => user_mention(o),
        None => String::from_str("unknown"),
    }
}

} // verus!
