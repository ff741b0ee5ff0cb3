//! Automatic moderation: the daily honeypot channel name, who counts as staff,
//! how an incoming message is routed, invite detection, and the per-user window
//! of recent images that catches image floods.
use vstd::prelude::*;
use std::collections::HashMap;
use crate::pattern::{ci_regex_builds, ci_regex_error, ci_regex_matches, CiRegex, PatternError, DEFAULT_SIZE_LIMIT};
use crate::records::now;
use vstd::std_specs::iter::IteratorSpec;
use crate::text::{chars_of, has_prefix, push_char, starts_with};

verus! {

broadcast use {
    vstd::string::group_string_axioms,
    vstd::std_specs::hash::group_hash_axioms,
    vstd::seq::group_seq_axioms,
};

/// How long an image stays in a user's window, in milliseconds.
pub const IMAGE_WINDOW_MS: i64 = 5000;

/// Images within one window that count as a flood.
pub const IMAGE_LIMIT: usize = 4;

/// Whether staff are left alone by the automatic checks.
pub const EXEMPT_STAFF: bool = true;

/// Characters of a message kept for the edit and delete logs.
pub const MIRROR_MAX: usize = 4000;

/// Administrator, Ban Members, Kick Members, Moderate Members and Manage Messages.
pub const STAFF_PERMISSIONS: u64 = 1099511635982;

// ----------------------------------------------------------------------
// The honeypot channel's name
// ----------------------------------------------------------------------

/// The day number of a Unix time, rounding toward zero as integer division does.
pub open spec fn day_of(secs: i64) -> i64 {
    if secs >= 0 {
        (secs / 86400) as i64
    } else {
        (-((-secs) / 86400)) as i64
    }
}

/// The day number of a Unix time.
pub fn day_number(secs: i64) -> (d: i64)
    ensures
        d == day_of(secs),
{
    if secs >= 0 {
        secs / 86400
    } else if secs == i64::MIN {
        -106751991167300
    } else {
        -((-secs) / 86400)
    }
}

/// Today's day number by the clock: the day number of the clock's reading,
/// whatever that reading was.
pub fn today() -> (d: i64)
    ensures
        exists|t: i64| #[trigger] day_of(t) == d,
{
    let t = now();
    let d = day_number(t);
    assert(day_of(t) == d);
    d
}

/// The starting state of the name generator for a guild and a day.
pub open spec fn name_seed(guild: u64, day: i64) -> u64 {
    let mixed = ((day as u64) as nat * 0x9E37_79B9_7F4A_7C15nat) % 0x1_0000_0000_0000_0000nat;
    (((mixed + guild as nat) % 0x1_0000_0000_0000_0000nat) as u64) | 1
}

/// One xorshift step.
pub open spec fn xorshift(x: u64) -> u64 {
    let a = x ^ (x << 13u64);
    let b = a ^ (a >> 7u64);
    b ^ (b << 17u64)
}

/// The generator state after `k` steps.
pub open spec fn xorshift_n(x: u64, k: nat) -> u64
    decreases k,
{
    if k == 0 {
        x
    } else {
        xorshift(xorshift_n(x, (k - 1) as nat))
    }
}

/// The letter or digit a generator state picks: `a`..`z`, then `0`..`9`.
pub open spec fn name_char(x: u64) -> char {
    let r = x % 36;
    if r < 26 {
        ((97 + r) as u8) as char
    } else {
        ((22 + r) as u8) as char
    }
}

/// The honeypot channel's name on a day: ten characters, one per generator step.
pub open spec fn daily_name_text(guild: u64, day: i64) -> Seq<char> {
    Seq::new(10, |i: int| name_char(xorshift_n(name_seed(guild, day), (i + 1) as nat)))
}

pub open spec fn is_name_char(c: char) -> bool {
    ('a' <= c && c <= 'z') || ('0' <= c && c <= '9')
}

/// The honeypot channel's name for a guild on a day; it changes every day.
pub fn daily_name(guild: u64, day: i64) -> (r: String)
    ensures
        r@ == daily_name_text(guild, day),
{
    let mixed = (day as u64).wrapping_mul(0x9E37_79B9_7F4A_7C15u64);
    let mut x = mixed.wrapping_add(guild) | 1;
    proof {
        assert(mixed + guild < 2 * 0x1_0000_0000_0000_0000nat);
        assert(x == name_seed(guild, day));
    }
    let ghost seed = x;
    let mut out = String::new();
    let mut i: usize = 0;
    while i < 10
        invariant
            i <= 10,
            x == xorshift_n(seed, i as nat),
            seed == name_seed(guild, day),
            out@ =~= daily_name_text(guild, day).take(i as int),
        decreases 10 - i,
    {
        x = x ^ (x << 13u64);
        x = x ^ (x >> 7u64);
        x = x ^ (x << 17u64);
        let r = x % 36;
        let c = if r < 26 {
            (97 + r) as u8 as char
        } else {
            (22 + r) as u8 as char
        };
        push_char(&mut out, c);
        i = i + 1;
        assert(daily_name_text(guild, day).take(i as int) =~= daily_name_text(guild, day).take(
            i - 1,
        ).push(c));
    }
    out
}

/// The honeypot name has ten characters, each a lowercase letter or a digit.
pub proof fn lemma_daily_name_shape(guild: u64, day: i64)
    ensures
        daily_name_text(guild, day).len() == 10,
        forall|i: int|
            0 <= i < 10 ==> is_name_char(#[trigger] daily_name_text(guild, day)[i]),
{
    assert forall|i: int| 0 <= i < 10 implies is_name_char(
        #[trigger] daily_name_text(guild, day)[i],
    ) by {
        let x = xorshift_n(name_seed(guild, day), (i + 1) as nat);
        let r = x % 36;
        assert(r < 36);
    }
}

// ----------------------------------------------------------------------
// Staff
// ----------------------------------------------------------------------

/// Whether a permission set grants any staff power.
pub open spec fn grants_staff(perms: u64) -> bool {
    perms & STAFF_PERMISSIONS != 0
}

/// Whether some role's permissions grant a staff power.
pub open spec fn any_grants_staff(p: Seq<u64>) -> bool {
    exists|i: int| 0 <= i < p.len() && grants_staff(#[trigger] p[i])
}

/// A member is staff when the guild is known and they own it, or one of their
/// roles grants a staff power.
pub open spec fn staff_spec(guild_known: bool, is_owner: bool, role_permissions: Option<Seq<u64>>) -> bool {
    guild_known && (is_owner || match role_permissions {
        Some(p) => any_grants_staff(p),
        None => false,
    })
}

pub open spec fn perms_view(o: Option<&Vec<u64>>) -> Option<Seq<u64>> {
    match o {
        Some(p) => Some(p@),
        None => None,
    }
}

/// Whether a member counts as staff. `role_permissions` holds the permissions of
/// each of their roles that the guild knows, or nothing when they are not a member.
pub fn is_staff(guild_known: bool, is_owner: bool, role_permissions: Option<&Vec<u64>>) -> (r: bool)
    ensures
        r == staff_spec(guild_known, is_owner, perms_view(role_permissions)),
{
    if !guild_known {
        return false;
    }
    if is_owner {
        return true;
    }
    match role_permissions {
        None => {
            false
        },
        Some(perms) => {
            any_staff_role(perms)
        },
    }
}

/// In a known guild, a member is staff exactly when they own it or at least one
/// of their roles, at whatever place in the list, has a permission among
/// Administrator, Ban Members, Kick Members, Moderate Members and Manage Messages;
/// in an unknown guild nobody is.
pub proof fn lemma_staff_by_any_role(is_owner: bool, perms: Seq<u64>)
    ensures
        staff_spec(true, is_owner, Some(perms)) <==> (is_owner || exists|i: int|
            0 <= i < perms.len() && #[trigger] perms[i] & STAFF_PERMISSIONS != 0),
        forall|i: int|
            0 <= i < perms.len() && #[trigger] perms[i] & STAFF_PERMISSIONS != 0 ==> staff_spec(
                true,
                is_owner,
                Some(perms),
            ),
        !staff_spec(false, is_owner, Some(perms)),
        staff_spec(true, true, None),
        !staff_spec(true, false, None),
{
    assert forall|i: int|
        0 <= i < perms.len() && #[trigger] perms[i] & STAFF_PERMISSIONS != 0 implies staff_spec(
            true,
            is_owner,
            Some(perms),
        ) by {
        assert(grants_staff(perms[i]));
    }
}

/// Whether some role grants a staff power.
fn any_staff_role(perms: &Vec<u64>) -> (r: bool)
    ensures
        r == any_grants_staff(perms@),
{
    let mut i: usize = 0;
    while i < perms.len()
        invariant
            i <= perms@.len(),
            forall|k: int| 0 <= k < i ==> !grants_staff(#[trigger] perms@[k]),
        decreases perms@.len() - i,
    {
        if perms[i] & STAFF_PERMISSIONS != 0 {
            assert(grants_staff(perms@[i as int]));
            return true;
        }
        i = i + 1;
    }
    false
}

// ----------------------------------------------------------------------
// Routing a message
// ----------------------------------------------------------------------

/// What is known of a new message when it arrives.
pub struct MessageFacts {
    pub in_guild: bool,
    pub from_self: bool,
    pub in_honeypot: bool,
    pub from_bot: bool,
    pub from_staff: bool,
}

/// What happens to a new message.
pub enum Route {
    /// Nothing at all.
    Ignore,
    /// It was posted in the honeypot.
    Honeypot,
    /// Kept for the logs, nothing more.
    MirrorOnly,
    /// Kept for the logs, then removed as an invite.
    MirrorThenInvite,
    /// Kept for the logs, then counted against the image window.
    MirrorThenImages,
}

pub open spec fn route_spec(f: MessageFacts, invite: Seq<char>, content: Seq<char>) -> Route {
    if !f.in_guild || f.from_self {
        Route::Ignore
    } else if f.in_honeypot {
        Route::Honeypot
    } else if f.from_bot {
        Route::Ignore
    } else if EXEMPT_STAFF && f.from_staff {
        Route::MirrorOnly
    } else if ci_regex_matches(invite, content) {
        Route::MirrorThenInvite
    } else {
        Route::MirrorThenImages
    }
}

/// Routes a new message: messages outside a guild and the bot's own are ignored;
/// anything in the honeypot trips it; other bots are ignored; everything else is
/// kept for the logs; staff go no further; an invite link is removed; otherwise
/// the message's images are counted.
pub fn route_message(f: &MessageFacts, invite: &CiRegex, content: &str) -> (r: Route)
    ensures
        r == route_spec(*f, invite@, content@),
{
    if !f.in_guild || f.from_self {
        Route::Ignore
    } else if f.in_honeypot {
        Route::Honeypot
    } else if f.from_bot {
        Route::Ignore
    } else if EXEMPT_STAFF && f.from_staff {
        Route::MirrorOnly
    } else if invite.is_match(content) {
        Route::MirrorThenInvite
    } else {
        Route::MirrorThenImages
    }
}

/// Anything posted in the honeypot by someone other than the bot itself trips
/// it, whoever the author is (bot, staff or not) and whatever the text.
pub proof fn lemma_honeypot_catches_every_post(f: MessageFacts, invite: Seq<char>, content: Seq<char>)
    requires
        f.in_guild,
        !f.from_self,
        f.in_honeypot,
    ensures
        route_spec(f, invite, content) == Route::Honeypot,
{
}

/// What the honeypot does to whoever posted in it.
pub enum HoneypotAction {
    /// A bot: the message is deleted.
    DeleteOnly,
    /// Exempt staff: the message is deleted and the trip is logged.
    DeleteAndLog,
    /// Anyone else: permanently banned.
    Ban,
}

pub fn honeypot_action(from_bot: bool, from_staff: bool) -> (a: HoneypotAction)
    ensures
        from_bot ==> a == HoneypotAction::DeleteOnly,
        !from_bot && EXEMPT_STAFF && from_staff ==> a == HoneypotAction::DeleteAndLog,
        !from_bot && !(EXEMPT_STAFF && from_staff) ==> a == HoneypotAction::Ban,
{
    if from_bot {
        HoneypotAction::DeleteOnly
    } else if EXEMPT_STAFF && from_staff {
        HoneypotAction::DeleteAndLog
    } else {
        HoneypotAction::Ban
    }
}

// ----------------------------------------------------------------------
// Invites
// ----------------------------------------------------------------------

/// The invite-link pattern, matched without regard to case.
pub open spec fn invite_pattern() -> Seq<char> {
    "(?:discord(?:app)?\\.com/invite|discord\\.gg|discord\\.me|dsc\\.gg|invite\\.gg)/[a-z0-9\\-_]+"@
}

/// Compiles the invite-link pattern with the default size limit.
pub fn invite_filter() -> (r: Result<CiRegex, PatternError>)
    ensures
        r is Ok <==> ci_regex_builds(invite_pattern(), DEFAULT_SIZE_LIMIT),
        r matches Ok(c) ==> c@ == invite_pattern(),
        r matches Err(e) ==> e.message@ == ci_regex_error(invite_pattern(), DEFAULT_SIZE_LIMIT),
{
    CiRegex::compile(
        "(?:discord(?:app)?\\.com/invite|discord\\.gg|discord\\.me|dsc\\.gg|invite\\.gg)/[a-z0-9\\-_]+",
        DEFAULT_SIZE_LIMIT,
    )
}

// ----------------------------------------------------------------------
// Images and the flood window
// ----------------------------------------------------------------------

pub open spec fn is_image_type(t: Option<Seq<char>>) -> bool {
    match t {
        Some(s) => has_prefix(s, "image/"@),
        None => false,
    }
}

pub open spec fn type_view(t: Option<String>) -> Option<Seq<char>> {
    match t {
        Some(s) => Some(s@),
        None => None,
    }
}

/// How many of the content types name an image (`image/...`).
pub open spec fn image_count(types: Seq<Option<Seq<char>>>) -> nat
    decreases types.len(),
{
    if types.len() == 0 {
        0
    } else {
        image_count(types.drop_last()) + if is_image_type(types.last()) {
            1nat
        } else {
            0nat
        }
    }
}

pub open spec fn types_view(types: Seq<Option<String>>) -> Seq<Option<Seq<char>>> {
    types.map_values(|t: Option<String>| type_view(t))
}

/// Counts the attachments whose content type starts with "image/".
pub fn count_images(content_types: &Vec<Option<String>>) -> (n: usize)
    ensures
        n == image_count(types_view(content_types@)),
{
    let image = chars_of("image/");
    let mut n: usize = 0;
    let mut i: usize = 0;
    while i < content_types.len()
        invariant
            i <= content_types@.len(),
            image@ == "image/"@,
            n == image_count(types_view(content_types@).take(i as int)),
            n <= i,
        decreases content_types@.len() - i,
    {
        let ghost tv = types_view(content_types@);
        assert(tv.take(i + 1).drop_last() =~= tv.take(i as int));
        assert(tv.take(i + 1).last() == type_view(content_types@[i as int]));
        match &content_types[i] {
            Some(t) => {
                if starts_with(&chars_of(t.as_str()), &image) {
                    n = n + 1;
                }
            },
            None => {},
        }
        i = i + 1;
    }
    assert(types_view(content_types@).take(content_types@.len() as int) =~= types_view(
        content_types@,
    ));
    n
}

/// Whether a stamp taken at `t` is still inside the window at `now`.
pub open spec fn in_window(now: i64, t: i64) -> bool {
    now - t < IMAGE_WINDOW_MS
}

/// The stamps still inside the window at `now`, in their order.
pub open spec fn recent(now: i64, stamps: Seq<i64>) -> Seq<i64> {
    stamps.filter(|t: i64| in_window(now, t))
}

fn still_in_window(now: i64, t: i64) -> (r: bool)
    ensures
        r == in_window(now, t),
{
    (now as i128) - (t as i128) < (IMAGE_WINDOW_MS as i128)
}

/// The stamps a user has after posting `images` images at `now`.
pub open spec fn window_after(now: i64, stamps: Seq<i64>, images: nat) -> Seq<i64> {
    recent(now, stamps) + Seq::new(images, |k: int| now)
}

/// Each user's recent image stamps, in milliseconds.
pub struct ImageWindows {
    seen: HashMap<u64, Vec<i64>>,
}

impl View for ImageWindows {
    type V = Map<u64, Seq<i64>>;

    closed spec fn view(&self) -> Map<u64, Seq<i64>> {
        Map::new(|u: u64| self.seen@.contains_key(u), |u: u64| self.seen@[u]@)
    }
}

/// A user's stamps, or none when they have no window yet.
pub open spec fn stamps_of(m: Map<u64, Seq<i64>>, user: u64) -> Seq<i64> {
    if m.contains_key(user) {
        m[user]
    } else {
        Seq::<i64>::empty()
    }
}

impl ImageWindows {
    pub fn new() -> (w: ImageWindows)
        ensures
            w@ == Map::<u64, Seq<i64>>::empty(),
    {
        let w = ImageWindows { seen: HashMap::new() };
        assert(w@ =~= Map::<u64, Seq<i64>>::empty());
        w
    }

    /// Records `images` images posted by `user` at `now` and tells whether that
    /// makes a flood. Stamps that left the window are dropped first; at
    /// `IMAGE_LIMIT` stamps or more the user's window is emptied and a flood is
    /// reported. A message with no images changes nothing.
    pub fn record(&mut self, user: u64, now: i64, images: usize) -> (tripped: bool)
        ensures
            images == 0 ==> !tripped && final(self)@ == old(self)@,
            images > 0 ==> {
                let next = window_after(now, stamps_of(old(self)@, user), images as nat);
                &&& tripped == (next.len() >= IMAGE_LIMIT)
                &&& final(self)@ == old(self)@.insert(
                    user,
                    if tripped {
                        Seq::<i64>::empty()
                    } else {
                        next
                    },
                )
            },
    {
        if images == 0 {
            return false;
        }
        let ghost before = self@;
        let prev = self.seen.remove(&user);
        let ghost old_stamps = stamps_of(before, user);
        let old_vec: Vec<i64> = match prev {
            Some(v) => v,
            None => Vec::new(),
        };
        assert(old_vec@ == old_stamps);
        let mut next = recent_stamps(now, &old_vec);
        let ghost kept = next@;
        let mut k: usize = 0;
        while k < images
            invariant
                k <= images,
                next@ == kept + Seq::new(k as nat, |j: int| now),
            decreases images - k,
        {
            next.push(now);
            k = k + 1;
            assert(next@ =~= kept + Seq::new(k as nat, |j: int| now));
        }
        let tripped = next.len() >= IMAGE_LIMIT;
        if tripped {
            next.clear();
        }
        let ghost stored = next@;
        self.seen.insert(user, next);
        assert(self@ =~= before.insert(user, stored));
        tripped
    }

    /// Drops every stamp that has left the window at `now`, and every user left
    /// with none.
    pub fn prune(&mut self, now: i64)
        ensures
            final(self)@ == pruned(old(self)@, now),
    {
        let ghost before = self@;
        let users = key_list(&self.seen);
        let mut i: usize = 0;
        while i < users.len()
            invariant
                i <= users@.len(),
                users@.no_duplicates(),
                users@.to_set() == before.dom(),
                forall|u: u64| #[trigger] self@.contains_key(u) <==> (before.contains_key(u) && (
                    users@.take(i as int).contains(u) ==> recent(now, before[u]).len() > 0)),
                forall|u: u64| #[trigger] self@.contains_key(u) ==> self@[u] == if users@.take(
                    i as int,
                ).contains(u) {
                    recent(now, before[u])
                } else {
                    before[u]
                },
            decreases users@.len() - i,
        {
            let u = users[i];
            let ghost cur = self@;
            assert(users@.contains(u));
            assert(before.contains_key(u));
            assert(!users@.take(i as int).contains(u)) by {
                if users@.take(i as int).contains(u) {
                    let k = choose|k: int| 0 <= k < i && users@.take(i as int)[k] == u;
                    assert(users@[k] == users@[i as int]);
                }
            }
            assert(cur.contains_key(u));
            let taken = self.seen.remove(&u);
            let stamps: Vec<i64> = match taken {
                Some(v) => v,
                None => Vec::new(),
            };
            assert(stamps@ == before[u]);
            let kept = recent_stamps(now, &stamps);
            let ghost nonempty = kept@.len() > 0;
            let ghost kept_v = kept@;
            if kept.len() > 0 {
                self.seen.insert(u, kept);
            }
            assert(self@ =~= if nonempty {
                cur.insert(u, kept_v)
            } else {
                cur.remove(u)
            });
            assert(kept_v == recent(now, before[u]));
            assert(users@.take(i + 1) =~= users@.take(i as int).push(u));
            assert forall|v: u64| #[trigger] self@.contains_key(v) <==> (before.contains_key(v) && (
                users@.take(i + 1).contains(v) ==> recent(now, before[v]).len() > 0)) by {
                if v != u {
                    assert(users@.take(i + 1).contains(v) <==> users@.take(i as int).contains(v));
                } else {
                    assert(users@.take(i + 1)[i as int] == v);
                }
            }
            assert forall|v: u64| #[trigger] self@.contains_key(v) implies self@[v] == if users@.take(
                i + 1,
            ).contains(v) {
                recent(now, before[v])
            } else {
                before[v]
            } by {
                if v != u {
                    assert(users@.take(i + 1).contains(v) <==> users@.take(i as int).contains(v));
                } else {
                    assert(users@.take(i + 1)[i as int] == v);
                }
            }
            i = i + 1;
        }
        assert(users@.take(users@.len() as int) =~= users@);
        assert forall|u: u64| users@.contains(u) <==> before.contains_key(u) by {
            assert(users@.to_set().contains(u) <==> users@.contains(u));
        }
        assert(self@ =~= pruned(before, now));
    }
}

/// The keys of a map, each once.
fn key_list(m: &HashMap<u64, Vec<i64>>) -> (users: Vec<u64>)
    ensures
        users@.no_duplicates(),
        users@.to_set() == m@.dom(),
{
    let mut users: Vec<u64> = Vec::new();
    for u in it: m.keys()
        invariant
            it.seq() == vstd::std_specs::hash::spec_keys_iter(m).remaining(),
            users@ == it.seq().unref().take(it.index() as int),
    {
        users.push(*u);
        assert(users@ =~= it.seq().unref().take(it.index() + 1));
    }
    assert(users@ =~= vstd::std_specs::hash::spec_keys_iter(m).remaining().unref());
    users
}

/// The stamps still inside the window at `now`, in their order.
fn recent_stamps(now: i64, stamps: &Vec<i64>) -> (r: Vec<i64>)
    ensures
        r@ == recent(now, stamps@),
{
    let mut next: Vec<i64> = Vec::new();
    let mut i: usize = 0;
    while i < stamps.len()
        invariant
            i <= stamps@.len(),
            next@ == recent(now, stamps@.take(i as int)),
        decreases stamps@.len() - i,
    {
        let t = stamps[i];
        proof {
            let f = |t: i64| in_window(now, t);
            assert(stamps@.take(i + 1) =~= stamps@.take(i as int).push(t));
            stamps@.take(i as int).lemma_filter_push(t, f);
        }
        if still_in_window(now, t) {
            next.push(t);
        }
        i = i + 1;
    }
    assert(stamps@.take(stamps@.len() as int) =~= stamps@);
    next
}

/// The windows with only the stamps still inside them, and only non-empty ones.
pub open spec fn pruned(m: Map<u64, Seq<i64>>, now: i64) -> Map<u64, Seq<i64>> {
    Map::new(
        |u: u64| m.contains_key(u) && recent(now, m[u]).len() > 0,
        |u: u64| recent(now, m[u]),
    )
}

} // verus!

verus! {

/// Whether the honeypot channel must be renamed: unless the stored day is today.
pub fn needs_rename(stored_day: Option<u64>, day: i64) -> (r: bool)
    ensures
        r == (stored_day != Some(day as u64)),
{
    match stored_day {
        Some(d) => d != day as u64,
        None => true,
    }
}

/// The part of a message kept for the logs: its first `MIRROR_MAX` characters.
pub fn mirror_content(content: &str) -> (r: String)
    ensures
        r@ == crate::util::first_chars(content@, MIRROR_MAX as nat),
{
    let cs = chars_of(content);
    if cs.len() <= MIRROR_MAX {
        return crate::text::string_from(&cs);
    }
    let head = crate::text::slice_chars(&cs, 0, MIRROR_MAX);
    crate::text::string_from(&head)
}

/// The reason recorded for an image flood.
pub fn image_flood_reason() -> (r: String)
    ensures
        r@ == crate::text::decimal(IMAGE_LIMIT as nat) + "+ images within "@ + crate::text::decimal(
            (IMAGE_WINDOW_MS / 1000) as nat,
        ) + "s"@,
{
    let mut r = String::new();
    crate::text::push_u64(&mut r, IMAGE_LIMIT as u64);
    crate::text::push_str(&mut r, "+ images within ");
    crate::text::push_u64(&mut r, (IMAGE_WINDOW_MS / 1000) as u64);
    crate::text::push_str(&mut r, "s");
    assert(r@ =~= crate::text::decimal(IMAGE_LIMIT as nat) + "+ images within "@
        + crate::text::decimal((IMAGE_WINDOW_MS / 1000) as nat) + "s"@);
    r
}

} // verus!

verus! {

/// After a message is counted, every stamp in the user's window is inside the
/// window.
pub proof fn lemma_window_after_is_recent(now: i64, stamps: Seq<i64>, images: nat)
    ensures
        forall|i: int|
            0 <= i < window_after(now, stamps, images).len() ==> in_window(
                now,
                #[trigger] window_after(now, stamps, images)[i],
            ),
{
    let f = |t: i64| in_window(now, t);
    let r = recent(now, stamps);
    assert forall|i: int| 0 <= i < window_after(now, stamps, images).len() implies in_window(
        now,
        #[trigger] window_after(now, stamps, images)[i],
    ) by {
        if i < r.len() {
            stamps.lemma_filter_pred(f, i);
        }
    }
}

} // verus!
