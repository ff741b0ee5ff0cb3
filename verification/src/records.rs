//! Case records and the queries that browse them: the shape of a record row,
//! the `/cases` query with its escaped substring search, and the clock that
//! stamps new records.
use vstd::prelude::*;
use crate::text::{chars_of, parse_u64, parsed_u64, push_char, push_str};
use std::time::{SystemTime, SystemTimeError, Duration};

verus! {

broadcast use {vstd::string::group_string_axioms, vstd::seq::group_seq_axioms};

// ----------------------------------------------------------------------
// The clock
// ----------------------------------------------------------------------

#[verifier::external_type_specification]
#[verifier::external_body]
pub struct ExSystemTime(SystemTime);

#[verifier::external_type_specification]
#[verifier::external_body]
pub struct ExSystemTimeError(SystemTimeError);

/// `SystemTime::now`; nothing is claimed of the reading.
#[verifier::external_body]
fn system_now() -> SystemTime {
    SystemTime::now()
}

/// `SystemTime::duration_since(UNIX_EPOCH)`; it fails for a time before the epoch.
/// Nothing is claimed of which outcome comes.
#[verifier::external_body]
fn since_unix_epoch(t: &SystemTime) -> Result<Duration, SystemTimeError> {
    t.duration_since(std::time::UNIX_EPOCH)
}

/// `Duration::as_secs`; nothing is claimed of the value.
#[verifier::external_body]
fn duration_secs_of(d: &Duration) -> u64 {
    d.as_secs()
}

/// `Duration::as_millis`; nothing is claimed of the value.
#[verifier::external_body]
fn duration_millis_of(d: &Duration) -> u128 {
    d.as_millis()
}

/// A clock reading as a signed count of units since the Unix epoch: the
/// count reinterpreted as `i64`, or 0 when the clock read earlier than the epoch.
pub fn epoch_reading(count: Option<u128>) -> (r: i64)
    ensures
        r == match count {
            Some(c) => c as i64,
            None => 0,
        },
{
    match count {
        Some(c) => c as i64,
        None => 0,
    }
}

/// Seconds since the Unix epoch, or 0 when the clock reads earlier than that.
pub fn now() -> i64 {
    let count = match since_unix_epoch(&system_now()) {
        Ok(d) => Some(duration_secs_of(&d) as u128),
        Err(_) => None,
    };
    epoch_reading(count)
}

/// Milliseconds since the Unix epoch, or 0 when the clock reads earlier than that.
pub fn now_ms() -> i64 {
    let count = match since_unix_epoch(&system_now()) {
        Ok(d) => Some(duration_millis_of(&d)),
        Err(_) => None,
    };
    epoch_reading(count)
}

// ----------------------------------------------------------------------
// Records
// ----------------------------------------------------------------------

/// One moderation case, as stored; `id` is its case number.
#[derive(Debug)]
pub struct Record {
    pub id: i64,
    pub user_id: u64,
    pub mod_id: u64,
    pub kind: String,
    pub reason: String,
    pub created: i64,
    pub expires: Option<i64>,
    pub undone: bool,
}

impl Record {
    /// A record from the columns of a stored row: ids are stored as signed
    /// integers and reinterpreted, `undone` is any non-zero flag.
    pub fn from_row(
        id: i64,
        user_id: i64,
        mod_id: i64,
        kind: String,
        reason: String,
        created: i64,
        expires: Option<i64>,
        undone: i64,
    ) -> (r: Record)
        ensures
            r.id == id,
            r.user_id == user_id as u64,
            r.mod_id == mod_id as u64,
            r.kind == kind,
            r.reason == reason,
            r.created == created,
            r.expires == expires,
            r.undone == (undone != 0),
    {
        Record {
            id,
            user_id: user_id as u64,
            mod_id: mod_id as u64,
            kind,
            reason,
            created,
            expires,
            undone: undone != 0,
        }
    }
}

/// A message remembered for the edit and delete logs.
#[derive(Debug)]
pub struct Cached {
    pub author_id: u64,
    pub content: String,
    pub files: String,
}

impl Cached {
    /// A cached message from the columns of a stored row.
    pub fn from_row(author_id: i64, content: String, files: String) -> (r: Cached)
        ensures
            r.author_id == author_id as u64,
            r.content == content,
            r.files == files,
    {
        Cached { author_id: author_id as u64, content, files }
    }
}

/// A stored value read as an unsigned number; anything missing or unreadable is
/// no number.
pub fn stored_u64(v: Option<String>) -> (r: Option<u64>)
    ensures
        r == match v {
            Some(s) => parsed_u64(s@),
            None => None,
        },
{
    match v {
        Some(s) => parse_u64(&chars_of(s.as_str())),
        None => None,
    }
}

// ----------------------------------------------------------------------
// LIKE patterns
// ----------------------------------------------------------------------

/// One character of a search text, escaped for a LIKE pattern whose escape
/// character is a backslash.
pub open spec fn like_escaped(c: char) -> Seq<char> {
    if c == '\\' || c == '%' || c == '_' {
        seq!['\\', c]
    } else {
        seq![c]
    }
}

/// A search text with its LIKE wildcards and escape character escaped.
pub open spec fn escape_like(q: Seq<char>) -> Seq<char>
    decreases q.len(),
{
    if q.len() == 0 {
        Seq::<char>::empty()
    } else {
        like_escaped(q[0]) + escape_like(q.drop_first())
    }
}

/// What a LIKE pattern says at each position.
pub enum LikeToken {
    /// Exactly this character.
    Literal(char),
    /// Any one character (`_`).
    AnyChar,
    /// Any run of characters (`%`).
    AnyRun,
}

/// How a LIKE pattern with escape character `\` reads, position by position.
pub open spec fn like_tokens(p: Seq<char>) -> Seq<LikeToken>
    decreases p.len(),
{
    if p.len() == 0 {
        Seq::<LikeToken>::empty()
    } else if p[0] == '\\' && p.len() >= 2 {
        seq![LikeToken::Literal(p[1])] + like_tokens(p.skip(2))
    } else if p[0] == '%' {
        seq![LikeToken::AnyRun] + like_tokens(p.drop_first())
    } else if p[0] == '_' {
        seq![LikeToken::AnyChar] + like_tokens(p.drop_first())
    } else {
        seq![LikeToken::Literal(p[0])] + like_tokens(p.drop_first())
    }
}

/// Each character of `q`, to be matched as itself.
pub open spec fn literals(q: Seq<char>) -> Seq<LikeToken> {
    q.map_values(|c: char| literal(c))
}

/// A pattern position that matches exactly `c`.
pub open spec fn literal(c: char) -> LikeToken {
    LikeToken::Literal(c)
}

proof fn lemma_escape_like_push(q: Seq<char>, c: char)
    ensures
        escape_like(q.push(c)) == escape_like(q) + like_escaped(c),
    decreases q.len(),
{
    if q.len() == 0 {
        assert(q.push(c).drop_first() =~= Seq::<char>::empty());
        assert(escape_like(Seq::<char>::empty()) == Seq::<char>::empty());
        assert(q.push(c)[0] == c);
        assert(escape_like(q) == Seq::<char>::empty());
        assert(escape_like(q.push(c)) =~= like_escaped(c));
    } else {
        lemma_escape_like_push(q.drop_first(), c);
        assert(q.push(c).drop_first() =~= q.drop_first().push(c));
        assert(escape_like(q.push(c)) =~= escape_like(q) + like_escaped(c));
    }
}

proof fn lemma_escaped_tokens(q: Seq<char>, rest: Seq<char>)
    ensures
        like_tokens(escape_like(q) + rest) == literals(q) + like_tokens(rest),
    decreases q.len(),
{
    if q.len() == 0 {
        assert(escape_like(q) + rest =~= rest);
        assert(literals(q).len() == 0);
        assert(literals(q) + like_tokens(rest) =~= like_tokens(rest));
    } else {
        let c = q[0];
        lemma_escaped_tokens(q.drop_first(), rest);
        let tail = escape_like(q.drop_first()) + rest;
        let whole = escape_like(q) + rest;
        assert(whole =~= like_escaped(c) + tail);
        if c == '\\' || c == '%' || c == '_' {
            assert(whole.skip(2) =~= tail);
        } else {
            assert(whole.drop_first() =~= tail);
        }
        let lq = literals(q);
        let lr = seq![literal(c)] + literals(q.drop_first());
        assert(lq.len() == lr.len());
        assert forall|i: int| 0 <= i < lq.len() implies lq[i] == lr[i] by {
            if i > 0 {
                assert(lr[i] == literals(q.drop_first())[i - 1]);
                assert(q.drop_first()[i - 1] == q[i]);
            }
        }
        assert(lq =~= lr);
        assert(like_tokens(whole) =~= literals(q) + like_tokens(rest));
    }
}

/// An escaped search text, used as a LIKE pattern, matches its characters
/// literally: no wildcard survives escaping.
pub proof fn lemma_escape_like_is_literal(q: Seq<char>)
    ensures
        like_tokens(escape_like(q)) == literals(q),
{
    lemma_escaped_tokens(q, Seq::<char>::empty());
    assert(escape_like(q) + Seq::<char>::empty() =~= escape_like(q));
    assert(literals(q) + Seq::<LikeToken>::empty() =~= literals(q));
}

/// The `/cases` search pattern is "anything, the search text literally, anything":
/// a substring match.
pub proof fn lemma_search_pattern_is_substring(q: Seq<char>)
    ensures
        like_tokens(search_pattern(q)) == seq![LikeToken::AnyRun] + literals(q) + seq![
            LikeToken::AnyRun,
        ],
{
    let p = search_pattern(q);
    assert(p.drop_first() =~= escape_like(q) + seq!['%']);
    lemma_escaped_tokens(q, seq!['%']);
    let pc = seq!['%'];
    assert(pc.drop_first() =~= Seq::<char>::empty());
    assert(like_tokens(Seq::<char>::empty()) == Seq::<LikeToken>::empty());
    assert(pc[0] == '%');
    assert(like_tokens(pc) =~= seq![LikeToken::AnyRun]);
}

/// Escapes `\`, `%` and `_` with a backslash.
pub fn escape_like_text(q: &str) -> (r: String)
    ensures
        r@ == escape_like(q@),
{
    let cs = chars_of(q);
    let mut out = String::new();
    let mut i: usize = 0;
    while i < cs.len()
        invariant
            i <= cs@.len(),
            cs@ == q@,
            out@ == escape_like(cs@.take(i as int)),
        decreases cs@.len() - i,
    {
        let c = cs[i];
        if c == '\\' || c == '%' || c == '_' {
            push_char(&mut out, '\\');
        }
        push_char(&mut out, c);
        proof {
            lemma_escape_like_push(cs@.take(i as int), c);
            assert(cs@.take(i + 1) =~= cs@.take(i as int).push(c));
        }
        i = i + 1;
    }
    assert(cs@.take(cs@.len() as int) =~= cs@);
    out
}

/// The LIKE pattern for a reason containing `q`.
pub open spec fn search_pattern(q: Seq<char>) -> Seq<char> {
    seq!['%'] + escape_like(q) + seq!['%']
}

// ----------------------------------------------------------------------
// The /cases query
// ----------------------------------------------------------------------

/// A value bound to a `?` of a query.
pub enum SqlArg {
    Text(String),
    Int(i64),
}

/// A bound value as plain data.
pub enum SqlArgView {
    Text(Seq<char>),
    Int(i64),
}

impl View for SqlArg {
    type V = SqlArgView;

    open spec fn view(&self) -> SqlArgView {
        match self {
            SqlArg::Text(s) => SqlArgView::Text(s@),
            SqlArg::Int(i) => SqlArgView::Int(*i),
        }
    }
}

/// A query and the values for its `?` placeholders, in order.
pub struct Query {
    pub sql: String,
    pub args: Vec<SqlArg>,
}

pub open spec fn args_view(args: Seq<SqlArg>) -> Seq<SqlArgView> {
    args.map_values(|a: SqlArg| a@)
}

/// An optional string as optional characters.
pub open spec fn opt_view(o: Option<String>) -> Option<Seq<char>> {
    match o {
        Some(s) => Some(s@),
        None => None,
    }
}

pub open spec fn opt_text(cond: bool, s: Seq<char>) -> Seq<char> {
    if cond {
        s
    } else {
        Seq::<char>::empty()
    }
}

pub open spec fn opt_arg(cond: bool, a: SqlArgView) -> Seq<SqlArgView> {
    if cond {
        seq![a]
    } else {
        Seq::<SqlArgView>::empty()
    }
}

/// The text of the `/cases` query for the filters that are present.
pub open spec fn browse_sql(has_kind: bool, has_mod: bool, has_search: bool) -> Seq<char> {
    "select id, user_id, mod_id, kind, reason, created, expires, undone from records where 1 = 1"@
        + opt_text(has_kind, " and kind = ?"@) + opt_text(has_mod, " and mod_id = ?"@) + opt_text(
        has_search,
        " and reason like ? escape '\\'"@,
    ) + " order by created desc limit ?"@
}

/// The values bound to the `/cases` query, one per placeholder.
pub open spec fn browse_args(
    kind: Option<Seq<char>>,
    mod_id: Option<u64>,
    search: Option<Seq<char>>,
    limit: i64,
) -> Seq<SqlArgView> {
    opt_arg(kind is Some, SqlArgView::Text(kind->0)) + opt_arg(
        mod_id is Some,
        SqlArgView::Int(mod_id->0 as i64),
    ) + opt_arg(search is Some, SqlArgView::Text(search_pattern(search->0))) + seq![
        SqlArgView::Int(limit),
    ]
}

/// The query text with `cond` put in at some place, the rest unchanged.
pub open spec fn inserted_into(base: Seq<char>, cond: Seq<char>, full: Seq<char>) -> bool {
    exists|i: int| 0 <= i <= base.len() && #[trigger] base.take(i) + cond + base.skip(i) == full
}

/// Cuts `whole`, made of `front` then `back`, between the two.
proof fn lemma_split_at(front: Seq<char>, back: Seq<char>, cond: Seq<char>, full: Seq<char>)
    requires
        front + cond + back == full,
    ensures
        inserted_into(front + back, cond, full),
{
    let base = front + back;
    let i = front.len() as int;
    assert(base.take(i) =~= front);
    assert(base.skip(i) =~= back);
}

/// The moderator filter narrows on its own, whatever the kind and search are:
/// giving a moderator puts the condition " and mod_id = ?" into the query and
/// binds that moderator's id among the values right after the kind's value, if
/// there is one; nothing else changes.
#[verifier::spinoff_prover]
pub proof fn lemma_moderator_filter_stands_alone(
    kind: Option<Seq<char>>,
    search: Option<Seq<char>>,
    m: u64,
    limit: i64,
)
    ensures
        inserted_into(
            browse_sql(kind is Some, false, search is Some),
            " and mod_id = ?"@,
            browse_sql(kind is Some, true, search is Some),
        ),
        browse_args(kind, Some(m), search, limit) == browse_args(kind, None, search, limit).take(
            if kind is Some {
                1int
            } else {
                0
            },
        ) + seq![SqlArgView::Int(m as i64)] + browse_args(kind, None, search, limit).skip(
            if kind is Some {
                1int
            } else {
                0
            },
        ),
{
    let head = "select id, user_id, mod_id, kind, reason, created, expires, undone from records where 1 = 1"@;
    let ks = kind is Some;
    let ss = search is Some;
    let front = head + opt_text(ks, " and kind = ?"@);
    let back = opt_text(ss, " and reason like ? escape '\\'"@) + " order by created desc limit ?"@;
    assert(browse_sql(ks, false, ss) =~= front + back);
    assert(front + " and mod_id = ?"@ + back =~= browse_sql(ks, true, ss));
    lemma_split_at(front, back, " and mod_id = ?"@, browse_sql(ks, true, ss));
    let j = if ks {
        1int
    } else {
        0
    };
    let a = browse_args(kind, None, search, limit);
    assert(a.take(j) =~= opt_arg(ks, SqlArgView::Text(kind->0)));
    assert(browse_args(kind, Some(m), search, limit) =~= a.take(j) + seq![
        SqlArgView::Int(m as i64),
    ] + a.skip(j));
}

/// The kind filter narrows on its own: giving a kind puts " and kind = ?" into
/// the query and binds the kind as the first value; nothing else changes.
#[verifier::spinoff_prover]
pub proof fn lemma_kind_filter_stands_alone(
    mod_id: Option<u64>,
    search: Option<Seq<char>>,
    k: Seq<char>,
    limit: i64,
)
    ensures
        inserted_into(
            browse_sql(false, mod_id is Some, search is Some),
            " and kind = ?"@,
            browse_sql(true, mod_id is Some, search is Some),
        ),
        browse_args(Some(k), mod_id, search, limit) == seq![SqlArgView::Text(k)] + browse_args(
            None,
            mod_id,
            search,
            limit,
        ),
{
    let head = "select id, user_id, mod_id, kind, reason, created, expires, undone from records where 1 = 1"@;
    let ms = mod_id is Some;
    let ss = search is Some;
    let back = opt_text(ms, " and mod_id = ?"@) + opt_text(ss, " and reason like ? escape '\\'"@)
        + " order by created desc limit ?"@;
    assert(browse_sql(false, ms, ss) =~= head + back);
    assert(head + " and kind = ?"@ + back =~= browse_sql(true, ms, ss));
    lemma_split_at(head, back, " and kind = ?"@, browse_sql(true, ms, ss));
    assert(browse_args(Some(k), mod_id, search, limit) =~= seq![SqlArgView::Text(k)]
        + browse_args(None, mod_id, search, limit));
}

/// The search narrows on its own: giving one puts the `like` condition into the
/// query and binds its escaped pattern just before the limit; nothing else changes.
#[verifier::spinoff_prover]
pub proof fn lemma_search_filter_stands_alone(
    kind: Option<Seq<char>>,
    mod_id: Option<u64>,
    q: Seq<char>,
    limit: i64,
)
    ensures
        inserted_into(
            browse_sql(kind is Some, mod_id is Some, false),
            " and reason like ? escape '\\'"@,
            browse_sql(kind is Some, mod_id is Some, true),
        ),
        browse_args(kind, mod_id, Some(q), limit) == browse_args(kind, mod_id, None, limit).drop_last()
            + seq![SqlArgView::Text(search_pattern(q)), SqlArgView::Int(limit)],
{
    let head = "select id, user_id, mod_id, kind, reason, created, expires, undone from records where 1 = 1"@;
    let ks = kind is Some;
    let ms = mod_id is Some;
    let front = head + opt_text(ks, " and kind = ?"@) + opt_text(ms, " and mod_id = ?"@);
    let back = " order by created desc limit ?"@;
    let sc = " and reason like ? escape '\\'"@;
    assert(browse_sql(ks, ms, false) =~= front + back);
    assert(front + sc + back =~= browse_sql(ks, ms, true));
    lemma_split_at(front, back, sc, browse_sql(ks, ms, true));
    assert(browse_args(kind, mod_id, Some(q), limit) =~= browse_args(
        kind,
        mod_id,
        None,
        limit,
    ).drop_last() + seq![SqlArgView::Text(search_pattern(q)), SqlArgView::Int(limit)]);
}

/// Builds the `/cases` query: every filter that is given narrows the result
/// (kind equal, moderator equal, reason containing the search text with its
/// wildcards escaped); newest first, at most `limit` rows.
pub fn browse_query(
    kind: Option<String>,
    mod_id: Option<u64>,
    search: Option<String>,
    limit: i64,
) -> (q: Query)
    ensures
        q.sql@ == browse_sql(kind is Some, mod_id is Some, search is Some),
        args_view(q.args@) == browse_args(opt_view(kind), mod_id, opt_view(search), limit),
{
    let ghost kind_v = opt_view(kind);
    let ghost search_v = opt_view(search);
    let ghost has_kind = kind is Some;
    let ghost has_mod = mod_id is Some;
    let ghost has_search = search is Some;
    let mut sql = String::new();
    push_str(
        &mut sql,
        "select id, user_id, mod_id, kind, reason, created, expires, undone from records where 1 = 1",
    );
    let mut args: Vec<SqlArg> = Vec::new();
    match kind {
        Some(k) => {
            push_str(&mut sql, " and kind = ?");
            args.push(SqlArg::Text(k));
        },
        None => {},
    }
    assert(args_view(args@) =~= opt_arg(has_kind, SqlArgView::Text(kind_v->0)));
    let ghost a1 = args_view(args@);
    match mod_id {
        Some(m) => {
            push_str(&mut sql, " and mod_id = ?");
            args.push(SqlArg::Int(m as i64));
        },
        None => {},
    }
    assert(args_view(args@) =~= a1 + opt_arg(has_mod, SqlArgView::Int(mod_id->0 as i64)));
    let ghost a2 = args_view(args@);
    match search {
        Some(s) => {
            push_str(&mut sql, " and reason like ? escape '\\'");
            let mut pat = String::new();
            push_char(&mut pat, '%');
            let esc = escape_like_text(s.as_str());
            push_str(&mut pat, esc.as_str());
            push_char(&mut pat, '%');
            assert(pat@ =~= search_pattern(s@));
            args.push(SqlArg::Text(pat));
        },
        None => {},
    }
    assert(args_view(args@) =~= a2 + opt_arg(
        has_search,
        SqlArgView::Text(search_pattern(search_v->0)),
    ));
    let ghost a3 = args_view(args@);
    push_str(&mut sql, " order by created desc limit ?");
    args.push(SqlArg::Int(limit));
    assert(args_view(args@) =~= a3 + seq![SqlArgView::Int(limit)]);
    assert(sql@ =~= browse_sql(has_kind, has_mod, has_search));
    Query { sql, args }
}

} // verus!

verus! {

/// Days a cached message is kept.
pub const CACHE_KEEP_DAYS: i64 = 14;

/// Cached messages created before this time are pruned.
pub fn cache_cutoff(now: i64, keep_days: i64) -> (r: i64)
    requires
        i64::MIN <= now - keep_days * 86400 <= i64::MAX,
        i64::MIN <= keep_days * 86400 <= i64::MAX,
    ensures
        r == now - keep_days * 86400,
{
    now - keep_days * 86400
}

/// `x` held between `lo` and `hi`.
pub open spec fn clamped_to(x: int, lo: int, hi: int) -> int {
    if x < lo {
        lo
    } else if x > hi {
        hi
    } else {
        x
    }
}

/// How long the unban sweeper sleeps: until the next temporary ban ends, but at
/// least a second and at most an hour; an hour when none is pending.
pub fn unban_wait(next: Option<i64>, now: i64) -> (r: i64)
    ensures
        r == match next {
            Some(at) => clamped_to(at - now, 1, 3600),
            None => 3600,
        },
        1 <= r <= 3600,
{
    match next {
        Some(at) => {
            let d = (at as i128) - (now as i128);
            if d < 1 {
                1
            } else if d > 3600 {
                3600
            } else {
                d as i64
            }
        },
        None => 3600,
    }
}

} // verus!
