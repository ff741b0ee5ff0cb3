//! Channel purges: which scanned messages go, how the scan pages through the
//! channel, how deletions are batched, and what the moderator is told.
use vstd::prelude::*;
use crate::pattern::{ci_regex_builds, ci_regex_error, ci_regex_matches, CiRegex, PatternError};
use crate::text::{
    chars_of, contains_chars, contains_text, decimal, joined, push_str, push_u64, strings_view,
    join,
};
use crate::util::{capped, clamp_field};
use vstd::string::StringExecFns;

verus! {

broadcast use {vstd::string::group_string_axioms, vstd::seq::group_seq_axioms};

/// Discord refuses to bulk-delete messages older than 14 days.
pub const BULK_MAX_AGE: i64 = 1209600;

/// The compiled-size limit for a moderator's pattern.
pub const PURGE_SIZE_LIMIT: usize = 1048576;

/// Messages fetched, and deleted, per request.
pub const BATCH: u16 = 100;

/// The oldest creation time that can still be bulk-deleted at `now`.
pub fn purge_cutoff(now: i64) -> (r: i64)
    requires
        now >= i64::MIN + BULK_MAX_AGE,
    ensures
        r == now - 14 * 86400,
{
    now - BULK_MAX_AGE
}

/// The filters a purge was asked for; with none, everything scanned goes.
pub struct PurgeFilters {
    /// Only this author's messages.
    pub user: Option<u64>,
    /// Only messages this pattern matches.
    pub pattern: Option<CiRegex>,
    /// Only messages with links, embeds or attachments, when `Some(true)`.
    pub links: Option<bool>,
    /// Only messages from bots, when `Some(true)`.
    pub bots: Option<bool>,
}

/// Compiles a moderator's pattern, if one was given.
pub fn compile_pattern(p: Option<&str>) -> (r: Result<Option<CiRegex>, PatternError>)
    ensures
        match p {
            None => r matches Ok(None),
            Some(s) => {
                &&& (r is Ok <==> ci_regex_builds(s@, PURGE_SIZE_LIMIT))
                &&& (r matches Ok(Some(c)) ==> c@ == s@)
                &&& (r matches Err(e) ==> e.message@ == ci_regex_error(s@, PURGE_SIZE_LIMIT))
                &&& !(r matches Ok(None))
            },
        },
{
    match p {
        None => Ok(None),
        Some(s) => match CiRegex::compile(s, PURGE_SIZE_LIMIT) {
            Ok(c) => Ok(Some(c)),
            Err(e) => Err(e),
        },
    }
}

/// The reply for a pattern that does not compile.
pub fn bad_pattern_reply(e: &PatternError) -> (r: String)
    ensures
        r@ == "bad regex: "@ + e.message@,
{
    let mut r = String::from_str("bad regex: ");
    push_str(&mut r, e.message.as_str());
    r
}

/// A scanned message, as much as the purge looks at.
pub struct Candidate {
    pub id: u64,
    /// Creation time, in Unix seconds.
    pub timestamp: i64,
    pub pinned: bool,
    pub author: u64,
    pub author_bot: bool,
    pub attachments: usize,
    pub embeds: usize,
    pub content: String,
}

/// What becomes of one scanned message.
#[derive(PartialEq, Eq, Structural)]
pub enum Verdict {
    /// Older than the bulk-delete limit: counted, not deleted.
    TooOld,
    /// Kept: pinned, or left out by a filter.
    Keep,
    Delete,
}

pub open spec fn pattern_view(p: Option<CiRegex>) -> Option<Seq<char>> {
    match p {
        Some(c) => Some(c@),
        None => None,
    }
}

/// The verdict on a message: too old first, then pinned messages are kept,
/// then every filter given must let it through.
pub open spec fn verdict_spec(
    m: Candidate,
    user: Option<u64>,
    pattern: Option<Seq<char>>,
    links: Option<bool>,
    bots: Option<bool>,
    cutoff: i64,
) -> Verdict {
    if m.timestamp < cutoff {
        Verdict::TooOld
    } else if m.pinned {
        Verdict::Keep
    } else if user is Some && m.author != user->0 {
        Verdict::Keep
    } else if bots == Some(true) && !m.author_bot {
        Verdict::Keep
    } else if links == Some(true) && m.attachments == 0 && m.embeds == 0 && !contains_text(
        m.content@,
        "http"@,
    ) {
        Verdict::Keep
    } else if pattern is Some && !ci_regex_matches(pattern->0, m.content@) {
        Verdict::Keep
    } else {
        Verdict::Delete
    }
}

/// What a purge promises of every message: one past the bulk-delete age is
/// counted as too old whatever the filters; a pinned one is never deleted; with
/// no filter given every other message goes; and the filters only narrow, each
/// one given holding of every message deleted.
pub proof fn lemma_purge_promises(
    m: Candidate,
    user: Option<u64>,
    pattern: Option<Seq<char>>,
    links: Option<bool>,
    bots: Option<bool>,
    cutoff: i64,
)
    ensures
        m.timestamp < cutoff ==> verdict_spec(m, user, pattern, links, bots, cutoff)
            == Verdict::TooOld,
        m.pinned ==> verdict_spec(m, user, pattern, links, bots, cutoff) != Verdict::Delete,
        verdict_spec(m, None, None, None, None, cutoff) == if m.timestamp < cutoff {
            Verdict::TooOld
        } else if m.pinned {
            Verdict::Keep
        } else {
            Verdict::Delete
        },
        verdict_spec(m, user, pattern, links, bots, cutoff) == Verdict::Delete ==> {
            &&& verdict_spec(m, None, None, None, None, cutoff) == Verdict::Delete
            &&& (user matches Some(u) ==> m.author == u)
            &&& (bots == Some(true) ==> m.author_bot)
            &&& (links == Some(true) ==> m.attachments > 0 || m.embeds > 0 || contains_text(
                m.content@,
                "http"@,
            ))
            &&& (pattern matches Some(p) ==> ci_regex_matches(p, m.content@))
        },
{
}

/// A message young enough to bulk-delete and not pinned is deleted when every
/// filter given lets it through: it is by the given user, from a bot when only
/// bots are asked for, has an attachment, an embed or "http" when only links
/// are asked for, and matches the given pattern. With the law above, a message
/// is deleted exactly when it is in range, not pinned and passes every filter.
pub proof fn lemma_purge_deletes_what_passes(
    m: Candidate,
    user: Option<u64>,
    pattern: Option<Seq<char>>,
    links: Option<bool>,
    bots: Option<bool>,
    cutoff: i64,
)
    requires
        m.timestamp >= cutoff,
        !m.pinned,
        user matches Some(u) ==> m.author == u,
        bots == Some(true) ==> m.author_bot,
        links == Some(true) ==> m.attachments > 0 || m.embeds > 0 || contains_text(
            m.content@,
            "http"@,
        ),
        pattern matches Some(p) ==> ci_regex_matches(p, m.content@),
    ensures
        verdict_spec(m, user, pattern, links, bots, cutoff) == Verdict::Delete,
{
}

pub open spec fn judged(m: Candidate, f: PurgeFilters, cutoff: i64) -> Verdict {
    verdict_spec(m, f.user, pattern_view(f.pattern), f.links, f.bots, cutoff)
}

/// Decides what becomes of a scanned message.
pub fn judge(m: &Candidate, f: &PurgeFilters, cutoff: i64) -> (v: Verdict)
    ensures
        v == judged(*m, *f, cutoff),
{
    if m.timestamp < cutoff {
        return Verdict::TooOld;
    }
    if m.pinned {
        return Verdict::Keep;
    }
    match f.user {
        Some(u) => if m.author != u {
            return Verdict::Keep;
        },
        None => {},
    }
    if f.bots == Some(true) && !m.author_bot {
        return Verdict::Keep;
    }
    if f.links == Some(true) && m.attachments == 0 && m.embeds == 0 && !contains_chars(
        &chars_of(m.content.as_str()),
        &chars_of("http"),
    ) {
        return Verdict::Keep;
    }
    match &f.pattern {
        Some(re) => if !re.is_match(m.content.as_str()) {
            return Verdict::Keep;
        },
        None => {},
    }
    Verdict::Delete
}

// ----------------------------------------------------------------------
// Paging through the channel
// ----------------------------------------------------------------------

/// Where a purge's scan stands.
pub struct PurgeScan {
    /// How many messages to examine.
    pub scan: u16,
    /// How many have been examined.
    pub seen: u16,
    /// How many were too old to bulk-delete.
    pub too_old: u32,
    /// The oldest message fetched so far; the next page starts before it.
    pub before: Option<u64>,
    /// The messages to delete, newest first.
    pub targets: Vec<u64>,
    /// The channel had no more messages.
    pub exhausted: bool,
}

/// The ids of the messages in a batch that are to be deleted, in order.
pub open spec fn deleted_ids(batch: Seq<Candidate>, f: PurgeFilters, cutoff: i64) -> Seq<u64>
    decreases batch.len(),
{
    if batch.len() == 0 {
        Seq::<u64>::empty()
    } else {
        deleted_ids(batch.drop_last(), f, cutoff) + if judged(batch.last(), f, cutoff)
            == Verdict::Delete {
            seq![batch.last().id]
        } else {
            Seq::<u64>::empty()
        }
    }
}

/// How many messages in a batch are too old to bulk-delete.
pub open spec fn too_old_in(batch: Seq<Candidate>, cutoff: i64) -> nat
    decreases batch.len(),
{
    if batch.len() == 0 {
        0
    } else {
        too_old_in(batch.drop_last(), cutoff) + if batch.last().timestamp < cutoff {
            1nat
        } else {
            0nat
        }
    }
}

proof fn lemma_batch_counts(batch: Seq<Candidate>, f: PurgeFilters, cutoff: i64)
    ensures
        deleted_ids(batch, f, cutoff).len() + too_old_in(batch, cutoff) <= batch.len(),
    decreases batch.len(),
{
    if batch.len() > 0 {
        lemma_batch_counts(batch.drop_last(), f, cutoff);
    }
}

impl PurgeScan {
    /// Consistency of the counts: every message kept for deletion or counted as
    /// too old was examined.
    pub open spec fn wf(&self) -> bool {
        self.targets@.len() + self.too_old <= self.seen
    }

    /// A scan that will examine `scan` messages.
    pub fn new(scan: u16) -> (s: PurgeScan)
        ensures
            s.wf(),
            s.scan == scan,
            s.seen == 0,
            s.too_old == 0,
            s.before is None,
            s.targets@.len() == 0,
            !s.exhausted,
    {
        PurgeScan { scan, seen: 0, too_old: 0, before: None, targets: Vec::new(), exhausted: false }
    }

    /// The size of the next page to fetch and the message it must come before;
    /// nothing once enough were examined or the channel ran out.
    pub fn next_request(&self) -> (r: Option<(u16, Option<u64>)>)
        ensures
            r == if self.exhausted || self.seen >= self.scan {
                None
            } else {
                Some(
                    (
                        if self.scan - self.seen < BATCH {
                            (self.scan - self.seen) as u16
                        } else {
                            BATCH
                        },
                        self.before,
                    ),
                )
            },
    {
        if self.exhausted || self.seen >= self.scan {
            None
        } else {
            let left = self.scan - self.seen;
            Some((if left < BATCH {
                left
            } else {
                BATCH
            }, self.before))
        }
    }

    /// Takes in one fetched page: an empty page ends the scan; otherwise every
    /// message is examined, the too-old ones counted and the ones that pass the
    /// filters queued for deletion, and the next page will start before the last.
    pub fn absorb(&mut self, batch: &Vec<Candidate>, f: &PurgeFilters, cutoff: i64)
        requires
            old(self).wf(),
            old(self).seen + batch@.len() <= u16::MAX,
        ensures
            final(self).wf(),
            final(self).scan == old(self).scan,
            old(self).seen <= old(self).scan && batch@.len() <= old(self).scan - old(self).seen
                ==> final(self).seen <= final(self).scan,
            batch@.len() == 0 ==> {
                &&& final(self).exhausted
                &&& final(self).seen == old(self).seen
                &&& final(self).too_old == old(self).too_old
                &&& final(self).before == old(self).before
                &&& final(self).targets@ == old(self).targets@
            },
            batch@.len() > 0 ==> {
                &&& final(self).exhausted == old(self).exhausted
                &&& final(self).seen == old(self).seen + batch@.len()
                &&& final(self).too_old == old(self).too_old + too_old_in(batch@, cutoff)
                &&& final(self).before == Some(batch@.last().id)
                &&& final(self).targets@ == old(self).targets@ + deleted_ids(batch@, *f, cutoff)
            },
    {
        if batch.len() == 0 {
            self.exhausted = true;
            return;
        }
        let ghost start = self.targets@;
        let ghost start_old = self.too_old;
        self.seen = self.seen + batch.len() as u16;
        self.before = Some(batch[batch.len() - 1].id);
        let mut i: usize = 0;
        while i < batch.len()
            invariant
                i <= batch@.len(),
                self.targets@ == start + deleted_ids(batch@.take(i as int), *f, cutoff),
                self.too_old == start_old + too_old_in(batch@.take(i as int), cutoff),
                start.len() + start_old + batch@.len() <= self.seen,
                self.seen <= u16::MAX,
                self.scan == old(self).scan,
                self.exhausted == old(self).exhausted,
                batch@.len() > 0,
                self.before == Some(batch@.last().id),
                self.seen == old(self).seen + batch@.len(),
                start == old(self).targets@,
                start_old == old(self).too_old,
            decreases batch@.len() - i,
        {
            proof {
                assert(batch@.take(i + 1).drop_last() =~= batch@.take(i as int));
                assert(batch@.take(i + 1).last() == batch@[i as int]);
                lemma_batch_counts(batch@.take(i as int), *f, cutoff);
            }
            let m = &batch[i];
            match judge(m, f, cutoff) {
                Verdict::TooOld => {
                    self.too_old = self.too_old + 1;
                },
                Verdict::Keep => {},
                Verdict::Delete => {
                    self.targets.push(m.id);
                },
            }
            assert(self.targets@ =~= start + deleted_ids(batch@.take(i + 1), *f, cutoff));
            i = i + 1;
        }
        assert(batch@.take(batch@.len() as int) =~= batch@);
        proof {
            lemma_batch_counts(batch@, *f, cutoff);
        }
    }
}

// ----------------------------------------------------------------------
// Deleting
// ----------------------------------------------------------------------

/// The targets in consecutive groups of at most 100, in order; a group of one is
/// deleted on its own, larger ones in bulk.
pub open spec fn chunks_spec(targets: Seq<u64>, chunks: Seq<Seq<u64>>) -> bool {
    &&& chunks.len() == (targets.len() + 99) / 100
    &&& forall|i: int|
        0 <= i < chunks.len() ==> #[trigger] chunks[i] == targets.subrange(
            100 * i,
            if 100 * i + 100 <= targets.len() {
                100 * i + 100
            } else {
                targets.len() as int
            },
        )
}

pub open spec fn chunks_view(v: Seq<Vec<u64>>) -> Seq<Seq<u64>> {
    v.map_values(|c: Vec<u64>| c@)
}

/// Splits the targets into groups of at most 100.
pub fn delete_chunks(targets: &Vec<u64>) -> (r: Vec<Vec<u64>>)
    ensures
        chunks_spec(targets@, chunks_view(r@)),
{
    let n = targets.len();
    let mut r: Vec<Vec<u64>> = Vec::new();
    let mut start: usize = 0;
    while start < n
        invariant
            n == targets@.len(),
            start <= n,
            start == 100 * r@.len() || (start == n && r@.len() == (n + 99) / 100),
            start < n ==> start == 100 * r@.len(),
            r@.len() == (start + 99) / 100,
            forall|i: int|
                0 <= i < r@.len() ==> #[trigger] r@[i]@ == targets@.subrange(
                    100 * i,
                    if 100 * i + 100 <= n {
                        100 * i + 100
                    } else {
                        n as int
                    },
                ),
        decreases n - start,
    {
        let end = if n - start > 100 {
            start + 100
        } else {
            n
        };
        let mut chunk: Vec<u64> = Vec::new();
        let mut k = start;
        while k < end
            invariant
                start <= k <= end <= n,
                n == targets@.len(),
                chunk@ == targets@.subrange(start as int, k as int),
            decreases end - k,
        {
            chunk.push(targets[k]);
            k = k + 1;
        }
        r.push(chunk);
        start = end;
    }
    assert(chunks_view(r@).len() == r@.len());
    r
}

// ----------------------------------------------------------------------
// What the moderator is told
// ----------------------------------------------------------------------

pub open spec fn nothing_matched_text(seen: u16, too_old: u32) -> Seq<char> {
    "Nothing matched ("@ + decimal(seen as nat) + " examined, "@ + decimal(too_old as nat)
        + " too old to bulk delete)"@
}

pub open spec fn deleted_text(deleted: usize, seen: u16, too_old: u32) -> Seq<char> {
    "Deleted "@ + decimal(deleted as nat) + " of "@ + decimal(seen as nat) + " examined"@ + if too_old
        > 0 {
        " ("@ + decimal(too_old as nat) + " skipped, over 14 days old)"@
    } else {
        Seq::<char>::empty()
    }
}

/// The reply when no message passed the filters.
pub fn nothing_matched_reply(seen: u16, too_old: u32) -> (r: String)
    ensures
        r@ == nothing_matched_text(seen, too_old),
{
    let mut r = String::from_str("Nothing matched (");
    push_u64(&mut r, seen as u64);
    push_str(&mut r, " examined, ");
    push_u64(&mut r, too_old as u64);
    push_str(&mut r, " too old to bulk delete)");
    r
}

/// The reply after deleting.
pub fn deleted_reply(deleted: usize, seen: u16, too_old: u32) -> (r: String)
    ensures
        r@ == deleted_text(deleted, seen, too_old),
{
    let mut r = String::from_str("Deleted ");
    push_u64(&mut r, deleted as u64);
    push_str(&mut r, " of ");
    push_u64(&mut r, seen as u64);
    push_str(&mut r, " examined");
    let ghost base = r@;
    if too_old > 0 {
        push_str(&mut r, " (");
        push_u64(&mut r, too_old as u64);
        push_str(&mut r, " skipped, over 14 days old)");
        assert(r@ =~= base + (" ("@ + decimal(too_old as nat) + " skipped, over 14 days old)"@));
    } else {
        assert(r@ =~= base + Seq::<char>::empty());
    }
    r
}

/// The filters a purge used, as listed in the log: each one given, in order,
/// joined with ", ", or "none".
pub open spec fn filters_text(
    user_tag: Option<Seq<char>>,
    pattern: Option<Seq<char>>,
    links: Option<bool>,
    bots: Option<bool>,
) -> Seq<char> {
    let parts = (if user_tag is Some {
        seq!["user: "@ + user_tag->0]
    } else {
        Seq::<Seq<char>>::empty()
    }) + (if pattern is Some {
        seq!["regex: `"@ + capped(pattern->0, 1024) + "`"@]
    } else {
        Seq::<Seq<char>>::empty()
    }) + (if links == Some(true) {
        seq!["links only"@]
    } else {
        Seq::<Seq<char>>::empty()
    }) + (if bots == Some(true) {
        seq!["bots only"@]
    } else {
        Seq::<Seq<char>>::empty()
    });
    if parts.len() == 0 {
        "none"@
    } else {
        joined(parts, ", "@)
    }
}

/// Lists the filters a purge used.
pub fn filters_summary(
    user_tag: Option<&str>,
    pattern: Option<&str>,
    links: Option<bool>,
    bots: Option<bool>,
) -> (r: String)
    ensures
        r@ == filters_text(
            match user_tag {
                Some(t) => Some(t@),
                None => None,
            },
            match pattern {
                Some(p) => Some(p@),
                None => None,
            },
            links,
            bots,
        ),
{
    let ghost tag_v = match user_tag {
        Some(t) => Some(t@),
        None => None::<Seq<char>>,
    };
    let ghost pat_v = match pattern {
        Some(p) => Some(p@),
        None => None::<Seq<char>>,
    };
    let mut parts: Vec<String> = Vec::new();
    match user_tag {
        Some(t) => {
            let mut s = String::from_str("user: ");
            push_str(&mut s, t);
            parts.push(s);
        },
        None => {},
    }
    let ghost p1 = strings_view(parts@);
    assert(p1 =~= if tag_v is Some {
        seq!["user: "@ + tag_v->0]
    } else {
        Seq::<Seq<char>>::empty()
    });
    match pattern {
        Some(p) => {
            let mut s = String::from_str("regex: `");
            let c = clamp_field(p);
            push_str(&mut s, c.as_str());
            push_str(&mut s, "`");
            parts.push(s);
        },
        None => {},
    }
    let ghost p2 = strings_view(parts@);
    assert(p2 =~= p1 + if pat_v is Some {
        seq!["regex: `"@ + capped(pat_v->0, 1024) + "`"@]
    } else {
        Seq::<Seq<char>>::empty()
    });
    if links == Some(true) {
        parts.push(String::from_str("links only"));
    }
    let ghost p3 = strings_view(parts@);
    assert(p3 =~= p2 + if links == Some(true) {
        seq!["links only"@]
    } else {
        Seq::<Seq<char>>::empty()
    });
    if bots == Some(true) {
        parts.push(String::from_str("bots only"));
    }
    assert(strings_view(parts@) =~= p3 + if bots == Some(true) {
        seq!["bots only"@]
    } else {
        Seq::<Seq<char>>::empty()
    });
    if parts.len() == 0 {
        String::from_str("none")
    } else {
        join(&parts, ", ")
    }
}

} // verus!
