//! Durations ("1d12h", "90m", a bare number of minutes) and the length caps that
//! Discord puts on reasons, embed fields and embed descriptions.
use vstd::prelude::*;
use crate::text::{
    all_digits, chars_of, decimal, digit, digits_value, is_digit, lemma_decimal, parse_i64,
    parsed_i64, push_char, push_u64, slice_chars, string_from, trim, trim_end, trim_start,
    trimmed, unsigned_digits, strings_view,
};

verus! {

broadcast use vstd::string::group_string_axioms;

// ----------------------------------------------------------------------
// Reading durations
// ----------------------------------------------------------------------

/// Seconds in one unit letter; letters are read without regard to case.
pub open spec fn unit_seconds(c: char) -> Option<int> {
    if c == 's' || c == 'S' {
        Some(1)
    } else if c == 'm' || c == 'M' {
        Some(60)
    } else if c == 'h' || c == 'H' {
        Some(3600)
    } else if c == 'd' || c == 'D' {
        Some(86400)
    } else if c == 'w' || c == 'W' {
        Some(604800)
    } else {
        None
    }
}

/// One character of a unit-suffixed duration. The state is the running total in
/// seconds and the digits read since the last unit letter; `None` means rejected.
pub open spec fn scan_step(st: Option<(int, Seq<char>)>, c: char) -> Option<(int, Seq<char>)> {
    match st {
        None => None,
        Some((total, num)) => {
            if is_digit(c) {
                Some((total, num.push(c)))
            } else if num.len() == 0 || digits_value(num) > i64::MAX {
                None
            } else {
                match unit_seconds(c) {
                    None => None,
                    Some(m) => {
                        let add = digits_value(num) * m;
                        if add > i64::MAX || total + add > i64::MAX {
                            None
                        } else {
                            Some((total + add, Seq::<char>::empty()))
                        }
                    },
                }
            }
        },
    }
}

/// The scan state after reading all of `s`.
pub open spec fn scan_units(s: Seq<char>) -> Option<(int, Seq<char>)>
    decreases s.len(),
{
    if s.len() == 0 {
        Some((0, Seq::<char>::empty()))
    } else {
        scan_step(scan_units(s.drop_last()), s.last())
    }
}

/// The number of seconds a duration text stands for, if it is one.
///
/// After trimming, a text that reads as a whole number (as `i64`) means that many
/// minutes; otherwise it must be a run of `<digits><unit>` pieces with units
/// `s`, `m`, `h`, `d`, `w`, with nothing after the last unit. The result must be
/// positive and fit in `i64`.
pub open spec fn duration_secs(s: Seq<char>) -> Option<i64> {
    let t = trimmed(s);
    if t.len() == 0 {
        None
    } else if parsed_i64(t) is Some {
        let n = parsed_i64(t)->0;
        if 0 < n * 60 && n * 60 <= i64::MAX {
            Some((n * 60) as i64)
        } else {
            None
        }
    } else {
        match scan_units(t) {
            Some((total, num)) => if num.len() == 0 && total > 0 {
                Some(total as i64)
            } else {
                None
            },
            None => None,
        }
    }
}

proof fn lemma_scan_rejects_for_good(t: Seq<char>, i: int)
    requires
        0 <= i <= t.len(),
        scan_units(t.take(i)) is None,
    ensures
        scan_units(t) is None,
    decreases t.len() - i,
{
    if i < t.len() {
        assert(t.take(i + 1).drop_last() =~= t.take(i));
        lemma_scan_rejects_for_good(t, i + 1);
    } else {
        assert(t.take(i) =~= t);
    }
}

fn unit_of(c: char) -> (r: Option<i64>)
    ensures
        match unit_seconds(c) {
            Some(m) => r == Some(m as i64),
            None => r is None,
        },
{
    if c == 's' || c == 'S' {
        Some(1)
    } else if c == 'm' || c == 'M' {
        Some(60)
    } else if c == 'h' || c == 'H' {
        Some(3600)
    } else if c == 'd' || c == 'D' {
        Some(86400)
    } else if c == 'w' || c == 'W' {
        Some(604800)
    } else {
        None
    }
}

/// Reads a duration: "1d12h", "90m", "45s", "2w", or a bare number of minutes.
pub fn parse_duration(s: &str) -> (r: Option<i64>)
    ensures
        r == duration_secs(s@),
{
    let all = chars_of(s);
    let t = trim(&all);
    if t.len() == 0 {
        return None;
    }
    match parse_i64(&t) {
        Some(n) => {
            return match n.checked_mul(60) {
                Some(v) => if v > 0 {
                    Some(v)
                } else {
                    None
                },
                None => None,
            };
        },
        None => {},
    }
    let mut total: i64 = 0;
    let mut num: Vec<char> = Vec::new();
    let mut i: usize = 0;
    assert(t@.take(0) =~= Seq::<char>::empty());
    while i < t.len()
        invariant
            i <= t@.len(),
            t@ == trimmed(s@),
            t@.len() > 0,
            parsed_i64(t@) is None,
            scan_units(t@.take(i as int)) == Some((total as int, num@)),
            all_digits(num@),
            total >= 0,
        decreases t@.len() - i,
    {
        let ch = t[i];
        assert(t@.take(i + 1).drop_last() =~= t@.take(i as int));
        assert(t@.take(i + 1).last() == ch);
        if digit(ch) {
            num.push(ch);
            assert forall|k: int| 0 <= k < num@.len() implies is_digit(#[trigger] num@[k]) by {
                if k < num@.len() - 1 {
                    assert(num@[k] == num@.drop_last()[k]);
                }
            }
        } else {
            if num.len() > 0 {
                assert(is_digit(num@[0]));
                assert(unsigned_digits(num@) == num@);
            }
            let n = match parse_i64(&num) {
                Some(n) => n,
                None => {
                    proof {
                        lemma_scan_rejects_for_good(t@, i + 1);
                    }
                    return None;
                },
            };
            let mult = match unit_of(ch) {
                Some(m) => m,
                None => {
                    proof {
                        lemma_scan_rejects_for_good(t@, i + 1);
                    }
                    return None;
                },
            };
            let add = match n.checked_mul(mult) {
                Some(a) => a,
                None => {
                    proof {
                        lemma_scan_rejects_for_good(t@, i + 1);
                    }
                    return None;
                },
            };
            total = match total.checked_add(add) {
                Some(v) => v,
                None => {
                    proof {
                        lemma_scan_rejects_for_good(t@, i + 1);
                    }
                    return None;
                },
            };
            num = Vec::new();
        }
        i = i + 1;
    }
    assert(t@.take(t@.len() as int) =~= t@);
    if num.len() > 0 || total <= 0 {
        None
    } else {
        Some(total)
    }
}

// ----------------------------------------------------------------------
// Writing durations
// ----------------------------------------------------------------------

/// `<n><unit>` when `n` is positive, nothing otherwise.
pub open spec fn unit_part(n: int, u: char) -> Seq<char> {
    if n > 0 {
        decimal(n as nat).push(u)
    } else {
        Seq::<char>::empty()
    }
}

/// A number of seconds written as days, hours, minutes and seconds, largest first,
/// leaving out the units that are zero; "0s" for anything not positive.
pub open spec fn duration_text(secs: int) -> Seq<char> {
    if secs <= 0 {
        seq!['0', 's']
    } else {
        let d = secs / 86400;
        let h = (secs % 86400) / 3600;
        let m = (secs % 3600) / 60;
        let s = secs % 60;
        unit_part(d, 'd') + unit_part(h, 'h') + unit_part(m, 'm') + unit_part(s, 's')
    }
}

fn push_unit(out: &mut String, n: i64, u: char)
    requires
        n >= 0,
    ensures
        final(out)@ == old(out)@ + unit_part(n as int, u),
{
    if n > 0 {
        push_u64(out, n as u64);
        push_char(out, u);
        assert(old(out)@ + decimal(n as nat) + seq![u] =~= old(out)@ + decimal(n as nat).push(u));
    } else {
        assert(old(out)@ + Seq::<char>::empty() =~= old(out)@);
    }
}

/// Writes a number of seconds as e.g. "1d2h3m4s"; "0s" when not positive.
pub fn fmt_duration(secs: i64) -> (r: String)
    ensures
        r@ == duration_text(secs as int),
{
    let mut out = String::new();
    if secs <= 0 {
        push_char(&mut out, '0');
        push_char(&mut out, 's');
        assert(out@ =~= seq!['0', 's']);
        return out;
    }
    let d = secs / 86400;
    let h = (secs % 86400) / 3600;
    let m = (secs % 3600) / 60;
    let s = secs % 60;
    push_unit(&mut out, d, 'd');
    push_unit(&mut out, h, 'h');
    push_unit(&mut out, m, 'm');
    push_unit(&mut out, s, 's');
    assert(out@ =~= duration_text(secs as int));
    out
}

// ----------------------------------------------------------------------
// What a written duration reads back as
// ----------------------------------------------------------------------

proof fn lemma_scan_digits(prefix: Seq<char>, t: int, ds: Seq<char>)
    requires
        scan_units(prefix) == Some((t, Seq::<char>::empty())),
        all_digits(ds),
    ensures
        scan_units(prefix + ds) == Some((t, ds)),
    decreases ds.len(),
{
    if ds.len() == 0 {
        assert(prefix + ds =~= prefix);
    } else {
        let front = ds.drop_last();
        assert forall|k: int| 0 <= k < front.len() implies is_digit(#[trigger] front[k]) by {
            assert(front[k] == ds[k]);
        }
        lemma_scan_digits(prefix, t, front);
        assert((prefix + ds).drop_last() =~= prefix + front);
        assert((prefix + ds).last() == ds.last());
        assert(is_digit(ds[ds.len() - 1]));
        assert(front.push(ds.last()) =~= ds);
    }
}

proof fn lemma_scan_piece(prefix: Seq<char>, t: int, n: int, u: char, mult: int)
    requires
        scan_units(prefix) == Some((t, Seq::<char>::empty())),
        unit_seconds(u) == Some(mult),
        t >= 0,
        n >= 0,
        mult > 0,
        t + n * mult <= i64::MAX,
    ensures
        scan_units(prefix + unit_part(n, u)) == Some((t + n * mult, Seq::<char>::empty())),
{
    if n > 0 {
        let ds = decimal(n as nat);
        lemma_decimal(n as nat);
        lemma_scan_digits(prefix, t, ds);
        let whole = prefix + ds.push(u);
        assert(whole.drop_last() =~= prefix + ds);
        assert(whole.last() == u);
        assert(!is_digit(u));
        assert(n * mult >= n) by (nonlinear_arith)
            requires
                n > 0,
                mult > 0,
        ;
    } else {
        assert(prefix + unit_part(n, u) =~= prefix);
        assert(n * mult == 0);
    }
}

/// A positive number of seconds, written out, reads back as the same number.
#[verifier::spinoff_prover]
#[verifier::rlimit(30)]
pub proof fn lemma_duration_round_trip(secs: i64)
    requires
        secs > 0,
    ensures
        duration_secs(duration_text(secs as int)) == Some(secs),
{
    let x = secs as int;
    let d = x / 86400;
    let h = (x % 86400) / 3600;
    let m = (x % 3600) / 60;
    let s = x % 60;
    assert(x == d * 86400 + h * 3600 + m * 60 + s);
    assert(d >= 0 && h >= 0 && m >= 0 && s >= 0);
    let p1 = unit_part(d, 'd');
    let p2 = unit_part(h, 'h');
    let p3 = unit_part(m, 'm');
    let p4 = unit_part(s, 's');
    let text = p1 + p2 + p3 + p4;
    assert(text == duration_text(x));
    let e = Seq::<char>::empty();
    assert(scan_units(e) == Some((0int, e)));
    lemma_scan_piece(e, 0, d, 'd', 86400);
    assert(e + p1 =~= p1);
    lemma_scan_piece(p1, d * 86400, h, 'h', 3600);
    lemma_scan_piece(p1 + p2, d * 86400 + h * 3600, m, 'm', 60);
    lemma_scan_piece(p1 + p2 + p3, d * 86400 + h * 3600 + m * 60, s, 's', 1);
    assert(scan_units(text) == Some((x, e)));
    // The text starts with a digit and ends with a unit letter.
    assert(text.len() > 0);
    assert(is_digit(text[0]) && is_alpha_unit(text.last())) by {
        lemma_text_ends(d, h, m, s);
    }
    assert(trim_start(text) == text);
    assert(trim_end(text) == text);
    assert(trimmed(text) == text);
    assert(!all_digits(text)) by {
        assert(!is_digit(text[text.len() - 1]));
    }
    assert(unsigned_digits(text) == text);
    assert(parsed_i64(text) is None);
}

/// A text made only of ASCII digits and unit letters, ending in a unit letter.
pub open spec fn unit_text(s: Seq<char>) -> bool {
    &&& s.len() > 0
    &&& unit_seconds(s.last()) is Some
    &&& forall|i: int| 0 <= i < s.len() ==> is_digit(#[trigger] s[i]) || unit_seconds(s[i]) is Some
}

/// Such a text is its own trimmed form and never reads as a bare number, so it
/// is read by its unit pieces alone.
proof fn lemma_unit_text_scanned(s: Seq<char>)
    requires
        unit_text(s),
    ensures
        trimmed(s) == s,
        parsed_i64(s) is None,
        duration_secs(s) == match scan_units(s) {
            Some((total, num)) => if num.len() == 0 && total > 0 {
                Some(total as i64)
            } else {
                None::<i64>
            },
            None => None,
        },
{
    assert(is_digit(s[0]) || unit_seconds(s[0]) is Some);
    assert(trim_start(s) == s);
    assert(trim_end(s) == s);
    let last = s.len() - 1;
    assert(!is_digit(s[last]));
    if s[0] == '-' {
        assert(false);
    }
    assert(unsigned_digits(s) == s);
}

/// The running total after scanning `s` (0 once rejected).
pub open spec fn scan_total(s: Seq<char>) -> int {
    match scan_units(s) {
        Some((total, _)) => total,
        None => 0,
    }
}

/// The digits pending after scanning `s` (none once rejected).
pub open spec fn scan_pending(s: Seq<char>) -> Seq<char> {
    match scan_units(s) {
        Some((_, num)) => num,
        None => Seq::<char>::empty(),
    }
}

/// Scanning only ever adds to the running total.
proof fn lemma_scan_back(b: Seq<char>)
    requires
        b.len() > 0,
        scan_units(b) is Some,
    ensures
        scan_units(b.drop_last()) is Some,
        scan_total(b.drop_last()) <= scan_total(b),
{
    let prev = scan_units(b.drop_last());
    assert(scan_units(b) == scan_step(prev, b.last()));
    match prev {
        Some((t, num)) => {
            if !is_digit(b.last()) {
                let m = unit_seconds(b.last())->0;
                assert(digits_value(num) * m >= 0) by (nonlinear_arith)
                    requires
                        m > 0,
                ;
            }
        },
        None => {},
    }
}

/// Scanning `b` after a text that ended on a complete piece worth `x` seconds
/// goes as scanning `b` alone, with `x` added to the total.
proof fn lemma_scan_concat(a: Seq<char>, x: int, b: Seq<char>)
    requires
        scan_units(a) == Some((x, Seq::<char>::empty())),
        scan_units(b) is Some,
        x + scan_total(b) <= i64::MAX,
    ensures
        scan_units(a + b) == Some((x + scan_total(b), scan_pending(b))),
    decreases b.len(),
{
    if b.len() == 0 {
        assert(a + b =~= a);
    } else {
        lemma_scan_back(b);
        let bp = b.drop_last();
        lemma_scan_concat(a, x, bp);
        assert((a + b).drop_last() =~= a + bp);
        assert((a + b).last() == b.last());
        assert(scan_units(a + b) == scan_step(scan_units(a + bp), b.last()));
        assert(scan_units(b) == scan_step(scan_units(bp), b.last()));
    }
}

/// Two unit-suffixed durations written one after the other, in either order,
/// stand for the sum of their values.
pub proof fn lemma_durations_add(a: Seq<char>, b: Seq<char>)
    requires
        unit_text(a),
        unit_text(b),
        duration_secs(a) is Some,
        duration_secs(b) is Some,
        duration_secs(a)->0 + duration_secs(b)->0 <= i64::MAX,
    ensures
        duration_secs(a + b) == Some((duration_secs(a)->0 + duration_secs(b)->0) as i64),
        duration_secs(b + a) == Some((duration_secs(a)->0 + duration_secs(b)->0) as i64),
{
    lemma_unit_text_scanned(a);
    lemma_unit_text_scanned(b);
    let e = Seq::<char>::empty();
    let x = scan_total(a);
    let y = scan_total(b);
    assert(scan_units(a) == Some((x, e)));
    assert(scan_units(b) == Some((y, e)));
    lemma_scan_concat(a, x, b);
    lemma_scan_concat(b, y, a);
    assert(unit_text(a + b)) by {
        assert forall|i: int| 0 <= i < (a + b).len() implies is_digit(#[trigger] (a + b)[i])
            || unit_seconds((a + b)[i]) is Some by {
            if i < a.len() {
                assert((a + b)[i] == a[i]);
            } else {
                assert((a + b)[i] == b[i - a.len()]);
            }
        }
    }
    assert(unit_text(b + a)) by {
        assert forall|i: int| 0 <= i < (b + a).len() implies is_digit(#[trigger] (b + a)[i])
            || unit_seconds((b + a)[i]) is Some by {
            if i < b.len() {
                assert((b + a)[i] == b[i]);
            } else {
                assert((b + a)[i] == a[i - b.len()]);
            }
        }
    }
    lemma_unit_text_scanned(a + b);
    lemma_unit_text_scanned(b + a);
}

spec fn is_alpha_unit(c: char) -> bool {
    c == 'd' || c == 'h' || c == 'm' || c == 's'
}

proof fn lemma_text_ends(d: int, h: int, m: int, s: int)
    requires
        d >= 0,
        h >= 0,
        m >= 0,
        s >= 0,
        d > 0 || h > 0 || m > 0 || s > 0,
    ensures
        ({
            let text = unit_part(d, 'd') + unit_part(h, 'h') + unit_part(m, 'm') + unit_part(
                s,
                's',
            );
            text.len() > 0 && is_digit(text[0]) && is_alpha_unit(text.last())
        }),
{
    let p1 = unit_part(d, 'd');
    let p2 = unit_part(h, 'h');
    let p3 = unit_part(m, 'm');
    let p4 = unit_part(s, 's');
    let text = p1 + p2 + p3 + p4;
    lemma_decimal(d as nat);
    lemma_decimal(h as nat);
    lemma_decimal(m as nat);
    lemma_decimal(s as nat);
    if d > 0 {
        assert(text[0] == p1[0]);
        assert(p1[0] == decimal(d as nat)[0]);
    } else if h > 0 {
        assert(text[0] == p2[0]);
        assert(p2[0] == decimal(h as nat)[0]);
    } else if m > 0 {
        assert(text[0] == p3[0]);
        assert(p3[0] == decimal(m as nat)[0]);
    } else {
        assert(text[0] == p4[0]);
        assert(p4[0] == decimal(s as nat)[0]);
    }
    if s > 0 {
        assert(text.last() == p4.last());
    } else if m > 0 {
        assert(text.last() == p3.last());
    } else if h > 0 {
        assert(text.last() == p2.last());
    } else {
        assert(text.last() == p1.last());
    }
}

// ----------------------------------------------------------------------
// Length caps
// ----------------------------------------------------------------------

/// The first `n` characters of `s` (all of them when it is shorter).
pub open spec fn first_chars(s: Seq<char>, n: nat) -> Seq<char> {
    if s.len() <= n {
        s
    } else {
        s.take(n as int)
    }
}

/// `s` unchanged when it has at most `max` characters; otherwise its first
/// `max - 3` characters followed by "...".
pub open spec fn capped(s: Seq<char>, max: nat) -> Seq<char> {
    if s.len() <= max {
        s
    } else {
        s.take(max - 3) + seq!['.', '.', '.']
    }
}

fn cap_chars(s: &str, max: usize) -> (r: String)
    requires
        3 <= max,
    ensures
        r@ == capped(s@, max as nat),
{
    let cs = chars_of(s);
    if cs.len() <= max {
        return string_from(&cs);
    }
    let head = slice_chars(&cs, 0, max - 3);
    let mut r = string_from(&head);
    push_char(&mut r, '.');
    push_char(&mut r, '.');
    push_char(&mut r, '.');
    assert(r@ =~= s@.take(max - 3) + seq!['.', '.', '.']);
    r
}

/// A reason, cut to its first 512 characters.
pub fn clamp_reason(r: &str) -> (out: String)
    ensures
        out@ == first_chars(r@, 512),
{
    let cs = chars_of(r);
    if cs.len() <= 512 {
        return string_from(&cs);
    }
    let head = slice_chars(&cs, 0, 512);
    assert(head@ =~= r@.take(512));
    string_from(&head)
}

/// An embed field value: at most 1024 characters, marked with "..." when cut.
pub fn clamp_field(s: &str) -> (out: String)
    ensures
        out@ == capped(s@, 1024),
{
    cap_chars(s, 1024)
}

/// An embed description: at most 4096 characters, marked with "..." when cut.
pub fn clamp_desc(s: &str) -> (out: String)
    ensures
        out@ == capped(s@, 4096),
{
    cap_chars(s, 4096)
}

/// A text cut into consecutive pieces of 1024 characters, the size of an embed
/// field, the last one holding what is left; in order, so that the pieces put
/// together are the text.
pub open spec fn field_pieces_spec(text: Seq<char>, pieces: Seq<Seq<char>>) -> bool {
    &&& pieces.len() == (text.len() + 1023) / 1024
    &&& forall|i: int|
        0 <= i < pieces.len() ==> #[trigger] pieces[i] == text.subrange(
            1024 * i,
            if 1024 * i + 1024 <= text.len() {
                1024 * i + 1024
            } else {
                text.len() as int
            },
        )
}

/// Cuts a text into embed-field pieces, none of them over 1024 characters.
pub fn field_pieces(text: &str) -> (r: Vec<String>)
    ensures
        field_pieces_spec(text@, strings_view(r@)),
{
    let cs = chars_of(text);
    let n = cs.len();
    let mut r: Vec<String> = Vec::new();
    let mut start: usize = 0;
    while start < n
        invariant
            n == cs@.len(),
            cs@ == text@,
            start <= n,
            start < n ==> start == 1024 * r@.len(),
            r@.len() == (start + 1023) / 1024,
            forall|i: int|
                0 <= i < r@.len() ==> #[trigger] r@[i]@ == cs@.subrange(
                    1024 * i,
                    if 1024 * i + 1024 <= n {
                        1024 * i + 1024
                    } else {
                        n as int
                    },
                ),
        decreases n - start,
    {
        let end = if n - start > 1024 {
            start + 1024
        } else {
            n
        };
        let piece = string_from(&slice_chars(&cs, start, end));
        r.push(piece);
        start = end;
    }
    assert(strings_view(r@).len() == r@.len());
    r
}

/// A capped text never exceeds the cap, keeps the start of the text it was made
/// from, and is left alone by capping it again.
pub proof fn lemma_capped(s: Seq<char>, max: nat)
    requires
        3 <= max,
    ensures
        capped(s, max).len() <= max,
        s.len() <= max ==> capped(s, max) == s,
        s.len() > max ==> capped(s, max).take(max - 3) == s.take(max - 3),
        capped(capped(s, max), max) == capped(s, max),
{
    if s.len() > max {
        let c = capped(s, max);
        assert(c.len() == max);
        assert(c.take(max - 3) =~= s.take(max - 3));
    }
}

/// A text cut to its first `n` characters has at most `n` of them, is a start of
/// the text it was cut from, and is left alone by cutting it again.
pub proof fn lemma_first_chars(s: Seq<char>, n: nat)
    ensures
        first_chars(s, n).len() <= n,
        s.take(first_chars(s, n).len() as int) == first_chars(s, n),
        first_chars(first_chars(s, n), n) == first_chars(s, n),
{
    assert(s.take(first_chars(s, n).len() as int) =~= first_chars(s, n));
}

} // verus!
