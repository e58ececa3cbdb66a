//! Dates of timeline events, and the rules of the `timeline` kind.

use vstd::prelude::*;
use crate::error::{DeclartError, SpecError};
use crate::model::{Diagram, SpecDiagram, SpecTimelineDiagram, SpecTimelineEvent, TimelineDiagram,
    TimelineEvent};
use crate::raw::{RawTimelineDiagram, SpecRawTimelineDiagram, SpecRawTimelineEvent};
use crate::rules::{invalid, invalid_value, res};
use crate::text::{char_seq, owned};
use vstd::string::StringSliceAdditionalSpecFns;

verus! {

pub open spec fn is_digit(c: char) -> bool {
    '0' <= c && c <= '9'
}

/// The characters of `s` from `lo` up to `hi` are decimal digits.
pub open spec fn digits(s: Seq<char>, lo: int, hi: int) -> bool {
    forall|i: int| lo <= i < hi ==> #[trigger] is_digit(s[i])
}

/// A date as `YYYY`, `YYYY-MM` or `YYYY-MM-DD`, completed to `YYYY-MM-DD` with the first
/// month and day; `None` for any other text.
pub open spec fn normalized_date(s: Seq<char>) -> Option<Seq<char>> {
    if s.len() == 4 && digits(s, 0, 4) {
        Some(s + "-01-01"@)
    } else if s.len() == 7 && s[4] == '-' && digits(s, 0, 4) && digits(s, 5, 7) {
        Some(s + "-01"@)
    } else if s.len() == 10 && s[4] == '-' && s[7] == '-' && digits(s, 0, 4) && digits(s, 5, 7)
        && digits(s, 8, 10) {
        Some(s)
    } else {
        None
    }
}

fn digits_in(c: &Vec<char>, lo: usize, hi: usize) -> (r: bool)
    requires
        lo <= hi <= c@.len(),
    ensures
        r == digits(c@, lo as int, hi as int),
{
    let mut i = lo;
    while i < hi
        invariant
            lo <= i <= hi,
            hi <= c@.len(),
            digits(c@, lo as int, i as int),
        decreases hi - i,
    {
        if !('0' <= c[i] && c[i] <= '9') {
            assert(!is_digit(c@[i as int]));
            return false;
        }
        i = i + 1;
    }
    true
}

/// Normalizes a partial date string to YYYY-MM-DD for sorting and computation.
/// Accepts YYYY, YYYY-MM, or YYYY-MM-DD; returns `None` for any other text.
pub fn normalize_date(s: &str) -> (r: Option<String>)
    ensures
        match r {
            Some(d) => normalized_date(s@) == Some(d@),
            None => normalized_date(s@) is None,
        },
{
    let c = char_seq(s);
    let n = c.len();
    if n == 4 && digits_in(&c, 0, 4) {
        let mut d = owned(s);
        d.append("-01-01");
        Some(d)
    } else if n == 7 && c[4] == '-' && digits_in(&c, 0, 4) && digits_in(&c, 5, 7) {
        let mut d = owned(s);
        d.append("-01");
        Some(d)
    } else if n == 10 && c[4] == '-' && c[7] == '-' && digits_in(&c, 0, 4) && digits_in(&c, 5, 7)
        && digits_in(&c, 8, 10) {
        Some(owned(s))
    } else {
        None
    }
}

// ---------------------------------------------------------------------------
// Day numbers
// ---------------------------------------------------------------------------

/// What a byte counts as in a date: its distance from `'0'`.
pub open spec fn digit_value(b: u8) -> int {
    b as int - 48
}

/// The number written by the bytes of `s` from `lo` up to `hi`, each a decimal figure.
pub open spec fn number_at(s: Seq<u8>, lo: int, hi: int) -> int
    decreases hi - lo,
{
    if hi <= lo {
        0
    } else {
        number_at(s, lo, hi - 1) * 10 + digit_value(s[hi - 1])
    }
}

/// Division rounding toward zero, as machine integers divide.
pub open spec fn quot(a: int, b: int) -> int {
    if a >= 0 { a / b } else { -((-a) / b) }
}

/// The Julian day number of year `y`, month `m`, day `d` (proleptic Gregorian calendar).
pub open spec fn julian_day(y: int, m: int, d: int) -> int {
    let a = quot(14 - m, 12);
    let yr = y + 4800 - a;
    let mo = m + 12 * a - 3;
    d + quot(153 * mo + 2, 5) + 365 * yr + quot(yr, 4) - quot(yr, 100) + quot(yr, 400) - 32045
}

/// The day number of the UTF-8 bytes of a `YYYY-MM-DD` date; zero for text of any other
/// byte length.
pub open spec fn date_days(s: Seq<u8>) -> int {
    if s.len() == 10 {
        julian_day(number_at(s, 0, 4), number_at(s, 5, 7), number_at(s, 8, 10))
    } else {
        0
    }
}

/// The bytes of `s` from `lo` up to `hi` are no lower than `'0'`.
pub open spec fn figures(s: Seq<u8>, lo: int, hi: int) -> bool {
    forall|i: int| lo <= i < hi ==> 48 <= #[trigger] s[i]
}

/// Bytes on which [`date_to_days`] computes: where a ten-byte date holds its year, month and
/// day, no byte lies below `'0'` (each figure is its distance from `'0'`).
pub open spec fn days_input(s: Seq<u8>) -> bool {
    s.len() == 10 ==> figures(s, 0, 4) && figures(s, 5, 7) && figures(s, 8, 10)
}

/// `k` ones in decimal: 0, 1, 11, 111, ...
pub open spec fn repunit(k: nat) -> int
    decreases k,
{
    if k == 0 { 0 } else { 10 * repunit((k - 1) as nat) + 1 }
}

proof fn lemma_number_bounds(s: Seq<u8>, lo: int, hi: int)
    requires
        0 <= lo <= hi <= s.len(),
        figures(s, lo, hi),
    ensures
        0 <= number_at(s, lo, hi) <= 207 * repunit((hi - lo) as nat),
    decreases hi - lo,
{
    if hi > lo {
        lemma_number_bounds(s, lo, hi - 1);
        assert(48 <= s[hi - 1]);
        assert(repunit((hi - lo) as nat) == 10 * repunit((hi - 1 - lo) as nat) + 1);
    }
}

proof fn lemma_repunits()
    ensures
        repunit(0) == 0,
        repunit(1) == 1,
        repunit(2) == 11,
        repunit(3) == 111,
        repunit(4) == 1111,
{
    reveal_with_fuel(repunit, 5);
}

fn number_in(c: &[u8], lo: usize, hi: usize) -> (r: i64)
    requires
        lo <= hi <= c@.len(),
        hi - lo <= 4,
        figures(c@, lo as int, hi as int),
    ensures
        r == number_at(c@, lo as int, hi as int),
        0 <= r <= 207 * repunit((hi - lo) as nat),
{
    proof {
        lemma_repunits();
    }
    let mut acc: i64 = 0;
    let mut i = lo;
    while i < hi
        invariant
            lo <= i <= hi,
            hi <= c@.len(),
            hi - lo <= 4,
            figures(c@, lo as int, hi as int),
            acc == number_at(c@, lo as int, i as int),
            repunit(0) == 0 && repunit(1) == 1 && repunit(2) == 11 && repunit(3) == 111,
        decreases hi - i,
    {
        proof {
            lemma_number_bounds(c@, lo as int, i as int);
            assert(48 <= c@[i as int]);
        }
        let dv = (c[i] - 48) as i64;
        acc = acc * 10 + dv;
        i = i + 1;
    }
    proof {
        lemma_number_bounds(c@, lo as int, hi as int);
    }
    acc
}

/// Converts a YYYY-MM-DD date to a Julian day number for relative positioning;
/// text of any other byte length counts as day zero.
#[verifier::spinoff_prover]
pub fn date_to_days(date: &str) -> (r: i32)
    requires
        days_input(date.spec_bytes()),
    ensures
        r == date_days(date.spec_bytes()),
{
    let c = date.as_bytes();
    if c.len() != 10 {
        return 0;
    }
    proof {
        lemma_repunits();
    }
    let y = number_in(c, 0, 4);
    let m = number_in(c, 5, 7);
    let d = number_in(c, 8, 10);
    assert(0 <= y <= 229977 && 0 <= m <= 2277 && 0 <= d <= 2277);
    let a = (14 - m) / 12;
    assert(a == quot(14 - m, 12));
    assert(-189 <= a <= 1);
    let yr = y + 4800 - a;
    let mo = m + 12 * a - 3;
    assert(4799 <= yr <= 234966);
    assert(-3 <= mo <= 2300);
    assert(yr / 4 == quot(yr as int, 4));
    assert(yr / 100 == quot(yr as int, 100));
    assert(yr / 400 == quot(yr as int, 400));
    assert((153 * mo + 2) / 5 == quot(153 * mo + 2, 5));
    (d + (153 * mo + 2) / 5 + 365 * yr + yr / 4 - yr / 100 + yr / 400 - 32045) as i32
}

// ---------------------------------------------------------------------------
// Ordering events by date
// ---------------------------------------------------------------------------

/// `a` comes no later than `b` in lexicographic character order.
pub open spec fn lex_le(a: Seq<char>, b: Seq<char>) -> bool
    decreases a.len(),
{
    if a.len() == 0 {
        true
    } else if b.len() == 0 {
        false
    } else if a[0] != b[0] {
        a[0] < b[0]
    } else {
        lex_le(a.drop_first(), b.drop_first())
    }
}

fn lex_le_chars(a: &Vec<char>, b: &Vec<char>) -> (r: bool)
    ensures
        r == lex_le(a@, b@),
{
    let mut i: usize = 0;
    assert(a@.skip(0) =~= a@);
    assert(b@.skip(0) =~= b@);
    while i < a.len() && i < b.len()
        invariant
            i <= a@.len(),
            i <= b@.len(),
            lex_le(a@, b@) == lex_le(a@.skip(i as int), b@.skip(i as int)),
        decreases a@.len() - i,
    {
        assert(a@.skip(i as int).drop_first() =~= a@.skip(i as int + 1));
        assert(b@.skip(i as int).drop_first() =~= b@.skip(i as int + 1));
        if a[i] != b[i] {
            return a[i] < b[i];
        }
        i = i + 1;
    }
    i == a.len()
}

/// The sort key of an event: its date completed to `YYYY-MM-DD`.
pub open spec fn event_key(e: SpecTimelineEvent) -> Seq<char> {
    normalized_date(e.date).unwrap()
}

/// Inserts `e` into `sorted` after every event whose key is not greater.
pub open spec fn insert_event(sorted: Seq<SpecTimelineEvent>, e: SpecTimelineEvent) -> Seq<SpecTimelineEvent>
    decreases sorted.len(),
{
    if sorted.len() == 0 || lex_le(event_key(sorted.last()), event_key(e)) {
        sorted.push(e)
    } else {
        insert_event(sorted.drop_last(), e).push(sorted.last())
    }
}

/// The events in date order; events of equal date keep their declared order.
pub open spec fn sort_events(evs: Seq<SpecTimelineEvent>) -> Seq<SpecTimelineEvent>
    decreases evs.len(),
{
    if evs.len() == 0 {
        Seq::empty()
    } else {
        insert_event(sort_events(evs.drop_last()), evs.last())
    }
}

/// Every event has a valid date.
pub open spec fn dates_valid(evs: Seq<SpecRawTimelineEvent>) -> bool {
    forall|i: int| 0 <= i < evs.len() ==> (#[trigger] normalized_date(evs[i].date)) is Some
}

/// The index of the first event with an invalid date.
pub open spec fn first_bad_date(evs: Seq<SpecRawTimelineEvent>) -> int
    recommends
        !dates_valid(evs),
{
    choose|i: int| 0 <= i < evs.len() && normalized_date(evs[i].date) is None
        && forall|j: int| 0 <= j < i ==> (#[trigger] normalized_date(evs[j].date)) is Some
}

/// The rules of the `timeline` kind.
pub open spec fn timeline_value(raw: SpecRawTimelineDiagram) -> Result<SpecDiagram, SpecError> {
    let evs = raw.events;
    if evs.len() < 2 {
        Err(SpecError::TooFewItems { kind: "timeline"@, min: 2, got: evs.len() })
    } else if !dates_valid(evs) {
        Err(invalid("date"@, evs[first_bad_date(evs)].date, "Date must be YYYY, YYYY-MM, or YYYY-MM-DD"@))
    } else {
        Ok(SpecDiagram::Timeline(SpecTimelineDiagram {
            title: raw.title,
            events: sort_events(evs.map_values(|e: SpecRawTimelineEvent| SpecTimelineEvent { date: e.date, label: e.label })),
        }))
    }
}

/// An event with its sort key.
struct Keyed {
    key: Vec<char>,
    event: TimelineEvent,
}

spec fn keyed_events(v: Seq<Keyed>) -> Seq<SpecTimelineEvent> {
    v.map_values(|k: Keyed| k.event@)
}

spec fn keys_match(v: Seq<Keyed>) -> bool {
    forall|i: int| 0 <= i < v.len() ==> normalized_date((#[trigger] v[i]).event.date@) == Some(v[i].key@)
}

fn insert_keyed(out: &mut Vec<Keyed>, x: Keyed)
    requires
        keys_match(old(out)@),
        normalized_date(x.event.date@) == Some(x.key@),
    ensures
        keys_match(final(out)@),
        keyed_events(final(out)@) == insert_event(keyed_events(old(out)@), x.event@),
    decreases old(out)@.len(),
{
    let ghost before = out@;
    let n = out.len();
    if n == 0 || lex_le_chars(&out[n - 1].key, &x.key) {
        out.push(x);
        assert(keyed_events(out@) =~= keyed_events(before).push(x.event@));
    } else {
        let last = out.pop().unwrap();
        assert(out@ =~= before.drop_last());
        assert(keyed_events(out@) =~= keyed_events(before).drop_last());
        assert(keyed_events(before).last() == last.event@);
        insert_keyed(out, x);
        let ghost mid = out@;
        out.push(last);
        assert(keyed_events(out@) =~= keyed_events(mid).push(last.event@));
        assert(keys_match(out@)) by {
            assert forall|i: int| 0 <= i < out@.len() implies
                normalized_date((#[trigger] out@[i]).event.date@) == Some(out@[i].key@) by {
                if i < mid.len() {
                    assert(out@[i] == mid[i]);
                }
            }
        }
    }
}

/// Checks a `timeline` declaration and builds its model, events in date order.
#[verifier::loop_isolation(false)]
pub fn validate_timeline(raw: RawTimelineDiagram) -> (r: Result<Diagram, DeclartError>)
    ensures
        res(r) == timeline_value(raw@),
{
    let ghost evs = raw@.events;
    let n = raw.events.len();
    if n < 2 {
        return Err(DeclartError::TooFewItems { kind: owned("timeline"), min: 2, got: n });
    }
    let mut keyed: Vec<Keyed> = Vec::new();
    let mut i: usize = 0;
    while i < n
        invariant
            i <= n,
            n == evs.len(),
            keyed@.len() == i,
            keys_match(keyed@),
            forall|k: int| 0 <= k < i ==> (#[trigger] keyed@[k]).event@ == (SpecTimelineEvent {
                date: evs[k].date,
                label: evs[k].label,
            }),
            forall|k: int| 0 <= k < i ==> (#[trigger] normalized_date(evs[k].date)) is Some,
        decreases n - i,
    {
        let e = &raw.events[i];
        assert(evs[i as int] == e@);
        match normalize_date(e.date.as_str()) {
            None => {
                assert(!dates_valid(evs));
                let ghost b = first_bad_date(evs);
                assert(b == i) by {
                    assert(0 <= i < evs.len() && normalized_date(evs[i as int].date) is None
                        && forall|j: int| 0 <= j < i ==> (#[trigger] normalized_date(evs[j].date)) is Some);
                    let b = first_bad_date(evs);
                    if b < i {
                        assert(normalized_date(evs[b].date) is Some);
                    } else if b > i {
                        assert(normalized_date(evs[i as int].date) is Some);
                    }
                }
                return Err(invalid_value("date", e.date.clone(), "Date must be YYYY, YYYY-MM, or YYYY-MM-DD"));
            },
            Some(d) => {
                let ev = TimelineEvent { date: e.date.clone(), label: e.label.clone() };
                let k = Keyed { key: char_seq(d.as_str()), event: ev };
                let ghost before = keyed@;
                keyed.push(k);
                assert(keys_match(keyed@)) by {
                    assert forall|j: int| 0 <= j < keyed@.len() implies
                        normalized_date((#[trigger] keyed@[j]).event.date@) == Some(keyed@[j].key@) by {
                        if j < before.len() {
                            assert(keyed@[j] == before[j]);
                        }
                    }
                }
            },
        }
        i = i + 1;
    }
    assert(dates_valid(evs));
    let ghost plain = evs.map_values(|e: SpecRawTimelineEvent| SpecTimelineEvent { date: e.date, label: e.label });
    assert(keyed_events(keyed@) =~= plain);
    // Stable insertion sort by key.
    let mut sorted: Vec<Keyed> = Vec::new();
    let mut j: usize = 0;
    assert(plain.take(0) =~= Seq::<SpecTimelineEvent>::empty());
    assert(keyed_events(sorted@) =~= Seq::<SpecTimelineEvent>::empty());
    while keyed.len() > 0
        invariant
            j + keyed@.len() == n,
            keys_match(sorted@),
            keys_match(keyed@),
            keyed_events(sorted@) == sort_events(plain.take(j as int)),
            keyed_events(keyed@) == plain.skip(j as int),
        decreases keyed@.len(),
    {
        let ghost rest = keyed@;
        let x = keyed.remove(0);
        assert(keyed_events(keyed@) =~= plain.skip(j as int + 1)) by {
            assert(keyed@ =~= rest.drop_first());
            assert(keyed_events(keyed@) =~= keyed_events(rest).drop_first());
            assert(plain.skip(j as int).drop_first() =~= plain.skip(j as int + 1));
        }
        assert(x.event@ == plain[j as int]) by {
            assert(keyed_events(rest)[0] == x.event@);
        }
        assert(keys_match(keyed@)) by {
            assert forall|t: int| 0 <= t < keyed@.len() implies
                normalized_date((#[trigger] keyed@[t]).event.date@) == Some(keyed@[t].key@) by {
                assert(keyed@[t] == rest[t + 1]);
            }
        }
        assert(normalized_date(x.event.date@) == Some(x.key@)) by {
            assert(rest[0] == x);
        }
        insert_keyed(&mut sorted, x);
        assert(plain.take(j as int + 1).drop_last() =~= plain.take(j as int));
        j = j + 1;
    }
    assert(plain.take(n as int) =~= plain);
    let mut events: Vec<TimelineEvent> = Vec::new();
    while sorted.len() > 0
        invariant
            keyed_events(sorted@) + events@.map_values(|e: TimelineEvent| e@).reverse()
                == sort_events(plain),
        decreases sorted@.len(),
    {
        let ghost s0 = sorted@;
        let ghost e0 = events@.map_values(|e: TimelineEvent| e@);
        let k = sorted.pop().unwrap();
        events.push(k.event);
        assert(keyed_events(sorted@) =~= keyed_events(s0).drop_last());
        assert(events@.map_values(|e: TimelineEvent| e@).reverse() =~= seq![keyed_events(s0).last()] + e0.reverse());
        assert(keyed_events(s0) =~= keyed_events(s0).drop_last().push(keyed_events(s0).last()));
        assert(keyed_events(s0) + e0.reverse() =~= keyed_events(sorted@)
            + events@.map_values(|e: TimelineEvent| e@).reverse());
    }
    // `events` holds the sorted events in reverse; turn them around.
    let mut out: Vec<TimelineEvent> = Vec::new();
    let ghost rev = events@.map_values(|e: TimelineEvent| e@);
    assert(rev.reverse() =~= sort_events(plain));
    while events.len() > 0
        invariant
            out@.map_values(|e: TimelineEvent| e@) + events@.map_values(|e: TimelineEvent| e@).reverse()
                == sort_events(plain),
        decreases events@.len(),
    {
        let ghost ev0 = events@.map_values(|e: TimelineEvent| e@);
        let ghost o0 = out@.map_values(|e: TimelineEvent| e@);
        let e = events.pop().unwrap();
        out.push(e);
        assert(events@.map_values(|e: TimelineEvent| e@) =~= ev0.drop_last());
        assert(ev0.reverse() =~= seq![ev0.last()] + ev0.drop_last().reverse());
        assert(out@.map_values(|e: TimelineEvent| e@) =~= o0.push(ev0.last()));
        assert(o0 + ev0.reverse() =~= out@.map_values(|e: TimelineEvent| e@)
            + events@.map_values(|e: TimelineEvent| e@).reverse());
    }
    assert(out@.map_values(|e: TimelineEvent| e@) =~= sort_events(plain));
    Ok(Diagram::Timeline(TimelineDiagram { title: raw.title, events: out }))
}

} // verus!
