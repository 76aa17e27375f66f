//! Presence intervals and their aggregation into a total duration.

use vstd::prelude::*;

verus! {

use vstd::seq_lib::commutative_foldr;
use vstd::seq_lib::lemma_fold_right_permutation;
use crate::error::LogtimeError;

/// One presence record as the API serves it: nullable ISO-8601
/// timestamp strings. A null `end_at` marks a session still open.
#[derive(Clone, Debug)]
pub struct Location {
    pub begin_at: Option<String>,
    pub end_at: Option<String>,
}

/// One presence interval with its bounds as epoch seconds. An absent
/// bound marks a session still open (a valid, expected state, not an
/// error).
#[derive(Clone, Copy, PartialEq, Eq, Debug)]
pub struct PresenceInterval {
    pub begin: Option<i64>,
    pub end: Option<i64>,
}

impl PresenceInterval {
    /// When both bounds are present they are ordered, and their
    /// distance is representable in the machine's signed range.
    pub open spec fn wf(self) -> bool {
        match (self.begin, self.end) {
            (Some(b), Some(e)) => b <= e && e - b <= i64::MAX,
            _ => true,
        }
    }

    /// Elapsed whole seconds of the interval: the distance of a
    /// closed interval. An interval with an absent bound contributes
    /// exactly zero, since its duration is unbounded at computation
    /// time.
    pub open spec fn spec_seconds(self) -> int {
        match (self.begin, self.end) {
            (Some(b), Some(e)) => e - b,
            _ => 0,
        }
    }

    /// Elapsed whole seconds of one interval; zero when a bound is
    /// absent.
    pub fn seconds(&self) -> (r: u64)
        requires
            self.wf(),
        ensures
            r as int == self.spec_seconds(),
    {
        match (self.begin, self.end) {
            (Some(b), Some(e)) => (e - b) as u64,
            _ => 0u64,
        }
    }
}

/// Every interval of the sequence is well-formed.
pub open spec fn spec_all_wf(s: Seq<PresenceInterval>) -> bool {
    forall|i: int| 0 <= i < s.len() ==> s[i].wf()
}

/// Total elapsed whole seconds of a sequence of intervals.
pub open spec fn spec_total_seconds(s: Seq<PresenceInterval>) -> int
    decreases s.len(),
{
    if s.len() == 0 {
        0
    } else {
        spec_total_seconds(s.drop_last()) + s.last().spec_seconds()
    }
}

/// Well-formed intervals contribute no negative time, so the total
/// grows with the sequence.
pub proof fn lemma_total_seconds_nonneg(s: Seq<PresenceInterval>)
    requires
        spec_all_wf(s),
    ensures
        spec_total_seconds(s) >= 0,
    decreases s.len(),
{
    if s.len() > 0 {
        assert(spec_all_wf(s.drop_last()));
        lemma_total_seconds_nonneg(s.drop_last());
    }
}

/// The total is the fold of the per-interval seconds.
proof fn lemma_total_seconds_as_fold(s: Seq<PresenceInterval>, f: spec_fn(PresenceInterval, int) -> int)
    requires
        forall|iv: PresenceInterval, acc: int| #[trigger] f(iv, acc) == acc + iv.spec_seconds(),
    ensures
        spec_total_seconds(s) == s.fold_right(f, 0),
    decreases s.len(),
{
    assert(commutative_foldr(f));
    if s.len() > 0 {
        lemma_total_seconds_as_fold(s.drop_last(), f);
        s.drop_last().lemma_fold_right_commute_one(s.last(), f, 0);
    }
}

/// Aggregation is associative over concatenation: paginated batches
/// may be totalled separately and combined.
pub proof fn lemma_total_seconds_concat(s1: Seq<PresenceInterval>, s2: Seq<PresenceInterval>)
    ensures
        spec_total_seconds(s1 + s2) == spec_total_seconds(s1) + spec_total_seconds(s2),
    decreases s2.len(),
{
    if s2.len() == 0 {
        assert(s1 + s2 =~= s1);
    } else {
        assert((s1 + s2).drop_last() =~= s1 + s2.drop_last());
        assert((s1 + s2).last() == s2.last());
        lemma_total_seconds_concat(s1, s2.drop_last());
    }
}

/// Aggregation is order-independent: two sequences holding the same
/// intervals, in any order, have the same total. Upstream pagination
/// order therefore cannot change the result.
pub proof fn lemma_total_seconds_permutation(s1: Seq<PresenceInterval>, s2: Seq<PresenceInterval>)
    requires
        s1.to_multiset() == s2.to_multiset(),
    ensures
        spec_total_seconds(s1) == spec_total_seconds(s2),
{
    let f = |iv: PresenceInterval, acc: int| acc + iv.spec_seconds();
    lemma_total_seconds_as_fold(s1, f);
    lemma_total_seconds_as_fold(s2, f);
    assert(commutative_foldr(f));
    lemma_fold_right_permutation(s1, s2, f, 0);
}

/// An interval with an absent bound contributes exactly zero
/// elapsed time: a still-open session is not counted.
pub proof fn lemma_open_interval_zero(iv: PresenceInterval)
    requires
        iv.begin is None || iv.end is None,
    ensures
        iv.spec_seconds() == 0,
{
}

/// An empty interval sequence totals zero.
pub proof fn lemma_empty_total_zero()
    ensures
        spec_total_seconds(Seq::<PresenceInterval>::empty()) == 0,
{
}

/// The `HhMM` report line of a duration: whole hours, the letter
/// `h`, and the remaining minutes padded to two digits.
pub open spec fn spec_format_logtime(seconds: int) -> Seq<char> {
    crate::text::spec_dec_digits(seconds / 3600) + "h"@ + seq![
        crate::text::spec_digit_char(seconds % 3600 / 60 / 10),
        crate::text::spec_digit_char(seconds % 3600 / 60 % 10),
    ]
}

/// Renders a duration for the report: whole hours and the remaining
/// whole minutes, `HhMM`.
pub fn format_logtime(seconds: u64) -> (r: String)
    ensures
        r@ == spec_format_logtime(seconds as int),
{
    let hours = seconds / 3600;
    let minutes = seconds % 3600 / 60;
    let mut s = crate::text::u64_string(hours);
    proof {
        reveal_strlit("h");
    }
    s.append("h");
    s.append(crate::text::digit_str(minutes / 10));
    s.append(crate::text::digit_str(minutes % 10));
    proof {
        assert(s@ =~= spec_format_logtime(seconds as int));
    }
    s
}

/// The epoch-second count an ISO-8601 / RFC 3339 timestamp string
/// denotes, or nothing for a string that does not parse.
pub uninterp spec fn rfc3339_seconds(s: Seq<char>) -> Option<i64>;

/// Relies on chrono's `DateTime::parse_from_rfc3339` followed by
/// `DateTime::timestamp`: the parse outcome and the epoch-second
/// count are a function of the characters alone.
#[verifier::external_body]
fn parse_rfc3339_seconds(s: &str) -> (r: Option<i64>)
    ensures
        r == rfc3339_seconds(s@),
{
    match chrono::DateTime::parse_from_rfc3339(s) {
        Ok(d) => Some(d.timestamp()),
        Err(_) => None,
    }
}

/// The interval bound a nullable timestamp field denotes: an absent
/// field is an open bound, a present field must parse. The outer
/// `None` marks a string that does not parse.
pub open spec fn spec_bound_of(o: Option<String>) -> Option<Option<i64>> {
    match o {
        None => Some(None),
        Some(s) => match rfc3339_seconds(s@) {
            Some(t) => Some(Some(t)),
            None => None,
        },
    }
}

/// The interval a wire record denotes: both present timestamps must
/// parse, and a closed interval must be ordered with a representable
/// distance. `None` marks a record the tool cannot interpret.
pub open spec fn spec_interval_of_location(loc: Location) -> Option<PresenceInterval> {
    match (spec_bound_of(loc.begin_at), spec_bound_of(loc.end_at)) {
        (Some(b), Some(e)) => {
            let iv = PresenceInterval { begin: b, end: e };
            if iv.wf() {
                Some(iv)
            } else {
                None
            }
        },
        _ => None,
    }
}

/// The interval sequence a wire record sequence denotes, or `None`
/// as soon as any record cannot be interpreted.
pub open spec fn spec_intervals_of(locs: Seq<Location>) -> Option<Seq<PresenceInterval>>
    decreases locs.len(),
{
    if locs.len() == 0 {
        Some(Seq::empty())
    } else {
        match (spec_intervals_of(locs.drop_last()), spec_interval_of_location(locs.last())) {
            (Some(pre), Some(iv)) => Some(pre.push(iv)),
            _ => None,
        }
    }
}

/// A sequence with an uninterpretable prefix is uninterpretable.
proof fn lemma_intervals_of_prefix_none(locs: Seq<Location>, i: int)
    requires
        0 <= i <= locs.len(),
        spec_intervals_of(locs.subrange(0, i)) is None,
    ensures
        spec_intervals_of(locs) is None,
    decreases locs.len(),
{
    if i == locs.len() {
        assert(locs.subrange(0, i) =~= locs);
    } else {
        assert(locs.drop_last().subrange(0, i) =~= locs.subrange(0, i));
        lemma_intervals_of_prefix_none(locs.drop_last(), i);
    }
}

/// Reads the bound a nullable timestamp field denotes.
fn bound_of(o: &Option<String>) -> (r: Option<Option<i64>>)
    ensures
        r == spec_bound_of(*o),
{
    match o {
        None => Some(None),
        Some(s) => match parse_rfc3339_seconds(s.as_str()) {
            Some(t) => Some(Some(t)),
            None => None,
        },
    }
}

/// Converts the wire records of one response into presence
/// intervals, rejecting a response with any record the tool cannot
/// interpret as an API contract mismatch.
pub fn locations_to_intervals(locations: &Vec<Location>) -> (r: Result<
    Vec<PresenceInterval>,
    LogtimeError,
>)
    ensures
        match spec_intervals_of(locations@) {
            Some(ivs) => r matches Ok(v) && v@ == ivs && spec_all_wf(v@),
            None => r == Err::<Vec<PresenceInterval>, LogtimeError>(LogtimeError::MalformedResponse),
        },
{
    let mut out: Vec<PresenceInterval> = Vec::new();
    let mut i: usize = 0;
    while i < locations.len()
        invariant
            i <= locations.len(),
            spec_intervals_of(locations@.subrange(0, i as int)) == Some(out@),
            spec_all_wf(out@),
        decreases locations.len() - i,
    {
        let ghost pre = locations@.subrange(0, i as int);
        let ghost cur = locations@.subrange(0, i as int + 1);
        proof {
            assert(cur.drop_last() =~= pre);
            assert(cur.last() == locations@[i as int]);
        }
        let begin = match bound_of(&locations[i].begin_at) {
            Some(b) => b,
            None => {
                proof {
                    lemma_intervals_of_prefix_none(locations@, i as int + 1);
                }
                return Err(LogtimeError::MalformedResponse);
            },
        };
        let end = match bound_of(&locations[i].end_at) {
            Some(e) => e,
            None => {
                proof {
                    lemma_intervals_of_prefix_none(locations@, i as int + 1);
                }
                return Err(LogtimeError::MalformedResponse);
            },
        };
        let iv = PresenceInterval { begin, end };
        let ok = match (iv.begin, iv.end) {
            (Some(b), Some(e)) => b <= e && e.checked_sub(b).is_some(),
            _ => true,
        };
        proof {
            assert(ok == iv.wf());
        }
        if !ok {
            proof {
                lemma_intervals_of_prefix_none(locations@, i as int + 1);
            }
            return Err(LogtimeError::MalformedResponse);
        }
        out.push(iv);
        i = i + 1;
    }
    proof {
        assert(locations@.subrange(0, locations@.len() as int) =~= locations@);
    }
    Ok(out)
}

/// A total capped at the machine's unsigned range.
pub open spec fn spec_capped_u64(x: int) -> int {
    if x <= u64::MAX {
        x
    } else {
        u64::MAX as int
    }
}

/// Sums the elapsed seconds of the intervals: each closed interval
/// adds its distance, an interval with an absent bound adds zero, and
/// an empty sequence totals zero. Saturates at the unsigned range
/// instead of overflowing.
pub fn sum_time(locations: &Vec<PresenceInterval>) -> (r: u64)
    requires
        spec_all_wf(locations@),
    ensures
        r as int == spec_capped_u64(spec_total_seconds(locations@)),
{
    let mut total: u64 = 0;
    let mut i: usize = 0;
    while i < locations.len()
        invariant
            i <= locations.len(),
            spec_all_wf(locations@),
            total as int == spec_capped_u64(spec_total_seconds(locations@.subrange(0, i as int))),
        decreases locations.len() - i,
    {
        let secs = locations[i].seconds();
        proof {
            let pre = locations@.subrange(0, i as int);
            let cur = locations@.subrange(0, i as int + 1);
            assert(cur.drop_last() =~= pre);
            assert(cur.last() == locations@[i as int]);
            lemma_total_seconds_nonneg(pre);
        }
        total = total.saturating_add(secs);
        i = i + 1;
    }
    proof {
        assert(locations@.subrange(0, locations@.len() as int) =~= locations@);
    }
    total
}

} // verus!
