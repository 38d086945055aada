//! Measurement sessions: pairing start/end readings per source and
//! aggregating energy deltas across multiple simultaneous sources.

use vstd::prelude::*;
use vstd::arithmetic::div_mod::{lemma_fundamental_div_mod, lemma_hoist_over_denominator};
use vstd::pervasive::VecAdditionalExecFns;
use crate::clock::now_timestamp_ns;
use crate::measurement::{Measurement, same_measurement, MAX_ENERGY_UJ};

verus! {

/// Sources of the readings in `s` are pairwise distinct.
pub open spec fn distinct_sources(s: Seq<Measurement>) -> bool {
    forall|i: int, j: int| 0 <= i < j < s.len() ==> s[i].source@ != s[j].source@
}

/// Every reading in `s` respects the engine-wide energy cap.
pub open spec fn all_valid(s: Seq<Measurement>) -> bool {
    forall|i: int| 0 <= i < s.len() ==> s[i].valid()
}

/// Some reading in `s` stems from the given source.
pub open spec fn contains_source(s: Seq<Measurement>, src: Seq<char>) -> bool {
    exists|i: int| 0 <= i < s.len() && s[i].source@ == src
}

/// Index of a reading with the given source.
pub open spec fn source_index(s: Seq<Measurement>, src: Seq<char>) -> int {
    choose|i: int| 0 <= i < s.len() && s[i].source@ == src
}

/// The reading with the given source.
pub open spec fn measurement_for(s: Seq<Measurement>, src: Seq<char>) -> Measurement {
    s[source_index(s, src)]
}

/// With pairwise distinct sources, an index holding the given source is
/// the index every source lookup denotes.
pub proof fn lemma_found_is_canonical(s: Seq<Measurement>, src: Seq<char>, j: int)
    requires
        distinct_sources(s),
        0 <= j < s.len(),
        s[j].source@ == src,
    ensures
        source_index(s, src) == j,
        measurement_for(s, src) == s[j],
{
    assert(contains_source(s, src));
    let i = source_index(s, src);
    assert(0 <= i < s.len() && s[i].source@ == src);
    if i != j {
        assert(s[i].source@ != s[j].source@);
    }
}

/// Energy delta contributed by the start reading `m`: the end reading's
/// energy minus the start's when the source is present in the end map,
/// zero when it is not.
pub open spec fn delta_for(m: Measurement, ends: Seq<Measurement>) -> int {
    if contains_source(ends, m.source@) {
        measurement_for(ends, m.source@).energy_uj - m.energy_uj
    } else {
        0
    }
}

/// Total energy of a session: the sum of per-source deltas over the
/// sources present in both the start and the end map.
pub open spec fn total_energy_spec(starts: Seq<Measurement>, ends: Seq<Measurement>) -> int
    decreases starts.len(),
{
    if starts.len() == 0 {
        0
    } else {
        total_energy_spec(starts.drop_last(), ends) + delta_for(starts.last(), ends)
    }
}

/// A start reading whose source has no end reading contributes nothing
/// to the total energy.
pub proof fn lemma_unmatched_contributes_zero(
    starts: Seq<Measurement>,
    ends: Seq<Measurement>,
    m: Measurement,
)
    requires
        !contains_source(ends, m.source@),
    ensures
        total_energy_spec(starts.push(m), ends) == total_energy_spec(starts, ends),
{
    assert(starts.push(m).drop_last() =~= starts);
    assert(starts.push(m).last() == m);
}

/// A start reading whose source has an end reading contributes exactly
/// that pair's energy delta to the total energy.
pub proof fn lemma_matched_contributes_delta(
    starts: Seq<Measurement>,
    ends: Seq<Measurement>,
    m: Measurement,
)
    requires
        contains_source(ends, m.source@),
    ensures
        total_energy_spec(starts.push(m), ends) == total_energy_spec(starts, ends) + (
        measurement_for(ends, m.source@).energy_uj - m.energy_uj),
{
    assert(starts.push(m).drop_last() =~= starts);
    assert(starts.push(m).last() == m);
}

/// The total energy of any pair of maps with capped readings is bounded
/// by the size of the start map times the energy cap.
pub proof fn lemma_total_energy_bound(starts: Seq<Measurement>, ends: Seq<Measurement>)
    requires
        all_valid(starts),
        all_valid(ends),
    ensures
        -(starts.len() * MAX_ENERGY_UJ) <= total_energy_spec(starts, ends) <= starts.len()
            * MAX_ENERGY_UJ,
    decreases starts.len(),
{
    if starts.len() > 0 {
        let rest = starts.drop_last();
        assert(all_valid(rest));
        lemma_total_energy_bound(rest, ends);
        let m = starts.last();
        if contains_source(ends, m.source@) {
            let i = source_index(ends, m.source@);
            assert(0 <= i < ends.len() && ends[i].source@ == m.source@);
            assert(ends[i].valid());
        }
        assert(rest.len() * MAX_ENERGY_UJ + MAX_ENERGY_UJ == starts.len() * MAX_ENERGY_UJ)
            by (nonlinear_arith)
            requires
                rest.len() + 1 == starts.len(),
        ;
    }
}

/// Elapsed nanoseconds between two readings on a monotonic clock; a
/// pair out of order (which a monotonic clock never produces) counts as
/// zero.
pub open spec fn duration_of(start: Measurement, end: Measurement) -> int {
    if end.timestamp_ns >= start.timestamp_ns {
        end.timestamp_ns - start.timestamp_ns
    } else {
        0
    }
}

/// Signed energy delta of one start/end pair, in microjoules.
pub open spec fn energy_delta_of(start: Measurement, end: Measurement) -> int {
    end.energy_uj - start.energy_uj
}

/// One source's start/end pair plus its derived duration and energy
/// delta.  `duration_ns` and `total_energy_uj` are fixed by the two
/// readings when the session is created and never change.
#[derive(Debug)]
pub struct MeasurementSession {
    pub start: Measurement,
    pub end: Measurement,
    pub duration_ns: u64,
    pub total_energy_uj: i64,
}

impl MeasurementSession {
    /// The derived fields agree with the two readings.
    pub open spec fn wf(self) -> bool {
        &&& self.duration_ns == duration_of(self.start, self.end)
        &&& self.total_energy_uj == energy_delta_of(self.start, self.end)
    }

    /// Pair two readings of one source into a session.
    pub fn from_measurements(start: Measurement, end: Measurement) -> (s: MeasurementSession)
        requires
            start.valid(),
            end.valid(),
        ensures
            s.start == start,
            s.end == end,
            s.wf(),
    {
        let duration_ns: u64 = if end.timestamp_ns >= start.timestamp_ns {
            end.timestamp_ns - start.timestamp_ns
        } else {
            0
        };
        let total_energy_uj: i64 = (end.energy_uj as i64) - (start.energy_uj as i64);
        MeasurementSession { start, end, duration_ns, total_energy_uj }
    }
}

/// For two readings of one source with monotonic timestamps whose
/// corrected cumulative energy did not decrease, the derived duration
/// and energy delta are both non-negative.
pub proof fn lemma_session_nonnegative(start: Measurement, end: Measurement)
    requires
        end.timestamp_ns >= start.timestamp_ns,
        end.energy_uj >= start.energy_uj,
    ensures
        duration_of(start, end) >= 0,
        energy_delta_of(start, end) >= 0,
{
}

/// Sessions derived per source, in start-map order, for the sources
/// present in both maps.
pub open spec fn source_sessions_spec(
    starts: Seq<Measurement>,
    ends: Seq<Measurement>,
) -> Seq<MeasurementSession>
    decreases starts.len(),
{
    if starts.len() == 0 {
        Seq::empty()
    } else {
        let rest = source_sessions_spec(starts.drop_last(), ends);
        let m = starts.last();
        if contains_source(ends, m.source@) {
            rest.push(spec_session_of(m, measurement_for(ends, m.source@)))
        } else {
            rest
        }
    }
}

/// The session a start/end pair denotes.
pub open spec fn spec_session_of(start: Measurement, end: Measurement) -> MeasurementSession {
    MeasurementSession {
        start,
        end,
        duration_ns: duration_of(start, end) as u64,
        total_energy_uj: energy_delta_of(start, end) as i64,
    }
}

/// Two sessions that agree on every observable field.
pub open spec fn same_session(a: MeasurementSession, b: MeasurementSession) -> bool {
    &&& same_measurement(a.start, b.start)
    &&& same_measurement(a.end, b.end)
    &&& a.duration_ns == b.duration_ns
    &&& a.total_energy_uj == b.total_energy_uj
}

/// Sources that occur in `a` but not in `b`, in the order of `a`.
pub open spec fn one_sided_sources(a: Seq<Measurement>, b: Seq<Measurement>) -> Seq<Seq<char>>
    decreases a.len(),
{
    if a.len() == 0 {
        Seq::empty()
    } else {
        let rest = one_sided_sources(a.drop_last(), b);
        if !contains_source(b, a.last().source@) {
            rest.push(a.last().source@)
        } else {
            rest
        }
    }
}

/// A source present in one map and missing from the other is listed
/// among that side's one-sided sources.
pub proof fn lemma_one_sided_complete(a: Seq<Measurement>, b: Seq<Measurement>, src: Seq<char>)
    requires
        contains_source(a, src),
        !contains_source(b, src),
    ensures
        one_sided_sources(a, b).contains(src),
    decreases a.len(),
{
    let i = choose|i: int| 0 <= i < a.len() && a[i].source@ == src;
    let rest = one_sided_sources(a.drop_last(), b);
    if i < a.len() - 1 {
        assert(a.drop_last()[i] == a[i]);
        assert(contains_source(a.drop_last(), src));
        lemma_one_sided_complete(a.drop_last(), b, src);
        let w = choose|w: int| 0 <= w < rest.len() && rest[w] == src;
        assert(one_sided_sources(a, b)[w] == src);
    } else {
        assert(a.last().source@ == src);
        assert(one_sided_sources(a, b).last() == src);
    }
}

/// Average power over a session, in microwatts: the total energy in
/// microjoules scaled to nanosecond resolution and divided by the
/// duration, truncated toward zero.  A session of zero duration has
/// average power zero rather than an error.
pub open spec fn average_power_spec(total_uj: int, duration_ns: int) -> int {
    if duration_ns == 0 {
        0
    } else if total_uj >= 0 {
        (total_uj * 1_000_000_000) / duration_ns
    } else {
        -((-total_uj * 1_000_000_000) / duration_ns)
    }
}

/// A mathematical value forced into the range of `i128`.
pub open spec fn clamp_i128(x: int) -> int {
    if x > i128::MAX {
        i128::MAX as int
    } else if x < i128::MIN {
        i128::MIN as int
    } else {
        x
    }
}

/// Find the index of the reading with the given source, scanning
/// forward.
fn find_index_by_source(v: &Vec<Measurement>, src: &String) -> (r: Option<usize>)
    ensures
        match r {
            Some(j) => j < v@.len() && v@[j as int].source@ == src@,
            None => !contains_source(v@, src@),
        },
{
    let mut j: usize = 0;
    while j < v.len()
        invariant
            j <= v@.len(),
            forall|k: int| 0 <= k < j ==> v@[k].source@ != src@,
        decreases v@.len() - j,
    {
        if v[j].source == *src {
            return Some(j);
        }
        j = j + 1;
    }
    None
}

/// A session over multiple simultaneous sources: a start map and an end
/// map, each keyed by source name, plus the session's own start time and
/// the end time frozen by `end`.
///
/// Lifecycle: constructed empty, filled through `add_start_measurement`
/// and `add_end_measurement` (each an insert-or-overwrite per source
/// key), finalized by `end`, thereafter read-only.  A source present in
/// only one of the two maps is excluded from the total and listed by
/// `missing_sources`.
pub struct MultiSourceSession {
    start_measurements: Vec<Measurement>,
    end_measurements: Vec<Measurement>,
    start_time_ns: u64,
    end_time_ns: Option<u64>,
}

impl MultiSourceSession {
    /// The start map, in insertion order.
    pub closed spec fn starts(self) -> Seq<Measurement> {
        self.start_measurements@
    }

    /// The end map, in insertion order.
    pub closed spec fn ends(self) -> Seq<Measurement> {
        self.end_measurements@
    }

    /// The session's start time.
    pub closed spec fn spec_start_time(self) -> u64 {
        self.start_time_ns
    }

    /// The frozen end time, if `end` has been called.
    pub closed spec fn spec_end_time(self) -> Option<u64> {
        self.end_time_ns
    }

    /// Both maps are keyed: sources pairwise distinct, readings capped.
    pub open spec fn wf(self) -> bool {
        &&& distinct_sources(self.starts())
        &&& distinct_sources(self.ends())
        &&& all_valid(self.starts())
        &&& all_valid(self.ends())
    }

    /// The session's duration: end time minus start time once `end` has
    /// been called, undefined before.
    pub open spec fn duration_spec(self) -> Option<int> {
        match self.spec_end_time() {
            Some(e) => Some(
                if e >= self.spec_start_time() {
                    e - self.spec_start_time()
                } else {
                    0
                },
            ),
            None => None,
        }
    }

    /// An empty session that starts at the given point in time.
    pub fn new_at(start_time_ns: u64) -> (s: MultiSourceSession)
        ensures
            s.starts().len() == 0,
            s.ends().len() == 0,
            s.spec_start_time() == start_time_ns,
            s.spec_end_time() is None,
            s.wf(),
    {
        MultiSourceSession {
            start_measurements: Vec::new(),
            end_measurements: Vec::new(),
            start_time_ns,
            end_time_ns: None,
        }
    }

    /// An empty session that starts now.
    pub fn new() -> (s: MultiSourceSession)
        ensures
            s.starts().len() == 0,
            s.ends().len() == 0,
            s.spec_end_time() is None,
            s.wf(),
    {
        MultiSourceSession::new_at(now_timestamp_ns())
    }

    /// Insert or overwrite the start reading of the reading's source.
    pub fn add_start_measurement(&mut self, measurement: Measurement)
        requires
            old(self).wf(),
            measurement.valid(),
        ensures
            final(self).wf(),
            final(self).ends() == old(self).ends(),
            final(self).spec_start_time() == old(self).spec_start_time(),
            final(self).spec_end_time() == old(self).spec_end_time(),
            contains_source(old(self).starts(), measurement.source@) ==> final(self).starts()
                == old(self).starts().update(
                source_index(old(self).starts(), measurement.source@),
                measurement,
            ),
            !contains_source(old(self).starts(), measurement.source@) ==> final(self).starts()
                == old(self).starts().push(measurement),
            contains_source(final(self).starts(), measurement.source@),
            measurement_for(final(self).starts(), measurement.source@) == measurement,
    {
        match find_index_by_source(&self.start_measurements, &measurement.source) {
            Some(i) => {
                proof {
                    lemma_found_is_canonical(
                        self.start_measurements@,
                        measurement.source@,
                        i as int,
                    );
                }
                self.start_measurements.set(i, measurement);
                proof {
                    lemma_found_is_canonical(
                        self.start_measurements@,
                        self.start_measurements@[i as int].source@,
                        i as int,
                    );
                }
            },
            None => {
                self.start_measurements.push(measurement);
                proof {
                    lemma_found_is_canonical(
                        self.start_measurements@,
                        self.start_measurements@[self.start_measurements@.len() - 1].source@,
                        self.start_measurements@.len() - 1,
                    );
                }
            },
        }
    }

    /// Insert or overwrite the end reading of the reading's source.
    pub fn add_end_measurement(&mut self, measurement: Measurement)
        requires
            old(self).wf(),
            measurement.valid(),
        ensures
            final(self).wf(),
            final(self).starts() == old(self).starts(),
            final(self).spec_start_time() == old(self).spec_start_time(),
            final(self).spec_end_time() == old(self).spec_end_time(),
            contains_source(old(self).ends(), measurement.source@) ==> final(self).ends() == old(
                self,
            ).ends().update(source_index(old(self).ends(), measurement.source@), measurement),
            !contains_source(old(self).ends(), measurement.source@) ==> final(self).ends() == old(
                self,
            ).ends().push(measurement),
            contains_source(final(self).ends(), measurement.source@),
            measurement_for(final(self).ends(), measurement.source@) == measurement,
    {
        match find_index_by_source(&self.end_measurements, &measurement.source) {
            Some(i) => {
                proof {
                    lemma_found_is_canonical(self.end_measurements@, measurement.source@, i as int);
                }
                self.end_measurements.set(i, measurement);
                proof {
                    lemma_found_is_canonical(
                        self.end_measurements@,
                        self.end_measurements@[i as int].source@,
                        i as int,
                    );
                }
            },
            None => {
                self.end_measurements.push(measurement);
                proof {
                    lemma_found_is_canonical(
                        self.end_measurements@,
                        self.end_measurements@[self.end_measurements@.len() - 1].source@,
                        self.end_measurements@.len() - 1,
                    );
                }
            },
        }
    }

    /// Freeze the session's end at the given point in time.
    /// Finalization is idempotent: once an end time is recorded, later
    /// calls leave it untouched.
    pub fn end_at(&mut self, now_ns: u64)
        ensures
            final(self).starts() == old(self).starts(),
            final(self).ends() == old(self).ends(),
            final(self).spec_start_time() == old(self).spec_start_time(),
            old(self).spec_end_time() is Some ==> final(self).spec_end_time() == old(
                self,
            ).spec_end_time(),
            old(self).spec_end_time() is None ==> final(self).spec_end_time() == Some(now_ns),
    {
        if self.end_time_ns.is_none() {
            self.end_time_ns = Some(now_ns);
        }
    }

    /// Freeze the session's end at the current time.  Idempotent.
    pub fn end(&mut self)
        ensures
            final(self).starts() == old(self).starts(),
            final(self).ends() == old(self).ends(),
            final(self).spec_start_time() == old(self).spec_start_time(),
            old(self).spec_end_time() is Some ==> final(self).spec_end_time() == old(
                self,
            ).spec_end_time(),
            final(self).spec_end_time() is Some,
    {
        let now = now_timestamp_ns();
        self.end_at(now);
    }

    /// The session's duration in nanoseconds, or `None` while the
    /// session has not ended.
    pub fn duration(&self) -> (r: Option<u64>)
        ensures
            match r {
                Some(d) => self.duration_spec() == Some(d as int),
                None => self.duration_spec() is None,
            },
    {
        match self.end_time_ns {
            Some(e) => Some(
                if e >= self.start_time_ns {
                    e - self.start_time_ns
                } else {
                    0
                },
            ),
            None => None,
        }
    }

    /// Total energy over all sources present in both maps, in
    /// microjoules.  A source present in only one map contributes
    /// nothing.
    pub fn total_energy(&self) -> (r: i128)
        requires
            self.wf(),
        ensures
            r == total_energy_spec(self.starts(), self.ends()),
    {
        let starts = &self.start_measurements;
        let ends = &self.end_measurements;
        let mut acc: i128 = 0;
        let mut i: usize = 0;
        proof {
            assert(starts@.take(0) =~= Seq::<Measurement>::empty());
        }
        while i < starts.len()
            invariant
                self.wf(),
                starts == &self.start_measurements,
                ends == &self.end_measurements,
                i <= starts@.len(),
                acc == total_energy_spec(starts@.take(i as int), ends@),
            decreases starts@.len() - i,
        {
            proof {
                assert(all_valid(starts@.take(i as int)));
                lemma_total_energy_bound(starts@.take(i as int), ends@);
                assert(starts@.take(i as int).len() * MAX_ENERGY_UJ <= starts@.len()
                    * MAX_ENERGY_UJ) by (nonlinear_arith)
                    requires
                        0 <= starts@.take(i as int).len() <= starts@.len(),
                ;
                assert(starts@.len() * MAX_ENERGY_UJ <= usize::MAX as int * MAX_ENERGY_UJ)
                    by (nonlinear_arith)
                    requires
                        0 <= starts@.len() <= usize::MAX as int,
                ;
            }
            let m = &starts[i];
            let delta: i128 = match find_index_by_source(ends, &m.source) {
                Some(j) => {
                    proof {
                        lemma_found_is_canonical(ends@, m.source@, j as int);
                    }
                    (ends[j].energy_uj as i128) - (m.energy_uj as i128)
                },
                None => 0,
            };
            acc = acc + delta;
            proof {
                assert(starts@.take(i + 1).drop_last() =~= starts@.take(i as int));
                assert(starts@.take(i + 1).last() == starts@[i as int]);
            }
            i = i + 1;
        }
        proof {
            assert(starts@.take(starts@.len() as int) =~= starts@);
        }
        acc
    }

    /// Average power in microwatts, or `None` while the session has not
    /// ended.  A session of zero duration reports zero average power,
    /// not an error.  A value beyond the range of `i128` (which no
    /// physical session produces) is clamped to that range.
    pub fn average_power(&self) -> (r: Option<i128>)
        requires
            self.wf(),
        ensures
            match r {
                Some(p) => {
                    &&& self.duration_spec() matches Some(d)
                    &&& p == clamp_i128(
                        average_power_spec(total_energy_spec(self.starts(), self.ends()), d),
                    )
                },
                None => self.duration_spec() is None,
            },
            self.duration_spec() == Some(0int) ==> r == Some(0i128),
    {
        let d: u64 = match self.duration() {
            Some(d) => d,
            None => { return None; },
        };
        if d == 0 {
            return Some(0);
        }
        let total: i128 = self.total_energy();
        proof {
            lemma_total_energy_bound(self.starts(), self.ends());
            assert(self.start_measurements.len() == self.starts().len());
            assert(self.starts().len() <= usize::MAX);
            crate::measurement::lemma_max_energy_value();
            let ghost n = self.starts().len() as int;
            assert(n * MAX_ENERGY_UJ == n * 0x20_0000_0000_0000) by (nonlinear_arith)
                requires
                    MAX_ENERGY_UJ == 0x20_0000_0000_0000,
            ;
            assert(n <= 0xFFFF_FFFF_FFFF_FFFF);
            assert(n * 0x20_0000_0000_0000 < 0x8000_0000_0000_0000_0000_0000_0000_0000);
            assert(-total <= n * MAX_ENERGY_UJ);
        }
        let negative: bool = total < 0;
        let mag: u128 = if negative {
            (-total) as u128
        } else {
            total as u128
        };
        Some(scaled_quotient_clamped(mag, d, negative))
    }

    /// The start and end readings recorded for one source, when both are
    /// present.
    pub fn get_measurements(&self, source: &String) -> (r: Option<(Measurement, Measurement)>)
        requires
            self.wf(),
        ensures
            match r {
                Some(pair) => {
                    &&& contains_source(self.starts(), source@)
                    &&& contains_source(self.ends(), source@)
                    &&& same_measurement(pair.0, measurement_for(self.starts(), source@))
                    &&& same_measurement(pair.1, measurement_for(self.ends(), source@))
                },
                None => !(contains_source(self.starts(), source@) && contains_source(
                    self.ends(),
                    source@,
                )),
            },
    {
        let i = match find_index_by_source(&self.start_measurements, source) {
            Some(i) => i,
            None => { return None; },
        };
        let j = match find_index_by_source(&self.end_measurements, source) {
            Some(j) => j,
            None => { return None; },
        };
        proof {
            lemma_found_is_canonical(self.start_measurements@, source@, i as int);
            lemma_found_is_canonical(self.end_measurements@, source@, j as int);
        }
        Some((self.start_measurements[i].clone(), self.end_measurements[j].clone()))
    }

    /// One derived session per source present in both maps, in start-map
    /// order.
    pub fn get_source_sessions(&self) -> (r: Vec<MeasurementSession>)
        requires
            self.wf(),
        ensures
            r@.len() == source_sessions_spec(self.starts(), self.ends()).len(),
            forall|k: int|
                0 <= k < r@.len() ==> same_session(
                    r@[k],
                    source_sessions_spec(self.starts(), self.ends())[k],
                ),
    {
        let starts = &self.start_measurements;
        let ends = &self.end_measurements;
        let mut out: Vec<MeasurementSession> = Vec::new();
        let mut i: usize = 0;
        proof {
            assert(starts@.take(0) =~= Seq::<Measurement>::empty());
        }
        while i < starts.len()
            invariant
                self.wf(),
                starts == &self.start_measurements,
                ends == &self.end_measurements,
                i <= starts@.len(),
                out@.len() == source_sessions_spec(starts@.take(i as int), ends@).len(),
                forall|k: int|
                    0 <= k < out@.len() ==> same_session(
                        out@[k],
                        source_sessions_spec(starts@.take(i as int), ends@)[k],
                    ),
            decreases starts@.len() - i,
        {
            let m = &starts[i];
            match find_index_by_source(ends, &m.source) {
                Some(j) => {
                    proof {
                        lemma_found_is_canonical(ends@, m.source@, j as int);
                    }
                    let session = MeasurementSession::from_measurements(
                        m.clone(),
                        ends[j].clone(),
                    );
                    out.push(session);
                },
                None => {},
            }
            proof {
                assert(starts@.take(i + 1).drop_last() =~= starts@.take(i as int));
                assert(starts@.take(i + 1).last() == starts@[i as int]);
            }
            i = i + 1;
        }
        proof {
            assert(starts@.take(starts@.len() as int) =~= starts@);
        }
        out
    }

    /// A copy of the start map, in insertion order.
    pub fn start_measurements(&self) -> (r: Vec<Measurement>)
        ensures
            r@.len() == self.starts().len(),
            forall|k: int|
                0 <= k < r@.len() ==> same_measurement(#[trigger] r@[k], self.starts()[k]),
    {
        clone_measurements(&self.start_measurements)
    }

    /// A copy of the end map, in insertion order.
    pub fn end_measurements(&self) -> (r: Vec<Measurement>)
        ensures
            r@.len() == self.ends().len(),
            forall|k: int|
                0 <= k < r@.len() ==> same_measurement(#[trigger] r@[k], self.ends()[k]),
    {
        clone_measurements(&self.end_measurements)
    }

    /// The session's start time, in nanoseconds.
    pub fn start_time(&self) -> (r: u64)
        ensures
            r == self.spec_start_time(),
    {
        self.start_time_ns
    }

    /// The frozen end time, if the session has ended.
    pub fn end_time(&self) -> (r: Option<u64>)
        ensures
            r == self.spec_end_time(),
    {
        self.end_time_ns
    }

    /// The sources excluded from the total because they are present in
    /// only one of the two maps: first those with a start but no end
    /// reading, then those with an end but no start reading.
    pub fn missing_sources(&self) -> (r: Vec<String>)
        ensures
            r.deep_view() == one_sided_sources(self.starts(), self.ends()) + one_sided_sources(
                self.ends(),
                self.starts(),
            ),
    {
        let mut out: Vec<String> = Vec::new();
        push_one_sided(&mut out, &self.start_measurements, &self.end_measurements);
        push_one_sided(&mut out, &self.end_measurements, &self.start_measurements);
        proof {
            assert(out.deep_view() =~= one_sided_sources(self.starts(), self.ends())
                + one_sided_sources(self.ends(), self.starts()));
        }
        out
    }
}

/// Copy a list of readings.
fn clone_measurements(v: &Vec<Measurement>) -> (r: Vec<Measurement>)
    ensures
        r@.len() == v@.len(),
        forall|k: int| 0 <= k < r@.len() ==> same_measurement(#[trigger] r@[k], v@[k]),
{
    let mut out: Vec<Measurement> = Vec::new();
    let mut i: usize = 0;
    while i < v.len()
        invariant
            i <= v@.len(),
            out@.len() == i,
            forall|k: int| 0 <= k < i ==> same_measurement(#[trigger] out@[k], v@[k]),
        decreases v@.len() - i,
    {
        out.push(v[i].clone());
        i = i + 1;
    }
    out
}

/// Append to `out` the sources of `a` that have no reading in `b`.
fn push_one_sided(out: &mut Vec<String>, a: &Vec<Measurement>, b: &Vec<Measurement>)
    ensures
        final(out).deep_view() == old(out).deep_view() + one_sided_sources(a@, b@),
{
    let mut i: usize = 0;
    proof {
        assert(a@.take(0) =~= Seq::<Measurement>::empty());
        assert(old(out).deep_view() + one_sided_sources(a@.take(0), b@) =~= old(out).deep_view());
    }
    while i < a.len()
        invariant
            out.deep_view() == old(out).deep_view() + one_sided_sources(a@.take(i as int), b@),
            i <= a@.len(),
        decreases a@.len() - i,
    {
        proof {
            assert(a@.take(i + 1).drop_last() =~= a@.take(i as int));
            assert(a@.take(i + 1).last() == a@[i as int]);
        }
        match find_index_by_source(b, &a[i].source) {
            Some(_) => {
                proof {
                    assert(contains_source(b@, a@[i as int].source@));
                }
            },
            None => {
                let ghost pre = out.deep_view();
                out.push(a[i].source.clone());
                proof {
                    assert(out.deep_view() =~= pre.push(a@[i as int].source@));
                    assert(one_sided_sources(a@.take(i + 1), b@) == one_sided_sources(
                        a@.take(i as int),
                        b@,
                    ).push(a@[i as int].source@));
                    assert(out.deep_view() =~= old(out).deep_view() + one_sided_sources(
                        a@.take(i + 1),
                        b@,
                    ));
                }
            },
        }
        i = i + 1;
    }
    proof {
        assert(a@.take(a@.len() as int) =~= a@);
    }
}

/// `mag * 1_000_000_000 / d`, exact whenever the result fits an
/// `i128`, clamped to the range of `i128` otherwise, negated when
/// `negative` is set.
fn scaled_quotient_clamped(mag: u128, d: u64, negative: bool) -> (r: i128)
    requires
        d > 0,
    ensures
        !negative ==> r == clamp_i128((mag * 1_000_000_000) / (d as int)),
        negative ==> r == clamp_i128(-((mag * 1_000_000_000) / (d as int))),
{
    let q: u128 = mag / (d as u128);
    let rem: u128 = mag % (d as u128);
    proof {
        lemma_fundamental_div_mod(mag as int, d as int);
        assert(mag * 1_000_000_000 == (rem * 1_000_000_000) + (q * 1_000_000_000) * (d as int))
            by (nonlinear_arith)
            requires
                mag == (d as int) * q + rem,
        ;
        lemma_hoist_over_denominator(
            rem as int * 1_000_000_000,
            q as int * 1_000_000_000,
            d as nat,
        );
        assert((mag * 1_000_000_000) / (d as int) == q * 1_000_000_000 + (rem * 1_000_000_000) / (
        d as int));
        assert(rem < d as int);
    }
    let threshold: u128 = (i128::MAX as u128) / 1_000_000_000;
    if q > threshold {
        // The scaled quotient exceeds the range of `i128`.
        proof {
            lemma_fundamental_div_mod(i128::MAX as int, 1_000_000_000);
            assert(q * 1_000_000_000 >= (threshold + 1) * 1_000_000_000) by (nonlinear_arith)
                requires
                    q >= threshold + 1,
            ;
            assert((rem * 1_000_000_000) / (d as int) >= 0);
        }
        if negative {
            return i128::MIN;
        } else {
            return i128::MAX;
        }
    }
    proof {
        assert(q * 1_000_000_000 <= threshold * 1_000_000_000) by (nonlinear_arith)
            requires
                q <= threshold,
        ;
        lemma_fundamental_div_mod(i128::MAX as int, 1_000_000_000);
        assert(rem * 1_000_000_000 < (d as int) * 1_000_000_000) by (nonlinear_arith)
            requires
                rem < d as int,
        ;
        assert((rem * 1_000_000_000) / (d as int) < 1_000_000_000) by {
            assert((rem * 1_000_000_000) / (d as int) <= ((d as int) * 1_000_000_000 - 1) / (
            d as int)) by (nonlinear_arith)
                requires
                    rem * 1_000_000_000 <= (d as int) * 1_000_000_000 - 1,
                    d > 0,
            ;
            assert(((d as int) * 1_000_000_000 - 1) / (d as int) < 1_000_000_000)
                by (nonlinear_arith)
                requires
                    d > 0,
            ;
        }
    }
    let scaled_q: u128 = q * 1_000_000_000;
    let scaled_rem: u128 = (rem * 1_000_000_000) / (d as u128);
    let value: u128 = scaled_q + scaled_rem;
    if negative {
        if value >= 0x8000_0000_0000_0000_0000_0000_0000_0000 {
            i128::MIN
        } else {
            -(value as i128)
        }
    } else {
        if value > (i128::MAX as u128) {
            i128::MAX
        } else {
            value as i128
        }
    }
}

} // verus!
