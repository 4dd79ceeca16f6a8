//! Operational metrics: bounded-ring quantile estimators over integer
//! samples, the metric event set, and Prometheus text exposition.

use vstd::prelude::*;
use vstd::relations::{sorted_by, total_ordering};
use vstd::seq_lib::lemma_sorted_unique;

verus! {

/// The order the quantile estimator sorts by: ordinary `<=` on samples.
pub open spec fn sample_leq() -> spec_fn(i64, i64) -> bool {
    |a: i64, b: i64| a <= b
}

/// `<=` on samples is a total order.
pub proof fn lemma_sample_leq_total()
    ensures
        total_ordering(sample_leq()),
{
}

/// The live samples of a slot sequence: every filled slot, in slot order.
pub open spec fn live_values(s: Seq<Option<i64>>) -> Seq<i64>
    decreases s.len(),
{
    if s.len() == 0 {
        Seq::empty()
    } else {
        live_values(s.drop_last()) + (match s.last() {
            Some(v) => seq![v],
            None => Seq::empty(),
        })
    }
}

/// The quantile a slot sequence yields: sort the live samples ascending
/// and take the element at `q * count / 100`; nothing when no slot is
/// filled.
pub open spec fn spec_quantile(s: Seq<Option<i64>>, q: u8) -> Option<i64> {
    let live = live_values(s);
    if live.len() == 0 {
        None
    } else {
        Some(live.sort_by(sample_leq())[q * live.len() as int / 100])
    }
}

/// A fixed-capacity ring of optional samples with an order-statistic
/// query. Slots fill round-robin by insertion index; once full, each new
/// sample evicts the oldest.
#[derive(Debug)]
pub struct QuantileMetric {
    data: Vec<Option<i64>>,
    latest_point: Option<i64>,
    idx: u8,
    capacity: u8,
}

impl QuantileMetric {
    /// The ring's slots, oldest-eviction order implicit in the index.
    pub closed spec fn slots(&self) -> Seq<Option<i64>> {
        self.data@
    }

    /// The slot the next sample lands in.
    pub closed spec fn next_idx(&self) -> u8 {
        self.idx
    }

    /// The fixed capacity.
    pub closed spec fn cap(&self) -> u8 {
        self.capacity
    }

    /// The most recent sample, if any was ever inserted.
    pub closed spec fn latest(&self) -> Option<i64> {
        self.latest_point
    }

    /// Structural invariant: a positive capacity, exactly that many
    /// slots, and a write index inside them.
    pub closed spec fn wf(&self) -> bool {
        &&& self.capacity > 0
        &&& self.data@.len() == self.capacity
        &&& self.idx < self.capacity
    }

    /// An empty ring of `cap` slots.
    pub fn new(cap: u8) -> (r: QuantileMetric)
        requires
            cap > 0,
        ensures
            r.wf(),
            r.cap() == cap,
            r.next_idx() == 0,
            r.latest() is None,
            r.slots() =~= Seq::new(cap as nat, |i: int| None::<i64>),
    {
        let mut data: Vec<Option<i64>> = Vec::new();
        let mut i: u8 = 0;
        while i < cap
            invariant
                i <= cap,
                data@ =~= Seq::new(i as nat, |j: int| None::<i64>),
            decreases cap - i,
        {
            data.push(None);
            i = i + 1;
            assert(data@ =~= Seq::new(i as nat, |j: int| None::<i64>));
        }
        QuantileMetric { data, latest_point: None, idx: 0, capacity: cap }
    }

    /// Stores one sample in the current slot and advances the write
    /// index, wrapping at the capacity.
    pub fn update(&mut self, point: i64)
        requires
            old(self).wf(),
        ensures
            final(self).wf(),
            final(self).cap() == old(self).cap(),
            final(self).slots() == old(self).slots().update(
                old(self).next_idx() as int,
                Some(point),
            ),
            final(self).next_idx() == (old(self).next_idx() + 1) % (old(self).cap() as int),
            final(self).latest() == Some(point),
    {
        let i: usize = self.idx as usize;
        self.data[i] = Some(point);
        self.latest_point = Some(point);
        self.idx = (self.idx + 1) % self.capacity;
    }

    /// The configured quantile of the live samples: collect the filled
    /// slots, sort ascending, index at `q * count / 100`. Nothing until a
    /// sample arrives.
    pub fn quantile(&self, q: u8) -> (r: Option<i64>)
        requires
            self.wf(),
            q <= 99,
        ensures
            r == spec_quantile(self.slots(), q),
    {
        let mut filtered: Vec<i64> = Vec::new();
        let mut i: usize = 0;
        while i < self.data.len()
            invariant
                i <= self.data@.len(),
                filtered@ == live_values(self.data@.take(i as int)),
                filtered@.len() <= i,
            decreases self.data@.len() - i,
        {
            match self.data[i] {
                Some(v) => {
                    filtered.push(v);
                },
                None => {},
            }
            i = i + 1;
            assert(self.data@.take(i as int).drop_last() =~= self.data@.take(i - 1));
        }
        assert(self.data@.take(self.data@.len() as int) =~= self.data@);
        if filtered.len() == 0 {
            return None;
        }
        let n: usize = filtered.len();
        let sorted = sort_samples(filtered);
        proof {
            lemma_sample_leq_total();
            live_values(self.data@).lemma_sort_by_ensures(sample_leq());
            lemma_sorted_unique(
                sorted@,
                live_values(self.data@).sort_by(sample_leq()),
                sample_leq(),
            );
        }
        assert(n <= 255);
        assert((q as usize) * n < 100 * n && (q as usize) * n <= 99 * 255) by (nonlinear_arith)
            requires
                q <= 99,
                0 < n <= 255,
        ;
        let pos: usize = (q as usize) * n / 100;
        assert(pos < n) by {
            assert((q as usize) * n / 100 < n);
        }
        Some(sorted[pos])
    }
}

/// Sorts samples ascending by insertion sort.
fn sort_samples(v: Vec<i64>) -> (r: Vec<i64>)
    ensures
        r@.len() == v@.len(),
        sorted_by(r@, sample_leq()),
        r@.to_multiset() == v@.to_multiset(),
{
    let mut r = v;
    let mut i: usize = 1;
    if r.len() <= 1 {
        return r;
    }
    while i < r.len()
        invariant
            1 <= i,
            r@.len() == v@.len(),
            r@.to_multiset() == v@.to_multiset(),
            forall|a: int, b: int| 0 <= a < b < i && b < r@.len() ==> r@[a] <= r@[b],
        decreases r@.len() - i,
    {
        let mut j: usize = i;
        while j > 0 && r[j - 1] > r[j]
            invariant
                j <= i < r@.len(),
                r@.len() == v@.len(),
                r@.to_multiset() == v@.to_multiset(),
                forall|a: int, b: int|
                    0 <= a < b <= i && b < r@.len() && b != j ==> r@[a] <= r@[b],
                forall|a: int| j < a <= i ==> r@[j as int] <= r@[a],
            decreases j,
        {
            let x = r[j - 1];
            let y = r[j];
            let ghost before = r@;
            r[j - 1] = y;
            r[j] = x;
            proof {
                assert(r@ =~= before.update(j - 1, before[j as int]).update(
                    j as int,
                    before[j - 1],
                ));
                lemma_swap_multiset(before, j - 1, j as int);
            }
            j = j - 1;
        }
        i = i + 1;
    }
    r
}

/// Swapping two positions of a sequence keeps its multiset.
proof fn lemma_swap_multiset(s: Seq<i64>, a: int, b: int)
    requires
        0 <= a < s.len(),
        0 <= b < s.len(),
        a != b,
    ensures
        s.update(a, s[b]).update(b, s[a]).to_multiset() == s.to_multiset(),
{
    broadcast use vstd::seq_lib::group_to_multiset_ensures;

    let t = s.update(a, s[b]).update(b, s[a]);
    assert(t.to_multiset() =~= s.to_multiset()) by {
        lemma_update_multiset(s, a, s[b]);
        lemma_update_multiset(s.update(a, s[b]), b, s[a]);
        assert(s.update(a, s[b])[b] == s[b]);
        assert(s.to_multiset().remove(s[a]).insert(s[b]).remove(s[b]).insert(s[a]) =~= s
            .to_multiset());
    }
}

/// Updating one position replaces exactly that element in the multiset.
proof fn lemma_update_multiset(s: Seq<i64>, i: int, x: i64)
    requires
        0 <= i < s.len(),
    ensures
        s.update(i, x).to_multiset() == s.to_multiset().remove(s[i]).insert(x),
{
    broadcast use vstd::seq_lib::group_to_multiset_ensures;

    assert(s.update(i, x) =~= s.remove(i).insert(i, x));
    lemma_insert_multiset(s.remove(i), i, x);
    assert(s.remove(i).to_multiset() =~= s.to_multiset().remove(s[i]));
}

/// Inserting an element adds exactly it to the multiset.
proof fn lemma_insert_multiset(s: Seq<i64>, i: int, x: i64)
    requires
        0 <= i <= s.len(),
    ensures
        s.insert(i, x).to_multiset() == s.to_multiset().insert(x),
    decreases s.len(),
{
    broadcast use vstd::seq_lib::group_to_multiset_ensures;

    if i == s.len() {
        assert(s.insert(i, x) =~= s.push(x));
    } else {
        let t = s.insert(i, x);
        assert(t.drop_last() =~= s.drop_last().insert(i, x));
        assert(t.last() == s.last());
        lemma_insert_multiset(s.drop_last(), i, x);
        lemma_push_multiset(s.drop_last().insert(i, x), s.last());
        lemma_push_multiset(s.drop_last(), s.last());
        assert(s.drop_last().push(s.last()) =~= s);
        assert(t.drop_last().push(t.last()) =~= t);
    }
}

/// `push` adds exactly the pushed element to the multiset.
proof fn lemma_push_multiset(s: Seq<i64>, x: i64)
    ensures
        s.push(x).to_multiset() == s.to_multiset().insert(x),
{
    broadcast use vstd::seq_lib::group_to_multiset_ensures;

    assert(s.push(x).to_multiset() =~= s.to_multiset().insert(x));
}

/// Decimal digit characters.
pub open spec fn spec_digit(d: int) -> char {
    if d == 0 {
        '0'
    } else if d == 1 {
        '1'
    } else if d == 2 {
        '2'
    } else if d == 3 {
        '3'
    } else if d == 4 {
        '4'
    } else if d == 5 {
        '5'
    } else if d == 6 {
        '6'
    } else if d == 7 {
        '7'
    } else if d == 8 {
        '8'
    } else {
        '9'
    }
}

/// Decimal expansion of a non-negative number, most significant digit
/// first.
pub open spec fn spec_dec_nat(n: int) -> Seq<char>
    decreases n,
{
    if n < 10 {
        seq![spec_digit(n)]
    } else {
        spec_dec_nat(n / 10).push(spec_digit(n % 10))
    }
}

/// Decimal expansion of a signed number: a minus sign before the digits
/// of its magnitude.
pub open spec fn spec_dec_int(n: int) -> Seq<char> {
    if n < 0 {
        seq!['-'] + spec_dec_nat(-n)
    } else {
        spec_dec_nat(n)
    }
}

/// One decimal digit as a string slice.
fn digit_str(d: u64) -> (r: &'static str)
    requires
        d < 10,
    ensures
        r@ == seq![spec_digit(d as int)],
{
    proof {
        reveal_strlit("0");
        reveal_strlit("1");
        reveal_strlit("2");
        reveal_strlit("3");
        reveal_strlit("4");
        reveal_strlit("5");
        reveal_strlit("6");
        reveal_strlit("7");
        reveal_strlit("8");
        reveal_strlit("9");
    }
    let r = match d {
        0 => "0",
        1 => "1",
        2 => "2",
        3 => "3",
        4 => "4",
        5 => "5",
        6 => "6",
        7 => "7",
        8 => "8",
        _ => "9",
    };
    assert(r@ =~= seq![spec_digit(d as int)]);
    r
}

/// Formats a non-negative number in decimal.
pub fn u64_to_string(n: u64) -> (r: String)
    ensures
        r@ == spec_dec_nat(n as int),
    decreases n,
{
    if n < 10 {
        String::from_str(digit_str(n))
    } else {
        let mut s = u64_to_string(n / 10);
        s.append(digit_str(n % 10));
        s
    }
}

/// Formats a signed number in decimal.
pub fn i64_to_string(n: i64) -> (r: String)
    ensures
        r@ == spec_dec_int(n as int),
{
    if n >= 0 {
        let r = u64_to_string(n as u64);
        r
    } else {
        proof {
            reveal_strlit("-");
        }
        let mut s = String::from_str("-");
        let magnitude: u64 = (-((n as i128))) as u64;
        s.append(u64_to_string(magnitude).as_str());
        assert(s@ =~= spec_dec_int(n as int));
        s
    }
}

/// One observation for the collector.
#[derive(Debug, Copy, Clone, PartialEq, Eq, Structural)]
pub enum Metric {
    /// Healthy satellite channel count.
    SatelliteCount(u8),
    /// Whether the receiver reports a usable fix.
    HasFix(bool),
    /// Reported time accuracy, in nanoseconds.
    Accuracy(u64),
    /// Receiver uptime, in milliseconds.
    SensorUptime(u64),
    /// Clock step applied at a sync, in milliseconds.
    ClockAdjust(i64),
    ReceivedNtpQuery,
    AnsweredNtpQuery,
}

/// The collector: three quantile rings, gauges and counters, and the
/// quantile set the text output reports.
#[derive(Debug)]
pub struct Metrics {
    pub sat_count: QuantileMetric,
    pub has_fix: bool,
    pub accuracy: QuantileMetric,
    pub uptime_ms: u64,
    pub rcvd_ntp_queries: u32,
    pub answered_ntp_queries: u32,
    pub clock_adjust: QuantileMetric,
    pub quantiles: Vec<u8>,
}

/// One ring stepped by one sample: the sample lands in the write slot,
/// the index advances by one modulo the capacity.
pub open spec fn ring_stepped(new: QuantileMetric, prev: QuantileMetric, v: i64) -> bool {
    &&& new.wf()
    &&& new.cap() == prev.cap()
    &&& new.slots() == prev.slots().update(prev.next_idx() as int, Some(v))
    &&& new.next_idx() == (prev.next_idx() + 1) % (prev.cap() as int)
    &&& new.latest() == Some(v)
}

impl Metrics {
    /// Structural invariant: well-formed rings, reportable quantiles, and
    /// non-negative accuracy samples (they arrive as nanosecond counts).
    pub open spec fn wf(&self) -> bool {
        &&& self.sat_count.wf()
        &&& self.accuracy.wf()
        &&& self.clock_adjust.wf()
        &&& forall|i: int| 0 <= i < self.quantiles@.len() ==> self.quantiles@[i] <= 99
        &&& forall|i: int|
            0 <= i < self.accuracy.slots().len() && self.accuracy.slots()[i] is Some
                ==> self.accuracy.slots()[i]->0 >= 0
    }

    /// A collector with empty 30-slot rings, cleared gauges and counters,
    /// and the given quantile set.
    pub fn new(quantiles: &[u8]) -> (r: Metrics)
        requires
            forall|i: int| 0 <= i < quantiles@.len() ==> quantiles@[i] <= 99,
        ensures
            r.wf(),
            r.quantiles@ == quantiles@,
            r.has_fix == false,
            r.uptime_ms == 0,
            r.rcvd_ntp_queries == 0,
            r.answered_ntp_queries == 0,
            r.sat_count.latest() is None,
            r.accuracy.latest() is None,
            r.clock_adjust.latest() is None,
            live_values(r.sat_count.slots()).len() == 0,
            live_values(r.accuracy.slots()).len() == 0,
            live_values(r.clock_adjust.slots()).len() == 0,
            r.sat_count.cap() == 30 && r.accuracy.cap() == 30 && r.clock_adjust.cap() == 30,
            r.sat_count.next_idx() == 0 && r.accuracy.next_idx() == 0 && r.clock_adjust.next_idx()
                == 0,
    {
        let r = Metrics {
            quantiles: slice_to_vec_u8(quantiles),
            sat_count: QuantileMetric::new(30),
            accuracy: QuantileMetric::new(30),
            clock_adjust: QuantileMetric::new(30),
            has_fix: false,
            rcvd_ntp_queries: 0,
            answered_ntp_queries: 0,
            uptime_ms: 0,
        };
        proof {
            lemma_live_values_all_none(r.sat_count.slots());
            lemma_live_values_all_none(r.accuracy.slots());
            lemma_live_values_all_none(r.clock_adjust.slots());
        }
        r
    }

    /// A collector reporting the 10th, 50th, 90th and 99th percentiles.
    pub fn with_default_quantiles() -> (r: Metrics)
        ensures
            r.wf(),
            r.quantiles@ =~= seq![10u8, 50u8, 90u8, 99u8],
    {
        let qs: [u8; 4] = [10, 50, 90, 99];
        let r = Metrics::new(qs.as_slice());
        r
    }

    /// Applies one observation: samples feed their ring, gauges are
    /// replaced, counters increment. Every other field keeps its value.
    pub fn update(&mut self, m: Metric)
        requires
            old(self).wf(),
            m is ReceivedNtpQuery ==> old(self).rcvd_ntp_queries < u32::MAX,
            m is AnsweredNtpQuery ==> old(self).answered_ntp_queries < u32::MAX,
            m is Accuracy ==> m->Accuracy_0 <= i64::MAX as u64,
        ensures
            final(self).wf(),
            final(self).quantiles == old(self).quantiles,
            (match m {
                Metric::SatelliteCount(n) => {
                    &&& ring_stepped(final(self).sat_count, old(self).sat_count, n as i64)
                    &&& final(self).accuracy == old(self).accuracy
                    &&& final(self).clock_adjust == old(self).clock_adjust
                    &&& final(self).has_fix == old(self).has_fix
                    &&& final(self).uptime_ms == old(self).uptime_ms
                    &&& final(self).rcvd_ntp_queries == old(self).rcvd_ntp_queries
                    &&& final(self).answered_ntp_queries == old(self).answered_ntp_queries
                },
                Metric::Accuracy(ns) => {
                    &&& ring_stepped(final(self).accuracy, old(self).accuracy, ns as i64)
                    &&& final(self).sat_count == old(self).sat_count
                    &&& final(self).clock_adjust == old(self).clock_adjust
                    &&& final(self).has_fix == old(self).has_fix
                    &&& final(self).uptime_ms == old(self).uptime_ms
                    &&& final(self).rcvd_ntp_queries == old(self).rcvd_ntp_queries
                    &&& final(self).answered_ntp_queries == old(self).answered_ntp_queries
                },
                Metric::ClockAdjust(ms) => {
                    &&& ring_stepped(final(self).clock_adjust, old(self).clock_adjust, ms)
                    &&& final(self).sat_count == old(self).sat_count
                    &&& final(self).accuracy == old(self).accuracy
                    &&& final(self).has_fix == old(self).has_fix
                    &&& final(self).uptime_ms == old(self).uptime_ms
                    &&& final(self).rcvd_ntp_queries == old(self).rcvd_ntp_queries
                    &&& final(self).answered_ntp_queries == old(self).answered_ntp_queries
                },
                Metric::HasFix(b) => {
                    &&& final(self).has_fix == b
                    &&& final(self).sat_count == old(self).sat_count
                    &&& final(self).accuracy == old(self).accuracy
                    &&& final(self).clock_adjust == old(self).clock_adjust
                    &&& final(self).uptime_ms == old(self).uptime_ms
                    &&& final(self).rcvd_ntp_queries == old(self).rcvd_ntp_queries
                    &&& final(self).answered_ntp_queries == old(self).answered_ntp_queries
                },
                Metric::SensorUptime(ms) => {
                    &&& final(self).uptime_ms == ms
                    &&& final(self).sat_count == old(self).sat_count
                    &&& final(self).accuracy == old(self).accuracy
                    &&& final(self).clock_adjust == old(self).clock_adjust
                    &&& final(self).has_fix == old(self).has_fix
                    &&& final(self).rcvd_ntp_queries == old(self).rcvd_ntp_queries
                    &&& final(self).answered_ntp_queries == old(self).answered_ntp_queries
                },
                Metric::ReceivedNtpQuery => {
                    &&& final(self).rcvd_ntp_queries == old(self).rcvd_ntp_queries + 1
                    &&& final(self).sat_count == old(self).sat_count
                    &&& final(self).accuracy == old(self).accuracy
                    &&& final(self).clock_adjust == old(self).clock_adjust
                    &&& final(self).has_fix == old(self).has_fix
                    &&& final(self).uptime_ms == old(self).uptime_ms
                    &&& final(self).answered_ntp_queries == old(self).answered_ntp_queries
                },
                Metric::AnsweredNtpQuery => {
                    &&& final(self).answered_ntp_queries == old(self).answered_ntp_queries + 1
                    &&& final(self).sat_count == old(self).sat_count
                    &&& final(self).accuracy == old(self).accuracy
                    &&& final(self).clock_adjust == old(self).clock_adjust
                    &&& final(self).has_fix == old(self).has_fix
                    &&& final(self).uptime_ms == old(self).uptime_ms
                    &&& final(self).rcvd_ntp_queries == old(self).rcvd_ntp_queries
                },
            }),
    {
        match m {
            Metric::SatelliteCount(n) => self.sat_count.update(n as i64),
            Metric::Accuracy(ns) => self.accuracy.update(ns as i64),
            Metric::ClockAdjust(ms) => self.clock_adjust.update(ms),
            Metric::HasFix(b) => self.has_fix = b,
            Metric::SensorUptime(ms) => self.uptime_ms = ms,
            Metric::ReceivedNtpQuery => self.rcvd_ntp_queries = self.rcvd_ntp_queries + 1,
            Metric::AnsweredNtpQuery => self.answered_ntp_queries = self.answered_ntp_queries
                + 1,
        }
    }
}

impl Default for Metrics {
    /// The collector the daemon starts with: empty rings and the default
    /// quantile set.
    fn default() -> (r: Metrics)
        ensures
            r.wf(),
            r.quantiles@ =~= seq![10u8, 50u8, 90u8, 99u8],
    {
        Metrics::with_default_quantiles()
    }
}

/// An all-empty slot sequence has no live samples.
proof fn lemma_live_values_all_none(s: Seq<Option<i64>>)
    requires
        forall|i: int| 0 <= i < s.len() ==> s[i] is None,
    ensures
        live_values(s).len() == 0,
    decreases s.len(),
{
    if s.len() > 0 {
        lemma_live_values_all_none(s.drop_last());
    }
}

/// Copies a byte slice into a fresh vector.
fn slice_to_vec_u8(s: &[u8]) -> (r: Vec<u8>)
    ensures
        r@ == s@,
{
    let mut r: Vec<u8> = Vec::new();
    let mut i: usize = 0;
    while i < s.len()
        invariant
            i <= s@.len(),
            r@ == s@.take(i as int),
        decreases s@.len() - i,
    {
        r.push(s[i]);
        i = i + 1;
        assert(r@ =~= s@.take(i as int));
    }
    assert(s@.take(s@.len() as int) =~= s@);
    r
}

/// The satellite-count line for one quantile.
pub open spec fn sat_line(q: u8, v: i64) -> Seq<char> {
    "satellite_count{quantile=\"0."@ + spec_dec_nat(q as int) + "\"} "@ + spec_dec_int(v as int)
}

/// The accuracy line for one quantile; the sample is in nanoseconds and
/// reported in whole microseconds.
pub open spec fn acc_line(q: u8, v: i64) -> Seq<char> {
    "gps_clock_accuracy_us{quantile=\"0."@ + spec_dec_nat(q as int) + "\"} "@ + spec_dec_nat(
        v as int / 1000,
    )
}

/// The clock-adjust line for one quantile, in milliseconds.
pub open spec fn adj_line(q: u8, v: i64) -> Seq<char> {
    "rtc_clock_adjust_ms{quantile=\"0."@ + spec_dec_nat(q as int) + "\"} "@ + spec_dec_int(
        v as int,
    )
}

/// Which of the three quantile-tracked series a line reports.
#[derive(Debug, Copy, Clone, PartialEq, Eq, Structural)]
pub enum Series {
    Satellites,
    Accuracy,
    ClockAdjust,
}

/// The line one series emits for one quantile and sample.
pub open spec fn series_line(series: Series, q: u8, v: i64) -> Seq<char> {
    match series {
        Series::Satellites => sat_line(q, v),
        Series::Accuracy => acc_line(q, v),
        Series::ClockAdjust => adj_line(q, v),
    }
}

/// The lines one series emits over a quantile list: one line per
/// quantile that yields a value, in list order.
pub open spec fn series_lines(series: Series, slots: Seq<Option<i64>>, qs: Seq<u8>) -> Seq<
    Seq<char>,
>
    decreases qs.len(),
{
    if qs.len() == 0 {
        Seq::empty()
    } else {
        series_lines(series, slots, qs.drop_last()) + (match spec_quantile(slots, qs.last()) {
            Some(v) => seq![series_line(series, qs.last(), v)],
            None => Seq::empty(),
        })
    }
}

/// The `has_fix` gauge line: 1 or 0.
pub open spec fn has_fix_line(b: bool) -> Seq<char> {
    "has_fix "@ + (if b {
        "1"@
    } else {
        "0"@
    })
}

/// The received-queries counter line.
pub open spec fn rcvd_line(n: u32) -> Seq<char> {
    "received_ntp_queries "@ + spec_dec_nat(n as int)
}

/// The answered-queries counter line.
pub open spec fn answered_line(n: u32) -> Seq<char> {
    "answered_ntp_queries "@ + spec_dec_nat(n as int)
}

/// Everything `serialize` emits, in order: the three quantile series,
/// then the fix gauge and the two counters.
pub open spec fn spec_serialize_lines(m: Metrics) -> Seq<Seq<char>> {
    series_lines(Series::Satellites, m.sat_count.slots(), m.quantiles@) + series_lines(
        Series::Accuracy,
        m.accuracy.slots(),
        m.quantiles@,
    ) + series_lines(Series::ClockAdjust, m.clock_adjust.slots(), m.quantiles@) + seq![
        has_fix_line(m.has_fix),
        rcvd_line(m.rcvd_ntp_queries),
        answered_line(m.answered_ntp_queries),
    ]
}

impl Metrics {
    /// Emits the Prometheus text lines: for each configured quantile and
    /// each quantile-tracked series a `name{quantile="0.q"} value` line
    /// (omitted while the series is empty), then the fix gauge and the
    /// two query counters.
    pub fn serialize(&self) -> (r: Vec<String>)
        requires
            self.wf(),
        ensures
            r@.len() == spec_serialize_lines(*self).len(),
            forall|i: int| 0 <= i < r@.len() ==> r@[i]@ == #[trigger] spec_serialize_lines(
                *self,
            )[i],
    {
        let mut ret: Vec<String> = Vec::new();
        let ghost a = series_lines(Series::Satellites, self.sat_count.slots(), self.quantiles@);
        let ghost b = series_lines(Series::Accuracy, self.accuracy.slots(), self.quantiles@);
        let ghost c = series_lines(Series::ClockAdjust, self.clock_adjust.slots(), self.quantiles@);
        self.push_series_lines(&mut ret, Series::Satellites);
        let ghost snap1 = ret@;
        self.push_series_lines(&mut ret, Series::Accuracy);
        let ghost snap2 = ret@;
        self.push_series_lines(&mut ret, Series::ClockAdjust);
        let ghost snap3 = ret@;
        proof {
            reveal_strlit("has_fix ");
            reveal_strlit("1");
            reveal_strlit("0");
            reveal_strlit("received_ntp_queries ");
            reveal_strlit("answered_ntp_queries ");
        }
        let mut line = String::from_str("has_fix ");
        line.append(if self.has_fix {
            "1"
        } else {
            "0"
        });
        assert(line@ =~= has_fix_line(self.has_fix));
        ret.push(line);
        let mut line = String::from_str("received_ntp_queries ");
        line.append(u64_to_string(self.rcvd_ntp_queries as u64).as_str());
        assert(line@ =~= rcvd_line(self.rcvd_ntp_queries));
        ret.push(line);
        let mut line = String::from_str("answered_ntp_queries ");
        line.append(u64_to_string(self.answered_ntp_queries as u64).as_str());
        assert(line@ =~= answered_line(self.answered_ntp_queries));
        ret.push(line);
        proof {
            let all = spec_serialize_lines(*self);
            let tail = seq![
                has_fix_line(self.has_fix),
                rcvd_line(self.rcvd_ntp_queries),
                answered_line(self.answered_ntp_queries),
            ];
            assert(all == a + b + c + tail);
            assert(a == series_lines(
                Series::Satellites,
                spec_series_slots(*self, Series::Satellites),
                self.quantiles@,
            ));
            assert(b == series_lines(
                Series::Accuracy,
                spec_series_slots(*self, Series::Accuracy),
                self.quantiles@,
            ));
            assert(c == series_lines(
                Series::ClockAdjust,
                spec_series_slots(*self, Series::ClockAdjust),
                self.quantiles@,
            ));
            assert(snap1.len() == a.len());
            assert(snap2.len() == a.len() + b.len());
            assert(snap3.len() == a.len() + b.len() + c.len());
            assert(ret@.len() == all.len());
            assert forall|i: int| 0 <= i < ret@.len() implies ret@[i]@ == #[trigger] all[i] by {
                if i < a.len() {
                    assert(snap1[i]@ == series_lines(
                        Series::Satellites,
                        spec_series_slots(*self, Series::Satellites),
                        self.quantiles@,
                    )[i - 0]);
                    assert(snap2[i] == snap1[i]);
                    assert(snap3[i] == snap2[i]);
                    assert(ret@[i] == snap3[i]);
                    assert(all[i] == a[i]);
                } else if i < a.len() + b.len() {
                    assert(snap2[i]@ == series_lines(
                        Series::Accuracy,
                        spec_series_slots(*self, Series::Accuracy),
                        self.quantiles@,
                    )[i - snap1.len()]);
                    assert(snap3[i] == snap2[i]);
                    assert(ret@[i] == snap3[i]);
                    assert(all[i] == b[i - a.len()]);
                } else if i < a.len() + b.len() + c.len() {
                    assert(snap3[i]@ == series_lines(
                        Series::ClockAdjust,
                        spec_series_slots(*self, Series::ClockAdjust),
                        self.quantiles@,
                    )[i - snap2.len()]);
                    assert(ret@[i] == snap3[i]);
                    assert(all[i] == c[i - a.len() - b.len()]);
                } else {
                    assert(all[i] == tail[i - a.len() - b.len() - c.len()]);
                }
            }
        }
        ret
    }

    /// Appends the lines of one series over the configured quantiles.
    fn push_series_lines(&self, out: &mut Vec<String>, series: Series)
        requires
            self.wf(),
        ensures
            final(out)@.len() == old(out)@.len() + series_lines(
                series,
                spec_series_slots(*self, series),
                self.quantiles@,
            ).len(),
            forall|i: int|
                0 <= i < old(out)@.len() ==> final(out)@[i] == #[trigger] old(out)@[i],
            forall|i: int|
                old(out)@.len() <= i < final(out)@.len() ==> final(out)@[i]@
                    == #[trigger] series_lines(
                    series,
                    spec_series_slots(*self, series),
                    self.quantiles@,
                )[i - old(out)@.len()],
    {
        let ring = match series {
            Series::Satellites => &self.sat_count,
            Series::Accuracy => &self.accuracy,
            Series::ClockAdjust => &self.clock_adjust,
        };
        let ghost slots = spec_series_slots(*self, series);
        let ghost qs = self.quantiles@;
        let ghost base = out@.len() as int;
        let mut qi: usize = 0;
        assert(series_lines(series, slots, qs.take(0)) =~= Seq::<Seq<char>>::empty());
        while qi < self.quantiles.len()
            invariant
                self.wf(),
                qi <= qs.len(),
                qs == self.quantiles@,
                slots == spec_series_slots(*self, series),
                ring.wf(),
                ring.slots() == slots,
                (match series {
                    Series::Accuracy => forall|i: int|
                        0 <= i < slots.len() && slots[i] is Some ==> slots[i]->0 >= 0,
                    _ => true,
                }),
                base == old(out)@.len(),
                out@.len() == base + series_lines(series, slots, qs.take(qi as int)).len(),
                forall|i: int| 0 <= i < base ==> out@[i] == #[trigger] old(out)@[i],
                forall|i: int|
                    base <= i < out@.len() ==> out@[i]@ == #[trigger] series_lines(
                        series,
                        slots,
                        qs.take(qi as int),
                    )[i - base],
            decreases qs.len() - qi,
        {
            let q = self.quantiles[qi];
            let ghost prev_lines = series_lines(series, slots, qs.take(qi as int));
            match ring.quantile(q) {
                Some(v) => {
                    proof {
                        if series is Accuracy {
                            lemma_quantile_in_slots(slots, q);
                        }
                    }
                    let line = build_series_line(series, q, v);
                    out.push(line);
                },
                None => {},
            }
            qi = qi + 1;
            proof {
                assert(qs.take(qi as int).drop_last() =~= qs.take(qi - 1));
                assert(qs.take(qi as int).last() == qs[qi - 1]);
                let cur_lines = series_lines(series, slots, qs.take(qi as int));
                assert(cur_lines == prev_lines + (match spec_quantile(slots, qs[qi - 1]) {
                    Some(v) => seq![series_line(series, qs[qi - 1], v)],
                    None => Seq::<Seq<char>>::empty(),
                }));
            }
        }
        assert(qs.take(qs.len() as int) =~= qs);
    }
}

/// The ring a series reads.
pub open spec fn spec_series_slots(m: Metrics, series: Series) -> Seq<Option<i64>> {
    match series {
        Series::Satellites => m.sat_count.slots(),
        Series::Accuracy => m.accuracy.slots(),
        Series::ClockAdjust => m.clock_adjust.slots(),
    }
}

/// Builds the text line of one series for one quantile and sample.
fn build_series_line(series: Series, q: u8, v: i64) -> (r: String)
    requires
        series is Accuracy ==> v >= 0,
    ensures
        r@ == series_line(series, q, v),
{
    proof {
        reveal_strlit("satellite_count{quantile=\"0.");
        reveal_strlit("gps_clock_accuracy_us{quantile=\"0.");
        reveal_strlit("rtc_clock_adjust_ms{quantile=\"0.");
        reveal_strlit("\"} ");
    }
    let mut s = String::from_str(
        match series {
            Series::Satellites => "satellite_count{quantile=\"0.",
            Series::Accuracy => "gps_clock_accuracy_us{quantile=\"0.",
            Series::ClockAdjust => "rtc_clock_adjust_ms{quantile=\"0.",
        },
    );
    s.append(u64_to_string(q as u64).as_str());
    s.append("\"} ");
    match series {
        Series::Accuracy => {
            s.append(u64_to_string((v / 1000) as u64).as_str());
        },
        _ => {
            s.append(i64_to_string(v).as_str());
        },
    }
    assert(s@ =~= series_line(series, q, v));
    s
}

/// A quantile that yields a value yields one that sits in some slot.
pub proof fn lemma_quantile_in_slots(s: Seq<Option<i64>>, q: u8)
    requires
        q <= 99,
        spec_quantile(s, q) is Some,
    ensures
        exists|i: int|
            0 <= i < s.len() && s[i] == Some(spec_quantile(s, q)->0),
{
    broadcast use vstd::seq_lib::group_to_multiset_ensures;

    let live = live_values(s);
    lemma_sample_leq_total();
    live.lemma_sort_by_ensures(sample_leq());
    let sorted = live.sort_by(sample_leq());
    let v = spec_quantile(s, q)->0;
    assert(sorted.to_multiset().len() == live.to_multiset().len());
    let pos = q * live.len() as int / 100;
    assert((q as int) * (live.len() as int) < 100 * (live.len() as int)) by (nonlinear_arith)
        requires
            q <= 99,
            live.len() > 0,
    ;
    assert(0 <= pos < sorted.len());
    assert(sorted[pos] == v);
    assert(sorted.contains(v));
    assert(sorted.to_multiset().count(v) > 0);
    assert(live.contains(v));
    lemma_live_values_membership(s, v);
}

/// Every live sample sits in some slot.
proof fn lemma_live_values_membership(s: Seq<Option<i64>>, v: i64)
    requires
        live_values(s).contains(v),
    ensures
        exists|i: int| 0 <= i < s.len() && s[i] == Some(v),
    decreases s.len(),
{
    if s.len() > 0 {
        if s.last() == Some(v) {
            assert(s[s.len() - 1] == Some(v));
        } else {
            assert(live_values(s.drop_last()).contains(v)) by {
                let live = live_values(s);
                let prev = live_values(s.drop_last());
                let k = choose|k: int| 0 <= k < live.len() && live[k] == v;
                if k < prev.len() {
                    assert(prev[k] == v);
                } else {
                    assert(s.last() == Some(live[k]));
                }
            }
            lemma_live_values_membership(s.drop_last(), v);
            let i = choose|i: int| 0 <= i < s.drop_last().len() && s.drop_last()[i] == Some(v);
            assert(s[i] == Some(v));
        }
    }
}

/// Law (quantile monotonicity): over one data set, a higher quantile
/// never yields a smaller value, and the two queries answer together.
pub proof fn lemma_quantile_monotonic(slots: Seq<Option<i64>>, q1: u8, q2: u8)
    requires
        q1 <= q2,
        q2 <= 99,
    ensures
        (spec_quantile(slots, q1) is Some) == (spec_quantile(slots, q2) is Some),
        spec_quantile(slots, q1) is Some ==> spec_quantile(slots, q1)->0 <= spec_quantile(
            slots,
            q2,
        )->0,
{
    broadcast use vstd::seq_lib::group_to_multiset_ensures;

    let live = live_values(slots);
    if live.len() > 0 {
        lemma_sample_leq_total();
        live.lemma_sort_by_ensures(sample_leq());
        let sorted = live.sort_by(sample_leq());
        assert(sorted.to_multiset().len() == live.to_multiset().len());
        assert(sorted.len() == live.len());
        let n = live.len() as int;
        let i1 = q1 * n / 100;
        let i2 = q2 * n / 100;
        assert((q1 as int) * n <= (q2 as int) * n && (q2 as int) * n < 100 * n)
            by (nonlinear_arith)
            requires
                q1 <= q2,
                q2 <= 99,
                n > 0,
        ;
        vstd::arithmetic::div_mod::lemma_div_is_ordered(q1 * n, q2 * n, 100);
        assert(0 <= i1 <= i2 < n);
        if i1 < i2 {
            assert(sample_leq()(sorted[i1], sorted[i2]));
        }
    }
}

/// The ring's slot contents after a run of insertions into a fresh ring
/// of the given capacity: each sample lands at its insertion index
/// modulo the capacity.
pub open spec fn ring_after(xs: Seq<i64>, cap: int) -> Seq<Option<i64>>
    decreases xs.len(),
{
    if xs.len() == 0 {
        Seq::new(cap as nat, |i: int| None::<i64>)
    } else {
        ring_after(xs.drop_last(), cap).update((xs.len() - 1) % cap, Some(xs.last()))
    }
}

/// A run of insertions keeps the slot count at the capacity.
pub proof fn lemma_ring_after_len(xs: Seq<i64>, cap: int)
    requires
        cap > 0,
    ensures
        ring_after(xs, cap).len() == cap,
    decreases xs.len(),
{
    if xs.len() > 0 {
        lemma_ring_after_len(xs.drop_last(), cap);
        vstd::arithmetic::div_mod::lemma_fundamental_div_mod(xs.len() - 1, cap);
    }
}

/// Law (ring retention, per slot): after the whole run, slot `j` holds
/// the most recent sample whose insertion index was congruent to `j`
/// modulo the capacity — one of the last `capacity` samples — and slots
/// no insertion reached are empty.
pub proof fn lemma_ring_slot_holds_last(xs: Seq<i64>, cap: int, j: int)
    requires
        cap > 0,
        0 <= j < cap,
    ensures
        ring_after(xs, cap)[j] == (if j < xs.len() {
            Some(xs[xs.len() - 1 - ((xs.len() - 1 - j) % cap)])
        } else {
            None::<i64>
        }),
        j < xs.len() ==> xs.len() - cap <= xs.len() - 1 - ((xs.len() - 1 - j) % cap) < xs.len(),
    decreases xs.len(),
{
    vstd::arithmetic::div_mod::lemma_fundamental_div_mod(xs.len() - 1 - j, cap);
    lemma_ring_after_len(xs, cap);
    if xs.len() == 0 {
    } else {
        let n = xs.len() as int;
        let prev = xs.drop_last();
        lemma_ring_after_len(prev, cap);
        lemma_ring_slot_holds_last(prev, cap, j);
        let w = (n - 1) % cap;
        vstd::arithmetic::div_mod::lemma_fundamental_div_mod(n - 1, cap);
        if j == w {
            vstd::arithmetic::div_mod::lemma_fundamental_div_mod_converse(
                n - 1 - j,
                cap,
                (n - 1) / cap,
                0,
            );
            assert((n - 1 - j) % cap == 0);
            assert(ring_after(xs, cap)[j] == Some(xs[n - 1]));
        } else {
            assert(ring_after(xs, cap)[j] == ring_after(prev, cap)[j]);
            if j <= n - 1 {
                let d = n - 1 - j;
                if d % cap == 0 {
                    vstd::arithmetic::div_mod::lemma_fundamental_div_mod(d, cap);
                    assert(d == cap * (d / cap));
                    vstd::arithmetic::mul::lemma_mul_is_commutative(cap, d / cap);
                    assert(n - 1 == (d / cap) * cap + j);
                    vstd::arithmetic::div_mod::lemma_fundamental_div_mod_converse(
                        n - 1,
                        cap,
                        d / cap,
                        j,
                    );
                    assert(false);
                }
                assert(d >= 1);
                vstd::arithmetic::div_mod::lemma_fundamental_div_mod(d, cap);
                assert(d == cap * (d / cap) + d % cap);
                vstd::arithmetic::mul::lemma_mul_is_commutative(cap, d / cap);
                assert(0 <= d % cap - 1 < cap);
                assert(d - 1 == (d / cap) * cap + (d % cap - 1));
                vstd::arithmetic::div_mod::lemma_fundamental_div_mod_converse(
                    d - 1,
                    cap,
                    d / cap,
                    d % cap - 1,
                );
                assert((d - 1) % cap == d % cap - 1);
                assert(j < n - 1);
                assert(prev[n - 2 - ((n - 2 - j) % cap)] == xs[n - 1 - ((n - 1 - j) % cap)]);
            }
        }
    }
}

/// How many samples a run leaves in the ring: the run length, capped at
/// the capacity.
pub open spec fn spec_retained(n: int, cap: int) -> int {
    if n < cap {
        n
    } else {
        cap
    }
}

/// One more insertion steps the ring exactly as
/// [`QuantileMetric::update`] does: the sample lands at the insertion
/// count modulo the capacity.
pub proof fn lemma_ring_after_step(xs: Seq<i64>, cap: int, v: i64)
    requires
        cap > 0,
    ensures
        ring_after(xs.push(v), cap) == ring_after(xs, cap).update(
            xs.len() as int % cap,
            Some(v),
        ),
{
    assert(xs.push(v).drop_last() =~= xs);
    assert(xs.push(v).last() == v);
}

/// Law (ring occupancy): after `N` insertions into a fresh ring of
/// capacity `C`, exactly `min(N, C)` slots hold samples.
pub proof fn lemma_ring_count(xs: Seq<i64>, cap: int)
    requires
        cap > 0,
    ensures
        live_values(ring_after(xs, cap)).len() == spec_retained(xs.len() as int, cap),
    decreases xs.len(),
{
    if xs.len() == 0 {
        lemma_live_values_all_none(ring_after(xs, cap));
    } else {
        let n = xs.len() as int;
        let prev = xs.drop_last();
        lemma_ring_after_len(prev, cap);
        lemma_ring_count(prev, cap);
        let w = (n - 1) % cap;
        vstd::arithmetic::div_mod::lemma_fundamental_div_mod(n - 1, cap);
        assert(0 <= w < cap);
        lemma_ring_slot_holds_last(prev, cap, w);
        lemma_live_values_update(ring_after(prev, cap), w, xs.last());
        if n - 1 < cap {
            vstd::arithmetic::div_mod::lemma_small_mod((n - 1) as nat, cap as nat);
            assert(w == n - 1);
            assert(ring_after(prev, cap)[w] is None);
        } else {
            assert(w <= cap - 1 < n - 1);
            assert(ring_after(prev, cap)[w] is Some);
        }
    }
}

/// Overwriting one slot changes the live count only when the slot was
/// empty.
proof fn lemma_live_values_update(s: Seq<Option<i64>>, i: int, v: i64)
    requires
        0 <= i < s.len(),
    ensures
        live_values(s.update(i, Some(v))).len() == live_values(s).len() + (if s[i] is Some {
            0int
        } else {
            1int
        }),
    decreases s.len(),
{
    let t = s.update(i, Some(v));
    if i == s.len() - 1 {
        assert(t.drop_last() =~= s.drop_last());
    } else {
        assert(t.drop_last() =~= s.drop_last().update(i, Some(v)));
        assert(t.last() == s.last());
        lemma_live_values_update(s.drop_last(), i, v);
    }
}

} // verus!
