use vstd::prelude::*;

use crate::error::Error;
use crate::request::PingRequest;
use crate::ping::PingResult;

verus! {

/// The sequence number of attempt `index` of a series that starts at `start`:
/// sequence numbers count up from `start` and wrap around after 65535.
pub open spec fn series_sequence(start: u16, index: int) -> u16 {
    ((start + index) % 65536) as u16
}

/// A sequence of ICMP echo requests with incrementing sequence numbers.
#[derive(Clone, Debug)]
pub struct PingSeries {
    start_sequence: u16,
    count: usize,
    interval: u128,
    payload: Option<Vec<u8>>,
}

impl View for PingSeries {
    /// Start sequence, number of attempts, pause in nanoseconds, payload.
    type V = (u16, usize, u128, Option<Seq<u8>>);

    closed spec fn view(&self) -> (u16, usize, u128, Option<Seq<u8>>) {
        (
            self.start_sequence,
            self.count,
            self.interval,
            match self.payload {
                Some(p) => Some(p@),
                None => None,
            },
        )
    }
}

impl PingSeries {
    /// Creates a series of `count` requests whose sequence numbers count up
    /// from `start_sequence`, with no pause and the pinger's default payload.
    pub fn new(start_sequence: u16, count: usize) -> (s: Self)
        ensures
            s@ == (start_sequence, count, 0u128, None::<Seq<u8>>),
    {
        PingSeries { start_sequence, count, interval: 0, payload: None }
    }

    /// Sets the pause between attempts, in nanoseconds. No pause follows the
    /// final attempt.
    pub fn interval(self, interval_nanos: u128) -> (s: Self)
        ensures
            s@ == (self@.0, self@.1, interval_nanos, self@.3),
    {
        PingSeries { interval: interval_nanos, ..self }
    }

    /// Uses the same exact ICMP echo payload for each request in the series.
    pub fn payload(self, payload: Vec<u8>) -> (s: Self)
        ensures
            s@ == (self@.0, self@.1, self@.2, Some(payload@)),
    {
        PingSeries { payload: Some(payload), ..self }
    }

    /// The number of attempts.
    pub fn count(&self) -> (n: usize)
        ensures
            n == self@.1,
    {
        self.count
    }

    /// The pause between attempts, in nanoseconds.
    pub fn interval_nanos(&self) -> (n: u128)
        ensures
            n == self@.2,
    {
        self.interval
    }

    /// The sequence number of attempt `index`.
    pub fn sequence_at(&self, index: usize) -> (seq: u16)
        ensures
            seq == series_sequence(self@.0, index as int),
    {
        let offset = (index % 65536) as u32;
        let sum = self.start_sequence as u32 + offset;
        let seq = if sum >= 65536 {
            (sum - 65536) as u16
        } else {
            sum as u16
        };
        proof {
            vstd::arithmetic::div_mod::lemma_add_mod_noop(
                self.start_sequence as int,
                index as int,
                65536,
            );
            vstd::arithmetic::div_mod::lemma_mod_twice(index as int, 65536);
        }
        seq
    }

    /// The request sent as attempt `index`: its sequence number and the
    /// series' payload, if it has one.
    pub fn request_at(&self, index: usize) -> (r: PingRequest)
        ensures
            r@ == (series_sequence(self@.0, index as int), self@.3),
    {
        let sequence = self.sequence_at(index);
        match &self.payload {
            Some(payload) => {
                let p = payload.clone();
                proof {
                    assert(p@ =~= payload@);
                }
                PingRequest::new(sequence).payload(p)
            },
            None => PingRequest::new(sequence),
        }
    }

    /// Whether to pause after attempt `index`: only between attempts, and
    /// only when the pause is not zero.
    pub fn pause_after(&self, index: usize) -> (b: bool)
        requires
            index < self@.1,
        ensures
            b == (index + 1 < self@.1 && self@.2 != 0),
    {
        index + 1 < self.count && self.interval != 0
    }
}

/// Two different attempts of a series of at most 65536 attempts carry
/// different sequence numbers.
pub proof fn lemma_series_sequences_distinct(start: u16, i: int, j: int)
    requires
        0 <= i < j < 65536,
    ensures
        series_sequence(start, i) != series_sequence(start, j),
{
    assert(((start + i) % 65536) != ((start + j) % 65536)) by (nonlinear_arith)
        requires
            0 <= i < j < 65536,
            0 <= start < 65536,
    ;
}


/// One attempt in a repeated ping series.
#[derive(Debug)]
pub struct PingAttempt {
    pub sequence: u16,
    pub result: Result<PingResult, Error>,
}

/// Aggregate statistics for a repeated ping series. Round-trip times are in
/// nanoseconds.
#[derive(Clone, Copy, Debug, PartialEq, Eq)]
pub struct PingSummary {
    pub transmitted: usize,
    pub received: usize,
    pub min_rtt: Option<u128>,
    pub avg_rtt: Option<u128>,
    pub max_rtt: Option<u128>,
}

/// Results and aggregate statistics for a repeated ping series.
#[derive(Debug)]
pub struct PingSeriesResult {
    pub attempts: Vec<PingAttempt>,
    pub summary: PingSummary,
}

/// The round-trip times of the successful attempts, in order.
pub open spec fn received_rtts(attempts: Seq<PingAttempt>) -> Seq<u128>
    decreases attempts.len(),
{
    if attempts.len() == 0 {
        seq![]
    } else {
        let rest = received_rtts(attempts.drop_last());
        match attempts.last().result {
            Ok(r) => rest.push(r.rtt),
            Err(_) => rest,
        }
    }
}

/// The sum of a sequence of round-trip times.
pub open spec fn rtt_sum(s: Seq<u128>) -> int
    decreases s.len(),
{
    if s.len() == 0 {
        0
    } else {
        rtt_sum(s.drop_last()) + s.last()
    }
}

/// The least element of a non-empty sequence.
pub open spec fn rtt_min(s: Seq<u128>) -> u128
    decreases s.len(),
{
    if s.len() <= 1 {
        s[0]
    } else if s.last() < rtt_min(s.drop_last()) {
        s.last()
    } else {
        rtt_min(s.drop_last())
    }
}

/// The greatest element of a non-empty sequence.
pub open spec fn rtt_max(s: Seq<u128>) -> u128
    decreases s.len(),
{
    if s.len() <= 1 {
        s[0]
    } else if s.last() > rtt_max(s.drop_last()) {
        s.last()
    } else {
        rtt_max(s.drop_last())
    }
}

pub open spec fn min_of(s: Seq<u128>) -> Option<u128> {
    if s.len() == 0 {
        None
    } else {
        Some(rtt_min(s))
    }
}

pub open spec fn max_of(s: Seq<u128>) -> Option<u128> {
    if s.len() == 0 {
        None
    } else {
        Some(rtt_max(s))
    }
}

/// The mean of the round-trip times, rounded down and capped at
/// `u64::MAX` nanoseconds; none for no times.
pub open spec fn average_of(s: Seq<u128>) -> Option<u128> {
    if s.len() == 0 {
        None
    } else if rtt_sum(s) / (s.len() as int) > u64::MAX {
        Some(u64::MAX as u128)
    } else {
        Some((rtt_sum(s) / (s.len() as int)) as u128)
    }
}

/// The summary of a series of attempts.
pub open spec fn summary_of(attempts: Seq<PingAttempt>) -> PingSummary {
    let rtts = received_rtts(attempts);
    PingSummary {
        transmitted: attempts.len() as usize,
        received: rtts.len() as usize,
        min_rtt: min_of(rtts),
        avg_rtt: average_of(rtts),
        max_rtt: max_of(rtts),
    }
}

/// The round-trip times that a summary ranges over are those of the
/// successful attempts, every one of them and nothing else, in order: the
/// attempts whose result is `Ok`, each taken by its `rtt`.
pub proof fn lemma_received_rtts_are_ok_rtts(attempts: Seq<PingAttempt>)
    ensures
        received_rtts(attempts) == attempts.filter(|a: PingAttempt| a.result is Ok).map_values(
            |a: PingAttempt| a.result->Ok_0.rtt,
        ),
        received_rtts(attempts).len() == attempts.filter(|a: PingAttempt| a.result is Ok).len(),
        forall|i: int|
            0 <= i < attempts.len() && (#[trigger] attempts[i]).result is Ok ==> received_rtts(
                attempts,
            ).contains(attempts[i].result->Ok_0.rtt),
    decreases attempts.len(),
{
    let ok = |a: PingAttempt| a.result is Ok;
    let rtt = |a: PingAttempt| a.result->Ok_0.rtt;
    reveal(Seq::filter);
    if attempts.len() > 0 {
        let d = attempts.drop_last();
        lemma_received_rtts_are_ok_rtts(d);
        assert(attempts.filter(ok) == if ok(attempts.last()) {
            d.filter(ok).push(attempts.last())
        } else {
            d.filter(ok)
        });
        if ok(attempts.last()) {
            assert(d.filter(ok).push(attempts.last()).map_values(rtt) =~= d.filter(ok).map_values(
                rtt,
            ).push(rtt(attempts.last())));
        }
        assert forall|i: int|
            0 <= i < attempts.len() && (#[trigger] attempts[i]).result is Ok implies received_rtts(
            attempts,
        ).contains(attempts[i].result->Ok_0.rtt) by {
            if i < attempts.len() - 1 {
                assert(d[i] == attempts[i]);
                let k = choose|k: int|
                    0 <= k < received_rtts(d).len() && received_rtts(d)[k] == d[i].result->Ok_0.rtt;
                assert(received_rtts(attempts)[k] == received_rtts(d)[k]);
            } else {
                let r = received_rtts(attempts);
                assert(r[r.len() - 1] == attempts[i].result->Ok_0.rtt);
            }
        }
    } else {
        assert(attempts.filter(ok).map_values(rtt) =~= Seq::<u128>::empty());
    }
}

proof fn lemma_received_len(attempts: Seq<PingAttempt>)
    ensures
        received_rtts(attempts).len() <= attempts.len(),
    decreases attempts.len(),
{
    if attempts.len() > 0 {
        lemma_received_len(attempts.drop_last());
    }
}

proof fn lemma_sum_prefix(s: Seq<u128>, i: int)
    requires
        0 <= i <= s.len(),
    ensures
        0 <= rtt_sum(s.take(i)) <= rtt_sum(s),
    decreases s.len(),
{
    if i == s.len() {
        assert(s.take(i) =~= s);
        if s.len() > 0 {
            lemma_sum_prefix(s.drop_last(), s.len() - 1);
            assert(s.drop_last().take(s.len() - 1) =~= s.drop_last());
        }
    } else {
        lemma_sum_prefix(s.drop_last(), i);
        assert(s.drop_last().take(i) =~= s.take(i));
    }
}

/// Sums the round-trip times.
fn total_nanos(durations: &[u128]) -> (total: u128)
    requires
        rtt_sum(durations@) <= u128::MAX,
    ensures
        total == rtt_sum(durations@),
{
    let mut total: u128 = 0;
    let mut i: usize = 0;
    while i < durations.len()
        invariant
            i <= durations@.len(),
            rtt_sum(durations@) <= u128::MAX,
            total == rtt_sum(durations@.take(i as int)),
        decreases durations.len() - i,
    {
        proof {
            assert(durations@.take(i + 1).drop_last() =~= durations@.take(i as int));
            lemma_sum_prefix(durations@, i + 1);
        }
        total = total + durations[i];
        i = i + 1;
    }
    assert(durations@.take(i as int) =~= durations@);
    total
}

/// The mean of the durations in nanoseconds, rounded down and capped at
/// `u64::MAX`; `None` for no durations.
pub fn average_duration(durations: &[u128]) -> (avg: Option<u128>)
    requires
        rtt_sum(durations@) <= u128::MAX,
    ensures
        avg == average_of(durations@),
{
    let total = total_nanos(durations);
    if durations.len() == 0 {
        return None;
    }
    let average = total / (durations.len() as u128);
    if average > u64::MAX as u128 {
        Some(u64::MAX as u128)
    } else {
        Some(average)
    }
}

fn min_duration(durations: &[u128]) -> (m: Option<u128>)
    ensures
        m == min_of(durations@),
{
    let mut m: Option<u128> = None;
    let mut i: usize = 0;
    while i < durations.len()
        invariant
            i <= durations@.len(),
            m == min_of(durations@.take(i as int)),
        decreases durations.len() - i,
    {
        let d = durations[i];
        proof {
            assert(durations@.take(i + 1).drop_last() =~= durations@.take(i as int));
        }
        m = match m {
            Some(cur) => if d < cur {
                Some(d)
            } else {
                Some(cur)
            },
            None => Some(d),
        };
        i = i + 1;
    }
    assert(durations@.take(i as int) =~= durations@);
    m
}

fn max_duration(durations: &[u128]) -> (m: Option<u128>)
    ensures
        m == max_of(durations@),
{
    let mut m: Option<u128> = None;
    let mut i: usize = 0;
    while i < durations.len()
        invariant
            i <= durations@.len(),
            m == max_of(durations@.take(i as int)),
        decreases durations.len() - i,
    {
        let d = durations[i];
        proof {
            assert(durations@.take(i + 1).drop_last() =~= durations@.take(i as int));
        }
        m = match m {
            Some(cur) => if d > cur {
                Some(d)
            } else {
                Some(cur)
            },
            None => Some(d),
        };
        i = i + 1;
    }
    assert(durations@.take(i as int) =~= durations@);
    m
}

impl PingSummary {
    /// Counts the attempts and the successful ones, and takes the least,
    /// mean and greatest round-trip time of the successful ones.
    pub fn from_attempts(attempts: &[PingAttempt]) -> (s: Self)
        requires
            rtt_sum(received_rtts(attempts@)) <= u128::MAX,
        ensures
            s == summary_of(attempts@),
            s.transmitted == attempts@.len(),
            s.received == attempts@.filter(|a: PingAttempt| a.result is Ok).len(),
    {
        let mut rtts: Vec<u128> = Vec::new();
        let mut i: usize = 0;
        while i < attempts.len()
            invariant
                i <= attempts@.len(),
                rtts@ == received_rtts(attempts@.take(i as int)),
            decreases attempts.len() - i,
        {
            proof {
                assert(attempts@.take(i + 1).drop_last() =~= attempts@.take(i as int));
            }
            match &attempts[i].result {
                Ok(result) => rtts.push(result.rtt),
                Err(_) => {},
            }
            i = i + 1;
        }
        assert(attempts@.take(i as int) =~= attempts@);
        proof {
            lemma_received_len(attempts@);
            lemma_received_rtts_are_ok_rtts(attempts@);
        }
        let min_rtt = min_duration(rtts.as_slice());
        let max_rtt = max_duration(rtts.as_slice());
        let avg_rtt = average_duration(rtts.as_slice());
        PingSummary { transmitted: attempts.len(), received: rtts.len(), min_rtt, avg_rtt, max_rtt }
    }
}

impl PingSeriesResult {
    /// Bundles the attempts of a series with their summary.
    pub fn from_attempts(attempts: Vec<PingAttempt>) -> (r: Self)
        requires
            rtt_sum(received_rtts(attempts@)) <= u128::MAX,
        ensures
            r.attempts@ == attempts@,
            r.summary == summary_of(attempts@),
    {
        let summary = PingSummary::from_attempts(attempts.as_slice());
        PingSeriesResult { attempts, summary }
    }
}


proof fn lemma_min_max_bounds(s: Seq<u128>)
    requires
        s.len() > 0,
    ensures
        forall|j: int| 0 <= j < s.len() ==> rtt_min(s) <= #[trigger] s[j] <= rtt_max(s),
        exists|j: int| 0 <= j < s.len() && s[j] == rtt_min(s),
        exists|j: int| 0 <= j < s.len() && s[j] == rtt_max(s),
    decreases s.len(),
{
    if s.len() == 1 {
        assert(s[0] == rtt_min(s));
        assert(s[0] == rtt_max(s));
    } else {
        let d = s.drop_last();
        lemma_min_max_bounds(d);
        assert forall|j: int| 0 <= j < s.len() implies rtt_min(s) <= #[trigger] s[j] <= rtt_max(s) by {
            if j < s.len() - 1 {
                assert(s[j] == d[j]);
            }
        }
        let jm = choose|j: int| 0 <= j < d.len() && d[j] == rtt_min(d);
        let jx = choose|j: int| 0 <= j < d.len() && d[j] == rtt_max(d);
        if s.last() < rtt_min(d) {
            assert(s[s.len() - 1] == rtt_min(s));
        } else {
            assert(s[jm] == rtt_min(s));
        }
        if s.last() > rtt_max(d) {
            assert(s[s.len() - 1] == rtt_max(s));
        } else {
            assert(s[jx] == rtt_max(s));
        }
    }
}

proof fn lemma_sum_bounds(s: Seq<u128>)
    requires
        s.len() > 0,
    ensures
        s.len() * rtt_min(s) <= rtt_sum(s) <= s.len() * rtt_max(s),
    decreases s.len(),
{
    if s.len() == 1 {
        assert(rtt_sum(s.drop_last()) == 0);
        assert(rtt_sum(s) == s[0]);
        assert(1 * rtt_min(s) == rtt_min(s));
        assert(1 * rtt_max(s) == rtt_max(s));
    } else {
        let d = s.drop_last();
        lemma_sum_bounds(d);
        let n = d.len() as int;
        let lo = rtt_min(s) as int;
        let hi = rtt_max(s) as int;
        assert(lo <= rtt_min(d));
        assert(rtt_max(d) <= hi);
        assert(n * lo <= n * rtt_min(d)) by (nonlinear_arith)
            requires
                n >= 0,
                lo <= rtt_min(d),
        ;
        assert(n * rtt_max(d) <= n * hi) by (nonlinear_arith)
            requires
                n >= 0,
                rtt_max(d) <= hi,
        ;
        assert((n + 1) * lo == n * lo + lo) by (nonlinear_arith);
        assert((n + 1) * hi == n * hi + hi) by (nonlinear_arith);
    }
}

proof fn lemma_mean_bounds(s: Seq<u128>)
    requires
        s.len() > 0,
    ensures
        rtt_min(s) <= rtt_sum(s) / (s.len() as int) <= rtt_max(s),
{
    lemma_sum_bounds(s);
    let n = s.len() as int;
    let lo = rtt_min(s) as int;
    let hi = rtt_max(s) as int;
    let t = rtt_sum(s);
    assert(lo <= t / n <= hi) by (nonlinear_arith)
        requires
            n > 0,
            n * lo <= t,
            t <= n * hi,
    {
        vstd::arithmetic::div_mod::lemma_div_is_ordered(n * lo, t, n);
        vstd::arithmetic::div_mod::lemma_div_is_ordered(t, n * hi, n);
        vstd::arithmetic::div_mod::lemma_div_multiples_vanish(lo, n);
        vstd::arithmetic::div_mod::lemma_div_multiples_vanish(hi, n);
    }
}

/// What a series summary promises: no more replies than requests; the three
/// round-trip statistics are present exactly when some attempt succeeded;
/// then every successful attempt's time lies between the least and the
/// greatest, both of which some attempt took, and the mean lies between them
/// (where the greatest fits in `u64` nanoseconds, beyond which the mean is
/// capped).
pub proof fn lemma_summary_consistent(attempts: Seq<PingAttempt>)
    requires
        attempts.len() <= usize::MAX,
    ensures
        ({
            let s = summary_of(attempts);
            let rtts = received_rtts(attempts);
            &&& s.received <= s.transmitted
            &&& s.transmitted == attempts.len()
            &&& (s.received == 0 <==> s.min_rtt is None)
            &&& (s.received == 0 <==> s.avg_rtt is None)
            &&& (s.received == 0 <==> s.max_rtt is None)
            &&& (s.received > 0 ==> {
                &&& forall|j: int|
                    0 <= j < rtts.len() ==> s.min_rtt->0 <= #[trigger] rtts[j] <= s.max_rtt->0
                &&& exists|j: int| 0 <= j < rtts.len() && rtts[j] == s.min_rtt->0
                &&& exists|j: int| 0 <= j < rtts.len() && rtts[j] == s.max_rtt->0
                &&& (s.max_rtt->0 <= u64::MAX ==> s.min_rtt->0 <= s.avg_rtt->0 <= s.max_rtt->0)
            })
        }),
{
    let rtts = received_rtts(attempts);
    lemma_received_len(attempts);
    if rtts.len() > 0 {
        lemma_min_max_bounds(rtts);
        lemma_mean_bounds(rtts);
    }
}

/// The attempts of a series that starts at `start`, given the result of each
/// ping in order: attempt `i` carries the `i`-th sequence number of the
/// series and the `i`-th result.
pub open spec fn series_attempts(start: u16, results: Seq<Result<PingResult, Error>>) -> Seq<PingAttempt> {
    Seq::new(
        results.len(),
        |i: int| PingAttempt { sequence: series_sequence(start, i), result: results[i] },
    )
}

/// A series being run: the requests sent so far and the result of each.
pub struct SeriesRun {
    series: PingSeries,
    attempts: Vec<PingAttempt>,
    results: Ghost<Seq<Result<PingResult, Error>>>,
}

impl SeriesRun {
    /// The series being run.
    pub closed spec fn series_view(&self) -> (u16, usize, u128, Option<Seq<u8>>) {
        self.series@
    }

    /// The results recorded so far, in order.
    pub closed spec fn results(&self) -> Seq<Result<PingResult, Error>> {
        self.results@
    }

    /// The attempts recorded so far match the results, and there are no more
    /// of them than the series has.
    pub closed spec fn inv(&self) -> bool {
        &&& self.attempts@ == series_attempts(self.series@.0, self.results@)
        &&& self.results@.len() <= self.series@.1
    }

    /// Starts running `series`, with nothing sent yet.
    pub fn new(series: PingSeries) -> (run: Self)
        ensures
            run.inv(),
            run.series_view() == series@,
            run.results() == Seq::<Result<PingResult, Error>>::empty(),
    {
        let run = SeriesRun { series, attempts: Vec::new(), results: Ghost(Seq::empty()) };
        assert(run.attempts@ =~= series_attempts(run.series@.0, run.results@));
        run
    }

    /// The request to send next: the series' request for the next index, or
    /// none once every attempt has been made.
    pub fn next_request(&self) -> (r: Option<PingRequest>)
        requires
            self.inv(),
        ensures
            self.results().len() < self.series_view().1 ==> (r matches Some(q) && q@ == (
                series_sequence(self.series_view().0, self.results().len() as int),
                self.series_view().3,
            )),
            self.results().len() >= self.series_view().1 ==> r is None,
    {
        let n = self.attempts.len();
        if n < self.series.count() {
            Some(self.series.request_at(n))
        } else {
            None
        }
    }

    /// Records the result of the request for the next index.
    pub fn record(&mut self, result: Result<PingResult, Error>)
        requires
            old(self).inv(),
            old(self).results().len() < old(self).series_view().1,
        ensures
            final(self).inv(),
            final(self).series_view() == old(self).series_view(),
            final(self).results() == old(self).results().push(result),
    {
        let n = self.attempts.len();
        let sequence = self.series.sequence_at(n);
        let ghost result_view = result;
        self.attempts.push(PingAttempt { sequence, result });
        self.results = Ghost(self.results@.push(result_view));
        assert(self.attempts@ =~= series_attempts(self.series@.0, self.results@));
    }

    /// Whether to pause after the attempt just recorded: only when another
    /// attempt follows and the pause is not zero.
    pub fn pause_after_record(&self) -> (b: bool)
        requires
            self.inv(),
            self.results().len() > 0,
        ensures
            b == (self.results().len() < self.series_view().1 && self.series_view().2 != 0),
    {
        let n = self.attempts.len();
        self.series.pause_after(n - 1)
    }

    /// The attempts recorded so far.
    pub fn attempts(&self) -> (a: &Vec<PingAttempt>)
        requires
            self.inv(),
        ensures
            a@ == series_attempts(self.series_view().0, self.results()),
    {
        &self.attempts
    }

    /// Ends the run once every attempt has been made: one attempt per index
    /// of the series, in order, each with the result recorded for it, and
    /// their summary.
    pub fn finish(self) -> (r: PingSeriesResult)
        requires
            self.inv(),
            self.results().len() == self.series_view().1,
            rtt_sum(received_rtts(series_attempts(self.series_view().0, self.results()))) <= u128::MAX,
        ensures
            r.attempts@ == series_attempts(self.series_view().0, self.results()),
            r.attempts@.len() == self.series_view().1,
            r.summary == summary_of(series_attempts(self.series_view().0, self.results())),
    {
        PingSeriesResult::from_attempts(self.attempts)
    }
}

/// Attempt `i` of a finished run carries the `i`-th sequence number of the
/// series (counting up from the start and wrapping), the result recorded
/// `i`-th, and the run has exactly one attempt per recorded result.
pub proof fn lemma_series_attempts(start: u16, results: Seq<Result<PingResult, Error>>)
    ensures
        series_attempts(start, results).len() == results.len(),
        forall|i: int|
            0 <= i < results.len() ==> (#[trigger] series_attempts(start, results)[i]).sequence
                == series_sequence(start, i) && series_attempts(start, results)[i].result
                == results[i],
{
}

/// A series starts at its start sequence number and each attempt's number
/// is one more than the previous one's, 65535 being followed by 0.
pub proof fn lemma_series_sequence_steps(start: u16, i: int)
    requires
        0 <= i,
    ensures
        series_sequence(start, 0) == start,
        series_sequence(start, i + 1) == if series_sequence(start, i) == 65535 {
            0
        } else {
            series_sequence(start, i) + 1
        },
{
    vstd::arithmetic::div_mod::lemma_add_mod_noop(start + i, 1, 65536);
    vstd::arithmetic::div_mod::lemma_mod_twice(start + i, 65536);
}

/// The mean of a summary is the sum of the round-trip times divided by
/// their number, rounded down: `avg * n <= sum < (avg + 1) * n`, unless that
/// exceeds `u64::MAX` nanoseconds, where it is capped there.
pub proof fn lemma_average_rounds_down(s: Seq<u128>)
    requires
        s.len() > 0,
    ensures
        average_of(s) matches Some(a) && (a == u64::MAX || (a * s.len() <= rtt_sum(s) < (a + 1)
            * s.len())),
        rtt_sum(s) >= s.len() * (u64::MAX as int) + s.len() ==> average_of(s) == Some(
            u64::MAX as u128,
        ),
{
    let n = s.len() as int;
    let t = rtt_sum(s);
    lemma_sum_bounds(s);
    assert(t >= 0);
    vstd::arithmetic::div_mod::lemma_fundamental_div_mod(t, n);
    let q = t / n;
    assert(0 <= t % n < n) by {
        vstd::arithmetic::div_mod::lemma_mod_bound(t, n);
    }
    assert(q * n <= t < (q + 1) * n) by (nonlinear_arith)
        requires
            t == n * q + t % n,
            0 <= t % n < n,
    ;
    if t >= n * (u64::MAX as int) + n {
        assert(q > u64::MAX) by (nonlinear_arith)
            requires
                t >= n * (u64::MAX as int) + n,
                t < (q + 1) * n,
                n > 0,
        ;
    }
}
} // verus!
