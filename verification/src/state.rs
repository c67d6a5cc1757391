//! Snapshot structs, ring-buffer series, and the history derived from them.
//!
//! The collectors produce *raw* snapshots (current counter/gauge values). The
//! UI thread feeds successive snapshots into a [`History`], which turns counters
//! into rates and histograms into recent-average latencies, appending the
//! derived values to per-series ring buffers for charting.
//!
//! Arithmetic on the values themselves is left to an [`Arithmetic`].

use std::collections::VecDeque;

use vstd::prelude::*;

use crate::collectors::common::{Numeral, NumeralView};
use crate::collectors::scrape::{HistogramReading, Reading, Scrape};
use crate::text::same;

verus! {

/// Arithmetic on the values of metrics.
pub trait Arithmetic {
    /// A value.
    type F: Copy;

    /// The number that a text spells, where it spells one.
    fn parsed(&self, s: &str) -> Option<Self::F>;

    fn infinity(&self) -> Self::F;

    /// The value that stands for what is no number.
    fn no_number(&self) -> Self::F;

    /// The value of an integer.
    fn whole(&self, n: i64) -> Self::F;

    fn plus(&self, a: Self::F, b: Self::F) -> Self::F;

    fn minus(&self, a: Self::F, b: Self::F) -> Self::F;

    fn times(&self, a: Self::F, b: Self::F) -> Self::F;

    /// `a` divided by `b`.
    fn ratio(&self, a: Self::F, b: Self::F) -> Self::F;

    /// The larger one.
    fn larger(&self, a: Self::F, b: Self::F) -> Self::F;

    /// The smaller one.
    fn smaller(&self, a: Self::F, b: Self::F) -> Self::F;

    /// Whether `a <= b`.
    fn at_most(&self, a: Self::F, b: Self::F) -> bool;

    /// Whether `a < b`.
    fn under(&self, a: Self::F, b: Self::F) -> bool;

    /// Whether `a == b`.
    fn equal(&self, a: Self::F, b: Self::F) -> bool;

    fn is_infinite(&self, a: Self::F) -> bool;

    /// The value without its decimals; the nearest one that fits, and zero for
    /// what is no number.
    fn truncated(&self, a: Self::F) -> i64;

    /// The inverse of Euler's number to the power `a`.
    fn exp_minus(&self, a: Self::F) -> Self::F;
}

/// `r` is `a` times `n`.
pub open spec fn is_product<T: Arithmetic>(t: T, a: T::F, n: i64, r: T::F) -> bool {
    exists|k: T::F| #[trigger]
        call_ensures(T::whole, (&t, n), k) && call_ensures(T::times, (&t, a, k), r)
}

/// `a` times `n`.
pub fn product<T: Arithmetic>(t: &T, a: T::F, n: i64) -> (r: T::F)
    ensures
        is_product(*t, a, n, r),
{
    let k = t.whole(n);
    assert(call_ensures(T::whole, (t, n), k));
    t.times(a, k)
}

/// `r` is `a` divided by `n`.
pub open spec fn is_quotient<T: Arithmetic>(t: T, a: T::F, n: i64, r: T::F) -> bool {
    exists|k: T::F| #[trigger]
        call_ensures(T::whole, (&t, n), k) && call_ensures(T::ratio, (&t, a, k), r)
}

/// `a` divided by `n`.
pub fn quotient<T: Arithmetic>(t: &T, a: T::F, n: i64) -> (r: T::F)
    ensures
        is_quotient(*t, a, n, r),
{
    let k = t.whole(n);
    assert(call_ensures(T::whole, (t, n), k));
    t.ratio(a, k)
}

/// Whether `a >= n`.
pub open spec fn is_at_least<T: Arithmetic>(t: T, a: T::F, n: i64, answer: bool) -> bool {
    exists|k: T::F| #[trigger]
        call_ensures(T::whole, (&t, n), k) && call_ensures(T::at_most, (&t, k, a), answer)
}

/// Whether `a >= n`.
pub fn at_least<T: Arithmetic>(t: &T, a: T::F, n: i64) -> (r: bool)
    ensures
        is_at_least(*t, a, n, r),
{
    let k = t.whole(n);
    assert(call_ensures(T::whole, (t, n), k));
    t.at_most(k, a)
}

/// Whether `a < n`.
pub open spec fn is_below<T: Arithmetic>(t: T, a: T::F, n: i64, answer: bool) -> bool {
    exists|k: T::F| #[trigger]
        call_ensures(T::whole, (&t, n), k) && call_ensures(T::under, (&t, a, k), answer)
}

/// Whether `a < n`.
pub fn below<T: Arithmetic>(t: &T, a: T::F, n: i64) -> (r: bool)
    ensures
        is_below(*t, a, n, r),
{
    let k = t.whole(n);
    assert(call_ensures(T::whole, (t, n), k));
    t.under(a, k)
}

/// Whether `a == n`.
pub open spec fn is_exactly<T: Arithmetic>(t: T, a: T::F, n: i64, answer: bool) -> bool {
    exists|k: T::F| #[trigger]
        call_ensures(T::whole, (&t, n), k) && call_ensures(T::equal, (&t, a, k), answer)
}

/// Whether `a == n`.
pub fn exactly<T: Arithmetic>(t: &T, a: T::F, n: i64) -> (r: bool)
    ensures
        is_exactly(*t, a, n, r),
{
    let k = t.whole(n);
    assert(call_ensures(T::whole, (t, n), k));
    t.equal(a, k)
}

/// `r` is infinity below zero.
pub open spec fn is_minus_infinity<T: Arithmetic>(t: T, r: T::F) -> bool {
    exists|none: T::F, inf: T::F| #[trigger]
        call_ensures(T::whole, (&t, 0i64), none) && #[trigger] call_ensures(T::infinity, (&t,), inf)
            && call_ensures(T::minus, (&t, none, inf), r)
}

fn minus_infinity<T: Arithmetic>(t: &T) -> (r: T::F)
    ensures
        is_minus_infinity(*t, r),
{
    let none = t.whole(0);
    let inf = t.infinity();
    assert(call_ensures(T::whole, (t, 0i64), none));
    assert(call_ensures(T::infinity, (t,), inf));
    t.minus(none, inf)
}

/// `o` is the number that the text spells, or none.
pub open spec fn is_parsed<T: Arithmetic>(t: T, s: Seq<char>, o: Option<T::F>) -> bool {
    exists|w: &str| w@ == s && #[trigger] call_ensures(T::parsed, (&t, w), o)
}

/// `r` is the value of a numeral; a text that is no number counts as zero.
pub open spec fn is_value<T: Arithmetic>(t: T, n: NumeralView, r: T::F) -> bool {
    match n {
        NumeralView::PosInf => call_ensures(T::infinity, (&t,), r),
        NumeralView::NegInf => is_minus_infinity(t, r),
        NumeralView::Nan => call_ensures(T::no_number, (&t,), r),
        NumeralView::Text(s) => is_parsed(t, s, Some(r)) || is_parsed(t, s, None) && call_ensures(
            T::whole,
            (&t, 0i64),
            r,
        ),
    }
}

/// The value of a numeral; a text that is no number counts as zero.
pub fn value_of<T: Arithmetic>(t: &T, n: &Numeral) -> (r: T::F)
    ensures
        is_value(*t, n@, r),
{
    match n {
        Numeral::PosInf => {
            let r = t.infinity();
            assert(call_ensures(T::infinity, (t,), r));
            r
        },
        Numeral::NegInf => minus_infinity(t),
        Numeral::Nan => {
            let r = t.no_number();
            assert(call_ensures(T::no_number, (t,), r));
            r
        },
        Numeral::Text(s) => {
            let w = s.as_str();
            let o = t.parsed(w);
            assert(call_ensures(T::parsed, (t, w), o));
            assert(is_parsed(*t, s@, o));
            match o {
                Some(v) => v,
                None => {
                    let r = t.whole(0);
                    assert(call_ensures(T::whole, (t, 0i64), r));
                    r
                },
            }
        },
    }
}

/// `r` is the upper bound that a numeral stands for; a text that is no number
/// is no bound, that is infinity.
pub open spec fn is_bound<T: Arithmetic>(t: T, n: NumeralView, r: T::F) -> bool {
    match n {
        NumeralView::PosInf => call_ensures(T::infinity, (&t,), r),
        NumeralView::NegInf => is_minus_infinity(t, r),
        NumeralView::Nan => call_ensures(T::no_number, (&t,), r),
        NumeralView::Text(s) => is_parsed(t, s, Some(r)) || is_parsed(t, s, None) && call_ensures(
            T::infinity,
            (&t,),
            r,
        ),
    }
}

/// The upper bound that a numeral stands for; a text that is no number is
/// infinity.
pub fn bound_of<T: Arithmetic>(t: &T, n: &Numeral) -> (r: T::F)
    ensures
        is_bound(*t, n@, r),
{
    match n {
        Numeral::PosInf => {
            let r = t.infinity();
            assert(call_ensures(T::infinity, (t,), r));
            r
        },
        Numeral::NegInf => minus_infinity(t),
        Numeral::Nan => {
            let r = t.no_number();
            assert(call_ensures(T::no_number, (t,), r));
            r
        },
        Numeral::Text(s) => {
            let w = s.as_str();
            let o = t.parsed(w);
            assert(call_ensures(T::parsed, (t, w), o));
            assert(is_parsed(*t, s@, o));
            match o {
                Some(v) => v,
                None => {
                    let r = t.infinity();
                    assert(call_ensures(T::infinity, (t,), r));
                    r
                },
            }
        },
    }
}

/// `r` is `n` divided by `d`.
pub open spec fn is_fraction<T: Arithmetic>(t: T, n: i64, d: i64, r: T::F) -> bool {
    exists|a: T::F, b: T::F| #[trigger]
        call_ensures(T::whole, (&t, n), a) && #[trigger] call_ensures(T::whole, (&t, d), b)
            && call_ensures(T::ratio, (&t, a, b), r)
}

/// `n` divided by `d`.
pub fn fraction<T: Arithmetic>(t: &T, n: i64, d: i64) -> (r: T::F)
    ensures
        is_fraction(*t, n, d, r),
{
    let a = t.whole(n);
    let b = t.whole(d);
    let r = t.ratio(a, b);
    assert(call_ensures(T::whole, (t, n), a));
    assert(call_ensures(T::whole, (t, d), b));
    r
}

/// `r` is `a`, or the bound from `lo` to `hi` that it is beyond.
pub open spec fn is_clamped<T: Arithmetic>(t: T, a: T::F, lo: T::F, hi: T::F, r: T::F) -> bool {
    exists|below: bool, above: bool| #[trigger]
        call_ensures(T::under, (&t, a, lo), below) && #[trigger] call_ensures(
            T::under,
            (&t, hi, a),
            above,
        ) && r == if below {
            lo
        } else if above {
            hi
        } else {
            a
        }
}

/// The value, or the bound from `lo` to `hi` that it is beyond.
pub fn clamp<T: Arithmetic>(t: &T, a: T::F, lo: T::F, hi: T::F) -> (r: T::F)
    ensures
        is_clamped(*t, a, lo, hi, r),
{
    let below = t.under(a, lo);
    let above = t.under(hi, a);
    assert(call_ensures(T::under, (t, a, lo), below));
    assert(call_ensures(T::under, (t, hi, a), above));
    if below {
        lo
    } else if above {
        hi
    } else {
        a
    }
}

/// The last `n` elements, or all where there are fewer.
pub open spec fn last_of<F>(s: Seq<F>, n: nat) -> Seq<F> {
    if s.len() <= n {
        s
    } else {
        s.skip(s.len() - n)
    }
}

/// Fixed-length ring buffer of values for chart history.
pub struct Series<F> {
    buf: VecDeque<F>,
    maxlen: usize,
}

impl<F> View for Series<F> {
    type V = Seq<F>;

    closed spec fn view(&self) -> Seq<F> {
        self.buf@
    }
}

impl<F> Series<F> {
    /// There are no more than `maxlen` values.
    pub closed spec fn wf(&self) -> bool {
        self.buf@.len() <= self.maxlen < usize::MAX
    }

    pub closed spec fn limit(&self) -> nat {
        self.maxlen as nat
    }

    pub fn new(maxlen: usize) -> (r: Series<F>)
        requires
            maxlen < usize::MAX,
        ensures
            r.wf(),
            r.limit() == maxlen,
            r@ == Seq::<F>::empty(),
    {
        Series { buf: VecDeque::new(), maxlen }
    }

    /// Appends a value; the oldest one leaves where there are too many.
    pub fn append(&mut self, value: F)
        requires
            old(self).wf(),
        ensures
            final(self).wf(),
            final(self).limit() == old(self).limit(),
            final(self)@ == last_of(old(self)@.push(value), old(self).limit()),
            final(self)@.len() <= final(self).limit(),
    {
        self.buf.push_back(value);
        if self.buf.len() > self.maxlen {
            self.buf.pop_front();
            assert(self@ =~= last_of(old(self)@.push(value), old(self).limit()));
        }
    }

    pub fn len(&self) -> (r: usize)
        ensures
            r == self@.len(),
    {
        self.buf.len()
    }

    pub fn is_empty(&self) -> (r: bool)
        ensures
            r == (self@.len() == 0),
    {
        self.buf.len() == 0
    }
}

impl<F: Copy> Series<F> {
    /// The latest value, or `zero` where there is none.
    pub fn last(&self, zero: F) -> (r: F)
        ensures
            r == if self@.len() > 0 {
                self@.last()
            } else {
                zero
            },
    {
        let n = self.buf.len();
        if n == 0 {
            zero
        } else {
            self.buf[n - 1]
        }
    }

    /// The values, oldest first.
    pub fn values(&self) -> (r: Vec<F>)
        ensures
            r@ == self@,
    {
        let n = self.buf.len();
        let mut r: Vec<F> = Vec::new();
        for i in 0..n
            invariant
                n == self.buf@.len(),
                r@ == self.buf@.take(i as int),
        {
            r.push(self.buf[i]);
            assert(r@ =~= self.buf@.take(i + 1));
        }
        assert(r@ =~= self@);
        r
    }
}

/// A Prometheus histogram's cumulative state at one point in time.
///
/// `buckets` holds `(upper_bound, cumulative_count)` pairs kept sorted by
/// `upper_bound`.
#[derive(Clone, Debug)]
pub struct Histogram<F> {
    pub count: F,
    pub sum: F,
    pub buckets: Vec<(F, F)>,
}

/// The bound of bucket `i` is the given one.
pub open spec fn bound_is<T: Arithmetic>(
    t: T,
    buckets: Seq<(T::F, T::F)>,
    i: int,
    le: T::F,
    answer: bool,
) -> bool {
    call_ensures(T::equal, (&t, buckets[i].0, le), answer)
}

/// Bucket `i` is the first one with the given bound, or there is none and `i`
/// is their number.
pub open spec fn found_at<T: Arithmetic>(
    t: T,
    buckets: Seq<(T::F, T::F)>,
    le: T::F,
    i: int,
) -> bool {
    &&& 0 <= i <= buckets.len()
    &&& forall|j: int| 0 <= j < i ==> #[trigger] bound_is(t, buckets, j, le, false)
    &&& i < buckets.len() ==> bound_is(t, buckets, i, le, true)
}

/// The bound of bucket `i` is over the given one.
pub open spec fn bound_over<T: Arithmetic>(
    t: T,
    buckets: Seq<(T::F, T::F)>,
    i: int,
    le: T::F,
    answer: bool,
) -> bool {
    call_ensures(T::under, (&t, le, buckets[i].0), answer)
}

/// Bucket `i` is the first one with a bound over the given one, or there is
/// none and `i` is their number.
pub open spec fn slot_at<T: Arithmetic>(
    t: T,
    buckets: Seq<(T::F, T::F)>,
    le: T::F,
    i: int,
) -> bool {
    &&& 0 <= i <= buckets.len()
    &&& forall|j: int| 0 <= j < i ==> #[trigger] bound_over(t, buckets, j, le, false)
    &&& i < buckets.len() ==> bound_over(t, buckets, i, le, true)
}

/// `after` is `before` with `v` more in the bucket of the given bound: its
/// count grows, or the bucket comes in before the first one with a larger
/// bound.
pub open spec fn bucket_added<T: Arithmetic>(
    t: T,
    before: Seq<(T::F, T::F)>,
    le: T::F,
    v: T::F,
    after: Seq<(T::F, T::F)>,
) -> bool {
    exists|i: int| #[trigger]
        found_at(t, before, le, i) && if i < before.len() {
            exists|n: T::F| #[trigger]
                call_ensures(T::plus, (&t, before[i].1, v), n) && after == before.update(
                    i,
                    (before[i].0, n),
                )
        } else {
            exists|k: int| #[trigger]
                slot_at(t, before, le, k) && after == before.insert(k, (le, v))
        }
}

fn find_bound<T: Arithmetic>(t: &T, buckets: &Vec<(T::F, T::F)>, le: T::F) -> (r: usize)
    ensures
        found_at(*t, buckets@, le, r as int),
{
    for i in 0..buckets.len()
        invariant
            forall|j: int| 0 <= j < i ==> #[trigger] bound_is(*t, buckets@, j, le, false),
    {
        let answer = t.equal(buckets[i].0, le);
        assert(bound_is(*t, buckets@, i as int, le, answer));
        if answer {
            return i;
        }
    }
    buckets.len()
}

fn find_slot<T: Arithmetic>(t: &T, buckets: &Vec<(T::F, T::F)>, le: T::F) -> (r: usize)
    ensures
        slot_at(*t, buckets@, le, r as int),
{
    for i in 0..buckets.len()
        invariant
            forall|j: int| 0 <= j < i ==> #[trigger] bound_over(*t, buckets@, j, le, false),
    {
        let answer = t.under(le, buckets[i].0);
        assert(bound_over(*t, buckets@, i as int, le, answer));
        if answer {
            return i;
        }
    }
    buckets.len()
}

impl<F: Copy> Histogram<F> {
    /// A histogram of nothing.
    pub fn new(zero: F) -> (r: Histogram<F>)
        ensures
            r.count == zero,
            r.sum == zero,
            r.buckets@ == Seq::<(F, F)>::empty(),
    {
        Histogram { count: zero, sum: zero, buckets: Vec::new() }
    }

    /// The count of the bucket whose upper bound is `le`, or `zero`.
    pub fn get<T: Arithmetic<F = F>>(&self, t: &T, le: F, zero: F) -> (r: F)
        ensures
            exists|i: int| #[trigger]
                found_at(*t, self.buckets@, le, i) && r == if i < self.buckets@.len() {
                    self.buckets@[i].1
                } else {
                    zero
                },
    {
        let i = find_bound(t, &self.buckets, le);
        if i < self.buckets.len() {
            self.buckets[i].1
        } else {
            zero
        }
    }

    /// Add `v` to the bucket whose upper bound is `le`, inserting it in its
    /// place if it doesn't exist.
    pub fn add<T: Arithmetic<F = F>>(&mut self, t: &T, le: F, v: F)
        ensures
            final(self).count == old(self).count,
            final(self).sum == old(self).sum,
            bucket_added(*t, old(self).buckets@, le, v, final(self).buckets@),
    {
        let ghost before = self.buckets@;
        let i = find_bound(t, &self.buckets, le);
        if i < self.buckets.len() {
            let (bound, count) = self.buckets[i];
            let n = t.plus(count, v);
            assert(call_ensures(T::plus, (t, before[i as int].1, v), n));
            self.buckets.set(i, (bound, n));
            assert(found_at(*t, before, le, i as int));
        } else {
            let k = find_slot(t, &self.buckets, le);
            self.buckets.insert(k, (le, v));
            assert(found_at(*t, before, le, i as int));
            assert(slot_at(*t, before, le, k as int));
        }
    }
}

/// Raw current values pulled from one /metrics scrape.
#[derive(Clone, Debug)]
pub struct BackendSnapshot<F> {
    pub reachable: bool,
    pub error: Option<String>,
    pub model_name: Option<String>,
    // Engine / config info (from labels on info-style metrics).
    /// Unix epoch seconds, for uptime.
    pub process_start_time: Option<F>,
    pub cache_dtype: Option<String>,
    pub block_size: Option<String>,
    /// Configured target, e.g. "0.88".
    pub gpu_memory_utilization: Option<String>,
    pub num_gpu_blocks: Option<String>,
    pub enable_prefix_caching: Option<bool>,
    pub engine_awake: Option<bool>,
    // Counters
    pub generation_tokens_total: F,
    pub prompt_tokens_total: F,
    pub prompt_tokens_cached_total: F,
    pub num_preemptions_total: F,
    pub prefix_cache_hits_total: F,
    pub prefix_cache_queries_total: F,
    /// Summed across finish reasons.
    pub request_success_total: F,
    // Gauges
    pub num_requests_running: F,
    pub num_requests_waiting: F,
    pub kv_cache_usage_perc: F,
    // Latency histograms
    pub ttft: Histogram<F>,
    pub inter_token: Histogram<F>,
    pub e2e: Histogram<F>,
    pub queue_time: Histogram<F>,
    // Per-request size / phase-timing histograms (observed once per completed
    // request). Used for the requests panel's per-request averages list.
    pub req_prompt_tokens: Histogram<F>,
    pub req_gen_tokens: Histogram<F>,
    pub prefill_time: Histogram<F>,
    pub decode_time: Histogram<F>,
}

/// A histogram of nothing.
pub open spec fn is_blank<F>(h: Histogram<F>, zero: F) -> bool {
    h.count == zero && h.sum == zero && h.buckets@ == Seq::<(F, F)>::empty()
}

/// Nothing is known but whether the server was reached.
pub open spec fn knows_nothing<F>(b: BackendSnapshot<F>, zero: F) -> bool {
    &&& b.model_name is None && b.process_start_time is None && b.cache_dtype is None
    &&& b.block_size is None && b.gpu_memory_utilization is None && b.num_gpu_blocks is None
    &&& b.enable_prefix_caching is None && b.engine_awake is None
    &&& b.generation_tokens_total == zero
    &&& b.prompt_tokens_total == zero
    &&& b.prompt_tokens_cached_total == zero
    &&& b.num_preemptions_total == zero
    &&& b.prefix_cache_hits_total == zero
    &&& b.prefix_cache_queries_total == zero
    &&& b.request_success_total == zero
    &&& b.num_requests_running == zero
    &&& b.num_requests_waiting == zero
    &&& b.kv_cache_usage_perc == zero
    &&& is_blank(b.ttft, zero)
    &&& is_blank(b.inter_token, zero)
    &&& is_blank(b.e2e, zero)
    &&& is_blank(b.queue_time, zero)
    &&& is_blank(b.req_prompt_tokens, zero)
    &&& is_blank(b.req_gen_tokens, zero)
    &&& is_blank(b.prefill_time, zero)
    &&& is_blank(b.decode_time, zero)
}

impl<F: Copy> BackendSnapshot<F> {
    /// A snapshot of a server that was not reached.
    pub fn new(zero: F) -> (r: BackendSnapshot<F>)
        ensures
            !r.reachable,
            r.error is None,
            knows_nothing(r, zero),
    {
        BackendSnapshot {
            reachable: false,
            error: None,
            model_name: None,
            process_start_time: None,
            cache_dtype: None,
            block_size: None,
            gpu_memory_utilization: None,
            num_gpu_blocks: None,
            enable_prefix_caching: None,
            engine_awake: None,
            generation_tokens_total: zero,
            prompt_tokens_total: zero,
            prompt_tokens_cached_total: zero,
            num_preemptions_total: zero,
            prefix_cache_hits_total: zero,
            prefix_cache_queries_total: zero,
            request_success_total: zero,
            num_requests_running: zero,
            num_requests_waiting: zero,
            kv_cache_usage_perc: zero,
            ttft: Histogram::new(zero),
            inter_token: Histogram::new(zero),
            e2e: Histogram::new(zero),
            queue_time: Histogram::new(zero),
            req_prompt_tokens: Histogram::new(zero),
            req_gen_tokens: Histogram::new(zero),
            prefill_time: Histogram::new(zero),
            decode_time: Histogram::new(zero),
        }
    }
}

/// One more addend.
pub open spec fn sum_step<T: Arithmetic>(t: T, before: T::F, n: Numeral, after: T::F) -> bool {
    exists|v: T::F| #[trigger]
        is_value(t, n@, v) && call_ensures(T::plus, (&t, before, v), after)
}

/// The running sums of the addends, from `zero` on.
pub open spec fn sum_steps<T: Arithmetic>(
    t: T,
    zero: T::F,
    ns: Seq<Numeral>,
    steps: Seq<T::F>,
) -> bool {
    &&& steps.len() == ns.len() + 1
    &&& steps[0] == zero
    &&& forall|i: int|
        0 <= i < ns.len() ==> sum_step(t, steps[i], #[trigger] ns[i], steps[i + 1])
}

/// `r` is the sum of the addends, in their order.
pub open spec fn summed<T: Arithmetic>(t: T, zero: T::F, ns: Seq<Numeral>, r: T::F) -> bool {
    exists|steps: Seq<T::F>| #[trigger] sum_steps(t, zero, ns, steps) && r == steps.last()
}

pub open spec fn read_as<T: Arithmetic>(t: T, zero: T::F, x: Reading, r: T::F) -> bool {
    match x {
        Reading::Sum(ns) => summed(t, zero, ns@, r),
        Reading::Value(n) => is_value(t, n@, r),
    }
}

/// One more bucket line.
pub open spec fn bucket_step<T: Arithmetic>(
    t: T,
    before: Seq<(T::F, T::F)>,
    b: (Numeral, Numeral),
    after: Seq<(T::F, T::F)>,
) -> bool {
    exists|le: T::F, v: T::F| #[trigger]
        is_bound(t, b.0@, le) && #[trigger] is_value(t, b.1@, v) && bucket_added(
            t,
            before,
            le,
            v,
            after,
        )
}

/// The buckets after each bucket line, from none on.
pub open spec fn bucket_steps<T: Arithmetic>(
    t: T,
    bs: Seq<(Numeral, Numeral)>,
    steps: Seq<Seq<(T::F, T::F)>>,
) -> bool {
    &&& steps.len() == bs.len() + 1
    &&& steps[0] == Seq::<(T::F, T::F)>::empty()
    &&& forall|i: int|
        0 <= i < bs.len() ==> bucket_step(t, steps[i], #[trigger] bs[i], steps[i + 1])
}

pub open spec fn histogram_read_as<T: Arithmetic>(
    t: T,
    zero: T::F,
    h: HistogramReading,
    r: Histogram<T::F>,
) -> bool {
    &&& summed(t, zero, h.count@, r.count)
    &&& summed(t, zero, h.sum@, r.sum)
    &&& exists|steps: Seq<Seq<(T::F, T::F)>>| #[trigger]
        bucket_steps(t, h.buckets@, steps) && r.buckets@ == steps.last()
}

pub open spec fn maybe_read_as<T: Arithmetic>(
    t: T,
    n: Option<Numeral>,
    r: Option<T::F>,
) -> bool {
    match n {
        Some(x) => r matches Some(v) && is_value(t, x@, v),
        None => r is None,
    }
}

/// The engine is awake where its sample is one.
pub open spec fn awake_read_as<T: Arithmetic>(t: T, n: Option<Numeral>, r: Option<bool>) -> bool {
    match n {
        Some(x) => r matches Some(awake) && exists|v: T::F| #[trigger]
            is_value(t, x@, v) && is_exactly(t, v, 1, awake),
        None => r is None,
    }
}

/// `r` is what the scrape says, as values.
pub open spec fn evaluated<T: Arithmetic>(
    t: T,
    zero: T::F,
    s: Scrape,
    r: BackendSnapshot<T::F>,
) -> bool {
    &&& r.reachable == s.reachable && r.error == s.error && r.model_name == s.model_name
    &&& r.cache_dtype == s.cache_dtype && r.block_size == s.block_size
    &&& r.gpu_memory_utilization == s.gpu_memory_utilization
    &&& r.num_gpu_blocks == s.num_gpu_blocks
    &&& r.enable_prefix_caching == s.enable_prefix_caching
    &&& maybe_read_as(t, s.process_start_time, r.process_start_time)
    &&& awake_read_as(t, s.engine_awake, r.engine_awake)
    &&& read_as(t, zero, s.generation_tokens_total, r.generation_tokens_total)
    &&& read_as(t, zero, s.prompt_tokens_total, r.prompt_tokens_total)
    &&& read_as(t, zero, s.prompt_tokens_cached_total, r.prompt_tokens_cached_total)
    &&& read_as(t, zero, s.num_preemptions_total, r.num_preemptions_total)
    &&& read_as(t, zero, s.prefix_cache_hits_total, r.prefix_cache_hits_total)
    &&& read_as(t, zero, s.prefix_cache_queries_total, r.prefix_cache_queries_total)
    &&& read_as(t, zero, s.request_success_total, r.request_success_total)
    &&& read_as(t, zero, s.num_requests_running, r.num_requests_running)
    &&& read_as(t, zero, s.num_requests_waiting, r.num_requests_waiting)
    &&& read_as(t, zero, s.kv_cache_usage_perc, r.kv_cache_usage_perc)
    &&& histogram_read_as(t, zero, s.ttft, r.ttft)
    &&& histogram_read_as(t, zero, s.inter_token, r.inter_token)
    &&& histogram_read_as(t, zero, s.e2e, r.e2e)
    &&& histogram_read_as(t, zero, s.queue_time, r.queue_time)
    &&& histogram_read_as(t, zero, s.req_prompt_tokens, r.req_prompt_tokens)
    &&& histogram_read_as(t, zero, s.req_gen_tokens, r.req_gen_tokens)
    &&& histogram_read_as(t, zero, s.prefill_time, r.prefill_time)
    &&& histogram_read_as(t, zero, s.decode_time, r.decode_time)
}

fn sum_up<T: Arithmetic>(t: &T, zero: T::F, ns: &Vec<Numeral>) -> (r: T::F)
    ensures
        summed(*t, zero, ns@, r),
{
    let mut total = zero;
    let ghost mut steps: Seq<T::F> = seq![zero];
    for i in 0..ns.len()
        invariant
            steps.len() == i + 1,
            steps[0] == zero,
            total == steps.last(),
            forall|j: int|
                0 <= j < i ==> sum_step(*t, steps[j], #[trigger] ns@[j], steps[j + 1]),
    {
        let v = value_of(t, &ns[i]);
        let next = t.plus(total, v);
        proof {
            assert(is_value(*t, ns@[i as int]@, v));
            assert(sum_step(*t, total, ns@[i as int], next));
            let before = steps;
            steps = steps.push(next);
            assert forall|j: int| 0 <= j < i + 1 implies sum_step(
                *t,
                steps[j],
                #[trigger] ns@[j],
                steps[j + 1],
            ) by {
                if j < i {
                    assert(before[j] == steps[j] && before[j + 1] == steps[j + 1]);
                }
            }
        }
        total = next;
    }
    assert(sum_steps(*t, zero, ns@, steps));
    total
}

fn evaluate_reading<T: Arithmetic>(t: &T, zero: T::F, x: &Reading) -> (r: T::F)
    ensures
        read_as(*t, zero, *x, r),
{
    match x {
        Reading::Sum(ns) => sum_up(t, zero, ns),
        Reading::Value(n) => value_of(t, n),
    }
}

fn evaluate_histogram<T: Arithmetic>(t: &T, zero: T::F, h: &HistogramReading) -> (r: Histogram<
    T::F,
>)
    ensures
        histogram_read_as(*t, zero, *h, r),
{
    let count = sum_up(t, zero, &h.count);
    let sum = sum_up(t, zero, &h.sum);
    let mut out = Histogram::new(zero);
    let ghost mut steps: Seq<Seq<(T::F, T::F)>> = seq![out.buckets@];
    for i in 0..h.buckets.len()
        invariant
            steps.len() == i + 1,
            steps[0] == Seq::<(T::F, T::F)>::empty(),
            out.buckets@ == steps.last(),
            forall|j: int|
                0 <= j < i ==> bucket_step(*t, steps[j], #[trigger] h.buckets@[j], steps[j + 1]),
    {
        let ghost was = out.buckets@;
        let le = bound_of(t, &h.buckets[i].0);
        let v = value_of(t, &h.buckets[i].1);
        out.add(t, le, v);
        proof {
            let b = h.buckets@[i as int];
            assert(is_bound(*t, b.0@, le));
            assert(is_value(*t, b.1@, v));
            assert(bucket_step(*t, was, b, out.buckets@));
            let before = steps;
            steps = steps.push(out.buckets@);
            assert forall|j: int| 0 <= j < i + 1 implies bucket_step(
                *t,
                steps[j],
                #[trigger] h.buckets@[j],
                steps[j + 1],
            ) by {
                if j < i {
                    assert(before[j] == steps[j] && before[j + 1] == steps[j + 1]);
                }
            }
        }
    }
    assert(bucket_steps(*t, h.buckets@, steps));
    Histogram { count, sum, buckets: out.buckets }
}

/// The values of what a scrape says; `zero` is the sum of nothing.
pub fn evaluate<T: Arithmetic>(t: &T, zero: T::F, s: Scrape) -> (r: BackendSnapshot<T::F>)
    ensures
        evaluated(*t, zero, s, r),
{
    let process_start_time = match &s.process_start_time {
        Some(n) => Some(value_of(t, n)),
        None => None,
    };
    let engine_awake = match &s.engine_awake {
        Some(n) => {
            let v = value_of(t, n);
            let awake = exactly(t, v, 1);
            Some(awake)
        },
        None => None,
    };
    let generation_tokens_total = evaluate_reading(t, zero, &s.generation_tokens_total);
    let prompt_tokens_total = evaluate_reading(t, zero, &s.prompt_tokens_total);
    let prompt_tokens_cached_total = evaluate_reading(t, zero, &s.prompt_tokens_cached_total);
    let num_preemptions_total = evaluate_reading(t, zero, &s.num_preemptions_total);
    let prefix_cache_hits_total = evaluate_reading(t, zero, &s.prefix_cache_hits_total);
    let prefix_cache_queries_total = evaluate_reading(t, zero, &s.prefix_cache_queries_total);
    let request_success_total = evaluate_reading(t, zero, &s.request_success_total);
    let num_requests_running = evaluate_reading(t, zero, &s.num_requests_running);
    let num_requests_waiting = evaluate_reading(t, zero, &s.num_requests_waiting);
    let kv_cache_usage_perc = evaluate_reading(t, zero, &s.kv_cache_usage_perc);
    let ttft = evaluate_histogram(t, zero, &s.ttft);
    let inter_token = evaluate_histogram(t, zero, &s.inter_token);
    let e2e = evaluate_histogram(t, zero, &s.e2e);
    let queue_time = evaluate_histogram(t, zero, &s.queue_time);
    let req_prompt_tokens = evaluate_histogram(t, zero, &s.req_prompt_tokens);
    let req_gen_tokens = evaluate_histogram(t, zero, &s.req_gen_tokens);
    let prefill_time = evaluate_histogram(t, zero, &s.prefill_time);
    let decode_time = evaluate_histogram(t, zero, &s.decode_time);
    BackendSnapshot {
        reachable: s.reachable,
        error: s.error,
        model_name: s.model_name,
        process_start_time,
        cache_dtype: s.cache_dtype,
        block_size: s.block_size,
        gpu_memory_utilization: s.gpu_memory_utilization,
        num_gpu_blocks: s.num_gpu_blocks,
        enable_prefix_caching: s.enable_prefix_caching,
        engine_awake,
        generation_tokens_total,
        prompt_tokens_total,
        prompt_tokens_cached_total,
        num_preemptions_total,
        prefix_cache_hits_total,
        prefix_cache_queries_total,
        request_success_total,
        num_requests_running,
        num_requests_waiting,
        kv_cache_usage_perc,
        ttft,
        inter_token,
        e2e,
        queue_time,
        req_prompt_tokens,
        req_gen_tokens,
        prefill_time,
        decode_time,
    }
}

/// One row in the request feed.
///
/// Produced from a vLLM request-log line (`--enable-log-requests`), carrying
/// `request_id`, `max_tokens` and optionally `prompt` (vLLM >= 0.11.3). The
/// `path` (endpoint) is inferred from the request-id prefix. `status` is
/// `None` because the request-log line is emitted at arrival, before
/// completion.
#[derive(Clone, Debug)]
pub struct MergedLogEntry<F> {
    /// Epoch seconds (when observed).
    pub t: F,
    pub client: String,
    pub method: String,
    pub path: String,
    pub status: Option<i32>,
    pub request_id: Option<String>,
    pub max_tokens: Option<i64>,
    pub prompt: Option<String>,
    /// Logged prompt length in characters.
    pub prompt_chars: Option<i64>,
}

impl<F> MergedLogEntry<F> {
    pub fn new(t: F) -> (r: MergedLogEntry<F>)
        ensures
            r.t == t,
            r.client@ == "—"@,
            r.method@ == "POST"@,
            r.path@ == Seq::<char>::empty(),
            r.status is None,
            r.request_id is None,
            r.max_tokens is None,
            r.prompt is None,
            r.prompt_chars is None,
    {
        MergedLogEntry {
            t,
            client: "—".to_owned(),
            method: "POST".to_owned(),
            path: String::new(),
            status: None,
            request_id: None,
            max_tokens: None,
            prompt: None,
            prompt_chars: None,
        }
    }

    /// Whether the request is known to have succeeded.
    pub fn ok(&self) -> (r: bool)
        ensures
            r == (self.status matches Some(s) && 200 <= s < 400),
    {
        match self.status {
            Some(s) => 200 <= s && s < 400,
            None => false,
        }
    }
}

fn copy_text(t: &Option<String>) -> (r: Option<String>)
    ensures
        r == *t,
{
    match t {
        Some(s) => Some(s.clone()),
        None => None,
    }
}

impl<F: Copy> MergedLogEntry<F> {
    /// An entry equal to this one.
    pub fn copied(&self) -> (r: MergedLogEntry<F>)
        ensures
            r == *self,
    {
        MergedLogEntry {
            t: self.t,
            client: self.client.clone(),
            method: self.method.clone(),
            path: self.path.clone(),
            status: self.status,
            request_id: copy_text(&self.request_id),
            max_tokens: self.max_tokens,
            prompt: copy_text(&self.prompt),
            prompt_chars: self.prompt_chars,
        }
    }
}

/// A combined metrics + log sample taken at one monotonic instant.
#[derive(Clone, Debug)]
pub struct Snapshot<F> {
    pub monotonic: F,
    pub backend: BackendSnapshot<F>,
    pub merged_log: Vec<MergedLogEntry<F>>,
    pub access_error: Option<String>,
}

impl<F> Snapshot<F> {
    /// A sample without log.
    pub fn new(monotonic: F, backend: BackendSnapshot<F>) -> (r: Snapshot<F>)
        ensures
            r.monotonic == monotonic,
            r.backend == backend,
            r.merged_log@ == Seq::<MergedLogEntry<F>>::empty(),
            r.access_error is None,
    {
        Snapshot { monotonic, backend, merged_log: Vec::new(), access_error: None }
    }
}

/// `r` is the rate at which a counter rose: its growth over the time that has
/// passed. Zero where no time has passed, and where the value fell, as it does
/// when a server restarts.
pub open spec fn is_rate<T: Arithmetic>(
    t: T,
    zero: T::F,
    prev_value: T::F,
    prev_t: T::F,
    cur_value: T::F,
    cur_t: T::F,
    r: T::F,
) -> bool {
    exists|dt: T::F, still: bool, dv: T::F, fell: bool| #[trigger]
        call_ensures(T::minus, (&t, cur_t, prev_t), dt) && #[trigger] call_ensures(
            T::at_most,
            (&t, dt, zero),
            still,
        ) && #[trigger] call_ensures(T::minus, (&t, cur_value, prev_value), dv) && #[trigger]
        call_ensures(T::under, (&t, dv, zero), fell) && if still || fell {
            r == zero
        } else {
            call_ensures(T::ratio, (&t, dv, dt), r)
        }
}

/// `Δvalue/Δt` for a monotonic counter.
///
/// Guards against non-positive `Δt` (returns 0) and counter resets — if the
/// value decreased (server restart), treat the rate as 0 rather than negative.
pub fn compute_rate<T: Arithmetic>(
    t: &T,
    zero: T::F,
    prev_value: T::F,
    prev_t: T::F,
    cur_value: T::F,
    cur_t: T::F,
) -> (r: T::F)
    ensures
        is_rate(*t, zero, prev_value, prev_t, cur_value, cur_t, r),
{
    let dt = t.minus(cur_t, prev_t);
    let still = t.at_most(dt, zero);
    let dv = t.minus(cur_value, prev_value);
    let fell = t.under(dv, zero);
    assert(call_ensures(T::minus, (t, cur_t, prev_t), dt));
    assert(call_ensures(T::at_most, (t, dt, zero), still));
    assert(call_ensures(T::minus, (t, cur_value, prev_value), dv));
    assert(call_ensures(T::under, (t, dv, zero), fell));
    if still || fell {
        zero
    } else {
        t.ratio(dv, dt)
    }
}

/// No time has passed, whatever is answered.
pub open spec fn stands_still<T: Arithmetic>(t: T, zero: T::F, from: T::F, to: T::F) -> bool {
    forall|d: T::F, still: bool| #[trigger]
        call_ensures(T::minus, (&t, to, from), d) && #[trigger] call_ensures(
            T::at_most,
            (&t, d, zero),
            still,
        ) ==> still
}

/// The value fell, whatever is answered.
pub open spec fn falls<T: Arithmetic>(t: T, zero: T::F, from: T::F, to: T::F) -> bool {
    forall|d: T::F, fell: bool| #[trigger]
        call_ensures(T::minus, (&t, to, from), d) && #[trigger] call_ensures(
            T::under,
            (&t, d, zero),
            fell,
        ) ==> fell
}

/// A counter has no rate where no time has passed, and none where it fell.
pub proof fn law_rate_guards<T: Arithmetic>(
    t: T,
    zero: T::F,
    prev_value: T::F,
    prev_t: T::F,
    cur_value: T::F,
    cur_t: T::F,
    r: T::F,
)
    requires
        is_rate(t, zero, prev_value, prev_t, cur_value, cur_t, r),
        stands_still(t, zero, prev_t, cur_t) || falls(t, zero, prev_value, cur_value),
    ensures
        r == zero,
{
}

/// `r` is the mean of what was observed between two states of a histogram;
/// zero where nothing was, or where the sum fell.
pub open spec fn is_recent_average<T: Arithmetic>(
    t: T,
    zero: T::F,
    prev: Histogram<T::F>,
    cur: Histogram<T::F>,
    r: T::F,
) -> bool {
    exists|dcount: T::F, dsum: T::F, none: bool, fell: bool| #[trigger]
        call_ensures(T::minus, (&t, cur.count, prev.count), dcount) && #[trigger] call_ensures(
            T::minus,
            (&t, cur.sum, prev.sum),
            dsum,
        ) && #[trigger] call_ensures(T::at_most, (&t, dcount, zero), none) && #[trigger]
        call_ensures(T::under, (&t, dsum, zero), fell) && if none || fell {
            r == zero
        } else {
            call_ensures(T::ratio, (&t, dsum, dcount), r)
        }
}

/// Recent mean = `Δsum / Δcount` between two scrapes.
pub fn histogram_recent_avg<T: Arithmetic>(
    t: &T,
    zero: T::F,
    prev: &Histogram<T::F>,
    cur: &Histogram<T::F>,
) -> (r: T::F)
    ensures
        is_recent_average(*t, zero, *prev, *cur, r),
{
    let dcount = t.minus(cur.count, prev.count);
    let dsum = t.minus(cur.sum, prev.sum);
    let none = t.at_most(dcount, zero);
    let fell = t.under(dsum, zero);
    assert(call_ensures(T::minus, (t, cur.count, prev.count), dcount));
    assert(call_ensures(T::minus, (t, cur.sum, prev.sum), dsum));
    assert(call_ensures(T::at_most, (t, dcount, zero), none));
    assert(call_ensures(T::under, (t, dsum, zero), fell));
    if none || fell {
        zero
    } else {
        t.ratio(dsum, dcount)
    }
}

/// `r` is the mean of what was observed between two states of a histogram, or
/// the mean of all where nothing was; zero where there is nothing at all.
pub open spec fn is_average<T: Arithmetic>(
    t: T,
    zero: T::F,
    prev: Histogram<T::F>,
    cur: Histogram<T::F>,
    r: T::F,
) -> bool {
    exists|dcount: T::F, dsum: T::F, some: bool, grew: bool, any: bool| #[trigger]
        call_ensures(T::minus, (&t, cur.count, prev.count), dcount) && #[trigger] call_ensures(
            T::minus,
            (&t, cur.sum, prev.sum),
            dsum,
        ) && #[trigger] call_ensures(T::under, (&t, zero, dcount), some) && #[trigger]
        call_ensures(T::at_most, (&t, zero, dsum), grew) && #[trigger] call_ensures(
            T::under,
            (&t, zero, cur.count),
            any,
        ) && if some && grew {
            call_ensures(T::ratio, (&t, dsum, dcount), r)
        } else if any {
            call_ensures(T::ratio, (&t, cur.sum, cur.count), r)
        } else {
            r == zero
        }
}

/// Mean observation, recent if possible, else cumulative.
///
/// Like [`histogram_recent_avg`] but falls back to the all-time mean
/// (`sum/count`) when no new observations landed in the window. Per-request
/// histograms only update when a request *completes*, so a pure recent average
/// would flicker to 0 between completions; this keeps it stable.
pub fn histogram_avg<T: Arithmetic>(
    t: &T,
    zero: T::F,
    prev: &Histogram<T::F>,
    cur: &Histogram<T::F>,
) -> (r: T::F)
    ensures
        is_average(*t, zero, *prev, *cur, r),
{
    let dcount = t.minus(cur.count, prev.count);
    let dsum = t.minus(cur.sum, prev.sum);
    let some = t.under(zero, dcount);
    let grew = t.at_most(zero, dsum);
    let any = t.under(zero, cur.count);
    assert(call_ensures(T::minus, (t, cur.count, prev.count), dcount));
    assert(call_ensures(T::minus, (t, cur.sum, prev.sum), dsum));
    assert(call_ensures(T::under, (t, zero, dcount), some));
    assert(call_ensures(T::at_most, (t, zero, dsum), grew));
    assert(call_ensures(T::under, (t, zero, cur.count), any));
    if some && grew {
        t.ratio(dsum, dcount)
    } else if any {
        t.ratio(cur.sum, cur.count)
    } else {
        zero
    }
}

/// `v` is the count of the bucket whose upper bound is `le`, or `zero`.
pub open spec fn counts<T: Arithmetic>(
    t: T,
    zero: T::F,
    h: Histogram<T::F>,
    le: T::F,
    v: T::F,
) -> bool {
    exists|i: int| #[trigger]
        found_at(t, h.buckets@, le, i) && v == if i < h.buckets@.len() {
            h.buckets@[i].1
        } else {
            zero
        }
}

/// `d` is what the bucket with the given bound gained; a bucket that lost
/// gained nothing.
pub open spec fn gained<T: Arithmetic>(
    t: T,
    zero: T::F,
    prev: Histogram<T::F>,
    cur: Histogram<T::F>,
    le: T::F,
    d: T::F,
) -> bool {
    exists|a: T::F, b: T::F, diff: T::F, lost: bool| #[trigger]
        counts(t, zero, cur, le, a) && #[trigger] counts(t, zero, prev, le, b) && #[trigger]
        call_ensures(T::minus, (&t, a, b), diff) && #[trigger] call_ensures(
            T::under,
            (&t, diff, zero),
            lost,
        ) && d == if lost {
            zero
        } else {
            diff
        }
}

/// `r` lies in the bucket up to `le`, as far along from `lower` as the target
/// is between the counts before and after the bucket. A bucket without a bound
/// gives `lower`, and one that adds nothing its bound.
pub open spec fn within_bucket<T: Arithmetic>(
    t: T,
    zero: T::F,
    target: T::F,
    before: T::F,
    after: T::F,
    lower: T::F,
    le: T::F,
    r: T::F,
) -> bool {
    exists|endless: bool| #[trigger]
        call_ensures(T::is_infinite, (&t, le), endless) && if endless {
            r == lower
        } else {
            exists|span: T::F, flat: bool| #[trigger]
                call_ensures(T::minus, (&t, after, before), span) && #[trigger] call_ensures(
                    T::at_most,
                    (&t, span, zero),
                    flat,
                ) && if flat {
                    r == le
                } else {
                    is_interpolated(t, target, before, span, lower, le, r)
                }
        }
}

/// `r` lies as far from `lower` to `le` as the target is from `before` over
/// `span`.
pub open spec fn is_interpolated<T: Arithmetic>(
    t: T,
    target: T::F,
    before: T::F,
    span: T::F,
    lower: T::F,
    le: T::F,
    r: T::F,
) -> bool {
    exists|part: T::F, frac: T::F, width: T::F, step: T::F| #[trigger]
        call_ensures(T::minus, (&t, target, before), part) && #[trigger] call_ensures(
            T::ratio,
            (&t, part, span),
            frac,
        ) && #[trigger] call_ensures(T::minus, (&t, le, lower), width) && #[trigger] call_ensures(
            T::times,
            (&t, frac, width),
            step,
        ) && call_ensures(T::plus, (&t, lower, step), r)
}

/// `r` is the quantile from bucket `i` on, where the bucket before it gained
/// `before` and reaches up to `lower`. Buckets are cumulative: what a bucket
/// gained is how much was observed up to its bound.
pub open spec fn quantile_from<T: Arithmetic>(
    t: T,
    zero: T::F,
    prev: Histogram<T::F>,
    cur: Histogram<T::F>,
    target: T::F,
    i: int,
    before: T::F,
    lower: T::F,
    r: T::F,
) -> bool
    decreases cur.buckets@.len() - i,
{
    if i < 0 || i >= cur.buckets@.len() {
        r == lower
    } else {
        let le = cur.buckets@[i].0;
        exists|d: T::F, reached: bool, endless: bool| #[trigger]
            gained(t, zero, prev, cur, le, d) && #[trigger] call_ensures(
                T::at_most,
                (&t, target, d),
                reached,
            ) && #[trigger] call_ensures(T::is_infinite, (&t, le), endless) && if reached {
                within_bucket(t, zero, target, before, d, lower, le, r)
            } else {
                quantile_from(
                    t,
                    zero,
                    prev,
                    cur,
                    target,
                    i + 1,
                    d,
                    if endless {
                        lower
                    } else {
                        le
                    },
                    r,
                )
            }
    }
}

/// `r` is the quantile `q` of what was observed between two states of a
/// histogram; zero where nothing was.
pub open spec fn is_quantile<T: Arithmetic>(
    t: T,
    zero: T::F,
    prev: Histogram<T::F>,
    cur: Histogram<T::F>,
    q: T::F,
    r: T::F,
) -> bool {
    if cur.buckets@.len() == 0 {
        r == zero
    } else {
        exists|total: T::F, none: bool, target: T::F| #[trigger]
            call_ensures(T::minus, (&t, cur.count, prev.count), total) && #[trigger] call_ensures(
                T::at_most,
                (&t, total, zero),
                none,
            ) && #[trigger] call_ensures(T::times, (&t, q, total), target) && if none {
                r == zero
            } else {
                quantile_from(t, zero, prev, cur, target, 0, zero, zero, r)
            }
    }
}

fn gain<T: Arithmetic>(
    t: &T,
    zero: T::F,
    prev: &Histogram<T::F>,
    cur: &Histogram<T::F>,
    le: T::F,
) -> (d: T::F)
    ensures
        gained(*t, zero, *prev, *cur, le, d),
{
    let a = cur.get(t, le, zero);
    let b = prev.get(t, le, zero);
    assert(counts(*t, zero, *cur, le, a));
    assert(counts(*t, zero, *prev, le, b));
    let diff = t.minus(a, b);
    let lost = t.under(diff, zero);
    assert(call_ensures(T::minus, (t, a, b), diff));
    assert(call_ensures(T::under, (t, diff, zero), lost));
    if lost {
        zero
    } else {
        diff
    }
}

fn interpolate<T: Arithmetic>(
    t: &T,
    zero: T::F,
    target: T::F,
    before: T::F,
    after: T::F,
    lower: T::F,
    le: T::F,
) -> (r: T::F)
    ensures
        within_bucket(*t, zero, target, before, after, lower, le, r),
{
    let endless = t.is_infinite(le);
    assert(call_ensures(T::is_infinite, (t, le), endless));
    if endless {
        return lower;
    }
    let span = t.minus(after, before);
    let flat = t.at_most(span, zero);
    assert(call_ensures(T::minus, (t, after, before), span));
    assert(call_ensures(T::at_most, (t, span, zero), flat));
    if flat {
        return le;
    }
    let part = t.minus(target, before);
    let frac = t.ratio(part, span);
    let width = t.minus(le, lower);
    let step = t.times(frac, width);
    assert(call_ensures(T::minus, (t, target, before), part));
    assert(call_ensures(T::ratio, (t, part, span), frac));
    assert(call_ensures(T::minus, (t, le, lower), width));
    assert(call_ensures(T::times, (t, frac, width), step));
    t.plus(lower, step)
}

fn walk_buckets<T: Arithmetic>(
    t: &T,
    zero: T::F,
    prev: &Histogram<T::F>,
    cur: &Histogram<T::F>,
    target: T::F,
    i: usize,
    before: T::F,
    lower: T::F,
) -> (r: T::F)
    requires
        i <= cur.buckets@.len(),
    ensures
        quantile_from(*t, zero, *prev, *cur, target, i as int, before, lower, r),
    decreases cur.buckets@.len() - i,
{
    if i >= cur.buckets.len() {
        return lower;
    }
    let le = cur.buckets[i].0;
    let d = gain(t, zero, prev, cur, le);
    let reached = t.at_most(target, d);
    let endless = t.is_infinite(le);
    assert(gained(*t, zero, *prev, *cur, le, d));
    assert(call_ensures(T::at_most, (t, target, d), reached));
    assert(call_ensures(T::is_infinite, (t, le), endless));
    if reached {
        interpolate(t, zero, target, before, d, lower, le)
    } else {
        let next = if endless {
            lower
        } else {
            le
        };
        walk_buckets(t, zero, prev, cur, target, i + 1, d, next)
    }
}

/// Approximate quantile `q` (0..1) of observations in the (prev, cur) window.
///
/// Uses the count deltas of the cumulative buckets and linear interpolation
/// within the containing bucket. Returns 0 if no observations occurred.
pub fn histogram_quantile<T: Arithmetic>(
    t: &T,
    zero: T::F,
    prev: &Histogram<T::F>,
    cur: &Histogram<T::F>,
    q: T::F,
) -> (r: T::F)
    ensures
        is_quantile(*t, zero, *prev, *cur, q, r),
{
    if cur.buckets.len() == 0 {
        return zero;
    }
    let total = t.minus(cur.count, prev.count);
    let none = t.at_most(total, zero);
    let target = t.times(q, total);
    assert(call_ensures(T::minus, (t, cur.count, prev.count), total));
    assert(call_ensures(T::at_most, (t, total, zero), none));
    assert(call_ensures(T::times, (t, q, total), target));
    if none {
        zero
    } else {
        walk_buckets(t, zero, prev, cur, target, 0, zero, zero)
    }
}

/// `r` is the share of prefix-cache queries that hit; zero where there were
/// none.
pub open spec fn is_hit_rate<T: Arithmetic>(
    t: T,
    zero: T::F,
    b: BackendSnapshot<T::F>,
    r: T::F,
) -> bool {
    exists|none: bool| #[trigger]
        call_ensures(T::at_most, (&t, b.prefix_cache_queries_total, zero), none) && if none {
            r == zero
        } else {
            call_ensures(
                T::ratio,
                (&t, b.prefix_cache_hits_total, b.prefix_cache_queries_total),
                r,
            )
        }
}

impl<F: Copy> BackendSnapshot<F> {
    /// Cumulative prefix-cache hit rate as a fraction in [0, 1].
    pub fn prefix_cache_hit_rate<T: Arithmetic<F = F>>(&self, t: &T, zero: F) -> (r: F)
        ensures
            is_hit_rate(*t, zero, *self, r),
    {
        let none = t.at_most(self.prefix_cache_queries_total, zero);
        assert(call_ensures(T::at_most, (t, self.prefix_cache_queries_total, zero), none));
        if none {
            zero
        } else {
            t.ratio(self.prefix_cache_hits_total, self.prefix_cache_queries_total)
        }
    }
}

/// How many series are kept.
pub const SERIES_COUNT: usize = 13;

/// The name of series `i`.
pub open spec fn series_name(i: int) -> Seq<char> {
    if i == 0 {
        "gen_tok_s"@
    } else if i == 1 {
        "prompt_tok_s"@
    } else if i == 2 {
        "running"@
    } else if i == 3 {
        "waiting"@
    } else if i == 4 {
        "kv_cache"@
    } else if i == 5 {
        "ttft"@
    } else if i == 6 {
        "tpot"@
    } else if i == 7 {
        "e2e"@
    } else if i == 8 {
        "queue_time"@
    } else if i == 9 {
        "req_prompt_tok"@
    } else if i == 10 {
        "req_gen_tok"@
    } else if i == 11 {
        "req_prefill"@
    } else {
        "req_decode"@
    }
}

/// Names of the series kept, for iteration.
pub fn series_names() -> (r: Vec<&'static str>)
    ensures
        r@.len() == SERIES_COUNT,
        forall|i: int| 0 <= i < SERIES_COUNT ==> (#[trigger] r@[i])@ == series_name(i),
{
    vec![
        "gen_tok_s",
        "prompt_tok_s",
        "running",
        "waiting",
        "kv_cache",
        "ttft",
        "tpot",
        "e2e",
        "queue_time",
        "req_prompt_tok",
        "req_gen_tok",
        "req_prefill",
        "req_decode",
    ]
}

/// `i` is the first series with that name, or there is none and `i` is their
/// number.
pub open spec fn names_series(name: Seq<char>, i: int) -> bool {
    &&& 0 <= i <= SERIES_COUNT
    &&& forall|j: int| 0 <= j < i ==> #[trigger] series_name(j) != name
    &&& i < SERIES_COUNT ==> series_name(i) == name
}

/// The number of the series with the given name, or the number of series.
pub fn series_index(name: &str) -> (r: usize)
    ensures
        names_series(name@, r as int),
{
    let names = series_names();
    for i in 0..SERIES_COUNT
        invariant
            names@.len() == SERIES_COUNT,
            forall|j: int| 0 <= j < SERIES_COUNT ==> (#[trigger] names@[j])@ == series_name(j),
            forall|j: int| 0 <= j < i ==> #[trigger] series_name(j) != name@,
    {
        if same(names[i], name) {
            return i;
        }
    }
    SERIES_COUNT
}

/// What each series shows of a snapshot: rates and averages against the
/// snapshot before it, where the server was reached both times, and gauges.
pub open spec fn derived_from<T: Arithmetic>(
    t: T,
    zero: T::F,
    prev: Option<Snapshot<T::F>>,
    snap: Snapshot<T::F>,
    d: Seq<T::F>,
) -> bool {
    let v = snap.backend;
    &&& d.len() == SERIES_COUNT
    &&& d[2] == v.num_requests_running
    &&& d[3] == v.num_requests_waiting
    &&& is_product(t, v.kv_cache_usage_perc, 100, d[4])
    &&& if prev is Some && prev.unwrap().backend.reachable && v.reachable {
        let p = prev.unwrap().backend;
        let (pt, ct) = (prev.unwrap().monotonic, snap.monotonic);
        &&& is_rate(
            t,
            zero,
            p.generation_tokens_total,
            pt,
            v.generation_tokens_total,
            ct,
            d[0],
        )
        &&& is_rate(t, zero, p.prompt_tokens_total, pt, v.prompt_tokens_total, ct, d[1])
        &&& is_recent_average(t, zero, p.ttft, v.ttft, d[5])
        &&& is_recent_average(t, zero, p.inter_token, v.inter_token, d[6])
        &&& is_recent_average(t, zero, p.e2e, v.e2e, d[7])
        &&& is_recent_average(t, zero, p.queue_time, v.queue_time, d[8])
        &&& is_average(t, zero, p.req_prompt_tokens, v.req_prompt_tokens, d[9])
        &&& is_average(t, zero, p.req_gen_tokens, v.req_gen_tokens, d[10])
        &&& is_average(t, zero, p.prefill_time, v.prefill_time, d[11])
        &&& is_average(t, zero, p.decode_time, v.decode_time, d[12])
    } else {
        &&& d[0] == zero && d[1] == zero && d[5] == zero && d[6] == zero && d[7] == zero
        &&& d[8] == zero && d[9] == zero && d[10] == zero && d[11] == zero && d[12] == zero
    }
}

/// Time constants (seconds) of the 1/5/15-minute windowed averages.
pub open spec fn window_tau(window: usize) -> i64 {
    if window == 0 {
        60
    } else if window == 1 {
        300
    } else {
        900
    }
}

/// `share` is how much of the moving average over a window a value replaces
/// that has held for `dt`. Decays like the load average of Unix systems.
pub open spec fn is_decay<T: Arithmetic>(t: T, dt: T::F, window: usize, share: T::F) -> bool {
    exists|q: T::F, left: T::F, one: T::F| #[trigger]
        is_quotient(t, dt, window_tau(window), q) && #[trigger] call_ensures(
            T::exp_minus,
            (&t, q),
            left,
        ) && #[trigger] call_ensures(T::whole, (&t, 1i64), one) && call_ensures(
            T::minus,
            (&t, one, left),
            share,
        )
}

fn decay<T: Arithmetic>(t: &T, dt: T::F, window: usize) -> (share: T::F)
    ensures
        is_decay(*t, dt, window, share),
{
    let tau: i64 = if window == 0 {
        60
    } else if window == 1 {
        300
    } else {
        900
    };
    let q = quotient(t, dt, tau);
    assert(is_quotient(*t, dt, window_tau(window), q));
    let left = t.exp_minus(q);
    let one = t.whole(1);
    assert(call_ensures(T::exp_minus, (t, q), left));
    assert(call_ensures(T::whole, (t, 1i64), one));
    t.minus(one, left)
}

/// A moving average once a value has held for `dt`: it moves toward the value
/// by the share that the window gives.
pub open spec fn moved_toward<T: Arithmetic>(
    t: T,
    before: T::F,
    value: T::F,
    dt: T::F,
    window: usize,
    after: T::F,
) -> bool {
    exists|share: T::F, gap: T::F, step: T::F| #[trigger]
        is_decay(t, dt, window, share) && #[trigger] call_ensures(
            T::minus,
            (&t, value, before),
            gap,
        ) && #[trigger] call_ensures(T::times, (&t, share, gap), step) && call_ensures(
            T::plus,
            (&t, before, step),
            after,
        )
}

/// The moving averages of one series after `dt`.
pub open spec fn decayed_to<T: Arithmetic>(
    t: T,
    before: (T::F, T::F, T::F),
    value: T::F,
    dt: T::F,
    after: (T::F, T::F, T::F),
) -> bool {
    &&& moved_toward(t, before.0, value, dt, 0, after.0)
    &&& moved_toward(t, before.1, value, dt, 1, after.1)
    &&& moved_toward(t, before.2, value, dt, 2, after.2)
}

fn move_toward<T: Arithmetic>(
    t: &T,
    before: T::F,
    value: T::F,
    dt: T::F,
    window: usize,
) -> (r: T::F)
    ensures
        moved_toward(*t, before, value, dt, window, r),
{
    let share = decay(t, dt, window);
    let gap = t.minus(value, before);
    let step = t.times(share, gap);
    assert(call_ensures(T::minus, (t, value, before), gap));
    assert(call_ensures(T::times, (t, share, gap), step));
    t.plus(before, step)
}

/// How the moving averages move: the first sample seeds them, a later one
/// folds the values in where time has passed since the last.
pub open spec fn windows_moved<T: Arithmetic>(
    t: T,
    zero: T::F,
    seeded_at: Option<T::F>,
    now: T::F,
    d: Seq<T::F>,
    before: Seq<(T::F, T::F, T::F)>,
    after: Seq<(T::F, T::F, T::F)>,
) -> bool {
    &&& after.len() == SERIES_COUNT
    &&& match seeded_at {
        None => forall|i: int|
            0 <= i < SERIES_COUNT ==> #[trigger] after[i] == (d[i], d[i], d[i]),
        Some(prev_t) => exists|dt: T::F, still: bool| #[trigger]
            call_ensures(T::minus, (&t, now, prev_t), dt) && #[trigger] call_ensures(
                T::at_most,
                (&t, dt, zero),
                still,
            ) && if still {
                after == before
            } else {
                forall|i: int|
                    0 <= i < SERIES_COUNT ==> decayed_to(
                        t,
                        before[i],
                        d[i],
                        dt,
                        #[trigger] after[i],
                    )
            },
    }
}

/// Holds per-series ring buffers and derives rates from raw snapshots.
///
/// Call [`History::update`] with each new [`Snapshot`]; it computes derived
/// quantities against the previous snapshot and appends them to the series.
/// Alongside the raw series it keeps load-average-style exponential moving
/// averages over three time horizons (1/5/15 minutes).
pub struct History<F> {
    maxlen: usize,
    series: Vec<Series<F>>,
    derived: Vec<F>,
    avg: Vec<(F, F, F)>,
    prev: Option<Snapshot<F>>,
    /// When the averages last moved; none before they are seeded.
    avg_t: Option<F>,
    zero: F,
}

impl<F: Copy> History<F> {
    pub closed spec fn wf(&self) -> bool {
        &&& self.maxlen < usize::MAX
        &&& self.series@.len() == SERIES_COUNT
        &&& self.derived@.len() == SERIES_COUNT
        &&& self.avg@.len() == SERIES_COUNT
        &&& forall|i: int|
            0 <= i < SERIES_COUNT ==> (#[trigger] self.series@[i]).wf() && self.series@[i].limit()
                == self.maxlen && self.series@[i]@.len() <= self.maxlen
    }

    /// How many values each series keeps.
    pub closed spec fn limit(&self) -> nat {
        self.maxlen as nat
    }

    /// The value of what was never observed.
    pub closed spec fn nothing(&self) -> F {
        self.zero
    }

    /// The values of series `i`, oldest first.
    pub closed spec fn series_at(&self, i: int) -> Seq<F> {
        self.series@[i]@
    }

    /// The latest values of all series.
    pub closed spec fn latest(&self) -> Seq<F> {
        self.derived@
    }

    /// The 1/5/15-minute averages of all series.
    pub closed spec fn averages(&self) -> Seq<(F, F, F)> {
        self.avg@
    }

    /// The snapshot that the next one is held against.
    pub closed spec fn baseline(&self) -> Option<Snapshot<F>> {
        self.prev
    }

    pub closed spec fn seeded_at(&self) -> Option<F> {
        self.avg_t
    }

    /// Nothing has been recorded.
    pub open spec fn is_blank(&self) -> bool {
        &&& forall|i: int|
            0 <= i < SERIES_COUNT ==> #[trigger] self.series_at(i) == Seq::<F>::empty()
        &&& self.latest() == Seq::new(SERIES_COUNT as nat, |i: int| self.nothing())
        &&& self.averages() == Seq::new(
            SERIES_COUNT as nat,
            |i: int| (self.nothing(), self.nothing(), self.nothing()),
        )
        &&& self.baseline() is None
        &&& self.seeded_at() is None
    }

    /// A history without samples; `zero` is the value of what was never
    /// observed.
    pub fn new(maxlen: usize, zero: F) -> (r: History<F>)
        requires
            maxlen < usize::MAX,
        ensures
            r.wf(),
            r.limit() == maxlen,
            r.nothing() == zero,
            r.is_blank(),
    {
        let mut series: Vec<Series<F>> = Vec::new();
        let mut derived: Vec<F> = Vec::new();
        let mut avg: Vec<(F, F, F)> = Vec::new();
        for i in 0..SERIES_COUNT
            invariant
                maxlen < usize::MAX,
                series@.len() == i,
                derived@.len() == i,
                avg@.len() == i,
                forall|j: int|
                    0 <= j < i ==> (#[trigger] series@[j]).wf() && series@[j].limit() == maxlen
                        && series@[j]@ == Seq::<F>::empty(),
                forall|j: int| 0 <= j < i ==> #[trigger] derived@[j] == zero,
                forall|j: int| 0 <= j < i ==> #[trigger] avg@[j] == (zero, zero, zero),
        {
            series.push(Series::new(maxlen));
            derived.push(zero);
            avg.push((zero, zero, zero));
        }
        let r = History { maxlen, series, derived, avg, prev: None, avg_t: None, zero };
        assert(r.latest() =~= Seq::new(SERIES_COUNT as nat, |i: int| zero));
        assert(r.averages() =~= Seq::new(SERIES_COUNT as nat, |i: int| (zero, zero, zero)));
        assert forall|i: int| 0 <= i < SERIES_COUNT implies #[trigger] r.series_at(i) == Seq::<
            F,
        >::empty() by {
            assert(r.series@[i].wf());
        }
        r
    }

    /// Reset all series, derived values, moving averages, and the
    /// previous-snapshot baseline. Called when the backend kind changes (vLLM
    /// ↔ SGLang) so stale series from the old metric names don't pollute
    /// charts.
    pub fn clear(&mut self)
        requires
            old(self).wf(),
        ensures
            final(self).wf(),
            final(self).limit() == old(self).limit(),
            final(self).nothing() == old(self).nothing(),
            final(self).is_blank(),
    {
        *self = History::new(self.maxlen, self.zero);
    }

    /// The snapshot that was taken in last.
    pub fn last_snapshot(&self) -> (r: Option<&Snapshot<F>>)
        ensures
            match r {
                Some(s) => self.baseline() == Some(*s),
                None => self.baseline() is None,
            },
    {
        match &self.prev {
            Some(s) => Some(s),
            None => None,
        }
    }

    /// The latest value of series `i`.
    pub fn latest_at(&self, i: usize) -> (r: F)
        requires
            self.wf(),
            i < SERIES_COUNT,
        ensures
            r == self.latest()[i as int],
    {
        self.derived[i]
    }

    /// The 1/5/15-minute averages of series `i`.
    pub fn averages_at(&self, i: usize) -> (r: (F, F, F))
        requires
            self.wf(),
            i < SERIES_COUNT,
        ensures
            r == self.averages()[i as int],
    {
        self.avg[i]
    }

    /// The values of series `i`, oldest first.
    pub fn values_at(&self, i: usize) -> (r: Vec<F>)
        requires
            self.wf(),
            i < SERIES_COUNT,
        ensures
            r@ == self.series_at(i as int),
    {
        self.series[i].values()
    }

    /// The value of what was never observed.
    pub fn zero(&self) -> (r: F)
        ensures
            r == self.nothing(),
    {
        self.zero
    }

    /// The series of the given name.
    pub fn series(&self, name: &str) -> (r: Option<&Series<F>>)
        requires
            self.wf(),
        ensures
            match r {
                Some(s) => exists|i: int| #[trigger]
                    names_series(name@, i) && i < SERIES_COUNT && s@ == self.series_at(i),
                None => names_series(name@, SERIES_COUNT as int),
            },
    {
        let i = series_index(name);
        if i < SERIES_COUNT {
            assert(names_series(name@, i as int));
            Some(&self.series[i])
        } else {
            None
        }
    }

    /// The latest value of the series of the given name.
    pub fn derived(&self, name: &str) -> (r: Option<F>)
        requires
            self.wf(),
        ensures
            match r {
                Some(v) => exists|i: int| #[trigger]
                    names_series(name@, i) && i < SERIES_COUNT && v == self.latest()[i],
                None => names_series(name@, SERIES_COUNT as int),
            },
    {
        let i = series_index(name);
        if i < SERIES_COUNT {
            assert(names_series(name@, i as int));
            Some(self.derived[i])
        } else {
            None
        }
    }

    /// The 1/5/15-minute averages of the series of the given name.
    pub fn avg(&self, name: &str) -> (r: Option<(F, F, F)>)
        requires
            self.wf(),
        ensures
            match r {
                Some(v) => exists|i: int| #[trigger]
                    names_series(name@, i) && i < SERIES_COUNT && v == self.averages()[i],
                None => names_series(name@, SERIES_COUNT as int),
            },
    {
        let i = series_index(name);
        if i < SERIES_COUNT {
            assert(names_series(name@, i as int));
            Some(self.avg[i])
        } else {
            None
        }
    }

    /// Appends the latest values to the series.
    fn record(&mut self, d: Vec<F>)
        requires
            old(self).wf(),
            d@.len() == SERIES_COUNT,
        ensures
            final(self).wf(),
            final(self).latest() == d@,
            forall|i: int|
                0 <= i < SERIES_COUNT ==> #[trigger] final(self).series_at(i) == last_of(
                    old(self).series_at(i).push(d@[i]),
                    old(self).limit(),
                ),
            final(self).limit() == old(self).limit(),
            final(self).nothing() == old(self).nothing(),
            final(self).averages() == old(self).averages(),
            final(self).baseline() == old(self).baseline(),
            final(self).seeded_at() == old(self).seeded_at(),
    {
        let ghost start = *self;
        for i in 0..SERIES_COUNT
            invariant
                start == *old(self),
                start.wf(),
                self.wf(),
                d@.len() == SERIES_COUNT,
                self.maxlen == start.maxlen,
                self.derived == start.derived,
                self.avg == start.avg,
                self.prev == start.prev,
                self.avg_t == start.avg_t,
                self.zero == start.zero,
                forall|j: int|
                    0 <= j < i ==> (#[trigger] self.series@[j])@ == last_of(
                        start.series@[j]@.push(d@[j]),
                        start.maxlen as nat,
                    ),
                forall|j: int|
                    i <= j < SERIES_COUNT ==> #[trigger] self.series@[j] == start.series@[j],
        {
            let ghost was = self.series@;
            assert(self.series@[i as int].wf());
            self.series[i].append(d[i]);
            assert forall|j: int| 0 <= j < SERIES_COUNT && j != i implies #[trigger] self.series@[j]
                == was[j] by {}
        }
        self.derived = d;
        proof {
            assert forall|i: int| 0 <= i < SERIES_COUNT implies #[trigger] self.series_at(i)
                == last_of(start.series_at(i).push(d@[i]), start.limit()) by {
                assert(self.series@[i]@ == self.series_at(i));
            }
        }
    }

    /// Fold the latest derived values into the 1/5/15-minute averages.
    ///
    /// The first sample seeds every window to the current value (so gauges
    /// don't spend 15 minutes ramping from zero); subsequent samples decay
    /// toward the new value, which keeps the averaging correct under a
    /// variable poll interval.
    pub fn update_windows<T: Arithmetic<F = F>>(&mut self, t: &T, now: F)
        requires
            old(self).wf(),
        ensures
            final(self).wf(),
            windows_moved(
                *t,
                old(self).nothing(),
                old(self).seeded_at(),
                now,
                old(self).latest(),
                old(self).averages(),
                final(self).averages(),
            ),
            final(self).seeded_at() == Some(now),
            final(self).limit() == old(self).limit(),
            final(self).nothing() == old(self).nothing(),
            final(self).latest() == old(self).latest(),
            final(self).baseline() == old(self).baseline(),
            forall|i: int|
                0 <= i < SERIES_COUNT ==> #[trigger] final(self).series_at(i)
                    == old(self).series_at(i),
    {
        let ghost before = self.avg@;
        let zero = self.zero;
        let dt = match self.avg_t {
            None => None,
            Some(prev_t) => {
                let dt = t.minus(now, prev_t);
                let still = t.at_most(dt, zero);
                assert(call_ensures(T::minus, (t, now, prev_t), dt));
                assert(call_ensures(T::at_most, (t, dt, zero), still));
                if still {
                    self.avg_t = Some(now);
                    return ;
                }
                Some(dt)
            },
        };
        self.avg_t = Some(now);
        let mut after: Vec<(F, F, F)> = Vec::new();
        for i in 0..SERIES_COUNT
            invariant
                self.wf(),
                self.avg@ == before,
                after@.len() == i,
                forall|j: int|
                    0 <= j < i ==> match dt {
                        None => #[trigger] after@[j] == (
                            self.derived@[j],
                            self.derived@[j],
                            self.derived@[j],
                        ),
                        Some(dt) => decayed_to(
                            *t,
                            before[j],
                            self.derived@[j],
                            dt,
                            after@[j],
                        ),
                    },
        {
            let v = self.derived[i];
            match dt {
                None => {
                    after.push((v, v, v));
                },
                Some(dt) => {
                    let (a, b, c) = self.avg[i];
                    let one = move_toward(t, a, v, dt, 0);
                    let five = move_toward(t, b, v, dt, 1);
                    let fifteen = move_toward(t, c, v, dt, 2);
                    assert(decayed_to(*t, before[i as int], v, dt, (one, five, fifteen)));
                    after.push((one, five, fifteen));
                },
            }
        }
        self.avg = after;
    }

    /// Derives the values of a snapshot and appends them to the series.
    pub fn update<T: Arithmetic<F = F>>(&mut self, t: &T, snap: Snapshot<F>)
        requires
            old(self).wf(),
        ensures
            final(self).wf(),
            final(self).limit() == old(self).limit(),
            final(self).nothing() == old(self).nothing(),
            derived_from(
                *t,
                old(self).nothing(),
                old(self).baseline(),
                snap,
                final(self).latest(),
            ),
            forall|i: int|
                0 <= i < SERIES_COUNT ==> #[trigger] final(self).series_at(i) == last_of(
                    old(self).series_at(i).push(final(self).latest()[i]),
                    old(self).limit(),
                ),
            windows_moved(
                *t,
                old(self).nothing(),
                old(self).seeded_at(),
                snap.monotonic,
                final(self).latest(),
                old(self).averages(),
                final(self).averages(),
            ),
            final(self).baseline() == Some(snap),
            final(self).seeded_at() == Some(snap.monotonic),
    {
        let zero = self.zero;
        let v = &snap.backend;
        let mut d: Vec<F> = Vec::new();
        let kv = product(t, v.kv_cache_usage_perc, 100);
        let reached = match &self.prev {
            Some(p) => p.backend.reachable && v.reachable,
            None => false,
        };
        match &self.prev {
            Some(p) if reached => {
                let (pt, ct) = (p.monotonic, snap.monotonic);
                let p = &p.backend;
                d.push(
                    compute_rate(
                        t,
                        zero,
                        p.generation_tokens_total,
                        pt,
                        v.generation_tokens_total,
                        ct,
                    ),
                );
                d.push(
                    compute_rate(t, zero, p.prompt_tokens_total, pt, v.prompt_tokens_total, ct),
                );
                d.push(v.num_requests_running);
                d.push(v.num_requests_waiting);
                d.push(kv);
                d.push(histogram_recent_avg(t, zero, &p.ttft, &v.ttft));
                d.push(histogram_recent_avg(t, zero, &p.inter_token, &v.inter_token));
                d.push(histogram_recent_avg(t, zero, &p.e2e, &v.e2e));
                d.push(histogram_recent_avg(t, zero, &p.queue_time, &v.queue_time));
                d.push(histogram_avg(t, zero, &p.req_prompt_tokens, &v.req_prompt_tokens));
                d.push(histogram_avg(t, zero, &p.req_gen_tokens, &v.req_gen_tokens));
                d.push(histogram_avg(t, zero, &p.prefill_time, &v.prefill_time));
                d.push(histogram_avg(t, zero, &p.decode_time, &v.decode_time));
            },
            _ => {
                d.push(zero);
                d.push(zero);
                d.push(v.num_requests_running);
                d.push(v.num_requests_waiting);
                d.push(kv);
                d.push(zero);
                d.push(zero);
                d.push(zero);
                d.push(zero);
                d.push(zero);
                d.push(zero);
                d.push(zero);
                d.push(zero);
            },
        }
        assert(derived_from(*t, zero, self.prev, snap, d@));
        let now = snap.monotonic;
        self.record(d);
        let ghost recorded = *self;
        self.update_windows(t, now);
        let ghost moved = *self;
        self.prev = Some(snap);
        proof {
            assert forall|i: int| 0 <= i < SERIES_COUNT implies #[trigger] self.series_at(i)
                == last_of(old(self).series_at(i).push(self.latest()[i]), old(self).limit()) by {
                assert(self.series_at(i) == moved.series_at(i));
                assert(moved.series_at(i) == recorded.series_at(i));
            }
        }
    }
}

/// The latest value of a series is the one that was appended, where the series
/// keeps any.
pub proof fn law_latest_is_last<F>(s: Seq<F>, v: F, limit: nat)
    requires
        limit > 0,
    ensures
        last_of(s.push(v), limit).len() > 0,
        last_of(s.push(v), limit).last() == v,
{
}

/// Appending to a series that has lost its oldest values shows the same as
/// appending to the whole and keeping the last ones.
pub proof fn law_ring_keeps_last<F>(s: Seq<F>, v: F, limit: nat)
    ensures
        last_of(last_of(s, limit).push(v), limit) == last_of(s.push(v), limit),
{
    assert(last_of(last_of(s, limit).push(v), limit) =~= last_of(s.push(v), limit));
}

} // verus!
