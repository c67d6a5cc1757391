//! What the collectors read back of the mock server's metrics in numbers: its
//! own state.

use vstd::prelude::*;

use crate::collectors::common;
use crate::collectors::common::{Numeral, NumeralView};
use crate::collectors::scrape;
use crate::collectors::scrape::{HistogramReading, Reading, Scrape};
use crate::collectors::{sglang, vllm};
use crate::exact;
use crate::exposition;
use crate::mock_server::histogram;
use crate::mock_server::histogram::{HistAcc, Spelling};
use crate::mock_server::readback;
use crate::mock_server::render;
use crate::mock_server::state::{BackendState, SglState, VllmState};
use crate::state;
use crate::state::{BackendSnapshot, Histogram};
use crate::text;

verus! {

/// The numbers that values stand for. Those that are `ok` are ordered as their
/// numbers are; an infinite one counts as `top`.
#[verifier::reject_recursive_types(F)]
pub ghost struct Meaning<F> {
    pub ok: spec_fn(F) -> bool,
    pub v: spec_fn(F) -> real,
    pub top: real,
}

/// The value is a finite number.
pub open spec fn is_finite<T: Spelling>(t: T, a: T::F) -> bool {
    &&& forall|r: bool| #[trigger] call_ensures(T::is_nan, (&t, a), r) ==> !r
    &&& forall|r: bool| #[trigger] call_ensures(T::is_infinite, (&t, a), r) ==> !r
}

/// The arithmetic reads what it spells: the texts of finite values, as values
/// and as bounds, and of counts are read as the numbers that they spell; adding
/// nothing changes no number.
pub open spec fn reads_what_it_spells<T: Spelling>(t: T, zero: T::F, m: Meaning<T::F>) -> bool {
    &&& exact::orders(t, m.ok, m.v)
    &&& forall|a: T::F, s: String, r: T::F|
        is_finite(t, a) && #[trigger] call_ensures(T::plain, (&t, a), s) && #[trigger]
        state::is_value(t, common::value_numeral(histogram::with_point(s@)), r) ==> (m.v)(r) == (
        m.v)(a)
    &&& forall|a: T::F, s: String, r: T::F|
        is_finite(t, a) && #[trigger] call_ensures(T::plain, (&t, a), s) && #[trigger]
        state::is_bound(t, common::bound_numeral(s@), r) ==> (m.ok)(r) && (m.v)(r) == (m.v)(a)
    &&& forall|n: u64, r: T::F|
        n <= histogram::LARGEST_COUNT && #[trigger] state::is_value(
            t,
            common::value_numeral(histogram::count_token(n)),
            r,
        ) ==> (m.ok)(r) && (m.v)(r) == n as real
    &&& forall|r: T::F| #[trigger]
        state::is_value(t, NumeralView::Text("1"@), r) ==> (m.v)(r) == 1real
    &&& forall|r: T::F| #[trigger]
        call_ensures(T::infinity, (&t,), r) ==> (m.ok)(r) && (m.v)(r) == m.top
    &&& forall|r: T::F| #[trigger]
        call_ensures(T::whole, (&t, 1i64), r) ==> (m.ok)(r) && (m.v)(r) == 1real
    &&& forall|a: T::F, r: T::F| #[trigger]
        call_ensures(T::plus, (&t, zero, a), r) ==> (m.v)(r) == (m.v)(a)
}

/// The sum of a histogram and its bounds are finite numbers, and the bounds
/// ascend.
pub open spec fn has_numbers<T: Spelling>(t: T, m: Meaning<T::F>, h: HistAcc<T::F>) -> bool {
    &&& h.wf()
    &&& is_finite(t, h.sum)
    &&& forall|i: int|
        0 <= i < h.bounds@.len() ==> is_finite(t, #[trigger] h.bounds@[i]) && (m.v)(h.bounds@[i])
            < m.top
    &&& forall|i: int, j: int|
        0 <= i < j < h.bounds@.len() ==> (m.v)(#[trigger] h.bounds@[i]) < (m.v)(
            #[trigger] h.bounds@[j],
        )
}

/// The number that bucket `i` reaches up to.
pub open spec fn limit_of<F>(m: Meaning<F>, h: HistAcc<F>, i: int) -> real {
    if i < h.bounds@.len() {
        (m.v)(h.bounds@[i])
    } else {
        m.top
    }
}

/// `r` is the histogram in numbers: count, sum, and bucket by bucket the bound
/// and the cumulative count, the last bucket without a bound.
pub open spec fn same_histogram<F>(m: Meaning<F>, h: HistAcc<F>, r: Histogram<F>) -> bool {
    &&& (m.v)(r.count) == h.count as real
    &&& (m.v)(r.sum) == (m.v)(h.sum)
    &&& r.buckets@.len() == h.buckets@.len()
    &&& forall|i: int|
        0 <= i < h.buckets@.len() ==> (m.v)((#[trigger] r.buckets@[i]).0) == limit_of(m, h, i) && (
        m.v)(r.buckets@[i].1) == h.buckets@[i] as real
}

proof fn lemma_single_sum<T: Spelling>(
    t: T,
    zero: T::F,
    m: Meaning<T::F>,
    ns: Seq<Numeral>,
    n: NumeralView,
    r: T::F,
) -> (q: T::F)
    requires
        reads_what_it_spells(t, zero, m),
        scrape::numeral_views(ns) == seq![n],
        state::summed(t, zero, ns, r),
    ensures
        state::is_value(t, n, q),
        (m.v)(r) == (m.v)(q),
{
    let steps = choose|steps: Seq<T::F>| #[trigger]
        state::sum_steps(t, zero, ns, steps) && r == steps.last();
    assert(ns.len() == scrape::numeral_views(ns).len());
    assert(scrape::numeral_views(ns)[0] == ns[0]@);
    assert(state::sum_step(t, steps[0], ns[0], steps[1]));
    choose|q: T::F| #[trigger]
        state::is_value(t, ns[0]@, q) && call_ensures(T::plus, (&t, zero, q), r)
}

proof fn lemma_token_read<T: Spelling>(
    t: T,
    zero: T::F,
    m: Meaning<T::F>,
    a: T::F,
    s: Seq<char>,
    r: T::F,
)
    requires
        reads_what_it_spells(t, zero, m),
        is_finite(t, a),
        histogram::is_token(t, zero, a, s),
        state::is_value(t, common::value_numeral(s), r),
    ensures
        (m.v)(r) == (m.v)(a),
{
    let plain = choose|plain: String| #[trigger]
        call_ensures(T::plain, (&t, a), plain) && s == histogram::with_point(plain@);
    assert(call_ensures(T::plain, (&t, a), plain));
    assert(state::is_value(t, common::value_numeral(histogram::with_point(plain@)), r));
}

proof fn lemma_scalar_read<T: Spelling>(
    t: T,
    zero: T::F,
    m: Meaning<T::F>,
    a: T::F,
    s: Seq<char>,
    x: Reading,
    r: T::F,
)
    requires
        reads_what_it_spells(t, zero, m),
        is_finite(t, a),
        histogram::is_token(t, zero, a, s),
        x@ == readback::reading(s),
        state::read_as(t, zero, x, r),
    ensures
        (m.v)(r) == (m.v)(a),
{
    if let Reading::Sum(ns) = x {
        let q = lemma_single_sum(t, zero, m, ns@, common::value_numeral(s), r);
        lemma_token_read(t, zero, m, a, s, q);
    }
}

proof fn lemma_steps_read<T: Spelling>(
    t: T,
    zero: T::F,
    m: Meaning<T::F>,
    h: HistAcc<T::F>,
    s: HistAcc<String>,
    bs: Seq<(Numeral, Numeral)>,
    steps: Seq<Seq<(T::F, T::F)>>,
    i: int,
)
    requires
        reads_what_it_spells(t, zero, m),
        has_numbers(t, m, h),
        histogram::spelled(t, zero, h, s),
        scrape::bucket_views(bs) == readback::histogram_readback(s).buckets,
        state::bucket_steps(t, bs, steps),
        0 <= i <= bs.len(),
    ensures
        steps[i].len() == i,
        exact::ascend(steps[i], m.ok, m.v),
        forall|j: int|
            0 <= j < i ==> (m.v)((#[trigger] steps[i][j]).0) == limit_of(m, h, j) && (m.v)(
                steps[i][j].1,
            ) == h.buckets@[j] as real,
    decreases i,
{
    let vs = scrape::bucket_views(bs);
    assert(vs.len() == bs.len());
    if i > 0 {
        lemma_steps_read(t, zero, m, h, s, bs, steps, i - 1);
        let k = i - 1;
        let before = steps[k];
        let after = steps[k + 1];
        assert(state::bucket_step(t, before, bs[k], after));
        assert(vs[k] == (bs[k].0@, bs[k].1@));
        let (le, n) = choose|le: T::F, n: T::F| #[trigger]
            state::is_bound(t, bs[k].0@, le) && #[trigger] state::is_value(t, bs[k].1@, n)
                && state::bucket_added(t, before, le, n, after);
        assert(h.buckets@[k] <= h.count);
        assert((m.v)(n) == h.buckets@[k] as real);
        if k < h.bounds@.len() {
            assert(call_ensures(T::plain, (&t, h.bounds@[k]), s.bounds@[k]));
            assert(is_finite(t, h.bounds@[k]));
        }
        assert((m.ok)(le) && (m.v)(le) == limit_of(m, h, k));
        assert forall|j: int| 0 <= j < k implies (m.v)((#[trigger] before[j]).0) < (m.v)(le) by {
            assert((m.v)(before[j].0) == limit_of(m, h, j));
        }
        if exact::has_bound(before, m.v, (m.v)(le)) {
            let j = choose|j: int|
                0 <= j < before.len() && (m.v)((#[trigger] before[j]).0) == (m.v)(le);
            assert((m.v)(before[j].0) < (m.v)(le));
            assert(false);
        }
        let at = exact::lemma_added(t, m.ok, m.v, before, le, n, after);
        if at < before.len() {
            assert((m.v)(le) < (m.v)(before[at].0));
            assert(false);
        }
        exact::law_buckets_strictly_ascend(t, m.ok, m.v, before, le, n, after);
        assert forall|j: int| 0 <= j < i implies (m.v)((#[trigger] after[j]).0) == limit_of(
            m,
            h,
            j,
        ) && (m.v)(after[j].1) == h.buckets@[j] as real by {
            if j < k {
                assert(after[j] == before[j]);
            } else {
                assert(after[j] == (le, n));
            }
        }
    }
}

proof fn lemma_histogram_read<T: Spelling>(
    t: T,
    zero: T::F,
    m: Meaning<T::F>,
    h: HistAcc<T::F>,
    s: HistAcc<String>,
    x: HistogramReading,
    r: Histogram<T::F>,
)
    requires
        reads_what_it_spells(t, zero, m),
        has_numbers(t, m, h),
        histogram::spelled(t, zero, h, s),
        x@ == readback::histogram_readback(s),
        state::histogram_read_as(t, zero, x, r),
    ensures
        same_histogram(m, h, r),
{
    let c = common::value_numeral(histogram::count_token(s.count));
    let p = lemma_single_sum(t, zero, m, x.count@, c, r.count);
    let q = lemma_single_sum(t, zero, m, x.sum@, common::value_numeral(s.sum@), r.sum);
    lemma_token_read(t, zero, m, h.sum, s.sum@, q);
    let steps = choose|steps: Seq<Seq<(T::F, T::F)>>| #[trigger]
        state::bucket_steps(t, x.buckets@, steps) && r.buckets@ == steps.last();
    assert(x@.buckets.len() == x.buckets@.len());
    lemma_steps_read(t, zero, m, h, s, x.buckets@, steps, x.buckets@.len() as int);
}

/// Every number of a mock vLLM server's state is finite.
pub open spec fn vllm_numbers<T: Spelling>(
    t: T,
    m: Meaning<T::F>,
    s: VllmState<T::F>,
) -> bool {
    &&& is_finite(t, s.process_start_time)
    &&& is_finite(t, s.prompt_tokens_total)
    &&& is_finite(t, s.generation_tokens_total)
    &&& is_finite(t, s.prompt_tokens_cached_total)
    &&& is_finite(t, s.num_preemptions_total)
    &&& is_finite(t, s.prefix_cache_hits_total)
    &&& is_finite(t, s.prefix_cache_queries_total)
    &&& is_finite(t, s.request_success_total)
    &&& is_finite(t, s.num_requests_running)
    &&& is_finite(t, s.num_requests_waiting)
    &&& is_finite(t, s.kv_cache_usage_perc)
    &&& has_numbers(t, m, s.ttft)
    &&& has_numbers(t, m, s.inter_token)
    &&& has_numbers(t, m, s.e2e)
    &&& has_numbers(t, m, s.queue_time)
    &&& has_numbers(t, m, s.req_prompt_tokens)
    &&& has_numbers(t, m, s.req_gen_tokens)
    &&& has_numbers(t, m, s.prefill_time)
    &&& has_numbers(t, m, s.decode_time)
}

/// The snapshot holds the state's own numbers.
pub open spec fn vllm_same<F>(
    m: Meaning<F>,
    s: VllmState<F>,
    r: BackendSnapshot<F>,
) -> bool {
    &&& r.reachable && r.error is None
    &&& scrape::text_view(r.model_name) == readback::model_readback(s.model@)
    &&& r.process_start_time matches Some(p) && (m.v)(p) == (m.v)(s.process_start_time)
    &&& r.engine_awake == Some(true)
    &&& (m.v)(r.prompt_tokens_total) == (m.v)(s.prompt_tokens_total)
    &&& (m.v)(r.generation_tokens_total) == (m.v)(s.generation_tokens_total)
    &&& (m.v)(r.prompt_tokens_cached_total) == (m.v)(s.prompt_tokens_cached_total)
    &&& (m.v)(r.num_preemptions_total) == (m.v)(s.num_preemptions_total)
    &&& (m.v)(r.prefix_cache_hits_total) == (m.v)(s.prefix_cache_hits_total)
    &&& (m.v)(r.prefix_cache_queries_total) == (m.v)(s.prefix_cache_queries_total)
    &&& (m.v)(r.request_success_total) == (m.v)(s.request_success_total)
    &&& (m.v)(r.num_requests_running) == (m.v)(s.num_requests_running)
    &&& (m.v)(r.num_requests_waiting) == (m.v)(s.num_requests_waiting)
    &&& (m.v)(r.kv_cache_usage_perc) == (m.v)(s.kv_cache_usage_perc)
    &&& same_histogram(m, s.ttft, r.ttft)
    &&& same_histogram(m, s.inter_token, r.inter_token)
    &&& same_histogram(m, s.e2e, r.e2e)
    &&& same_histogram(m, s.queue_time, r.queue_time)
    &&& same_histogram(m, s.req_prompt_tokens, r.req_prompt_tokens)
    &&& same_histogram(m, s.req_gen_tokens, r.req_gen_tokens)
    &&& same_histogram(m, s.prefill_time, r.prefill_time)
    &&& same_histogram(m, s.decode_time, r.decode_time)
}

/// Reading back what the mock vLLM server writes gives its state in numbers:
/// its start time, counters and gauges, and each histogram bucket by bucket.
pub proof fn law_vllm_numbers_read_back<T: Spelling>(
    t: T,
    zero: T::F,
    m: Meaning<T::F>,
    s: VllmState<T::F>,
    x: VllmState<String>,
    p: Scrape,
    r: BackendSnapshot<T::F>,
)
    requires
        reads_what_it_spells(t, zero, m),
        readback::spells_tokens(t),
        exposition::is_plain(s.model@),
        vllm_numbers(t, m, s),
        VllmState::spelled(t, zero, s, x),
        p@ == vllm::scrape_of(scrape::samples(render::metrics_text(BackendState::Vllm(x)))),
        state::evaluated(t, zero, p, r),
    ensures
        vllm_same(m, s, r),
{
    readback::law_vllm_metrics_read_back(t, zero, s, x);
    let start = r.process_start_time.unwrap();
    lemma_token_read(t, zero, m, s.process_start_time, x.process_start_time@, start);
    lemma_awake(t, zero, m, p.engine_awake, r.engine_awake);
    lemma_scalar_read(
        t,
        zero,
        m,
        s.prompt_tokens_total,
        x.prompt_tokens_total@,
        p.prompt_tokens_total,
        r.prompt_tokens_total,
    );
    lemma_scalar_read(
        t,
        zero,
        m,
        s.generation_tokens_total,
        x.generation_tokens_total@,
        p.generation_tokens_total,
        r.generation_tokens_total,
    );
    lemma_scalar_read(
        t,
        zero,
        m,
        s.prompt_tokens_cached_total,
        x.prompt_tokens_cached_total@,
        p.prompt_tokens_cached_total,
        r.prompt_tokens_cached_total,
    );
    lemma_scalar_read(
        t,
        zero,
        m,
        s.num_preemptions_total,
        x.num_preemptions_total@,
        p.num_preemptions_total,
        r.num_preemptions_total,
    );
    lemma_scalar_read(
        t,
        zero,
        m,
        s.prefix_cache_hits_total,
        x.prefix_cache_hits_total@,
        p.prefix_cache_hits_total,
        r.prefix_cache_hits_total,
    );
    lemma_scalar_read(
        t,
        zero,
        m,
        s.prefix_cache_queries_total,
        x.prefix_cache_queries_total@,
        p.prefix_cache_queries_total,
        r.prefix_cache_queries_total,
    );
    lemma_scalar_read(
        t,
        zero,
        m,
        s.request_success_total,
        x.request_success_total@,
        p.request_success_total,
        r.request_success_total,
    );
    lemma_scalar_read(
        t,
        zero,
        m,
        s.num_requests_running,
        x.num_requests_running@,
        p.num_requests_running,
        r.num_requests_running,
    );
    lemma_scalar_read(
        t,
        zero,
        m,
        s.num_requests_waiting,
        x.num_requests_waiting@,
        p.num_requests_waiting,
        r.num_requests_waiting,
    );
    lemma_scalar_read(
        t,
        zero,
        m,
        s.kv_cache_usage_perc,
        x.kv_cache_usage_perc@,
        p.kv_cache_usage_perc,
        r.kv_cache_usage_perc,
    );
    lemma_histogram_read(t, zero, m, s.ttft, x.ttft, p.ttft, r.ttft);
    lemma_histogram_read(t, zero, m, s.inter_token, x.inter_token, p.inter_token, r.inter_token);
    lemma_histogram_read(t, zero, m, s.e2e, x.e2e, p.e2e, r.e2e);
    lemma_histogram_read(t, zero, m, s.queue_time, x.queue_time, p.queue_time, r.queue_time);
    lemma_histogram_read(
        t,
        zero,
        m,
        s.req_prompt_tokens,
        x.req_prompt_tokens,
        p.req_prompt_tokens,
        r.req_prompt_tokens,
    );
    lemma_histogram_read(
        t,
        zero,
        m,
        s.req_gen_tokens,
        x.req_gen_tokens,
        p.req_gen_tokens,
        r.req_gen_tokens,
    );
    lemma_histogram_read(
        t,
        zero,
        m,
        s.prefill_time,
        x.prefill_time,
        p.prefill_time,
        r.prefill_time,
    );
    lemma_histogram_read(t, zero, m, s.decode_time, x.decode_time, p.decode_time, r.decode_time);
}

proof fn lemma_awake<T: Spelling>(
    t: T,
    zero: T::F,
    m: Meaning<T::F>,
    n: Option<Numeral>,
    r: Option<bool>,
)
    requires
        reads_what_it_spells(t, zero, m),
        scrape::numeral_view(n) == Some(common::value_numeral("1.0"@)),
        state::awake_read_as(t, n, r),
    ensures
        r == Some(true),
{
    reveal_strlit("1.0");
    reveal_strlit(".0");
    assert(text::decimal(1) =~= seq!['1']);
    assert(histogram::count_token(1) =~= "1.0"@);
    let x = n.unwrap();
    let awake = r.unwrap();
    let q = choose|q: T::F| #[trigger]
        state::is_value(t, x@, q) && state::is_exactly(t, q, 1, awake);
    assert(state::is_value(t, common::value_numeral(histogram::count_token(1)), q));
    let k = choose|k: T::F| #[trigger]
        call_ensures(T::whole, (&t, 1i64), k) && call_ensures(T::equal, (&t, q, k), awake);
}

/// Every number that a mock SGLang server's state shows is finite.
pub open spec fn sgl_numbers<T: Spelling>(t: T, m: Meaning<T::F>, s: SglState<T::F>) -> bool {
    &&& is_finite(t, s.process_start_time)
    &&& is_finite(t, s.cache_hit_rate)
    &&& is_finite(t, s.prompt_tokens_total)
    &&& is_finite(t, s.generation_tokens_total)
    &&& is_finite(t, s.num_running_reqs)
    &&& is_finite(t, s.num_queue_reqs)
    &&& has_numbers(t, m, s.ttft)
    &&& has_numbers(t, m, s.e2e)
    &&& has_numbers(t, m, s.tpot)
}

/// The snapshot holds the state's own numbers of the series that are collected;
/// the hit rate stands as hits of one query.
pub open spec fn sgl_same<F>(m: Meaning<F>, s: SglState<F>, r: BackendSnapshot<F>) -> bool {
    &&& r.reachable && r.error is None
    &&& scrape::text_view(r.model_name) == readback::model_readback(s.model@)
    &&& r.process_start_time matches Some(p) && (m.v)(p) == (m.v)(s.process_start_time)
    &&& (m.v)(r.prefix_cache_hits_total) == (m.v)(s.cache_hit_rate)
    &&& (m.v)(r.prefix_cache_queries_total) == 1real
    &&& (m.v)(r.prompt_tokens_total) == (m.v)(s.prompt_tokens_total)
    &&& (m.v)(r.generation_tokens_total) == (m.v)(s.generation_tokens_total)
    &&& (m.v)(r.num_requests_running) == (m.v)(s.num_running_reqs)
    &&& (m.v)(r.num_requests_waiting) == (m.v)(s.num_queue_reqs)
    &&& same_histogram(m, s.ttft, r.ttft)
    &&& same_histogram(m, s.e2e, r.e2e)
    &&& same_histogram(m, s.tpot, r.inter_token)
}

/// Reading back what the mock SGLang server writes gives its state in numbers,
/// as far as its series are collected.
pub proof fn law_sgl_numbers_read_back<T: Spelling>(
    t: T,
    zero: T::F,
    m: Meaning<T::F>,
    s: SglState<T::F>,
    x: SglState<String>,
    p: Scrape,
    r: BackendSnapshot<T::F>,
)
    requires
        reads_what_it_spells(t, zero, m),
        readback::spells_tokens(t),
        exposition::is_plain(s.model@),
        sgl_numbers(t, m, s),
        SglState::spelled(t, zero, s, x),
        p@ == sglang::scrape_of(scrape::samples(render::metrics_text(BackendState::Sgl(x)))),
        state::evaluated(t, zero, p, r),
    ensures
        sgl_same(m, s, r),
{
    readback::law_sgl_metrics_read_back(t, zero, s, x);
    let start = r.process_start_time.unwrap();
    lemma_token_read(t, zero, m, s.process_start_time, x.process_start_time@, start);
    lemma_token_read(
        t,
        zero,
        m,
        s.cache_hit_rate,
        x.cache_hit_rate@,
        r.prefix_cache_hits_total,
    );
    lemma_scalar_read(
        t,
        zero,
        m,
        s.prompt_tokens_total,
        x.prompt_tokens_total@,
        p.prompt_tokens_total,
        r.prompt_tokens_total,
    );
    lemma_scalar_read(
        t,
        zero,
        m,
        s.generation_tokens_total,
        x.generation_tokens_total@,
        p.generation_tokens_total,
        r.generation_tokens_total,
    );
    lemma_scalar_read(
        t,
        zero,
        m,
        s.num_running_reqs,
        x.num_running_reqs@,
        p.num_requests_running,
        r.num_requests_running,
    );
    lemma_scalar_read(
        t,
        zero,
        m,
        s.num_queue_reqs,
        x.num_queue_reqs@,
        p.num_requests_waiting,
        r.num_requests_waiting,
    );
    lemma_histogram_read(t, zero, m, s.ttft, x.ttft, p.ttft, r.ttft);
    lemma_histogram_read(t, zero, m, s.e2e, x.e2e, p.e2e, r.e2e);
    lemma_histogram_read(t, zero, m, s.tpot, x.tpot, p.inter_token, r.inter_token);
}

} // verus!
