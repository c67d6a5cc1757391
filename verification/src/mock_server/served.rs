//! What simulated requests do to the numbers that the mock server serves.

use vstd::prelude::*;

use crate::collectors::scrape;
use crate::collectors::scrape::Scrape;
use crate::collectors::{sglang, vllm};
use crate::exact;
use crate::exposition;
use crate::mock_server::config::MockServerConfig;
use crate::mock_server::histogram;
use crate::mock_server::histogram::{HistAcc, Spelling};
use crate::mock_server::numbers;
use crate::mock_server::numbers::Meaning;
use crate::mock_server::readback;
use crate::mock_server::render;
use crate::mock_server::rng;
use crate::mock_server::simulate;
use crate::mock_server::simulate::Chance;
use crate::mock_server::state::{BackendState, SglRequest, SglState, VllmRequest, VllmState};
use crate::state;
use crate::state::{Arithmetic, BackendSnapshot};

verus! {

pub open spec fn max(a: real, b: real) -> real {
    if a >= b {
        a
    } else {
        b
    }
}

pub open spec fn within(x: real, lo: real, hi: real) -> real {
    if x < lo {
        lo
    } else if x > hi {
        hi
    } else {
        x
    }
}

/// The arithmetic is exact, and the larger of two values is the larger number.
pub open spec fn computes<T: Arithmetic>(t: T, v: spec_fn(T::F) -> real, zero: T::F) -> bool {
    &&& exact::is_exact(t, v)
    &&& v(zero) == 0real
    &&& forall|a: T::F, b: T::F, r: T::F| #[trigger]
        call_ensures(T::larger, (&t, a, b), r) ==> v(r) == max(v(a), v(b))
}

/// A count that one more was counted in; it stays where doubles stop counting.
pub open spec fn one_more(before: u64, after: u64) -> bool {
    after == if before < 0x20_0000_0000_0000 {
        before + 1
    } else {
        before as int
    }
}

/// The histogram took in the one value `x`: it is in the count and in the sum,
/// and in just those buckets whose bound is not below it.
pub open spec fn took<F>(
    v: spec_fn(F) -> real,
    before: HistAcc<F>,
    after: HistAcc<F>,
    x: real,
) -> bool {
    &&& after.bounds == before.bounds
    &&& v(after.sum) == v(before.sum) + x
    &&& one_more(before.count, after.count)
    &&& forall|i: int|
        0 <= i < before.bounds@.len() ==> if x <= v(before.bounds@[i]) {
            one_more(before.buckets@[i], #[trigger] after.buckets@[i])
        } else {
            after.buckets@[i] == before.buckets@[i]
        }
}

pub proof fn lemma_took<T: Arithmetic>(
    t: T,
    v: spec_fn(T::F) -> real,
    zero: T::F,
    before: HistAcc<T::F>,
    after: HistAcc<T::F>,
    value: T::F,
)
    requires
        computes(t, v, zero),
        histogram::observed(t, zero, before, after, value),
        v(value) >= 0real,
    ensures
        took(v, before, after, v(value)),
{
    let x = choose|x: T::F| #[trigger]
        call_ensures(T::larger, (&t, value, zero), x) && histogram::taken_in(t, before, after, x);
    assert(v(x) == v(value));
    assert forall|i: int| 0 <= i < before.bounds@.len() implies if v(value) <= v(
        before.bounds@[i],
    ) {
        one_more(before.buckets@[i], #[trigger] after.buckets@[i])
    } else {
        after.buckets@[i] == before.buckets@[i]
    } by {
        assert(histogram::counted(
            t,
            x,
            before.bounds@[i],
            before.buckets@[i],
            after.buckets@[i],
        ));
    }
}

proof fn lemma_fraction<T: Arithmetic>(
    t: T,
    v: spec_fn(T::F) -> real,
    zero: T::F,
    n: i64,
    d: i64,
    r: T::F,
)
    requires
        computes(t, v, zero),
        d != 0,
        state::is_fraction(t, n, d, r),
    ensures
        v(r) == (n as real) / (d as real),
{
    assert(d as real != 0real);
}

proof fn lemma_quotient<T: Arithmetic>(
    t: T,
    v: spec_fn(T::F) -> real,
    zero: T::F,
    a: T::F,
    n: i64,
    r: T::F,
)
    requires
        computes(t, v, zero),
        n != 0,
        state::is_quotient(t, a, n, r),
    ensures
        v(r) == v(a) / (n as real),
{
    assert(n as real != 0real);
}

/// Mean and deviation of a draw.
pub open spec fn draws<F>(v: spec_fn(F) -> real, d: (F, F), mean: real, std: real) -> bool {
    v(d.0) == mean && v(d.1) == std
}

proof fn lemma_profile<T: Arithmetic>(
    t: T,
    v: spec_fn(T::F) -> real,
    zero: T::F,
    mean: i64,
    std: i64,
    d: (T::F, T::F),
)
    requires
        computes(t, v, zero),
        simulate::is_profile(t, mean, std, d),
    ensures
        draws(v, d, (mean as real) / 100real, (std as real) / 100real),
{
    lemma_fraction(t, v, zero, mean, 100, d.0);
    lemma_fraction(t, v, zero, std, 100, d.1);
}

/// What every request is drawn from: 256 prompt tokens, give or take 128; the
/// configured number of output tokens; the configured milliseconds to the first
/// token and between tokens, in seconds.
pub open spec fn common_draws<F>(
    v: spec_fn(F) -> real,
    c: MockServerConfig<F>,
    ds: Seq<(F, F)>,
) -> bool {
    &&& draws(v, ds[0], 256real, 128real)
    &&& draws(v, ds[1], c.output_tokens as real, v(c.output_tokens_std))
    &&& draws(v, ds[2], v(c.ttft_ms) / 1000real, v(c.ttft_ms_std) / 1000real)
    &&& draws(v, ds[3], v(c.itl_ms) / 1000real, v(c.itl_ms_std) / 1000real)
}

proof fn lemma_common_draws<T: Arithmetic>(
    t: T,
    v: spec_fn(T::F) -> real,
    zero: T::F,
    c: MockServerConfig<T::F>,
    ds: Seq<(T::F, T::F)>,
)
    requires
        computes(t, v, zero),
        simulate::are_common(t, c, ds),
    ensures
        common_draws(v, c, ds),
{
    lemma_profile(t, v, zero, 256_00, 128_00, ds[0]);
    lemma_quotient(t, v, zero, c.ttft_ms, 1_000, ds[2].0);
    lemma_quotient(t, v, zero, c.ttft_ms_std, 1_000, ds[2].1);
    lemma_quotient(t, v, zero, c.itl_ms, 1_000, ds[3].0);
    lemma_quotient(t, v, zero, c.itl_ms_std, 1_000, ds[3].1);
}

/// Where a draw does not deviate it is its mean; none is below zero.
pub open spec fn is_draw<F>(v: spec_fn(F) -> real, d: (F, F), x: F) -> bool {
    &&& v(x) >= 0real
    &&& v(d.1) <= 0real ==> v(x) == max(v(d.0), 0real)
}

proof fn lemma_draws<T: Chance>(
    t: T,
    v: spec_fn(T::F) -> real,
    zero: T::F,
    g: u64,
    ds: Seq<(T::F, T::F)>,
    h: u64,
    d: Seq<T::F>,
)
    requires
        computes(t, v, zero),
        simulate::are_normals(t, zero, g, ds, h, d),
    ensures
        d.len() == ds.len(),
        forall|i: int| 0 <= i < d.len() ==> is_draw(v, ds[i], #[trigger] d[i]),
    decreases ds.len(),
{
    if ds.len() > 0 {
        let mid = choose|mid: u64| #[trigger]
            simulate::is_normal(t, zero, mid, ds.last().0, ds.last().1, h, d.last())
                && simulate::are_normals(t, zero, g, ds.drop_last(), mid, d.drop_last());
        lemma_draws(t, v, zero, g, ds.drop_last(), mid, d.drop_last());
        lemma_draw(t, v, zero, mid, ds.last(), h, d.last());
        assert forall|i: int| 0 <= i < d.len() implies is_draw(v, ds[i], #[trigger] d[i]) by {
            if i < d.len() - 1 {
                assert(d.drop_last()[i] == d[i]);
                assert(ds.drop_last()[i] == ds[i]);
            }
        }
    }
}

proof fn lemma_draw<T: Chance>(
    t: T,
    v: spec_fn(T::F) -> real,
    zero: T::F,
    g: u64,
    d: (T::F, T::F),
    h: u64,
    x: T::F,
)
    requires
        computes(t, v, zero),
        simulate::is_normal(t, zero, g, d.0, d.1, h, x),
    ensures
        is_draw(v, d, x),
{
    let sharp = choose|sharp: bool| #[trigger]
        call_ensures(T::at_most, (&t, d.1, zero), sharp) && if sharp {
            h == g && call_ensures(T::larger, (&t, d.0, zero), x)
        } else {
            &&& h == rng::stirred(rng::stirred(g))
            &&& simulate::is_deviated(
                t,
                zero,
                rng::drawn(rng::stirred(g)),
                rng::drawn(h),
                d.0,
                d.1,
                x,
            )
        };
    if !sharp {
        assert(exists|a: T::F| #[trigger] call_ensures(T::larger, (&t, a, zero), x));
    }
}

/// The number of tokens that a draw gives: its whole part, at least one.
pub open spec fn tokens_of<T: Arithmetic>(t: T, x: T::F, n: u32) -> bool {
    exists|k: i64| #[trigger]
        call_ensures(T::truncated, (&t, x), k) && (1 <= k <= u32::MAX ==> n == k) && (k < 1 ==> n
            == 1) && n >= 1
}

/// The whole number next to a draw, not below zero.
pub open spec fn gauge_of<T: Chance>(t: T, v: spec_fn(T::F) -> real, x: T::F, g: T::F) -> bool {
    exists|k: T::F| #[trigger]
        call_ensures(T::nearest, (&t, x), k) && v(g) == max(v(k), 0real)
}

/// What the prefill of a prompt takes: a tenth of a millisecond for each token,
/// at least one millisecond.
pub open spec fn prefill_seconds(prompt: real) -> real {
    max(prompt / 10000real, 1real / 1000real)
}

/// What one request of `p` prompt and `o` output tokens, whose draws are `d`,
/// does to the numbers of a mock vLLM server: every counter grows by its own
/// amount, every gauge is set, and every histogram takes in its own time or
/// size. The whole takes as long as its parts: the first token, the prefill and
/// the decoding, which takes the time between tokens for each output token.
pub open spec fn vllm_served<T: Chance>(
    t: T,
    v: spec_fn(T::F) -> real,
    before: VllmState<T::F>,
    after: VllmState<T::F>,
    d: Seq<T::F>,
    p: real,
    o: real,
) -> bool {
    &&& after.model == before.model
    &&& after.process_start_time == before.process_start_time
    &&& after.num_preemptions_total == before.num_preemptions_total
    &&& v(after.prompt_tokens_total) == v(before.prompt_tokens_total) + p
    &&& v(after.generation_tokens_total) == v(before.generation_tokens_total) + o
    &&& v(after.prefix_cache_queries_total) == v(before.prefix_cache_queries_total) + p
    &&& v(after.prefix_cache_hits_total) == v(before.prefix_cache_hits_total) + p * 3real / 10real
    &&& v(after.prompt_tokens_cached_total) == v(before.prompt_tokens_cached_total) + p * 3real
        / 10real
    &&& v(after.request_success_total) == v(before.request_success_total) + 1real
    &&& took(v, before.req_prompt_tokens, after.req_prompt_tokens, p)
    &&& took(v, before.req_gen_tokens, after.req_gen_tokens, o)
    &&& took(v, before.ttft, after.ttft, v(d[2]))
    &&& took(v, before.inter_token, after.inter_token, v(d[3]))
    &&& took(v, before.queue_time, after.queue_time, v(d[4]))
    &&& took(v, before.prefill_time, after.prefill_time, prefill_seconds(p))
    &&& took(v, before.decode_time, after.decode_time, v(d[3]) * o)
    &&& took(v, before.e2e, after.e2e, v(d[2]) + prefill_seconds(p) + v(d[3]) * o)
    &&& v(after.kv_cache_usage_perc) == within(
        v(before.kv_cache_usage_perc) + v(d[5]),
        0real,
        95real / 100real,
    )
    &&& gauge_of(t, v, d[6], after.num_requests_running)
    &&& gauge_of(t, v, d[7], after.num_requests_waiting)
}

/// One simulated request of a mock vLLM server counts what it says: it is drawn
/// from the configured profile in a fixed order, and the tokens that are given
/// back are those that the counters grow by.
pub proof fn law_vllm_request_is_counted<T: Chance>(
    t: T,
    v: spec_fn(T::F) -> real,
    zero: T::F,
    g: u64,
    h: u64,
    before: VllmState<T::F>,
    after: VllmState<T::F>,
    c: MockServerConfig<T::F>,
    n: (u32, u32),
) -> (r: (Seq<(T::F, T::F)>, Seq<T::F>))
    requires
        computes(t, v, zero),
        simulate::vllm_simulated(t, zero, g, h, before, after, c, n),
    ensures
        r.0.len() == 8 && r.1.len() == 8,
        simulate::are_normals(t, zero, g, r.0, h, r.1),
        common_draws(v, c, r.0),
        draws(v, r.0[4], 2real / 10real, 1real / 10real),
        draws(v, r.0[5], 5real / 100real, 3real / 100real),
        draws(v, r.0[6], 2real, 1real),
        draws(v, r.0[7], 1real, 1real),
        forall|i: int| 0 <= i < 8 ==> is_draw(v, r.0[i], #[trigger] r.1[i]),
        tokens_of(t, r.1[0], n.0),
        tokens_of(t, r.1[1], n.1),
        vllm_served(t, v, before, after, r.1, n.0 as real, n.1 as real),
{
    let (ds, d, r) = choose|ds: Seq<(T::F, T::F)>, d: Seq<T::F>, r: VllmRequest<T::F>| #[trigger]
        simulate::are_vllm_profiles(t, c, ds) && #[trigger] simulate::are_normals(
            t,
            zero,
            g,
            ds,
            h,
            d,
        ) && #[trigger] simulate::is_vllm_request(
            t,
            zero,
            before.kv_cache_usage_perc,
            d,
            n,
            r,
        ) && VllmState::moved(t, zero, before, after, r);
    lemma_common_draws(t, v, zero, c, ds);
    lemma_profile(t, v, zero, 20, 10, ds[4]);
    lemma_profile(t, v, zero, 5, 3, ds[5]);
    lemma_profile(t, v, zero, 2_00, 1_00, ds[6]);
    lemma_profile(t, v, zero, 1_00, 1_00, ds[7]);
    lemma_draws(t, v, zero, g, ds, h, d);
    assert(is_draw(v, ds[2], d[2]) && is_draw(v, ds[3], d[3]) && is_draw(v, ds[4], d[4]));
    let p = n.0 as real;
    let o = n.1 as real;
    lemma_tokens(t, d[0], n.0);
    lemma_tokens(t, d[1], n.1);
    assert(v(r.prompt_tokens) == p && v(r.output_tokens) == o);
    lemma_prefill(t, v, zero, r.prompt_tokens, r.prefill_time);
    assert(v(r.decode_time) == v(d[3]) * o);
    assert(v(d[3]) * o >= 0real) by (nonlinear_arith)
        requires
            v(d[3]) >= 0real,
            o >= 0real,
    ;
    assert(v(r.e2e) == v(d[2]) + prefill_seconds(p) + v(d[3]) * o);
    lemma_took(t, v, zero, before.ttft, after.ttft, r.ttft);
    lemma_took(t, v, zero, before.inter_token, after.inter_token, r.inter_token);
    lemma_took(t, v, zero, before.e2e, after.e2e, r.e2e);
    lemma_took(t, v, zero, before.queue_time, after.queue_time, r.queue_time);
    lemma_took(t, v, zero, before.prefill_time, after.prefill_time, r.prefill_time);
    lemma_took(t, v, zero, before.decode_time, after.decode_time, r.decode_time);
    lemma_took(t, v, zero, before.req_prompt_tokens, after.req_prompt_tokens, r.prompt_tokens);
    lemma_took(t, v, zero, before.req_gen_tokens, after.req_gen_tokens, r.output_tokens);
    lemma_grown(t, v, zero, before.kv_cache_usage_perc, d[5], after.kv_cache_usage_perc);
    let share = choose|share: T::F| #[trigger]
        state::is_fraction(t, 3, 10, share) && call_ensures(
            T::times,
            (&t, r.prompt_tokens, share),
            r.cached_tokens,
        );
    lemma_fraction(t, v, zero, 3, 10, share);
    assert(p * (3real / 10real) == p * 3real / 10real) by (nonlinear_arith);
    assert(gauge_of(t, v, d[6], after.num_requests_running));
    assert(gauge_of(t, v, d[7], after.num_requests_waiting));
    (ds, d)
}

proof fn lemma_tokens<T: Arithmetic>(t: T, x: T::F, n: u32)
    requires
        simulate::is_tokens(t, x, n),
    ensures
        tokens_of(t, x, n),
{
}

proof fn lemma_prefill<T: Arithmetic>(
    t: T,
    v: spec_fn(T::F) -> real,
    zero: T::F,
    prompt: T::F,
    r: T::F,
)
    requires
        computes(t, v, zero),
        simulate::is_prefill(t, prompt, r),
    ensures
        v(r) == prefill_seconds(v(prompt)),
        v(r) >= 0real,
{
    let (rate, time, least) = choose|rate: T::F, time: T::F, least: T::F| #[trigger]
        state::is_fraction(t, 1, 10_000, rate) && #[trigger] call_ensures(
            T::times,
            (&t, prompt, rate),
            time,
        ) && #[trigger] state::is_fraction(t, 1, 1_000, least) && call_ensures(
            T::larger,
            (&t, time, least),
            r,
        );
    lemma_fraction(t, v, zero, 1, 10_000, rate);
    lemma_fraction(t, v, zero, 1, 1_000, least);
    assert(v(prompt) * (1real / 10000real) == v(prompt) / 10000real) by (nonlinear_arith);
}

proof fn lemma_grown<T: Arithmetic>(
    t: T,
    v: spec_fn(T::F) -> real,
    zero: T::F,
    a: T::F,
    by: T::F,
    r: T::F,
)
    requires
        computes(t, v, zero),
        simulate::is_grown(t, zero, a, by, r),
    ensures
        v(r) == within(v(a) + v(by), 0real, 95real / 100real),
{
    let (sum, most) = choose|sum: T::F, most: T::F| #[trigger]
        call_ensures(T::plus, (&t, a, by), sum) && #[trigger] state::is_fraction(t, 95, 100, most)
            && state::is_clamped(t, sum, zero, most, r);
    lemma_fraction(t, v, zero, 95, 100, most);
}

/// What one request of `p` prompt and `o` output tokens, whose draws are `d`,
/// does to the numbers of a mock SGLang server.
pub open spec fn sgl_served<T: Chance>(
    t: T,
    v: spec_fn(T::F) -> real,
    before: SglState<T::F>,
    after: SglState<T::F>,
    d: Seq<T::F>,
    p: real,
    o: real,
) -> bool {
    &&& after.model == before.model
    &&& after.process_start_time == before.process_start_time
    &&& v(after.prompt_tokens_total) == v(before.prompt_tokens_total) + p
    &&& v(after.generation_tokens_total) == v(before.generation_tokens_total) + o
    &&& v(after.num_used_tokens) == v(before.num_used_tokens) + o
    &&& took(v, before.ttft, after.ttft, v(d[2]))
    &&& took(v, before.tpot, after.tpot, v(d[3]))
    &&& took(v, before.e2e, after.e2e, v(d[2]) + prefill_seconds(p) + v(d[3]) * o)
    &&& gauge_of(t, v, d[4], after.num_running_reqs)
    &&& gauge_of(t, v, d[5], after.num_queue_reqs)
    &&& v(after.cache_hit_rate) == within(
        v(before.cache_hit_rate) + v(d[6]),
        0real,
        95real / 100real,
    )
    &&& v(after.token_usage) == within(v(before.token_usage) + v(d[7]), 0real, 95real / 100real)
    &&& v(after.gen_throughput) == v(d[8])
}

/// One simulated request of a mock SGLang server counts what it says.
pub proof fn law_sgl_request_is_counted<T: Chance>(
    t: T,
    v: spec_fn(T::F) -> real,
    zero: T::F,
    g: u64,
    h: u64,
    before: SglState<T::F>,
    after: SglState<T::F>,
    c: MockServerConfig<T::F>,
    n: (u32, u32),
) -> (r: (Seq<(T::F, T::F)>, Seq<T::F>))
    requires
        computes(t, v, zero),
        simulate::sgl_simulated(t, zero, g, h, before, after, c, n),
    ensures
        r.0.len() == 9 && r.1.len() == 9,
        simulate::are_normals(t, zero, g, r.0, h, r.1),
        common_draws(v, c, r.0),
        draws(v, r.0[4], 2real, 1real),
        draws(v, r.0[5], 1real, 1real),
        draws(v, r.0[6], 1real / 100real, 2real / 100real),
        draws(v, r.0[7], 1real / 100real, 2real / 100real),
        draws(v, r.0[8], 80real, 20real),
        forall|i: int| 0 <= i < 9 ==> is_draw(v, r.0[i], #[trigger] r.1[i]),
        tokens_of(t, r.1[0], n.0),
        tokens_of(t, r.1[1], n.1),
        sgl_served(t, v, before, after, r.1, n.0 as real, n.1 as real),
{
    let (ds, d, r) = choose|ds: Seq<(T::F, T::F)>, d: Seq<T::F>, r: SglRequest<T::F>| #[trigger]
        simulate::are_sgl_profiles(t, c, ds) && #[trigger] simulate::are_normals(
            t,
            zero,
            g,
            ds,
            h,
            d,
        ) && #[trigger] simulate::is_sgl_request(
            t,
            zero,
            before.cache_hit_rate,
            before.token_usage,
            d,
            n,
            r,
        ) && SglState::moved(t, zero, before, after, r);
    lemma_common_draws(t, v, zero, c, ds);
    lemma_profile(t, v, zero, 2_00, 1_00, ds[4]);
    lemma_profile(t, v, zero, 1_00, 1_00, ds[5]);
    lemma_profile(t, v, zero, 1, 2, ds[6]);
    lemma_profile(t, v, zero, 1, 2, ds[7]);
    lemma_profile(t, v, zero, 80_00, 20_00, ds[8]);
    lemma_draws(t, v, zero, g, ds, h, d);
    assert(is_draw(v, ds[2], d[2]) && is_draw(v, ds[3], d[3]) && is_draw(v, ds[8], d[8]));
    let p = n.0 as real;
    let o = n.1 as real;
    lemma_tokens(t, d[0], n.0);
    lemma_tokens(t, d[1], n.1);
    let (prefill, decode) = choose|prefill: T::F, decode: T::F| #[trigger]
        simulate::is_prefill(t, r.prompt_tokens, prefill) && #[trigger] call_ensures(
            T::times,
            (&t, d[3], r.output_tokens),
            decode,
        ) && simulate::is_e2e(t, d[2], prefill, decode, r.e2e);
    lemma_prefill(t, v, zero, r.prompt_tokens, prefill);
    assert(v(d[3]) * o >= 0real) by (nonlinear_arith)
        requires
            v(d[3]) >= 0real,
            o >= 0real,
    ;
    assert(v(r.e2e) == v(d[2]) + prefill_seconds(p) + v(d[3]) * o);
    lemma_took(t, v, zero, before.ttft, after.ttft, r.ttft);
    lemma_took(t, v, zero, before.tpot, after.tpot, r.tpot);
    lemma_took(t, v, zero, before.e2e, after.e2e, r.e2e);
    lemma_grown(t, v, zero, before.cache_hit_rate, d[6], after.cache_hit_rate);
    lemma_grown(t, v, zero, before.token_usage, d[7], after.token_usage);
    assert(gauge_of(t, v, d[4], after.num_running_reqs));
    assert(gauge_of(t, v, d[5], after.num_queue_reqs));
    (ds, d)
}

/// The sum of the prompt tokens of the requests.
pub open spec fn prompts(ns: Seq<(u32, u32)>) -> nat
    decreases ns.len(),
{
    if ns.len() == 0 {
        0
    } else {
        prompts(ns.drop_last()) + ns.last().0 as nat
    }
}

/// The sum of the output tokens of the requests.
pub open spec fn outputs(ns: Seq<(u32, u32)>) -> nat
    decreases ns.len(),
{
    if ns.len() == 0 {
        0
    } else {
        outputs(ns.drop_last()) + ns.last().1 as nat
    }
}

/// The states of a mock vLLM server that serves requests which give back the
/// tokens `ns`.
pub open spec fn vllm_course<T: Chance>(
    t: T,
    zero: T::F,
    c: MockServerConfig<T::F>,
    gs: Seq<u64>,
    ss: Seq<VllmState<T::F>>,
    ns: Seq<(u32, u32)>,
) -> bool {
    &&& ss.len() == ns.len() + 1 && gs.len() == ns.len() + 1
    &&& forall|i: int|
        0 <= i < ns.len() ==> simulate::vllm_simulated(
            t,
            zero,
            gs[i],
            gs[i + 1],
            ss[i],
            ss[i + 1],
            c,
            #[trigger] ns[i],
        )
}

/// After any simulated requests a mock vLLM server has counted all their tokens
/// and all of them.
pub proof fn law_vllm_counters_add_up<T: Chance>(
    t: T,
    v: spec_fn(T::F) -> real,
    zero: T::F,
    c: MockServerConfig<T::F>,
    gs: Seq<u64>,
    ss: Seq<VllmState<T::F>>,
    ns: Seq<(u32, u32)>,
)
    requires
        computes(t, v, zero),
        vllm_course(t, zero, c, gs, ss, ns),
    ensures
        ss.last().model == ss[0].model,
        v(ss.last().prompt_tokens_total) == v(ss[0].prompt_tokens_total) + prompts(ns) as real,
        v(ss.last().prefix_cache_queries_total) == v(ss[0].prefix_cache_queries_total) + prompts(
            ns,
        ) as real,
        v(ss.last().generation_tokens_total) == v(ss[0].generation_tokens_total) + outputs(
            ns,
        ) as real,
        v(ss.last().request_success_total) == v(ss[0].request_success_total) + ns.len() as real,
        v(ss.last().req_prompt_tokens.sum) == v(ss[0].req_prompt_tokens.sum) + prompts(
            ns,
        ) as real,
        v(ss.last().req_gen_tokens.sum) == v(ss[0].req_gen_tokens.sum) + outputs(ns) as real,
    decreases ns.len(),
{
    if ns.len() > 0 {
        let k = ns.len() - 1;
        let (g, s, n) = (gs.drop_last(), ss.drop_last(), ns.drop_last());
        assert forall|i: int| 0 <= i < n.len() implies simulate::vllm_simulated(
            t,
            zero,
            g[i],
            g[i + 1],
            s[i],
            s[i + 1],
            c,
            #[trigger] n[i],
        ) by {
            assert(n[i] == ns[i]);
        }
        law_vllm_counters_add_up(t, v, zero, c, g, s, n);
        assert(simulate::vllm_simulated(
            t,
            zero,
            gs[k],
            gs[k + 1],
            ss[k],
            ss[k + 1],
            c,
            ns[k],
        ));
        let _ = law_vllm_request_is_counted(
            t,
            v,
            zero,
            gs[k],
            gs[k + 1],
            ss[k],
            ss[k + 1],
            c,
            ns[k],
        );
        assert(s.last() == ss[k]);
    }
}

/// The states of a mock SGLang server that serves requests which give back the
/// tokens `ns`.
pub open spec fn sgl_course<T: Chance>(
    t: T,
    zero: T::F,
    c: MockServerConfig<T::F>,
    gs: Seq<u64>,
    ss: Seq<SglState<T::F>>,
    ns: Seq<(u32, u32)>,
) -> bool {
    &&& ss.len() == ns.len() + 1 && gs.len() == ns.len() + 1
    &&& forall|i: int|
        0 <= i < ns.len() ==> simulate::sgl_simulated(
            t,
            zero,
            gs[i],
            gs[i + 1],
            ss[i],
            ss[i + 1],
            c,
            #[trigger] ns[i],
        )
}

/// After any simulated requests a mock SGLang server has counted all their
/// tokens.
pub proof fn law_sgl_counters_add_up<T: Chance>(
    t: T,
    v: spec_fn(T::F) -> real,
    zero: T::F,
    c: MockServerConfig<T::F>,
    gs: Seq<u64>,
    ss: Seq<SglState<T::F>>,
    ns: Seq<(u32, u32)>,
)
    requires
        computes(t, v, zero),
        sgl_course(t, zero, c, gs, ss, ns),
    ensures
        ss.last().model == ss[0].model,
        v(ss.last().prompt_tokens_total) == v(ss[0].prompt_tokens_total) + prompts(ns) as real,
        v(ss.last().generation_tokens_total) == v(ss[0].generation_tokens_total) + outputs(
            ns,
        ) as real,
        v(ss.last().num_used_tokens) == v(ss[0].num_used_tokens) + outputs(ns) as real,
    decreases ns.len(),
{
    if ns.len() > 0 {
        let k = ns.len() - 1;
        let (g, s, n) = (gs.drop_last(), ss.drop_last(), ns.drop_last());
        assert forall|i: int| 0 <= i < n.len() implies simulate::sgl_simulated(
            t,
            zero,
            g[i],
            g[i + 1],
            s[i],
            s[i + 1],
            c,
            #[trigger] n[i],
        ) by {
            assert(n[i] == ns[i]);
        }
        law_sgl_counters_add_up(t, v, zero, c, g, s, n);
        assert(simulate::sgl_simulated(
            t,
            zero,
            gs[k],
            gs[k + 1],
            ss[k],
            ss[k + 1],
            c,
            ns[k],
        ));
        let _ = law_sgl_request_is_counted(
            t,
            v,
            zero,
            gs[k],
            gs[k + 1],
            ss[k],
            ss[k + 1],
            c,
            ns[k],
        );
        assert(s.last() == ss[k]);
    }
}

/// What is scraped of a mock vLLM server after any simulated requests has grown
/// by just their tokens and by their number.
pub proof fn law_vllm_scrape_counts_tokens<T: Chance + Spelling>(
    t: T,
    m: Meaning<T::F>,
    zero: T::F,
    c: MockServerConfig<T::F>,
    gs: Seq<u64>,
    ss: Seq<VllmState<T::F>>,
    ns: Seq<(u32, u32)>,
    x: VllmState<String>,
    p: Scrape,
    r: BackendSnapshot<T::F>,
)
    requires
        computes(t, m.v, zero),
        vllm_course(t, zero, c, gs, ss, ns),
        numbers::reads_what_it_spells(t, zero, m),
        readback::spells_tokens(t),
        exposition::is_plain(ss.last().model@),
        numbers::vllm_numbers(t, m, ss.last()),
        VllmState::spelled(t, zero, ss.last(), x),
        p@ == vllm::scrape_of(scrape::samples(render::metrics_text(BackendState::Vllm(x)))),
        state::evaluated(t, zero, p, r),
    ensures
        (m.v)(r.prompt_tokens_total) == (m.v)(ss[0].prompt_tokens_total) + prompts(ns) as real,
        (m.v)(r.generation_tokens_total) == (m.v)(ss[0].generation_tokens_total) + outputs(
            ns,
        ) as real,
        (m.v)(r.request_success_total) == (m.v)(ss[0].request_success_total) + ns.len() as real,
        (m.v)(r.req_prompt_tokens.sum) == (m.v)(ss[0].req_prompt_tokens.sum) + prompts(ns) as real,
        (m.v)(r.req_gen_tokens.sum) == (m.v)(ss[0].req_gen_tokens.sum) + outputs(ns) as real,
{
    law_vllm_counters_add_up(t, m.v, zero, c, gs, ss, ns);
    numbers::law_vllm_numbers_read_back(t, zero, m, ss.last(), x, p, r);
}

/// What is scraped of a mock SGLang server after any simulated requests has
/// grown by just their tokens.
pub proof fn law_sgl_scrape_counts_tokens<T: Chance + Spelling>(
    t: T,
    m: Meaning<T::F>,
    zero: T::F,
    c: MockServerConfig<T::F>,
    gs: Seq<u64>,
    ss: Seq<SglState<T::F>>,
    ns: Seq<(u32, u32)>,
    x: SglState<String>,
    p: Scrape,
    r: BackendSnapshot<T::F>,
)
    requires
        computes(t, m.v, zero),
        sgl_course(t, zero, c, gs, ss, ns),
        numbers::reads_what_it_spells(t, zero, m),
        readback::spells_tokens(t),
        exposition::is_plain(ss.last().model@),
        numbers::sgl_numbers(t, m, ss.last()),
        SglState::spelled(t, zero, ss.last(), x),
        p@ == sglang::scrape_of(scrape::samples(render::metrics_text(BackendState::Sgl(x)))),
        state::evaluated(t, zero, p, r),
    ensures
        (m.v)(r.prompt_tokens_total) == (m.v)(ss[0].prompt_tokens_total) + prompts(ns) as real,
        (m.v)(r.generation_tokens_total) == (m.v)(ss[0].generation_tokens_total) + outputs(
            ns,
        ) as real,
{
    law_sgl_counters_add_up(t, m.v, zero, c, gs, ss, ns);
    numbers::law_sgl_numbers_read_back(t, zero, m, ss.last(), x, p, r);
}

} // verus!
