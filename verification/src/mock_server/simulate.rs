//! Simulated requests: what one takes, drawn from the configured profile.

use vstd::prelude::*;

use crate::config;
use crate::config::at_least_a_tenth;
use crate::mock_server::config::MockServerConfig;
use crate::mock_server::rng;
use crate::mock_server::rng::Rng;
use crate::mock_server::state::{BackendState, SglRequest, SglState, VllmRequest, VllmState};
use crate::state;
use crate::state::{clamp, fraction, product, quotient, Arithmetic};

verus! {

/// Arithmetic of chance.
pub trait Chance: Arithmetic {
    /// The natural logarithm.
    fn ln(&self, a: Self::F) -> Self::F;

    fn square_root(&self, a: Self::F) -> Self::F;

    fn cosine(&self, a: Self::F) -> Self::F;

    /// Half the length of the unit circle.
    fn pi(&self) -> Self::F;

    /// The nearest whole number.
    fn nearest(&self, a: Self::F) -> Self::F;
}

/// `r` is the fraction in `[0, 1)` that 53 random bits stand for.
pub open spec fn is_unit<T: Arithmetic>(t: T, bits: u64, r: T::F) -> bool {
    state::is_fraction(t, bits as i64, 0x20_0000_0000_0000, r)
}

fn unit<T: Arithmetic>(t: &T, bits: u64) -> (r: T::F)
    requires
        bits < 0x20_0000_0000_0000,
    ensures
        is_unit(*t, bits, r),
{
    fraction(t, bits as i64, 0x20_0000_0000_0000)
}

/// `r` is the root of `-2 ln u`.
pub open spec fn is_radius<T: Chance>(t: T, u: T::F, r: T::F) -> bool {
    exists|l: T::F, a: T::F| #[trigger]
        call_ensures(T::ln, (&t, u), l) && #[trigger] state::is_product(t, l, (-2) as i64, a)
            && call_ensures(T::square_root, (&t, a), r)
}

/// `r` is the cosine of the share `u` of a full turn.
pub open spec fn is_direction<T: Chance>(t: T, u: T::F, r: T::F) -> bool {
    exists|half: T::F, turn: T::F, a: T::F| #[trigger]
        call_ensures(T::pi, (&t,), half) && #[trigger] state::is_product(t, half, 2, turn)
            && #[trigger] call_ensures(T::times, (&t, turn, u), a) && call_ensures(
            T::cosine,
            (&t, a),
            r,
        )
}

/// `z` is the deviate of the standard normal distribution that two of the
/// uniform one give, by Box and Muller's transform.
pub open spec fn is_standard<T: Chance>(t: T, u1: T::F, u2: T::F, z: T::F) -> bool {
    exists|r: T::F, c: T::F| #[trigger]
        is_radius(t, u1, r) && #[trigger] is_direction(t, u2, c) && call_ensures(
            T::times,
            (&t, r, c),
            z,
        )
}

fn radius<T: Chance>(t: &T, u: T::F) -> (r: T::F)
    ensures
        is_radius(*t, u, r),
{
    let l = t.ln(u);
    assert(call_ensures(T::ln, (t, u), l));
    let a = product(t, l, -2);
    t.square_root(a)
}

fn direction<T: Chance>(t: &T, u: T::F) -> (r: T::F)
    ensures
        is_direction(*t, u, r),
{
    let half = t.pi();
    assert(call_ensures(T::pi, (t,), half));
    let turn = product(t, half, 2);
    let a = t.times(turn, u);
    assert(call_ensures(T::times, (t, turn, u), a));
    t.cosine(a)
}

/// A deviate of the standard normal distribution, by Box and Muller's
/// transform.
pub fn standard<T: Chance>(t: &T, u1: T::F, u2: T::F) -> (z: T::F)
    ensures
        is_standard(*t, u1, u2, z),
{
    let r = radius(t, u1);
    let c = direction(t, u2);
    t.times(r, c)
}

/// `r` is the deviate that two draws give, moved to the given mean and
/// deviation, and not below zero.
pub open spec fn is_deviated<T: Chance>(
    t: T,
    zero: T::F,
    bits1: u64,
    bits2: u64,
    mean: T::F,
    std: T::F,
    r: T::F,
) -> bool {
    exists|u: T::F, least: T::F, u1: T::F, u2: T::F, z: T::F, off: T::F, sum: T::F| #[trigger]
        is_unit(t, bits1, u) && #[trigger] state::is_fraction(
            t,
            1,
            1_000_000_000_000,
            least,
        ) && #[trigger] call_ensures(T::larger, (&t, u, least), u1) && #[trigger] is_unit(
            t,
            bits2,
            u2,
        ) && #[trigger] is_standard(t, u1, u2, z) && #[trigger] call_ensures(
            T::times,
            (&t, z, std),
            off,
        ) && #[trigger] call_ensures(T::plus, (&t, mean, off), sum) && call_ensures(
            T::larger,
            (&t, sum, zero),
            r,
        )
}

/// `r` is a sample of the normal distribution that a generator in state `s`
/// gives, not below zero; `after` is the state that it leaves. Nothing is
/// drawn where there is no deviation.
pub open spec fn is_normal<T: Chance>(
    t: T,
    zero: T::F,
    s: u64,
    mean: T::F,
    std: T::F,
    after: u64,
    r: T::F,
) -> bool {
    exists|sharp: bool| #[trigger]
        call_ensures(T::at_most, (&t, std, zero), sharp) && if sharp {
            after == s && call_ensures(T::larger, (&t, mean, zero), r)
        } else {
            &&& after == rng::stirred(rng::stirred(s))
            &&& is_deviated(
                t,
                zero,
                rng::drawn(rng::stirred(s)),
                rng::drawn(after),
                mean,
                std,
                r,
            )
        }
}

/// Sample from a normal distribution via Box-Muller, clamped to `>= 0`.
pub fn normal<T: Chance>(t: &T, zero: T::F, g: &mut Rng, mean: T::F, std: T::F) -> (r: T::F)
    ensures
        is_normal(*t, zero, old(g).at(), mean, std, final(g).at(), r),
{
    let sharp = t.at_most(std, zero);
    assert(call_ensures(T::at_most, (t, std, zero), sharp));
    if sharp {
        return t.larger(mean, zero);
    }
    let bits1 = g.next_bits();
    let bits2 = g.next_bits();
    let u = unit(t, bits1);
    let least = fraction(t, 1, 1_000_000_000_000);
    let u1 = t.larger(u, least);
    let u2 = unit(t, bits2);
    let z = standard(t, u1, u2);
    let off = t.times(z, std);
    let sum = t.plus(mean, off);
    assert(call_ensures(T::larger, (t, u, least), u1));
    assert(call_ensures(T::times, (t, z, std), off));
    assert(call_ensures(T::plus, (t, mean, off), sum));
    t.larger(sum, zero)
}

/// `vs` are the samples of the distributions in `ds` (mean and deviation),
/// drawn one after another by a generator in state `s` that is left in state
/// `after`.
pub open spec fn are_normals<T: Chance>(
    t: T,
    zero: T::F,
    s: u64,
    ds: Seq<(T::F, T::F)>,
    after: u64,
    vs: Seq<T::F>,
) -> bool
    decreases ds.len(),
{
    if ds.len() == 0 {
        after == s && vs.len() == 0
    } else {
        vs.len() == ds.len() && exists|mid: u64| #[trigger]
            is_normal(t, zero, mid, ds.last().0, ds.last().1, after, vs.last()) && are_normals(
                t,
                zero,
                s,
                ds.drop_last(),
                mid,
                vs.drop_last(),
            )
    }
}

fn normals<T: Chance>(t: &T, zero: T::F, g: &mut Rng, ds: &Vec<(T::F, T::F)>) -> (r: Vec<T::F>)
    ensures
        are_normals(*t, zero, old(g).at(), ds@, final(g).at(), r@),
        r@.len() == ds@.len(),
{
    let ghost start = g.at();
    let mut r: Vec<T::F> = Vec::new();
    for i in 0..ds.len()
        invariant
            r@.len() == i,
            start == old(g).at(),
            are_normals(*t, zero, start, ds@.take(i as int), g.at(), r@),
    {
        let ghost mid = g.at();
        let ghost before = r@;
        let (mean, std) = ds[i];
        let v = normal(t, zero, g, mean, std);
        r.push(v);
        proof {
            assert(ds@.take(i + 1).drop_last() =~= ds@.take(i as int));
            assert(ds@.take(i + 1).last() == ds@[i as int]);
            assert(r@.drop_last() =~= before);
            assert(r@.last() == v);
            assert(is_normal(*t, zero, mid, mean, std, g.at(), v));
        }
    }
    assert(ds@.take(ds@.len() as int) =~= ds@);
    r
}

/// Mean and deviation are the given hundredths.
pub open spec fn is_profile<T: Arithmetic>(t: T, mean: i64, std: i64, d: (T::F, T::F)) -> bool {
    state::is_fraction(t, mean, 100, d.0) && state::is_fraction(t, std, 100, d.1)
}

fn profile<T: Arithmetic>(t: &T, mean: i64, std: i64) -> (r: (T::F, T::F))
    ensures
        is_profile(*t, mean, std, r),
{
    (fraction(t, mean, 100), fraction(t, std, 100))
}

/// The distributions that every request is drawn from: the tokens of the
/// prompt and of the answer, the time to the first token and the time between
/// tokens.
pub open spec fn are_common<T: Arithmetic>(
    t: T,
    c: MockServerConfig<T::F>,
    ds: Seq<(T::F, T::F)>,
) -> bool {
    &&& ds.len() >= 4
    &&& is_profile(t, 256_00, 128_00, ds[0])
    &&& call_ensures(T::whole, (&t, c.output_tokens as i64), ds[1].0)
    &&& ds[1].1 == c.output_tokens_std
    &&& state::is_quotient(t, c.ttft_ms, 1_000, ds[2].0)
    &&& state::is_quotient(t, c.ttft_ms_std, 1_000, ds[2].1)
    &&& state::is_quotient(t, c.itl_ms, 1_000, ds[3].0)
    &&& state::is_quotient(t, c.itl_ms_std, 1_000, ds[3].1)
}

fn common<T: Arithmetic>(t: &T, c: &MockServerConfig<T::F>) -> (r: Vec<(T::F, T::F)>)
    ensures
        r@.len() == 4,
        are_common(*t, *c, r@),
{
    let tokens = t.whole(c.output_tokens as i64);
    let mut r: Vec<(T::F, T::F)> = Vec::new();
    r.push(profile(t, 256_00, 128_00));
    r.push((tokens, c.output_tokens_std));
    r.push((quotient(t, c.ttft_ms, 1_000), quotient(t, c.ttft_ms_std, 1_000)));
    r.push((quotient(t, c.itl_ms, 1_000), quotient(t, c.itl_ms_std, 1_000)));
    r
}

/// The distributions that a vLLM request is drawn from: beyond the common ones
/// the time in the queue, the growth of the KV cache, and how many requests
/// are running and waiting.
pub open spec fn are_vllm_profiles<T: Arithmetic>(
    t: T,
    c: MockServerConfig<T::F>,
    ds: Seq<(T::F, T::F)>,
) -> bool {
    &&& ds.len() == 8
    &&& are_common(t, c, ds)
    &&& is_profile(t, 20, 10, ds[4])
    &&& is_profile(t, 5, 3, ds[5])
    &&& is_profile(t, 2_00, 1_00, ds[6])
    &&& is_profile(t, 1_00, 1_00, ds[7])
}

/// The distributions that an SGLang request is drawn from: beyond the common
/// ones how many requests are running and queued, the growth of the cache hit
/// rate and of the token usage, and the throughput.
pub open spec fn are_sgl_profiles<T: Arithmetic>(
    t: T,
    c: MockServerConfig<T::F>,
    ds: Seq<(T::F, T::F)>,
) -> bool {
    &&& ds.len() == 9
    &&& are_common(t, c, ds)
    &&& is_profile(t, 2_00, 1_00, ds[4])
    &&& is_profile(t, 1_00, 1_00, ds[5])
    &&& is_profile(t, 1, 2, ds[6])
    &&& is_profile(t, 1, 2, ds[7])
    &&& is_profile(t, 80_00, 20_00, ds[8])
}

/// `n` is a number of tokens: the draw without its decimals, at least one, and
/// no more than fit.
pub open spec fn is_tokens<T: Arithmetic>(t: T, v: T::F, n: u32) -> bool {
    exists|c: i64| #[trigger]
        call_ensures(T::truncated, (&t, v), c) && n == if c < 1 {
            1
        } else if c > u32::MAX {
            u32::MAX as int
        } else {
            c as int
        }
}

fn tokens<T: Arithmetic>(t: &T, v: T::F) -> (r: u32)
    ensures
        is_tokens(*t, v, r),
{
    let c = t.truncated(v);
    assert(call_ensures(T::truncated, (t, v), c));
    if c < 1 {
        1
    } else if c > u32::MAX as i64 {
        u32::MAX
    } else {
        c as u32
    }
}

/// `r` is the time of the prefill: 0.1 ms per prompt token, at least 1 ms.
pub open spec fn is_prefill<T: Arithmetic>(t: T, prompt: T::F, r: T::F) -> bool {
    exists|rate: T::F, time: T::F, least: T::F| #[trigger]
        state::is_fraction(t, 1, 10_000, rate) && #[trigger] call_ensures(
            T::times,
            (&t, prompt, rate),
            time,
        ) && #[trigger] state::is_fraction(t, 1, 1_000, least) && call_ensures(
            T::larger,
            (&t, time, least),
            r,
        )
}

fn prefill<T: Arithmetic>(t: &T, prompt: T::F) -> (r: T::F)
    ensures
        is_prefill(*t, prompt, r),
{
    let rate = fraction(t, 1, 10_000);
    let time = t.times(prompt, rate);
    let least = fraction(t, 1, 1_000);
    assert(call_ensures(T::times, (t, prompt, rate), time));
    t.larger(time, least)
}

/// `r` is the time that a request takes in all.
pub open spec fn is_e2e<T: Arithmetic>(
    t: T,
    ttft: T::F,
    prefill: T::F,
    decode: T::F,
    r: T::F,
) -> bool {
    exists|front: T::F| #[trigger]
        call_ensures(T::plus, (&t, ttft, prefill), front) && call_ensures(
            T::plus,
            (&t, front, decode),
            r,
        )
}

fn end_to_end<T: Arithmetic>(t: &T, ttft: T::F, prefill: T::F, decode: T::F) -> (r: T::F)
    ensures
        is_e2e(*t, ttft, prefill, decode, r),
{
    let front = t.plus(ttft, prefill);
    assert(call_ensures(T::plus, (t, ttft, prefill), front));
    t.plus(front, decode)
}

/// `r` is a whole number, not below zero.
pub open spec fn is_rounded<T: Chance>(t: T, zero: T::F, v: T::F, r: T::F) -> bool {
    exists|n: T::F| #[trigger]
        call_ensures(T::nearest, (&t, v), n) && call_ensures(T::larger, (&t, n, zero), r)
}

fn rounded<T: Chance>(t: &T, zero: T::F, v: T::F) -> (r: T::F)
    ensures
        is_rounded(*t, zero, v, r),
{
    let n = t.nearest(v);
    assert(call_ensures(T::nearest, (t, v), n));
    t.larger(n, zero)
}

/// `r` is a share that grew by `by`, from zero up to 0.95.
pub open spec fn is_grown<T: Arithmetic>(t: T, zero: T::F, v: T::F, by: T::F, r: T::F) -> bool {
    exists|sum: T::F, most: T::F| #[trigger]
        call_ensures(T::plus, (&t, v, by), sum) && #[trigger] state::is_fraction(t, 95, 100, most)
            && state::is_clamped(t, sum, zero, most, r)
}

fn grown<T: Arithmetic>(t: &T, zero: T::F, v: T::F, by: T::F) -> (r: T::F)
    ensures
        is_grown(*t, zero, v, by, r),
{
    let sum = t.plus(v, by);
    assert(call_ensures(T::plus, (t, v, by), sum));
    let most = fraction(t, 95, 100);
    clamp(t, sum, zero, most)
}

/// The request that the draws `d` make, where `kv` is the usage of the KV
/// cache before it; `n` are the tokens of its prompt and its answer.
pub open spec fn is_vllm_request<T: Chance>(
    t: T,
    zero: T::F,
    kv: T::F,
    d: Seq<T::F>,
    n: (u32, u32),
    r: VllmRequest<T::F>,
) -> bool {
    &&& is_tokens(t, d[0], n.0)
    &&& is_tokens(t, d[1], n.1)
    &&& call_ensures(T::whole, (&t, n.0 as i64), r.prompt_tokens)
    &&& call_ensures(T::whole, (&t, n.1 as i64), r.output_tokens)
    &&& r.ttft == d[2]
    &&& r.inter_token == d[3]
    &&& is_prefill(t, r.prompt_tokens, r.prefill_time)
    &&& call_ensures(T::times, (&t, d[3], r.output_tokens), r.decode_time)
    &&& is_e2e(t, d[2], r.prefill_time, r.decode_time, r.e2e)
    &&& r.queue_time == d[4]
    &&& is_grown(t, zero, kv, d[5], r.kv_cache_usage_perc)
    &&& is_rounded(t, zero, d[6], r.num_requests_running)
    &&& is_rounded(t, zero, d[7], r.num_requests_waiting)
    &&& exists|share: T::F| #[trigger]
        state::is_fraction(t, 3, 10, share) && call_ensures(
            T::times,
            (&t, r.prompt_tokens, share),
            r.cached_tokens,
        )
}

/// The request that the draws make.
pub fn vllm_request<T: Chance>(t: &T, zero: T::F, kv: T::F, d: &Vec<T::F>) -> (r: (
    VllmRequest<T::F>,
    (u32, u32),
))
    requires
        d@.len() == 8,
    ensures
        is_vllm_request(*t, zero, kv, d@, r.1, r.0),
{
    let p = tokens(t, d[0]);
    let o = tokens(t, d[1]);
    let prompt_tokens = t.whole(p as i64);
    let output_tokens = t.whole(o as i64);
    let prefill_time = prefill(t, prompt_tokens);
    let decode_time = t.times(d[3], output_tokens);
    let e2e = end_to_end(t, d[2], prefill_time, decode_time);
    let share = fraction(t, 3, 10);
    let cached_tokens = t.times(prompt_tokens, share);
    let r = VllmRequest {
        prompt_tokens,
        output_tokens,
        cached_tokens,
        kv_cache_usage_perc: grown(t, zero, kv, d[5]),
        num_requests_running: rounded(t, zero, d[6]),
        num_requests_waiting: rounded(t, zero, d[7]),
        ttft: d[2],
        inter_token: d[3],
        e2e,
        queue_time: d[4],
        prefill_time,
        decode_time,
    };
    (r, (p, o))
}

/// The request that the draws `d` make, where `hits` is the cache hit rate and
/// `usage` the token usage before it.
pub open spec fn is_sgl_request<T: Chance>(
    t: T,
    zero: T::F,
    hits: T::F,
    usage: T::F,
    d: Seq<T::F>,
    n: (u32, u32),
    r: SglRequest<T::F>,
) -> bool {
    &&& is_tokens(t, d[0], n.0)
    &&& is_tokens(t, d[1], n.1)
    &&& call_ensures(T::whole, (&t, n.0 as i64), r.prompt_tokens)
    &&& call_ensures(T::whole, (&t, n.1 as i64), r.output_tokens)
    &&& r.ttft == d[2]
    &&& r.tpot == d[3]
    &&& exists|prefill: T::F, decode: T::F| #[trigger]
        is_prefill(t, r.prompt_tokens, prefill) && #[trigger] call_ensures(
            T::times,
            (&t, d[3], r.output_tokens),
            decode,
        ) && is_e2e(t, d[2], prefill, decode, r.e2e)
    &&& is_rounded(t, zero, d[4], r.num_running_reqs)
    &&& is_rounded(t, zero, d[5], r.num_queue_reqs)
    &&& is_grown(t, zero, hits, d[6], r.cache_hit_rate)
    &&& is_grown(t, zero, usage, d[7], r.token_usage)
    &&& call_ensures(T::larger, (&t, d[8], zero), r.gen_throughput)
}

/// The request that the draws make.
pub fn sgl_request<T: Chance>(
    t: &T,
    zero: T::F,
    hits: T::F,
    usage: T::F,
    d: &Vec<T::F>,
) -> (r: (SglRequest<T::F>, (u32, u32)))
    requires
        d@.len() == 9,
    ensures
        is_sgl_request(*t, zero, hits, usage, d@, r.1, r.0),
{
    let p = tokens(t, d[0]);
    let o = tokens(t, d[1]);
    let prompt_tokens = t.whole(p as i64);
    let output_tokens = t.whole(o as i64);
    let prefill_time = prefill(t, prompt_tokens);
    let decode_time = t.times(d[3], output_tokens);
    assert(call_ensures(T::times, (t, d@[3], output_tokens), decode_time));
    let e2e = end_to_end(t, d[2], prefill_time, decode_time);
    let r = SglRequest {
        prompt_tokens,
        output_tokens,
        num_running_reqs: rounded(t, zero, d[4]),
        num_queue_reqs: rounded(t, zero, d[5]),
        cache_hit_rate: grown(t, zero, hits, d[6]),
        token_usage: grown(t, zero, usage, d[7]),
        gen_throughput: t.larger(d[8], zero),
        ttft: d[2],
        e2e,
        tpot: d[3],
    };
    (r, (p, o))
}

/// The state of a mock vLLM server after one more request, drawn by a
/// generator in state `g` that is left in state `h`.
pub open spec fn vllm_simulated<T: Chance>(
    t: T,
    zero: T::F,
    g: u64,
    h: u64,
    before: VllmState<T::F>,
    after: VllmState<T::F>,
    c: MockServerConfig<T::F>,
    n: (u32, u32),
) -> bool {
    exists|ds: Seq<(T::F, T::F)>, d: Seq<T::F>, r: VllmRequest<T::F>| #[trigger]
        are_vllm_profiles(t, c, ds) && #[trigger] are_normals(t, zero, g, ds, h, d) && #[trigger]
            is_vllm_request(t, zero, before.kv_cache_usage_perc, d, n, r) && VllmState::moved(
            t,
            zero,
            before,
            after,
            r,
        )
}

/// Simulates one completed request on a mock vLLM server; gives the tokens of
/// its prompt and its answer.
pub fn simulate_vllm_request_with<T: Chance>(
    t: &T,
    zero: T::F,
    g: &mut Rng,
    s: &mut VllmState<T::F>,
    c: &MockServerConfig<T::F>,
) -> (r: (u32, u32))
    requires
        old(s).wf(),
    ensures
        final(s).wf(),
        vllm_simulated(*t, zero, old(g).at(), final(g).at(), *old(s), *final(s), *c, r),
{
    let mut ds = common(t, c);
    ds.push(profile(t, 20, 10));
    ds.push(profile(t, 5, 3));
    ds.push(profile(t, 2_00, 1_00));
    ds.push(profile(t, 1_00, 1_00));
    assert(are_vllm_profiles(*t, *c, ds@));
    let d = normals(t, zero, g, &ds);
    let (r, n) = vllm_request(t, zero, s.kv_cache_usage_perc, &d);
    s.record(t, zero, r);
    n
}

/// The state of a mock SGLang server after one more request.
pub open spec fn sgl_simulated<T: Chance>(
    t: T,
    zero: T::F,
    g: u64,
    h: u64,
    before: SglState<T::F>,
    after: SglState<T::F>,
    c: MockServerConfig<T::F>,
    n: (u32, u32),
) -> bool {
    exists|ds: Seq<(T::F, T::F)>, d: Seq<T::F>, r: SglRequest<T::F>| #[trigger]
        are_sgl_profiles(t, c, ds) && #[trigger] are_normals(t, zero, g, ds, h, d) && #[trigger]
            is_sgl_request(t, zero, before.cache_hit_rate, before.token_usage, d, n, r)
            && SglState::moved(t, zero, before, after, r)
}

/// Simulates one completed request on a mock SGLang server.
pub fn simulate_sgl_request_with<T: Chance>(
    t: &T,
    zero: T::F,
    g: &mut Rng,
    s: &mut SglState<T::F>,
    c: &MockServerConfig<T::F>,
) -> (r: (u32, u32))
    requires
        old(s).wf(),
    ensures
        final(s).wf(),
        sgl_simulated(*t, zero, old(g).at(), final(g).at(), *old(s), *final(s), *c, r),
{
    let mut ds = common(t, c);
    ds.push(profile(t, 2_00, 1_00));
    ds.push(profile(t, 1_00, 1_00));
    ds.push(profile(t, 1, 2));
    ds.push(profile(t, 1, 2));
    ds.push(profile(t, 80_00, 20_00));
    assert(are_sgl_profiles(*t, *c, ds@));
    let d = normals(t, zero, g, &ds);
    let (r, n) = sgl_request(t, zero, s.cache_hit_rate, s.token_usage, &d);
    s.record(t, zero, r);
    n
}

/// The state of the mock server after one more request.
pub open spec fn simulated<T: Chance>(
    t: T,
    zero: T::F,
    g: u64,
    h: u64,
    before: BackendState<T::F>,
    after: BackendState<T::F>,
    c: MockServerConfig<T::F>,
    n: (u32, u32),
) -> bool {
    match (before, after) {
        (BackendState::Vllm(a), BackendState::Vllm(b)) => vllm_simulated(t, zero, g, h, a, b, c, n),
        (BackendState::Sgl(a), BackendState::Sgl(b)) => sgl_simulated(t, zero, g, h, a, b, c, n),
        _ => false,
    }
}

/// Simulate one completed request: bump counters and record histogram
/// observations derived from the configured latency profile.
pub fn simulate_request_with<T: Chance>(
    t: &T,
    zero: T::F,
    g: &mut Rng,
    s: &mut BackendState<T::F>,
    c: &MockServerConfig<T::F>,
) -> (r: (u32, u32))
    requires
        old(s).wf(),
    ensures
        final(s).wf(),
        simulated(*t, zero, old(g).at(), final(g).at(), *old(s), *final(s), *c, r),
{
    match s {
        BackendState::Vllm(v) => simulate_vllm_request_with(t, zero, g, v, c),
        BackendState::Sgl(v) => simulate_sgl_request_with(t, zero, g, v, c),
    }
}

/// How long the generated traffic waits before each request, in seconds: the
/// request latency, at least a tenth.
pub fn traffic_interval<T: Arithmetic>(t: &T, c: &MockServerConfig<T::F>) -> (r: T::F)
    ensures
        config::is_at_least_a_tenth(*t, c.request_latency, r),
{
    at_least_a_tenth(t, c.request_latency)
}

/// How long an answer to a completion takes, in seconds: a draw of the request
/// latency, none below zero.
pub fn answer_delay<T: Chance>(
    t: &T,
    zero: T::F,
    g: &mut Rng,
    c: &MockServerConfig<T::F>,
) -> (r: T::F)
    ensures
        exists|n: T::F| #[trigger]
            is_normal(
                *t,
                zero,
                old(g).at(),
                c.request_latency,
                c.request_latency_std,
                final(g).at(),
                n,
            ) && call_ensures(T::larger, (t, n, zero), r),
{
    let n = normal(t, zero, g, c.request_latency, c.request_latency_std);
    t.larger(n, zero)
}

} // verus!
