//! The metrics of the mock server, and how a completed request moves them.

use vstd::prelude::*;

use crate::collectors::BackendKind;
use crate::mock_server::bounds;
use crate::mock_server::bounds::{sgl_bounds, vllm_bounds};
use crate::mock_server::config::mocks_sglang;
use crate::mock_server::histogram;
use crate::mock_server::histogram::{fmt_f64, HistAcc, Spelling};
use crate::state::Arithmetic;

verus! {

/// The metrics of a mock vLLM server.
pub struct VllmState<F> {
    pub model: String,
    pub process_start_time: F,
    pub prompt_tokens_total: F,
    pub generation_tokens_total: F,
    pub prompt_tokens_cached_total: F,
    pub num_preemptions_total: F,
    pub prefix_cache_hits_total: F,
    pub prefix_cache_queries_total: F,
    pub request_success_total: F,
    pub num_requests_running: F,
    pub num_requests_waiting: F,
    pub kv_cache_usage_perc: F,
    pub ttft: HistAcc<F>,
    pub inter_token: HistAcc<F>,
    pub e2e: HistAcc<F>,
    pub queue_time: HistAcc<F>,
    pub req_prompt_tokens: HistAcc<F>,
    pub req_gen_tokens: HistAcc<F>,
    pub prefill_time: HistAcc<F>,
    pub decode_time: HistAcc<F>,
}

/// The metrics of a mock SGLang server.
pub struct SglState<F> {
    pub model: String,
    pub process_start_time: F,
    pub prompt_tokens_total: F,
    pub generation_tokens_total: F,
    pub num_running_reqs: F,
    pub num_queue_reqs: F,
    pub cache_hit_rate: F,
    pub token_usage: F,
    pub num_used_tokens: F,
    pub gen_throughput: F,
    pub ttft: HistAcc<F>,
    pub e2e: HistAcc<F>,
    pub tpot: HistAcc<F>,
}

/// The metrics of whichever server is mocked.
pub enum BackendState<F> {
    Vllm(VllmState<F>),
    Sgl(SglState<F>),
}

/// The bucket bounds of the vLLM histograms.
pub struct VllmBounds<F> {
    pub ttft: Vec<F>,
    pub inter_token: Vec<F>,
    pub e2e: Vec<F>,
    pub tokens: Vec<F>,
}

/// The bucket bounds of the SGLang histograms.
pub struct SglBounds<F> {
    pub ttft: Vec<F>,
    pub e2e: Vec<F>,
    pub tpot: Vec<F>,
}

/// What one simulated request did on a vLLM server.
pub struct VllmRequest<F> {
    pub prompt_tokens: F,
    pub output_tokens: F,
    /// Prompt tokens that the prefix cache held.
    pub cached_tokens: F,
    pub kv_cache_usage_perc: F,
    pub num_requests_running: F,
    pub num_requests_waiting: F,
    pub ttft: F,
    pub inter_token: F,
    pub e2e: F,
    pub queue_time: F,
    pub prefill_time: F,
    pub decode_time: F,
}

/// What one simulated request did on an SGLang server.
pub struct SglRequest<F> {
    pub prompt_tokens: F,
    pub output_tokens: F,
    pub num_running_reqs: F,
    pub num_queue_reqs: F,
    pub cache_hit_rate: F,
    pub token_usage: F,
    pub gen_throughput: F,
    pub ttft: F,
    pub e2e: F,
    pub tpot: F,
}

/// A histogram without values over the given bounds.
pub open spec fn is_fresh<F>(h: HistAcc<F>, bounds: Seq<F>, zero: F) -> bool {
    &&& h.wf()
    &&& h.bounds@ == bounds
    &&& h.sum == zero
    &&& h.count == 0
    &&& forall|i: int| 0 <= i < h.buckets@.len() ==> #[trigger] h.buckets@[i] == 0
}

fn copy_bounds<F: Copy>(v: &Vec<F>) -> (r: Vec<F>)
    ensures
        r@ == v@,
{
    let mut r: Vec<F> = Vec::new();
    for i in 0..v.len()
        invariant
            r@ == v@.take(i as int),
    {
        r.push(v[i]);
    }
    assert(v@.take(v@.len() as int) =~= v@);
    r
}

impl<F> VllmState<F> {
    pub open spec fn wf(&self) -> bool {
        &&& self.ttft.wf()
        &&& self.inter_token.wf()
        &&& self.e2e.wf()
        &&& self.queue_time.wf()
        &&& self.req_prompt_tokens.wf()
        &&& self.req_gen_tokens.wf()
        &&& self.prefill_time.wf()
        &&& self.decode_time.wf()
    }
}

impl<F: Copy> VllmState<F> {
    /// How a completed request moves the metrics: counters are raised by it,
    /// gauges are set to its values, and each histogram takes in one value.
    pub open spec fn moved<T: Arithmetic<F = F>>(
        t: T,
        zero: F,
        before: Self,
        after: Self,
        r: VllmRequest<F>,
    ) -> bool {
        &&& after.model == before.model
        &&& after.process_start_time == before.process_start_time
        &&& after.num_preemptions_total == before.num_preemptions_total
        &&& call_ensures(
            T::plus,
            (&t, before.prompt_tokens_total, r.prompt_tokens),
            after.prompt_tokens_total,
        )
        &&& call_ensures(
            T::plus,
            (&t, before.generation_tokens_total, r.output_tokens),
            after.generation_tokens_total,
        )
        &&& call_ensures(
            T::plus,
            (&t, before.prefix_cache_queries_total, r.prompt_tokens),
            after.prefix_cache_queries_total,
        )
        &&& call_ensures(
            T::plus,
            (&t, before.prefix_cache_hits_total, r.cached_tokens),
            after.prefix_cache_hits_total,
        )
        &&& call_ensures(
            T::plus,
            (&t, before.prompt_tokens_cached_total, r.cached_tokens),
            after.prompt_tokens_cached_total,
        )
        &&& (exists|one: F| #[trigger]
            call_ensures(T::whole, (&t, 1i64), one) && call_ensures(
                T::plus,
                (&t, before.request_success_total, one),
                after.request_success_total,
            ))
        &&& after.kv_cache_usage_perc == r.kv_cache_usage_perc
        &&& after.num_requests_running == r.num_requests_running
        &&& after.num_requests_waiting == r.num_requests_waiting
        &&& histogram::observed(t, zero, before.ttft, after.ttft, r.ttft)
        &&& histogram::observed(t, zero, before.inter_token, after.inter_token, r.inter_token)
        &&& histogram::observed(t, zero, before.e2e, after.e2e, r.e2e)
        &&& histogram::observed(t, zero, before.queue_time, after.queue_time, r.queue_time)
        &&& histogram::observed(t, zero, before.prefill_time, after.prefill_time, r.prefill_time)
        &&& histogram::observed(t, zero, before.decode_time, after.decode_time, r.decode_time)
        &&& histogram::observed(
            t,
            zero,
            before.req_prompt_tokens,
            after.req_prompt_tokens,
            r.prompt_tokens,
        )
        &&& histogram::observed(
            t,
            zero,
            before.req_gen_tokens,
            after.req_gen_tokens,
            r.output_tokens,
        )
    }

    /// Takes in one completed request.
    pub fn record<T: Arithmetic<F = F>>(&mut self, t: &T, zero: F, r: VllmRequest<F>)
        requires
            old(self).wf(),
        ensures
            final(self).wf(),
            Self::moved(*t, zero, *old(self), *final(self), r),
    {
        self.prompt_tokens_total = t.plus(self.prompt_tokens_total, r.prompt_tokens);
        self.generation_tokens_total = t.plus(self.generation_tokens_total, r.output_tokens);
        self.prefix_cache_queries_total = t.plus(self.prefix_cache_queries_total, r.prompt_tokens);
        self.prefix_cache_hits_total = t.plus(self.prefix_cache_hits_total, r.cached_tokens);
        self.prompt_tokens_cached_total = t.plus(self.prompt_tokens_cached_total, r.cached_tokens);
        let one = t.whole(1);
        assert(call_ensures(T::whole, (t, 1i64), one));
        self.request_success_total = t.plus(self.request_success_total, one);
        self.ttft.observe(t, zero, r.ttft);
        self.inter_token.observe(t, zero, r.inter_token);
        self.e2e.observe(t, zero, r.e2e);
        self.queue_time.observe(t, zero, r.queue_time);
        self.prefill_time.observe(t, zero, r.prefill_time);
        self.decode_time.observe(t, zero, r.decode_time);
        self.req_prompt_tokens.observe(t, zero, r.prompt_tokens);
        self.req_gen_tokens.observe(t, zero, r.output_tokens);
        self.kv_cache_usage_perc = r.kv_cache_usage_perc;
        self.num_requests_running = r.num_requests_running;
        self.num_requests_waiting = r.num_requests_waiting;
    }

    /// The same metrics with their numbers as texts.
    pub fn texts<T: Spelling<F = F>>(&self, t: &T, zero: F) -> (r: VllmState<String>)
        requires
            self.wf(),
        ensures
            r.wf(),
            Self::spelled(*t, zero, *self, r),
    {
        VllmState {
            model: self.model.clone(),
            process_start_time: fmt_f64(t, zero, self.process_start_time),
            prompt_tokens_total: fmt_f64(t, zero, self.prompt_tokens_total),
            generation_tokens_total: fmt_f64(t, zero, self.generation_tokens_total),
            prompt_tokens_cached_total: fmt_f64(t, zero, self.prompt_tokens_cached_total),
            num_preemptions_total: fmt_f64(t, zero, self.num_preemptions_total),
            prefix_cache_hits_total: fmt_f64(t, zero, self.prefix_cache_hits_total),
            prefix_cache_queries_total: fmt_f64(t, zero, self.prefix_cache_queries_total),
            request_success_total: fmt_f64(t, zero, self.request_success_total),
            num_requests_running: fmt_f64(t, zero, self.num_requests_running),
            num_requests_waiting: fmt_f64(t, zero, self.num_requests_waiting),
            kv_cache_usage_perc: fmt_f64(t, zero, self.kv_cache_usage_perc),
            ttft: self.ttft.texts(t, zero),
            inter_token: self.inter_token.texts(t, zero),
            e2e: self.e2e.texts(t, zero),
            queue_time: self.queue_time.texts(t, zero),
            req_prompt_tokens: self.req_prompt_tokens.texts(t, zero),
            req_gen_tokens: self.req_gen_tokens.texts(t, zero),
            prefill_time: self.prefill_time.texts(t, zero),
            decode_time: self.decode_time.texts(t, zero),
        }
    }

    /// Every number of `s` is spelled in `x`.
    pub open spec fn spelled<T: Spelling<F = F>>(
        t: T,
        zero: F,
        s: Self,
        x: VllmState<String>,
    ) -> bool {
        &&& x.model == s.model
        &&& histogram::is_token(t, zero, s.process_start_time, x.process_start_time@)
        &&& histogram::is_token(t, zero, s.prompt_tokens_total, x.prompt_tokens_total@)
        &&& histogram::is_token(t, zero, s.generation_tokens_total, x.generation_tokens_total@)
        &&& histogram::is_token(
            t,
            zero,
            s.prompt_tokens_cached_total,
            x.prompt_tokens_cached_total@,
        )
        &&& histogram::is_token(t, zero, s.num_preemptions_total, x.num_preemptions_total@)
        &&& histogram::is_token(t, zero, s.prefix_cache_hits_total, x.prefix_cache_hits_total@)
        &&& histogram::is_token(
            t,
            zero,
            s.prefix_cache_queries_total,
            x.prefix_cache_queries_total@,
        )
        &&& histogram::is_token(t, zero, s.request_success_total, x.request_success_total@)
        &&& histogram::is_token(t, zero, s.num_requests_running, x.num_requests_running@)
        &&& histogram::is_token(t, zero, s.num_requests_waiting, x.num_requests_waiting@)
        &&& histogram::is_token(t, zero, s.kv_cache_usage_perc, x.kv_cache_usage_perc@)
        &&& histogram::spelled(t, zero, s.ttft, x.ttft)
        &&& histogram::spelled(t, zero, s.inter_token, x.inter_token)
        &&& histogram::spelled(t, zero, s.e2e, x.e2e)
        &&& histogram::spelled(t, zero, s.queue_time, x.queue_time)
        &&& histogram::spelled(t, zero, s.req_prompt_tokens, x.req_prompt_tokens)
        &&& histogram::spelled(t, zero, s.req_gen_tokens, x.req_gen_tokens)
        &&& histogram::spelled(t, zero, s.prefill_time, x.prefill_time)
        &&& histogram::spelled(t, zero, s.decode_time, x.decode_time)
    }
}

impl<F: Copy> VllmState<F> {
    /// Nothing was served yet: all counters and gauges are zero, and the
    /// histograms over the given bounds are empty.
    pub open spec fn is_new(&self, zero: F, b: VllmBounds<F>) -> bool {
        &&& self.prompt_tokens_total == zero
        &&& self.generation_tokens_total == zero
        &&& self.prompt_tokens_cached_total == zero
        &&& self.num_preemptions_total == zero
        &&& self.prefix_cache_hits_total == zero
        &&& self.prefix_cache_queries_total == zero
        &&& self.request_success_total == zero
        &&& self.num_requests_running == zero
        &&& self.num_requests_waiting == zero
        &&& self.kv_cache_usage_perc == zero
        &&& is_fresh(self.ttft, b.ttft@, zero)
        &&& is_fresh(self.inter_token, b.inter_token@, zero)
        &&& is_fresh(self.e2e, b.e2e@, zero)
        &&& is_fresh(self.queue_time, b.e2e@, zero)
        &&& is_fresh(self.req_prompt_tokens, b.tokens@, zero)
        &&& is_fresh(self.req_gen_tokens, b.tokens@, zero)
        &&& is_fresh(self.prefill_time, b.e2e@, zero)
        &&& is_fresh(self.decode_time, b.e2e@, zero)
    }

    /// The metrics of a server that has served nothing yet.
    pub fn new(model: String, start: F, zero: F, bounds: &VllmBounds<F>) -> (r: VllmState<F>)
        requires
            bounds.ttft@.len() < usize::MAX,
            bounds.inter_token@.len() < usize::MAX,
            bounds.e2e@.len() < usize::MAX,
            bounds.tokens@.len() < usize::MAX,
        ensures
            r.wf(),
            r.model == model,
            r.process_start_time == start,
            r.is_new(zero, *bounds),
    {
        VllmState {
            model,
            process_start_time: start,
            prompt_tokens_total: zero,
            generation_tokens_total: zero,
            prompt_tokens_cached_total: zero,
            num_preemptions_total: zero,
            prefix_cache_hits_total: zero,
            prefix_cache_queries_total: zero,
            request_success_total: zero,
            num_requests_running: zero,
            num_requests_waiting: zero,
            kv_cache_usage_perc: zero,
            ttft: HistAcc::new(copy_bounds(&bounds.ttft), zero),
            inter_token: HistAcc::new(copy_bounds(&bounds.inter_token), zero),
            e2e: HistAcc::new(copy_bounds(&bounds.e2e), zero),
            queue_time: HistAcc::new(copy_bounds(&bounds.e2e), zero),
            req_prompt_tokens: HistAcc::new(copy_bounds(&bounds.tokens), zero),
            req_gen_tokens: HistAcc::new(copy_bounds(&bounds.tokens), zero),
            prefill_time: HistAcc::new(copy_bounds(&bounds.e2e), zero),
            decode_time: HistAcc::new(copy_bounds(&bounds.e2e), zero),
        }
    }
}

impl<F> SglState<F> {
    pub open spec fn wf(&self) -> bool {
        &&& self.ttft.wf()
        &&& self.e2e.wf()
        &&& self.tpot.wf()
    }
}

impl<F: Copy> SglState<F> {
    /// How a completed request moves the metrics.
    pub open spec fn moved<T: Arithmetic<F = F>>(
        t: T,
        zero: F,
        before: Self,
        after: Self,
        r: SglRequest<F>,
    ) -> bool {
        &&& after.model == before.model
        &&& after.process_start_time == before.process_start_time
        &&& call_ensures(
            T::plus,
            (&t, before.prompt_tokens_total, r.prompt_tokens),
            after.prompt_tokens_total,
        )
        &&& call_ensures(
            T::plus,
            (&t, before.generation_tokens_total, r.output_tokens),
            after.generation_tokens_total,
        )
        &&& call_ensures(
            T::plus,
            (&t, before.num_used_tokens, r.output_tokens),
            after.num_used_tokens,
        )
        &&& after.num_running_reqs == r.num_running_reqs
        &&& after.num_queue_reqs == r.num_queue_reqs
        &&& after.cache_hit_rate == r.cache_hit_rate
        &&& after.token_usage == r.token_usage
        &&& after.gen_throughput == r.gen_throughput
        &&& histogram::observed(t, zero, before.ttft, after.ttft, r.ttft)
        &&& histogram::observed(t, zero, before.e2e, after.e2e, r.e2e)
        &&& histogram::observed(t, zero, before.tpot, after.tpot, r.tpot)
    }

    /// Takes in one completed request.
    pub fn record<T: Arithmetic<F = F>>(&mut self, t: &T, zero: F, r: SglRequest<F>)
        requires
            old(self).wf(),
        ensures
            final(self).wf(),
            Self::moved(*t, zero, *old(self), *final(self), r),
    {
        self.prompt_tokens_total = t.plus(self.prompt_tokens_total, r.prompt_tokens);
        self.generation_tokens_total = t.plus(self.generation_tokens_total, r.output_tokens);
        self.num_used_tokens = t.plus(self.num_used_tokens, r.output_tokens);
        self.ttft.observe(t, zero, r.ttft);
        self.e2e.observe(t, zero, r.e2e);
        self.tpot.observe(t, zero, r.tpot);
        self.num_running_reqs = r.num_running_reqs;
        self.num_queue_reqs = r.num_queue_reqs;
        self.cache_hit_rate = r.cache_hit_rate;
        self.token_usage = r.token_usage;
        self.gen_throughput = r.gen_throughput;
    }

    /// The same metrics with their numbers as texts.
    pub fn texts<T: Spelling<F = F>>(&self, t: &T, zero: F) -> (r: SglState<String>)
        requires
            self.wf(),
        ensures
            r.wf(),
            Self::spelled(*t, zero, *self, r),
    {
        SglState {
            model: self.model.clone(),
            process_start_time: fmt_f64(t, zero, self.process_start_time),
            prompt_tokens_total: fmt_f64(t, zero, self.prompt_tokens_total),
            generation_tokens_total: fmt_f64(t, zero, self.generation_tokens_total),
            num_running_reqs: fmt_f64(t, zero, self.num_running_reqs),
            num_queue_reqs: fmt_f64(t, zero, self.num_queue_reqs),
            cache_hit_rate: fmt_f64(t, zero, self.cache_hit_rate),
            token_usage: fmt_f64(t, zero, self.token_usage),
            num_used_tokens: fmt_f64(t, zero, self.num_used_tokens),
            gen_throughput: fmt_f64(t, zero, self.gen_throughput),
            ttft: self.ttft.texts(t, zero),
            e2e: self.e2e.texts(t, zero),
            tpot: self.tpot.texts(t, zero),
        }
    }

    /// Every number of `s` is spelled in `x`.
    pub open spec fn spelled<T: Spelling<F = F>>(
        t: T,
        zero: F,
        s: Self,
        x: SglState<String>,
    ) -> bool {
        &&& x.model == s.model
        &&& histogram::is_token(t, zero, s.process_start_time, x.process_start_time@)
        &&& histogram::is_token(t, zero, s.prompt_tokens_total, x.prompt_tokens_total@)
        &&& histogram::is_token(t, zero, s.generation_tokens_total, x.generation_tokens_total@)
        &&& histogram::is_token(t, zero, s.num_running_reqs, x.num_running_reqs@)
        &&& histogram::is_token(t, zero, s.num_queue_reqs, x.num_queue_reqs@)
        &&& histogram::is_token(t, zero, s.cache_hit_rate, x.cache_hit_rate@)
        &&& histogram::is_token(t, zero, s.token_usage, x.token_usage@)
        &&& histogram::is_token(t, zero, s.num_used_tokens, x.num_used_tokens@)
        &&& histogram::is_token(t, zero, s.gen_throughput, x.gen_throughput@)
        &&& histogram::spelled(t, zero, s.ttft, x.ttft)
        &&& histogram::spelled(t, zero, s.e2e, x.e2e)
        &&& histogram::spelled(t, zero, s.tpot, x.tpot)
    }
}

impl<F: Copy> SglState<F> {
    /// Nothing was served yet.
    pub open spec fn is_new(&self, zero: F, b: SglBounds<F>) -> bool {
        &&& self.prompt_tokens_total == zero
        &&& self.generation_tokens_total == zero
        &&& self.num_running_reqs == zero
        &&& self.num_queue_reqs == zero
        &&& self.cache_hit_rate == zero
        &&& self.token_usage == zero
        &&& self.num_used_tokens == zero
        &&& self.gen_throughput == zero
        &&& is_fresh(self.ttft, b.ttft@, zero)
        &&& is_fresh(self.e2e, b.e2e@, zero)
        &&& is_fresh(self.tpot, b.tpot@, zero)
    }

    /// The metrics of a server that has served nothing yet.
    pub fn new(model: String, start: F, zero: F, bounds: &SglBounds<F>) -> (r: SglState<F>)
        requires
            bounds.ttft@.len() < usize::MAX,
            bounds.e2e@.len() < usize::MAX,
            bounds.tpot@.len() < usize::MAX,
        ensures
            r.wf(),
            r.model == model,
            r.process_start_time == start,
            r.is_new(zero, *bounds),
    {
        SglState {
            model,
            process_start_time: start,
            prompt_tokens_total: zero,
            generation_tokens_total: zero,
            num_running_reqs: zero,
            num_queue_reqs: zero,
            cache_hit_rate: zero,
            token_usage: zero,
            num_used_tokens: zero,
            gen_throughput: zero,
            ttft: HistAcc::new(copy_bounds(&bounds.ttft), zero),
            e2e: HistAcc::new(copy_bounds(&bounds.e2e), zero),
            tpot: HistAcc::new(copy_bounds(&bounds.tpot), zero),
        }
    }
}

impl<F> BackendState<F> {
    pub open spec fn wf(&self) -> bool {
        match self {
            BackendState::Vllm(v) => v.wf(),
            BackendState::Sgl(g) => g.wf(),
        }
    }
}

impl<F: Copy> BackendState<F> {
    /// Every number of `s` is spelled in `x`.
    pub open spec fn spelled<T: Spelling<F = F>>(
        t: T,
        zero: F,
        s: Self,
        x: BackendState<String>,
    ) -> bool {
        match (s, x) {
            (BackendState::Vllm(v), BackendState::Vllm(w)) => VllmState::spelled(t, zero, v, w),
            (BackendState::Sgl(g), BackendState::Sgl(h)) => SglState::spelled(t, zero, g, h),
            _ => false,
        }
    }

    /// The same metrics with their numbers as texts.
    pub fn texts<T: Spelling<F = F>>(&self, t: &T, zero: F) -> (r: BackendState<String>)
        requires
            self.wf(),
        ensures
            r.wf(),
            Self::spelled(*t, zero, *self, r),
    {
        match self {
            BackendState::Vllm(v) => BackendState::Vllm(v.texts(t, zero)),
            BackendState::Sgl(g) => BackendState::Sgl(g.texts(t, zero)),
        }
    }
}

/// The metrics of a server that has served nothing yet: those of an SGLang
/// server where that is mocked, else those of a vLLM server.
pub fn fresh_state<T: Arithmetic>(
    t: &T,
    zero: T::F,
    backend: BackendKind,
    model: String,
    start: T::F,
) -> (r: BackendState<T::F>)
    ensures
        r.wf(),
        match r {
            BackendState::Vllm(v) => backend != BackendKind::Sgl && v.model == model
                && v.process_start_time == start && exists|b: VllmBounds<T::F>| #[trigger]
                bounds::are_vllm(*t, b) && v.is_new(zero, b),
            BackendState::Sgl(g) => backend == BackendKind::Sgl && g.model == model
                && g.process_start_time == start && exists|b: SglBounds<T::F>| #[trigger]
                bounds::are_sgl(*t, b) && g.is_new(zero, b),
        },
{
    if mocks_sglang(backend) {
        let b = sgl_bounds(t);
        assert(bounds::are_sgl(*t, b));
        BackendState::Sgl(SglState::new(model, start, zero, &b))
    } else {
        let b = vllm_bounds(t);
        assert(bounds::are_vllm(*t, b));
        BackendState::Vllm(VllmState::new(model, start, zero, &b))
    }
}

} // verus!
