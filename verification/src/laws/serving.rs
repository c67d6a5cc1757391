//! What the mock server serves of the requests that it answered.

use vstd::prelude::*;

use crate::collectors::scrape::Scrape;
use crate::collectors::{sglang, vllm, BackendKind};
use crate::exposition;
use crate::json;
use crate::json::Json;
use crate::mock_server::answer::answer;
use crate::mock_server::chance;
use crate::mock_server::chance::Curves;
use crate::mock_server::config::MockServerConfig;
use crate::mock_server::histogram::{HistAcc, Spelling};
use crate::mock_server::http::{response, route, Route};
use crate::mock_server::numbers;
use crate::mock_server::numbers::Meaning;
use crate::mock_server::readback;
use crate::mock_server::render;
use crate::mock_server::render::render_metrics;
use crate::mock_server::replies;
use crate::mock_server::rng;
use crate::mock_server::rng::Rng;
use crate::mock_server::served;
use crate::mock_server::simulate;
use crate::mock_server::simulate::{
    answer_delay, normal, simulate_request_with, simulate_sgl_request_with,
    simulate_vllm_request_with, Chance,
};
use crate::mock_server::state::{
    fresh_state, BackendState, SglRequest, SglState, VllmRequest, VllmState,
};
use crate::report;
use crate::state::{evaluate, Arithmetic, BackendSnapshot};
use crate::text;

verus! {

/// Recording a request on a mock SGLang server raises each counter by the
/// request's own number and sets each gauge to it; every histogram takes in its
/// own time.
pub proof fn law_sgl_record_counts<T: Arithmetic>(
    t: T,
    v: spec_fn(T::F) -> real,
    zero: T::F,
    s: &mut SglState<T::F>,
    r: SglRequest<T::F>,
)
    requires
        served::computes(t, v, zero),
        v(r.ttft) >= 0real && v(r.tpot) >= 0real && v(r.e2e) >= 0real,
        call_ensures(SglState::<T::F>::record::<T>, (s, &t, zero, r), ()),
    ensures
        ({
            let (a, b) = (*old(s), *final(s));
            &&& v(b.prompt_tokens_total) == v(a.prompt_tokens_total) + v(r.prompt_tokens)
            &&& v(b.generation_tokens_total) == v(a.generation_tokens_total) + v(r.output_tokens)
            &&& v(b.num_used_tokens) == v(a.num_used_tokens) + v(r.output_tokens)
            &&& v(b.num_running_reqs) == v(r.num_running_reqs)
            &&& v(b.num_queue_reqs) == v(r.num_queue_reqs)
            &&& v(b.cache_hit_rate) == v(r.cache_hit_rate)
            &&& v(b.token_usage) == v(r.token_usage)
            &&& v(b.gen_throughput) == v(r.gen_throughput)
            &&& served::took(v, a.ttft, b.ttft, v(r.ttft))
            &&& served::took(v, a.tpot, b.tpot, v(r.tpot))
            &&& served::took(v, a.e2e, b.e2e, v(r.e2e))
        }),
{
    served::lemma_took(t, v, zero, old(s).ttft, final(s).ttft, r.ttft);
    served::lemma_took(t, v, zero, old(s).tpot, final(s).tpot, r.tpot);
    served::lemma_took(t, v, zero, old(s).e2e, final(s).e2e, r.e2e);
}

/// Recording a request on a mock vLLM server raises each counter by the
/// request's own number and sets each gauge to it; every histogram takes in its
/// own time or size.
pub proof fn law_vllm_record_counts<T: Arithmetic>(
    t: T,
    v: spec_fn(T::F) -> real,
    zero: T::F,
    s: &mut VllmState<T::F>,
    r: VllmRequest<T::F>,
)
    requires
        served::computes(t, v, zero),
        v(r.ttft) >= 0real && v(r.inter_token) >= 0real && v(r.e2e) >= 0real,
        v(r.queue_time) >= 0real && v(r.prefill_time) >= 0real && v(r.decode_time) >= 0real,
        v(r.prompt_tokens) >= 0real && v(r.output_tokens) >= 0real,
        call_ensures(VllmState::<T::F>::record::<T>, (s, &t, zero, r), ()),
    ensures
        ({
            let (a, b) = (*old(s), *final(s));
            let (p, o) = (v(r.prompt_tokens), v(r.output_tokens));
            &&& v(b.prompt_tokens_total) == v(a.prompt_tokens_total) + p
            &&& v(b.generation_tokens_total) == v(a.generation_tokens_total) + o
            &&& v(b.prefix_cache_queries_total) == v(a.prefix_cache_queries_total) + p
            &&& v(b.prefix_cache_hits_total) == v(a.prefix_cache_hits_total) + v(r.cached_tokens)
            &&& v(b.prompt_tokens_cached_total) == v(a.prompt_tokens_cached_total) + v(
                r.cached_tokens,
            )
            &&& v(b.request_success_total) == v(a.request_success_total) + 1real
            &&& v(b.num_preemptions_total) == v(a.num_preemptions_total)
            &&& v(b.num_requests_running) == v(r.num_requests_running)
            &&& v(b.num_requests_waiting) == v(r.num_requests_waiting)
            &&& v(b.kv_cache_usage_perc) == v(r.kv_cache_usage_perc)
            &&& served::took(v, a.ttft, b.ttft, v(r.ttft))
            &&& served::took(v, a.inter_token, b.inter_token, v(r.inter_token))
            &&& served::took(v, a.e2e, b.e2e, v(r.e2e))
            &&& served::took(v, a.queue_time, b.queue_time, v(r.queue_time))
            &&& served::took(v, a.prefill_time, b.prefill_time, v(r.prefill_time))
            &&& served::took(v, a.decode_time, b.decode_time, v(r.decode_time))
            &&& served::took(v, a.req_prompt_tokens, b.req_prompt_tokens, p)
            &&& served::took(v, a.req_gen_tokens, b.req_gen_tokens, o)
        }),
{
    let (a, b) = (*old(s), *final(s));
    served::lemma_took(t, v, zero, a.ttft, b.ttft, r.ttft);
    served::lemma_took(t, v, zero, a.inter_token, b.inter_token, r.inter_token);
    served::lemma_took(t, v, zero, a.e2e, b.e2e, r.e2e);
    served::lemma_took(t, v, zero, a.queue_time, b.queue_time, r.queue_time);
    served::lemma_took(t, v, zero, a.prefill_time, b.prefill_time, r.prefill_time);
    served::lemma_took(t, v, zero, a.decode_time, b.decode_time, r.decode_time);
    served::lemma_took(t, v, zero, a.req_prompt_tokens, b.req_prompt_tokens, r.prompt_tokens);
    served::lemma_took(t, v, zero, a.req_gen_tokens, b.req_gen_tokens, r.output_tokens);
}

/// Observing a value raises the count, the sum, and just those buckets whose
/// bound is not below the value.
pub proof fn law_observed_values_are_counted<T: Arithmetic>(
    t: T,
    v: spec_fn(T::F) -> real,
    zero: T::F,
    h: &mut HistAcc<T::F>,
    x: T::F,
)
    requires
        served::computes(t, v, zero),
        v(x) >= 0real,
        call_ensures(HistAcc::<T::F>::observe::<T>, (h, &t, zero, x), ()),
    ensures
        served::took(v, *old(h), *final(h), v(x)),
{
    served::lemma_took(t, v, zero, *old(h), *final(h), x);
}

/// A simulated request that returned its numbers of prompt and of output tokens
/// raised the server's count of prompt tokens by the one and that of generated
/// tokens by the other.
pub proof fn law_simulated_tokens_are_counted<T: Chance>(
    t: T,
    v: spec_fn(T::F) -> real,
    zero: T::F,
    g: &mut Rng,
    s: &mut BackendState<T::F>,
    c: MockServerConfig<T::F>,
    n: (u32, u32),
)
    requires
        served::computes(t, v, zero),
        call_ensures(simulate_request_with::<T>, (&t, zero, g, s, &c), n),
    ensures
        ({
            let (a, b) = (replies::tokens_counted(*old(s)), replies::tokens_counted(*final(s)));
            &&& v(b.0) == v(a.0) + n.0 as real
            &&& v(b.1) == v(a.1) + n.1 as real
        }),
        n.0 >= 1 && n.1 >= 1,
{
    match (*old(s), *final(s)) {
        (BackendState::Vllm(a), BackendState::Vllm(b)) => {
            let d = served::law_vllm_request_is_counted(
                t,
                v,
                zero,
                old(g).at(),
                final(g).at(),
                a,
                b,
                c,
                n,
            );
        },
        (BackendState::Sgl(a), BackendState::Sgl(b)) => {
            let d = served::law_sgl_request_is_counted(
                t,
                v,
                zero,
                old(g).at(),
                final(g).at(),
                a,
                b,
                c,
                n,
            );
        },
        _ => {},
    }
}

/// The scrape of what a mock SGLang server serves has just the tokens that the
/// server counted.
pub proof fn law_sgl_scrape_has_what_was_counted<T: Chance + Spelling>(
    t: T,
    m: Meaning<T::F>,
    zero: T::F,
    s: SglState<T::F>,
    out: String,
    body: &str,
    p: Scrape,
    r: BackendSnapshot<T::F>,
)
    requires
        served::computes(t, m.v, zero),
        numbers::reads_what_it_spells(t, zero, m),
        readback::spells_tokens(t),
        exposition::is_plain(s.model@),
        numbers::sgl_numbers(t, m, s),
        call_ensures(render_metrics::<T>, (&t, zero, &BackendState::Sgl(s)), out),
        body@ == out@,
        call_ensures(sglang::parse_metrics, (body,), p),
        call_ensures(evaluate::<T>, (&t, zero, p), r),
    ensures
        (m.v)(r.prompt_tokens_total) == (m.v)(s.prompt_tokens_total),
        (m.v)(r.generation_tokens_total) == (m.v)(s.generation_tokens_total),
        (m.v)(r.num_requests_running) == (m.v)(s.num_running_reqs),
        (m.v)(r.num_requests_waiting) == (m.v)(s.num_queue_reqs),
        (m.v)(r.ttft.sum) == (m.v)(s.ttft.sum),
        (m.v)(r.inter_token.sum) == (m.v)(s.tpot.sum),
        (m.v)(r.e2e.sum) == (m.v)(s.e2e.sum),
{
    let b = BackendState::Sgl(s);
    let x = choose|x: BackendState<String>| #[trigger]
        BackendState::<T::F>::spelled(t, zero, b, x) && out@
            == render::metrics_text(x);
    match x {
        BackendState::Sgl(y) => {
            numbers::law_sgl_numbers_read_back(t, zero, m, s, y, p, r);
        },
        _ => {},
    }
}

/// The scrape of what a mock vLLM server serves has just what the server
/// counted, metric by metric.
pub proof fn law_vllm_scrape_has_what_was_counted<T: Chance + Spelling>(
    t: T,
    m: Meaning<T::F>,
    zero: T::F,
    s: VllmState<T::F>,
    out: String,
    body: &str,
    p: Scrape,
    r: BackendSnapshot<T::F>,
)
    requires
        served::computes(t, m.v, zero),
        numbers::reads_what_it_spells(t, zero, m),
        readback::spells_tokens(t),
        exposition::is_plain(s.model@),
        numbers::vllm_numbers(t, m, s),
        call_ensures(render_metrics::<T>, (&t, zero, &BackendState::Vllm(s)), out),
        body@ == out@,
        call_ensures(vllm::parse_metrics, (body,), p),
        call_ensures(evaluate::<T>, (&t, zero, p), r),
    ensures
        (m.v)(r.prompt_tokens_total) == (m.v)(s.prompt_tokens_total),
        (m.v)(r.generation_tokens_total) == (m.v)(s.generation_tokens_total),
        (m.v)(r.prompt_tokens_cached_total) == (m.v)(s.prompt_tokens_cached_total),
        (m.v)(r.num_preemptions_total) == (m.v)(s.num_preemptions_total),
        (m.v)(r.prefix_cache_hits_total) == (m.v)(s.prefix_cache_hits_total),
        (m.v)(r.prefix_cache_queries_total) == (m.v)(s.prefix_cache_queries_total),
        (m.v)(r.request_success_total) == (m.v)(s.request_success_total),
        (m.v)(r.num_requests_running) == (m.v)(s.num_requests_running),
        (m.v)(r.num_requests_waiting) == (m.v)(s.num_requests_waiting),
        (m.v)(r.kv_cache_usage_perc) == (m.v)(s.kv_cache_usage_perc),
        (m.v)(r.ttft.sum) == (m.v)(s.ttft.sum),
        (m.v)(r.inter_token.sum) == (m.v)(s.inter_token.sum),
        (m.v)(r.e2e.sum) == (m.v)(s.e2e.sum),
        (m.v)(r.queue_time.sum) == (m.v)(s.queue_time.sum),
        (m.v)(r.prefill_time.sum) == (m.v)(s.prefill_time.sum),
        (m.v)(r.decode_time.sum) == (m.v)(s.decode_time.sum),
        (m.v)(r.req_prompt_tokens.sum) == (m.v)(s.req_prompt_tokens.sum),
        (m.v)(r.req_gen_tokens.sum) == (m.v)(s.req_gen_tokens.sum),
{
    let b = BackendState::Vllm(s);
    let x = choose|x: BackendState<String>| #[trigger]
        BackendState::<T::F>::spelled(t, zero, b, x) && out@
            == render::metrics_text(x);
    match x {
        BackendState::Vllm(y) => {
            numbers::law_vllm_numbers_read_back(t, zero, m, s, y, p, r);
        },
        _ => {},
    }
}

/// The text is that of an object that names the model and says how many tokens
/// of each kind were used.
pub open spec fn says_usage(
    body: Seq<char>,
    model: Seq<char>,
    j: Json,
    prompt: nat,
    output: nat,
) -> bool {
    &&& body == json::compact_text(j)
    &&& report::member(j, "model"@) == Json::Text(model)
    &&& replies::counts(report::member(j, "usage"@), "prompt_tokens"@, prompt)
    &&& replies::counts(report::member(j, "usage"@), "completion_tokens"@, output)
    &&& replies::counts(report::member(j, "usage"@), "total_tokens"@, prompt + output)
}

/// The answer to a completion says under "prompt_tokens" by how much the
/// server's count of prompt tokens grew, under "completion_tokens" by how much
/// that of generated tokens grew, and under "total_tokens" their sum.
pub proof fn law_answer_says_what_was_counted<T: Chance + Spelling>(
    t: T,
    v: spec_fn(T::F) -> real,
    zero: T::F,
    g: &mut Rng,
    s: &mut BackendState<T::F>,
    c: MockServerConfig<T::F>,
    method: &str,
    path: &str,
    r: (u16, &'static str, String),
)
    requires
        served::computes(t, v, zero),
        replies::asks_completion(method@, path@),
        call_ensures(answer::<T>, (&t, zero, g, s, &c, method, path), r),
    ensures
        r.0 == 200 && r.1@ == "application/json"@,
        exists|j: Json, prompt: nat, output: nat| #[trigger]
            says_usage(r.2@, c.model@, j, prompt, output) && v(
                replies::tokens_counted(*final(s)).0,
            ) == v(replies::tokens_counted(*old(s)).0) + (prompt as int) as real && v(
                replies::tokens_counted(*final(s)).1,
            ) == v(replies::tokens_counted(*old(s)).1) + (output as int) as real,
{
    replies::law_status_of_requests(method@, path@);
    replies::lemma_words_differ();
    let (j, p, o) = replies::law_usage_is_what_was_counted(
        t,
        v,
        zero,
        old(g).at(),
        final(g).at(),
        *old(s),
        *final(s),
        c,
        method@,
        path@,
        r.2@,
    );
    assert(says_usage(r.2@, c.model@, j, p, o));
}

/// Any other request leaves the metrics and the generator as they are, and is
/// answered by what it asks for.
pub proof fn law_other_answers_count_nothing<T: Chance + Spelling>(
    t: T,
    zero: T::F,
    g: &mut Rng,
    s: &mut BackendState<T::F>,
    c: MockServerConfig<T::F>,
    method: &str,
    path: &str,
    r: (u16, &'static str, String),
)
    requires
        !replies::asks_completion(method@, path@),
        call_ensures(answer::<T>, (&t, zero, g, s, &c, method, path), r),
    ensures
        *final(s) == *old(s),
        final(g).at() == old(g).at(),
        r.0 == if method@ == "OPTIONS"@ {
            204u16
        } else if replies::asks_page(method@, path@) {
            200u16
        } else {
            404u16
        },
        method@ == "OPTIONS"@ ==> r.2@.len() == 0,
{
    replies::law_status_of_requests(method@, path@);
    replies::lemma_words_differ();
    replies::law_only_completions_count(
        t,
        zero,
        old(g).at(),
        final(g).at(),
        *old(s),
        *final(s),
        c,
        method@,
        path@,
        r.2@,
    );
}

/// The lines of an answer: the status first, the type of the content, its length
/// in bytes, an empty line after the headers, and the lines of the body.
pub proof fn law_response_is_framed(status: u16, content_type: &str, body: &str, r: String)
    requires
        !content_type@.contains('\n'),
        call_ensures(response, (status, content_type, body), r),
    ensures
        ({
            let ls = text::lines(r@);
            &&& ls.len() == 9 + text::lines(body@).len()
            &&& ls[0] == "HTTP/1.1 "@ + text::decimal(status as nat)
            &&& ls[1] == "Content-Type: "@ + content_type@
            &&& ls[2] == "Content-Length: "@ + text::decimal(
                vstd::utf8::encode_utf8(body@).len(),
            )
            &&& ls[8] == Seq::<char>::empty()
            &&& ls.skip(9) == text::lines(body@)
        }),
{
    replies::law_answers_are_framed(
        status,
        content_type@,
        vstd::utf8::encode_utf8(body@).len(),
        body@,
    );
}

/// What a request asks for.
pub proof fn law_routes(method: &str, path: &str, r: Route)
    requires
        call_ensures(route, (method, path), r),
    ensures
        r == Route::Completion <==> replies::asks_completion(method@, path@),
        r == Route::Options <==> method@ == "OPTIONS"@,
        r == Route::Metrics <==> method@ == "GET"@ && path@ == "/metrics"@,
        r == Route::Health <==> method@ == "GET"@ && path@ == "/health"@,
        r == Route::Models <==> method@ == "GET"@ && path@ == "/v1/models"@,
{
    replies::lemma_words_differ();
}

/// A sample lies as many deviations off the mean as the two draws say, and not
/// below zero; one without deviation draws nothing.
pub proof fn law_normal_deviates_from_the_mean<T: Chance>(
    t: T,
    v: spec_fn(T::F) -> real,
    c: Curves,
    zero: T::F,
    g: &mut Rng,
    mean: T::F,
    std: T::F,
    r: T::F,
)
    requires
        served::computes(t, v, zero),
        chance::follows(t, v, c),
        call_ensures(normal::<T>, (&t, zero, g, mean, std), r),
    ensures
        v(std) <= 0real ==> final(g).at() == old(g).at() && v(r) == served::max(v(mean), 0real),
        v(std) > 0real ==> {
            let first = rng::stirred(old(g).at());
            let (a, b) = (rng::drawn(first), rng::drawn(final(g).at()));
            let z = chance::deviate(c, chance::unit_of(a), chance::unit_of(b));
            &&& final(g).at() == rng::stirred(first)
            &&& v(r) == served::max(v(mean) + z * v(std), 0real)
        },
{
    chance::law_samples_deviate_from_the_mean(
        t,
        v,
        c,
        zero,
        old(g).at(),
        mean,
        std,
        final(g).at(),
        r,
    );
}

/// A simulated request of a mock vLLM server: its numbers of tokens and its times
/// are draws around the configured ones, and each counter, gauge and histogram
/// of the server moves by its own.
pub proof fn law_vllm_requests_move_their_metrics<T: Chance>(
    t: T,
    v: spec_fn(T::F) -> real,
    zero: T::F,
    g: &mut Rng,
    s: &mut VllmState<T::F>,
    c: MockServerConfig<T::F>,
    n: (u32, u32),
)
    requires
        served::computes(t, v, zero),
        call_ensures(simulate_vllm_request_with::<T>, (&t, zero, g, s, &c), n),
    ensures
        exists|ds: Seq<(T::F, T::F)>, d: Seq<T::F>| #[trigger]
            simulate::are_normals(t, zero, old(g).at(), ds, final(g).at(), d) && {
                &&& ds.len() == 8 && d.len() == 8
                &&& served::common_draws(v, c, ds)
                &&& served::draws(v, ds[4], 2real / 10real, 1real / 10real)
                &&& served::draws(v, ds[5], 5real / 100real, 3real / 100real)
                &&& served::draws(v, ds[6], 2real, 1real)
                &&& served::draws(v, ds[7], 1real, 1real)
                &&& served::tokens_of(t, d[0], n.0)
                &&& served::tokens_of(t, d[1], n.1)
                &&& served::vllm_served(
                    t,
                    v,
                    *old(s),
                    *final(s),
                    d,
                    n.0 as real,
                    n.1 as real,
                )
            },
{
    let (ds, d) = served::law_vllm_request_is_counted(
        t,
        v,
        zero,
        old(g).at(),
        final(g).at(),
        *old(s),
        *final(s),
        c,
        n,
    );
}

/// A simulated request of a mock SGLang server: its numbers of tokens and its
/// times are draws around the configured ones, and each counter, gauge and
/// histogram of the server moves by its own.
pub proof fn law_sgl_requests_move_their_metrics<T: Chance>(
    t: T,
    v: spec_fn(T::F) -> real,
    zero: T::F,
    g: &mut Rng,
    s: &mut SglState<T::F>,
    c: MockServerConfig<T::F>,
    n: (u32, u32),
)
    requires
        served::computes(t, v, zero),
        call_ensures(simulate_sgl_request_with::<T>, (&t, zero, g, s, &c), n),
    ensures
        exists|ds: Seq<(T::F, T::F)>, d: Seq<T::F>| #[trigger]
            simulate::are_normals(t, zero, old(g).at(), ds, final(g).at(), d) && {
                &&& ds.len() == 9 && d.len() == 9
                &&& served::common_draws(v, c, ds)
                &&& served::draws(v, ds[4], 2real, 1real)
                &&& served::draws(v, ds[5], 1real, 1real)
                &&& served::draws(v, ds[6], 1real / 100real, 2real / 100real)
                &&& served::draws(v, ds[7], 1real / 100real, 2real / 100real)
                &&& served::draws(v, ds[8], 80real, 20real)
                &&& served::tokens_of(t, d[0], n.0)
                &&& served::tokens_of(t, d[1], n.1)
                &&& served::sgl_served(
                    t,
                    v,
                    *old(s),
                    *final(s),
                    d,
                    n.0 as real,
                    n.1 as real,
                )
            },
{
    let (ds, d) = served::law_sgl_request_is_counted(
        t,
        v,
        zero,
        old(g).at(),
        final(g).at(),
        *old(s),
        *final(s),
        c,
        n,
    );
}

/// A server that has served nothing yet has counted nothing: no tokens, and
/// nothing in any histogram. It is of the backend that was asked for, vLLM where
/// it is left open, and has the model and the start time that it was given.
pub proof fn law_fresh_servers_counted_nothing<T: Arithmetic>(
    t: T,
    v: spec_fn(T::F) -> real,
    zero: T::F,
    backend: BackendKind,
    model: String,
    start: T::F,
    r: BackendState<T::F>,
)
    requires
        v(zero) == 0real,
        call_ensures(fresh_state::<T>, (&t, zero, backend, model, start), r),
    ensures
        r is Sgl <==> backend == BackendKind::Sgl,
        v(replies::tokens_counted(r).0) == 0real && v(replies::tokens_counted(r).1) == 0real,
        r matches BackendState::Vllm(s) ==> {
            &&& s.model@ == model@ && s.process_start_time == start
            &&& v(s.request_success_total) == 0real && v(s.num_preemptions_total) == 0real
            &&& v(s.prefix_cache_hits_total) == 0real && v(s.prefix_cache_queries_total) == 0real
            &&& v(s.num_requests_running) == 0real && v(s.num_requests_waiting) == 0real
            &&& v(s.kv_cache_usage_perc) == 0real
            &&& s.ttft.count == 0 && s.inter_token.count == 0 && s.e2e.count == 0
            &&& s.queue_time.count == 0 && s.prefill_time.count == 0 && s.decode_time.count == 0
            &&& s.req_prompt_tokens.count == 0 && s.req_gen_tokens.count == 0
            &&& v(s.ttft.sum) == 0real && v(s.e2e.sum) == 0real && v(s.inter_token.sum) == 0real
        },
        r matches BackendState::Sgl(s) ==> {
            &&& s.model@ == model@ && s.process_start_time == start
            &&& v(s.num_running_reqs) == 0real && v(s.num_queue_reqs) == 0real
            &&& v(s.cache_hit_rate) == 0real && v(s.token_usage) == 0real
            &&& s.ttft.count == 0 && s.tpot.count == 0 && s.e2e.count == 0
            &&& v(s.ttft.sum) == 0real && v(s.e2e.sum) == 0real && v(s.tpot.sum) == 0real
        },
{
}

/// An answer to a completion takes a draw around the configured latency, and no
/// time where that is below zero.
pub proof fn law_answers_take_their_time<T: Chance>(
    t: T,
    v: spec_fn(T::F) -> real,
    zero: T::F,
    g: &mut Rng,
    c: MockServerConfig<T::F>,
    r: T::F,
)
    requires
        served::computes(t, v, zero),
        call_ensures(answer_delay::<T>, (&t, zero, g, &c), r),
    ensures
        v(r) >= 0real,
        v(c.request_latency_std) <= 0real ==> final(g).at() == old(g).at() && v(r) == served::max(
            v(c.request_latency),
            0real,
        ),
        v(c.request_latency_std) > 0real ==> final(g).at() == rng::stirred(
            rng::stirred(old(g).at()),
        ),
{
    let n = choose|n: T::F| #[trigger]
        simulate::is_normal(
            t,
            zero,
            old(g).at(),
            c.request_latency,
            c.request_latency_std,
            final(g).at(),
            n,
        ) && call_ensures(T::larger, (&t, n, zero), r);
}

} // verus!
