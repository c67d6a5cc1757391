//! The exposition text of the mock server.

use vstd::prelude::*;

use crate::exposition;
use crate::exposition::{put_heading, put_sample};
use crate::mock_server::histogram;
use crate::mock_server::histogram::Spelling;
use crate::mock_server::state::{BackendState, SglState, VllmState};

verus! {

/// The blocks one after another.
pub open spec fn flat(bs: Seq<Seq<Seq<char>>>) -> Seq<Seq<char>>
    decreases bs.len(),
{
    if bs.len() == 0 {
        Seq::empty()
    } else {
        flat(bs.drop_last()) + bs.last()
    }
}

/// The lines of one scalar: its heading and its sample.
pub open spec fn scalar_lines(
    name: Seq<char>,
    help: Seq<char>,
    kind: Seq<char>,
    labels: Seq<(Seq<char>, Seq<char>)>,
    token: Seq<char>,
) -> Seq<Seq<char>> {
    seq![
        exposition::help_line(name, help),
        exposition::type_line(name, kind),
        exposition::sample_line(name, labels, token),
    ]
}

pub open spec fn start_time_lines(token: Seq<char>) -> Seq<Seq<char>> {
    scalar_lines(
        "process_start_time_seconds"@,
        "Start time of the process since unix epoch in seconds."@,
        "gauge"@,
        Seq::empty(),
        token,
    )
}

pub open spec fn vllm_labels(model: Seq<char>) -> Seq<(Seq<char>, Seq<char>)> {
    histogram::plain_labels(histogram::front_labels(true), model)
}

pub open spec fn sgl_labels(model: Seq<char>) -> Seq<(Seq<char>, Seq<char>)> {
    histogram::plain_labels(histogram::front_labels(false), model)
}

pub open spec fn config_labels(model: Seq<char>) -> Seq<(Seq<char>, Seq<char>)> {
    seq![
        ("block_size"@, "16"@),
        ("cache_dtype"@, "auto"@),
        ("enable_prefix_caching"@, "False"@),
        ("engine"@, "0"@),
        ("gpu_memory_utilization"@, "0.9"@),
        ("model_name"@, model),
        ("num_gpu_blocks"@, "1024"@),
    ]
}

pub open spec fn sleep_labels(model: Seq<char>) -> Seq<(Seq<char>, Seq<char>)> {
    seq![("engine"@, "0"@), ("model_name"@, model), ("sleep_state"@, "awake"@)]
}

/// The blocks of a vLLM exposition, one for each series.
pub open spec fn vllm_blocks(s: VllmState<String>) -> Seq<Seq<Seq<char>>> {
    let m = s.model@;
    let l = vllm_labels(m);
    let front = histogram::front_labels(true);
    let help = "mock vLLM metric."@;
    seq![
        start_time_lines(s.process_start_time@),
        scalar_lines("vllm:num_requests_running"@, help, "gauge"@, l, s.num_requests_running@),
        scalar_lines("vllm:num_requests_waiting"@, help, "gauge"@, l, s.num_requests_waiting@),
        scalar_lines("vllm:kv_cache_usage_perc"@, help, "gauge"@, l, s.kv_cache_usage_perc@),
        scalar_lines("vllm:prompt_tokens_total"@, help, "counter"@, l, s.prompt_tokens_total@),
        scalar_lines(
            "vllm:generation_tokens_total"@,
            help,
            "counter"@,
            l,
            s.generation_tokens_total@,
        ),
        scalar_lines(
            "vllm:prompt_tokens_cached_total"@,
            help,
            "counter"@,
            l,
            s.prompt_tokens_cached_total@,
        ),
        scalar_lines("vllm:num_preemptions_total"@, help, "counter"@, l, s.num_preemptions_total@),
        scalar_lines(
            "vllm:prefix_cache_hits_total"@,
            help,
            "counter"@,
            l,
            s.prefix_cache_hits_total@,
        ),
        scalar_lines(
            "vllm:prefix_cache_queries_total"@,
            help,
            "counter"@,
            l,
            s.prefix_cache_queries_total@,
        ),
        scalar_lines("vllm:request_success_total"@, help, "counter"@, l, s.request_success_total@),
        histogram::histogram_lines(
            s.ttft,
            "vllm:time_to_first_token_seconds"@,
            "time to first token in seconds."@,
            front,
            m,
        ),
        histogram::histogram_lines(
            s.inter_token,
            "vllm:inter_token_latency_seconds"@,
            "inter-token latency in seconds."@,
            front,
            m,
        ),
        histogram::histogram_lines(
            s.e2e,
            "vllm:e2e_request_latency_seconds"@,
            "e2e request latency in seconds."@,
            front,
            m,
        ),
        histogram::histogram_lines(
            s.queue_time,
            "vllm:request_queue_time_seconds"@,
            "time spent in WAITING phase for request."@,
            front,
            m,
        ),
        histogram::histogram_lines(
            s.req_prompt_tokens,
            "vllm:request_prompt_tokens"@,
            "prefill tokens per request."@,
            front,
            m,
        ),
        histogram::histogram_lines(
            s.req_gen_tokens,
            "vllm:request_generation_tokens"@,
            "generation tokens per request."@,
            front,
            m,
        ),
        histogram::histogram_lines(
            s.prefill_time,
            "vllm:request_prefill_time_seconds"@,
            "time spent in PREFILL phase for request."@,
            front,
            m,
        ),
        histogram::histogram_lines(
            s.decode_time,
            "vllm:request_decode_time_seconds"@,
            "time spent in DECODE phase for request."@,
            front,
            m,
        ),
        scalar_lines(
            "vllm:cache_config_info"@,
            "Information of the LLMEngine CacheConfig"@,
            "gauge"@,
            config_labels(m),
            "1.0"@,
        ),
        scalar_lines(
            "vllm:engine_sleep_state"@,
            "Engine sleep state."@,
            "gauge"@,
            sleep_labels(m),
            "1.0"@,
        ),
    ]
}

/// The blocks of an SGLang exposition, one for each series.
pub open spec fn sgl_blocks(s: SglState<String>) -> Seq<Seq<Seq<char>>> {
    let m = s.model@;
    let l = sgl_labels(m);
    let front = histogram::front_labels(false);
    let help = "mock SGLang metric."@;
    seq![
        start_time_lines(s.process_start_time@),
        scalar_lines("sglang:prompt_tokens_total"@, help, "counter"@, l, s.prompt_tokens_total@),
        scalar_lines(
            "sglang:generation_tokens_total"@,
            help,
            "counter"@,
            l,
            s.generation_tokens_total@,
        ),
        scalar_lines("sglang:num_running_reqs"@, help, "gauge"@, l, s.num_running_reqs@),
        scalar_lines("sglang:num_queue_reqs"@, help, "gauge"@, l, s.num_queue_reqs@),
        scalar_lines("sglang:cache_hit_rate"@, help, "gauge"@, l, s.cache_hit_rate@),
        scalar_lines("sglang:token_usage"@, help, "gauge"@, l, s.token_usage@),
        scalar_lines("sglang:num_used_tokens"@, help, "gauge"@, l, s.num_used_tokens@),
        scalar_lines("sglang:gen_throughput"@, help, "gauge"@, l, s.gen_throughput@),
        histogram::histogram_lines(
            s.ttft,
            "sglang:time_to_first_token_seconds"@,
            "Histogram of time to first token in seconds."@,
            front,
            m,
        ),
        histogram::histogram_lines(
            s.e2e,
            "sglang:e2e_request_latency_seconds"@,
            "Histogram of End-to-end request latency in seconds"@,
            front,
            m,
        ),
        histogram::histogram_lines(
            s.tpot,
            "sglang:time_per_output_token_seconds"@,
            "Histogram of time per output token in seconds."@,
            front,
            m,
        ),
    ]
}

/// The exposition text made of the blocks.
pub open spec fn exposition_of(bs: Seq<Seq<Seq<char>>>) -> Seq<char> {
    exposition::unlines(flat(bs))
}

/// Appending the next block to the text of the blocks before it.
pub proof fn lemma_next_block(bs: Seq<Seq<Seq<char>>>, k: int)
    requires
        0 <= k < bs.len(),
    ensures
        exposition_of(bs.take(k + 1)) == exposition_of(bs.take(k)) + exposition::unlines(bs[k]),
{
    assert(bs.take(k + 1).drop_last() =~= bs.take(k));
    exposition::lemma_unlines_add(flat(bs.take(k)), bs[k]);
}

fn put_scalar(
    out: &mut String,
    name: &str,
    help: &str,
    kind: &str,
    labels: &Vec<(&str, &str)>,
    token: &str,
)
    ensures
        final(out)@ == old(out)@ + exposition::unlines(
            scalar_lines(name@, help@, kind@, exposition::slice_labels(labels@), token@),
        ),
{
    put_heading(out, name, help, kind);
    put_sample(out, name, labels, token);
    proof {
        let a = seq![exposition::help_line(name@, help@), exposition::type_line(name@, kind@)];
        let b = seq![exposition::sample_line(name@, exposition::slice_labels(labels@), token@)];
        exposition::lemma_unlines_add(a, b);
        assert(a + b =~= scalar_lines(
            name@,
            help@,
            kind@,
            exposition::slice_labels(labels@),
            token@,
        ));
        assert(out@ =~= old(out)@ + exposition::unlines(a + b));
    }
}

/// The exposition of a vLLM server.
#[verifier::rlimit(40)]
pub fn render_vllm_metrics(s: &VllmState<String>) -> (r: String)
    requires
        s.wf(),
    ensures
        r@ == exposition_of(vllm_blocks(*s)),
{
    let ghost bs = vllm_blocks(*s);
    let model = s.model.as_str();
    let none: Vec<(&str, &str)> = Vec::new();
    assert(exposition::slice_labels(none@) =~= Seq::empty());
    let mut labels: Vec<(&str, &str)> = Vec::new();
    labels.push(("engine", "0"));
    labels.push(("model_name", model));
    assert(exposition::slice_labels(labels@) =~= vllm_labels(model@));
    let help = "mock vLLM metric.";

    let mut out = String::new();
    assert(bs.take(0) =~= Seq::empty());
    assert(out@ =~= exposition_of(bs.take(0)));
    put_scalar(
        &mut out,
        "process_start_time_seconds",
        "Start time of the process since unix epoch in seconds.",
        "gauge",
        &none,
        s.process_start_time.as_str(),
    );
    proof {
        lemma_next_block(bs, 0);
    }
    put_scalar(
        &mut out,
        "vllm:num_requests_running",
        help,
        "gauge",
        &labels,
        s.num_requests_running.as_str(),
    );
    proof {
        lemma_next_block(bs, 1);
    }
    put_scalar(
        &mut out,
        "vllm:num_requests_waiting",
        help,
        "gauge",
        &labels,
        s.num_requests_waiting.as_str(),
    );
    proof {
        lemma_next_block(bs, 2);
    }
    put_scalar(
        &mut out,
        "vllm:kv_cache_usage_perc",
        help,
        "gauge",
        &labels,
        s.kv_cache_usage_perc.as_str(),
    );
    proof {
        lemma_next_block(bs, 3);
    }
    put_scalar(
        &mut out,
        "vllm:prompt_tokens_total",
        help,
        "counter",
        &labels,
        s.prompt_tokens_total.as_str(),
    );
    proof {
        lemma_next_block(bs, 4);
    }
    put_scalar(
        &mut out,
        "vllm:generation_tokens_total",
        help,
        "counter",
        &labels,
        s.generation_tokens_total.as_str(),
    );
    proof {
        lemma_next_block(bs, 5);
    }
    put_scalar(
        &mut out,
        "vllm:prompt_tokens_cached_total",
        help,
        "counter",
        &labels,
        s.prompt_tokens_cached_total.as_str(),
    );
    proof {
        lemma_next_block(bs, 6);
    }
    put_scalar(
        &mut out,
        "vllm:num_preemptions_total",
        help,
        "counter",
        &labels,
        s.num_preemptions_total.as_str(),
    );
    proof {
        lemma_next_block(bs, 7);
    }
    put_scalar(
        &mut out,
        "vllm:prefix_cache_hits_total",
        help,
        "counter",
        &labels,
        s.prefix_cache_hits_total.as_str(),
    );
    proof {
        lemma_next_block(bs, 8);
    }
    put_scalar(
        &mut out,
        "vllm:prefix_cache_queries_total",
        help,
        "counter",
        &labels,
        s.prefix_cache_queries_total.as_str(),
    );
    proof {
        lemma_next_block(bs, 9);
    }
    put_scalar(
        &mut out,
        "vllm:request_success_total",
        help,
        "counter",
        &labels,
        s.request_success_total.as_str(),
    );
    proof {
        lemma_next_block(bs, 10);
    }
    s.ttft.render(
        &mut out,
        "vllm:time_to_first_token_seconds",
        "time to first token in seconds.",
        model,
    );
    proof {
        lemma_next_block(bs, 11);
    }
    s.inter_token.render(
        &mut out,
        "vllm:inter_token_latency_seconds",
        "inter-token latency in seconds.",
        model,
    );
    proof {
        lemma_next_block(bs, 12);
    }
    s.e2e.render(
        &mut out,
        "vllm:e2e_request_latency_seconds",
        "e2e request latency in seconds.",
        model,
    );
    proof {
        lemma_next_block(bs, 13);
    }
    s.queue_time.render(
        &mut out,
        "vllm:request_queue_time_seconds",
        "time spent in WAITING phase for request.",
        model,
    );
    proof {
        lemma_next_block(bs, 14);
    }
    s.req_prompt_tokens.render(
        &mut out,
        "vllm:request_prompt_tokens",
        "prefill tokens per request.",
        model,
    );
    proof {
        lemma_next_block(bs, 15);
    }
    s.req_gen_tokens.render(
        &mut out,
        "vllm:request_generation_tokens",
        "generation tokens per request.",
        model,
    );
    proof {
        lemma_next_block(bs, 16);
    }
    s.prefill_time.render(
        &mut out,
        "vllm:request_prefill_time_seconds",
        "time spent in PREFILL phase for request.",
        model,
    );
    proof {
        lemma_next_block(bs, 17);
    }
    s.decode_time.render(
        &mut out,
        "vllm:request_decode_time_seconds",
        "time spent in DECODE phase for request.",
        model,
    );
    proof {
        lemma_next_block(bs, 18);
    }
    let mut config: Vec<(&str, &str)> = Vec::new();
    config.push(("block_size", "16"));
    config.push(("cache_dtype", "auto"));
    config.push(("enable_prefix_caching", "False"));
    config.push(("engine", "0"));
    config.push(("gpu_memory_utilization", "0.9"));
    config.push(("model_name", model));
    config.push(("num_gpu_blocks", "1024"));
    assert(exposition::slice_labels(config@) =~= config_labels(model@));
    put_scalar(
        &mut out,
        "vllm:cache_config_info",
        "Information of the LLMEngine CacheConfig",
        "gauge",
        &config,
        "1.0",
    );
    proof {
        lemma_next_block(bs, 19);
    }
    let mut sleep: Vec<(&str, &str)> = Vec::new();
    sleep.push(("engine", "0"));
    sleep.push(("model_name", model));
    sleep.push(("sleep_state", "awake"));
    assert(exposition::slice_labels(sleep@) =~= sleep_labels(model@));
    put_scalar(&mut out, "vllm:engine_sleep_state", "Engine sleep state.", "gauge", &sleep, "1.0");
    proof {
        lemma_next_block(bs, 20);
        assert(bs.take(21) =~= bs);
    }
    out
}

/// The exposition of an SGLang server.
#[verifier::rlimit(40)]
pub fn render_sgl_metrics(s: &SglState<String>) -> (r: String)
    requires
        s.wf(),
    ensures
        r@ == exposition_of(sgl_blocks(*s)),
{
    let ghost bs = sgl_blocks(*s);
    let model = s.model.as_str();
    let none: Vec<(&str, &str)> = Vec::new();
    assert(exposition::slice_labels(none@) =~= Seq::empty());
    let mut labels: Vec<(&str, &str)> = Vec::new();
    labels.push(("model_name", model));
    assert(exposition::slice_labels(labels@) =~= sgl_labels(model@));
    let help = "mock SGLang metric.";

    let mut out = String::new();
    assert(bs.take(0) =~= Seq::empty());
    assert(out@ =~= exposition_of(bs.take(0)));
    put_scalar(
        &mut out,
        "process_start_time_seconds",
        "Start time of the process since unix epoch in seconds.",
        "gauge",
        &none,
        s.process_start_time.as_str(),
    );
    proof {
        lemma_next_block(bs, 0);
    }
    put_scalar(
        &mut out,
        "sglang:prompt_tokens_total",
        help,
        "counter",
        &labels,
        s.prompt_tokens_total.as_str(),
    );
    proof {
        lemma_next_block(bs, 1);
    }
    put_scalar(
        &mut out,
        "sglang:generation_tokens_total",
        help,
        "counter",
        &labels,
        s.generation_tokens_total.as_str(),
    );
    proof {
        lemma_next_block(bs, 2);
    }
    put_scalar(
        &mut out,
        "sglang:num_running_reqs",
        help,
        "gauge",
        &labels,
        s.num_running_reqs.as_str(),
    );
    proof {
        lemma_next_block(bs, 3);
    }
    put_scalar(
        &mut out,
        "sglang:num_queue_reqs",
        help,
        "gauge",
        &labels,
        s.num_queue_reqs.as_str(),
    );
    proof {
        lemma_next_block(bs, 4);
    }
    put_scalar(
        &mut out,
        "sglang:cache_hit_rate",
        help,
        "gauge",
        &labels,
        s.cache_hit_rate.as_str(),
    );
    proof {
        lemma_next_block(bs, 5);
    }
    put_scalar(&mut out, "sglang:token_usage", help, "gauge", &labels, s.token_usage.as_str());
    proof {
        lemma_next_block(bs, 6);
    }
    put_scalar(
        &mut out,
        "sglang:num_used_tokens",
        help,
        "gauge",
        &labels,
        s.num_used_tokens.as_str(),
    );
    proof {
        lemma_next_block(bs, 7);
    }
    put_scalar(
        &mut out,
        "sglang:gen_throughput",
        help,
        "gauge",
        &labels,
        s.gen_throughput.as_str(),
    );
    proof {
        lemma_next_block(bs, 8);
    }
    s.ttft.render_sgl(
        &mut out,
        "sglang:time_to_first_token_seconds",
        "Histogram of time to first token in seconds.",
        model,
    );
    proof {
        lemma_next_block(bs, 9);
    }
    s.e2e.render_sgl(
        &mut out,
        "sglang:e2e_request_latency_seconds",
        "Histogram of End-to-end request latency in seconds",
        model,
    );
    proof {
        lemma_next_block(bs, 10);
    }
    s.tpot.render_sgl(
        &mut out,
        "sglang:time_per_output_token_seconds",
        "Histogram of time per output token in seconds.",
        model,
    );
    proof {
        lemma_next_block(bs, 11);
        assert(bs.take(12) =~= bs);
    }
    out
}

/// The exposition of whichever server is mocked.
pub open spec fn metrics_text(s: BackendState<String>) -> Seq<char> {
    match s {
        BackendState::Vllm(v) => exposition_of(vllm_blocks(v)),
        BackendState::Sgl(g) => exposition_of(sgl_blocks(g)),
    }
}

fn render_texts(s: &BackendState<String>) -> (r: String)
    requires
        s.wf(),
    ensures
        r@ == metrics_text(*s),
{
    match s {
        BackendState::Vllm(v) => render_vllm_metrics(v),
        BackendState::Sgl(g) => render_sgl_metrics(g),
    }
}

/// What the mock server answers when it is asked for its metrics.
pub fn render_metrics<T: Spelling>(t: &T, zero: T::F, s: &BackendState<T::F>) -> (r: String)
    requires
        s.wf(),
    ensures
        exists|x: BackendState<String>| #[trigger]
            BackendState::<T::F>::spelled(*t, zero, *s, x) && r@ == metrics_text(x),
{
    let x = s.texts(t, zero);
    render_texts(&x)
}

} // verus!
