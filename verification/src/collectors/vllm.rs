//! The scrape of a vLLM server.

use vstd::prelude::*;

use crate::collectors::common::SampleView;
use crate::collectors::scrape;
use crate::collectors::scrape::{
    collect_histogram, collect_sum, find_config, find_labelled, find_last, find_model,
    parse_samples, Scrape, ScrapeView,
};
use crate::collectors::{unreachable_scrape, Backend, BackendKind};
use crate::text::same;

verus! {

pub open spec fn caching_enabled(label: Option<Seq<char>>) -> Option<bool> {
    match label {
        Some(v) => Some(v == "True"@),
        None => None,
    }
}

/// What the samples of a vLLM server say. Scalars and histograms are summed
/// over all samples of a series, that is over all engines.
pub open spec fn scrape_of(ss: Seq<SampleView>) -> ScrapeView {
    let config = "vllm:cache_config_info"@;
    ScrapeView {
        reachable: true,
        error: None,
        model_name: scrape::model_named(ss),
        process_start_time: scrape::last_named(
            ss,
            "process_start_time_seconds"@,
        ),
        cache_dtype: scrape::last_label_named(ss, config, "cache_dtype"@),
        block_size: scrape::last_label_named(ss, config, "block_size"@),
        gpu_memory_utilization: scrape::last_label_named(
            ss,
            config,
            "gpu_memory_utilization"@,
        ),
        num_gpu_blocks: scrape::last_label_named(ss, config, "num_gpu_blocks"@),
        enable_prefix_caching: caching_enabled(
            scrape::last_label_named(ss, config, "enable_prefix_caching"@),
        ),
        engine_awake: scrape::last_labelled(
            ss,
            "vllm:engine_sleep_state"@,
            "sleep_state"@,
            "awake"@,
        ),
        generation_tokens_total: scrape::sum_named(
            ss,
            "vllm:generation_tokens_total"@,
        ),
        prompt_tokens_total: scrape::sum_named(ss, "vllm:prompt_tokens_total"@),
        prompt_tokens_cached_total: scrape::sum_named(
            ss,
            "vllm:prompt_tokens_cached_total"@,
        ),
        num_preemptions_total: scrape::sum_named(
            ss,
            "vllm:num_preemptions_total"@,
        ),
        prefix_cache_hits_total: scrape::sum_named(
            ss,
            "vllm:prefix_cache_hits_total"@,
        ),
        prefix_cache_queries_total: scrape::sum_named(
            ss,
            "vllm:prefix_cache_queries_total"@,
        ),
        request_success_total: scrape::sum_named(
            ss,
            "vllm:request_success_total"@,
        ),
        num_requests_running: scrape::sum_named(
            ss,
            "vllm:num_requests_running"@,
        ),
        num_requests_waiting: scrape::sum_named(
            ss,
            "vllm:num_requests_waiting"@,
        ),
        kv_cache_usage_perc: scrape::sum_named(ss, "vllm:kv_cache_usage_perc"@),
        ttft: scrape::histogram_named(ss, "vllm:time_to_first_token_seconds"@),
        inter_token: scrape::histogram_named(
            ss,
            "vllm:inter_token_latency_seconds"@,
        ),
        e2e: scrape::histogram_named(ss, "vllm:e2e_request_latency_seconds"@),
        queue_time: scrape::histogram_named(
            ss,
            "vllm:request_queue_time_seconds"@,
        ),
        req_prompt_tokens: scrape::histogram_named(
            ss,
            "vllm:request_prompt_tokens"@,
        ),
        req_gen_tokens: scrape::histogram_named(
            ss,
            "vllm:request_generation_tokens"@,
        ),
        prefill_time: scrape::histogram_named(
            ss,
            "vllm:request_prefill_time_seconds"@,
        ),
        decode_time: scrape::histogram_named(
            ss,
            "vllm:request_decode_time_seconds"@,
        ),
    }
}

/// Parses the exposition text of a vLLM server.
pub fn parse_metrics(text: &str) -> (r: Scrape)
    ensures
        r@ == scrape_of(scrape::samples(text@)),
{
    let ss = parse_samples(text);
    let config = "vllm:cache_config_info";
    let caching = match find_config(&ss, config, "enable_prefix_caching") {
        Some(v) => Some(same(v.as_str(), "True")),
        None => None,
    };
    Scrape {
        reachable: true,
        error: None,
        model_name: find_model(&ss),
        process_start_time: find_last(&ss, "process_start_time_seconds"),
        cache_dtype: find_config(&ss, config, "cache_dtype"),
        block_size: find_config(&ss, config, "block_size"),
        gpu_memory_utilization: find_config(&ss, config, "gpu_memory_utilization"),
        num_gpu_blocks: find_config(&ss, config, "num_gpu_blocks"),
        enable_prefix_caching: caching,
        engine_awake: find_labelled(&ss, "vllm:engine_sleep_state", "sleep_state", "awake"),
        generation_tokens_total: collect_sum(&ss, "vllm:generation_tokens_total"),
        prompt_tokens_total: collect_sum(&ss, "vllm:prompt_tokens_total"),
        prompt_tokens_cached_total: collect_sum(&ss, "vllm:prompt_tokens_cached_total"),
        num_preemptions_total: collect_sum(&ss, "vllm:num_preemptions_total"),
        prefix_cache_hits_total: collect_sum(&ss, "vllm:prefix_cache_hits_total"),
        prefix_cache_queries_total: collect_sum(&ss, "vllm:prefix_cache_queries_total"),
        request_success_total: collect_sum(&ss, "vllm:request_success_total"),
        num_requests_running: collect_sum(&ss, "vllm:num_requests_running"),
        num_requests_waiting: collect_sum(&ss, "vllm:num_requests_waiting"),
        kv_cache_usage_perc: collect_sum(&ss, "vllm:kv_cache_usage_perc"),
        ttft: collect_histogram(&ss, "vllm:time_to_first_token_seconds"),
        inter_token: collect_histogram(&ss, "vllm:inter_token_latency_seconds"),
        e2e: collect_histogram(&ss, "vllm:e2e_request_latency_seconds"),
        queue_time: collect_histogram(&ss, "vllm:request_queue_time_seconds"),
        req_prompt_tokens: collect_histogram(&ss, "vllm:request_prompt_tokens"),
        req_gen_tokens: collect_histogram(&ss, "vllm:request_generation_tokens"),
        prefill_time: collect_histogram(&ss, "vllm:request_prefill_time_seconds"),
        decode_time: collect_histogram(&ss, "vllm:request_decode_time_seconds"),
    }
}

/// Parses `/metrics` of a vLLM server.
pub struct VllmCollector {}

impl Backend for VllmCollector {
    open spec fn kind(&self) -> BackendKind {
        BackendKind::Vllm
    }

    fn poll(&mut self, fetched: Result<String, String>) -> (r: Scrape) {
        match fetched {
            Ok(body) => parse_metrics(body.as_str()),
            Err(e) => unreachable_scrape(e),
        }
    }

    fn effective_kind(&self) -> (r: BackendKind) {
        BackendKind::Vllm
    }
}

} // verus!
