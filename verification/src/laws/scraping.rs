//! What a scrape tells of the text that it was read from.

use vstd::prelude::*;

use crate::collectors::common::SampleView;
use crate::collectors::joined;
use crate::collectors::joined::Numbers;
use crate::collectors::samples;
use crate::collectors::scrape;
use crate::collectors::scrape::Scrape;
use crate::collectors::{sglang, vllm};
use crate::state;
use crate::state::{evaluate, Arithmetic, BackendSnapshot};

verus! {

/// What is scraped of two SGLang texts that a line feed joins is what is scraped
/// of both: every scalar has the addends of the one and of the other.
pub proof fn law_sgl_scrapes_join(a: &str, b: &str, c: &str, x: Scrape, y: Scrape, z: Scrape)
    requires
        c@ == joined::joined(a@, b@),
        call_ensures(sglang::parse_metrics, (a,), x),
        call_ensures(sglang::parse_metrics, (b,), y),
        call_ensures(sglang::parse_metrics, (c,), z),
    ensures
        joined::sgl_says_both(x@, y@, z@),
{
    joined::law_sgl_texts_join(a@, b@);
}

/// What is scraped of two vLLM texts that a line feed joins is what is scraped
/// of both.
pub proof fn law_vllm_scrapes_join(a: &str, b: &str, c: &str, x: Scrape, y: Scrape, z: Scrape)
    requires
        c@ == joined::joined(a@, b@),
        call_ensures(vllm::parse_metrics, (a,), x),
        call_ensures(vllm::parse_metrics, (b,), y),
        call_ensures(vllm::parse_metrics, (c,), z),
    ensures
        joined::says_both(x@, y@, z@),
{
    joined::law_vllm_texts_join(a@, b@);
}

/// In numbers: each scalar of two SGLang texts that a line feed joins is the sum
/// of those of the two texts, and so is each count of their histograms.
pub proof fn law_sgl_values_add<T: Arithmetic>(
    t: T,
    zero: T::F,
    m: Numbers<T::F>,
    a: &str,
    b: &str,
    c: &str,
    p: Scrape,
    q: Scrape,
    r: Scrape,
    x: BackendSnapshot<T::F>,
    y: BackendSnapshot<T::F>,
    z: BackendSnapshot<T::F>,
)
    requires
        joined::reads(t, zero, m),
        c@ == joined::joined(a@, b@),
        call_ensures(sglang::parse_metrics, (a,), p),
        call_ensures(sglang::parse_metrics, (b,), q),
        call_ensures(sglang::parse_metrics, (c,), r),
        joined::sgl_on_grid(m, p@),
        joined::sgl_on_grid(m, q@),
        joined::sgl_on_grid(m, r@),
        call_ensures(evaluate::<T>, (&t, zero, p), x),
        call_ensures(evaluate::<T>, (&t, zero, q), y),
        call_ensures(evaluate::<T>, (&t, zero, r), z),
    ensures
        joined::sgl_snapshots_add(t, zero, m, x, y, z),
{
    joined::law_sgl_numbers_add(t, zero, m, a@, b@, p, q, r, x, y, z);
}

/// In numbers: each scalar of two vLLM texts that a line feed joins is the sum
/// of those of the two texts, and so is each count of their histograms.
pub proof fn law_vllm_values_add<T: Arithmetic>(
    t: T,
    zero: T::F,
    m: Numbers<T::F>,
    a: &str,
    b: &str,
    c: &str,
    p: Scrape,
    q: Scrape,
    r: Scrape,
    x: BackendSnapshot<T::F>,
    y: BackendSnapshot<T::F>,
    z: BackendSnapshot<T::F>,
)
    requires
        joined::reads(t, zero, m),
        c@ == joined::joined(a@, b@),
        call_ensures(vllm::parse_metrics, (a,), p),
        call_ensures(vllm::parse_metrics, (b,), q),
        call_ensures(vllm::parse_metrics, (c,), r),
        joined::scrape_on_grid(m, p@),
        joined::scrape_on_grid(m, q@),
        joined::scrape_on_grid(m, r@),
        call_ensures(evaluate::<T>, (&t, zero, p), x),
        call_ensures(evaluate::<T>, (&t, zero, q), y),
        call_ensures(evaluate::<T>, (&t, zero, r), z),
    ensures
        joined::snapshots_add(t, zero, m, x, y, z),
{
    joined::law_vllm_numbers_add(t, zero, m, a@, b@, p, q, r, x, y, z);
}

/// One line more with one sample: the metric of that name, and only that one,
/// takes it in.
pub proof fn law_sgl_line_adds(a: &str, line: &str, c: &str, s: SampleView, x: Scrape, z: Scrape)
    requires
        c@ == joined::joined(a@, line@),
        scrape::samples(line@) == seq![s],
        call_ensures(sglang::parse_metrics, (a,), x),
        call_ensures(sglang::parse_metrics, (c,), z),
    ensures
        samples::sgl_sample_added(x@, z@, s),
{
    joined::law_joined_samples(a@, line@);
    let ss = scrape::samples(a@);
    assert(ss + seq![s] =~= ss.push(s));
    samples::law_sgl_sample_adds(ss, s);
}

/// One line more with one sample: the metric of that name, and only that one,
/// takes it in.
pub proof fn law_vllm_line_adds(a: &str, line: &str, c: &str, s: SampleView, x: Scrape, z: Scrape)
    requires
        c@ == joined::joined(a@, line@),
        scrape::samples(line@) == seq![s],
        call_ensures(vllm::parse_metrics, (a,), x),
        call_ensures(vllm::parse_metrics, (c,), z),
    ensures
        samples::vllm_sample_added(x@, z@, s),
{
    joined::law_joined_samples(a@, line@);
    let ss = scrape::samples(a@);
    assert(ss + seq![s] =~= ss.push(s));
    samples::law_vllm_sample_adds(ss, s);
}

/// A snapshot has each text of a scrape as it is and each number as it was
/// read, under the same name.
pub proof fn law_snapshots_keep_names<T: Arithmetic>(
    t: T,
    zero: T::F,
    s: Scrape,
    r: BackendSnapshot<T::F>,
)
    requires
        call_ensures(evaluate::<T>, (&t, zero, s), r),
    ensures
        r.reachable == s.reachable && r.error == s.error,
        r.model_name == s.model_name,
        r.cache_dtype == s.cache_dtype,
        r.block_size == s.block_size,
        r.gpu_memory_utilization == s.gpu_memory_utilization,
        r.num_gpu_blocks == s.num_gpu_blocks,
        r.enable_prefix_caching == s.enable_prefix_caching,
        r.process_start_time is Some <==> s.process_start_time is Some,
        r.engine_awake is Some <==> s.engine_awake is Some,
        state::read_as(t, zero, s.generation_tokens_total, r.generation_tokens_total),
        state::read_as(t, zero, s.prompt_tokens_total, r.prompt_tokens_total),
        state::read_as(t, zero, s.prompt_tokens_cached_total, r.prompt_tokens_cached_total),
        state::read_as(t, zero, s.num_preemptions_total, r.num_preemptions_total),
        state::read_as(t, zero, s.prefix_cache_hits_total, r.prefix_cache_hits_total),
        state::read_as(t, zero, s.prefix_cache_queries_total, r.prefix_cache_queries_total),
        state::read_as(t, zero, s.request_success_total, r.request_success_total),
        state::read_as(t, zero, s.num_requests_running, r.num_requests_running),
        state::read_as(t, zero, s.num_requests_waiting, r.num_requests_waiting),
        state::read_as(t, zero, s.kv_cache_usage_perc, r.kv_cache_usage_perc),
        state::histogram_read_as(t, zero, s.ttft, r.ttft),
        state::histogram_read_as(t, zero, s.inter_token, r.inter_token),
        state::histogram_read_as(t, zero, s.e2e, r.e2e),
        state::histogram_read_as(t, zero, s.queue_time, r.queue_time),
        state::histogram_read_as(t, zero, s.req_prompt_tokens, r.req_prompt_tokens),
        state::histogram_read_as(t, zero, s.req_gen_tokens, r.req_gen_tokens),
        state::histogram_read_as(t, zero, s.prefill_time, r.prefill_time),
        state::histogram_read_as(t, zero, s.decode_time, r.decode_time),
{
}

} // verus!
