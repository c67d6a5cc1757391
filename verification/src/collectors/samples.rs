//! What one more sample adds to what a scrape says.

use vstd::prelude::*;

use crate::collectors::common;
use crate::collectors::common::{NumeralView, SampleView};
use crate::collectors::scrape;
use crate::collectors::scrape::{HistogramReadingView, ReadingView};
use crate::collectors::{sglang, vllm};

verus! {

/// The reading with the value of the sample as one more addend, where the
/// sample is of the series with the given name.
pub open spec fn with_addend(r: ReadingView, s: SampleView, name: Seq<char>) -> ReadingView {
    match r {
        ReadingView::Sum(ns) => if s.name == name {
            ReadingView::Sum(ns.push(s.value))
        } else {
            r
        },
        ReadingView::Value(_) => r,
    }
}

/// The list with one more value, where `more` says so.
pub open spec fn pushed_if<A>(ns: Seq<A>, more: bool, n: A) -> Seq<A> {
    if more {
        ns.push(n)
    } else {
        ns
    }
}

/// What the sample adds to a histogram: an addend of the count, of the sum, or
/// of the bucket that its label `le` names.
pub open spec fn hist_grew(
    a: HistogramReadingView,
    b: HistogramReadingView,
    s: SampleView,
    count: Seq<char>,
    sum: Seq<char>,
    bucket: Seq<char>,
) -> bool {
    &&& b.count == pushed_if(a.count, s.name == count, s.value)
    &&& b.sum == pushed_if(a.sum, s.name == sum, s.value)
    &&& b.buckets == pushed_if(
        a.buckets,
        s.name == bucket,
        (
            match scrape::first_label(s.labels, "le"@) {
                Some(le) => common::bound_numeral(le),
                None => NumeralView::PosInf,
            },
            s.value,
        ),
    )
}

/// The model that the sample names: its label `model_name`, unless that is
/// empty.
pub open spec fn named_model(s: SampleView) -> Option<Seq<char>> {
    match scrape::first_label(s.labels, "model_name"@) {
        Some(m) => if m.len() == 0 {
            None
        } else {
            Some(m)
        },
        None => None,
    }
}

/// The label of the sample with that key, where it is of the named series; else
/// what was there.
pub open spec fn relabelled(
    was: Option<Seq<char>>,
    s: SampleView,
    name: Seq<char>,
    key: Seq<char>,
) -> Option<Seq<char>> {
    if s.name == name && scrape::last_label(s.labels, key) is Some {
        scrape::last_label(s.labels, key)
    } else {
        was
    }
}

proof fn lemma_front(ss: Seq<SampleView>, s: SampleView)
    ensures
        ss.push(s).drop_last() == ss,
        ss.push(s).last() == s,
{
    assert(ss.push(s).drop_last() =~= ss);
}

proof fn lemma_histogram_grows(ss: Seq<SampleView>, s: SampleView, base: Seq<char>)
    ensures
        hist_grew(
            scrape::histogram_named(ss, base),
            scrape::histogram_named(ss.push(s), base),
            s,
            base + "_count"@,
            base + "_sum"@,
            base + "_bucket"@,
        ),
{
    lemma_front(ss, s);
}

proof fn lemma_suffixes_vllm_time_to_first_token_seconds()
    ensures
        "vllm:time_to_first_token_seconds"@ + "_count"@
            == "vllm:time_to_first_token_seconds_count"@,
        "vllm:time_to_first_token_seconds"@ + "_sum"@ == "vllm:time_to_first_token_seconds_sum"@,
        "vllm:time_to_first_token_seconds"@ + "_bucket"@
            == "vllm:time_to_first_token_seconds_bucket"@,
{
    reveal_strlit("_count");
    reveal_strlit("_sum");
    reveal_strlit("_bucket");
    reveal_strlit("vllm:time_to_first_token_seconds");
    reveal_strlit("vllm:time_to_first_token_seconds_count");
    reveal_strlit("vllm:time_to_first_token_seconds_sum");
    reveal_strlit("vllm:time_to_first_token_seconds_bucket");
    assert("vllm:time_to_first_token_seconds"@ + "_count"@
        =~= "vllm:time_to_first_token_seconds_count"@);
    assert("vllm:time_to_first_token_seconds"@ + "_sum"@
        =~= "vllm:time_to_first_token_seconds_sum"@);
    assert("vllm:time_to_first_token_seconds"@ + "_bucket"@
        =~= "vllm:time_to_first_token_seconds_bucket"@);
}

proof fn lemma_suffixes_vllm_inter_token_latency_seconds()
    ensures
        "vllm:inter_token_latency_seconds"@ + "_count"@
            == "vllm:inter_token_latency_seconds_count"@,
        "vllm:inter_token_latency_seconds"@ + "_sum"@ == "vllm:inter_token_latency_seconds_sum"@,
        "vllm:inter_token_latency_seconds"@ + "_bucket"@
            == "vllm:inter_token_latency_seconds_bucket"@,
{
    reveal_strlit("_count");
    reveal_strlit("_sum");
    reveal_strlit("_bucket");
    reveal_strlit("vllm:inter_token_latency_seconds");
    reveal_strlit("vllm:inter_token_latency_seconds_count");
    reveal_strlit("vllm:inter_token_latency_seconds_sum");
    reveal_strlit("vllm:inter_token_latency_seconds_bucket");
    assert("vllm:inter_token_latency_seconds"@ + "_count"@
        =~= "vllm:inter_token_latency_seconds_count"@);
    assert("vllm:inter_token_latency_seconds"@ + "_sum"@
        =~= "vllm:inter_token_latency_seconds_sum"@);
    assert("vllm:inter_token_latency_seconds"@ + "_bucket"@
        =~= "vllm:inter_token_latency_seconds_bucket"@);
}

proof fn lemma_suffixes_vllm_e2e_request_latency_seconds()
    ensures
        "vllm:e2e_request_latency_seconds"@ + "_count"@
            == "vllm:e2e_request_latency_seconds_count"@,
        "vllm:e2e_request_latency_seconds"@ + "_sum"@ == "vllm:e2e_request_latency_seconds_sum"@,
        "vllm:e2e_request_latency_seconds"@ + "_bucket"@
            == "vllm:e2e_request_latency_seconds_bucket"@,
{
    reveal_strlit("_count");
    reveal_strlit("_sum");
    reveal_strlit("_bucket");
    reveal_strlit("vllm:e2e_request_latency_seconds");
    reveal_strlit("vllm:e2e_request_latency_seconds_count");
    reveal_strlit("vllm:e2e_request_latency_seconds_sum");
    reveal_strlit("vllm:e2e_request_latency_seconds_bucket");
    assert("vllm:e2e_request_latency_seconds"@ + "_count"@
        =~= "vllm:e2e_request_latency_seconds_count"@);
    assert("vllm:e2e_request_latency_seconds"@ + "_sum"@
        =~= "vllm:e2e_request_latency_seconds_sum"@);
    assert("vllm:e2e_request_latency_seconds"@ + "_bucket"@
        =~= "vllm:e2e_request_latency_seconds_bucket"@);
}

proof fn lemma_suffixes_vllm_request_queue_time_seconds()
    ensures
        "vllm:request_queue_time_seconds"@ + "_count"@ == "vllm:request_queue_time_seconds_count"@,
        "vllm:request_queue_time_seconds"@ + "_sum"@ == "vllm:request_queue_time_seconds_sum"@,
        "vllm:request_queue_time_seconds"@ + "_bucket"@
            == "vllm:request_queue_time_seconds_bucket"@,
{
    reveal_strlit("_count");
    reveal_strlit("_sum");
    reveal_strlit("_bucket");
    reveal_strlit("vllm:request_queue_time_seconds");
    reveal_strlit("vllm:request_queue_time_seconds_count");
    reveal_strlit("vllm:request_queue_time_seconds_sum");
    reveal_strlit("vllm:request_queue_time_seconds_bucket");
    assert("vllm:request_queue_time_seconds"@ + "_count"@
        =~= "vllm:request_queue_time_seconds_count"@);
    assert("vllm:request_queue_time_seconds"@ + "_sum"@ =~= "vllm:request_queue_time_seconds_sum"@);
    assert("vllm:request_queue_time_seconds"@ + "_bucket"@
        =~= "vllm:request_queue_time_seconds_bucket"@);
}

proof fn lemma_suffixes_vllm_request_prompt_tokens()
    ensures
        "vllm:request_prompt_tokens"@ + "_count"@ == "vllm:request_prompt_tokens_count"@,
        "vllm:request_prompt_tokens"@ + "_sum"@ == "vllm:request_prompt_tokens_sum"@,
        "vllm:request_prompt_tokens"@ + "_bucket"@ == "vllm:request_prompt_tokens_bucket"@,
{
    reveal_strlit("_count");
    reveal_strlit("_sum");
    reveal_strlit("_bucket");
    reveal_strlit("vllm:request_prompt_tokens");
    reveal_strlit("vllm:request_prompt_tokens_count");
    reveal_strlit("vllm:request_prompt_tokens_sum");
    reveal_strlit("vllm:request_prompt_tokens_bucket");
    assert("vllm:request_prompt_tokens"@ + "_count"@ =~= "vllm:request_prompt_tokens_count"@);
    assert("vllm:request_prompt_tokens"@ + "_sum"@ =~= "vllm:request_prompt_tokens_sum"@);
    assert("vllm:request_prompt_tokens"@ + "_bucket"@ =~= "vllm:request_prompt_tokens_bucket"@);
}

proof fn lemma_suffixes_vllm_request_generation_tokens()
    ensures
        "vllm:request_generation_tokens"@ + "_count"@ == "vllm:request_generation_tokens_count"@,
        "vllm:request_generation_tokens"@ + "_sum"@ == "vllm:request_generation_tokens_sum"@,
        "vllm:request_generation_tokens"@ + "_bucket"@ == "vllm:request_generation_tokens_bucket"@,
{
    reveal_strlit("_count");
    reveal_strlit("_sum");
    reveal_strlit("_bucket");
    reveal_strlit("vllm:request_generation_tokens");
    reveal_strlit("vllm:request_generation_tokens_count");
    reveal_strlit("vllm:request_generation_tokens_sum");
    reveal_strlit("vllm:request_generation_tokens_bucket");
    assert("vllm:request_generation_tokens"@ + "_count"@
        =~= "vllm:request_generation_tokens_count"@);
    assert("vllm:request_generation_tokens"@ + "_sum"@ =~= "vllm:request_generation_tokens_sum"@);
    assert("vllm:request_generation_tokens"@ + "_bucket"@
        =~= "vllm:request_generation_tokens_bucket"@);
}

proof fn lemma_suffixes_vllm_request_prefill_time_seconds()
    ensures
        "vllm:request_prefill_time_seconds"@ + "_count"@
            == "vllm:request_prefill_time_seconds_count"@,
        "vllm:request_prefill_time_seconds"@ + "_sum"@ == "vllm:request_prefill_time_seconds_sum"@,
        "vllm:request_prefill_time_seconds"@ + "_bucket"@
            == "vllm:request_prefill_time_seconds_bucket"@,
{
    reveal_strlit("_count");
    reveal_strlit("_sum");
    reveal_strlit("_bucket");
    reveal_strlit("vllm:request_prefill_time_seconds");
    reveal_strlit("vllm:request_prefill_time_seconds_count");
    reveal_strlit("vllm:request_prefill_time_seconds_sum");
    reveal_strlit("vllm:request_prefill_time_seconds_bucket");
    assert("vllm:request_prefill_time_seconds"@ + "_count"@
        =~= "vllm:request_prefill_time_seconds_count"@);
    assert("vllm:request_prefill_time_seconds"@ + "_sum"@
        =~= "vllm:request_prefill_time_seconds_sum"@);
    assert("vllm:request_prefill_time_seconds"@ + "_bucket"@
        =~= "vllm:request_prefill_time_seconds_bucket"@);
}

proof fn lemma_suffixes_vllm_request_decode_time_seconds()
    ensures
        "vllm:request_decode_time_seconds"@ + "_count"@
            == "vllm:request_decode_time_seconds_count"@,
        "vllm:request_decode_time_seconds"@ + "_sum"@ == "vllm:request_decode_time_seconds_sum"@,
        "vllm:request_decode_time_seconds"@ + "_bucket"@
            == "vllm:request_decode_time_seconds_bucket"@,
{
    reveal_strlit("_count");
    reveal_strlit("_sum");
    reveal_strlit("_bucket");
    reveal_strlit("vllm:request_decode_time_seconds");
    reveal_strlit("vllm:request_decode_time_seconds_count");
    reveal_strlit("vllm:request_decode_time_seconds_sum");
    reveal_strlit("vllm:request_decode_time_seconds_bucket");
    assert("vllm:request_decode_time_seconds"@ + "_count"@
        =~= "vllm:request_decode_time_seconds_count"@);
    assert("vllm:request_decode_time_seconds"@ + "_sum"@
        =~= "vllm:request_decode_time_seconds_sum"@);
    assert("vllm:request_decode_time_seconds"@ + "_bucket"@
        =~= "vllm:request_decode_time_seconds_bucket"@);
}

proof fn lemma_suffixes_sglang_time_to_first_token_seconds()
    ensures
        "sglang:time_to_first_token_seconds"@ + "_count"@
            == "sglang:time_to_first_token_seconds_count"@,
        "sglang:time_to_first_token_seconds"@ + "_sum"@
            == "sglang:time_to_first_token_seconds_sum"@,
        "sglang:time_to_first_token_seconds"@ + "_bucket"@
            == "sglang:time_to_first_token_seconds_bucket"@,
{
    reveal_strlit("_count");
    reveal_strlit("_sum");
    reveal_strlit("_bucket");
    reveal_strlit("sglang:time_to_first_token_seconds");
    reveal_strlit("sglang:time_to_first_token_seconds_count");
    reveal_strlit("sglang:time_to_first_token_seconds_sum");
    reveal_strlit("sglang:time_to_first_token_seconds_bucket");
    assert("sglang:time_to_first_token_seconds"@ + "_count"@
        =~= "sglang:time_to_first_token_seconds_count"@);
    assert("sglang:time_to_first_token_seconds"@ + "_sum"@
        =~= "sglang:time_to_first_token_seconds_sum"@);
    assert("sglang:time_to_first_token_seconds"@ + "_bucket"@
        =~= "sglang:time_to_first_token_seconds_bucket"@);
}

proof fn lemma_suffixes_sglang_e2e_request_latency_seconds()
    ensures
        "sglang:e2e_request_latency_seconds"@ + "_count"@
            == "sglang:e2e_request_latency_seconds_count"@,
        "sglang:e2e_request_latency_seconds"@ + "_sum"@
            == "sglang:e2e_request_latency_seconds_sum"@,
        "sglang:e2e_request_latency_seconds"@ + "_bucket"@
            == "sglang:e2e_request_latency_seconds_bucket"@,
{
    reveal_strlit("_count");
    reveal_strlit("_sum");
    reveal_strlit("_bucket");
    reveal_strlit("sglang:e2e_request_latency_seconds");
    reveal_strlit("sglang:e2e_request_latency_seconds_count");
    reveal_strlit("sglang:e2e_request_latency_seconds_sum");
    reveal_strlit("sglang:e2e_request_latency_seconds_bucket");
    assert("sglang:e2e_request_latency_seconds"@ + "_count"@
        =~= "sglang:e2e_request_latency_seconds_count"@);
    assert("sglang:e2e_request_latency_seconds"@ + "_sum"@
        =~= "sglang:e2e_request_latency_seconds_sum"@);
    assert("sglang:e2e_request_latency_seconds"@ + "_bucket"@
        =~= "sglang:e2e_request_latency_seconds_bucket"@);
}

proof fn lemma_suffixes_sglang_time_per_output_token_seconds()
    ensures
        "sglang:time_per_output_token_seconds"@ + "_count"@
            == "sglang:time_per_output_token_seconds_count"@,
        "sglang:time_per_output_token_seconds"@ + "_sum"@
            == "sglang:time_per_output_token_seconds_sum"@,
        "sglang:time_per_output_token_seconds"@ + "_bucket"@
            == "sglang:time_per_output_token_seconds_bucket"@,
{
    reveal_strlit("_count");
    reveal_strlit("_sum");
    reveal_strlit("_bucket");
    reveal_strlit("sglang:time_per_output_token_seconds");
    reveal_strlit("sglang:time_per_output_token_seconds_count");
    reveal_strlit("sglang:time_per_output_token_seconds_sum");
    reveal_strlit("sglang:time_per_output_token_seconds_bucket");
    assert("sglang:time_per_output_token_seconds"@ + "_count"@
        =~= "sglang:time_per_output_token_seconds_count"@);
    assert("sglang:time_per_output_token_seconds"@ + "_sum"@
        =~= "sglang:time_per_output_token_seconds_sum"@);
    assert("sglang:time_per_output_token_seconds"@ + "_bucket"@
        =~= "sglang:time_per_output_token_seconds_bucket"@);
}

/// One more sample changes what a vLLM scrape says of its own series alone, and
/// there it is one more addend: no sample is lost, and none is taken for another
/// series. The first sample that names a model gives it, and the last one of an
/// info metric its values.
pub proof fn law_vllm_sample_adds(ss: Seq<SampleView>, s: SampleView)
    ensures
        vllm_sample_added(vllm::scrape_of(ss), vllm::scrape_of(ss.push(s)), s),
{
    lemma_front(ss, s);
    lemma_suffixes_vllm_time_to_first_token_seconds();
    lemma_histogram_grows(ss, s, "vllm:time_to_first_token_seconds"@);
    lemma_suffixes_vllm_inter_token_latency_seconds();
    lemma_histogram_grows(ss, s, "vllm:inter_token_latency_seconds"@);
    lemma_suffixes_vllm_e2e_request_latency_seconds();
    lemma_histogram_grows(ss, s, "vllm:e2e_request_latency_seconds"@);
    lemma_suffixes_vllm_request_queue_time_seconds();
    lemma_histogram_grows(ss, s, "vllm:request_queue_time_seconds"@);
    lemma_suffixes_vllm_request_prompt_tokens();
    lemma_histogram_grows(ss, s, "vllm:request_prompt_tokens"@);
    lemma_suffixes_vllm_request_generation_tokens();
    lemma_histogram_grows(ss, s, "vllm:request_generation_tokens"@);
    lemma_suffixes_vllm_request_prefill_time_seconds();
    lemma_histogram_grows(ss, s, "vllm:request_prefill_time_seconds"@);
    lemma_suffixes_vllm_request_decode_time_seconds();
    lemma_histogram_grows(ss, s, "vllm:request_decode_time_seconds"@);
}

/// `b` says what `a` says and one more sample.
pub open spec fn vllm_sample_added(
    a: scrape::ScrapeView,
    b: scrape::ScrapeView,
    s: SampleView,
) -> bool {
    let config = "vllm:cache_config_info"@;
    &&& b.reachable && b.error is None
    &&& b.model_name == if a.model_name is Some {
        a.model_name
    } else {
        named_model(s)
    }
    &&& b.process_start_time == if s.name == "process_start_time_seconds"@ {
        Some(s.value)
    } else {
        a.process_start_time
    }
    &&& b.engine_awake == if s.name == "vllm:engine_sleep_state"@ && scrape::has_label(
        s.labels,
        "sleep_state"@,
        "awake"@,
    ) {
        Some(s.value)
    } else {
        a.engine_awake
    }
    &&& b.cache_dtype == relabelled(a.cache_dtype, s, config, "cache_dtype"@)
    &&& b.block_size == relabelled(a.block_size, s, config, "block_size"@)
    &&& b.gpu_memory_utilization == relabelled(
        a.gpu_memory_utilization,
        s,
        config,
        "gpu_memory_utilization"@,
    )
    &&& b.num_gpu_blocks == relabelled(a.num_gpu_blocks, s, config, "num_gpu_blocks"@)
    &&& b.enable_prefix_caching == match scrape::last_label(s.labels, "enable_prefix_caching"@) {
        Some(x) => if s.name == config {
            Some(x == "True"@)
        } else {
            a.enable_prefix_caching
        },
        None => a.enable_prefix_caching,
    }
    &&& b.generation_tokens_total == with_addend(
        a.generation_tokens_total,
        s,
        "vllm:generation_tokens_total"@,
    )
    &&& b.prompt_tokens_total == with_addend(a.prompt_tokens_total, s, "vllm:prompt_tokens_total"@)
    &&& b.prompt_tokens_cached_total == with_addend(
        a.prompt_tokens_cached_total,
        s,
        "vllm:prompt_tokens_cached_total"@,
    )
    &&& b.num_preemptions_total == with_addend(
        a.num_preemptions_total,
        s,
        "vllm:num_preemptions_total"@,
    )
    &&& b.prefix_cache_hits_total == with_addend(
        a.prefix_cache_hits_total,
        s,
        "vllm:prefix_cache_hits_total"@,
    )
    &&& b.prefix_cache_queries_total == with_addend(
        a.prefix_cache_queries_total,
        s,
        "vllm:prefix_cache_queries_total"@,
    )
    &&& b.request_success_total == with_addend(
        a.request_success_total,
        s,
        "vllm:request_success_total"@,
    )
    &&& b.num_requests_running == with_addend(
        a.num_requests_running,
        s,
        "vllm:num_requests_running"@,
    )
    &&& b.num_requests_waiting == with_addend(
        a.num_requests_waiting,
        s,
        "vllm:num_requests_waiting"@,
    )
    &&& b.kv_cache_usage_perc == with_addend(a.kv_cache_usage_perc, s, "vllm:kv_cache_usage_perc"@)
    &&& hist_grew(
        a.ttft,
        b.ttft,
        s,
        "vllm:time_to_first_token_seconds_count"@,
        "vllm:time_to_first_token_seconds_sum"@,
        "vllm:time_to_first_token_seconds_bucket"@,
    )
    &&& hist_grew(
        a.inter_token,
        b.inter_token,
        s,
        "vllm:inter_token_latency_seconds_count"@,
        "vllm:inter_token_latency_seconds_sum"@,
        "vllm:inter_token_latency_seconds_bucket"@,
    )
    &&& hist_grew(
        a.e2e,
        b.e2e,
        s,
        "vllm:e2e_request_latency_seconds_count"@,
        "vllm:e2e_request_latency_seconds_sum"@,
        "vllm:e2e_request_latency_seconds_bucket"@,
    )
    &&& hist_grew(
        a.queue_time,
        b.queue_time,
        s,
        "vllm:request_queue_time_seconds_count"@,
        "vllm:request_queue_time_seconds_sum"@,
        "vllm:request_queue_time_seconds_bucket"@,
    )
    &&& hist_grew(
        a.req_prompt_tokens,
        b.req_prompt_tokens,
        s,
        "vllm:request_prompt_tokens_count"@,
        "vllm:request_prompt_tokens_sum"@,
        "vllm:request_prompt_tokens_bucket"@,
    )
    &&& hist_grew(
        a.req_gen_tokens,
        b.req_gen_tokens,
        s,
        "vllm:request_generation_tokens_count"@,
        "vllm:request_generation_tokens_sum"@,
        "vllm:request_generation_tokens_bucket"@,
    )
    &&& hist_grew(
        a.prefill_time,
        b.prefill_time,
        s,
        "vllm:request_prefill_time_seconds_count"@,
        "vllm:request_prefill_time_seconds_sum"@,
        "vllm:request_prefill_time_seconds_bucket"@,
    )
    &&& hist_grew(
        a.decode_time,
        b.decode_time,
        s,
        "vllm:request_decode_time_seconds_count"@,
        "vllm:request_decode_time_seconds_sum"@,
        "vllm:request_decode_time_seconds_bucket"@,
    )
}

/// Nothing is said without samples.
pub proof fn law_no_samples_say_nothing()
    ensures
        vllm::scrape_of(Seq::empty()) == scrape::empty_scrape(true, None),
        sglang::scrape_of(Seq::empty()) == scrape::empty_scrape(true, None),
{
    assert(vllm::scrape_of(Seq::empty()) =~= scrape::empty_scrape(true, None));
    assert(sglang::scrape_of(Seq::empty()) =~= scrape::empty_scrape(true, None));
}

/// `b` says what `a` says and one more sample of an SGLang server.
pub open spec fn sgl_sample_added(
    a: scrape::ScrapeView,
    b: scrape::ScrapeView,
    s: SampleView,
) -> bool {
    &&& b.reachable && b.error is None
    &&& b.model_name == if a.model_name is Some {
        a.model_name
    } else {
        named_model(s)
    }
    &&& b.process_start_time == if s.name == "process_start_time_seconds"@ {
        Some(s.value)
    } else {
        a.process_start_time
    }
    &&& b.prefix_cache_hits_total == if s.name == "sglang:cache_hit_rate"@ {
        ReadingView::Value(s.value)
    } else {
        a.prefix_cache_hits_total
    }
    &&& b.prefix_cache_queries_total == if s.name == "sglang:cache_hit_rate"@ {
        ReadingView::Value(NumeralView::Text("1"@))
    } else {
        a.prefix_cache_queries_total
    }
    &&& b.prompt_tokens_total == with_addend(
        a.prompt_tokens_total,
        s,
        "sglang:prompt_tokens_total"@,
    )
    &&& b.generation_tokens_total == with_addend(
        a.generation_tokens_total,
        s,
        "sglang:generation_tokens_total"@,
    )
    &&& b.num_requests_running == with_addend(a.num_requests_running, s, "sglang:num_running_reqs"@)
    &&& b.num_requests_waiting == with_addend(a.num_requests_waiting, s, "sglang:num_queue_reqs"@)
    &&& hist_grew(
        a.ttft,
        b.ttft,
        s,
        "sglang:time_to_first_token_seconds_count"@,
        "sglang:time_to_first_token_seconds_sum"@,
        "sglang:time_to_first_token_seconds_bucket"@,
    )
    &&& hist_grew(
        a.e2e,
        b.e2e,
        s,
        "sglang:e2e_request_latency_seconds_count"@,
        "sglang:e2e_request_latency_seconds_sum"@,
        "sglang:e2e_request_latency_seconds_bucket"@,
    )
    &&& hist_grew(
        a.inter_token,
        b.inter_token,
        s,
        "sglang:time_per_output_token_seconds_count"@,
        "sglang:time_per_output_token_seconds_sum"@,
        "sglang:time_per_output_token_seconds_bucket"@,
    )
    &&& b.prompt_tokens_cached_total == a.prompt_tokens_cached_total
    &&& b.num_preemptions_total == a.num_preemptions_total
    &&& b.request_success_total == a.request_success_total
    &&& b.kv_cache_usage_perc == a.kv_cache_usage_perc
    &&& b.queue_time == a.queue_time
    &&& b.req_prompt_tokens == a.req_prompt_tokens
    &&& b.req_gen_tokens == a.req_gen_tokens
    &&& b.prefill_time == a.prefill_time
    &&& b.decode_time == a.decode_time
    &&& b.cache_dtype == a.cache_dtype
    &&& b.block_size == a.block_size
    &&& b.gpu_memory_utilization == a.gpu_memory_utilization
    &&& b.num_gpu_blocks == a.num_gpu_blocks
    &&& b.enable_prefix_caching == a.enable_prefix_caching
    &&& b.engine_awake == a.engine_awake
}

/// One more sample changes what an SGLang scrape says of its own series alone:
/// tokens, requests and histograms get one more addend, the hit rate is the
/// last one. What SGLang does not expose stays.
pub proof fn law_sgl_sample_adds(ss: Seq<SampleView>, s: SampleView)
    ensures
        sgl_sample_added(sglang::scrape_of(ss), sglang::scrape_of(ss.push(s)), s),
{
    lemma_front(ss, s);
    lemma_suffixes_sglang_time_to_first_token_seconds();
    lemma_histogram_grows(ss, s, "sglang:time_to_first_token_seconds"@);
    lemma_suffixes_sglang_e2e_request_latency_seconds();
    lemma_histogram_grows(ss, s, "sglang:e2e_request_latency_seconds"@);
    lemma_suffixes_sglang_time_per_output_token_seconds();
    lemma_histogram_grows(ss, s, "sglang:time_per_output_token_seconds"@);
}

/// The first label with a key is the one before which no label has that key, and
/// the last one that after which none has it.
pub proof fn law_labels_are_found(
    labels: Seq<(Seq<char>, Seq<char>)>,
    key: Seq<char>,
    first: int,
    last: int,
)
    requires
        0 <= first <= last < labels.len(),
        labels[first].0 == key && labels[last].0 == key,
        forall|i: int| 0 <= i < first ==> (#[trigger] labels[i]).0 != key,
        forall|i: int| last < i < labels.len() ==> (#[trigger] labels[i]).0 != key,
    ensures
        scrape::first_label(labels, key) == Some(labels[first].1),
        scrape::last_label(labels, key) == Some(labels[last].1),
    decreases labels.len(),
{
    if first > 0 {
        assert(labels[0].0 != key);
        let rest = labels.skip(1);
        assert forall|i: int| 0 <= i < first - 1 implies (#[trigger] rest[i]).0 != key by {
            assert(rest[i] == labels[i + 1]);
        }
        assert forall|i: int| last - 1 < i < rest.len() implies (#[trigger] rest[i]).0 != key by {
            assert(rest[i] == labels[i + 1]);
        }
        law_labels_are_found(rest, key, first - 1, last - 1);
    }
    if last < labels.len() - 1 {
        assert(labels[labels.len() - 1].0 != key);
        let rest = labels.drop_last();
        assert forall|i: int| 0 <= i < first implies (#[trigger] rest[i]).0 != key by {
            assert(rest[i] == labels[i]);
        }
        assert forall|i: int| last < i < rest.len() implies (#[trigger] rest[i]).0 != key by {
            assert(rest[i] == labels[i]);
        }
        law_labels_are_found(rest, key, first, last);
    }
}

/// A key that no label has is not found.
pub proof fn law_missing_labels(labels: Seq<(Seq<char>, Seq<char>)>, key: Seq<char>)
    requires
        forall|i: int| 0 <= i < labels.len() ==> (#[trigger] labels[i]).0 != key,
    ensures
        scrape::first_label(labels, key) is None,
        scrape::last_label(labels, key) is None,
    decreases labels.len(),
{
    if labels.len() > 0 {
        assert(labels[0].0 != key && labels[labels.len() - 1].0 != key);
        let rest = labels.skip(1);
        assert forall|i: int| 0 <= i < rest.len() implies (#[trigger] rest[i]).0 != key by {
            assert(rest[i] == labels[i + 1]);
        }
        law_missing_labels(rest, key);
        let front = labels.drop_last();
        assert forall|i: int| 0 <= i < front.len() implies (#[trigger] front[i]).0 != key by {
            assert(front[i] == labels[i]);
        }
        law_missing_labels(front, key);
    }
}

} // verus!
