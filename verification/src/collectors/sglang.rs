//! The scrape of an SGLang server.

use vstd::prelude::*;

use crate::collectors::common::{Numeral, NumeralView, SampleView};
use crate::collectors::scrape;
use crate::collectors::scrape::{
    collect_histogram, collect_sum, find_last, find_model, no_histogram, no_samples, parse_samples,
    Reading, ReadingView, Scrape, ScrapeView,
};
use crate::collectors::{unreachable_scrape, Backend, BackendKind};
use crate::state;
use crate::state::{Arithmetic, BackendSnapshot};

verus! {

/// Cache hits where the gauge says the hit rate: the rate itself.
pub open spec fn hits_of(rate: Option<NumeralView>) -> ReadingView {
    match rate {
        Some(v) => ReadingView::Value(v),
        None => scrape::nothing_summed(),
    }
}

/// Cache queries where the gauge says the hit rate: one, so that hits over
/// queries is the rate.
pub open spec fn queries_of(rate: Option<NumeralView>) -> ReadingView {
    match rate {
        Some(v) => ReadingView::Value(NumeralView::Text("1"@)),
        None => scrape::nothing_summed(),
    }
}

/// What the samples of an SGLang server say. What SGLang does not expose is
/// left as it is in a scrape in which nothing was seen.
pub open spec fn scrape_of(ss: Seq<SampleView>) -> ScrapeView {
    let rate = scrape::last_named(ss, "sglang:cache_hit_rate"@);
    ScrapeView {
        model_name: scrape::model_named(ss),
        process_start_time: scrape::last_named(
            ss,
            "process_start_time_seconds"@,
        ),
        prompt_tokens_total: scrape::sum_named(
            ss,
            "sglang:prompt_tokens_total"@,
        ),
        generation_tokens_total: scrape::sum_named(
            ss,
            "sglang:generation_tokens_total"@,
        ),
        num_requests_running: scrape::sum_named(ss, "sglang:num_running_reqs"@),
        num_requests_waiting: scrape::sum_named(ss, "sglang:num_queue_reqs"@),
        prefix_cache_hits_total: hits_of(rate),
        prefix_cache_queries_total: queries_of(rate),
        ttft: scrape::histogram_named(ss, "sglang:time_to_first_token_seconds"@),
        e2e: scrape::histogram_named(ss, "sglang:e2e_request_latency_seconds"@),
        inter_token: scrape::histogram_named(
            ss,
            "sglang:time_per_output_token_seconds"@,
        ),
        ..scrape::empty_scrape(true, None)
    }
}

/// Parses the exposition text of an SGLang server.
pub fn parse_metrics(text: &str) -> (r: Scrape)
    ensures
        r@ == scrape_of(scrape::samples(text@)),
{
    let ss = parse_samples(text);
    let (hits, queries) = match find_last(&ss, "sglang:cache_hit_rate") {
        Some(v) => (Reading::Value(v), Reading::Value(Numeral::Text("1".to_owned()))),
        None => (no_samples(), no_samples()),
    };
    Scrape {
        reachable: true,
        error: None,
        model_name: find_model(&ss),
        process_start_time: find_last(&ss, "process_start_time_seconds"),
        cache_dtype: None,
        block_size: None,
        gpu_memory_utilization: None,
        num_gpu_blocks: None,
        enable_prefix_caching: None,
        engine_awake: None,
        generation_tokens_total: collect_sum(&ss, "sglang:generation_tokens_total"),
        prompt_tokens_total: collect_sum(&ss, "sglang:prompt_tokens_total"),
        prompt_tokens_cached_total: no_samples(),
        num_preemptions_total: no_samples(),
        prefix_cache_hits_total: hits,
        prefix_cache_queries_total: queries,
        request_success_total: no_samples(),
        num_requests_running: collect_sum(&ss, "sglang:num_running_reqs"),
        num_requests_waiting: collect_sum(&ss, "sglang:num_queue_reqs"),
        kv_cache_usage_perc: no_samples(),
        ttft: collect_histogram(&ss, "sglang:time_to_first_token_seconds"),
        inter_token: collect_histogram(&ss, "sglang:time_per_output_token_seconds"),
        e2e: collect_histogram(&ss, "sglang:e2e_request_latency_seconds"),
        queue_time: no_histogram(),
        req_prompt_tokens: no_histogram(),
        req_gen_tokens: no_histogram(),
        prefill_time: no_histogram(),
        decode_time: no_histogram(),
    }
}

/// `q` is one: it is over zero, and dividing by it changes nothing.
pub open spec fn is_unit<T: Arithmetic>(t: T, zero: T::F, q: T::F) -> bool {
    &&& forall|none: bool| #[trigger] call_ensures(T::at_most, (&t, q, zero), none) ==> !none
    &&& forall|x: T::F, r: T::F| #[trigger] call_ensures(T::ratio, (&t, x, q), r) ==> r == x
}

/// Where the text `1` is read as one, the hit rate of an SGLang server is what
/// its gauge says.
pub proof fn law_gauge_is_hit_rate<T: Arithmetic>(
    t: T,
    zero: T::F,
    ss: Seq<SampleView>,
    gauge: NumeralView,
    s: Scrape,
    b: BackendSnapshot<T::F>,
    rate: T::F,
)
    requires
        s@ == scrape_of(ss),
        scrape::last_named(ss, "sglang:cache_hit_rate"@) == Some(gauge),
        state::evaluated(t, zero, s, b),
        state::is_hit_rate(t, zero, b, rate),
        forall|q: T::F| #[trigger]
            state::is_value(t, NumeralView::Text("1"@), q) ==> is_unit(t, zero, q),
    ensures
        state::is_value(t, gauge, rate),
{
    assert(s.prefix_cache_hits_total@ == ReadingView::Value(gauge));
    assert(s.prefix_cache_queries_total@ == ReadingView::Value(NumeralView::Text("1"@)));
    assert(is_unit(t, zero, b.prefix_cache_queries_total));
}

/// Parses `/metrics` of an SGLang server.
pub struct SglCollector {}

impl Backend for SglCollector {
    open spec fn kind(&self) -> BackendKind {
        BackendKind::Sgl
    }

    fn poll(&mut self, fetched: Result<String, String>) -> (r: Scrape) {
        match fetched {
            Ok(body) => parse_metrics(body.as_str()),
            Err(e) => unreachable_scrape(e),
        }
    }

    fn effective_kind(&self) -> (r: BackendKind) {
        BackendKind::Sgl
    }
}

} // verus!
