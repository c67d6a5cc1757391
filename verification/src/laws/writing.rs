//! What the text says that the mock server serves.

use vstd::prelude::*;

use crate::exposition;
use crate::mock_server::histogram;
use crate::mock_server::histogram::HistAcc;
use crate::mock_server::render;
use crate::mock_server::render::{render_sgl_metrics, render_vllm_metrics};
use crate::mock_server::state::{SglState, VllmState};
use crate::text;

verus! {

/// The passage stands in the text.
pub open spec fn stands_in(passage: Seq<char>, text: Seq<char>) -> bool {
    exists|a: Seq<char>, b: Seq<char>| text == #[trigger] (a + passage + b)
}

/// The type of a metric, and right after it the metric with its value.
pub open spec fn typed(
    name: Seq<char>,
    kind: Seq<char>,
    labels: Seq<char>,
    token: Seq<char>,
) -> Seq<char> {
    "# TYPE "@ + name + " "@ + kind + "\n"@ + name + labels + " "@ + token + "\n"@
}

/// The text has a metric of the given type and value.
pub open spec fn has_metric(
    text: Seq<char>,
    name: Seq<char>,
    kind: Seq<char>,
    labels: Seq<char>,
    token: Seq<char>,
) -> bool {
    stands_in(typed(name, kind, labels, token), text)
}

/// The count and the sum of a histogram.
pub open spec fn totals(name: Seq<char>, labels: Seq<char>, h: HistAcc<String>) -> Seq<char> {
    name + "_count"@ + labels + " "@ + text::decimal(h.count as nat) + ".0\n"@ + name + "_sum"@
        + labels + " "@ + h.sum@ + "\n"@
}

/// The text has the type of a histogram, and its count and sum.
pub open spec fn has_histogram(
    text: Seq<char>,
    name: Seq<char>,
    labels: Seq<char>,
    h: HistAcc<String>,
) -> bool {
    &&& stands_in("# TYPE "@ + name + " histogram\n"@, text)
    &&& stands_in(totals(name, labels, h), text)
}

/// The labels of a metric of a mock vLLM server.
pub open spec fn engine_labels(model: Seq<char>) -> Seq<char> {
    "{engine=\"0\",model_name=\""@ + model + "\"}"@
}

/// The labels of a metric of a mock SGLang server.
pub open spec fn model_labels(model: Seq<char>) -> Seq<char> {
    "{model_name=\""@ + model + "\"}"@
}

proof fn lemma_parts(a: Seq<char>, b: Seq<char>, c: Seq<char>, text: Seq<char>)
    requires
        stands_in(a + b + c, text),
    ensures
        stands_in(b, text),
{
    let (x, y) = choose|x: Seq<char>, y: Seq<char>| text == #[trigger] (x + (a + b
        + c) + y);
    assert(text =~= ((x + a) + b) + (c + y));
}

proof fn lemma_later_blocks(bs: Seq<Seq<Seq<char>>>, k: int, n: int)
    requires
        0 <= k <= n <= bs.len(),
    ensures
        render::exposition_of(bs.take(k)).is_prefix_of(render::exposition_of(bs.take(n))),
    decreases n - k,
{
    if k < n {
        lemma_later_blocks(bs, k, n - 1);
        render::lemma_next_block(bs, n - 1);
    }
}

proof fn lemma_block(bs: Seq<Seq<Seq<char>>>, k: int)
    requires
        0 <= k < bs.len(),
    ensures
        stands_in(exposition::unlines(bs[k]), render::exposition_of(bs)),
{
    lemma_later_blocks(bs, k + 1, bs.len() as int);
    render::lemma_next_block(bs, k);
    assert(bs.take(bs.len() as int) =~= bs);
    let front = render::exposition_of(bs.take(k));
    let block = exposition::unlines(bs[k]);
    let all = render::exposition_of(bs);
    assert(all =~= (front + block) + all.skip((front + block).len() as int));
}

proof fn lemma_vllm_labels(model: Seq<char>)
    ensures
        exposition::label_braces(render::vllm_labels(model)) == engine_labels(model),
{
    let l = render::vllm_labels(model);
    reveal_with_fuel(exposition::label_list, 3);
    assert(l =~= seq![("engine"@, "0"@), ("model_name"@, model)]);
    assert(l.skip(1) =~= seq![("model_name"@, model)]);
    reveal_strlit("{");
    reveal_strlit("}");
    reveal_strlit("engine");
    reveal_strlit("0");
    reveal_strlit("model_name");
    reveal_strlit("=\"");
    reveal_strlit("\"");
    reveal_strlit(",");
    reveal_strlit("{engine=\"0\",model_name=\"");
    reveal_strlit("\"}");
    assert(exposition::label_braces(l) =~= engine_labels(model));
}

proof fn lemma_sgl_labels(model: Seq<char>)
    ensures
        exposition::label_braces(render::sgl_labels(model)) == model_labels(model),
{
    let l = render::sgl_labels(model);
    assert(l =~= seq![("model_name"@, model)]);
    reveal_strlit("{");
    reveal_strlit("}");
    reveal_strlit("model_name");
    reveal_strlit("=\"");
    reveal_strlit("\"");
    reveal_strlit("{model_name=\"");
    reveal_strlit("\"}");
    assert(exposition::label_braces(l) =~= model_labels(model));
}

proof fn lemma_scalar(
    name: Seq<char>,
    help: Seq<char>,
    kind: Seq<char>,
    labels: Seq<(Seq<char>, Seq<char>)>,
    token: Seq<char>,
    text: Seq<char>,
)
    requires
        stands_in(
            exposition::unlines(render::scalar_lines(name, help, kind, labels, token)),
            text,
        ),
    ensures
        has_metric(text, name, kind, exposition::label_braces(labels), token),
{
    let ls = render::scalar_lines(name, help, kind, labels, token);
    let a = exposition::help_line(name, help);
    let b = exposition::type_line(name, kind);
    let c = exposition::sample_line(name, labels, token);
    reveal_with_fuel(exposition::unlines, 4);
    assert(ls.drop_last() =~= seq![a, b]);
    assert(seq![a, b].drop_last() =~= seq![a]);
    assert(seq![a].drop_last() =~= Seq::empty());
    let t = typed(name, kind, exposition::label_braces(labels), token);
    reveal_strlit("\n");
    assert(b.push('\n') + c.push('\n') =~= t);
    assert(exposition::unlines(ls) =~= a.push('\n') + t + Seq::empty());
    lemma_parts(a.push('\n'), t, Seq::empty(), text);
}

proof fn lemma_heading(base: Seq<char>)
    ensures
        exposition::type_line(base, "histogram"@).push('\n') == "# TYPE "@ + base
            + " histogram\n"@,
{
    reveal_strlit(" ");
    reveal_strlit("histogram");
    reveal_strlit(" histogram\n");
    assert(exposition::type_line(base, "histogram"@).push('\n') =~= "# TYPE "@ + base
        + " histogram\n"@);
}

proof fn lemma_totals(base: Seq<char>, labels: Seq<(Seq<char>, Seq<char>)>, h: HistAcc<String>)
    ensures
        exposition::sample_line(base + "_count"@, labels, histogram::count_token(h.count)).push(
            '\n',
        ) + exposition::sample_line(base + "_sum"@, labels, h.sum@).push('\n') == totals(
            base,
            exposition::label_braces(labels),
            h,
        ),
{
    let l = exposition::label_braces(labels);
    let n = text::decimal(h.count as nat);
    let front = base + "_count"@ + l + " "@;
    let back = base + "_sum"@ + l + " "@ + h.sum@;
    reveal_strlit("\n");
    reveal_strlit(".0");
    reveal_strlit(".0\n");
    assert((front + (n + ".0"@)).push('\n') =~= front + n + ".0\n"@);
    assert(back.push('\n') =~= back + "\n"@);
    assert((front + n + ".0\n"@) + (back + "\n"@) =~= totals(base, l, h));
}

proof fn lemma_joined(
    a: Seq<char>,
    b: Seq<char>,
    c: Seq<char>,
    d: Seq<char>,
    text: Seq<char>,
)
    requires
        stands_in(a + b + c + d, text),
    ensures
        stands_in(b, text),
        stands_in(d, text),
{
    assert(a + b + c + d =~= a + b + (c + d));
    assert(a + b + c + d =~= (a + b + c) + d + Seq::empty());
    lemma_parts(a, b, c + d, text);
    lemma_parts(a + b + c, d, Seq::empty(), text);
}

proof fn lemma_histogram(
    h: HistAcc<String>,
    base: Seq<char>,
    help: Seq<char>,
    front: Seq<(Seq<char>, Seq<char>)>,
    model: Seq<char>,
    text: Seq<char>,
)
    requires
        stands_in(
            exposition::unlines(histogram::histogram_lines(h, base, help, front, model)),
            text,
        ),
    ensures
        has_histogram(
            text,
            base,
            exposition::label_braces(histogram::plain_labels(front, model)),
            h,
        ),
{
    let labels = histogram::plain_labels(front, model);
    let a = exposition::help_line(base, help);
    let b = exposition::type_line(base, "histogram"@);
    let mid = histogram::bucket_lines(h, base, front, model, h.buckets@.len());
    let c = exposition::sample_line(base + "_count"@, labels, histogram::count_token(h.count));
    let d = exposition::sample_line(base + "_sum"@, labels, h.sum@);
    let (head, tail) = (seq![a, b], seq![c, d]);
    assert(histogram::histogram_lines(h, base, help, front, model) =~= head + mid + tail);
    exposition::lemma_unlines_add(head + mid, tail);
    exposition::lemma_unlines_add(head, mid);
    reveal_with_fuel(exposition::unlines, 3);
    assert(head.drop_last() =~= seq![a]);
    assert(seq![a].drop_last() =~= Seq::empty());
    assert(tail.drop_last() =~= seq![c]);
    assert(seq![c].drop_last() =~= Seq::empty());
    let m = exposition::unlines(mid);
    let kind = "# TYPE "@ + base + " histogram\n"@;
    let last = totals(base, exposition::label_braces(labels), h);
    lemma_heading(base);
    lemma_totals(base, labels, h);
    let block = exposition::unlines(head + mid + tail);
    let a1 = a.push('\n');
    assert(exposition::unlines(head) =~= a1 + kind);
    assert(exposition::unlines(tail) =~= last);
    assert(block == exposition::unlines(head) + m + exposition::unlines(tail));
    lemma_joined(a1, kind, m, last, text);
}

/// The text of a mock vLLM server has each number under the name of its metric:
/// what counts up as a counter, what goes up and down as a gauge, and each
/// distribution as a histogram with its own count and sum.
#[verifier::rlimit(40)]
pub proof fn law_vllm_text_names_each_metric(s: VllmState<String>, r: String)
    requires
        call_ensures(render_vllm_metrics, (&s,), r),
    ensures
        ({
            let l = engine_labels(s.model@);
            &&& has_metric(r@, "vllm:num_requests_running"@, "gauge"@, l, s.num_requests_running@)
            &&& has_metric(r@, "vllm:num_requests_waiting"@, "gauge"@, l, s.num_requests_waiting@)
            &&& has_metric(r@, "vllm:kv_cache_usage_perc"@, "gauge"@, l, s.kv_cache_usage_perc@)
            &&& has_metric(r@, "vllm:prompt_tokens_total"@, "counter"@, l, s.prompt_tokens_total@)
            &&& has_metric(
                r@,
                "vllm:generation_tokens_total"@,
                "counter"@,
                l,
                s.generation_tokens_total@,
            )
            &&& has_metric(
                r@,
                "vllm:prompt_tokens_cached_total"@,
                "counter"@,
                l,
                s.prompt_tokens_cached_total@,
            )
            &&& has_metric(
                r@,
                "vllm:num_preemptions_total"@,
                "counter"@,
                l,
                s.num_preemptions_total@,
            )
            &&& has_metric(
                r@,
                "vllm:prefix_cache_hits_total"@,
                "counter"@,
                l,
                s.prefix_cache_hits_total@,
            )
            &&& has_metric(
                r@,
                "vllm:prefix_cache_queries_total"@,
                "counter"@,
                l,
                s.prefix_cache_queries_total@,
            )
            &&& has_metric(
                r@,
                "vllm:request_success_total"@,
                "counter"@,
                l,
                s.request_success_total@,
            )
            &&& has_histogram(r@, "vllm:time_to_first_token_seconds"@, l, s.ttft)
            &&& has_histogram(r@, "vllm:inter_token_latency_seconds"@, l, s.inter_token)
            &&& has_histogram(r@, "vllm:e2e_request_latency_seconds"@, l, s.e2e)
            &&& has_histogram(r@, "vllm:request_queue_time_seconds"@, l, s.queue_time)
            &&& has_histogram(r@, "vllm:request_prompt_tokens"@, l, s.req_prompt_tokens)
            &&& has_histogram(r@, "vllm:request_generation_tokens"@, l, s.req_gen_tokens)
            &&& has_histogram(r@, "vllm:request_prefill_time_seconds"@, l, s.prefill_time)
            &&& has_histogram(r@, "vllm:request_decode_time_seconds"@, l, s.decode_time)
        }),
        has_metric(
            r@,
            "process_start_time_seconds"@,
            "gauge"@,
            Seq::empty(),
            s.process_start_time@,
        ),
{
    let bs = render::vllm_blocks(s);
    let m = s.model@;
    let l = render::vllm_labels(m);
    let front = histogram::front_labels(true);
    let help = "mock vLLM metric."@;
    lemma_vllm_labels(m);
    lemma_block(bs, 0);
    lemma_scalar(
        "process_start_time_seconds"@,
        "Start time of the process since unix epoch in seconds."@,
        "gauge"@,
        Seq::empty(),
        s.process_start_time@,
        r@,
    );
    lemma_block(bs, 1);
    lemma_scalar("vllm:num_requests_running"@, help, "gauge"@, l, s.num_requests_running@, r@);
    lemma_block(bs, 2);
    lemma_scalar("vllm:num_requests_waiting"@, help, "gauge"@, l, s.num_requests_waiting@, r@);
    lemma_block(bs, 3);
    lemma_scalar("vllm:kv_cache_usage_perc"@, help, "gauge"@, l, s.kv_cache_usage_perc@, r@);
    lemma_block(bs, 4);
    lemma_scalar("vllm:prompt_tokens_total"@, help, "counter"@, l, s.prompt_tokens_total@, r@);
    lemma_block(bs, 5);
    lemma_scalar(
        "vllm:generation_tokens_total"@,
        help,
        "counter"@,
        l,
        s.generation_tokens_total@,
        r@,
    );
    lemma_block(bs, 6);
    lemma_scalar(
        "vllm:prompt_tokens_cached_total"@,
        help,
        "counter"@,
        l,
        s.prompt_tokens_cached_total@,
        r@,
    );
    lemma_block(bs, 7);
    lemma_scalar("vllm:num_preemptions_total"@, help, "counter"@, l, s.num_preemptions_total@, r@);
    lemma_block(bs, 8);
    lemma_scalar(
        "vllm:prefix_cache_hits_total"@,
        help,
        "counter"@,
        l,
        s.prefix_cache_hits_total@,
        r@,
    );
    lemma_block(bs, 9);
    lemma_scalar(
        "vllm:prefix_cache_queries_total"@,
        help,
        "counter"@,
        l,
        s.prefix_cache_queries_total@,
        r@,
    );
    lemma_block(bs, 10);
    lemma_scalar("vllm:request_success_total"@, help, "counter"@, l, s.request_success_total@, r@);
    lemma_block(bs, 11);
    lemma_histogram(
        s.ttft,
        "vllm:time_to_first_token_seconds"@,
        "time to first token in seconds."@,
        front,
        m,
        r@,
    );
    lemma_block(bs, 12);
    lemma_histogram(
        s.inter_token,
        "vllm:inter_token_latency_seconds"@,
        "inter-token latency in seconds."@,
        front,
        m,
        r@,
    );
    lemma_block(bs, 13);
    lemma_histogram(
        s.e2e,
        "vllm:e2e_request_latency_seconds"@,
        "e2e request latency in seconds."@,
        front,
        m,
        r@,
    );
    lemma_block(bs, 14);
    lemma_histogram(
        s.queue_time,
        "vllm:request_queue_time_seconds"@,
        "time spent in WAITING phase for request."@,
        front,
        m,
        r@,
    );
    lemma_block(bs, 15);
    lemma_histogram(
        s.req_prompt_tokens,
        "vllm:request_prompt_tokens"@,
        "prefill tokens per request."@,
        front,
        m,
        r@,
    );
    lemma_block(bs, 16);
    lemma_histogram(
        s.req_gen_tokens,
        "vllm:request_generation_tokens"@,
        "generation tokens per request."@,
        front,
        m,
        r@,
    );
    lemma_block(bs, 17);
    lemma_histogram(
        s.prefill_time,
        "vllm:request_prefill_time_seconds"@,
        "time spent in PREFILL phase for request."@,
        front,
        m,
        r@,
    );
    lemma_block(bs, 18);
    lemma_histogram(
        s.decode_time,
        "vllm:request_decode_time_seconds"@,
        "time spent in DECODE phase for request."@,
        front,
        m,
        r@,
    );
}

/// The text of a mock SGLang server has each number under the name of its metric:
/// what counts up as a counter, what goes up and down as a gauge, and each
/// distribution as a histogram with its own count and sum.
#[verifier::rlimit(40)]
pub proof fn law_sgl_text_names_each_metric(s: SglState<String>, r: String)
    requires
        call_ensures(render_sgl_metrics, (&s,), r),
    ensures
        ({
            let l = model_labels(s.model@);
            &&& has_metric(r@, "sglang:num_running_reqs"@, "gauge"@, l, s.num_running_reqs@)
            &&& has_metric(r@, "sglang:num_queue_reqs"@, "gauge"@, l, s.num_queue_reqs@)
            &&& has_metric(r@, "sglang:cache_hit_rate"@, "gauge"@, l, s.cache_hit_rate@)
            &&& has_metric(r@, "sglang:token_usage"@, "gauge"@, l, s.token_usage@)
            &&& has_metric(r@, "sglang:num_used_tokens"@, "gauge"@, l, s.num_used_tokens@)
            &&& has_metric(r@, "sglang:gen_throughput"@, "gauge"@, l, s.gen_throughput@)
            &&& has_metric(r@, "sglang:prompt_tokens_total"@, "counter"@, l, s.prompt_tokens_total@)
            &&& has_metric(
                r@,
                "sglang:generation_tokens_total"@,
                "counter"@,
                l,
                s.generation_tokens_total@,
            )
            &&& has_histogram(r@, "sglang:time_to_first_token_seconds"@, l, s.ttft)
            &&& has_histogram(r@, "sglang:e2e_request_latency_seconds"@, l, s.e2e)
            &&& has_histogram(r@, "sglang:time_per_output_token_seconds"@, l, s.tpot)
        }),
        has_metric(
            r@,
            "process_start_time_seconds"@,
            "gauge"@,
            Seq::empty(),
            s.process_start_time@,
        ),
{
    let bs = render::sgl_blocks(s);
    let m = s.model@;
    let l = render::sgl_labels(m);
    let front = histogram::front_labels(false);
    let help = "mock SGLang metric."@;
    lemma_sgl_labels(m);
    lemma_block(bs, 0);
    lemma_scalar(
        "process_start_time_seconds"@,
        "Start time of the process since unix epoch in seconds."@,
        "gauge"@,
        Seq::empty(),
        s.process_start_time@,
        r@,
    );
    lemma_block(bs, 1);
    lemma_scalar("sglang:prompt_tokens_total"@, help, "counter"@, l, s.prompt_tokens_total@, r@);
    lemma_block(bs, 2);
    lemma_scalar(
        "sglang:generation_tokens_total"@,
        help,
        "counter"@,
        l,
        s.generation_tokens_total@,
        r@,
    );
    lemma_block(bs, 3);
    lemma_scalar("sglang:num_running_reqs"@, help, "gauge"@, l, s.num_running_reqs@, r@);
    lemma_block(bs, 4);
    lemma_scalar("sglang:num_queue_reqs"@, help, "gauge"@, l, s.num_queue_reqs@, r@);
    lemma_block(bs, 5);
    lemma_scalar("sglang:cache_hit_rate"@, help, "gauge"@, l, s.cache_hit_rate@, r@);
    lemma_block(bs, 6);
    lemma_scalar("sglang:token_usage"@, help, "gauge"@, l, s.token_usage@, r@);
    lemma_block(bs, 7);
    lemma_scalar("sglang:num_used_tokens"@, help, "gauge"@, l, s.num_used_tokens@, r@);
    lemma_block(bs, 8);
    lemma_scalar("sglang:gen_throughput"@, help, "gauge"@, l, s.gen_throughput@, r@);
    lemma_block(bs, 9);
    lemma_histogram(
        s.ttft,
        "sglang:time_to_first_token_seconds"@,
        "Histogram of time to first token in seconds."@,
        front,
        m,
        r@,
    );
    lemma_block(bs, 10);
    lemma_histogram(
        s.e2e,
        "sglang:e2e_request_latency_seconds"@,
        "Histogram of End-to-end request latency in seconds"@,
        front,
        m,
        r@,
    );
    lemma_block(bs, 11);
    lemma_histogram(
        s.tpot,
        "sglang:time_per_output_token_seconds"@,
        "Histogram of time per output token in seconds."@,
        front,
        m,
        r@,
    );
}

} // verus!
