//! The headless report: what was derived from two snapshots, as JSON.

use vstd::prelude::*;

use crate::config::AppConfig;
use crate::exact;
use crate::json;
use crate::json::{Json, Members};
use crate::series;
use crate::state;
use crate::state::{
    series_names, Arithmetic, BackendSnapshot, History, Snapshot, SERIES_COUNT,
};

verus! {

/// The numbers of a report.
pub struct ReportNumbers {
    /// The latest value of each series, in the order of their names.
    pub derived: Vec<serde_json::Value>,
    pub process_start_time: serde_json::Value,
    pub request_success_total: serde_json::Value,
    pub num_requests_running: serde_json::Value,
    pub num_requests_waiting: serde_json::Value,
    pub kv_cache_usage_perc: serde_json::Value,
    pub generation_tokens_total: serde_json::Value,
    pub prompt_tokens_total: serde_json::Value,
    pub num_preemptions_total: serde_json::Value,
    pub prefix_cache_hit_rate: serde_json::Value,
}

/// The first `n` series by name.
pub open spec fn derived_members(vs: Seq<serde_json::Value>, n: int) -> Map<Seq<char>, Json>
    decreases n,
{
    if n <= 0 {
        Map::empty()
    } else {
        derived_members(vs, n - 1).insert(state::series_name(n - 1), json::content(vs[n - 1]))
    }
}

pub open spec fn info_json<F>(b: BackendSnapshot<F>, n: ReportNumbers) -> Json {
    Json::Object(
        map![
            "process_start_time"@ => json::content(n.process_start_time),
            "cache_dtype"@ => json::text_or_null(b.cache_dtype),
            "block_size"@ => json::text_or_null(b.block_size),
            "gpu_memory_utilization"@ => json::text_or_null(b.gpu_memory_utilization),
            "num_gpu_blocks"@ => json::text_or_null(b.num_gpu_blocks),
            "enable_prefix_caching"@ => json::bool_or_null(b.enable_prefix_caching),
            "engine_awake"@ => json::bool_or_null(b.engine_awake),
            "request_success_total"@ => json::content(n.request_success_total),
        ],
    )
}

pub open spec fn raw_json(n: ReportNumbers) -> Json {
    Json::Object(
        map![
            "num_requests_running"@ => json::content(n.num_requests_running),
            "num_requests_waiting"@ => json::content(n.num_requests_waiting),
            "kv_cache_usage_perc"@ => json::content(n.kv_cache_usage_perc),
            "generation_tokens_total"@ => json::content(n.generation_tokens_total),
            "prompt_tokens_total"@ => json::content(n.prompt_tokens_total),
            "num_preemptions_total"@ => json::content(n.num_preemptions_total),
            "prefix_cache_hit_rate"@ => json::content(n.prefix_cache_hit_rate),
        ],
    )
}

/// The whole report.
pub open spec fn report_json<F>(url: Seq<char>, b: BackendSnapshot<F>, n: ReportNumbers) -> Json {
    Json::Object(
        map![
            "url"@ => Json::Text(url),
            "reachable"@ => Json::Bool(b.reachable),
            "error"@ => json::text_or_null(b.error),
            "model_name"@ => json::text_or_null(b.model_name),
            "derived"@ => Json::Object(derived_members(n.derived@, SERIES_COUNT as int)),
            "vllm_info"@ => info_json(b, n),
            "raw_vllm"@ => raw_json(n),
        ],
    )
}

/// The report of what was derived, and of the last snapshot.
pub fn report<F>(url: &str, b: &BackendSnapshot<F>, n: ReportNumbers) -> (r: serde_json::Value)
    requires
        n.derived@.len() == SERIES_COUNT,
    ensures
        json::content(r) == report_json(url@, *b, n),
{
    let ghost vs = n.derived@;
    let names = series_names();
    let mut info = Members::new();
    info.put("process_start_time", n.process_start_time);
    info.put("cache_dtype", json::string_or_null(&b.cache_dtype));
    info.put("block_size", json::string_or_null(&b.block_size));
    info.put("gpu_memory_utilization", json::string_or_null(&b.gpu_memory_utilization));
    info.put("num_gpu_blocks", json::string_or_null(&b.num_gpu_blocks));
    info.put("enable_prefix_caching", json::truth_or_null(b.enable_prefix_caching));
    info.put("engine_awake", json::truth_or_null(b.engine_awake));
    info.put("request_success_total", n.request_success_total);
    let mut raw = Members::new();
    raw.put("num_requests_running", n.num_requests_running);
    raw.put("num_requests_waiting", n.num_requests_waiting);
    raw.put("kv_cache_usage_perc", n.kv_cache_usage_perc);
    raw.put("generation_tokens_total", n.generation_tokens_total);
    raw.put("prompt_tokens_total", n.prompt_tokens_total);
    raw.put("num_preemptions_total", n.num_preemptions_total);
    raw.put("prefix_cache_hit_rate", n.prefix_cache_hit_rate);

    let mut derived = Members::new();
    let mut left = n.derived;
    assert(left@ =~= vs.skip(0));
    for i in 0..SERIES_COUNT
        invariant
            vs.len() == SERIES_COUNT,
            left@ == vs.skip(i as int),
            names@.len() == SERIES_COUNT,
            forall|j: int|
                0 <= j < SERIES_COUNT ==> (#[trigger] names@[j])@ == state::series_name(j),
            derived.map() == derived_members(vs, i as int),
    {
        let v = left.remove(0);
        assert(left@ =~= vs.skip(i + 1));
        derived.put(names[i], v);
    }
    let mut all = Members::new();
    all.put_text("url", url);
    all.put("reachable", json::truth(b.reachable));
    all.put("error", json::string_or_null(&b.error));
    all.put("model_name", json::string_or_null(&b.model_name));
    all.put("derived", derived.object());
    all.put("vllm_info", info.object());
    all.put("raw_vllm", raw.object());
    all.object()
}

/// The text of a report, with indentation.
pub fn report_text<F>(url: &str, b: &BackendSnapshot<F>, n: ReportNumbers) -> (r: Option<String>)
    requires
        n.derived@.len() == SERIES_COUNT,
    ensures
        json::written(r) == Some(json::pretty_text(report_json(url@, *b, n))),
{
    let v = report(url, b, n);
    json::to_pretty_text(&v)
}

/// Values as JSON.
pub trait Reporting: Arithmetic {
    /// The value as a JSON number.
    fn json(&self, a: Self::F) -> serde_json::Value;
}

/// `v` is the value as JSON; null where there is none.
pub open spec fn is_json_or_null<T: Reporting>(
    t: T,
    a: Option<T::F>,
    v: serde_json::Value,
) -> bool {
    match a {
        Some(a) => call_ensures(T::json, (&t, a), v),
        None => json::content(v) == Json::Null,
    }
}

/// The numbers of a report: the latest value of each series, and what the last
/// snapshot holds.
pub open spec fn are_numbers<T: Reporting>(
    t: T,
    zero: T::F,
    latest: Seq<T::F>,
    b: BackendSnapshot<T::F>,
    n: ReportNumbers,
) -> bool {
    &&& n.derived@.len() == SERIES_COUNT
    &&& forall|i: int|
        0 <= i < SERIES_COUNT ==> call_ensures(
            T::json,
            (&t, latest[i]),
            #[trigger] n.derived@[i],
        )
    &&& is_json_or_null(t, b.process_start_time, n.process_start_time)
    &&& call_ensures(T::json, (&t, b.request_success_total), n.request_success_total)
    &&& call_ensures(T::json, (&t, b.num_requests_running), n.num_requests_running)
    &&& call_ensures(T::json, (&t, b.num_requests_waiting), n.num_requests_waiting)
    &&& call_ensures(T::json, (&t, b.kv_cache_usage_perc), n.kv_cache_usage_perc)
    &&& call_ensures(T::json, (&t, b.generation_tokens_total), n.generation_tokens_total)
    &&& call_ensures(T::json, (&t, b.prompt_tokens_total), n.prompt_tokens_total)
    &&& call_ensures(T::json, (&t, b.num_preemptions_total), n.num_preemptions_total)
    &&& exists|rate: T::F| #[trigger]
        state::is_hit_rate(t, zero, b, rate) && call_ensures(
            T::json,
            (&t, rate),
            n.prefix_cache_hit_rate,
        )
}

fn numbers_of<T: Reporting>(t: &T, h: &History<T::F>, b: &BackendSnapshot<T::F>) -> (r:
    ReportNumbers)
    requires
        h.wf(),
    ensures
        are_numbers(*t, h.nothing(), h.latest(), *b, r),
{
    let mut derived: Vec<serde_json::Value> = Vec::new();
    for i in 0..SERIES_COUNT
        invariant
            h.wf(),
            derived@.len() == i,
            forall|j: int|
                0 <= j < i ==> call_ensures(T::json, (t, h.latest()[j]), #[trigger] derived@[j]),
    {
        let v = t.json(h.latest_at(i));
        derived.push(v);
    }
    let rate = b.prefix_cache_hit_rate(t, h.zero());
    ReportNumbers {
        derived,
        process_start_time: match b.process_start_time {
            Some(a) => t.json(a),
            None => json::null(),
        },
        request_success_total: t.json(b.request_success_total),
        num_requests_running: t.json(b.num_requests_running),
        num_requests_waiting: t.json(b.num_requests_waiting),
        kv_cache_usage_perc: t.json(b.kv_cache_usage_perc),
        generation_tokens_total: t.json(b.generation_tokens_total),
        prompt_tokens_total: t.json(b.prompt_tokens_total),
        num_preemptions_total: t.json(b.num_preemptions_total),
        prefix_cache_hit_rate: t.json(rate),
    }
}

/// The report of two snapshots: what the second one holds, and the rates from
/// the first to the second.
pub fn dump_json<T: Reporting>(
    t: &T,
    zero: T::F,
    url: &str,
    history_len: usize,
    first: Snapshot<T::F>,
    second: Snapshot<T::F>,
) -> (r: Option<String>)
    requires
        history_len < usize::MAX,
    ensures
        exists|latest: Seq<T::F>, n: ReportNumbers| #[trigger]
            state::derived_from(*t, zero, Some(first), second, latest) && #[trigger] are_numbers(
                *t,
                zero,
                latest,
                second.backend,
                n,
            ) && json::written(r) == Some(
                json::pretty_text(report_json(url@, second.backend, n)),
            ),
{
    let mut history: History<T::F> = History::new(history_len, zero);
    history.update(t, first);
    history.update(t, second);
    let last = history.last_snapshot();
    match last {
        Some(snap) => {
            let n = numbers_of(t, &history, &snap.backend);
            assert(state::derived_from(*t, zero, Some(first), second, history.latest()));
            report_text(url, &snap.backend, n)
        },
        None => None,
    }
}

/// How long to wait between the two snapshots: the poll interval.
pub fn pause<F: Copy>(config: &AppConfig<F>) -> (r: F)
    ensures
        r == config.interval,
{
    config.interval
}

/// The member of an object under a key.
pub open spec fn member(j: Json, key: Seq<char>) -> Json
    recommends
        j is Object,
{
    j->Object_0[key]
}

/// The object has just the given keys.
pub open spec fn has_keys(j: Json, keys: Set<Seq<char>>) -> bool {
    j matches Json::Object(m) && m.dom() == keys
}

/// `j` is the value as JSON.
pub open spec fn shows<T: Reporting>(t: T, a: T::F, j: Json) -> bool {
    exists|x: serde_json::Value| #[trigger]
        call_ensures(T::json, (&t, a), x) && json::content(x) == j
}

/// `j` is the text as JSON, or null where there is none.
pub open spec fn shows_text(a: Option<String>, j: Json) -> bool {
    match a {
        Some(s) => j == Json::Text(s@),
        None => j == Json::Null,
    }
}

/// `j` is the truth value as JSON, or null where there is none.
pub open spec fn shows_truth(a: Option<bool>, j: Json) -> bool {
    match a {
        Some(b) => j == Json::Bool(b),
        None => j == Json::Null,
    }
}

/// What the report shows under "raw_vllm": under each key the number of the
/// last snapshot that has that name.
pub open spec fn shows_raw<T: Reporting>(
    t: T,
    zero: T::F,
    b: BackendSnapshot<T::F>,
    j: Json,
) -> bool {
    &&& shows(t, b.num_requests_running, member(j, "num_requests_running"@))
    &&& shows(t, b.num_requests_waiting, member(j, "num_requests_waiting"@))
    &&& shows(t, b.kv_cache_usage_perc, member(j, "kv_cache_usage_perc"@))
    &&& shows(t, b.generation_tokens_total, member(j, "generation_tokens_total"@))
    &&& shows(t, b.prompt_tokens_total, member(j, "prompt_tokens_total"@))
    &&& shows(t, b.num_preemptions_total, member(j, "num_preemptions_total"@))
    &&& exists|rate: T::F| #[trigger]
        state::is_hit_rate(t, zero, b, rate) && shows(
            t,
            rate,
            member(j, "prefix_cache_hit_rate"@),
        )
}

/// What the report shows under "vllm_info": under each key what the last
/// snapshot has under that name.
pub open spec fn shows_info<T: Reporting>(t: T, b: BackendSnapshot<T::F>, j: Json) -> bool {
    &&& match b.process_start_time {
        Some(a) => shows(t, a, member(j, "process_start_time"@)),
        None => member(j, "process_start_time"@) == Json::Null,
    }
    &&& shows_text(b.cache_dtype, member(j, "cache_dtype"@))
    &&& shows_text(b.block_size, member(j, "block_size"@))
    &&& shows_text(b.gpu_memory_utilization, member(j, "gpu_memory_utilization"@))
    &&& shows_text(b.num_gpu_blocks, member(j, "num_gpu_blocks"@))
    &&& shows_truth(b.enable_prefix_caching, member(j, "enable_prefix_caching"@))
    &&& shows_truth(b.engine_awake, member(j, "engine_awake"@))
    &&& shows(t, b.request_success_total, member(j, "request_success_total"@))
}

pub proof fn lemma_raw_keys()
    ensures
        "num_requests_running"@[13] != "num_requests_waiting"@[13],
        "num_requests_running"@.len() != "kv_cache_usage_perc"@.len(),
        "num_requests_running"@.len() != "generation_tokens_total"@.len(),
        "num_requests_running"@.len() != "prompt_tokens_total"@.len(),
        "num_requests_running"@.len() != "num_preemptions_total"@.len(),
        "num_requests_running"@.len() != "prefix_cache_hit_rate"@.len(),
        "num_requests_waiting"@.len() != "kv_cache_usage_perc"@.len(),
        "num_requests_waiting"@.len() != "generation_tokens_total"@.len(),
        "num_requests_waiting"@.len() != "prompt_tokens_total"@.len(),
        "num_requests_waiting"@.len() != "num_preemptions_total"@.len(),
        "num_requests_waiting"@.len() != "prefix_cache_hit_rate"@.len(),
        "kv_cache_usage_perc"@.len() != "generation_tokens_total"@.len(),
        "kv_cache_usage_perc"@[0] != "prompt_tokens_total"@[0],
        "kv_cache_usage_perc"@.len() != "num_preemptions_total"@.len(),
        "kv_cache_usage_perc"@.len() != "prefix_cache_hit_rate"@.len(),
        "generation_tokens_total"@.len() != "prompt_tokens_total"@.len(),
        "generation_tokens_total"@.len() != "num_preemptions_total"@.len(),
        "generation_tokens_total"@.len() != "prefix_cache_hit_rate"@.len(),
        "prompt_tokens_total"@.len() != "num_preemptions_total"@.len(),
        "prompt_tokens_total"@.len() != "prefix_cache_hit_rate"@.len(),
        "num_preemptions_total"@[0] != "prefix_cache_hit_rate"@[0],
{
    reveal_strlit("num_requests_running");
    reveal_strlit("num_requests_waiting");
    reveal_strlit("kv_cache_usage_perc");
    reveal_strlit("generation_tokens_total");
    reveal_strlit("prompt_tokens_total");
    reveal_strlit("num_preemptions_total");
    reveal_strlit("prefix_cache_hit_rate");
}

pub proof fn lemma_info_keys()
    ensures
        "process_start_time"@.len() != "cache_dtype"@.len(),
        "process_start_time"@.len() != "block_size"@.len(),
        "process_start_time"@.len() != "gpu_memory_utilization"@.len(),
        "process_start_time"@.len() != "num_gpu_blocks"@.len(),
        "process_start_time"@.len() != "enable_prefix_caching"@.len(),
        "process_start_time"@.len() != "engine_awake"@.len(),
        "process_start_time"@.len() != "request_success_total"@.len(),
        "cache_dtype"@.len() != "block_size"@.len(),
        "cache_dtype"@.len() != "gpu_memory_utilization"@.len(),
        "cache_dtype"@.len() != "num_gpu_blocks"@.len(),
        "cache_dtype"@.len() != "enable_prefix_caching"@.len(),
        "cache_dtype"@.len() != "engine_awake"@.len(),
        "cache_dtype"@.len() != "request_success_total"@.len(),
        "block_size"@.len() != "gpu_memory_utilization"@.len(),
        "block_size"@.len() != "num_gpu_blocks"@.len(),
        "block_size"@.len() != "enable_prefix_caching"@.len(),
        "block_size"@.len() != "engine_awake"@.len(),
        "block_size"@.len() != "request_success_total"@.len(),
        "gpu_memory_utilization"@.len() != "num_gpu_blocks"@.len(),
        "gpu_memory_utilization"@.len() != "enable_prefix_caching"@.len(),
        "gpu_memory_utilization"@.len() != "engine_awake"@.len(),
        "gpu_memory_utilization"@.len() != "request_success_total"@.len(),
        "num_gpu_blocks"@.len() != "enable_prefix_caching"@.len(),
        "num_gpu_blocks"@.len() != "engine_awake"@.len(),
        "num_gpu_blocks"@.len() != "request_success_total"@.len(),
        "enable_prefix_caching"@.len() != "engine_awake"@.len(),
        "enable_prefix_caching"@[0] != "request_success_total"@[0],
        "engine_awake"@.len() != "request_success_total"@.len(),
{
    reveal_strlit("process_start_time");
    reveal_strlit("cache_dtype");
    reveal_strlit("block_size");
    reveal_strlit("gpu_memory_utilization");
    reveal_strlit("num_gpu_blocks");
    reveal_strlit("enable_prefix_caching");
    reveal_strlit("engine_awake");
    reveal_strlit("request_success_total");
}

pub proof fn lemma_top_keys()
    ensures
        "url"@.len() != "reachable"@.len(),
        "url"@.len() != "error"@.len(),
        "url"@.len() != "model_name"@.len(),
        "url"@.len() != "derived"@.len(),
        "url"@.len() != "vllm_info"@.len(),
        "url"@.len() != "raw_vllm"@.len(),
        "reachable"@.len() != "error"@.len(),
        "reachable"@.len() != "model_name"@.len(),
        "reachable"@.len() != "derived"@.len(),
        "reachable"@[0] != "vllm_info"@[0],
        "reachable"@.len() != "raw_vllm"@.len(),
        "error"@.len() != "model_name"@.len(),
        "error"@.len() != "derived"@.len(),
        "error"@.len() != "vllm_info"@.len(),
        "error"@.len() != "raw_vllm"@.len(),
        "model_name"@.len() != "derived"@.len(),
        "model_name"@.len() != "vllm_info"@.len(),
        "model_name"@.len() != "raw_vllm"@.len(),
        "derived"@.len() != "vllm_info"@.len(),
        "derived"@.len() != "raw_vllm"@.len(),
        "vllm_info"@.len() != "raw_vllm"@.len(),
{
    reveal_strlit("url");
    reveal_strlit("reachable");
    reveal_strlit("error");
    reveal_strlit("model_name");
    reveal_strlit("derived");
    reveal_strlit("vllm_info");
    reveal_strlit("raw_vllm");
}

/// The raw numbers of a report stand under their own names.
pub proof fn law_raw_members<T: Reporting>(
    t: T,
    zero: T::F,
    latest: Seq<T::F>,
    b: BackendSnapshot<T::F>,
    n: ReportNumbers,
    url: Seq<char>,
)
    requires
        are_numbers(t, zero, latest, b, n),
    ensures
        shows_raw(t, zero, b, member(report_json(url, b, n), "raw_vllm"@)),
        has_keys(
            member(report_json(url, b, n), "raw_vllm"@),
            set![
                "num_requests_running"@,
                "num_requests_waiting"@,
                "kv_cache_usage_perc"@,
                "generation_tokens_total"@,
                "prompt_tokens_total"@,
                "num_preemptions_total"@,
                "prefix_cache_hit_rate"@,
            ],
        ),
{
    lemma_top_keys();
    lemma_raw_keys();
    let j = raw_json(n);
    assert(member(report_json(url, b, n), "raw_vllm"@) == j);
    assert(member(j, "num_requests_running"@) == json::content(n.num_requests_running));
    assert(member(j, "num_requests_waiting"@) == json::content(n.num_requests_waiting));
    assert(member(j, "kv_cache_usage_perc"@) == json::content(n.kv_cache_usage_perc));
    assert(member(j, "generation_tokens_total"@) == json::content(n.generation_tokens_total));
    assert(member(j, "prompt_tokens_total"@) == json::content(n.prompt_tokens_total));
    assert(member(j, "num_preemptions_total"@) == json::content(n.num_preemptions_total));
    assert(member(j, "prefix_cache_hit_rate"@) == json::content(n.prefix_cache_hit_rate));
    assert(j->Object_0.dom() =~= set![
        "num_requests_running"@,
        "num_requests_waiting"@,
        "kv_cache_usage_perc"@,
        "generation_tokens_total"@,
        "prompt_tokens_total"@,
        "num_preemptions_total"@,
        "prefix_cache_hit_rate"@,
    ]);
}

/// The server's info in a report stands under its own names.
pub proof fn law_info_members<T: Reporting>(
    t: T,
    zero: T::F,
    latest: Seq<T::F>,
    b: BackendSnapshot<T::F>,
    n: ReportNumbers,
    url: Seq<char>,
)
    requires
        are_numbers(t, zero, latest, b, n),
    ensures
        shows_info(t, b, member(report_json(url, b, n), "vllm_info"@)),
        has_keys(
            member(report_json(url, b, n), "vllm_info"@),
            set![
                "process_start_time"@,
                "cache_dtype"@,
                "block_size"@,
                "gpu_memory_utilization"@,
                "num_gpu_blocks"@,
                "enable_prefix_caching"@,
                "engine_awake"@,
                "request_success_total"@,
            ],
        ),
{
    lemma_top_keys();
    lemma_info_keys();
    let j = info_json(b, n);
    assert(member(report_json(url, b, n), "vllm_info"@) == j);
    assert(member(j, "process_start_time"@) == json::content(n.process_start_time));
    assert(member(j, "request_success_total"@) == json::content(n.request_success_total));
    assert(member(j, "cache_dtype"@) == json::text_or_null(b.cache_dtype));
    assert(member(j, "block_size"@) == json::text_or_null(b.block_size));
    assert(member(j, "gpu_memory_utilization"@) == json::text_or_null(b.gpu_memory_utilization));
    assert(member(j, "num_gpu_blocks"@) == json::text_or_null(b.num_gpu_blocks));
    assert(member(j, "enable_prefix_caching"@) == json::bool_or_null(b.enable_prefix_caching));
    assert(member(j, "engine_awake"@) == json::bool_or_null(b.engine_awake));
    assert(j->Object_0.dom() =~= set![
        "process_start_time"@,
        "cache_dtype"@,
        "block_size"@,
        "gpu_memory_utilization"@,
        "num_gpu_blocks"@,
        "enable_prefix_caching"@,
        "engine_awake"@,
        "request_success_total"@,
    ]);
}

proof fn lemma_derived_member(vs: Seq<serde_json::Value>, n: int, i: int)
    requires
        0 <= i < n <= SERIES_COUNT,
    ensures
        derived_members(vs, n).dom().contains(state::series_name(i)),
        derived_members(vs, n)[state::series_name(i)] == json::content(vs[i]),
    decreases n,
{
    series::law_names_are_distinct();
    if i < n - 1 {
        lemma_derived_member(vs, n - 1, i);
        assert(state::series_name(i) != state::series_name(n - 1));
    }
}

/// Url, state and model of the last snapshot stand in a report under their own
/// names, and under "derived" each series shows its latest value under its
/// name.
pub proof fn law_report_members<T: Reporting>(
    t: T,
    zero: T::F,
    latest: Seq<T::F>,
    b: BackendSnapshot<T::F>,
    n: ReportNumbers,
    url: Seq<char>,
    name: Seq<char>,
    i: int,
)
    requires
        are_numbers(t, zero, latest, b, n),
        state::names_series(name, i),
        i < SERIES_COUNT,
    ensures
        has_keys(
            report_json(url, b, n),
            set![
                "url"@,
                "reachable"@,
                "error"@,
                "model_name"@,
                "derived"@,
                "vllm_info"@,
                "raw_vllm"@,
            ],
        ),
        member(report_json(url, b, n), "url"@) == Json::Text(url),
        member(report_json(url, b, n), "reachable"@) == Json::Bool(b.reachable),
        shows_text(b.error, member(report_json(url, b, n), "error"@)),
        shows_text(b.model_name, member(report_json(url, b, n), "model_name"@)),
        member(report_json(url, b, n), "derived"@) is Object,
        shows(t, latest[i], member(member(report_json(url, b, n), "derived"@), name)),
{
    lemma_top_keys();
    let j = report_json(url, b, n);
    lemma_derived_member(n.derived@, SERIES_COUNT as int, i);
    assert(call_ensures(T::json, (&t, latest[i]), n.derived@[i]));
    assert(member(j, "derived"@) == Json::Object(
        derived_members(n.derived@, SERIES_COUNT as int),
    ));
    assert(j->Object_0.dom() =~= set![
        "url"@,
        "reachable"@,
        "error"@,
        "model_name"@,
        "derived"@,
        "vllm_info"@,
        "raw_vllm"@,
    ]);
}

/// What the report of two snapshots shows under "derived" for a series is the
/// number that the series means: a rate or a mean between the two snapshots, or
/// a gauge of the second.
pub proof fn law_report_derives<T: Reporting>(
    t: T,
    v: spec_fn(T::F) -> real,
    zero: T::F,
    first: Snapshot<T::F>,
    second: Snapshot<T::F>,
    latest: Seq<T::F>,
    n: ReportNumbers,
    url: Seq<char>,
    name: Seq<char>,
) -> (x: T::F)
    requires
        exact::is_exact(t, v),
        v(zero) == 0real,
        state::derived_from(t, zero, Some(first), second, latest),
        are_numbers(t, zero, latest, second.backend, n),
        series::is_series(name),
    ensures
        shows(t, x, member(member(report_json(url, second.backend, n), "derived"@), name)),
        series::gauged(v, name, second.backend, v(x)),
        first.backend.reachable && second.backend.reachable ==> series::shown(
            v,
            name,
            first.backend,
            second.backend,
            v(second.monotonic) - v(first.monotonic),
            v(x),
        ),
{
    let i = series::lemma_place_of(name);
    law_report_members(t, zero, latest, second.backend, n, url, name, i);
    series::law_series_show_their_metric(t, v, zero, Some(first), second, latest, name, i);
    latest[i]
}

/// The hit rate is the share of queries that hit.
pub proof fn law_hit_rate_is_share<T: Arithmetic>(
    t: T,
    v: spec_fn(T::F) -> real,
    zero: T::F,
    b: BackendSnapshot<T::F>,
    rate: T::F,
)
    requires
        exact::is_exact(t, v),
        v(zero) == 0real,
        state::is_hit_rate(t, zero, b, rate),
    ensures
        v(b.prefix_cache_queries_total) > 0real ==> v(rate) * v(b.prefix_cache_queries_total) == v(
            b.prefix_cache_hits_total,
        ),
        v(b.prefix_cache_queries_total) <= 0real ==> v(rate) == 0real,
{
    let h = v(b.prefix_cache_hits_total);
    let q = v(b.prefix_cache_queries_total);
    if q > 0real {
        assert(h / q * q == h) by (nonlinear_arith)
            requires
                q > 0real,
        ;
    }
}

} // verus!
