//! What a report says under each of its keys.

use vstd::prelude::*;

use crate::exact;
use crate::json;
use crate::json::Json;
use crate::report;
use crate::report::{dump_json, ReportNumbers, Reporting};
use crate::series;
use crate::state;
use crate::state::{BackendSnapshot, Snapshot, SERIES_COUNT};

verus! {

/// What a report of the numbers has under "raw_vllm", key by key: just the
/// number with that name.
pub proof fn law_report_has_each_number_under_its_name<F>(
    url: &str,
    b: BackendSnapshot<F>,
    n: ReportNumbers,
    r: serde_json::Value,
)
    requires
        call_ensures(report::report::<F>, (url, &b, n), r),
    ensures
        ({
            let raw = report::member(json::content(r), "raw_vllm"@);
            let info = report::member(json::content(r), "vllm_info"@);
            &&& report::member(raw, "num_requests_running"@) == json::content(
                n.num_requests_running,
            )
            &&& report::member(raw, "num_requests_waiting"@) == json::content(
                n.num_requests_waiting,
            )
            &&& report::member(raw, "kv_cache_usage_perc"@) == json::content(n.kv_cache_usage_perc)
            &&& report::member(raw, "generation_tokens_total"@) == json::content(
                n.generation_tokens_total,
            )
            &&& report::member(raw, "prompt_tokens_total"@) == json::content(n.prompt_tokens_total)
            &&& report::member(raw, "num_preemptions_total"@) == json::content(
                n.num_preemptions_total,
            )
            &&& report::member(raw, "prefix_cache_hit_rate"@) == json::content(
                n.prefix_cache_hit_rate,
            )
            &&& report::member(info, "process_start_time"@) == json::content(n.process_start_time)
            &&& report::member(info, "request_success_total"@) == json::content(
                n.request_success_total,
            )
        }),
{
    report::lemma_top_keys();
    report::lemma_raw_keys();
    report::lemma_info_keys();
}

/// The object that a dump writes shows the second snapshot: under "raw_vllm"
/// and under "vllm_info" each key has what the snapshot has under that name, and
/// under "derived" each series has, by its name, what its metric did from the
/// first to the second snapshot.
pub open spec fn is_dump<T: Reporting>(
    t: T,
    v: spec_fn(T::F) -> real,
    zero: T::F,
    url: Seq<char>,
    first: Snapshot<T::F>,
    second: Snapshot<T::F>,
    j: Json,
) -> bool {
    &&& report::member(j, "url"@) == Json::Text(url)
    &&& report::member(j, "reachable"@) == Json::Bool(second.backend.reachable)
    &&& report::shows_text(second.backend.error, report::member(j, "error"@))
    &&& report::shows_text(second.backend.model_name, report::member(j, "model_name"@))
    &&& report::shows_raw(t, zero, second.backend, report::member(j, "raw_vllm"@))
    &&& report::shows_info(t, second.backend, report::member(j, "vllm_info"@))
    &&& forall|name: Seq<char>| #[trigger]
        series::is_series(name) ==> tells_series(
            t,
            v,
            first,
            second,
            name,
            report::member(report::member(j, "derived"@), name),
        )
}

/// `j` is what the series of the given name shows of the two snapshots.
pub open spec fn tells_series<T: Reporting>(
    t: T,
    v: spec_fn(T::F) -> real,
    first: Snapshot<T::F>,
    second: Snapshot<T::F>,
    name: Seq<char>,
    j: Json,
) -> bool {
    exists|x: T::F| #[trigger]
        report::shows(t, x, j) && series::gauged(v, name, second.backend, v(x)) && (
        first.backend.reachable && second.backend.reachable ==> series::shown(
            v,
            name,
            first.backend,
            second.backend,
            v(second.monotonic) - v(first.monotonic),
            v(x),
        ))
}

/// A dump of two snapshots shows the second one, key by key, and by name what
/// each series did from the first to the second.
pub proof fn law_dump_shows_both_snapshots<T: Reporting>(
    t: T,
    v: spec_fn(T::F) -> real,
    zero: T::F,
    url: &str,
    history_len: usize,
    first: Snapshot<T::F>,
    second: Snapshot<T::F>,
    r: Option<String>,
)
    requires
        exact::is_exact(t, v),
        v(zero) == 0real,
        call_ensures(dump_json::<T>, (&t, zero, url, history_len, first, second), r),
    ensures
        exists|j: Json| #[trigger]
            is_dump(t, v, zero, url@, first, second, j) && json::written(r) == Some(
                json::pretty_text(j),
            ),
{
    let (latest, n) = choose|latest: Seq<T::F>, n: ReportNumbers| #[trigger]
        state::derived_from(t, zero, Some(first), second, latest) && #[trigger]
        report::are_numbers(t, zero, latest, second.backend, n) && json::written(r) == Some(
            json::pretty_text(report::report_json(url@, second.backend, n)),
        );
    let b = second.backend;
    let j = report::report_json(url@, b, n);
    report::law_raw_members(t, zero, latest, b, n, url@);
    report::law_info_members(t, zero, latest, b, n, url@);
    assert(0 < SERIES_COUNT);
    let i = series::lemma_place_of("ttft"@);
    report::law_report_members(t, zero, latest, b, n, url@, "ttft"@, i);
    assert forall|name: Seq<char>| #[trigger] series::is_series(name) implies tells_series(
        t,
        v,
        first,
        second,
        name,
        report::member(report::member(j, "derived"@), name),
    ) by {
        let x = report::law_report_derives(t, v, zero, first, second, latest, n, url@, name);
        assert(report::shows(t, x, report::member(report::member(j, "derived"@), name)));
    }
    assert(is_dump(t, v, zero, url@, first, second, j));
}

} // verus!
