//! Metrics: scraped, derived, and mocked.

use std::time::{SystemTime, UNIX_EPOCH};

use tokos::collectors::common::{
    fetch_timeout, le_to_float, metrics_text, parse_line, parse_value, short_error, FetchError,
    MAX_METRICS_BYTES,
};
use tokos::collectors::{make_collector, sglang, vllm, AutoCollector, Backend, BackendKind};
use tokos::config::{AppConfig, EnvVars, RunOptions, HISTORY_LEN};
use tokos::logging::{level, LogFormat};
use tokos::mock_server::bounds::{sgl_bounds, vllm_bounds};
use tokos::mock_server::config::{MockServerConfig, DEFAULT_MODEL};
use tokos::mock_server::histogram::{fmt_f64, HistAcc, Spelling};
use tokos::mock_server::render::render_metrics;
use tokos::mock_server::rng::{Rng, SEED_MIX};
use tokos::mock_server::simulate::{
    answer_delay, normal, sgl_request, simulate_request_with, standard, traffic_interval,
    vllm_request, Chance,
};
use tokos::mock_server::state::{fresh_state, BackendState, SglBounds, SglState};
use tokos::report::{dump_json, pause, Reporting};
use tokos::state::{
    bound_of, compute_rate, evaluate, histogram_avg, histogram_quantile, histogram_recent_avg, series_index,
    series_names, Arithmetic, BackendSnapshot, Histogram, History, MergedLogEntry, Series,
    value_of, Snapshot, SERIES_COUNT,
};

/// Arithmetic on double-precision numbers.
struct Real;

impl Arithmetic for Real {
    type F = f64;

    fn parsed(&self, s: &str) -> Option<f64> {
        s.parse().ok()
    }

    fn infinity(&self) -> f64 {
        f64::INFINITY
    }

    fn no_number(&self) -> f64 {
        f64::NAN
    }

    fn whole(&self, n: i64) -> f64 {
        n as f64
    }

    fn plus(&self, a: f64, b: f64) -> f64 {
        a + b
    }

    fn minus(&self, a: f64, b: f64) -> f64 {
        a - b
    }

    fn times(&self, a: f64, b: f64) -> f64 {
        a * b
    }

    fn ratio(&self, a: f64, b: f64) -> f64 {
        a / b
    }

    fn larger(&self, a: f64, b: f64) -> f64 {
        a.max(b)
    }

    fn smaller(&self, a: f64, b: f64) -> f64 {
        a.min(b)
    }

    fn at_most(&self, a: f64, b: f64) -> bool {
        a <= b
    }

    fn under(&self, a: f64, b: f64) -> bool {
        a < b
    }

    fn equal(&self, a: f64, b: f64) -> bool {
        a == b
    }

    fn is_infinite(&self, a: f64) -> bool {
        a.is_infinite()
    }

    fn truncated(&self, a: f64) -> i64 {
        a as i64
    }

    fn exp_minus(&self, a: f64) -> f64 {
        (-a).exp()
    }
}

impl Spelling for Real {
    fn is_nan(&self, a: f64) -> bool {
        a.is_nan()
    }

    fn plain(&self, a: f64) -> String {
        format!("{a}")
    }
}

impl Chance for Real {
    fn ln(&self, a: f64) -> f64 {
        a.ln()
    }

    fn square_root(&self, a: f64) -> f64 {
        a.sqrt()
    }

    fn cosine(&self, a: f64) -> f64 {
        a.cos()
    }

    fn pi(&self) -> f64 {
        std::f64::consts::PI
    }

    fn nearest(&self, a: f64) -> f64 {
        a.round()
    }
}

impl Reporting for Real {
    fn json(&self, a: f64) -> serde_json::Value {
        serde_json::Value::from(a)
    }
}

fn close(a: f64, b: f64) -> bool {
    (a - b).abs() < 1e-9
}

#[test]
fn compute_rate_basic() {
    assert_eq!(compute_rate(&Real, 0.0, 100.0, 10.0, 200.0, 12.0), 50.0);
}

#[test]
fn compute_rate_guards() {
    assert_eq!(compute_rate(&Real, 0.0, 100.0, 10.0, 200.0, 10.0), 0.0);
    assert_eq!(compute_rate(&Real, 0.0, 200.0, 10.0, 50.0, 12.0), 0.0);
}

#[test]
fn histogram_recent_avg_values() {
    let prev = Histogram { count: 10.0, sum: 5.0, ..Histogram::new(0.0) };
    let cur = Histogram { count: 14.0, sum: 13.0, ..Histogram::new(0.0) };
    assert_eq!(histogram_recent_avg(&Real, 0.0, &prev, &cur), 2.0);
    assert_eq!(histogram_recent_avg(&Real, 0.0, &cur, &cur), 0.0);
}

#[test]
fn histogram_avg_falls_back() {
    let prev = Histogram { count: 10.0, sum: 5.0, ..Histogram::new(0.0) };
    let cur = Histogram { count: 14.0, sum: 13.0, ..Histogram::new(0.0) };
    assert_eq!(histogram_avg(&Real, 0.0, &prev, &cur), 2.0);
    assert_eq!(histogram_avg(&Real, 0.0, &prev, &prev), 0.5);
    let none = Histogram::new(0.0);
    assert_eq!(histogram_avg(&Real, 0.0, &none, &none), 0.0);
}

#[test]
fn histogram_quantile_value() {
    let prev = Histogram {
        count: 0.0,
        buckets: vec![(1.0, 0.0), (2.0, 0.0), (5.0, 0.0), (f64::INFINITY, 0.0)],
        ..Histogram::new(0.0)
    };
    let cur = Histogram {
        count: 10.0,
        buckets: vec![(1.0, 0.0), (2.0, 0.0), (5.0, 10.0), (f64::INFINITY, 10.0)],
        ..Histogram::new(0.0)
    };
    let q = histogram_quantile(&Real, 0.0, &prev, &cur, 0.5);
    assert!((2.0..=5.0).contains(&q));
    assert_eq!(q, 3.5);
}

#[test]
fn quantiles_of_cumulative_buckets() {
    let prev = Histogram {
        buckets: vec![(1.0, 0.0), (2.0, 0.0), (f64::INFINITY, 0.0)],
        ..Histogram::new(0.0)
    };
    let cur = Histogram {
        count: 8.0,
        buckets: vec![(1.0, 4.0), (2.0, 8.0), (f64::INFINITY, 8.0)],
        ..Histogram::new(0.0)
    };
    assert_eq!(histogram_quantile(&Real, 0.0, &prev, &cur, 0.75), 1.5);
    assert_eq!(histogram_quantile(&Real, 0.0, &prev, &cur, 0.25), 0.5);
    assert_eq!(histogram_quantile(&Real, 0.0, &prev, &cur, 0.0), 0.0);
    assert_eq!(histogram_quantile(&Real, 0.0, &prev, &cur, 1.0), 2.0);
}

#[test]
fn quantiles_grow() {
    let prev = Histogram::new(0.0);
    let cur = Histogram {
        count: 10.0,
        buckets: vec![(1.0, 0.0), (2.0, 3.0), (5.0, 3.0), (8.0, 9.0), (f64::INFINITY, 10.0)],
        ..Histogram::new(0.0)
    };
    let mut last = 0.0;
    for i in 0..=20 {
        let q = histogram_quantile(&Real, 0.0, &prev, &cur, i as f64 / 20.0);
        assert!(last <= q && q <= 8.0);
        last = q;
    }
    assert_eq!(last, 8.0);
    // Also where the buckets did not gain in step.
    let odd = Histogram {
        count: 10.0,
        buckets: vec![(1.0, 4.0), (2.0, 1.0), (5.0, 10.0), (f64::INFINITY, 10.0)],
        ..Histogram::new(0.0)
    };
    last = 0.0;
    for i in 0..=20 {
        let q = histogram_quantile(&Real, 0.0, &prev, &odd, i as f64 / 20.0);
        assert!(last <= q && q <= 5.0);
        last = q;
    }
}

#[test]
fn histogram_quantile_edges() {
    let none = Histogram::new(0.0);
    assert_eq!(histogram_quantile(&Real, 0.0, &none, &none, 0.5), 0.0);
    let cur = Histogram {
        count: 4.0,
        buckets: vec![(1.0, 0.0), (f64::INFINITY, 4.0)],
        ..Histogram::new(0.0)
    };
    // All values are over the last bound.
    assert_eq!(histogram_quantile(&Real, 0.0, &none, &cur, 0.5), 1.0);
    assert_eq!(histogram_quantile(&Real, 0.0, &cur, &cur, 0.5), 0.0);
}

#[test]
fn histogram_add_keeps_bounds_sorted() {
    let mut h = Histogram::new(0.0);
    h.add(&Real, 5.0, 1.0);
    h.add(&Real, f64::INFINITY, 2.0);
    h.add(&Real, 1.0, 3.0);
    h.add(&Real, 5.0, 4.0);
    assert_eq!(h.buckets, vec![(1.0, 3.0), (5.0, 5.0), (f64::INFINITY, 2.0)]);
    assert_eq!(h.get(&Real, 5.0, 0.0), 5.0);
    assert_eq!(h.get(&Real, 2.0, 0.0), 0.0);
}

#[test]
fn adding_changes_one_bound() {
    let mut h = Histogram::new(0.0);
    h.add(&Real, 5.0, 1.0);
    h.add(&Real, 1.0, 2.0);
    h.add(&Real, 5.0, 3.0);
    assert_eq!(h.buckets, vec![(1.0, 2.0), (5.0, 4.0)]);
    assert_eq!(h.get(&Real, 5.0, 0.0), 4.0);
    assert_eq!(h.get(&Real, 1.0, 0.0), 2.0);
    assert_eq!(h.get(&Real, 2.0, 0.0), 0.0);
    assert_eq!((h.count, h.sum), (0.0, 0.0));
}

#[test]
fn series_ring_buffer() {
    let mut s = Series::new(3);
    for i in 0..5 {
        s.append(i as f64);
    }
    assert_eq!(s.values(), vec![2.0, 3.0, 4.0]);
    assert_eq!(s.last(0.0), 4.0);
}

#[test]
fn series_without_room_stays_empty() {
    let mut s = Series::new(0);
    s.append(1.0);
    assert!(s.is_empty());
    assert_eq!(s.len(), 0);
    assert_eq!(s.last(0.0), 0.0);
}

fn snap(t: f64, gen_total: f64, running: f64) -> Snapshot<f64> {
    Snapshot::new(
        t,
        BackendSnapshot {
            reachable: true,
            generation_tokens_total: gen_total,
            num_requests_running: running,
            ..BackendSnapshot::new(0.0)
        },
    )
}

#[test]
fn history_rate_from_two_samples() {
    let mut h = History::new(HISTORY_LEN, 0.0);
    h.update(&Real, snap(0.0, 1000.0, 1.0));
    h.update(&Real, snap(2.0, 1200.0, 2.0));
    assert_eq!(h.derived("gen_tok_s").unwrap(), 100.0);
    assert_eq!(h.derived("running").unwrap(), 2.0);
    assert_eq!(h.series("gen_tok_s").unwrap().values(), vec![0.0, 100.0]);
}

#[test]
fn history_clear_resets_all() {
    let mut h = History::new(HISTORY_LEN, 0.0);
    h.update(&Real, snap(0.0, 1000.0, 1.0));
    h.update(&Real, snap(2.0, 1200.0, 2.0));
    assert!(!h.series("gen_tok_s").unwrap().is_empty());

    h.clear();

    for name in series_names() {
        assert!(h.series(name).unwrap().is_empty(), "{name} not cleared");
        assert_eq!(h.derived(name).unwrap(), 0.0, "{name} derived not reset");
        assert_eq!(h.avg(name).unwrap(), (0.0, 0.0, 0.0), "{name} avg not reset");
    }
    assert!(h.last_snapshot().is_none());
}

#[test]
fn window_avg_seeds_then_converges() {
    let mut h = History::new(HISTORY_LEN, 0.0);
    h.update(&Real, snap(0.0, 0.0, 1.0));
    assert_eq!(h.avg("running").unwrap(), (1.0, 1.0, 1.0));
    for i in 1..400 {
        h.update(&Real, snap(i as f64, 0.0, 5.0));
    }
    let emas = h.avg("running").unwrap();
    assert!(emas.0 > emas.1 && emas.1 > emas.2 && emas.2 > 1.0);
    assert!((emas.0 - 5.0).abs() < 0.5);
}

#[test]
fn window_averages_are_exact() {
    let mut h = History::new(10, 0.0);
    h.update(&Real, snap(0.0, 0.0, 1.0));
    h.update(&Real, snap(60.0, 0.0, 3.0));
    let (m1, m5, m15) = h.avg("running").unwrap();
    assert!(close(m1, 1.0 + 2.0 * (1.0 - (-1.0f64).exp())));
    assert!(close(m5, 1.0 + 2.0 * (1.0 - (-0.2f64).exp())));
    assert!(close(m15, 1.0 + 2.0 * (1.0 - (-60.0f64 / 900.0).exp())));
}

#[test]
fn average_steps_add() {
    let mut once = History::new(10, 0.0);
    once.update(&Real, snap(0.0, 0.0, 1.0));
    once.update(&Real, snap(50.0, 0.0, 3.0));
    let mut twice = History::new(10, 0.0);
    twice.update(&Real, snap(0.0, 0.0, 1.0));
    twice.update(&Real, snap(20.0, 0.0, 3.0));
    let middle = twice.avg("running").unwrap();
    twice.update(&Real, snap(20.0, 0.0, 9.0));
    assert_eq!(twice.avg("running").unwrap(), middle);
    twice.update(&Real, snap(50.0, 0.0, 3.0));
    let (a, b) = (once.avg("running").unwrap(), twice.avg("running").unwrap());
    assert!(close(a.0, b.0) && close(a.1, b.1) && close(a.2, b.2));
    assert!(1.0 < middle.0 && middle.0 < b.0 && b.0 < 3.0);
}

#[test]
fn unreachable_backend_has_no_rates() {
    let mut h = History::new(4, 0.0);
    h.update(&Real, snap(0.0, 1000.0, 1.0));
    h.update(&Real, Snapshot::new(1.0, BackendSnapshot::new(0.0)));
    assert_eq!(h.derived("gen_tok_s").unwrap(), 0.0);
    h.update(&Real, snap(2.0, 2000.0, 1.0));
    assert_eq!(h.derived("gen_tok_s").unwrap(), 0.0);
    h.update(&Real, snap(4.0, 2010.0, 1.0));
    assert_eq!(h.derived("gen_tok_s").unwrap(), 5.0);
}

#[test]
fn history_keeps_the_last_values() {
    let mut h = History::new(2, 0.0);
    for i in 0..5 {
        h.update(&Real, snap(i as f64, 0.0, i as f64));
    }
    assert_eq!(h.series("running").unwrap().values(), vec![3.0, 4.0]);
    assert!(h.series("nope").is_none());
    assert!(h.derived("nope").is_none());
    assert!(h.avg("nope").is_none());
    assert_eq!(h.last_snapshot().unwrap().monotonic, 4.0);
}

#[test]
fn kv_cache_is_in_percent() {
    let mut h = History::new(2, 0.0);
    let mut b = BackendSnapshot::new(0.0);
    b.kv_cache_usage_perc = 0.25;
    h.update(&Real, Snapshot::new(0.0, b));
    assert_eq!(h.derived("kv_cache").unwrap(), 25.0);
}

#[test]
fn series_are_found_by_name() {
    for (i, name) in series_names().iter().enumerate() {
        assert_eq!(series_index(name), i);
    }
    assert_eq!(series_index("nope"), SERIES_COUNT);
}

#[test]
fn status_decides_whether_a_request_went_well() {
    let mut e = MergedLogEntry::new(1.0);
    assert!(!e.ok());
    for (status, ok) in [(199, false), (200, true), (399, true), (400, false)] {
        e.status = Some(status);
        assert_eq!(e.ok(), ok);
    }
}

// ---- exposition text ----

#[test]
fn parse_skips_comments_and_blank() {
    assert!(parse_line("# HELP foo bar").is_none());
    assert!(parse_line("   ").is_none());
}

#[test]
fn parse_plain_value() {
    let s = parse_line("process_start_time_seconds 1.77995408251e+09").unwrap();
    assert_eq!(s.name, "process_start_time_seconds");
    assert!((value_of(&Real, &s.value) - 1.77995408251e9).abs() < 1e-3);
    assert!(s.labels.is_empty());
}

#[test]
fn parse_labels_and_inf() {
    let s = parse_line(r#"vllm:time_to_first_token_seconds_bucket{le="+Inf",engine="0"} 42.0"#)
        .unwrap();
    assert_eq!(s.name, "vllm:time_to_first_token_seconds_bucket");
    assert_eq!(value_of(&Real, &s.value), 42.0);
    let le = s.labels.iter().find(|(k, _)| *k == "le").unwrap();
    assert_eq!(le.1, "+Inf");
}

#[test]
fn parse_escaped_quotes() {
    let s = parse_line(r#"x{prompt="he said \"hi\"\n"} 1.0"#).unwrap();
    let p = s.labels.iter().find(|(k, _)| *k == "prompt").unwrap();
    assert_eq!(p.1, "he said \"hi\"\n");
}

#[test]
fn parse_ignores_a_timestamp() {
    let s = parse_line("x{a=\"b\"} 3.5 1700000000").unwrap();
    assert_eq!(value_of(&Real, &s.value), 3.5);
    assert!(parse_line("x{a=\"b\"}").is_none());
    assert!(parse_line("{a=\"b\"} 1").is_none());
}

#[test]
fn parse_other_escapes() {
    let s = parse_line("x{a=\"c\\\\d\\té\"} 1").unwrap();
    assert_eq!(s.labels[0].1, "c\\dté");
}

#[test]
fn numerals() {
    assert_eq!(value_of(&Real, &parse_value(" +Inf ")), f64::INFINITY);
    assert_eq!(value_of(&Real, &parse_value("-Inf")), f64::NEG_INFINITY);
    assert!(value_of(&Real, &parse_value("NaN")).is_nan());
    assert_eq!(value_of(&Real, &parse_value("nonsense")), 0.0);
    assert_eq!(value_of(&Real, &parse_value("2.5e1")), 25.0);
    assert_eq!(bound_of(&Real, &le_to_float("0.25")), 0.25);
    assert_eq!(bound_of(&Real, &le_to_float("Inf")), f64::INFINITY);
    assert_eq!(bound_of(&Real, &le_to_float("nonsense")), f64::INFINITY);
}

#[test]
fn deviates_by_box_and_muller() {
    assert_eq!(standard(&Real, (-2.0f64).exp(), 0.0), 2.0);
    assert_eq!(standard(&Real, (-2.0f64).exp(), 0.5), -2.0);
}

#[test]
fn bodies_are_read_as_text() {
    assert_eq!(metrics_text(&b"a 1\n".to_vec()), Ok("a 1\n".to_string()));
    assert_eq!(metrics_text(&vec![0x61, 0xff, 0x62]), Ok("a\u{fffd}b".to_string()));
    let over = vec![0x20u8; MAX_METRICS_BYTES + 1];
    assert_eq!(
        metrics_text(&over),
        Err("/metrics body exceeded 16777216 bytes".to_string())
    );
    assert!(metrics_text(&vec![0x20u8; MAX_METRICS_BYTES]).is_ok());
}

#[test]
fn errors_are_short() {
    assert_eq!(short_error(&FetchError::Status(503)), "HTTP 503");
    let t = FetchError::Transport("Transport: refused".to_string());
    assert_eq!(short_error(&t), "refused");
    let t = FetchError::Transport("refused".to_string());
    assert_eq!(short_error(&t), "refused");
}

#[test]
fn timeouts_have_a_floor() {
    assert_eq!(fetch_timeout(&Real, 2.0), 2.0);
    assert_eq!(fetch_timeout(&Real, 0.0), 0.001);
}

// ---- backends ----

#[test]
fn backend_kind_parse() {
    assert_eq!(BackendKind::parse("auto"), Some(BackendKind::Auto));
    assert_eq!(BackendKind::parse("VLLM"), Some(BackendKind::Vllm));
    assert_eq!(BackendKind::parse("sglang"), Some(BackendKind::Sgl));
    assert_eq!(BackendKind::parse("SGL"), Some(BackendKind::Sgl));
    assert_eq!(BackendKind::parse("nope"), None);
}

#[test]
fn backend_names_parse() {
    for k in [BackendKind::Auto, BackendKind::Vllm, BackendKind::Sgl] {
        assert_eq!(BackendKind::parse(k.as_str()), Some(k));
        assert_eq!(k.next().next().next(), k);
    }
    assert_eq!(BackendKind::Sgl.as_str(), "sglang");
}

#[test]
fn detect_vllm() {
    assert_eq!(
        AutoCollector::detect("python_info{...} 1\nvllm:num_requests_running 3"),
        BackendKind::Vllm
    );
}

#[test]
fn detect_sglang() {
    assert_eq!(
        AutoCollector::detect("# HELP ...\nsglang:num_running_reqs 162"),
        BackendKind::Sgl
    );
}

#[test]
fn detect_defaults_to_vllm() {
    assert_eq!(
        AutoCollector::detect("python_info{...} 1\n"),
        BackendKind::Vllm
    );
}

#[test]
fn detection_is_final() {
    let mut c = make_collector(BackendKind::Auto);
    assert_eq!(c.effective_kind(), BackendKind::Auto);
    let s = c.poll(Err("HTTP 500".to_string()));
    assert!(!s.reachable);
    assert_eq!(s.error.as_deref(), Some("HTTP 500"));
    assert_eq!(c.effective_kind(), BackendKind::Auto);
    c.poll(Ok("sglang:num_running_reqs 3\n".to_string()));
    assert_eq!(c.effective_kind(), BackendKind::Sgl);
    let s = evaluate(&Real, 0.0, c.poll(Ok("vllm:num_requests_running 5\n".to_string())));
    assert_eq!(c.effective_kind(), BackendKind::Sgl);
    assert_eq!(s.num_requests_running, 0.0);
}

#[test]
fn asked_backends_are_not_detected() {
    let mut c = make_collector(BackendKind::Vllm);
    let s = evaluate(&Real, 0.0, c.poll(Ok("vllm:num_requests_running 5\n".to_string())));
    assert_eq!(s.num_requests_running, 5.0);
    assert_eq!(c.effective_kind(), BackendKind::Vllm);
    let mut c = make_collector(BackendKind::Sgl);
    let s = evaluate(&Real, 0.0, c.poll(Ok("sglang:num_running_reqs 5\n".to_string())));
    assert_eq!(s.num_requests_running, 5.0);
}

const VLLM_METRICS: &str = r#"# HELP python_info Python platform information
# TYPE python_info gauge
python_info{implementation="CPython",major="3",minor="12"} 1.0
# TYPE process_start_time_seconds gauge
process_start_time_seconds 1.77995408251e+09
# TYPE vllm:num_requests_running gauge
vllm:num_requests_running{engine="0",model_name="Qwen/Qwen3.6-35B-A3B"} 0.0
vllm:num_requests_waiting{engine="0",model_name="Qwen/Qwen3.6-35B-A3B"} 0.0
vllm:kv_cache_usage_perc{engine="0",model_name="Qwen/Qwen3.6-35B-A3B"} 0.0
vllm:engine_sleep_state{engine="0",model_name="Qwen/Qwen3.6-35B-A3B",sleep_state="awake"} 1.0
vllm:engine_sleep_state{engine="0",model_name="Qwen/Qwen3.6-35B-A3B",sleep_state="weights_offloaded"} 0.0
vllm:prefix_cache_queries_total{engine="0",model_name="Qwen/Qwen3.6-35B-A3B"} 0.0
vllm:prefix_cache_hits_total{engine="0",model_name="Qwen/Qwen3.6-35B-A3B"} 0.0
vllm:num_preemptions_total{engine="0",model_name="Qwen/Qwen3.6-35B-A3B"} 0.0
vllm:prompt_tokens_total{engine="0",model_name="Qwen/Qwen3.6-35B-A3B"} 5.7351109e+07
vllm:generation_tokens_total{engine="0",model_name="Qwen/Qwen3.6-35B-A3B"} 1.799939e+06
vllm:request_success_total{engine="0",finished_reason="stop",model_name="Qwen/Qwen3.6-35B-A3B"} 12000.0
vllm:request_success_total{engine="0",finished_reason="length",model_name="Qwen/Qwen3.6-35B-A3B"} 218.0
vllm:request_success_total{engine="0",finished_reason="abort",model_name="Qwen/Qwen3.6-35B-A3B"} 0.0
# TYPE vllm:time_to_first_token_seconds histogram
vllm:time_to_first_token_seconds_bucket{engine="0",le="0.001",model_name="Qwen/Qwen3.6-35B-A3B"} 0.0
vllm:time_to_first_token_seconds_bucket{engine="0",le="0.25",model_name="Qwen/Qwen3.6-35B-A3B"} 12.0
vllm:time_to_first_token_seconds_bucket{engine="0",le="+Inf",model_name="Qwen/Qwen3.6-35B-A3B"} 40.0
vllm:time_to_first_token_seconds_count{engine="0",model_name="Qwen/Qwen3.6-35B-A3B"} 40.0
vllm:time_to_first_token_seconds_sum{engine="0",model_name="Qwen/Qwen3.6-35B-A3B"} 22.5
vllm:inter_token_latency_seconds_bucket{engine="0",le="0.01",model_name="Qwen/Qwen3.6-35B-A3B"} 7.0
vllm:inter_token_latency_seconds_bucket{engine="0",le="+Inf",model_name="Qwen/Qwen3.6-35B-A3B"} 9.0
vllm:inter_token_latency_seconds_count{engine="0",model_name="Qwen/Qwen3.6-35B-A3B"} 9.0
vllm:inter_token_latency_seconds_sum{engine="0",model_name="Qwen/Qwen3.6-35B-A3B"} 0.5
vllm:e2e_request_latency_seconds_bucket{engine="0",le="0.3",model_name="Qwen/Qwen3.6-35B-A3B"} 1.0
vllm:e2e_request_latency_seconds_bucket{engine="0",le="+Inf",model_name="Qwen/Qwen3.6-35B-A3B"} 12218.0
vllm:e2e_request_latency_seconds_count{engine="0",model_name="Qwen/Qwen3.6-35B-A3B"} 12218.0
vllm:e2e_request_latency_seconds_sum{engine="0",model_name="Qwen/Qwen3.6-35B-A3B"} 9000.0
vllm:request_queue_time_seconds_bucket{engine="0",le="0.3",model_name="Qwen/Qwen3.6-35B-A3B"} 12200.0
vllm:request_queue_time_seconds_bucket{engine="0",le="+Inf",model_name="Qwen/Qwen3.6-35B-A3B"} 12218.0
vllm:request_queue_time_seconds_count{engine="0",model_name="Qwen/Qwen3.6-35B-A3B"} 12218.0
vllm:request_queue_time_seconds_sum{engine="0",model_name="Qwen/Qwen3.6-35B-A3B"} 1.25
vllm:cache_config_info{block_size="16",cache_dtype="fp8",enable_prefix_caching="False",engine="0",gpu_memory_utilization="0.88",num_gpu_blocks="144"} 1.0
"#;

fn vllm_snap() -> BackendSnapshot<f64> {
    evaluate(&Real, 0.0, vllm::parse_metrics(VLLM_METRICS))
}

#[test]
fn joined_texts_add_up() {
    let a = "vllm:num_requests_running{model_name=\"a\"} 2\n\
             vllm:time_to_first_token_seconds_bucket{le=\"0.5\"} 3\n\
             vllm:time_to_first_token_seconds_bucket{le=\"+Inf\"} 4\n\
             vllm:time_to_first_token_seconds_count 4\r";
    let b = "vllm:num_requests_running{model_name=\"b\"} 5\n\
             vllm:time_to_first_token_seconds_bucket{le=\"0.25\"} 1\n\
             vllm:time_to_first_token_seconds_bucket{le=\"0.5\"} 7\n\
             vllm:time_to_first_token_seconds_count 9\n";
    for (x, y, model) in [(a, b, "a"), (b, a, "b")] {
        let s = evaluate(&Real, 0.0, vllm::parse_metrics(&format!("{x}\n{y}")));
        assert_eq!(s.num_requests_running, 7.0);
        assert_eq!(s.model_name.as_deref(), Some(model));
        assert_eq!(s.ttft.count, 13.0);
        assert_eq!(s.ttft.buckets, vec![(0.25, 1.0), (0.5, 10.0), (f64::INFINITY, 4.0)]);
    }
}

#[test]
fn vllm_reachable_and_model() {
    let s = vllm_snap();
    assert!(s.reachable);
    assert_eq!(s.model_name.as_deref(), Some("Qwen/Qwen3.6-35B-A3B"));
}

#[test]
fn vllm_scalar_values() {
    let s = vllm_snap();
    assert_eq!(s.num_requests_running, 0.0);
    assert_eq!(s.num_requests_waiting, 0.0);
    assert_eq!(s.kv_cache_usage_perc, 0.0);
    assert_eq!(s.prompt_tokens_total, 57351109.0);
    assert_eq!(s.generation_tokens_total, 1799939.0);
    assert_eq!(s.num_preemptions_total, 0.0);
}

#[test]
fn vllm_histograms_parsed() {
    let s = vllm_snap();
    for hist in [&s.ttft, &s.inter_token, &s.e2e, &s.queue_time] {
        assert!(hist.buckets.iter().any(|(le, _)| le.is_infinite()));
        assert_eq!(hist.get(&Real, f64::INFINITY, 0.0), hist.count);
    }
    assert_eq!(s.ttft.buckets, vec![(0.001, 0.0), (0.25, 12.0), (f64::INFINITY, 40.0)]);
    assert_eq!(s.ttft.sum, 22.5);
}

#[test]
fn prefix_cache_hit_rate_guarded() {
    let s = vllm_snap();
    assert_eq!(s.prefix_cache_hit_rate(&Real, 0.0), 0.0);
}

#[test]
fn engine_info_parsed() {
    let s = vllm_snap();
    assert_eq!(s.cache_dtype.as_deref(), Some("fp8"));
    assert_eq!(s.block_size.as_deref(), Some("16"));
    assert_eq!(s.num_gpu_blocks.as_deref(), Some("144"));
    assert_eq!(s.gpu_memory_utilization.as_deref(), Some("0.88"));
    assert_eq!(s.enable_prefix_caching, Some(false));
    assert!((s.process_start_time.unwrap() - 1.77995408251e9).abs() < 1.0);
    assert_eq!(s.engine_awake, Some(true));
    assert_eq!(s.request_success_total, 12218.0);
}

#[test]
fn engines_are_summed() {
    let text = "vllm:generation_tokens_total{engine=\"0\"} 2\n\
                vllm:generation_tokens_total{engine=\"1\"} 3\n\
                vllm:time_to_first_token_seconds_bucket{engine=\"0\",le=\"1\"} 1\n\
                vllm:time_to_first_token_seconds_bucket{engine=\"1\",le=\"1\"} 4\n\
                vllm:prefix_cache_hits_total 1\nvllm:prefix_cache_queries_total 4\n\
                vllm:engine_sleep_state{sleep_state=\"awake\"} 0\n";
    let s = evaluate(&Real, 0.0, vllm::parse_metrics(text));
    assert_eq!(s.generation_tokens_total, 5.0);
    assert_eq!(s.ttft.buckets, vec![(1.0, 5.0)]);
    assert_eq!(s.prefix_cache_hit_rate(&Real, 0.0), 0.25);
    assert_eq!(s.engine_awake, Some(false));
    assert_eq!(s.model_name, None);
}

const SGLANG_METRICS: &str = r#"# HELP sglang:prompt_tokens_total Number of prefill tokens processed.
# TYPE sglang:prompt_tokens_total counter
sglang:prompt_tokens_total{model_name="meta-llama/Llama-3.1-8B-Instruct"} 8.128902e+06
# TYPE sglang:generation_tokens_total counter
sglang:generation_tokens_total{model_name="meta-llama/Llama-3.1-8B-Instruct"} 7.557572e+06
process_start_time_seconds 1.7e+09
sglang:token_usage{model_name="meta-llama/Llama-3.1-8B-Instruct"} 0.28
sglang:cache_hit_rate{model_name="meta-llama/Llama-3.1-8B-Instruct"} 0.007507552643049313
# TYPE sglang:time_to_first_token_seconds histogram
sglang:time_to_first_token_seconds_sum{model_name="meta-llama/Llama-3.1-8B-Instruct"} 2.3518979474117756e+06
sglang:time_to_first_token_seconds_bucket{le="0.001",model_name="meta-llama/Llama-3.1-8B-Instruct"} 0.0
sglang:time_to_first_token_seconds_bucket{le="30.0",model_name="meta-llama/Llama-3.1-8B-Instruct"} 1004.0
sglang:time_to_first_token_seconds_bucket{le="+Inf",model_name="meta-llama/Llama-3.1-8B-Instruct"} 11008.0
sglang:time_to_first_token_seconds_count{model_name="meta-llama/Llama-3.1-8B-Instruct"} 11008.0
sglang:e2e_request_latency_seconds_sum{model_name="meta-llama/Llama-3.1-8B-Instruct"} 3.116093850019932e+06
sglang:e2e_request_latency_seconds_bucket{le="60.0",model_name="meta-llama/Llama-3.1-8B-Instruct"} 1101.0
sglang:e2e_request_latency_seconds_bucket{le="+Inf",model_name="meta-llama/Llama-3.1-8B-Instruct"} 11228.0
sglang:e2e_request_latency_seconds_count{model_name="meta-llama/Llama-3.1-8B-Instruct"} 11228.0
sglang:time_per_output_token_seconds_sum{model_name="meta-llama/Llama-3.1-8B-Instruct"} 866964.5791549598
sglang:time_per_output_token_seconds_bucket{le="0.005",model_name="meta-llama/Llama-3.1-8B-Instruct"} 1.0
sglang:time_per_output_token_seconds_bucket{le="+Inf",model_name="meta-llama/Llama-3.1-8B-Instruct"} 7.400757e+06
sglang:time_per_output_token_seconds_count{model_name="meta-llama/Llama-3.1-8B-Instruct"} 7.400757e+06
sglang:num_running_reqs{model_name="meta-llama/Llama-3.1-8B-Instruct"} 162.0
sglang:num_queue_reqs{model_name="meta-llama/Llama-3.1-8B-Instruct"} 2826.0
"#;

fn sglang_snap() -> BackendSnapshot<f64> {
    evaluate(&Real, 0.0, sglang::parse_metrics(SGLANG_METRICS))
}

#[test]
fn sglang_reachable_and_model() {
    let s = sglang_snap();
    assert!(s.reachable);
    assert_eq!(
        s.model_name.as_deref(),
        Some("meta-llama/Llama-3.1-8B-Instruct")
    );
}

#[test]
fn sglang_scalar_values() {
    let s = sglang_snap();
    assert_eq!(s.prompt_tokens_total, 8.128902e+06);
    assert_eq!(s.generation_tokens_total, 7.557572e+06);
    assert_eq!(s.num_requests_running, 162.0);
    assert_eq!(s.num_requests_waiting, 2826.0);
}

#[test]
fn cache_hit_rate_from_gauge() {
    let s = sglang_snap();
    assert!((s.prefix_cache_hit_rate(&Real, 0.0) - 0.007507552643049313).abs() < 1e-12);
}

#[test]
fn sglang_histograms_parsed() {
    let s = sglang_snap();
    for hist in [&s.ttft, &s.e2e, &s.inter_token] {
        assert!(hist.buckets.iter().any(|(le, _)| le.is_infinite()));
        assert_eq!(hist.get(&Real, f64::INFINITY, 0.0), hist.count);
    }
    assert_eq!(s.ttft.count, 11008.0);
    assert_eq!(s.e2e.count, 11228.0);
    assert_eq!(s.inter_token.count, 7.400757e+06);
}

#[test]
fn process_start_time_captured() {
    let s = sglang_snap();
    assert!(s.process_start_time.is_some());
}

#[test]
fn vllm_only_fields_at_default() {
    let s = sglang_snap();
    assert_eq!(s.kv_cache_usage_perc, 0.0);
    assert_eq!(s.num_preemptions_total, 0.0);
    assert_eq!(s.request_success_total, 0.0);
    assert!(s.cache_dtype.is_none());
    assert!(s.block_size.is_none());
    assert!(s.engine_awake.is_none());
    assert_eq!(s.req_prompt_tokens.count, 0.0);
    assert_eq!(s.queue_time.count, 0.0);
}

// ---- the mock server's metrics ----

fn config() -> MockServerConfig<f64> {
    MockServerConfig::new(&Real, 0.0)
}

fn state_with(backend: BackendKind, model: &str) -> BackendState<f64> {
    fresh_state(&Real, 0.0, backend, model.to_string(), 1.7e9)
}

fn clock_seed() -> u64 {
    SystemTime::now()
        .duration_since(UNIX_EPOCH)
        .map(|d| d.as_nanos() as u64)
        .unwrap_or(SEED_MIX)
}

#[test]
fn vllm_empty_state_round_trips() {
    let st = state_with(BackendKind::Vllm, DEFAULT_MODEL);
    let text = render_metrics(&Real, 0.0, &st);
    let snap = evaluate(&Real, 0.0, vllm::parse_metrics(&text));
    assert!(snap.reachable);
    assert_eq!(snap.model_name.as_deref(), Some(DEFAULT_MODEL));
    assert_eq!(snap.request_success_total, 0.0);
    assert_eq!(snap.prompt_tokens_total, 0.0);
    assert_eq!(snap.generation_tokens_total, 0.0);
    for h in [
        &snap.ttft,
        &snap.inter_token,
        &snap.e2e,
        &snap.queue_time,
        &snap.req_prompt_tokens,
        &snap.req_gen_tokens,
        &snap.prefill_time,
        &snap.decode_time,
    ] {
        assert_eq!(h.count, 0.0);
        assert_eq!(h.get(&Real, f64::INFINITY, 0.0), 0.0);
    }
    assert_eq!(snap.engine_awake, Some(true));
    assert!(snap.cache_dtype.is_some());
    assert!(snap.process_start_time.is_some());
}

#[test]
fn vllm_simulated_requests_round_trip() {
    let cfg = MockServerConfig {
        request_latency: 0.0,
        ttft_ms: 150.0,
        itl_ms: 10.0,
        output_tokens: 128,
        ..config()
    };
    let mut st = state_with(BackendKind::Vllm, &cfg.model);
    let mut rng = Rng::new(clock_seed());
    for _ in 0..10 {
        simulate_request_with(&Real, 0.0, &mut rng, &mut st, &cfg);
    }
    let text = render_metrics(&Real, 0.0, &st);
    let snap = evaluate(&Real, 0.0, vllm::parse_metrics(&text));

    assert!(snap.reachable);
    assert_eq!(snap.model_name.as_deref(), Some(DEFAULT_MODEL));
    assert!(snap.request_success_total > 0.0);
    assert!(snap.prompt_tokens_total > 0.0);
    assert!(snap.generation_tokens_total > 0.0);

    for h in [
        &snap.ttft,
        &snap.inter_token,
        &snap.e2e,
        &snap.queue_time,
        &snap.req_prompt_tokens,
        &snap.req_gen_tokens,
        &snap.prefill_time,
        &snap.decode_time,
    ] {
        assert!(h.count > 0.0, "histogram count should be > 0");
        assert_eq!(
            h.get(&Real, f64::INFINITY, 0.0),
            h.count,
            "+Inf bucket must equal count"
        );
    }

    assert_eq!(snap.engine_awake, Some(true));
    assert_eq!(snap.cache_dtype.as_deref(), Some("auto"));
    assert_eq!(snap.block_size.as_deref(), Some("16"));
}

#[test]
fn sglang_empty_state_round_trips() {
    let st = state_with(BackendKind::Sgl, DEFAULT_MODEL);
    let text = render_metrics(&Real, 0.0, &st);
    let snap = evaluate(&Real, 0.0, sglang::parse_metrics(&text));
    assert!(snap.reachable);
    assert_eq!(snap.model_name.as_deref(), Some(DEFAULT_MODEL));
    assert_eq!(snap.prompt_tokens_total, 0.0);
    assert_eq!(snap.generation_tokens_total, 0.0);
    assert_eq!(snap.num_requests_running, 0.0);
    assert_eq!(snap.num_requests_waiting, 0.0);
    for h in [&snap.ttft, &snap.e2e, &snap.inter_token] {
        assert_eq!(h.count, 0.0);
        assert_eq!(h.get(&Real, f64::INFINITY, 0.0), 0.0);
    }
    assert!(snap.process_start_time.is_some());
    // SGLang doesn't expose these.
    assert_eq!(snap.kv_cache_usage_perc, 0.0);
    assert!(snap.cache_dtype.is_none());
    assert!(snap.engine_awake.is_none());
}

#[test]
fn sglang_simulated_requests_round_trip() {
    let cfg = MockServerConfig {
        backend: BackendKind::Sgl,
        request_latency: 0.0,
        ttft_ms: 150.0,
        itl_ms: 10.0,
        output_tokens: 128,
        ..config()
    };
    let mut st = state_with(BackendKind::Sgl, &cfg.model);
    let mut rng = Rng::new(clock_seed());
    for _ in 0..10 {
        simulate_request_with(&Real, 0.0, &mut rng, &mut st, &cfg);
    }
    let text = render_metrics(&Real, 0.0, &st);
    let snap = evaluate(&Real, 0.0, sglang::parse_metrics(&text));

    assert!(snap.reachable);
    assert_eq!(snap.model_name.as_deref(), Some(DEFAULT_MODEL));
    assert!(snap.prompt_tokens_total > 0.0);
    assert!(snap.generation_tokens_total > 0.0);

    for h in [&snap.ttft, &snap.e2e, &snap.inter_token] {
        assert!(h.count > 0.0, "histogram count should be > 0");
        assert_eq!(
            h.get(&Real, f64::INFINITY, 0.0),
            h.count,
            "+Inf bucket must equal count"
        );
    }
}

#[test]
fn rng_produces_sane_normals() {
    let mut rng = Rng::new(clock_seed());
    let mut sum = 0.0;
    for _ in 0..1000 {
        let v = normal(&Real, 0.0, &mut rng, 5.0, 1.0);
        assert!(v >= 0.0);
        sum += v;
    }
    let mean = sum / 1000.0;
    assert!(
        (mean - 5.0).abs() < 1.0,
        "normal mean should be near 5, got {mean}"
    );
}

#[test]
fn no_deviation_draws_nothing() {
    let mut a = Rng::new(7);
    let mut b = Rng::new(7);
    assert_eq!(normal(&Real, 0.0, &mut a, 5.0, 0.0), 5.0);
    assert_eq!(normal(&Real, 0.0, &mut a, -5.0, 0.0), 0.0);
    assert_eq!(a.next_bits(), b.next_bits());
}

#[test]
fn generator_is_xorshift() {
    let mut x: u64 = 42u64.wrapping_add(0x9e37_79b9_7f4a_7c15);
    let mut rng = Rng::new(42);
    for _ in 0..100 {
        x ^= x >> 12;
        x ^= x << 25;
        x ^= x >> 27;
        assert_eq!(rng.next_bits(), x.wrapping_mul(0x2545_F491_4F6C_DD1D) >> 11);
    }
}

#[test]
fn a_request_from_given_draws() {
    let d = vec![100.7, 0.2, 0.15, 0.01, 0.3, 0.5, 2.4, 0.6];
    let (r, n) = vllm_request(&Real, 0.0, 0.6, &d);
    assert_eq!(n, (100, 1));
    assert_eq!(r.prompt_tokens, 100.0);
    assert_eq!(r.output_tokens, 1.0);
    assert_eq!(r.cached_tokens, 100.0 * 0.3);
    assert_eq!(r.kv_cache_usage_perc, 0.95);
    assert_eq!(r.num_requests_running, 2.0);
    assert_eq!(r.num_requests_waiting, 1.0);
    assert_eq!(r.prefill_time, 100.0 * 1e-4);
    assert_eq!(r.decode_time, 0.01);
    assert_eq!(r.e2e, 0.15 + 0.01 + 0.01);
    assert_eq!(r.queue_time, 0.3);

    let d = vec![3.0, 200.0, 0.15, 0.01, 1.5, 0.4, 0.2, 0.1, 75.0];
    let (r, n) = sgl_request(&Real, 0.0, 0.1, 0.9, &d);
    assert_eq!(n, (3, 200));
    assert_eq!(r.cache_hit_rate, 0.1 + 0.2);
    assert_eq!(r.token_usage, 0.95);
    assert_eq!(r.num_running_reqs, 2.0);
    assert_eq!(r.num_queue_reqs, 0.0);
    assert_eq!(r.gen_throughput, 75.0);
    assert_eq!(r.e2e, 0.15 + 0.001 + 0.01 * 200.0);
}

#[test]
fn observations_are_cumulative() {
    let mut h = HistAcc::new(vec![1.0, 2.0], 0.0);
    h.observe(&Real, 0.0, 1.0);
    h.observe(&Real, 0.0, 1.5);
    h.observe(&Real, 0.0, 9.0);
    h.observe(&Real, 0.0, -4.0);
    assert_eq!(h.buckets, vec![2, 3, 4]);
    assert_eq!(h.count, 4);
    assert_eq!(h.sum, 11.5);
}

#[test]
fn values_are_spelled() {
    assert_eq!(fmt_f64(&Real, 0.0, 2.0), "2.0");
    assert_eq!(fmt_f64(&Real, 0.0, 0.15), "0.15");
    assert_eq!(fmt_f64(&Real, 0.0, -3.0), "-3.0");
    assert_eq!(fmt_f64(&Real, 0.0, 1e16), "10000000000000000.0");
    assert_eq!(fmt_f64(&Real, 0.0, 1e-7), "0.0000001");
    assert_eq!(fmt_f64(&Real, 0.0, f64::INFINITY), "+Inf");
    assert_eq!(fmt_f64(&Real, 0.0, f64::NEG_INFINITY), "-Inf");
    assert_eq!(fmt_f64(&Real, 0.0, f64::NAN), "NaN");
}

#[test]
fn bucket_bounds_are_exact() {
    let b = vllm_bounds(&Real);
    assert_eq!(
        b.ttft,
        vec![
            0.001, 0.005, 0.01, 0.02, 0.04, 0.06, 0.08, 0.1, 0.25, 0.5, 0.75, 1.0, 2.5, 5.0, 7.5,
            10.0, 20.0, 40.0, 80.0, 160.0, 640.0, 2560.0
        ]
    );
    assert_eq!(
        b.e2e,
        vec![
            0.3, 0.5, 0.8, 1.0, 1.5, 2.0, 2.5, 5.0, 10.0, 15.0, 20.0, 30.0, 40.0, 50.0, 60.0,
            120.0, 240.0, 480.0, 960.0, 1920.0, 7680.0
        ]
    );
    assert_eq!(
        b.inter_token,
        vec![
            0.01, 0.025, 0.05, 0.075, 0.1, 0.15, 0.2, 0.3, 0.4, 0.5, 0.75, 1.0, 2.5, 5.0, 7.5,
            10.0, 20.0, 40.0, 80.0
        ]
    );
    assert_eq!(
        b.tokens,
        vec![
            1.0, 2.0, 5.0, 10.0, 20.0, 50.0, 100.0, 200.0, 500.0, 1000.0, 2000.0, 5000.0, 10000.0,
            20000.0, 50000.0
        ]
    );
    let b = sgl_bounds(&Real);
    assert_eq!(
        b.ttft,
        vec![
            0.001, 0.005, 0.01, 0.02, 0.04, 0.06, 0.08, 0.1, 0.25, 0.5, 0.75, 1.0, 2.5, 5.0, 7.5,
            10.0, 15.0, 20.0, 25.0, 30.0
        ]
    );
    assert_eq!(
        b.e2e,
        vec![
            0.3, 0.5, 0.8, 1.0, 1.5, 2.0, 2.5, 5.0, 10.0, 15.0, 20.0, 30.0, 40.0, 50.0, 60.0
        ]
    );
    assert_eq!(
        b.tpot,
        vec![
            0.005, 0.01, 0.015, 0.02, 0.025, 0.03, 0.04, 0.05, 0.075, 0.1, 0.15, 0.2, 0.3, 0.4,
            0.5, 0.75, 1.0, 2.5
        ]
    );
}

#[test]
fn sglang_exposition_is_exact() {
    let mut s = SglState::new(
        "m".to_string(),
        1.5,
        0.0,
        &SglBounds { ttft: vec![0.001, 10.0], e2e: vec![], tpot: vec![] },
    );
    s.ttft.observe(&Real, 0.0, 0.5);
    let text = render_metrics(&Real, 0.0, &BackendState::Sgl(s));
    assert!(text.starts_with(
        "# HELP process_start_time_seconds Start time of the process since unix epoch in seconds.\n\
         # TYPE process_start_time_seconds gauge\n\
         process_start_time_seconds 1.5\n\
         # HELP sglang:prompt_tokens_total mock SGLang metric.\n\
         # TYPE sglang:prompt_tokens_total counter\n\
         sglang:prompt_tokens_total{model_name=\"m\"} 0.0\n"
    ));
    assert!(text.contains(
        "# HELP sglang:time_to_first_token_seconds Histogram of time to first token in seconds.\n\
         # TYPE sglang:time_to_first_token_seconds histogram\n\
         sglang:time_to_first_token_seconds_bucket{le=\"0.001\",model_name=\"m\"} 0.0\n\
         sglang:time_to_first_token_seconds_bucket{le=\"10\",model_name=\"m\"} 1.0\n\
         sglang:time_to_first_token_seconds_bucket{le=\"+Inf\",model_name=\"m\"} 1.0\n\
         sglang:time_to_first_token_seconds_count{model_name=\"m\"} 1.0\n\
         sglang:time_to_first_token_seconds_sum{model_name=\"m\"} 0.5\n"
    ));
}

#[test]
fn vllm_exposition_is_exact() {
    let st = state_with(BackendKind::Vllm, "m");
    let text = render_metrics(&Real, 0.0, &st);
    assert!(text.contains(
        "# HELP vllm:num_requests_running mock vLLM metric.\n\
         # TYPE vllm:num_requests_running gauge\n\
         vllm:num_requests_running{engine=\"0\",model_name=\"m\"} 0.0\n"
    ));
    assert!(text.contains(
        "vllm:time_to_first_token_seconds_bucket{engine=\"0\",le=\"2560\",model_name=\"m\"} 0.0\n\
         vllm:time_to_first_token_seconds_bucket{engine=\"0\",le=\"+Inf\",model_name=\"m\"} 0.0\n\
         vllm:time_to_first_token_seconds_count{engine=\"0\",model_name=\"m\"} 0.0\n\
         vllm:time_to_first_token_seconds_sum{engine=\"0\",model_name=\"m\"} 0.0\n"
    ));
    assert!(text.ends_with(
        "# HELP vllm:cache_config_info Information of the LLMEngine CacheConfig\n\
         # TYPE vllm:cache_config_info gauge\n\
         vllm:cache_config_info{block_size=\"16\",cache_dtype=\"auto\",\
         enable_prefix_caching=\"False\",engine=\"0\",gpu_memory_utilization=\"0.9\",\
         model_name=\"m\",num_gpu_blocks=\"1024\"} 1.0\n\
         # HELP vllm:engine_sleep_state Engine sleep state.\n\
         # TYPE vllm:engine_sleep_state gauge\n\
         vllm:engine_sleep_state{engine=\"0\",model_name=\"m\",sleep_state=\"awake\"} 1.0\n"
    ));
}

#[test]
fn mocked_backends_are_detected() {
    for (kind, found) in [
        (BackendKind::Vllm, BackendKind::Vllm),
        (BackendKind::Auto, BackendKind::Vllm),
        (BackendKind::Sgl, BackendKind::Sgl),
    ] {
        let text = render_metrics(&Real, 0.0, &state_with(kind, "m"));
        assert_eq!(AutoCollector::detect(&text), found);
    }
}

#[test]
fn simulated_values_are_read_back() {
    let cfg = config();
    let mut st = state_with(BackendKind::Vllm, "some/model-7B");
    let mut rng = Rng::new(11);
    let (p, o) = simulate_request_with(&Real, 0.0, &mut rng, &mut st, &cfg);
    let text = render_metrics(&Real, 0.0, &st);
    let snap = evaluate(&Real, 0.0, vllm::parse_metrics(&text));
    assert_eq!(snap.prompt_tokens_total, p as f64);
    assert_eq!(snap.generation_tokens_total, o as f64);
    assert_eq!(o, 128);
    assert_eq!(snap.request_success_total, 1.0);
    assert_eq!(snap.ttft.sum, 0.15);
    assert_eq!(snap.inter_token.sum, 0.01);
    assert_eq!(snap.model_name.as_deref(), Some("some/model-7B"));
    assert!(close(snap.prefix_cache_hit_rate(&Real, 0.0), 0.3));
}

// ---- configuration and report ----

#[test]
fn defaults_and_environment() {
    let c = AppConfig::new(&Real);
    assert_eq!(c.url, "http://localhost:8000");
    assert_eq!(c.interval, 1.0);
    assert_eq!(c.http_timeout, 2.0);
    assert_eq!(c.history_len, 512);
    assert_eq!(c.backend, BackendKind::Auto);
    assert!(!c.has_log_source());
    let c = AppConfig::from_env(
        &Real,
        EnvVars {
            url: Some("http://gpu:1//".to_string()),
            backend: Some("SGLang".to_string()),
            log_file: None,
            docker: Some("vllm".to_string()),
        },
    );
    assert_eq!(c.metrics_url(), "http://gpu:1/metrics");
    assert_eq!(c.backend, BackendKind::Sgl);
    assert!(c.has_log_source());
    let vars = EnvVars {
        url: None,
        backend: Some("nope".to_string()),
        log_file: None,
        docker: None,
    };
    assert_eq!(AppConfig::from_env(&Real, vars).backend, BackendKind::Auto);
}

#[test]
fn command_line_options() {
    let c = AppConfig::build_config(
        &Real,
        RunOptions {
            url: "u".to_string(),
            interval: 0.0,
            backend: BackendKind::Vllm,
            log_file: Some("f".to_string()),
            docker: None,
        },
    );
    assert_eq!(c.interval, 0.1);
    assert_eq!(c.http_timeout, 2.0);
    assert_eq!(c.log_file.as_deref(), Some("f"));
    assert_eq!(c.backend, BackendKind::Vllm);
}

#[test]
fn latencies_have_floors() {
    let mut c = config();
    let mut rng = Rng::new(1);
    assert_eq!(traffic_interval(&Real, &c), 3.0);
    assert_eq!(answer_delay(&Real, 0.0, &mut rng, &c), 3.0);
    c.request_latency = -1.0;
    assert_eq!(traffic_interval(&Real, &c), 0.1);
    assert_eq!(answer_delay(&Real, 0.0, &mut rng, &c), 0.0);
}

#[test]
fn latencies_deviate() {
    let mut c = config();
    c.request_latency_std = 0.5;
    let mut rng = Rng::new(1);
    let mut same = Rng::new(1);
    let drawn = answer_delay(&Real, 0.0, &mut rng, &c);
    assert_eq!(drawn, normal(&Real, 0.0, &mut same, 3.0, 0.5).max(0.0));
    assert!(drawn != 3.0);
    // The traffic comes at a fixed pace.
    assert_eq!(traffic_interval(&Real, &c), 3.0);
}

#[test]
fn levels_and_formats() {
    assert_eq!(level(None, true), "warn");
    assert_eq!(level(None, false), "off");
    assert_eq!(level(Some("debug"), true), "debug");
    assert!(tokos::logging::format(None, true).is_json());
    assert!(!tokos::logging::format(None, false).is_json());
    assert!(!tokos::logging::format(Some(LogFormat::Text), true).is_json());
}

#[test]
fn report_is_exact() {
    let mut config = AppConfig::new(&Real);
    config.interval = 5.0;
    assert_eq!(pause(&config), 5.0);
    let first = snap(0.0, 1000.0, 1.0);
    let mut second = snap(2.0, 1200.0, 2.0);
    second.backend.model_name = Some("a \"b\"".to_string());
    second.backend.engine_awake = Some(true);
    second.backend.prefix_cache_hits_total = 1.0;
    second.backend.prefix_cache_queries_total = 4.0;
    let text = dump_json(&Real, 0.0, "http://x", 512, first, second).unwrap();
    let expected = r#"{
  "derived": {
    "e2e": 0.0,
    "gen_tok_s": 100.0,
    "kv_cache": 0.0,
    "prompt_tok_s": 0.0,
    "queue_time": 0.0,
    "req_decode": 0.0,
    "req_gen_tok": 0.0,
    "req_prefill": 0.0,
    "req_prompt_tok": 0.0,
    "running": 2.0,
    "tpot": 0.0,
    "ttft": 0.0,
    "waiting": 0.0
  },
  "error": null,
  "model_name": "a \"b\"",
  "raw_vllm": {
    "generation_tokens_total": 1200.0,
    "kv_cache_usage_perc": 0.0,
    "num_preemptions_total": 0.0,
    "num_requests_running": 2.0,
    "num_requests_waiting": 0.0,
    "prefix_cache_hit_rate": 0.25,
    "prompt_tokens_total": 0.0
  },
  "reachable": true,
  "url": "http://x",
  "vllm_info": {
    "block_size": null,
    "cache_dtype": null,
    "enable_prefix_caching": null,
    "engine_awake": true,
    "gpu_memory_utilization": null,
    "num_gpu_blocks": null,
    "process_start_time": null,
    "request_success_total": 0.0
  }
}"#;
    assert_eq!(text, expected);
}
