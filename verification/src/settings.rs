//! What the settings come to: from the environment, from the command line, and
//! by default.

use vstd::prelude::*;

use crate::collectors;
use crate::collectors::access_log::{AccessLogTailer, Source};
use crate::collectors::BackendKind;
use crate::config;
use crate::config::{AppConfig, EnvVars, RunOptions};
use crate::exact;
use crate::logging;
use crate::logging::LogFormat;
use crate::mock_server::config::MockServerConfig;
use crate::state::{Arithmetic, MergedLogEntry};
use crate::timing;
use crate::ui::frame::{overlays, Overlays};
use crate::ui::theme::{Pair, Theme};

verus! {

/// Each variable of the environment sets what it is named after, and nothing
/// else. Where none is set, the defaults hold.
pub proof fn law_variables_set_their_own<T: Arithmetic>(
    t: T,
    v: spec_fn(T::F) -> real,
    vars: EnvVars,
    r: AppConfig<T::F>,
    plain: AppConfig<T::F>,
)
    requires
        exact::is_exact(t, v),
        call_ensures(AppConfig::<T::F>::from_env::<T>, (&t, vars), r),
        call_ensures(AppConfig::<T::F>::new::<T>, (&t,), plain),
    ensures
        r.url@ == match vars.url {
            Some(u) => u@,
            None => plain.url@,
        },
        r.log_file == vars.log_file,
        r.docker_container == vars.docker,
        vars.backend is None ==> r.backend == plain.backend,
        vars.backend matches Some(name) ==> r.backend == match collectors::kind_named(name@) {
            Some(k) => k,
            None => plain.backend,
        },
        plain.backend == BackendKind::Auto,
        plain.log_file is None && plain.docker_container is None,
        v(r.interval) == v(plain.interval) == 1real,
        v(r.http_timeout) == v(plain.http_timeout) == 2real,
        r.history_len == plain.history_len,
{
}

/// Each option of the command line sets what it is named after, and nothing
/// else; polls are at least a tenth of a second apart.
pub proof fn law_options_set_their_own<T: Arithmetic>(
    t: T,
    v: spec_fn(T::F) -> real,
    o: RunOptions<T::F>,
    r: AppConfig<T::F>,
    plain: AppConfig<T::F>,
)
    requires
        timing::picks(t, v),
        call_ensures(AppConfig::<T::F>::build_config::<T>, (&t, o), r),
        call_ensures(AppConfig::<T::F>::new::<T>, (&t,), plain),
    ensures
        r.url == o.url,
        r.backend == o.backend,
        r.log_file == o.log_file,
        r.docker_container == o.docker,
        10real * v(o.interval) >= 1real ==> v(r.interval) == v(o.interval),
        10real * v(o.interval) <= 1real ==> 10real * v(r.interval) == 1real,
        v(r.http_timeout) == v(plain.http_timeout),
        r.history_len == plain.history_len,
{
    timing::law_intervals_have_a_floor(t, v, o.interval, r.interval);
}

/// The metrics are at the same address however many slashes the base URL ends
/// in.
pub proof fn law_metrics_address<F>(c: AppConfig<F>, base: Seq<char>, n: nat, r: String)
    requires
        call_ensures(AppConfig::<F>::metrics_url, (&c,), r),
        c.url@ == base + Seq::new(n, |i: int| '/'),
        base.len() > 0 ==> base.last() != '/',
    ensures
        r@ == base + "/metrics"@,
{
    lemma_slashes(base, n);
}

proof fn lemma_slashes(base: Seq<char>, n: nat)
    requires
        base.len() > 0 ==> base.last() != '/',
    ensures
        config::without_slashes(base + Seq::new(n, |i: int| '/')) == base,
    decreases n,
{
    let s = base + Seq::new(n, |i: int| '/');
    if n > 0 {
        let k = (n - 1) as nat;
        lemma_slashes(base, k);
        assert(s.drop_last() =~= base + Seq::new(k, |i: int| '/'));
        assert(s.last() == '/');
    } else {
        assert(s =~= base);
    }
}

/// A mock server is by default a vLLM server on the local machine that takes
/// three seconds for a request, 150 milliseconds to the first token and 10
/// between tokens, and makes 128 tokens, without deviation.
pub proof fn law_mock_defaults<T: Arithmetic>(
    t: T,
    v: spec_fn(T::F) -> real,
    zero: T::F,
    r: MockServerConfig<T::F>,
)
    requires
        exact::is_exact(t, v),
        v(zero) == 0real,
        call_ensures(MockServerConfig::<T::F>::new::<T>, (&t, zero), r),
    ensures
        r.backend == BackendKind::Vllm,
        r.host@ == "127.0.0.1"@ && r.port == 8000,
        v(r.request_latency) == 3real && v(r.request_latency_std) == 0real,
        v(r.ttft_ms) == 150real && v(r.ttft_ms_std) == 0real,
        v(r.itl_ms) == 10real && v(r.itl_ms_std) == 0real,
        r.output_tokens == 128 && v(r.output_tokens_std) == 0real,
        !r.generate_traffic,
{
}

/// A container counts over a file, and there is a source just where one of them
/// is given.
pub proof fn law_containers_count_over_files<F>(
    a: AccessLogTailer<F>,
    file: Option<String>,
    docker: Option<String>,
    maxlen: usize,
    s: Source,
)
    requires
        call_ensures(AccessLogTailer::<F>::new, (file, docker, maxlen), a),
        call_ensures(AccessLogTailer::<F>::source, (&a,), s),
    ensures
        docker matches Some(d) ==> (s matches Source::Docker(c) && c@ == d@),
        docker is None ==> (file matches Some(f) ==> (s matches Source::File(p) && p@ == f@)),
        docker is None && file is None ==> s is Nowhere,
{
}

/// The log that is shown starts with the newest entry, and goes back from there
/// as far as asked for.
pub proof fn law_log_is_newest_first<F: Copy>(
    a: AccessLogTailer<F>,
    n: Option<usize>,
    r: Vec<MergedLogEntry<F>>,
)
    requires
        call_ensures(AccessLogTailer::<F>::merged_log, (&a, n), r),
    ensures
        n is None ==> r@.len() == a.feed().len(),
        n matches Some(n) ==> r@.len() == if n < a.feed().len() {
            n as nat
        } else {
            a.feed().len()
        },
        r@.len() > 0 ==> r@[0] == a.feed().last(),
        forall|i: int, j: int|
            0 <= i < r@.len() && i + j == a.feed().len() - 1 ==> #[trigger] r@[i]
                == #[trigger] a.feed()[j],
{
}

/// A value is red from the critical threshold on, yellow from the warning one
/// on, and green below.
pub proof fn law_thresholds<T: Arithmetic>(
    t: T,
    v: spec_fn(T::F) -> real,
    theme: Theme,
    value: T::F,
    warn: T::F,
    crit: T::F,
    r: Pair,
)
    requires
        exact::is_exact(t, v),
        v(warn) <= v(crit),
        call_ensures(Theme::threshold::<T>, (&theme, &t, value, warn, crit), r),
    ensures
        r == Pair::Red <==> v(value) >= v(crit),
        r == Pair::Yellow <==> v(warn) <= v(value) < v(crit),
        r == Pair::Green <==> v(value) < v(warn),
{
}

/// Each toast is up until its own end has come.
pub proof fn law_toasts_end<T: Arithmetic>(
    t: T,
    v: spec_fn(T::F) -> real,
    now: T::F,
    view_until: T::F,
    backend_until: T::F,
    r: Overlays,
)
    requires
        exact::is_exact(t, v),
        call_ensures(overlays::<T>, (&t, now, view_until, backend_until), r),
    ensures
        r.view_toast <==> v(now) < v(view_until),
        r.backend_toast <==> v(now) < v(backend_until),
{
}

/// What was asked for of the log counts; where nothing was, it is off while the
/// screen is drawn on, and is written as JSON to a file and as text elsewhere.
pub proof fn law_log_does_not_disturb_the_screen(
    level: Option<&'static str>,
    dump: bool,
    l: &'static str,
    format: Option<LogFormat>,
    to_file: bool,
    f: LogFormat,
)
    requires
        call_ensures(logging::level, (level, dump), l),
        call_ensures(logging::format, (format, to_file), f),
    ensures
        level matches Some(s) ==> l@ == s@,
        level is None && !dump ==> l@ == "off"@,
        level is None && dump ==> l@ == "warn"@,
        format matches Some(s) ==> f == s,
        format is None ==> (f == LogFormat::Json <==> to_file),
{
}

} // verus!
