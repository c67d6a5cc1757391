//! Runtime configuration: defaults, app config, and env-variable support.
//!
//! [`AppConfig`] is the single source of truth passed to every collector and
//! the UI.

use vstd::prelude::*;

use crate::collectors;
use crate::collectors::BackendKind;
use crate::state;
use crate::state::{fraction, Arithmetic};
use crate::text::{chars_of, string_of};

verus! {

pub const DEFAULT_URL: &'static str = "http://localhost:8000";

/// How many samples to keep per series. Generous so charts have history to
/// resample from; resampled down to panel width at draw time.
pub const HISTORY_LEN: usize = 512;

#[derive(Clone, Debug)]
pub struct AppConfig<F> {
    pub url: String,
    /// Poll interval in seconds.
    pub interval: F,
    pub history_len: usize,
    /// Network timeout for a single /metrics GET (seconds). Kept short so a
    /// stalled server can't wedge the background poller.
    pub http_timeout: F,
    /// Which inference backend to scrape (`vllm`, `sglang`, or `auto`).
    pub backend: BackendKind,
    /// Activity panel: tail a log file or stream a container's `docker logs`.
    pub log_file: Option<String>,
    pub docker_container: Option<String>,
}

/// What the environment says, variable by variable.
pub struct EnvVars {
    /// `TOKOS_URL`
    pub url: Option<String>,
    /// `TOKOS_BACKEND`
    pub backend: Option<String>,
    /// `TOKOS_LOG_FILE`
    pub log_file: Option<String>,
    /// `TOKOS_DOCKER`
    pub docker: Option<String>,
}

/// The text without slashes at its end.
pub open spec fn without_slashes(s: Seq<char>) -> Seq<char>
    decreases s.len(),
{
    if s.len() > 0 && s.last() == '/' {
        without_slashes(s.drop_last())
    } else {
        s
    }
}

/// The backend that a variable asks for; a name that stands for none counts
/// as not given.
pub open spec fn backend_asked(v: Option<String>) -> BackendKind {
    match v {
        Some(s) => match collectors::kind_named(s@) {
            Some(k) => k,
            None => BackendKind::Auto,
        },
        None => BackendKind::Auto,
    }
}

/// Poll interval and timeout are the defaults: one second and two.
pub open spec fn are_default_times<T: Arithmetic>(t: T, interval: T::F, timeout: T::F) -> bool {
    call_ensures(T::whole, (&t, 1i64), interval) && call_ensures(T::whole, (&t, 2i64), timeout)
}

/// What the command line asks for.
pub struct RunOptions<F> {
    pub url: String,
    pub interval: F,
    pub backend: BackendKind,
    pub log_file: Option<String>,
    pub docker: Option<String>,
}

/// `r` is the value, or a tenth where that is larger.
pub open spec fn is_at_least_a_tenth<T: Arithmetic>(t: T, v: T::F, r: T::F) -> bool {
    exists|least: T::F| #[trigger]
        state::is_fraction(t, 1, 10, least) && call_ensures(T::larger, (&t, v, least), r)
}

/// The value, or a tenth where that is larger.
pub fn at_least_a_tenth<T: Arithmetic>(t: &T, v: T::F) -> (r: T::F)
    ensures
        is_at_least_a_tenth(*t, v, r),
{
    let least = fraction(t, 1, 10);
    t.larger(v, least)
}

impl<F> AppConfig<F> {
    /// The defaults.
    pub fn new<T: Arithmetic<F = F>>(t: &T) -> (r: AppConfig<F>)
        ensures
            r.url@ == DEFAULT_URL@,
            are_default_times(*t, r.interval, r.http_timeout),
            r.history_len == HISTORY_LEN,
            r.backend == BackendKind::Auto,
            r.log_file is None,
            r.docker_container is None,
    {
        AppConfig {
            url: DEFAULT_URL.to_owned(),
            interval: t.whole(1),
            history_len: HISTORY_LEN,
            http_timeout: t.whole(2),
            backend: BackendKind::Auto,
            log_file: None,
            docker_container: None,
        }
    }

    /// The configuration that the command line asks for. Polling more often
    /// than ten times a second is not done.
    pub fn build_config<T: Arithmetic<F = F>>(t: &T, o: RunOptions<F>) -> (r: AppConfig<F>)
        ensures
            r.url == o.url,
            is_at_least_a_tenth(*t, o.interval, r.interval),
            r.history_len == HISTORY_LEN,
            call_ensures(T::whole, (t, 2i64), r.http_timeout),
            r.backend == o.backend,
            r.log_file == o.log_file,
            r.docker_container == o.docker,
    {
        AppConfig {
            url: o.url,
            interval: at_least_a_tenth(t, o.interval),
            history_len: HISTORY_LEN,
            http_timeout: t.whole(2),
            backend: o.backend,
            log_file: o.log_file,
            docker_container: o.docker,
        }
    }

    /// The address of the metrics: slashes at the end of the base URL do not
    /// count.
    pub fn metrics_url(&self) -> (r: String)
        ensures
            r@ == without_slashes(self.url@) + "/metrics"@,
    {
        let v = chars_of(self.url.as_str());
        let mut n = v.len();
        assert(v@.take(n as int) =~= v@);
        while n > 0 && v[n - 1] == '/'
            invariant
                n <= v@.len(),
                without_slashes(v@.take(n as int)) == without_slashes(v@),
            decreases n,
        {
            assert(v@.take(n as int).drop_last() =~= v@.take(n - 1));
            n = n - 1;
        }
        let base = string_of(&v, 0, n);
        assert(base@ =~= v@.take(n as int));
        base.concat("/metrics")
    }

    pub fn has_log_source(&self) -> (r: bool)
        ensures
            r == (self.log_file is Some || self.docker_container is Some),
    {
        self.log_file.is_some() || self.docker_container.is_some()
    }

    /// The defaults, with what the environment says.
    pub fn from_env<T: Arithmetic<F = F>>(t: &T, vars: EnvVars) -> (r: AppConfig<F>)
        ensures
            r.url@ == match vars.url {
                Some(u) => u@,
                None => DEFAULT_URL@,
            },
            are_default_times(*t, r.interval, r.http_timeout),
            r.history_len == HISTORY_LEN,
            r.backend == backend_asked(vars.backend),
            r.log_file == vars.log_file,
            r.docker_container == vars.docker,
    {
        let url = match vars.url {
            Some(u) => u,
            None => DEFAULT_URL.to_owned(),
        };
        let backend = match &vars.backend {
            Some(s) => match BackendKind::parse(s.as_str()) {
                Some(k) => k,
                None => BackendKind::Auto,
            },
            None => BackendKind::Auto,
        };
        AppConfig {
            url,
            interval: t.whole(1),
            history_len: HISTORY_LEN,
            http_timeout: t.whole(2),
            backend,
            log_file: vars.log_file,
            docker_container: vars.docker,
        }
    }
}

/// Slashes at the end of the base URL make no difference.
pub proof fn law_trailing_slashes(base: Seq<char>)
    ensures
        without_slashes(base.push('/')) == without_slashes(base),
{
    assert(base.push('/').drop_last() =~= base);
}

} // verus!
