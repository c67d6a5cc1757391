//! Data collectors: one per source, each giving what one poll says.
//!
//! - [`vllm`] — what a vLLM `/metrics` body says
//! - [`sglang`] — what an SGLang `/metrics` body says
//! - [`access_log`] — the request feed from a log file or `docker logs`
//!   (vLLM request-log lines from `--enable-log-requests`)
//! - [`common`] — shared exposition-text parser
//!
//! [`make_collector`] builds the right collector from a [`BackendKind`]; with
//! [`BackendKind::Auto`] an [`AutoCollector`] detects the backend from the
//! first body and stays with it.

use vstd::prelude::*;

use crate::collectors::scrape::{Scrape, ScrapeView};
use crate::collectors::sglang::SglCollector;
use crate::collectors::vllm::VllmCollector;
use crate::text;
use crate::text::{has_prefix, same, split_lines, text_of, to_lower, trimmed};

pub mod access_log;
pub mod common;
pub mod feed;
pub mod joined;
pub mod samples;
pub mod scrape;
pub mod sglang;
pub mod vllm;

verus! {

/// Which backend to scrape.
#[derive(Clone, Copy, Debug, PartialEq, Eq, Structural)]
pub enum BackendKind {
    /// Read `/metrics` once and pick vllm or sglang from the metric prefix.
    Auto,
    Vllm,
    Sgl,
}

impl Default for BackendKind {
    fn default() -> (r: BackendKind)
        ensures
            r == BackendKind::Auto,
    {
        BackendKind::Auto
    }
}

/// The kind that a name stands for, whatever its case.
pub open spec fn kind_named(s: Seq<char>) -> Option<BackendKind> {
    let name = text::lowered(s);
    if name == "auto"@ {
        Some(BackendKind::Auto)
    } else if name == "vllm"@ {
        Some(BackendKind::Vllm)
    } else if name == "sgl"@ || name == "sglang"@ {
        Some(BackendKind::Sgl)
    } else {
        None
    }
}

pub open spec fn kind_name(k: BackendKind) -> Seq<char> {
    match k {
        BackendKind::Auto => "auto"@,
        BackendKind::Vllm => "vllm"@,
        BackendKind::Sgl => "sglang"@,
    }
}

impl BackendKind {
    /// Parse a case-insensitive backend name. Accepts `sgl` and `sglang`.
    pub fn parse(s: &str) -> (r: Option<BackendKind>)
        ensures
            r == kind_named(s@),
    {
        let name = to_lower(s);
        if same(name.as_str(), "auto") {
            Some(BackendKind::Auto)
        } else if same(name.as_str(), "vllm") {
            Some(BackendKind::Vllm)
        } else if same(name.as_str(), "sgl") || same(name.as_str(), "sglang") {
            Some(BackendKind::Sgl)
        } else {
            None
        }
    }

    pub fn as_str(&self) -> (r: &'static str)
        ensures
            r@ == kind_name(*self),
    {
        match self {
            BackendKind::Auto => "auto",
            BackendKind::Vllm => "vllm",
            BackendKind::Sgl => "sglang",
        }
    }

    /// The kind that follows when the user cycles through them.
    pub fn next(&self) -> (r: BackendKind)
        ensures
            r == next_kind(*self),
    {
        match self {
            BackendKind::Auto => BackendKind::Vllm,
            BackendKind::Vllm => BackendKind::Sgl,
            BackendKind::Sgl => BackendKind::Auto,
        }
    }
}

/// auto → vllm → sglang → auto
pub open spec fn next_kind(k: BackendKind) -> BackendKind {
    match k {
        BackendKind::Auto => BackendKind::Vllm,
        BackendKind::Vllm => BackendKind::Sgl,
        BackendKind::Sgl => BackendKind::Auto,
    }
}

/// Parsing a kind's name gives that kind, in upper case too.
pub proof fn law_kind_name_parses(k: BackendKind)
    ensures
        kind_named(kind_name(k)) == Some(k),
{
    reveal_strlit("auto");
    reveal_strlit("vllm");
    reveal_strlit("sgl");
    reveal_strlit("sglang");
    assert(text::lowered("auto"@) =~= "auto"@);
    assert(text::lowered("vllm"@) =~= "vllm"@);
    assert(text::lowered("sglang"@) =~= "sglang"@);
    assert("vllm"@[0] != "auto"@[0]);
    assert("sglang"@.len() != "auto"@.len());
}

/// The case of a name makes no difference.
pub proof fn law_names_ignore_case(a: Seq<char>, b: Seq<char>)
    requires
        text::lowered(a) == text::lowered(b),
    ensures
        kind_named(a) == kind_named(b),
{
}

/// The backend that the first line with a `vllm:` or `sglang:` metric names;
/// vllm where there is none.
pub open spec fn detected_in(ls: Seq<Seq<char>>) -> BackendKind
    decreases ls.len(),
{
    if ls.len() == 0 {
        BackendKind::Vllm
    } else {
        let t = text::trim(ls[0]);
        if text::starts_with(t, "vllm:"@) {
            BackendKind::Vllm
        } else if text::starts_with(t, "sglang:"@) {
            BackendKind::Sgl
        } else {
            detected_in(ls.skip(1))
        }
    }
}

pub open spec fn detected(body: Seq<char>) -> BackendKind {
    detected_in(text::lines(body))
}

/// What was fetched, or why nothing was.
pub open spec fn fetched_view(f: Result<String, String>) -> Result<Seq<char>, Seq<char>> {
    match f {
        Ok(t) => Ok(t@),
        Err(e) => Err(e@),
    }
}

/// The kind whose format a body is read in.
pub open spec fn format_of(kind: BackendKind, body: Seq<char>) -> BackendKind {
    if kind == BackendKind::Auto {
        detected(body)
    } else {
        kind
    }
}

/// What a poll says: what the body says in the backend's format, or that the
/// server was not reached and why.
pub open spec fn polled(kind: BackendKind, fetched: Result<Seq<char>, Seq<char>>) -> ScrapeView {
    match fetched {
        Ok(body) => if format_of(kind, body) == BackendKind::Sgl {
            sglang::scrape_of(scrape::samples(body))
        } else {
            vllm::scrape_of(scrape::samples(body))
        },
        Err(e) => scrape::empty_scrape(false, Some(e)),
    }
}

/// The kind after a poll: a body settles which backend it is.
pub open spec fn settled(
    kind: BackendKind,
    fetched: Result<Seq<char>, Seq<char>>,
) -> BackendKind {
    match fetched {
        Ok(body) => format_of(kind, body),
        Err(e) => kind,
    }
}

/// A metrics backend collector: makes of each fetched body what it says.
pub trait Backend {
    spec fn kind(&self) -> BackendKind;

    /// What a poll that fetched this says.
    fn poll(&mut self, fetched: Result<String, String>) -> (r: Scrape)
        ensures
            r@ == polled(old(self).kind(), fetched_view(fetched)),
            final(self).kind() == settled(old(self).kind(), fetched_view(fetched)),
    ;

    /// Which backend is scraped, as far as it is settled.
    fn effective_kind(&self) -> (r: BackendKind)
        ensures
            r == self.kind(),
    ;
}

/// A scrape of a server that was not reached.
pub fn unreachable_scrape(e: String) -> (r: Scrape)
    ensures
        r@ == scrape::empty_scrape(false, Some(e@)),
{
    Scrape::empty(false, Some(e))
}

/// Auto-detecting collector: picks vllm or sglang from the metric-name prefix
/// of the first body, and reads all subsequent bodies in the chosen format. The
/// first body is parsed immediately (no double fetch).
pub struct AutoCollector {
    chosen: BackendKind,
}

impl AutoCollector {
    pub fn new() -> (r: AutoCollector)
        ensures
            r.kind() == BackendKind::Auto,
    {
        AutoCollector { chosen: BackendKind::Auto }
    }

    /// Sniff the backend from the exposition text by looking for the first
    /// `vllm:` or `sglang:` metric name. Falls back to vllm.
    pub fn detect(body: &str) -> (r: BackendKind)
        ensures
            r == detected(body@),
    {
        let ls = split_lines(body);
        let ghost all = text::views(ls@);
        assert(all.skip(0) =~= all);
        for i in 0..ls.len()
            invariant
                all == text::views(ls@),
                all == text::lines(body@),
                detected_in(all) == detected_in(all.skip(i as int)),
        {
            let line = text_of(&trimmed(ls[i].as_str()));
            proof {
                assert(all.skip(i as int)[0] == ls@[i as int]@);
                assert(all.skip(i as int).skip(1) =~= all.skip(i + 1));
            }
            if has_prefix(line.as_str(), "vllm:") {
                return BackendKind::Vllm;
            }
            if has_prefix(line.as_str(), "sglang:") {
                return BackendKind::Sgl;
            }
            // Keep scanning: python/process lines come before backend metrics.
        }
        assert(all.skip(ls@.len() as int) =~= Seq::empty());
        BackendKind::Vllm
    }
}

impl Backend for AutoCollector {
    closed spec fn kind(&self) -> BackendKind {
        self.chosen
    }

    fn poll(&mut self, fetched: Result<String, String>) -> (r: Scrape) {
        match fetched {
            Ok(body) => {
                if self.chosen == BackendKind::Auto {
                    self.chosen = AutoCollector::detect(body.as_str());
                }
                if self.chosen == BackendKind::Sgl {
                    sglang::parse_metrics(body.as_str())
                } else {
                    vllm::parse_metrics(body.as_str())
                }
            },
            Err(e) => unreachable_scrape(e),
        }
    }

    fn effective_kind(&self) -> (r: BackendKind) {
        self.chosen
    }
}

/// A collector of any kind.
pub enum Collector {
    Vllm(VllmCollector),
    Sgl(SglCollector),
    Auto(AutoCollector),
}

impl Backend for Collector {
    open spec fn kind(&self) -> BackendKind {
        match self {
            Collector::Vllm(c) => c.kind(),
            Collector::Sgl(c) => c.kind(),
            Collector::Auto(c) => c.kind(),
        }
    }

    fn poll(&mut self, fetched: Result<String, String>) -> (r: Scrape) {
        match self {
            Collector::Vllm(c) => c.poll(fetched),
            Collector::Sgl(c) => c.poll(fetched),
            Collector::Auto(c) => c.poll(fetched),
        }
    }

    fn effective_kind(&self) -> (r: BackendKind) {
        match self {
            Collector::Vllm(c) => c.effective_kind(),
            Collector::Sgl(c) => c.effective_kind(),
            Collector::Auto(c) => c.effective_kind(),
        }
    }
}

/// Build a backend collector for the given kind.
pub fn make_collector(kind: BackendKind) -> (r: Collector)
    ensures
        r.kind() == kind,
{
    match kind {
        BackendKind::Vllm => Collector::Vllm(VllmCollector {  }),
        BackendKind::Sgl => Collector::Sgl(SglCollector {  }),
        BackendKind::Auto => Collector::Auto(AutoCollector::new()),
    }
}

/// Once a body has settled the backend, no poll changes it.
pub proof fn law_detection_is_final(
    kind: BackendKind,
    body: Seq<char>,
    next: Result<Seq<char>, Seq<char>>,
)
    ensures
        settled(settled(kind, Ok(body)), next) == settled(kind, Ok(body)),
        polled(settled(kind, Ok(body)), Ok(body)) == polled(kind, Ok(body)),
{
    lemma_detected_in(text::lines(body));
}

/// A failed poll leaves the backend as unsettled as it was.
pub proof fn law_failure_keeps_kind(kind: BackendKind, e: Seq<char>)
    ensures
        settled(kind, Err(e)) == kind,
        !polled(kind, Err(e)).reachable,
        polled(kind, Err(e)).error == Some(e),
{
}

proof fn lemma_detected_in(ls: Seq<Seq<char>>)
    ensures
        detected_in(ls) != BackendKind::Auto,
    decreases ls.len(),
{
    if ls.len() > 0 {
        lemma_detected_in(ls.skip(1));
    }
}

} // verus!
