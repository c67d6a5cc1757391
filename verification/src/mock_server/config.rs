//! What the mock server is started with.

use vstd::prelude::*;

use crate::collectors::BackendKind;
use crate::state::Arithmetic;

verus! {

/// Default model name advertised by the mock server.
pub const DEFAULT_MODEL: &'static str = "GLM-5.2";

/// Configuration for the mock server, mirrored on the guidellm `mock-server`
/// flags so the mental model transfers.
#[derive(Clone, Debug)]
pub struct MockServerConfig<F> {
    /// Which backend to emulate (`vllm` or `sglang`).
    pub backend: BackendKind,
    pub host: String,
    pub port: u16,
    pub model: String,
    /// Base request latency in seconds for non-streaming responses.
    pub request_latency: F,
    pub request_latency_std: F,
    /// Time to first token in milliseconds.
    pub ttft_ms: F,
    pub ttft_ms_std: F,
    /// Inter-token latency in milliseconds.
    pub itl_ms: F,
    pub itl_ms_std: F,
    pub output_tokens: u32,
    pub output_tokens_std: F,
    /// Spawn a background thread that generates requests so metrics move
    /// without external traffic.
    pub generate_traffic: bool,
    /// Disable colored log output.
    pub no_color: bool,
}

impl<F: Copy> MockServerConfig<F> {
    /// The defaults: a vLLM server on the local machine that takes three
    /// seconds, 150 ms to the first token and 10 ms between tokens, without
    /// deviation.
    pub fn new<T: Arithmetic<F = F>>(t: &T, zero: F) -> (r: MockServerConfig<F>)
        ensures
            r.backend == BackendKind::Vllm,
            r.host@ == "127.0.0.1"@,
            r.port == 8000,
            r.model@ == DEFAULT_MODEL@,
            call_ensures(T::whole, (t, 3i64), r.request_latency),
            r.request_latency_std == zero,
            call_ensures(T::whole, (t, 150i64), r.ttft_ms),
            r.ttft_ms_std == zero,
            call_ensures(T::whole, (t, 10i64), r.itl_ms),
            r.itl_ms_std == zero,
            r.output_tokens == 128,
            r.output_tokens_std == zero,
            !r.generate_traffic,
            !r.no_color,
    {
        MockServerConfig {
            backend: BackendKind::Vllm,
            host: "127.0.0.1".to_owned(),
            port: 8000,
            model: DEFAULT_MODEL.to_owned(),
            request_latency: t.whole(3),
            request_latency_std: zero,
            ttft_ms: t.whole(150),
            ttft_ms_std: zero,
            itl_ms: t.whole(10),
            itl_ms_std: zero,
            output_tokens: 128,
            output_tokens_std: zero,
            generate_traffic: false,
            no_color: false,
        }
    }
}

/// Whether the metrics of an SGLang server are mocked; anything but SGLang is
/// mocked as vLLM.
pub fn mocks_sglang(backend: BackendKind) -> (r: bool)
    ensures
        r == (backend == BackendKind::Sgl),
{
    match backend {
        BackendKind::Sgl => true,
        BackendKind::Vllm => false,
        BackendKind::Auto => false,
    }
}

} // verus!
