//! Mock server for testing without a real deployment.
//!
//! Serves a synthetic Prometheus `/metrics` endpoint whose counters and
//! histograms evolve as simulated requests are served. Also exposes a few
//! OpenAI-style endpoints (`/v1/chat/completions`, `/v1/completions`,
//! `/v1/models`, `/health`) so the mock behaves like a minimal server rather
//! than a bare metrics emitter.
//!
//! What the collectors read back of the `/metrics` body is proved in
//! [`readback`], and in numbers in [`numbers`].

pub mod answer;
pub mod bounds;
pub mod chance;
pub mod config;
pub mod exchange;
pub mod histogram;
pub mod http;
pub mod numbers;
pub mod readback;
pub mod render;
pub mod replies;
pub mod rng;
pub mod served;
pub mod simulate;
pub mod state;
