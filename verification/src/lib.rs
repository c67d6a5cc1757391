//! Monitoring of inference servers: metrics parsing, request-log feed,
//! history, terminal layout and drawing, and a mock server.
//!
//! Numbers with a fraction are values of a type parameter, and what is computed
//! of them goes through the operations of [`state::Arithmetic`]. Where one is
//! read from or written to text, it is that text.

pub mod text;
pub mod collectors;
pub mod config;
pub mod exact;
pub mod exposition;
pub mod json;
pub mod laws;
pub mod logging;
pub mod mock_server;
pub mod report;
pub mod series;
pub mod settings;
pub mod state;
pub mod timing;
pub mod ui;
pub mod wording;
