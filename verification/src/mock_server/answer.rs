//! What the mock server answers.

use vstd::prelude::*;

use crate::json;
use crate::mock_server::config::MockServerConfig;
use crate::mock_server::histogram::Spelling;
use crate::mock_server::http;
use crate::mock_server::http::{
    answer_head, completion_body, health_body, models_body, not_found_body, route, Route,
};
use crate::mock_server::render;
use crate::mock_server::render::render_metrics;
use crate::mock_server::rng::Rng;
use crate::mock_server::simulate;
use crate::mock_server::simulate::{simulate_request_with, Chance};
use crate::mock_server::state::BackendState;

verus! {

/// The body of an answer, and what it does to the metrics and to the generator
/// (from state `g` to state `h`): only a completion moves them.
pub open spec fn is_body<T: Chance + Spelling>(
    t: T,
    zero: T::F,
    g: u64,
    h: u64,
    before: BackendState<T::F>,
    after: BackendState<T::F>,
    c: MockServerConfig<T::F>,
    r: Route,
    body: Seq<char>,
) -> bool {
    match r {
        Route::Completion => exists|n: (u32, u32)| #[trigger]
            simulate::simulated(t, zero, g, h, before, after, c, n) && body == json::compact_text(
                http::completion_json(c.model@, n.0 as nat, n.1 as nat),
            ),
        _ => h == g && after == before && match r {
            Route::Options => body == Seq::<char>::empty(),
            Route::Metrics => exists|x: BackendState<String>| #[trigger]
                BackendState::<T::F>::spelled(t, zero, before, x) && body == render::metrics_text(
                    x,
                ),
            Route::Health => body == json::compact_text(http::health_json()),
            Route::Models => body == json::compact_text(http::models_json(c.model@)),
            _ => body == json::compact_text(http::not_found_json()),
        },
    }
}

fn body_of<T: Chance + Spelling>(
    t: &T,
    zero: T::F,
    g: &mut Rng,
    s: &mut BackendState<T::F>,
    c: &MockServerConfig<T::F>,
    r: Route,
) -> (body: String)
    requires
        old(s).wf(),
    ensures
        final(s).wf(),
        is_body(*t, zero, old(g).at(), final(g).at(), *old(s), *final(s), *c, r, body@),
{
    match r {
        Route::Options => String::new(),
        Route::Metrics => render_metrics(t, zero, s),
        Route::Health => health_body(),
        Route::Models => models_body(c.model.as_str()),
        Route::Completion => {
            let n = simulate_request_with(t, zero, g, s, c);
            completion_body(c.model.as_str(), n.0, n.1)
        },
        Route::NotFound => not_found_body(),
    }
}

/// The answer to a request: its status, the type of its content, and its body.
pub fn answer<T: Chance + Spelling>(
    t: &T,
    zero: T::F,
    g: &mut Rng,
    s: &mut BackendState<T::F>,
    c: &MockServerConfig<T::F>,
    method: &str,
    path: &str,
) -> (r: (u16, &'static str, String))
    requires
        old(s).wf(),
    ensures
        final(s).wf(),
        r.0 == http::status_of(http::route_of(method@, path@)),
        r.1@ == http::content_type_of(http::route_of(method@, path@)),
        is_body(
            *t,
            zero,
            old(g).at(),
            final(g).at(),
            *old(s),
            *final(s),
            *c,
            http::route_of(method@, path@),
            r.2@,
        ),
{
    let asked = route(method, path);
    let (status, content_type) = answer_head(asked);
    let body = body_of(t, zero, g, s, c, asked);
    (status, content_type, body)
}

/// Whether the request is for a completion, which takes its time.
pub fn takes_time(method: &str, path: &str) -> (r: bool)
    ensures
        r == (http::route_of(method@, path@) == Route::Completion),
{
    route(method, path) == Route::Completion
}

} // verus!
