//! What the mock server's answers say: by request which one comes, and by key
//! what stands in it.

use vstd::prelude::*;

use crate::json;
use crate::json::Json;
use crate::mock_server::answer;
use crate::mock_server::config::MockServerConfig;
use crate::mock_server::exchange;
use crate::mock_server::histogram::Spelling;
use crate::mock_server::http;
use crate::mock_server::served;
use crate::mock_server::simulate;
use crate::mock_server::simulate::Chance;
use crate::mock_server::state::BackendState;
use crate::report;
use crate::text;

verus! {

/// A request for a completion, of a chat or of a prompt.
pub open spec fn asks_completion(method: Seq<char>, path: Seq<char>) -> bool {
    method == "POST"@ && (path == "/v1/chat/completions"@ || path == "/v1/completions"@)
}

/// A request for what can be read.
pub open spec fn asks_page(method: Seq<char>, path: Seq<char>) -> bool {
    method == "GET"@ && (path == "/metrics"@ || path == "/health"@ || path == "/v1/models"@)
}

pub proof fn lemma_words_differ()
    ensures
        "OPTIONS"@ != "GET"@,
        "OPTIONS"@ != "POST"@,
        "GET"@ != "POST"@,
        "/metrics"@ != "/health"@,
        "/metrics"@ != "/v1/models"@,
        "/health"@ != "/v1/models"@,
{
    reveal_strlit("OPTIONS");
    reveal_strlit("GET");
    reveal_strlit("POST");
    reveal_strlit("/metrics");
    reveal_strlit("/health");
    reveal_strlit("/v1/models");
    assert("OPTIONS"@.len() == 7 && "GET"@.len() == 3 && "POST"@.len() == 4);
    assert("/metrics"@.len() == 8 && "/health"@.len() == 7 && "/v1/models"@.len() == 10);
}

/// A completion and a page are answered with 200, a preflight of any path with
/// 204 and nothing in it, and all else with 404. Only the metrics and the
/// preflight are plain text.
pub proof fn law_status_of_requests(method: Seq<char>, path: Seq<char>)
    ensures
        ({
            let r = http::route_of(method, path);
            &&& http::status_of(r) == 200 <==> asks_completion(method, path) || asks_page(
                method,
                path,
            )
            &&& http::status_of(r) == 204 <==> method == "OPTIONS"@
            &&& http::status_of(r) == 200 || http::status_of(r) == 204 || http::status_of(r) == 404
            &&& http::content_type_of(r) == if method == "OPTIONS"@ {
                "text/plain"@
            } else if method == "GET"@ && path == "/metrics"@ {
                "text/plain; version=0.0.4"@
            } else {
                "application/json"@
            }
        }),
{
    lemma_words_differ();
}

/// Only a request for a completion moves the metrics and the generator.
pub proof fn law_only_completions_count<T: Chance + Spelling>(
    t: T,
    zero: T::F,
    g: u64,
    h: u64,
    before: BackendState<T::F>,
    after: BackendState<T::F>,
    c: MockServerConfig<T::F>,
    method: Seq<char>,
    path: Seq<char>,
    body: Seq<char>,
)
    requires
        answer::is_body(
            t,
            zero,
            g,
            h,
            before,
            after,
            c,
            http::route_of(method, path),
            body,
        ),
        !asks_completion(method, path),
    ensures
        h == g,
        after == before,
{
    lemma_words_differ();
}

/// The numbers of prompt and of output tokens that a server counted.
pub open spec fn tokens_counted<F>(s: BackendState<F>) -> (F, F) {
    match s {
        BackendState::Vllm(v) => (v.prompt_tokens_total, v.generation_tokens_total),
        BackendState::Sgl(v) => (v.prompt_tokens_total, v.generation_tokens_total),
    }
}

/// What an object has under a key is a number in decimal digits.
pub open spec fn counts(j: Json, key: Seq<char>, n: nat) -> bool {
    &&& j matches Json::Object(m) && m.dom().contains(key)
    &&& report::member(j, key) == Json::Number(text::decimal(n))
}

/// The answer to a completion says under "prompt_tokens" by how much the
/// server's count of prompt tokens grew, under "completion_tokens" by how much
/// that of generated tokens grew, and under "total_tokens" their sum; it names
/// the model.
pub proof fn law_usage_is_what_was_counted<T: Chance + Spelling>(
    t: T,
    v: spec_fn(T::F) -> real,
    zero: T::F,
    g: u64,
    h: u64,
    before: BackendState<T::F>,
    after: BackendState<T::F>,
    c: MockServerConfig<T::F>,
    method: Seq<char>,
    path: Seq<char>,
    body: Seq<char>,
) -> (r: (Json, nat, nat))
    requires
        served::computes(t, v, zero),
        answer::is_body(
            t,
            zero,
            g,
            h,
            before,
            after,
            c,
            http::route_of(method, path),
            body,
        ),
        asks_completion(method, path),
    ensures
        body == json::compact_text(r.0),
        r.0 is Object,
        report::member(r.0, "model"@) == Json::Text(c.model@),
        counts(report::member(r.0, "usage"@), "prompt_tokens"@, r.1),
        counts(report::member(r.0, "usage"@), "completion_tokens"@, r.2),
        counts(report::member(r.0, "usage"@), "total_tokens"@, r.1 + r.2),
        v(tokens_counted(after).0) == v(tokens_counted(before).0) + (r.1 as int) as real,
        v(tokens_counted(after).1) == v(tokens_counted(before).1) + (r.2 as int) as real,
{
    lemma_words_differ();
    let n = choose|n: (u32, u32)| #[trigger]
        simulate::simulated(t, zero, g, h, before, after, c, n) && body == json::compact_text(
            http::completion_json(c.model@, n.0 as nat, n.1 as nat),
        );
    match (before, after) {
        (BackendState::Vllm(a), BackendState::Vllm(b)) => {
            let d = served::law_vllm_request_is_counted(t, v, zero, g, h, a, b, c, n);
        },
        (BackendState::Sgl(a), BackendState::Sgl(b)) => {
            let d = served::law_sgl_request_is_counted(t, v, zero, g, h, a, b, c, n);
        },
        _ => {},
    }
    lemma_usage(n.0 as nat, n.1 as nat);
    lemma_completion(c.model@, n.0 as nat, n.1 as nat);
    (http::completion_json(c.model@, n.0 as nat, n.1 as nat), n.0 as nat, n.1 as nat)
}

proof fn lemma_usage(p: nat, o: nat)
    ensures
        counts(http::usage_json(p, o), "prompt_tokens"@, p),
        counts(http::usage_json(p, o), "completion_tokens"@, o),
        counts(http::usage_json(p, o), "total_tokens"@, p + o),
{
    reveal_strlit("prompt_tokens");
    reveal_strlit("completion_tokens");
    reveal_strlit("total_tokens");
    assert("prompt_tokens"@.len() == 13 && "completion_tokens"@.len() == 17);
    assert("total_tokens"@.len() == 12);
}

proof fn lemma_completion(model: Seq<char>, p: nat, o: nat)
    ensures
        report::member(http::completion_json(model, p, o), "model"@) == Json::Text(model),
        report::member(http::completion_json(model, p, o), "usage"@) == http::usage_json(p, o),
{
    reveal_strlit("id");
    reveal_strlit("object");
    reveal_strlit("model");
    reveal_strlit("choices");
    reveal_strlit("usage");
    assert("id"@.len() == 2 && "object"@.len() == 6 && "model"@.len() == 5);
    assert("choices"@.len() == 7 && "usage"@.len() == 5);
    assert("model"@[0] == 'm' && "usage"@[0] == 'u');
}

/// The list of models has one entry, and its "id" is the model.
pub proof fn law_models_list_the_model(model: Seq<char>)
    ensures
        report::member(http::models_json(model), "data"@) matches Json::List(l) && l.len() == 1
            && report::member(l[0], "id"@) == Json::Text(model),
{
    reveal_strlit("id");
    reveal_strlit("object");
    reveal_strlit("owned_by");
    reveal_strlit("data");
    assert("id"@.len() == 2 && "object"@.len() == 6 && "owned_by"@.len() == 8);
    assert("data"@.len() == 4);
}

/// The lines of an answer: the status first, the headers after it, of which one
/// gives the type of the content and one its length, an empty line, and the
/// lines of the body.
pub proof fn law_answers_are_framed(
    status: u16,
    content_type: Seq<char>,
    length: nat,
    body: Seq<char>,
)
    requires
        !content_type.contains('\n'),
    ensures
        ({
            let ls = text::lines(http::head_text(status, content_type, length) + body);
            &&& ls.len() == 9 + text::lines(body).len()
            &&& ls[0] == "HTTP/1.1 "@ + text::decimal(status as nat)
            &&& ls[1] == "Content-Type: "@ + content_type
            &&& ls[2] == "Content-Length: "@ + text::decimal(length)
            &&& ls[8] == Seq::<char>::empty()
            &&& ls.skip(9) == text::lines(body)
        }),
{
    let end = seq!['\r', '\n'];
    reveal_strlit("HTTP/1.1 ");
    reveal_strlit("\r\n");
    reveal_strlit("Content-Type: ");
    reveal_strlit("Content-Length: ");
    reveal_strlit("Access-Control-Allow-Origin: *\r\n");
    reveal_strlit("Access-Control-Allow-Methods: GET, POST, OPTIONS\r\n");
    reveal_strlit("Access-Control-Allow-Headers: Content-Type, Authorization\r\n");
    reveal_strlit("Server: tokos-mock\r\n");
    reveal_strlit("Connection: close\r\n\r\n");
    text::law_decimal_read_back(status as nat);
    text::law_decimal_read_back(length);
    let l1 = "HTTP/1.1 "@ + text::decimal(status as nat);
    let l2 = "Content-Type: "@ + content_type;
    let l3 = "Content-Length: "@ + text::decimal(length);
    let l4 = "Access-Control-Allow-Origin: *\r\n"@.drop_last().drop_last();
    let l5 = "Access-Control-Allow-Methods: GET, POST, OPTIONS\r\n"@.drop_last().drop_last();
    let l6 =
        "Access-Control-Allow-Headers: Content-Type, Authorization\r\n"@.drop_last().drop_last();
    let l7 = "Server: tokos-mock\r\n"@.drop_last().drop_last();
    let l8 = "Connection: close\r\n\r\n"@.take(17);
    let none = Seq::<char>::empty();
    let r9 = none + end + body;
    let r8 = l8 + end + r9;
    let r7 = l7 + end + r8;
    let r6 = l6 + end + r7;
    let r5 = l5 + end + r6;
    let r4 = l4 + end + r5;
    let r3 = l3 + end + r4;
    let r2 = l2 + end + r3;
    let r1 = l1 + end + r2;
    assert("\r\n"@ =~= end);
    assert(l4 + end =~= "Access-Control-Allow-Origin: *\r\n"@);
    assert(l5 + end =~= "Access-Control-Allow-Methods: GET, POST, OPTIONS\r\n"@);
    assert(l6 + end =~= "Access-Control-Allow-Headers: Content-Type, Authorization\r\n"@);
    assert(l7 + end =~= "Server: tokos-mock\r\n"@);
    assert(l8 + end + (none + end) =~= "Connection: close\r\n\r\n"@);
    let s = http::head_text(status, content_type, length) + body;
    assert(s =~= r1);
    assert(!l4.contains('\n') && !l5.contains('\n') && !l6.contains('\n'));
    assert(!l7.contains('\n') && !l8.contains('\n'));
    assert forall|i: int| 0 <= i < l2.len() implies #[trigger] l2[i] != '\n' by {
        if i >= "Content-Type: "@.len() {
            assert(l2[i] == content_type[i - "Content-Type: "@.len()]);
            assert(content_type.contains(l2[i]));
        }
    }
    assert forall|i: int| 0 <= i < l1.len() implies #[trigger] l1[i] != '\n' by {
        if i >= "HTTP/1.1 "@.len() {
            assert(text::is_digit(text::decimal(status as nat)[i - "HTTP/1.1 "@.len()]));
        }
    }
    assert forall|i: int| 0 <= i < l3.len() implies #[trigger] l3[i] != '\n' by {
        if i >= "Content-Length: "@.len() {
            assert(text::is_digit(text::decimal(length)[i - "Content-Length: "@.len()]));
        }
    }
    exchange::lemma_line(none, body);
    exchange::lemma_line(l8, r9);
    exchange::lemma_line(l7, r8);
    exchange::lemma_line(l6, r7);
    exchange::lemma_line(l5, r6);
    exchange::lemma_line(l4, r5);
    exchange::lemma_line(l3, r4);
    exchange::lemma_line(l2, r3);
    exchange::lemma_line(l1, r2);
    assert(text::lines(s).skip(9) =~= text::lines(body));
}

} // verus!
