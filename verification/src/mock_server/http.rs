//! The HTTP side of the mock server: reading requests, routing, and what is
//! written back.

use vstd::prelude::*;

use crate::json;
use crate::json::{only, Json, Members};
use crate::text;
use crate::text::{
    chars_of, decimal_text, has_prefix, lossy_text, parse_natural, same, split_lines, split_words,
    string_of, text_of, to_lower, trimmed,
};

verus! {

/// How much of a request is read before its headers must have ended.
pub const MAX_HEADER_BYTES: usize = 65536;

/// The blank line that ends the headers starts at `i`.
pub open spec fn ends_header(buf: Seq<u8>, i: int) -> bool {
    &&& 0 <= i && i + 4 <= buf.len()
    &&& buf[i] == 13 && buf[i + 1] == 10 && buf[i + 2] == 13 && buf[i + 3] == 10
}

/// Where the headers end: the first blank line, where there is one.
pub open spec fn is_header_end(buf: Seq<u8>, r: Option<usize>) -> bool {
    match r {
        Some(i) => ends_header(buf, i as int) && forall|j: int|
            0 <= j < i ==> !#[trigger] ends_header(buf, j),
        None => forall|j: int| !#[trigger] ends_header(buf, j),
    }
}

/// Where the headers end.
pub fn header_end(buf: &Vec<u8>) -> (r: Option<usize>)
    ensures
        is_header_end(buf@, r),
{
    if buf.len() < 4 {
        return None;
    }
    for i in 0..buf.len() - 3
        invariant
            buf@.len() >= 4,
            forall|j: int| 0 <= j < i ==> !#[trigger] ends_header(buf@, j),
    {
        if buf[i] == 13 && buf[i + 1] == 10 && buf[i + 2] == 13 && buf[i + 3] == 10 {
            assert(ends_header(buf@, i as int));
            return Some(i);
        }
        assert(!ends_header(buf@, i as int));
    }
    None
}

/// Whether enough of a request has been read: its headers have ended, or it is
/// over the cap.
pub fn has_headers(buf: &Vec<u8>) -> (r: bool)
    ensures
        r == (buf@.len() > MAX_HEADER_BYTES || exists|i: int| #[trigger] ends_header(buf@, i)),
{
    if buf.len() > MAX_HEADER_BYTES {
        return true;
    }
    match header_end(buf) {
        Some(i) => {
            assert(ends_header(buf@, i as int));
            true
        },
        None => false,
    }
}

/// What the mock server reads of a request.
pub struct Request {
    pub method: String,
    pub path: String,
    pub content_length: usize,
}

/// The text up to the first line end.
pub open spec fn first_line(s: Seq<char>) -> Seq<char>
    decreases s.len(),
{
    if s.len() == 0 {
        s
    } else if s.len() >= 2 && s[0] == '\r' && s[1] == '\n' {
        Seq::empty()
    } else {
        seq![s[0]] + first_line(s.skip(1))
    }
}

/// The length that a header line gives, where it gives one.
pub open spec fn length_in(line: Seq<char>) -> Option<int> {
    let l = text::lowered(line);
    if text::starts_with(l, "content-length:"@) {
        match text::natural_of(text::trim(l.skip("content-length:"@.len() as int))) {
            Some(n) => if n <= usize::MAX {
                Some(n)
            } else {
                None
            },
            None => None,
        }
    } else {
        None
    }
}

/// The length that the first line to give one gives, or 0.
pub open spec fn content_length_in(ls: Seq<Seq<char>>) -> int
    decreases ls.len(),
{
    if ls.len() == 0 {
        0
    } else {
        match length_in(ls[0]) {
            Some(n) => n,
            None => content_length_in(ls.skip(1)),
        }
    }
}

pub open spec fn word_at(ws: Seq<Seq<char>>, i: int) -> Seq<char> {
    if i < ws.len() {
        ws[i]
    } else {
        Seq::empty()
    }
}

/// What a request's text says: method and path from its first line, and the
/// length of its body.
pub open spec fn is_request(r: Request, s: Seq<char>) -> bool {
    let ws = text::words(first_line(s));
    &&& r.method@ == word_at(ws, 0)
    &&& r.path@ == word_at(ws, 1)
    &&& r.content_length == content_length_in(text::lines(s))
}

fn request_line(v: &Vec<char>) -> (r: String)
    ensures
        r@ == first_line(v@),
{
    let mut n: usize = 0;
    assert(v@.take(0) + first_line(v@.skip(0)) =~= first_line(v@)) by {
        assert(v@.skip(0) =~= v@);
    }
    while n < v.len() && !(n + 1 < v.len() && v[n] == '\r' && v[n + 1] == '\n')
        invariant
            n <= v@.len(),
            v@.take(n as int) + first_line(v@.skip(n as int)) == first_line(v@),
        decreases v@.len() - n,
    {
        proof {
            let rest = v@.skip(n as int);
            assert(rest[0] == v@[n as int]);
            if rest.len() >= 2 {
                assert(rest[1] == v@[n + 1]);
            }
            assert(rest.skip(1) =~= v@.skip(n + 1));
            assert(first_line(rest) == seq![rest[0]] + first_line(v@.skip(n + 1)));
            assert(v@.take(n as int) + (seq![rest[0]] + first_line(v@.skip(n + 1))) =~= v@.take(
                n + 1,
            ) + first_line(v@.skip(n + 1)));
        }
        n = n + 1;
    }
    proof {
        let rest = v@.skip(n as int);
        assert(first_line(rest) =~= Seq::empty()) by {
            if rest.len() > 0 {
                assert(rest[0] == v@[n as int]);
                assert(rest[1] == v@[n + 1]);
            }
        }
        assert(v@.take(n as int) + Seq::<char>::empty() =~= v@.take(n as int));
    }
    let r = string_of(v, 0, n);
    assert(r@ =~= v@.take(n as int));
    r
}

fn length_of(line: &str) -> (r: Option<usize>)
    ensures
        match r {
            Some(n) => length_in(line@) == Some(n as int),
            None => length_in(line@) is None,
        },
{
    let l = to_lower(line);
    if !has_prefix(l.as_str(), "content-length:") {
        return None;
    }
    let v = chars_of(l.as_str());
    let skip = "content-length:".unicode_len();
    let rest = string_of(&v, skip, v.len());
    assert(rest@ =~= l@.skip("content-length:"@.len() as int));
    let digits = text_of(&trimmed(rest.as_str()));
    match parse_natural(digits.as_str(), usize::MAX as u64) {
        Some(n) => Some(n as usize),
        None => None,
    }
}

/// Reads a request from its text.
pub fn parse_request_text(s: &str) -> (r: Request)
    ensures
        is_request(r, s@),
{
    let v = chars_of(s);
    let line = request_line(&v);
    let ws = split_words(line.as_str());
    let ghost words = text::views(ws@);
    let method = if ws.len() > 0 {
        assert(words[0] == ws@[0]@);
        ws[0].clone()
    } else {
        String::new()
    };
    let path = if ws.len() > 1 {
        assert(words[1] == ws@[1]@);
        ws[1].clone()
    } else {
        String::new()
    };
    let ls = split_lines(s);
    let ghost all = text::views(ls@);
    let mut content_length: usize = 0;
    let mut found = false;
    let mut i: usize = 0;
    assert(all.skip(0) =~= all);
    while i < ls.len() && !found
        invariant
            all == text::views(ls@),
            i <= ls@.len(),
            !found ==> content_length == 0 && content_length_in(all) == content_length_in(
                all.skip(i as int),
            ),
            found ==> content_length_in(all) == content_length,
        decreases ls@.len() - i + if found {
            0int
        } else {
            1int
        },
    {
        proof {
            assert(all.skip(i as int)[0] == ls@[i as int]@);
            assert(all.skip(i as int).skip(1) =~= all.skip(i + 1));
        }
        match length_of(ls[i].as_str()) {
            Some(n) => {
                content_length = n;
                found = true;
            },
            None => {
                i = i + 1;
            },
        }
    }
    if !found {
        assert(all.skip(ls@.len() as int) =~= Seq::empty());
    }
    Request { method, path, content_length }
}

/// Reads a request from the bytes that were read of it.
pub fn parse_request(buf: &Vec<u8>) -> (r: Request)
    ensures
        is_request(r, text::lossy(buf@)),
        vstd::utf8::valid_utf8(buf@) ==> is_request(r, vstd::utf8::decode_utf8(buf@)),
{
    let s = lossy_text(buf);
    parse_request_text(s.as_str())
}

/// How much of a request's body is still to be read.
pub fn body_left(buf: &Vec<u8>, request: &Request) -> (r: usize)
    ensures
        exists|end: Option<usize>| #[trigger]
            is_header_end(buf@, end) && r == match end {
                Some(h) => {
                    let already = buf@.len() - (h + 4);
                    if request.method@ == "POST"@ && request.content_length > already {
                        request.content_length - already
                    } else {
                        0
                    }
                },
                None => 0,
            },
{
    let end = header_end(buf);
    match end {
        Some(h) => {
            assert(is_header_end(buf@, end));
            let already = buf.len() - (h + 4);
            if same(request.method.as_str(), "POST") && request.content_length > already {
                request.content_length - already
            } else {
                0
            }
        },
        None => 0,
    }
}

/// What a request asks for.
#[derive(Clone, Copy, Debug, PartialEq, Eq, Structural)]
pub enum Route {
    Options,
    Metrics,
    Health,
    Models,
    /// A completion, of a chat or of a prompt.
    Completion,
    NotFound,
}

pub open spec fn route_of(method: Seq<char>, path: Seq<char>) -> Route {
    if method == "OPTIONS"@ {
        Route::Options
    } else if method == "GET"@ && path == "/metrics"@ {
        Route::Metrics
    } else if method == "GET"@ && path == "/health"@ {
        Route::Health
    } else if method == "GET"@ && path == "/v1/models"@ {
        Route::Models
    } else if method == "POST"@ && (path == "/v1/chat/completions"@ || path
        == "/v1/completions"@) {
        Route::Completion
    } else {
        Route::NotFound
    }
}

/// What a request with the given method and path asks for.
pub fn route(method: &str, path: &str) -> (r: Route)
    ensures
        r == route_of(method@, path@),
{
    if same(method, "OPTIONS") {
        Route::Options
    } else if same(method, "GET") && same(path, "/metrics") {
        Route::Metrics
    } else if same(method, "GET") && same(path, "/health") {
        Route::Health
    } else if same(method, "GET") && same(path, "/v1/models") {
        Route::Models
    } else if same(method, "POST") && (same(path, "/v1/chat/completions") || same(
        path,
        "/v1/completions",
    )) {
        Route::Completion
    } else {
        Route::NotFound
    }
}

pub open spec fn status_of(r: Route) -> u16 {
    match r {
        Route::Options => 204,
        Route::NotFound => 404,
        _ => 200,
    }
}

pub open spec fn content_type_of(r: Route) -> Seq<char> {
    match r {
        Route::Options => "text/plain"@,
        Route::Metrics => "text/plain; version=0.0.4"@,
        _ => "application/json"@,
    }
}

/// The status and content type of a route's answer.
pub fn answer_head(r: Route) -> (head: (u16, &'static str))
    ensures
        head.0 == status_of(r),
        head.1@ == content_type_of(r),
{
    match r {
        Route::Options => (204, "text/plain"),
        Route::Metrics => (200, "text/plain; version=0.0.4"),
        Route::Health => (200, "application/json"),
        Route::Models => (200, "application/json"),
        Route::Completion => (200, "application/json"),
        Route::NotFound => (404, "application/json"),
    }
}

pub open spec fn health_json() -> Json {
    Json::Object(map!["status"@ => Json::Text("healthy"@)])
}

/// The answer that the server is healthy.
pub fn health_body() -> (r: String)
    ensures
        r@ == json::compact_text(health_json()),
{
    let mut ms = Members::new();
    ms.put_text("status", "healthy");
    json::to_text(&ms.object())
}

pub open spec fn models_json(model: Seq<char>) -> Json {
    let entry = Json::Object(
        map![
            "id"@ => Json::Text(model),
            "object"@ => Json::Text("model"@),
            "owned_by"@ => Json::Text("tokos-mock"@),
        ],
    );
    Json::Object(map!["object"@ => Json::Text("list"@), "data"@ => Json::List(seq![entry])])
}

/// The list of models: the one that is mocked.
pub fn models_body(model: &str) -> (r: String)
    ensures
        r@ == json::compact_text(models_json(model@)),
{
    let mut entry = Members::new();
    entry.put_text("id", model);
    entry.put_text("object", "model");
    entry.put_text("owned_by", "tokos-mock");
    let mut ms = Members::new();
    ms.put_text("object", "list");
    ms.put("data", only(entry.object()));
    json::to_text(&ms.object())
}

pub open spec fn usage_json(prompt_tokens: nat, output_tokens: nat) -> Json {
    Json::Object(
        map![
            "prompt_tokens"@ => Json::Number(text::decimal(prompt_tokens)),
            "completion_tokens"@ => Json::Number(text::decimal(output_tokens)),
            "total_tokens"@ => Json::Number(text::decimal(prompt_tokens + output_tokens)),
        ],
    )
}

pub open spec fn choice_json() -> Json {
    let message = Json::Object(
        map![
            "role"@ => Json::Text("assistant"@),
            "content"@ => Json::Text("This is a mock completion from the tokos mock server."@),
        ],
    );
    Json::Object(
        map![
            "index"@ => Json::Number(text::decimal(0)),
            "message"@ => message,
            "finish_reason"@ => Json::Text("stop"@),
        ],
    )
}

pub open spec fn completion_json(
    model: Seq<char>,
    prompt_tokens: nat,
    output_tokens: nat,
) -> Json {
    Json::Object(
        map![
            "id"@ => Json::Text("chatcmpl-mock"@),
            "object"@ => Json::Text("chat.completion"@),
            "model"@ => Json::Text(model),
            "choices"@ => Json::List(seq![choice_json()]),
            "usage"@ => usage_json(prompt_tokens, output_tokens),
        ],
    )
}

/// A completion of the given numbers of tokens.
pub fn completion_body(model: &str, prompt_tokens: u32, output_tokens: u32) -> (r: String)
    ensures
        r@ == json::compact_text(
            completion_json(model@, prompt_tokens as nat, output_tokens as nat),
        ),
{
    let mut message = Members::new();
    message.put_text("role", "assistant");
    message.put_text("content", "This is a mock completion from the tokos mock server.");
    let mut choice = Members::new();
    choice.put_number("index", 0);
    choice.put("message", message.object());
    choice.put_text("finish_reason", "stop");
    let mut usage = Members::new();
    usage.put_number("prompt_tokens", prompt_tokens as u64);
    usage.put_number("completion_tokens", output_tokens as u64);
    usage.put_number("total_tokens", prompt_tokens as u64 + output_tokens as u64);
    let mut ms = Members::new();
    ms.put_text("id", "chatcmpl-mock");
    ms.put_text("object", "chat.completion");
    ms.put_text("model", model);
    ms.put("choices", only(choice.object()));
    ms.put("usage", usage.object());
    json::to_text(&ms.object())
}

pub open spec fn not_found_json() -> Json {
    let error = Json::Object(
        map![
            "message"@ => Json::Text("Not Found"@),
            "type"@ => Json::Text("not_found_error"@),
        ],
    );
    Json::Object(map!["error"@ => error])
}

/// The answer to what is not there.
pub fn not_found_body() -> (r: String)
    ensures
        r@ == json::compact_text(not_found_json()),
{
    let mut error = Members::new();
    error.put_text("message", "Not Found");
    error.put_text("type", "not_found_error");
    let mut ms = Members::new();
    ms.put("error", error.object());
    json::to_text(&ms.object())
}

/// The head of an answer: status line and headers, and the blank line after
/// them.
pub open spec fn head_text(status: u16, content_type: Seq<char>, length: nat) -> Seq<char> {
    "HTTP/1.1 "@ + text::decimal(status as nat) + "\r\n"@ + "Content-Type: "@ + content_type
        + "\r\n"@ + "Content-Length: "@ + text::decimal(length) + "\r\n"@
        + "Access-Control-Allow-Origin: *\r\n"@
        + "Access-Control-Allow-Methods: GET, POST, OPTIONS\r\n"@
        + "Access-Control-Allow-Headers: Content-Type, Authorization\r\n"@
        + "Server: tokos-mock\r\n"@ + "Connection: close\r\n\r\n"@
}

/// A whole answer: its head, which gives the length of the body in bytes, and
/// its body.
pub fn response(status: u16, content_type: &str, body: &str) -> (r: String)
    ensures
        r@ == head_text(status, content_type@, vstd::utf8::encode_utf8(body@).len()) + body@,
{
    let length = body.as_bytes().len();
    let mut r = "HTTP/1.1 ".to_owned();
    r.append(decimal_text(status as u64).as_str());
    r.append("\r\n");
    r.append("Content-Type: ");
    r.append(content_type);
    r.append("\r\n");
    r.append("Content-Length: ");
    r.append(decimal_text(length as u64).as_str());
    r.append("\r\n");
    r.append("Access-Control-Allow-Origin: *\r\n");
    r.append("Access-Control-Allow-Methods: GET, POST, OPTIONS\r\n");
    r.append("Access-Control-Allow-Headers: Content-Type, Authorization\r\n");
    r.append("Server: tokos-mock\r\n");
    r.append("Connection: close\r\n\r\n");
    r.append(body);
    r
}

pub open spec fn chat_json(model: Seq<char>) -> Json {
    let message = Json::Object(
        map![
            "role"@ => Json::Text("user"@),
            "content"@ => Json::Text("Hello from tokos generate-traffic"@),
        ],
    );
    Json::Object(
        map![
            "model"@ => Json::Text(model),
            "messages"@ => Json::List(seq![message]),
            "max_tokens"@ => Json::Number(text::decimal(16)),
        ],
    )
}

/// The body of a request for a chat completion.
pub fn chat_body(model: &str) -> (r: String)
    ensures
        r@ == json::compact_text(chat_json(model@)),
{
    let mut message = Members::new();
    message.put_text("role", "user");
    message.put_text("content", "Hello from tokos generate-traffic");
    let mut ms = Members::new();
    ms.put_text("model", model);
    ms.put("messages", only(message.object()));
    ms.put_number("max_tokens", 16);
    json::to_text(&ms.object())
}

pub open spec fn post_text(host: Seq<char>, port: u16, body: Seq<char>) -> Seq<char> {
    "POST /v1/chat/completions HTTP/1.1\r\n"@ + "Host: "@ + host + ":"@ + text::decimal(
        port as nat,
    ) + "\r\n"@ + "Content-Type: application/json\r\n"@ + "Content-Length: "@ + text::decimal(
        vstd::utf8::encode_utf8(body).len(),
    ) + "\r\n"@ + "Connection: close\r\n\r\n"@ + body
}

/// A request that posts a body to the completions of a server.
pub fn post_request(host: &str, port: u16, body: &str) -> (r: String)
    ensures
        r@ == post_text(host@, port, body@),
{
    let length = body.as_bytes().len();
    let mut r = "POST /v1/chat/completions HTTP/1.1\r\n".to_owned();
    r.append("Host: ");
    r.append(host);
    r.append(":");
    r.append(decimal_text(port as u64).as_str());
    r.append("\r\n");
    r.append("Content-Type: application/json\r\n");
    r.append("Content-Length: ");
    r.append(decimal_text(length as u64).as_str());
    r.append("\r\n");
    r.append("Connection: close\r\n\r\n");
    r.append(body);
    r
}

/// The request that keeps a mock server busy.
pub fn chat_request(host: &str, port: u16, model: &str) -> (r: String)
    ensures
        r@ == post_text(host@, port, json::compact_text(chat_json(model@))),
{
    let body = chat_body(model);
    post_request(host, port, body.as_str())
}

/// The address that a server listens on.
pub fn listen_address(host: &str, port: u16) -> (r: String)
    ensures
        r@ == host@ + ":"@ + text::decimal(port as nat),
{
    host.to_owned().concat(":").concat(decimal_text(port as u64).as_str())
}

/// The host that a server which listens on `host` is reached at from its own
/// machine.
pub fn connect_host(host: &str) -> (r: String)
    ensures
        r@ == if host@ == "0.0.0.0"@ {
            "127.0.0.1"@
        } else {
            host@
        },
{
    if same(host, "0.0.0.0") {
        "127.0.0.1".to_owned()
    } else {
        host.to_owned()
    }
}

} // verus!
