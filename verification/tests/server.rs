//! The mock server's side of HTTP.

use tokos::collectors::BackendKind;
use tokos::mock_server::answer::{answer, takes_time};
use tokos::mock_server::config::MockServerConfig;
use tokos::mock_server::histogram::Spelling;
use tokos::mock_server::http::{
    body_left, chat_request, connect_host, has_headers, header_end, listen_address, parse_request,
    response, MAX_HEADER_BYTES,
};
use tokos::mock_server::rng::Rng;
use tokos::mock_server::simulate::Chance;
use tokos::mock_server::state::{fresh_state, BackendState};
use tokos::state::Arithmetic;
use tokos::text::{decimal_text, parse_integer, parse_natural, signed_text};

/// Arithmetic on double-precision numbers.
struct Real;

impl Arithmetic for Real {
    type F = f64;

    fn parsed(&self, s: &str) -> Option<f64> {
        s.parse().ok()
    }

    fn infinity(&self) -> f64 {
        f64::INFINITY
    }

    fn no_number(&self) -> f64 {
        f64::NAN
    }

    fn whole(&self, n: i64) -> f64 {
        n as f64
    }

    fn plus(&self, a: f64, b: f64) -> f64 {
        a + b
    }

    fn minus(&self, a: f64, b: f64) -> f64 {
        a - b
    }

    fn times(&self, a: f64, b: f64) -> f64 {
        a * b
    }

    fn ratio(&self, a: f64, b: f64) -> f64 {
        a / b
    }

    fn larger(&self, a: f64, b: f64) -> f64 {
        a.max(b)
    }

    fn smaller(&self, a: f64, b: f64) -> f64 {
        a.min(b)
    }

    fn at_most(&self, a: f64, b: f64) -> bool {
        a <= b
    }

    fn under(&self, a: f64, b: f64) -> bool {
        a < b
    }

    fn equal(&self, a: f64, b: f64) -> bool {
        a == b
    }

    fn is_infinite(&self, a: f64) -> bool {
        a.is_infinite()
    }

    fn truncated(&self, a: f64) -> i64 {
        a as i64
    }

    fn exp_minus(&self, a: f64) -> f64 {
        (-a).exp()
    }
}

impl Spelling for Real {
    fn is_nan(&self, a: f64) -> bool {
        a.is_nan()
    }

    fn plain(&self, a: f64) -> String {
        format!("{a}")
    }
}

impl Chance for Real {
    fn ln(&self, a: f64) -> f64 {
        a.ln()
    }

    fn square_root(&self, a: f64) -> f64 {
        a.sqrt()
    }

    fn cosine(&self, a: f64) -> f64 {
        a.cos()
    }

    fn pi(&self) -> f64 {
        std::f64::consts::PI
    }

    fn nearest(&self, a: f64) -> f64 {
        a.round()
    }
}

fn config() -> MockServerConfig<f64> {
    MockServerConfig { request_latency: 0.0, ..MockServerConfig::new(&Real, 0.0) }
}

fn answer_to(method: &str, path: &str) -> (u16, &'static str, String) {
    let mut rng = Rng::new(3);
    let mut st = fresh_state(&Real, 0.0, BackendKind::Vllm, "m\"x".to_string(), 1.0);
    let mut c = config();
    c.model = "m\"x".to_string();
    answer(&Real, 0.0, &mut rng, &mut st, &c, method, path)
}

#[test]
fn answers_to_requests() {
    assert_eq!(answer_to("OPTIONS", "/x"), (204, "text/plain", String::new()));
    assert_eq!(
        answer_to("GET", "/health"),
        (200, "application/json", r#"{"status":"healthy"}"#.to_string())
    );
    assert_eq!(
        answer_to("GET", "/v1/models"),
        (
            200,
            "application/json",
            r#"{"data":[{"id":"m\"x","object":"model","owned_by":"tokos-mock"}],"object":"list"}"#
                .to_string()
        )
    );
    assert_eq!(
        answer_to("GET", "/nope"),
        (
            404,
            "application/json",
            r#"{"error":{"message":"Not Found","type":"not_found_error"}}"#.to_string()
        )
    );
    assert_eq!(answer_to("POST", "/metrics").0, 404);
    let (status, kind, body) = answer_to("GET", "/metrics");
    assert_eq!((status, kind), (200, "text/plain; version=0.0.4"));
    assert!(body.starts_with("# HELP process_start_time_seconds"));
}

#[test]
fn completions_move_the_metrics() {
    for path in ["/v1/chat/completions", "/v1/completions"] {
        assert!(takes_time("POST", path));
        let mut rng = Rng::new(3);
        let mut st = fresh_state(&Real, 0.0, BackendKind::Vllm, "m".to_string(), 1.0);
        let (status, kind, body) =
            answer(&Real, 0.0, &mut rng, &mut st, &config(), "POST", path);
        assert_eq!((status, kind), (200, "application/json"));
        let p = match &st {
            BackendState::Vllm(v) => v.prompt_tokens_total as u32,
            BackendState::Sgl(_) => unreachable!(),
        };
        let expected = format!(
            "{{\"choices\":[{{\"finish_reason\":\"stop\",\"index\":0,\"message\":{{\"content\":\
             \"This is a mock completion from the tokos mock server.\",\"role\":\"assistant\"}}}}],\
             \"id\":\"chatcmpl-mock\",\"model\":\"GLM-5.2\",\"object\":\"chat.completion\",\
             \"usage\":{{\"completion_tokens\":128,\"prompt_tokens\":{},\"total_tokens\":{}}}}}",
            p,
            p + 128
        );
        assert_eq!(body, expected);
    }
    assert!(!takes_time("GET", "/v1/completions"));
}

#[test]
fn responses_are_framed() {
    assert_eq!(
        response(200, "text/plain", "żó"),
        "HTTP/1.1 200\r\nContent-Type: text/plain\r\nContent-Length: 4\r\n\
         Access-Control-Allow-Origin: *\r\nAccess-Control-Allow-Methods: GET, POST, OPTIONS\r\n\
         Access-Control-Allow-Headers: Content-Type, Authorization\r\nServer: tokos-mock\r\n\
         Connection: close\r\n\r\nżó"
    );
}

#[test]
fn requests_are_read() {
    let buf = b"POST /v1/completions HTTP/1.1\r\nHost: x\r\ncontent-LENGTH:  12 \r\n\r\nabcd".to_vec();
    assert!(has_headers(&buf));
    let r = parse_request(&buf);
    assert_eq!(r.method, "POST");
    assert_eq!(r.path, "/v1/completions");
    assert_eq!(r.content_length, 12);
    assert_eq!(body_left(&buf, &r), 8);
    let get = b"GET /health HTTP/1.1\r\nContent-Length: 5\r\n\r\n".to_vec();
    let r = parse_request(&get);
    assert_eq!(r.content_length, 5);
    assert_eq!(body_left(&get, &r), 0);
    let bad = b"POST /x HTTP/1.1\r\nContent-Length: many\r\nContent-Length: 3\r\n\r\nabcdef".to_vec();
    let r = parse_request(&bad);
    assert_eq!(r.content_length, 3);
    assert_eq!(body_left(&bad, &r), 0);
    let r = parse_request(&vec![]);
    assert_eq!((r.method.as_str(), r.path.as_str(), r.content_length), ("", "", 0));
    assert!(!has_headers(&b"GET / HTTP/1.1\r\n".to_vec()));
    assert!(has_headers(&vec![0x61; MAX_HEADER_BYTES + 1]));
    assert_eq!(header_end(&b"a\r\n\r\nb\r\n\r\n".to_vec()), Some(1));
}

#[test]
fn unreadable_bytes_are_replaced() {
    let mut buf = b"GET /".to_vec();
    buf.push(0xff);
    buf.extend_from_slice(b" HTTP/1.1\r\n\r\n");
    assert_eq!(parse_request(&buf).path, "/\u{fffd}");
}

#[test]
fn own_requests_are_read_back() {
    let text = chat_request("127.0.0.1", 8000, "żółw");
    let body = "{\"max_tokens\":16,\"messages\":[{\"content\":\"Hello from tokos generate-traffic\",\
                \"role\":\"user\"}],\"model\":\"żółw\"}";
    assert!(text.ends_with(body));
    assert!(text.contains("\r\nHost: 127.0.0.1:8000\r\n"));
    let buf = text.into_bytes();
    let r = parse_request(&buf);
    assert_eq!(r.method, "POST");
    assert_eq!(r.path, "/v1/chat/completions");
    assert_eq!(r.content_length, body.len());
    assert_eq!(body_left(&buf, &r), 0);
    assert!(takes_time(&r.method, &r.path));
}

#[test]
fn addresses() {
    assert_eq!(listen_address("0.0.0.0", 8000), "0.0.0.0:8000");
    assert_eq!(connect_host("0.0.0.0"), "127.0.0.1");
    assert_eq!(connect_host("10.0.0.1"), "10.0.0.1");
}

#[test]
fn numbers_are_read_back() {
    for n in [0u64, 7, 10, 99, 12345, u64::MAX] {
        assert_eq!(decimal_text(n), n.to_string());
        assert_eq!(parse_natural(&decimal_text(n), u64::MAX), Some(n));
    }
    assert_eq!(parse_natural("+5", 10), Some(5));
    assert_eq!(parse_natural("11", 10), None);
    assert_eq!(parse_natural("", 10), None);
    assert_eq!(parse_natural("-1", 10), None);
    for n in [0i64, -1, 42, i64::MAX, i64::MIN] {
        assert_eq!(signed_text(n), n.to_string());
        assert_eq!(parse_integer(&signed_text(n)), Some(n));
    }
    assert_eq!(parse_integer("9223372036854775808"), None);
    assert_eq!(parse_integer("-9223372036854775809"), None);
    assert_eq!(parse_integer("x"), None);
}
