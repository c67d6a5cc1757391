//! What is read back of what was written, and what of what others wrote.

use vstd::prelude::*;

use crate::collectors;
use crate::collectors::common;
use crate::collectors::common::{metrics_text, parse_line, short_error, FetchError, Sample};
use crate::collectors::scrape;
use crate::collectors::scrape::Scrape;
use crate::collectors::sglang;
use crate::collectors::vllm;
use crate::collectors::{make_collector, AutoCollector, Backend, BackendKind, Collector};
use crate::exposition;
use crate::exposition::put_sample;
use crate::json;
use crate::json::Json;
use crate::mock_server::exchange;
use crate::mock_server::http;
use crate::mock_server::http::{
    body_left, chat_body, connect_host, has_headers, header_end, models_body, parse_request_text,
    post_request, Request,
};
use crate::mock_server::replies;
use crate::report;
use crate::text;
use crate::text::Class;
use crate::wording;

verus! {

/// A sample that was written is read back: its name, its labels, and its value.
pub proof fn law_written_samples_are_read(
    out: &mut String,
    name: &str,
    labels: Vec<(&str, &str)>,
    token: &str,
    line: &str,
    r: Option<Sample>,
)
    requires
        exposition::is_name(name@),
        exposition::writable_labels(exposition::slice_labels(labels@)),
        exposition::is_token(token@),
        call_ensures(put_sample, (out, name, &labels, token), ()),
        final(out)@ == old(out)@ + line@.push('\n'),
        call_ensures(parse_line, (line,), r),
    ensures
        common::sample_view(r) == Some(
            common::SampleView {
                name: name@,
                labels: exposition::slice_labels(labels@),
                value: common::value_numeral(token@),
            },
        ),
{
    let ls = exposition::slice_labels(labels@);
    let l = exposition::sample_line(name@, ls, token@);
    exposition::law_sample_line_read_back(name@, ls, token@);
    let n = old(out)@.len() as int;
    let tail = exposition::unlines(seq![l]);
    assert(tail =~= l.push('\n')) by {
        reveal_with_fuel(exposition::unlines, 2);
        assert(seq![l].drop_last() =~= Seq::<Seq<char>>::empty());
    }
    assert((old(out)@ + line@.push('\n')).skip(n) =~= line@.push('\n'));
    assert((old(out)@ + tail).skip(n) =~= tail);
    assert(line@.push('\n').drop_last() =~= line@);
    assert(l.push('\n').drop_last() =~= l);
}

/// A name of a backend is read back, in any case of its letters; the short name
/// of SGLang stands for it too.
pub proof fn law_backend_names_are_read(k: BackendKind, n: &'static str, s: &str, r: Option<
    BackendKind,
>)
    requires
        call_ensures(BackendKind::as_str, (&k,), n),
        text::lowered(s@) == text::lowered(n@) || k == BackendKind::Sgl && text::lowered(s@)
            == "sgl"@,
        call_ensures(BackendKind::parse, (s,), r),
    ensures
        r == Some(k),
{
    collectors::law_kind_name_parses(k);
    reveal_strlit("auto");
    reveal_strlit("vllm");
    reveal_strlit("sgl");
    assert("auto"@.len() == 4 && "vllm"@.len() == 4 && "sgl"@.len() == 3);
}

/// Cycling through the backends goes from automatic detection to vLLM, to
/// SGLang, and back.
pub proof fn law_backends_cycle(
    a: BackendKind,
    b: BackendKind,
    c: BackendKind,
    d: BackendKind,
)
    requires
        call_ensures(BackendKind::next, (&a,), b),
        call_ensures(BackendKind::next, (&b,), c),
        call_ensures(BackendKind::next, (&c,), d),
    ensures
        d == a,
        a == BackendKind::Auto ==> b == BackendKind::Vllm && c == BackendKind::Sgl,
{
}

/// A collector that was made for a backend reads every body as that backend's;
/// one that detects it reads the first body as what it says, and stays with it.
/// A fetch that failed is an unreachable server with that error, and settles
/// nothing.
pub proof fn law_collectors_read_their_backend(
    kind: BackendKind,
    c: &mut Collector,
    fetched: Result<String, String>,
    r: Scrape,
)
    requires
        call_ensures(make_collector, (kind,), *old(c)),
        call_ensures(<Collector as Backend>::poll, (c, fetched), r),
    ensures
        fetched matches Err(e) ==> !r@.reachable && r@.error == Some(e@) && final(c).kind() == kind,
        fetched matches Ok(body) ==> r@.reachable && r@.error is None,
        fetched matches Ok(body) ==> (kind == BackendKind::Vllm ==> r@ == vllm::scrape_of(
            scrape::samples(body@),
        ) && final(c).kind() == BackendKind::Vllm),
        fetched matches Ok(body) ==> (kind == BackendKind::Sgl ==> r@ == sglang::scrape_of(
            scrape::samples(body@),
        ) && final(c).kind() == BackendKind::Sgl),
        fetched matches Ok(body) ==> (kind == BackendKind::Auto ==> final(c).kind()
            == collectors::detected(body@)),
        fetched matches Ok(body) ==> (final(c).kind() == BackendKind::Vllm ==> r@
            == vllm::scrape_of(scrape::samples(body@))),
        fetched matches Ok(body) ==> (final(c).kind() == BackendKind::Sgl ==> r@
            == sglang::scrape_of(scrape::samples(body@))),
{
}

/// The first line that says which backend it is of decides what is detected.
pub proof fn law_first_mark_is_detected(
    body: &str,
    before: Seq<Seq<char>>,
    l: Seq<char>,
    after: Seq<Seq<char>>,
    r: BackendKind,
)
    requires
        call_ensures(AutoCollector::detect, (body,), r),
        text::lines(body@) == before + seq![l] + after,
        forall|i: int| 0 <= i < before.len() ==> !wording::marks(#[trigger] before[i]),
    ensures
        text::starts_with(text::trim(l), "vllm:"@) ==> r == BackendKind::Vllm,
        text::starts_with(text::trim(l), "sglang:"@) ==> r == BackendKind::Sgl,
{
    wording::law_first_mark_decides(before, l, after);
}

/// Where no line says which backend it is of, vLLM is what is detected.
pub proof fn law_unmarked_bodies_are_vllm(body: &str, r: BackendKind)
    requires
        call_ensures(AutoCollector::detect, (body,), r),
        forall|i: int|
            0 <= i < text::lines(body@).len() ==> !wording::marks(#[trigger] text::lines(body@)[i]),
    ensures
        r == BackendKind::Vllm,
{
    wording::law_first_mark_decides(text::lines(body@), Seq::empty(), Seq::empty());
}

/// A body of up to sixteen mebibytes that is valid UTF-8 is read as it is; a
/// larger one is not read at all.
pub proof fn law_bodies_are_capped(bytes: Vec<u8>, r: Result<String, String>)
    requires
        call_ensures(metrics_text, (&bytes,), r),
    ensures
        r is Ok <==> bytes@.len() <= 16 * 1024 * 1024,
        bytes@.len() <= 16 * 1024 * 1024 && vstd::utf8::valid_utf8(bytes@) ==> (r matches Ok(t)
            && t@ == vstd::utf8::decode_utf8(bytes@)),
{
}

/// A short error is the status of an answer, or the message of the transport
/// without its prefix.
pub proof fn law_errors_are_short(e: FetchError, r: String)
    requires
        call_ensures(short_error, (&e,), r),
    ensures
        e matches FetchError::Status(code) ==> r@ == "HTTP "@ + text::decimal(code as nat),
        e matches FetchError::Transport(m) ==> forall|rest: Seq<char>|
            m@ == #[trigger] ("Transport: "@ + rest) ==> r@ == rest,
        e matches FetchError::Transport(m) ==> (!text::starts_with(m@, "Transport: "@) ==> r@
            == m@),
{
    if let FetchError::Transport(m) = e {
        assert forall|rest: Seq<char>| m@ == #[trigger] ("Transport: "@ + rest) implies r@
            == rest by {
            let n = "Transport: "@.len() as int;
            assert(m@.take(n) =~= "Transport: "@);
            assert(m@.skip(n) =~= rest);
        }
    }
}

/// The request line is read by its words: the method first, the path second.
pub proof fn law_request_lines_are_read(
    s: &str,
    method: Seq<char>,
    path: Seq<char>,
    version: Seq<char>,
    rest: Seq<char>,
    r: Request,
)
    requires
        s@ == method + seq![' '] + path + seq![' '] + version + seq!['\r', '\n'] + rest,
        wording::is_word(method) && wording::is_word(path),
        !version.contains('\r'),
        call_ensures(parse_request_text, (s,), r),
    ensures
        r.method@ == method,
        r.path@ == path,
{
    let l = method + seq![' '] + path + seq![' '] + version;
    assert forall|i: int| 0 <= i < l.len() implies #[trigger] l[i] != '\r' by {
        let (m, p) = (method.len() as int, path.len() as int);
        if i < m {
            assert(text::belongs(Class::Word, method[i]));
        } else if m < i < m + 1 + p {
            assert(text::belongs(Class::Word, path[i - m - 1]));
        } else if i > m + 1 + p {
            assert(l[i] == version[i - m - p - 2]);
            assert(version.contains(version[i - m - p - 2]));
        }
    }
    exchange::lemma_first_line(l, rest);
    exchange::lemma_two_words(method, path, version);
}

/// The request that keeps a mock server busy is read as what it is: a completion
/// is posted, and its length is that of its body in bytes.
pub proof fn law_own_requests_are_read(
    host: &str,
    port: u16,
    body: &str,
    out: String,
    s: &str,
    r: Request,
)
    requires
        !host@.contains('\n'),
        vstd::utf8::encode_utf8(body@).len() <= usize::MAX,
        call_ensures(post_request, (host, port, body), out),
        s@ == out@,
        call_ensures(parse_request_text, (s,), r),
    ensures
        r.method@ == "POST"@,
        r.path@ == "/v1/chat/completions"@,
        r.content_length == vstd::utf8::encode_utf8(body@).len(),
{
    exchange::law_own_request_read(host@, port, body@);
}

/// What is left to read of a posted body is what its length says, less what
/// stands after the blank line already; nothing is left of any other request.
pub proof fn law_bodies_are_read_whole(buf: Vec<u8>, q: Request, end: int, r: usize)
    requires
        call_ensures(body_left, (&buf, &q), r),
        http::ends_header(buf@, end),
        forall|j: int| 0 <= j < end ==> !#[trigger] http::ends_header(buf@, j),
    ensures
        q.method@ != "POST"@ ==> r == 0,
        q.method@ == "POST"@ ==> r == if q.content_length > buf@.len() - end - 4 {
            q.content_length - (buf@.len() - end - 4)
        } else {
            0
        },
{
    let e = choose|e: Option<usize>| #[trigger]
        http::is_header_end(buf@, e) && r == match e {
            Some(h) => {
                let already = buf@.len() - (h + 4);
                if q.method@ == "POST"@ && q.content_length > already {
                    q.content_length - already
                } else {
                    0
                }
            },
            None => 0,
        };
    match e {
        Some(h) => {
            if h < end {
                assert(http::ends_header(buf@, h as int));
            } else if end < h {
                assert(http::ends_header(buf@, end));
            }
        },
        None => {
            assert(http::ends_header(buf@, end));
        },
    }
}

/// The request for a completion names the model and asks for at most sixteen
/// tokens.
pub proof fn law_chat_names_the_model(model: &str, r: String) -> (j: Json)
    requires
        call_ensures(chat_body, (model,), r),
    ensures
        r@ == json::compact_text(j),
        report::member(j, "model"@) == Json::Text(model@),
        report::member(j, "max_tokens"@) == Json::Number(text::decimal(16)),
{
    reveal_strlit("model");
    reveal_strlit("messages");
    reveal_strlit("max_tokens");
    assert("model"@.len() == 5 && "messages"@.len() == 8 && "max_tokens"@.len() == 10);
    http::chat_json(model@)
}

/// The list of models has one entry, and its "id" is the model.
pub proof fn law_models_are_listed(model: &str, r: String) -> (j: Json)
    requires
        call_ensures(models_body, (model,), r),
    ensures
        r@ == json::compact_text(j),
        report::member(j, "data"@) matches Json::List(l) && l.len() == 1 && report::member(
            l[0],
            "id"@,
        ) == Json::Text(model@),
{
    replies::law_models_list_the_model(model@);
    http::models_json(model@)
}

/// A server that listens on all addresses is reached at the local one; any other
/// at its own.
pub proof fn law_hosts_are_reached(host: &str, r: String)
    requires
        call_ensures(connect_host, (host,), r),
    ensures
        host@ == "0.0.0.0"@ ==> r@ == "127.0.0.1"@,
        host@ != "0.0.0.0"@ ==> r@ == host@,
{
}

/// A line ends at `i`, and an empty one after it.
pub open spec fn blank_line_at(s: Seq<u8>, i: int) -> bool {
    s.subrange(i, i + 4) == seq![13u8, 10, 13, 10]
}

/// The headers of a request end at its first blank line, whatever comes after
/// it.
pub proof fn law_headers_end_at_the_blank_line(
    head: Seq<u8>,
    rest: Seq<u8>,
    buf: Vec<u8>,
    r: Option<usize>,
)
    requires
        buf@ == head + seq![13u8, 10, 13, 10] + rest,
        forall|i: int| 0 <= i < head.len() ==> !#[trigger] blank_line_at(buf@, i),
        call_ensures(header_end, (&buf,), r),
    ensures
        r == Some(head.len() as usize),
{
    let n = head.len() as int;
    assert(http::ends_header(buf@, n));
    if let Some(i) = r {
        assert(i <= n);
        if i < n {
            assert(http::ends_header(buf@, i as int));
            assert(buf@.subrange(i as int, i + 4) =~= seq![13u8, 10, 13, 10]);
            assert(blank_line_at(buf@, i as int));
        }
    }
}

/// Once the headers of a request were read they stay so, whatever is read after
/// them; and no more than the cap is read in search of their end.
pub proof fn law_headers_stay_read(a: Vec<u8>, b: Vec<u8>, x: bool, y: bool)
    requires
        a@.is_prefix_of(b@),
        call_ensures(has_headers, (&a,), x),
        call_ensures(has_headers, (&b,), y),
    ensures
        x ==> y,
        a@.len() > 65536 ==> x,
        a@.len() < 4 ==> !x,
{
    if x && a@.len() <= 65536 {
        let i = choose|i: int| #[trigger] http::ends_header(a@, i);
        assert forall|j: int| i <= j < i + 4 implies a@[j] == b@[j] by {
            assert(a@ == b@.subrange(0, a@.len() as int));
        }
        assert(http::ends_header(b@, i));
    }
}

} // verus!
