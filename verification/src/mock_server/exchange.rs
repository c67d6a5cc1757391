//! What the mock server reads of the request that its own traffic writes.

use vstd::prelude::*;

use crate::mock_server::http;
use crate::mock_server::http::Route;
use crate::text;
use crate::text::Class;

verus! {

/// What stands before the first line end is the first line.
pub proof fn lemma_first_line(l: Seq<char>, rest: Seq<char>)
    requires
        forall|i: int| 0 <= i < l.len() ==> #[trigger] l[i] != '\r',
    ensures
        http::first_line(l + seq!['\r', '\n'] + rest) == l,
    decreases l.len(),
{
    let s = l + seq!['\r', '\n'] + rest;
    if l.len() > 0 {
        let t = l.skip(1);
        lemma_first_line(t, rest);
        assert(s[0] == l[0]);
        assert(s.skip(1) =~= t + seq!['\r', '\n'] + rest);
        assert(seq![l[0]] + t =~= l);
    } else {
        assert(s[0] == '\r' && s[1] == '\n');
        assert(l =~= Seq::empty());
    }
}

/// A line, its end, and what follows.
pub proof fn lemma_line(l: Seq<char>, rest: Seq<char>)
    requires
        !l.contains('\n'),
    ensures
        text::lines(l + seq!['\r', '\n'] + rest) == seq![l] + text::lines(rest),
{
    let s = l + seq!['\r', '\n'] + rest;
    let n = l.len() as int + 1;
    assert forall|i: int| 0 <= i < n implies text::belongs(
        Class::Line,
        #[trigger] s.take(n)[i],
    ) by {
        if i < l.len() {
            assert(l.contains(l[i]));
        }
    }
    assert(s[n] == '\n');
    text::lemma_span_is(s, Class::Line, n);
    assert(s.take(n).drop_last() =~= l);
    assert(s.skip(n + 1) =~= rest);
}

/// The second of the words that spaces part.
pub proof fn lemma_two_words(a: Seq<char>, b: Seq<char>, c: Seq<char>)
    requires
        a.len() > 0,
        b.len() > 0,
        text::within(a, Class::Word),
        text::within(b, Class::Word),
    ensures
        http::word_at(text::words(a + seq![' '] + b + seq![' '] + c), 0) == a,
        http::word_at(text::words(a + seq![' '] + b + seq![' '] + c), 1) == b,
{
    let s = a + seq![' '] + b + seq![' '] + c;
    let n = a.len() as int;
    assert(s[0] == a[0]);
    assert(s.take(0) =~= Seq::empty());
    text::lemma_span_is(s, Class::Space, 0);
    assert(s.skip(0) =~= s);
    assert(s.take(n) =~= a);
    assert(s[n] == ' ');
    text::lemma_span_is(s, Class::Word, n);
    let u = s.skip(n);
    assert(u =~= seq![' '] + b + seq![' '] + c);
    assert(u.take(1) =~= seq![' ']);
    assert(u[1] == b[0]);
    text::lemma_span_is(u, Class::Space, 1);
    let v = u.skip(1);
    assert(v =~= b + seq![' '] + c);
    assert(v.take(b.len() as int) =~= b);
    assert(v[b.len() as int] == ' ');
    text::lemma_span_is(v, Class::Word, b.len() as int);
    assert(text::words(s) == seq![a] + text::words(u));
    assert(text::words(u) == seq![b] + text::words(v.skip(b.len() as int)));
}

/// The line that gives the length of a body is read back.
proof fn lemma_length_line(n: nat)
    requires
        n <= usize::MAX,
    ensures
        http::length_in("Content-Length: "@ + text::decimal(n)) == Some(n as int),
        !("Content-Length: "@ + text::decimal(n)).contains('\n'),
{
    reveal_strlit("Content-Length: ");
    reveal_strlit("content-length:");
    let key = "content-length:"@;
    let d = text::decimal(n);
    let line = "Content-Length: "@ + d;
    let l = text::lowered(line);
    text::law_decimal_read_back(n);
    assert(l =~= key + seq![' '] + d) by {
        assert forall|i: int| 0 <= i < d.len() implies l[16 + i] == #[trigger] d[i] by {
            assert(line[16 + i] == d[i]);
            assert(text::is_digit(d[i]));
        }
    }
    assert(l.take(key.len() as int) =~= key);
    let rest = l.skip(key.len() as int);
    assert(rest =~= seq![' '] + d);
    assert(rest.take(1) =~= seq![' ']);
    assert(text::is_digit(d[0]));
    assert(rest[1] == d[0]);
    text::lemma_span_is(rest, Class::Space, 1);
    assert(text::trim_start(rest) =~= d);
    assert(text::is_digit(d.last()));
    assert(text::trim(rest) == d);
    assert(!line.contains('\n')) by {
        assert forall|i: int| 0 <= i < line.len() implies #[trigger] line[i] != '\n' by {
            if i >= 16 {
                assert(text::is_digit(d[i - 16]));
            }
        }
    }
}

/// A line that starts otherwise gives no length.
proof fn lemma_no_length(line: Seq<char>, i: int)
    requires
        0 <= i < 15,
        i < line.len(),
        text::lower(line[i]) != "content-length:"@[i],
    ensures
        http::length_in(line) is None,
{
    reveal_strlit("content-length:");
    let l = text::lowered(line);
    if text::starts_with(l, "content-length:"@) {
        assert(l.take("content-length:"@.len() as int)[i] == l[i]);
    }
}

proof fn lemma_host_line(host: Seq<char>, port: u16)
    requires
        !host.contains('\n'),
    ensures
        http::length_in("Host: "@ + host + ":"@ + text::decimal(port as nat)) is None,
        !("Host: "@ + host + ":"@ + text::decimal(port as nat)).contains('\n'),
{
    reveal_strlit("Host: ");
    reveal_strlit(":");
    reveal_strlit("content-length:");
    let d = text::decimal(port as nat);
    let line = "Host: "@ + host + ":"@ + d;
    text::law_decimal_read_back(port as nat);
    assert(line[0] == 'H');
    lemma_no_length(line, 0);
    assert forall|i: int| 0 <= i < line.len() implies #[trigger] line[i] != '\n' by {
        if 6 <= i < 6 + host.len() {
            assert(line[i] == host[i - 6]);
            assert(host.contains(host[i - 6]));
        } else if i >= 7 + host.len() {
            assert(line[i] == d[i - 7 - host.len()]);
            assert(text::is_digit(d[i - 7 - host.len()]));
        }
    }
}

/// The server reads of a posted request what was written: that it posts to the
/// chat completions, and how long its body is. A host with a line feed in it
/// is left out: it would bring lines of its own.
pub proof fn law_own_request_read(host: Seq<char>, port: u16, body: Seq<char>)
    requires
        !host.contains('\n'),
        vstd::utf8::encode_utf8(body).len() <= usize::MAX,
    ensures
        ({
            let s = http::post_text(host, port, body);
            let ws = text::words(http::first_line(s));
            &&& http::word_at(ws, 0) == "POST"@
            &&& http::word_at(ws, 1) == "/v1/chat/completions"@
            &&& http::content_length_in(text::lines(s)) == vstd::utf8::encode_utf8(body).len()
            &&& http::route_of(http::word_at(ws, 0), http::word_at(ws, 1)) == Route::Completion
        }),
{
    let n = vstd::utf8::encode_utf8(body).len();
    let s = http::post_text(host, port, body);
    let end = seq!['\r', '\n'];
    reveal_strlit("POST /v1/chat/completions HTTP/1.1\r\n");
    reveal_strlit("POST");
    reveal_strlit("/v1/chat/completions");
    reveal_strlit("\r\n");
    reveal_strlit("Content-Type: application/json\r\n");
    reveal_strlit("content-length:");
    let version = seq!['H', 'T', 'T', 'P', '/', '1', '.', '1'];
    let l1 = "POST"@ + seq![' '] + "/v1/chat/completions"@ + seq![' '] + version;
    let l2 = "Host: "@ + host + ":"@ + text::decimal(port as nat);
    let l3 = "Content-Type: application/json\r\n"@.drop_last().drop_last();
    let l4 = "Content-Length: "@ + text::decimal(n);
    let rest = "Connection: close\r\n\r\n"@ + body;
    let r4 = l4 + end + rest;
    let r3 = l3 + end + r4;
    let r2 = l2 + end + r3;
    assert(l1 + end =~= "POST /v1/chat/completions HTTP/1.1\r\n"@);
    assert(l3 + end =~= "Content-Type: application/json\r\n"@);
    assert("\r\n"@ =~= end);
    assert(s =~= l1 + end + r2);
    lemma_first_line(l1, r2);
    lemma_two_words("POST"@, "/v1/chat/completions"@, version);
    lemma_host_line(host, port);
    lemma_length_line(n);
    assert(!l1.contains('\n'));
    assert(!l3.contains('\n'));
    lemma_line(l1, r2);
    lemma_line(l2, r3);
    lemma_line(l3, r4);
    lemma_line(l4, rest);
    lemma_no_length(l1, 0);
    assert(l3[8] == 'T');
    lemma_no_length(l3, 8);
    let a4 = text::lines(r4);
    let a3 = text::lines(r3);
    let a2 = text::lines(r2);
    let a1 = text::lines(s);
    assert(a4[0] == l4);
    assert(http::content_length_in(a4) == n);
    assert(a3[0] == l3 && a3.skip(1) =~= a4);
    assert(http::content_length_in(a3) == n);
    assert(a2[0] == l2 && a2.skip(1) =~= a3);
    assert(http::content_length_in(a2) == n);
    assert(a1[0] == l1 && a1.skip(1) =~= a2);
    reveal_strlit("OPTIONS");
    reveal_strlit("GET");
    assert("OPTIONS"@.len() != "POST"@.len() && "GET"@.len() != "POST"@.len());
}

} // verus!
