//! What the request feed takes in.

use vstd::prelude::*;

use crate::collectors::access_log;
use crate::collectors::access_log::{
    docker_args, endpoint_for_request_id, entry_of, AccessLogTailer, ChildAction, ChildStatus,
    FileAction, FileEvent, Groups,
};
use crate::collectors::feed;
use crate::state::MergedLogEntry;
use crate::text;
use crate::ui::panels;
use crate::ui::panels::truncate_prompt;
use crate::wording;

verus! {

/// The entry of a line that gave a request id, a prompt and a limit of `n`
/// tokens has just these, and the time at which it came.
pub proof fn law_entry_keeps_what_was_logged<F>(g: Groups, t: F, n: nat, e: MergedLogEntry<F>)
    requires
        call_ensures(entry_of::<F>, (g, t), e),
        g.id is Some,
        g.tok matches Some(s) && s@ == text::decimal(n),
        n <= i64::MAX,
        g.prompt matches Some(p) ==> p@.len() <= i64::MAX,
    ensures
        e.t == t,
        e.method@ == "POST"@ && e.client@ == "—"@ && e.status is None,
        e.path@ == access_log::endpoint_of_request(g.id.unwrap()@),
        e.request_id matches Some(s) && s@ == g.id.unwrap()@,
        e.max_tokens == Some(n as i64),
        match g.prompt {
            Some(p) => if p@.len() > 0 {
                &&& e.prompt matches Some(s) && s@ == p@
                &&& e.prompt_chars == Some(p@.len() as i64)
            } else {
                e.prompt is None && e.prompt_chars is None
            },
            None => e.prompt is None && e.prompt_chars is None,
        },
{
    feed::law_entry_has_what_was_logged(
        e,
        g.id.unwrap()@,
        access_log::maybe_text(g.prompt),
        n,
        t,
    );
}

/// The endpoint of a request depends only on what stands before the first dash
/// of its id.
pub proof fn law_endpoints_ignore_the_rest(
    a: &str,
    b: &str,
    prefix: Seq<char>,
    r: String,
    s: String,
)
    requires
        prefix.len() > 0,
        !prefix.contains('-'),
        a@ == prefix,
        b@.len() > prefix.len(),
        b@.take(prefix.len() as int) == prefix,
        b@[prefix.len() as int] == '-',
        call_ensures(endpoint_for_request_id, (a,), r),
        call_ensures(endpoint_for_request_id, (b,), s),
    ensures
        r@ == s@,
        prefix == "chatcmpl"@ ==> r@ == "/v1/chat/completions"@,
        prefix == "cmpl"@ ==> r@ == "/v1/completions"@,
        prefix == "embd"@ ==> r@ == "/v1/embeddings"@,
        prefix == "pool"@ ==> r@ == "/pooling"@,
        !(prefix == "chatcmpl"@ || prefix == "cmpl"@ || prefix == "embd"@ || prefix == "pool"@)
            ==> r@ == seq!['/'] + prefix,
{
    reveal_strlit("chatcmpl");
    reveal_strlit("cmpl");
    reveal_strlit("embd");
    reveal_strlit("pool");
    let n = prefix.len() as int;
    let rest = b@.skip(n + 1);
    assert(b@ =~= prefix + seq!['-'] + rest);
    feed::law_endpoint_of_prefix(prefix, rest);
    assert("chatcmpl"@.len() == 8 && "cmpl"@.len() == 4);
    assert("embd"@.len() == 4 && "pool"@.len() == 4);
    assert("cmpl"@[0] == 'c' && "embd"@[0] == 'e' && "pool"@[0] == 'p');
}

/// A recorded request is the newest entry of the feed; the entries before it
/// stay in their order, but for the oldest where there are too many. What names
/// no request changes nothing.
pub proof fn law_newest_entry_is_last<F>(a: &mut AccessLogTailer<F>, g: Option<Groups>, t: F)
    requires
        old(a).limit() > 0,
        old(a).feed().len() <= old(a).limit(),
        call_ensures(AccessLogTailer::<F>::record, (a, g, t), ()),
    ensures
        g is None ==> final(a).feed() == old(a).feed(),
        g is Some ==> ({
            let (x, y) = (old(a).feed(), final(a).feed());
            &&& y.len() == if x.len() < old(a).limit() {
                x.len() + 1
            } else {
                x.len()
            }
            &&& y.last().t == t
            &&& access_log::maybe_text(y.last().request_id) == access_log::maybe_text(
                g.unwrap().id,
            )
            &&& forall|j: int|
                0 <= j < y.len() - 1 ==> #[trigger] y[j] == x[x.len() + 1 - y.len() + j]
        }),
        final(a).failure() == old(a).failure(),
{
}

/// A failure to open the file is the feed's error until it opens; a line does
/// not touch the error, and whatever happens the entries stay unless a line
/// comes.
pub proof fn law_errors_last_until_it_opens<F>(
    a: &mut AccessLogTailer<F>,
    event: FileEvent,
    t: F,
    r: FileAction,
)
    requires
        call_ensures(AccessLogTailer::<F>::follow_file, (a, event, t), r),
    ensures
        event matches FileEvent::OpenFailed(msg) ==> final(a).failure() == Some(msg@) && r
            == FileAction::RetryOpen,
        event is Opened ==> final(a).failure() is None && r == FileAction::SeekEnd,
        !(event is OpenFailed) && !(event is Opened) ==> final(a).failure() == old(a).failure(),
        !(event is Line) ==> final(a).feed() == old(a).feed(),
        event is Line ==> r == FileAction::Read,
        event matches FileEvent::Idle { len, pos } ==> (r == FileAction::Read <==> len is Some
            && pos is Some && len.unwrap() >= pos.unwrap()),
        event is Idle || event is ReadFailed ==> r == FileAction::Read || r == FileAction::Reopen,
        event is ReadFailed ==> r == FileAction::Reopen,
{
}

/// A prompt of one word without control characters is shown as it is where it
/// fits; where it does not, its start is, with an ellipsis in the last place.
/// Nothing is shown of no prompt.
pub proof fn law_prompts_are_truncated(p: Option<&str>, maxlen: usize, r: String)
    requires
        call_ensures(truncate_prompt, (p, maxlen), r),
        maxlen > 0,
        p matches Some(w) ==> wording::is_word(w@) && forall|i: int|
            0 <= i < w@.len() ==> panels::is_shown(#[trigger] w@[i]),
    ensures
        p is None ==> r@.len() == 0,
        p matches Some(w) ==> (w@.len() <= maxlen ==> r@ == w@),
        p matches Some(w) ==> (w@.len() > maxlen ==> r@ == w@.take(maxlen - 1).push('…')),
{
    if let Some(w) = p {
        wording::law_prompts_are_cut(w@, maxlen as nat);
    }
}

/// What the feed's source is called: a container by its name, a file by the last
/// part of its path, and a dash where there is none.
pub proof fn law_sources_are_named<F>(
    a: AccessLogTailer<F>,
    dir: Seq<char>,
    name: Seq<char>,
    r: String,
)
    requires
        call_ensures(AccessLogTailer::<F>::source_label, (&a,), r),
        a.docker_spec() is None && a.file_spec() is Some ==> {
            &&& a.file_spec() == Some(dir + name)
            &&& access_log::is_plain_path(dir + name)
            &&& name.len() > 0 && !name.contains('/') && name != "."@ && name != ".."@
            &&& dir.len() > 0 ==> dir.last() == '/'
        },
    ensures
        a.docker_spec() matches Some(d) ==> r@ == "docker "@ + d,
        a.docker_spec() is None && a.file_spec() is Some ==> r@ == name,
        a.docker_spec() is None && a.file_spec() is None ==> r@ == "—"@,
{
    if a.docker_spec() is None && a.file_spec() is Some {
        feed::law_name_ends_the_path(dir, name);
    }
}

/// A line is taken in as it is without its end.
pub proof fn law_lines_are_taken_in_without_end<F>(
    a: &mut AccessLogTailer<F>,
    b: &mut AccessLogTailer<F>,
    line: &str,
    plain: &str,
    t: F,
)
    requires
        line@ == plain@ || line@ == plain@.push('\n') || line@ == plain@.push('\r').push('\n'),
        plain@.len() > 0 ==> plain@.last() != '\n' && plain@.last() != '\r',
        old(a).feed() == old(b).feed(),
        old(a).limit() == old(b).limit() && old(a).limit() > 0,
        call_ensures(AccessLogTailer::<F>::ingest_line, (a, line, t), ()),
        call_ensures(AccessLogTailer::<F>::ingest, (b, plain, t), ()),
    ensures
        final(a).feed().len() == final(b).feed().len(),
        access_log::request_in(plain@) is None ==> final(a).feed() == old(a).feed()
            && final(b).feed() == old(b).feed(),
        access_log::request_in(plain@) is Some ==> ({
            let (x, y) = (final(a).feed().last(), final(b).feed().last());
            &&& x.t == y.t && x.max_tokens == y.max_tokens && x.prompt_chars == y.prompt_chars
            &&& x.path@ == y.path@
            &&& access_log::maybe_text(x.request_id) == access_log::maybe_text(y.request_id)
            &&& access_log::maybe_text(x.prompt) == access_log::maybe_text(y.prompt)
        }),
{
    feed::law_line_ends_are_dropped(plain@);
}

/// The log of a container is streamed from now on.
pub proof fn law_containers_are_followed_from_now(container: &str, r: Vec<String>)
    requires
        call_ensures(docker_args, (container,), r),
    ensures
        r@.len() == 5,
        r@[0]@ == "logs"@,
        r@[1]@ == "-f"@,
        r@[2]@ == "--tail"@ && r@[3]@ == "0"@,
        r@[4]@ == container@,
{
    let v = text::views(r@);
    assert(v.len() == r@.len());
    assert(v[0] == r@[0]@ && v[1] == r@[1]@ && v[2] == r@[2]@);
    assert(v[3] == r@[3]@ && v[4] == r@[4]@);
}

/// A child that ends badly on its own is the feed's error; while the feed stops,
/// and where the child ends well, the error stays as it is.
pub proof fn law_bad_ends_are_errors<F>(
    a: &mut AccessLogTailer<F>,
    container: &str,
    stopping: bool,
    child: ChildStatus,
    r: ChildAction,
)
    requires
        call_ensures(AccessLogTailer::<F>::follow_child, (a, container, stopping, child), r),
    ensures
        final(a).feed() == old(a).feed(),
        r == ChildAction::Kill <==> stopping,
        r == ChildAction::Wait <==> !stopping && child is Running,
        r == ChildAction::Reap <==> !stopping && child is Exited,
        r == ChildAction::Stop <==> !stopping && child is Gone,
        child matches ChildStatus::Exited { success, status } ==> (!stopping && !success
            ==> final(a).failure() == Some(
            "`docker logs -f "@ + container@ + "`"@ + " exited ("@ + status@ + ")"@,
        )),
        stopping || !(child is Exited) ==> final(a).failure() == old(a).failure(),
        child matches ChildStatus::Exited { success, status } ==> (success ==> final(a).failure()
            == old(a).failure()),
{
}

} // verus!
