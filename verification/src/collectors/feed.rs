//! What the request feed tells of the log that it follows.

use vstd::prelude::*;

use crate::collectors::access_log;
use crate::collectors::access_log::{ChildAction, ChildStatus, FileAction, FileEvent};
use crate::state;
use crate::state::MergedLogEntry;
use crate::text;
use crate::text::Class;

verus! {

/// The endpoint of a request depends only on what stands before the first dash
/// of its id: for each kind of request that vLLM knows it is the path of that
/// kind, for any other the prefix itself as a path.
pub proof fn law_endpoint_of_prefix(prefix: Seq<char>, rest: Seq<char>)
    requires
        prefix.len() > 0,
        !prefix.contains('-'),
    ensures
        access_log::endpoint_of_request(prefix + seq!['-'] + rest)
            == access_log::endpoint_of_request(prefix),
        access_log::endpoint_of_request(prefix) == if prefix == "chatcmpl"@ {
            "/v1/chat/completions"@
        } else if prefix == "cmpl"@ {
            "/v1/completions"@
        } else if prefix == "embd"@ {
            "/v1/embeddings"@
        } else if prefix == "pool"@ {
            "/pooling"@
        } else {
            seq!['/'] + prefix
        },
{
    reveal_strlit("/");
    reveal_strlit("score");
    reveal_strlit("/score");
    reveal_strlit("rerank");
    reveal_strlit("/rerank");
    reveal_strlit("classify");
    reveal_strlit("/classify");
    assert("/"@ =~= seq!['/']);
    assert("/score"@ =~= seq!['/'] + "score"@);
    assert("/rerank"@ =~= seq!['/'] + "rerank"@);
    assert("/classify"@ =~= seq!['/'] + "classify"@);
    let n = prefix.len() as int;
    let id = prefix + seq!['-'] + rest;
    assert forall|i: int| 0 <= i < n implies text::belongs(
        Class::Prefix,
        #[trigger] prefix.take(n)[i],
    ) by {
        assert(prefix.contains(prefix[i]));
    }
    text::lemma_span_is(prefix, Class::Prefix, n);
    assert(prefix.take(n) =~= prefix);
    assert(id.take(n) =~= prefix);
    text::lemma_span_is(id, Class::Prefix, n);
}

/// The entry of a line that gave a request id, a prompt and a limit of `n`
/// tokens has just these; the size of the prompt is its number of characters.
pub proof fn law_entry_has_what_was_logged<F>(
    e: MergedLogEntry<F>,
    id: Seq<char>,
    prompt: Option<Seq<char>>,
    n: nat,
    t: F,
)
    requires
        access_log::is_entry(e, (Some(id), prompt, Some(text::decimal(n))), t),
        n <= i64::MAX,
        prompt matches Some(p) ==> p.len() <= i64::MAX,
    ensures
        e.t == t,
        e.request_id matches Some(s) && s@ == id,
        e.max_tokens == Some(n as i64),
        match prompt {
            Some(p) => if p.len() > 0 {
                &&& e.prompt matches Some(s) && s@ == p
                &&& e.prompt_chars == Some(p.len() as i64)
            } else {
                e.prompt is None && e.prompt_chars is None
            },
            None => e.prompt is None && e.prompt_chars is None,
        },
{
    text::law_decimal_read_back(n);
    assert(text::is_digit(text::decimal(n)[0]));
    assert(text::integer_of(text::decimal(n)) == Some(n as int));
}

/// Entries come one by one, and no more than `limit` are kept.
pub open spec fn kept_course<E>(kept: Seq<Seq<E>>, es: Seq<E>, limit: nat) -> bool {
    &&& kept.len() == es.len() + 1
    &&& kept[0].len() == 0
    &&& forall|k: int|
        0 <= k < es.len() ==> #[trigger] kept[k + 1] == state::last_of(kept[k].push(es[k]), limit)
}

/// Whatever came, the newest entries are kept, in the order in which they came:
/// all of them until there are too many, from then on as many as asked for.
pub proof fn law_newest_are_kept<E>(kept: Seq<Seq<E>>, es: Seq<E>, limit: nat, k: int)
    requires
        kept_course(kept, es, limit),
        0 <= k <= es.len(),
    ensures
        kept[k].len() == if k <= limit {
            k
        } else {
            limit as int
        },
        forall|j: int|
            0 <= j < kept[k].len() ==> #[trigger] kept[k][j] == es[k - kept[k].len() + j],
    decreases k,
{
    if k > 0 {
        law_newest_are_kept(kept, es, limit, k - 1);
        let before = kept[k - 1];
        let after = kept[k];
        assert(kept[k - 1 + 1] == state::last_of(before.push(es[k - 1]), limit));
        assert forall|j: int| 0 <= j < after.len() implies #[trigger] after[j] == es[k
            - after.len() + j] by {
            let at = before.len() + 1 - after.len() + j;
            assert(after[j] == before.push(es[k - 1])[at]);
            if at < before.len() {
                assert(before[at] == es[k - 1 - before.len() + at]);
            }
        }
    }
}

/// The name of a file is what stands after the last slash; slashes at the end
/// of a path make no difference.
pub proof fn law_name_ends_the_path(dir: Seq<char>, name: Seq<char>)
    requires
        name.len() > 0,
        !name.contains('/'),
        name != "."@,
        name != ".."@,
        dir.len() > 0 ==> dir.last() == '/',
    ensures
        access_log::name_in(dir + name) == Some(name),
        access_log::name_in((dir + name).push('/')) == Some(name),
{
    lemma_tail(dir, name);
    let p = dir + name;
    assert(p.push('/').drop_last() =~= p);
    assert(access_log::path_tail(p.push('/')).len() == 0);
}

proof fn lemma_tail(dir: Seq<char>, name: Seq<char>)
    requires
        !name.contains('/'),
        dir.len() > 0 ==> dir.last() == '/',
    ensures
        access_log::path_tail(dir + name) == name,
    decreases name.len(),
{
    let p = dir + name;
    if name.len() > 0 {
        let front = name.drop_last();
        assert forall|i: int| 0 <= i < front.len() implies #[trigger] front[i] != '/' by {
            assert(name.contains(name[i]));
        }
        lemma_tail(dir, front);
        assert(p.drop_last() =~= dir + front);
        assert(name.contains(name.last()));
        assert(p.last() == name.last());
        assert(front.push(name.last()) =~= name);
    } else {
        assert(p =~= dir);
        assert(name =~= Seq::empty());
    }
}

/// A line is taken in without its end, whether that is one line feed or a
/// carriage return and a line feed.
pub proof fn law_line_ends_are_dropped(line: Seq<char>)
    requires
        line.len() > 0 ==> line.last() != '\n' && line.last() != '\r',
    ensures
        access_log::without_line_end(line) == line,
        access_log::without_line_end(line.push('\n')) == line,
        access_log::without_line_end(line.push('\r').push('\n')) == line,
{
    assert(line.push('\n').drop_last() =~= line);
    assert(line.push('\r').push('\n').drop_last() =~= line.push('\r'));
    assert(line.push('\r').drop_last() =~= line);
    reveal_with_fuel(access_log::without_line_end, 3);
}

/// A file that is followed is read on while it is no shorter than what was read
/// of it; one that became shorter, or failed, is opened again. An opened file is
/// read from its end, and one that could not be opened is tried again.
pub proof fn law_files_are_followed(line: String, msg: String, len: u64, pos: u64)
    ensures
        access_log::file_action(FileEvent::Line(line)) == FileAction::Read,
        len >= pos ==> access_log::file_action(
            FileEvent::Idle { len: Some(len), pos: Some(pos) },
        ) == FileAction::Read,
        len < pos ==> access_log::file_action(
            FileEvent::Idle { len: Some(len), pos: Some(pos) },
        ) == FileAction::Reopen,
        access_log::file_action(FileEvent::Idle { len: None, pos: Some(pos) })
            == FileAction::Reopen,
        access_log::file_action(FileEvent::Idle { len: Some(len), pos: None })
            == FileAction::Reopen,
        access_log::file_action(FileEvent::ReadFailed) == FileAction::Reopen,
        access_log::file_action(FileEvent::Opened) == FileAction::SeekEnd,
        access_log::file_action(FileEvent::OpenFailed(msg)) == FileAction::RetryOpen,
{
}

/// A child is killed just when the feed stops, waited for just while it runs,
/// and collected just once it has ended on its own.
pub proof fn law_children_are_collected(stopping: bool, child: ChildStatus)
    ensures
        access_log::child_action(stopping, child) == ChildAction::Kill <==> stopping,
        access_log::child_action(stopping, child) == ChildAction::Wait <==> !stopping
            && child is Running,
        access_log::child_action(stopping, child) == ChildAction::Reap <==> !stopping
            && child is Exited,
        access_log::child_action(stopping, child) == ChildAction::Stop <==> !stopping
            && child is Gone,
{
}

} // verus!
