//! The vLLM server's log as a feed of inference requests.
//!
//! vLLM's `/metrics` is aggregate-only and its request prompts are not logged
//! unless the server runs with `--enable-log-requests`. With that flag vLLM
//! emits a request-log line per inference call, e.g.:
//!
//! ```text
//! Received request chatcmpl-abc: prompt: 'Hello', params: SamplingParams(... max_tokens=100 ...)
//! ```
//!
//! So those lines are parsed (request id, max_tokens and, on vLLM >= 0.11.3,
//! the prompt text truncated by `max_log_len`) into a rolling
//! [`MergedLogEntry`] buffer. Uvicorn access lines (the HTTP envelope and
//! status) are ignored — only the actual inference requests are shown.
//!
//! The source is either a file or the output of `docker logs -f`.

use std::collections::VecDeque;

use vstd::prelude::*;

use crate::state;
use crate::state::MergedLogEntry;
use crate::text;
use crate::text::{chars_of, parse_integer, same, span_end, string_of, Class};

verus! {

/// Max prompt length displayed in the feed (truncated with `…`).
/// vLLM itself truncates at `max_log_len` (default 1000); the feed truncates
/// again to keep the terminal column manageable.
pub const MAX_PROMPT_DISPLAY: usize = 30;

/// The endpoint whose request ids start with a prefix.
pub open spec fn endpoint_of_prefix(prefix: Seq<char>) -> Option<Seq<char>> {
    if prefix == "chatcmpl"@ {
        Some("/v1/chat/completions"@)
    } else if prefix == "cmpl"@ {
        Some("/v1/completions"@)
    } else if prefix == "embd"@ {
        Some("/v1/embeddings"@)
    } else if prefix == "pool"@ {
        Some("/pooling"@)
    } else if prefix == "score"@ {
        Some("/score"@)
    } else if prefix == "rerank"@ {
        Some("/rerank"@)
    } else if prefix == "classify"@ {
        Some("/classify"@)
    } else {
        None
    }
}

/// vLLM request ids are "<prefix>-<hex>", and the prefix identifies the endpoint
/// that produced them.
fn endpoint_for_prefix(prefix: &str) -> (r: Option<&'static str>)
    ensures
        match r {
            Some(e) => endpoint_of_prefix(prefix@) == Some(e@),
            None => endpoint_of_prefix(prefix@) is None,
        },
{
    if same(prefix, "chatcmpl") {
        Some("/v1/chat/completions")
    } else if same(prefix, "cmpl") {
        Some("/v1/completions")
    } else if same(prefix, "embd") {
        Some("/v1/embeddings")
    } else if same(prefix, "pool") {
        Some("/pooling")
    } else if same(prefix, "score") {
        Some("/score")
    } else if same(prefix, "rerank") {
        Some("/rerank")
    } else if same(prefix, "classify") {
        Some("/classify")
    } else {
        None
    }
}

/// The endpoint of a request id: that of its prefix, or the prefix itself; a
/// question mark where there is no prefix.
pub open spec fn endpoint_of_request(id: Seq<char>) -> Seq<char> {
    let prefix = id.take(text::span(id, Class::Prefix) as int);
    if prefix.len() == 0 {
        "?"@
    } else {
        match endpoint_of_prefix(prefix) {
            Some(e) => e,
            None => "/"@ + prefix,
        }
    }
}

/// Best-effort map a vLLM request id to the endpoint that produced it.
pub fn endpoint_for_request_id(request_id: &str) -> (r: String)
    ensures
        r@ == endpoint_of_request(request_id@),
{
    let v = chars_of(request_id);
    assert(v@.skip(0) =~= v@);
    let end = span_end(&v, 0, Class::Prefix);
    let prefix = string_of(&v, 0, end);
    assert(prefix@ =~= v@.take(end as int));
    if end == 0 {
        return "?".to_owned();
    }
    match endpoint_for_prefix(prefix.as_str()) {
        Some(e) => e.to_owned(),
        None => "/".to_owned().concat(prefix.as_str()),
    }
}

/// Request-log lines of vLLM >= 0.11.3, which logs the prompt at INFO level:
/// `Received request <id>: prompt: '<text>', params: SamplingParams(... max_tokens=<n>, ...)`.
/// Prompts (especially chat-template'd ones) contain actual newline characters,
/// which `.` matches only with `(?s)`.
pub const NEW_REQUEST_PATTERN: &'static str =
    "(?s)Received request (?P<id>\\S+): prompt: '(?P<prompt>.*?)', params: SamplingParams\\(.*?max_tokens=(?P<tok>\\d+)";

/// Request-log lines of older vLLM, which logs no prompt.
pub const OLD_REQUEST_PATTERN: &'static str =
    "Received request (?P<id>\\S+): params: SamplingParams\\(.*?max_tokens=(?P<tok>\\d+)";

/// A compiled regular expression.
#[verifier::external_type_specification]
#[verifier::external_body]
pub struct ExRegex(regex::Regex);

/// The pattern that a regular expression was compiled from.
pub uninterp spec fn pattern_of(re: regex::Regex) -> Seq<char>;

/// What the groups `id`, `prompt` and `tok` of the first match of a pattern in
/// a line hold, where there is a match.
pub uninterp spec fn matched_groups(pattern: Seq<char>, line: Seq<char>) -> Option<
    (Option<Seq<char>>, Option<Seq<char>>, Option<Seq<char>>),
>;

/// The patterns that request-log lines are searched for.
pub open spec fn is_request_pattern(pattern: Seq<char>) -> bool {
    pattern == NEW_REQUEST_PATTERN@ || pattern == OLD_REQUEST_PATTERN@
}

/// `Regex::new` compiles a pattern; there is no result where the pattern is
/// invalid or too large. The expression keeps the string that it was compiled
/// from. Both request-log patterns are valid: they are made of literals,
/// classes, lazy repetitions and named groups. Which other patterns are valid
/// is not stated.
#[verifier::external_body]
fn compile(pattern: &str) -> (r: Option<regex::Regex>)
    ensures
        is_request_pattern(pattern@) ==> r is Some,
        r matches Some(re) ==> pattern_of(re) == pattern@,
{
    regex::Regex::new(pattern).ok()
}

/// What a request-log line says of the request.
pub struct Groups {
    pub id: Option<String>,
    pub prompt: Option<String>,
    pub tok: Option<String>,
}

pub open spec fn maybe_text(t: Option<String>) -> Option<Seq<char>> {
    match t {
        Some(s) => Some(s@),
        None => None,
    }
}

pub open spec fn groups_view(g: Option<Groups>) -> Option<
    (Option<Seq<char>>, Option<Seq<char>>, Option<Seq<char>>),
> {
    match g {
        Some(g) => Some((maybe_text(g.id), maybe_text(g.prompt), maybe_text(g.tok))),
        None => None,
    }
}

/// A line in which a request is said to have been received.
pub open spec fn mentions_request(line: Seq<char>) -> bool {
    exists|i: int|
        0 <= i && i + "Received request "@.len() <= line.len() && #[trigger] line.subrange(
            i,
            i + "Received request "@.len(),
        ) == "Received request "@
}

/// The groups that both request-log patterns have took part in the match.
pub open spec fn names_request(g: Option<Groups>) -> bool {
    g matches Some(g) ==> g.id is Some && g.tok is Some
}

/// No prompt was found.
pub open spec fn no_prompt(g: Option<Groups>) -> bool {
    g matches Some(g) ==> g.prompt is None
}

/// `Regex::captures` finds the first match in a line; `Captures::name` gives
/// the text of a named group, where the pattern has it and it took part in the
/// match. The result depends on the pattern and the line alone. What a
/// request-log pattern matches starts with the words that the pattern starts
/// with, and its groups `id` and `tok` take part in every match; the older
/// pattern has no group `prompt`.
#[verifier::external_body]
fn captures(re: &regex::Regex, line: &str) -> (r: Option<Groups>)
    ensures
        groups_view(r) == matched_groups(pattern_of(*re), line@),
        is_request_pattern(pattern_of(*re)) && r is Some ==> mentions_request(line@),
        is_request_pattern(pattern_of(*re)) ==> names_request(r),
        pattern_of(*re) == OLD_REQUEST_PATTERN@ ==> no_prompt(r),
{
    let caps = re.captures(line)?;
    Some(Groups {
        id: caps.name("id").map(|m| m.as_str().to_string()),
        prompt: caps.name("prompt").map(|m| m.as_str().to_string()),
        tok: caps.name("tok").map(|m| m.as_str().to_string()),
    })
}

/// What a line says of a request: the new format is searched for first, and
/// the old one where the line has none.
pub open spec fn request_in(line: Seq<char>) -> Option<
    (Option<Seq<char>>, Option<Seq<char>>, Option<Seq<char>>),
> {
    match matched_groups(NEW_REQUEST_PATTERN@, line) {
        Some(g) => Some(g),
        None => matched_groups(OLD_REQUEST_PATTERN@, line),
    }
}

/// A length as it is recorded.
pub open spec fn recorded_len(n: nat) -> i64 {
    if n <= i64::MAX {
        n as i64
    } else {
        i64::MAX
    }
}

/// The feed entry of a request that was observed at `t`.
pub open spec fn is_entry<F>(
    e: MergedLogEntry<F>,
    g: (Option<Seq<char>>, Option<Seq<char>>, Option<Seq<char>>),
    t: F,
) -> bool {
    let prompt = match g.1 {
        Some(p) => if p.len() == 0 {
            None
        } else {
            Some(p)
        },
        None => None,
    };
    &&& e.t == t
    &&& e.client@ == "—"@
    &&& e.method@ == "POST"@
    &&& e.status is None
    &&& maybe_text(e.request_id) == g.0
    &&& e.path@ == endpoint_of_request(
        match g.0 {
            Some(id) => id,
            None => Seq::empty(),
        },
    )
    &&& match g.2 {
        Some(n) => match text::integer_of(n) {
            Some(v) => if i64::MIN <= v <= i64::MAX {
                e.max_tokens == Some(v as i64)
            } else {
                e.max_tokens is None
            },
            None => e.max_tokens is None,
        },
        None => e.max_tokens is None,
    }
    &&& maybe_text(e.prompt) == prompt
    &&& e.prompt_chars == match prompt {
        Some(p) => Some(recorded_len(p.len())),
        None => None,
    }
}

/// The feed entry of a request that was observed at `t`.
pub fn entry_of<F>(g: Groups, t: F) -> (r: MergedLogEntry<F>)
    ensures
        is_entry(r, groups_view(Some(g)).unwrap(), t),
{
    let mut e = MergedLogEntry::new(t);
    e.path = match &g.id {
        Some(id) => endpoint_for_request_id(id.as_str()),
        None => {
            proof {
                reveal_strlit("");
                assert(""@ =~= Seq::<char>::empty());
            }
            endpoint_for_request_id("")
        },
    };
    e.max_tokens = match &g.tok {
        Some(n) => parse_integer(n.as_str()),
        None => None,
    };
    e.request_id = g.id;
    if let Some(p) = g.prompt {
        let n = p.as_str().unicode_len();
        if n > 0 {
            e.prompt_chars = Some(
                if n as u64 <= 0x7fff_ffff_ffff_ffffu64 {
                    n as i64
                } else {
                    i64::MAX
                },
            );
            e.prompt = Some(p);
        }
    }
    e
}

/// The text without line feeds and carriage returns at its end.
pub open spec fn without_line_end(s: Seq<char>) -> Seq<char>
    decreases s.len(),
{
    if s.len() > 0 && (s.last() == '\n' || s.last() == '\r') {
        without_line_end(s.drop_last())
    } else {
        s
    }
}

fn trim_line_end(line: &str) -> (r: String)
    ensures
        r@ == without_line_end(line@),
{
    let v = chars_of(line);
    let mut n = v.len();
    assert(v@.take(n as int) =~= v@);
    while n > 0 && (v[n - 1] == '\n' || v[n - 1] == '\r')
        invariant
            n <= v@.len(),
            without_line_end(v@.take(n as int)) == without_line_end(v@),
        decreases n,
    {
        assert(v@.take(n as int).drop_last() =~= v@.take(n - 1));
        n = n - 1;
    }
    let r = string_of(&v, 0, n);
    assert(r@ =~= v@.take(n as int));
    r
}

/// The part of a path after its last slash.
pub open spec fn path_tail(path: Seq<char>) -> Seq<char>
    decreases path.len(),
{
    if path.len() == 0 || path.last() == '/' {
        Seq::empty()
    } else {
        path_tail(path.drop_last()).push(path.last())
    }
}

/// The name that a path ends in, where slashes are the only separators: slashes
/// at the end and parts that name the directory itself do not count; the parent
/// directory has no name.
pub open spec fn name_in(path: Seq<char>) -> Option<Seq<char>>
    decreases path.len(),
{
    let tail = path_tail(path);
    if path.len() == 0 {
        None
    } else if tail.len() == 0 {
        name_in(path.drop_last())
    } else if tail == "."@ {
        name_in(path.drop_last())
    } else if tail == ".."@ {
        None
    } else {
        Some(tail)
    }
}

/// A path in which slashes are the only separators on every system.
pub open spec fn is_plain_path(path: Seq<char>) -> bool {
    &&& forall|i: int| 0 <= i < path.len() ==> (#[trigger] path[i]) != '\\' && path[i] != ':'
    &&& !(path.len() > 1 && path[0] == '/' && path[1] == '/')
}

/// `Path::file_name` gives the last part of a path, where that is a name:
/// slashes at the end and a part `.` are passed over, and there is none where
/// the path is a root or ends in `..`. What else separates parts, and what
/// stands before the root, depends on the system, so this is stated of paths
/// without backslashes and colons that do not start with two slashes.
#[verifier::external_body]
fn file_name(path: &str) -> (r: Option<String>)
    ensures
        is_plain_path(path@) ==> maybe_text(r) == name_in(path@),
{
    std::path::Path::new(path).file_name().map(|s| s.to_string_lossy().into_owned())
}

/// Where the feed comes from.
pub enum Source {
    Docker(String),
    File(String),
    Nowhere,
}

/// Parses vLLM request-log lines into a buffer.
///
/// Any failure of the source (missing file, no `docker`, container gone) is
/// kept as the error rather than ending the feed.
pub struct AccessLogTailer<F> {
    file: Option<String>,
    docker: Option<String>,
    maxlen: usize,
    entries: VecDeque<MergedLogEntry<F>>,
    error: Option<String>,
    new_re: regex::Regex,
    old_re: regex::Regex,
}

/// The label of a source: its container, or the name of its file.
pub open spec fn label_text(
    docker: Option<Seq<char>>,
    file: bool,
    name: Option<Seq<char>>,
) -> Seq<char> {
    match docker {
        Some(d) => "docker "@ + d,
        None => if file {
            match name {
                Some(n) => n,
                None => Seq::empty(),
            }
        } else {
            "—"@
        },
    }
}

/// The label of a source, given the name of its file.
pub fn label_for(docker: &Option<String>, file: bool, name: Option<String>) -> (r: String)
    ensures
        r@ == label_text(maybe_text(*docker), file, maybe_text(name)),
{
    match docker {
        Some(d) => "docker ".to_owned().concat(d.as_str()),
        None => if file {
            match name {
                Some(n) => n,
                None => String::new(),
            }
        } else {
            "—".to_owned()
        },
    }
}

impl<F> AccessLogTailer<F> {
    /// The expressions are those of the request-log patterns, and no more
    /// entries are kept than asked for.
    pub closed spec fn wf(&self) -> bool {
        &&& pattern_of(self.new_re) == NEW_REQUEST_PATTERN@
        &&& pattern_of(self.old_re) == OLD_REQUEST_PATTERN@
        &&& self.entries@.len() <= self.maxlen
    }

    /// The entries, oldest first.
    pub closed spec fn feed(&self) -> Seq<MergedLogEntry<F>> {
        self.entries@
    }

    pub closed spec fn limit(&self) -> nat {
        self.maxlen as nat
    }

    pub closed spec fn failure(&self) -> Option<Seq<char>> {
        maybe_text(self.error)
    }

    pub closed spec fn file_spec(&self) -> Option<Seq<char>> {
        maybe_text(self.file)
    }

    pub closed spec fn docker_spec(&self) -> Option<Seq<char>> {
        maybe_text(self.docker)
    }

    /// What is followed, and how many entries are kept, are the same.
    pub open spec fn same_source(&self, other: &Self) -> bool {
        &&& self.file_spec() == other.file_spec()
        &&& self.docker_spec() == other.docker_spec()
        &&& self.limit() == other.limit()
    }

    pub fn new(file: Option<String>, docker: Option<String>, maxlen: usize) -> (r: Self)
        ensures
            r.wf(),
            r.feed() == Seq::<MergedLogEntry<F>>::empty(),
            r.failure() is None,
            r.limit() == maxlen,
            r.file_spec() == maybe_text(file),
            r.docker_spec() == maybe_text(docker),
    {
        AccessLogTailer {
            file,
            docker,
            maxlen,
            entries: VecDeque::new(),
            error: None,
            new_re: compile(NEW_REQUEST_PATTERN).unwrap(),
            old_re: compile(OLD_REQUEST_PATTERN).unwrap(),
        }
    }

    /// The container or file that is followed; a container counts over a file.
    pub fn source(&self) -> (r: Source)
        ensures
            match r {
                Source::Docker(d) => self.docker_spec() == Some(d@),
                Source::File(f) => self.docker_spec() is None && self.file_spec() == Some(f@),
                Source::Nowhere => self.docker_spec() is None && self.file_spec() is None,
            },
    {
        match &self.docker {
            Some(d) => Source::Docker(d.clone()),
            None => match &self.file {
                Some(f) => Source::File(f.clone()),
                None => Source::Nowhere,
            },
        }
    }

    /// What the feed's source is called. The name of a file is its last part.
    pub fn source_label(&self) -> (r: String)
        ensures
            exists|name: Option<Seq<char>>|
                r@ == #[trigger] label_text(self.docker_spec(), self.file_spec() is Some, name),
            self.docker_spec() is Some || self.file_spec() is None ==> r@ == label_text(
                self.docker_spec(),
                false,
                None,
            ),
            self.file_spec() matches Some(f) ==> is_plain_path(f) ==> r@ == label_text(
                self.docker_spec(),
                true,
                name_in(f),
            ),
    {
        let name = match &self.file {
            Some(f) => file_name(f.as_str()),
            None => None,
        };
        let ghost n = maybe_text(name);
        let r = label_for(&self.docker, self.file.is_some(), name);
        assert(r@ == label_text(self.docker_spec(), self.file_spec() is Some, n));
        r
    }

    pub fn error(&self) -> (r: Option<String>)
        ensures
            maybe_text(r) == self.failure(),
    {
        match &self.error {
            Some(e) => Some(e.clone()),
            None => None,
        }
    }

    pub fn set_error(&mut self, msg: String)
        requires
            old(self).wf(),
        ensures
            final(self).wf(),
            final(self).same_source(old(self)),
            final(self).feed() == old(self).feed(),
            final(self).failure() == Some(msg@),
    {
        self.error = Some(msg);
    }

    pub fn clear_error(&mut self)
        requires
            old(self).wf(),
        ensures
            final(self).wf(),
            final(self).same_source(old(self)),
            final(self).feed() == old(self).feed(),
            final(self).failure() is None,
    {
        self.error = None;
    }

    /// Adds the entry of a request that was found in a line, if one was; the
    /// oldest entry leaves where there are too many.
    pub fn record(&mut self, found: Option<Groups>, t: F)
        requires
            old(self).wf(),
        ensures
            final(self).wf(),
            final(self).same_source(old(self)),
            final(self).failure() == old(self).failure(),
            match groups_view(found) {
                Some(g) => exists|e: MergedLogEntry<F>| #[trigger]
                    is_entry(e, g, t) && final(self).feed() == state::last_of(
                        old(self).feed().push(e),
                        old(self).limit(),
                    ),
                None => final(self).feed() == old(self).feed(),
            },
    {
        if let Some(g) = found {
            let e = entry_of(g, t);
            let ghost entry = e;
            let ghost before = self.entries@;
            self.entries.push_back(e);
            if self.entries.len() > self.maxlen {
                let _oldest = self.entries.pop_front();
                assert(self.entries@ =~= state::last_of(
                    before.push(entry),
                    self.maxlen as nat,
                ));
            }
            assert(is_entry(entry, groups_view(found).unwrap(), t));
        }
    }

    /// Parse one log line into a feed entry (or ignore it). A line that does
    /// not say that a request was received is ignored; one that does names the
    /// request and its token limit, and in the old format no prompt.
    pub fn ingest(&mut self, line: &str, t: F)
        requires
            old(self).wf(),
        ensures
            final(self).wf(),
            final(self).same_source(old(self)),
            final(self).failure() == old(self).failure(),
            match request_in(line@) {
                Some(g) => exists|e: MergedLogEntry<F>| #[trigger]
                    is_entry(e, g, t) && final(self).feed() == state::last_of(
                        old(self).feed().push(e),
                        old(self).limit(),
                    ),
                None => final(self).feed() == old(self).feed(),
            },
            !mentions_request(line@) ==> final(self).feed() == old(self).feed(),
            request_in(line@) matches Some(g) ==> g.0 is Some && g.2 is Some && (matched_groups(
                NEW_REQUEST_PATTERN@,
                line@,
            ) is None ==> g.1 is None),
    {
        let found = match captures(&self.new_re, line) {
            Some(g) => Some(g),
            None => captures(&self.old_re, line),
        };
        self.record(found, t);
    }
}

/// How many entries are asked for.
pub open spec fn asked(n: Option<usize>, len: nat) -> nat {
    match n {
        Some(n) => if n < len {
            n as nat
        } else {
            len
        },
        None => len,
    }
}

impl<F: Copy> AccessLogTailer<F> {
    /// Return the entries, newest first (at most `n`).
    pub fn merged_log(&self, n: Option<usize>) -> (r: Vec<MergedLogEntry<F>>)
        ensures
            r@ == Seq::new(
                asked(n, self.feed().len()),
                |i: int| self.feed()[self.feed().len() - 1 - i],
            ),
    {
        let len = self.entries.len();
        let count = match n {
            Some(n) => if n < len {
                n
            } else {
                len
            },
            None => len,
        };
        let mut r: Vec<MergedLogEntry<F>> = Vec::new();
        for i in 0..count
            invariant
                count <= len,
                len == self.entries@.len(),
                r@.len() == i,
                forall|j: int|
                    0 <= j < i ==> #[trigger] r@[j] == self.entries@[len - 1 - j],
        {
            let e = self.entries[len - 1 - i].copied();
            r.push(e);
        }
        assert(r@ =~= Seq::new(
            asked(n, self.feed().len()),
            |i: int| self.feed()[self.feed().len() - 1 - i],
        ));
        r
    }
}

/// What happened to the file that is followed.
pub enum FileEvent {
    /// It could not be opened; the reason.
    OpenFailed(String),
    Opened,
    /// A line was read, its end included.
    Line(String),
    /// Nothing more was there; the length of the file and the position in it,
    /// where they are known.
    Idle { len: Option<u64>, pos: Option<u64> },
    ReadFailed,
}

/// What the follower of a file does next.
#[derive(Clone, Copy, Debug, PartialEq, Eq, Structural)]
pub enum FileAction {
    /// Open the file once a second has passed.
    RetryOpen,
    /// Go to the end of the file, like `tail -f`, and read.
    SeekEnd,
    /// Read the next line.
    Read,
    /// Open the file again.
    Reopen,
}

/// The file is another one, or has been truncated, or cannot be told apart.
pub open spec fn was_replaced(len: Option<u64>, pos: Option<u64>) -> bool {
    match (len, pos) {
        (Some(len), Some(pos)) => len < pos,
        _ => true,
    }
}

pub open spec fn file_action(e: FileEvent) -> FileAction {
    match e {
        FileEvent::OpenFailed(msg) => FileAction::RetryOpen,
        FileEvent::Opened => FileAction::SeekEnd,
        FileEvent::Line(line) => FileAction::Read,
        FileEvent::Idle { len, pos } => if was_replaced(len, pos) {
            FileAction::Reopen
        } else {
            FileAction::Read
        },
        FileEvent::ReadFailed => FileAction::Reopen,
    }
}

/// What the child that streams a container's log is doing.
pub enum ChildStatus {
    /// It is no longer there.
    Gone,
    Running,
    /// It has ended; whether well, and its status as text.
    Exited { success: bool, status: String },
}

/// What the follower of a container does next.
#[derive(Clone, Copy, Debug, PartialEq, Eq, Structural)]
pub enum ChildAction {
    /// Kill the child and stop.
    Kill,
    /// Collect the child and stop.
    Reap,
    /// Stop.
    Stop,
    /// Look again a little later.
    Wait,
}

pub open spec fn child_action(stopping: bool, child: ChildStatus) -> ChildAction {
    if stopping {
        ChildAction::Kill
    } else {
        match child {
            ChildStatus::Gone => ChildAction::Stop,
            ChildStatus::Running => ChildAction::Wait,
            ChildStatus::Exited { success, status } => ChildAction::Reap,
        }
    }
}

/// The command that streams a container's log from now on, as it is quoted in
/// errors.
pub open spec fn command_text(container: Seq<char>) -> Seq<char> {
    "`docker logs -f "@ + container + "`"@
}

/// The error of a child that could not be started.
pub fn spawn_error(container: &str, not_found: bool, reason: &str) -> (r: String)
    ensures
        r@ == if not_found {
            "command not found: docker"@
        } else {
            command_text(container@) + ": "@ + reason@
        },
{
    if not_found {
        "command not found: docker".to_owned()
    } else {
        "`docker logs -f ".to_owned().concat(container).concat("`").concat(": ").concat(reason)
    }
}

/// The arguments of `docker` that stream a container's log from now on.
pub fn docker_args(container: &str) -> (r: Vec<String>)
    ensures
        text::views(r@) == seq!["logs"@, "-f"@, "--tail"@, "0"@, container@],
{
    let r: Vec<String> = vec![
        "logs".to_owned(),
        "-f".to_owned(),
        "--tail".to_owned(),
        "0".to_owned(),
        container.to_owned(),
    ];
    assert(text::views(r@) =~= seq!["logs"@, "-f"@, "--tail"@, "0"@, container@]);
    r
}

impl<F> AccessLogTailer<F> {
    /// Takes in a line as it was read, its end included.
    pub fn ingest_line(&mut self, line: &str, t: F)
        requires
            old(self).wf(),
        ensures
            final(self).wf(),
            final(self).same_source(old(self)),
            final(self).failure() == old(self).failure(),
            match request_in(without_line_end(line@)) {
                Some(g) => exists|e: MergedLogEntry<F>| #[trigger]
                    is_entry(e, g, t) && final(self).feed() == state::last_of(
                        old(self).feed().push(e),
                        old(self).limit(),
                    ),
                None => final(self).feed() == old(self).feed(),
            },
            !mentions_request(without_line_end(line@)) ==> final(self).feed() == old(self).feed(),
    {
        let line = trim_line_end(line);
        self.ingest(line.as_str(), t);
    }

    /// Follows a file: takes in what happened to it, at time `t`, and says what
    /// to do next. A failure to open it is the feed's error until it opens.
    pub fn follow_file(&mut self, event: FileEvent, t: F) -> (r: FileAction)
        requires
            old(self).wf(),
        ensures
            final(self).wf(),
            final(self).same_source(old(self)),
            r == file_action(event),
            match event {
                FileEvent::OpenFailed(msg) => {
                    &&& final(self).failure() == Some(msg@)
                    &&& final(self).feed() == old(self).feed()
                },
                FileEvent::Opened => {
                    &&& final(self).failure() is None
                    &&& final(self).feed() == old(self).feed()
                },
                FileEvent::Line(line) => {
                    &&& final(self).failure() == old(self).failure()
                    &&& match request_in(without_line_end(line@)) {
                        Some(g) => exists|e: MergedLogEntry<F>| #[trigger]
                            is_entry(e, g, t) && final(self).feed() == state::last_of(
                                old(self).feed().push(e),
                                old(self).limit(),
                            ),
                        None => final(self).feed() == old(self).feed(),
                    }
                },
                _ => {
                    &&& final(self).failure() == old(self).failure()
                    &&& final(self).feed() == old(self).feed()
                },
            },
    {
        match event {
            FileEvent::OpenFailed(msg) => {
                self.set_error(msg);
                FileAction::RetryOpen
            },
            FileEvent::Opened => {
                self.clear_error();
                FileAction::SeekEnd
            },
            FileEvent::Line(line) => {
                self.ingest_line(line.as_str(), t);
                FileAction::Read
            },
            FileEvent::Idle { len, pos } => {
                let replaced = match (len, pos) {
                    (Some(len), Some(pos)) => len < pos,
                    _ => true,
                };
                if replaced {
                    FileAction::Reopen
                } else {
                    FileAction::Read
                }
            },
            FileEvent::ReadFailed => FileAction::Reopen,
        }
    }

    /// Follows a container: takes in how its child is doing and says what to do
    /// next. A child that ends badly on its own is the feed's error.
    pub fn follow_child(&mut self, container: &str, stopping: bool, child: ChildStatus) -> (r:
        ChildAction)
        requires
            old(self).wf(),
        ensures
            final(self).wf(),
            final(self).same_source(old(self)),
            final(self).feed() == old(self).feed(),
            r == child_action(stopping, child),
            final(self).failure() == match child {
                ChildStatus::Exited { success, status } => if !stopping && !success {
                    Some(command_text(container@) + " exited ("@ + status@ + ")"@)
                } else {
                    old(self).failure()
                },
                _ => old(self).failure(),
            },
    {
        if stopping {
            return ChildAction::Kill;
        }
        match child {
            ChildStatus::Gone => ChildAction::Stop,
            ChildStatus::Running => ChildAction::Wait,
            ChildStatus::Exited { success, status } => {
                if !success {
                    let msg = "`docker logs -f ".to_owned().concat(container).concat("`").concat(
                        " exited (",
                    ).concat(status.as_str()).concat(")");
                    self.set_error(msg);
                }
                ChildAction::Reap
            },
        }
    }
}

} // verus!
