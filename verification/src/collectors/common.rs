//! Prometheus exposition text: one line into one sample.

use vstd::prelude::*;

use crate::state;
use crate::state::{fraction, Arithmetic};
use crate::text;
use crate::text::{
    chars_of, decimal_text, has_prefix, lossy_text, same, span_end, string_of, text_of, trimmed,
    Class,
};

verus! {

/// Cap on the body of one scrape, in bytes.
pub const MAX_METRICS_BYTES: usize = 16777216;

/// A number as the exposition text spells it. `Text` holds whatever is not
/// one of the named special values.
pub enum Numeral {
    PosInf,
    NegInf,
    Nan,
    Text(String),
}

pub enum NumeralView {
    PosInf,
    NegInf,
    Nan,
    Text(Seq<char>),
}

impl View for Numeral {
    type V = NumeralView;

    open spec fn view(&self) -> NumeralView {
        match self {
            Numeral::PosInf => NumeralView::PosInf,
            Numeral::NegInf => NumeralView::NegInf,
            Numeral::Nan => NumeralView::Nan,
            Numeral::Text(t) => NumeralView::Text(t@),
        }
    }
}

impl Numeral {
    /// A copy of the numeral.
    pub fn copied(&self) -> (r: Numeral)
        ensures
            r@ == self@,
    {
        match self {
            Numeral::PosInf => Numeral::PosInf,
            Numeral::NegInf => Numeral::NegInf,
            Numeral::Nan => Numeral::Nan,
            Numeral::Text(t) => Numeral::Text(t.clone()),
        }
    }
}

/// What a sample's value token stands for.
pub open spec fn value_numeral(s: Seq<char>) -> NumeralView {
    let t = text::trim(s);
    if t == "+Inf"@ || t == "Inf"@ || t == "inf"@ || t == "Infinity"@ || t == "infinity"@ {
        NumeralView::PosInf
    } else if t == "-Inf"@ || t == "-inf"@ {
        NumeralView::NegInf
    } else if t == "NaN"@ || t == "nan"@ {
        NumeralView::Nan
    } else {
        NumeralView::Text(t)
    }
}

/// What a bucket's `le` label stands for.
pub open spec fn bound_numeral(s: Seq<char>) -> NumeralView {
    let t = text::trim(s);
    if t == "+Inf"@ || t == "Inf"@ || t == "inf"@ {
        NumeralView::PosInf
    } else {
        NumeralView::Text(t)
    }
}

/// One metric sample.
pub struct Sample {
    pub name: String,
    pub labels: Vec<(String, String)>,
    pub value: Numeral,
}

pub struct SampleView {
    pub name: Seq<char>,
    pub labels: Seq<(Seq<char>, Seq<char>)>,
    pub value: NumeralView,
}

/// The texts of a sequence of labels.
pub open spec fn label_views(v: Seq<(String, String)>) -> Seq<(Seq<char>, Seq<char>)> {
    v.map_values(|l: (String, String)| (l.0@, l.1@))
}

impl View for Sample {
    type V = SampleView;

    open spec fn view(&self) -> SampleView {
        SampleView {
            name: self.name@,
            labels: label_views(self.labels@),
            value: self.value@,
        }
    }
}

/// The character that a backslash and `c` stand for in a quoted string.
pub open spec fn unescaped(c: char) -> char {
    if c == 'n' {
        '\n'
    } else {
        c
    }
}

/// The value of the quoted string whose opening quote stands before `s`.
pub open spec fn quoted(s: Seq<char>) -> Seq<char>
    decreases s.len(),
{
    if s.len() == 0 || s[0] == '"' || (s[0] == '\\' && s.len() == 1) {
        Seq::empty()
    } else if s[0] == '\\' {
        seq![unescaped(s[1])] + quoted(s.skip(2))
    } else {
        seq![s[0]] + quoted(s.skip(1))
    }
}

/// How many characters of `s` the quoted string takes, its closing quote
/// included.
pub open spec fn quoted_len(s: Seq<char>) -> nat
    decreases s.len(),
{
    if s.len() == 0 {
        0
    } else if s[0] == '"' || (s[0] == '\\' && s.len() == 1) {
        1
    } else if s[0] == '\\' {
        2 + quoted_len(s.skip(2))
    } else {
        1 + quoted_len(s.skip(1))
    }
}

proof fn lemma_quoted_len(s: Seq<char>)
    ensures
        quoted_len(s) <= s.len(),
    decreases s.len(),
{
    if s.len() > 1 && s[0] == '\\' {
        lemma_quoted_len(s.skip(2));
    } else if s.len() > 0 && s[0] != '"' && s[0] != '\\' {
        lemma_quoted_len(s.skip(1));
    }
}

pub open spec fn at(s: Seq<char>, c: char) -> bool {
    s.len() > 0 && s[0] == c
}

/// Labels, and the text that is left after them.
pub struct LabelBlock {
    pub labels: Seq<(Seq<char>, Seq<char>)>,
    pub rest: Seq<char>,
}

/// The key of the label at the front of `s`.
pub open spec fn label_key(s: Seq<char>) -> Seq<char> {
    s.take(text::span(s, Class::Label) as int)
}

/// What follows the key of the label at the front of `s`.
pub open spec fn after_key(s: Seq<char>) -> Seq<char> {
    text::trim_start(s.skip(text::span(s, Class::Label) as int))
}

/// The labels of a block whose opening brace stands before `s`. A block that
/// breaks off keeps the labels read so far.
pub open spec fn label_block(s: Seq<char>) -> LabelBlock
    decreases s.len(),
    via label_block_decreases
{
    let r = text::trim_start(s);
    let a = after_key(r);
    let b = text::trim_start(a.skip(1));
    let q = b.skip(1);
    let c = text::trim_start(q.skip(quoted_len(q) as int));
    let one = seq![(label_key(r), quoted(q))];
    if at(r, '}') {
        LabelBlock { labels: Seq::empty(), rest: r.skip(1) }
    } else if r.len() == 0 {
        LabelBlock { labels: Seq::empty(), rest: r }
    } else if !at(a, '=') {
        LabelBlock { labels: Seq::empty(), rest: a }
    } else if !at(b, '"') {
        LabelBlock { labels: Seq::empty(), rest: b }
    } else if at(c, ',') {
        let more = label_block(c.skip(1));
        LabelBlock { labels: one + more.labels, rest: more.rest }
    } else if at(c, '}') {
        LabelBlock { labels: one, rest: c.skip(1) }
    } else {
        LabelBlock { labels: one, rest: c }
    }
}

#[via_fn]
proof fn label_block_decreases(s: Seq<char>) {
    let r = text::trim_start(s);
    let a = after_key(r);
    let b = text::trim_start(a.skip(1));
    let q = b.skip(1);
    text::lemma_span(s, Class::Space);
    text::lemma_span(r, Class::Label);
    text::lemma_span(r.skip(text::span(r, Class::Label) as int), Class::Space);
    if at(a, '=') {
        text::lemma_span(a.skip(1), Class::Space);
        if at(b, '"') {
            lemma_quoted_len(q);
            text::lemma_span(q.skip(quoted_len(q) as int), Class::Space);
        }
    }
}

/// The first word of `s`, or nothing.
pub open spec fn first_word(s: Seq<char>) -> Seq<char> {
    let t = text::trim_start(s);
    t.take(text::span(t, Class::Word) as int)
}

/// The labels and the rest after a metric name.
pub open spec fn after_name(s: Seq<char>) -> LabelBlock {
    let r = text::trim_start(s);
    if at(r, '{') {
        label_block(r.skip(1))
    } else {
        LabelBlock { labels: Seq::empty(), rest: r }
    }
}

/// The sample that a line of exposition text holds: a name, an optional block
/// of labels and a value; a timestamp after the value is left out. There is
/// none in a blank line, a comment, or a line without name or value.
pub open spec fn sample_of(line: Seq<char>) -> Option<SampleView> {
    let s = text::trim(line);
    let n = text::span(s, Class::Name) as int;
    let block = after_name(s.skip(n));
    if at(s, '#') || n == 0 || first_word(block.rest).len() == 0 {
        None
    } else {
        Some(
            SampleView {
                name: s.take(n),
                labels: block.labels,
                value: value_numeral(first_word(block.rest)),
            },
        )
    }
}

pub open spec fn sample_view(r: Option<Sample>) -> Option<SampleView> {
    match r {
        Some(s) => Some(s@),
        None => None,
    }
}

/// The number that a sample's value stands for; [`state::value_of`] gives its
/// value.
pub fn parse_value(s: &str) -> (r: Numeral)
    ensures
        r@ == value_numeral(s@),
{
    let v = trimmed(s);
    let t = text_of(&v);
    let w = t.as_str();
    if same(w, "+Inf") || same(w, "Inf") || same(w, "inf") || same(w, "Infinity") || same(
        w,
        "infinity",
    ) {
        Numeral::PosInf
    } else if same(w, "-Inf") || same(w, "-inf") {
        Numeral::NegInf
    } else if same(w, "NaN") || same(w, "nan") {
        Numeral::Nan
    } else {
        Numeral::Text(t)
    }
}

/// The number that a bucket's upper bound stands for; [`state::bound_of`] gives
/// the bound.
pub fn le_to_float(le: &str) -> (r: Numeral)
    ensures
        r@ == bound_numeral(le@),
{
    let v = trimmed(le);
    let t = text_of(&v);
    let w = t.as_str();
    if same(w, "+Inf") || same(w, "Inf") || same(w, "inf") {
        Numeral::PosInf
    } else {
        Numeral::Text(t)
    }
}

/// Reads the quoted string from `from` on: its value and where it ends.
fn read_quoted(v: &Vec<char>, from: usize) -> (r: (String, usize))
    requires
        from <= v@.len(),
    ensures
        r.0@ == quoted(v@.skip(from as int)),
        r.1 == from + quoted_len(v@.skip(from as int)),
        from <= r.1 <= v@.len(),
{
    let mut val = String::new();
    let mut i: usize = from;
    let mut open = true;
    let ghost s = v@.skip(from as int);
    while open && i < v.len()
        invariant
            from <= i <= v@.len(),
            s == v@.skip(from as int),
            open ==> quoted(s) == val@ + quoted(v@.skip(i as int)),
            open ==> from + quoted_len(s) == i + quoted_len(v@.skip(i as int)),
            !open ==> quoted(s) == val@ && i == from + quoted_len(s),
        decreases v@.len() - i,
    {
        let ghost rest = v@.skip(i as int);
        let ghost before = val@;
        let c = v[i];
        if c == '"' {
            assert(before + quoted(rest) =~= before);
            open = false;
            i = i + 1;
        } else if c == '\\' {
            if i + 1 < v.len() {
                let e = v[i + 1];
                let u = if e == 'n' {
                    '\n'
                } else {
                    e
                };
                val.push(u);
                assert(rest.skip(2) =~= v@.skip(i + 2));
                assert(val@ + quoted(rest.skip(2)) =~= before + quoted(rest));
                i = i + 2;
            } else {
                assert(before + quoted(rest) =~= before);
                open = false;
                i = i + 1;
            }
        } else {
            val.push(c);
            assert(rest.skip(1) =~= v@.skip(i + 1));
            assert(val@ + quoted(rest.skip(1)) =~= before + quoted(rest));
            i = i + 1;
        }
    }
    if open {
        assert(v@.skip(i as int).len() == 0);
        assert(val@ + quoted(v@.skip(i as int)) =~= val@);
    }
    (val, i)
}

proof fn lemma_label_views_push(v: Seq<(String, String)>, l: (String, String))
    ensures
        label_views(v.push(l)) == label_views(v).push((l.0@, l.1@)),
{
    assert(label_views(v.push(l)) =~= label_views(v).push((l.0@, l.1@)));
}

/// Skips white space from `from` on.
fn skip_space(v: &Vec<char>, from: usize) -> (to: usize)
    requires
        from <= v@.len(),
    ensures
        from <= to <= v@.len(),
        v@.skip(to as int) == text::trim_start(v@.skip(from as int)),
{
    let to = span_end(v, from, Class::Space);
    assert(v@.skip(from as int).skip(to - from) =~= v@.skip(to as int));
    to
}

fn char_at(v: &Vec<char>, i: usize, c: char) -> (r: bool)
    requires
        i <= v@.len(),
    ensures
        r == at(v@.skip(i as int), c),
        r ==> i < v@.len() <= usize::MAX,
{
    i < v.len() && v[i] == c
}

/// Reads the labels from `from` on, which is after the opening brace.
fn read_labels(v: &Vec<char>, from: usize) -> (r: (Vec<(String, String)>, usize))
    requires
        from <= v@.len(),
    ensures
        label_views(r.0@) == label_block(v@.skip(from as int)).labels,
        r.1 <= v@.len(),
        v@.skip(r.1 as int) == label_block(v@.skip(from as int)).rest,
{
    let mut labels: Vec<(String, String)> = Vec::new();
    let mut pos: usize = from;
    let mut more = true;
    let ghost all = label_block(v@.skip(from as int));
    assert(label_views(labels@) =~= Seq::empty());
    assert(label_views(labels@) + all.labels =~= all.labels);
    while more
        invariant
            pos <= v@.len(),
            more ==> all.labels == label_views(labels@) + label_block(v@.skip(pos as int)).labels,
            more ==> all.rest == label_block(v@.skip(pos as int)).rest,
            !more ==> all.labels == label_views(labels@),
            !more ==> all.rest == v@.skip(pos as int),
        decreases v@.len() - pos, if more { 1int } else { 0int },
    {
        let ghost s = v@.skip(pos as int);
        let ghost before = labels@;
        let ghost r = text::trim_start(s);
        let start = skip_space(v, pos);
        if char_at(v, start, '}') {
            assert(r.skip(1) =~= v@.skip(start + 1));
            assert(label_views(before) + label_block(s).labels =~= label_views(before));
            pos = start + 1;
            more = false;
        } else if start == v.len() {
            assert(label_views(before) + label_block(s).labels =~= label_views(before));
            pos = start;
            more = false;
        } else {
            let key_end = span_end(v, start, Class::Label);
            assert(r.skip(key_end - start) =~= v@.skip(key_end as int));
            let eq = skip_space(v, key_end);
            let ghost a = after_key(r);
            assert(a == v@.skip(eq as int));
            if !char_at(v, eq, '=') {
                assert(label_views(before) + label_block(s).labels =~= label_views(before));
                pos = eq;
                more = false;
            } else {
                assert(a.skip(1) =~= v@.skip(eq + 1));
                let quote = skip_space(v, eq + 1);
                let ghost b = text::trim_start(a.skip(1));
                if !char_at(v, quote, '"') {
                    assert(label_views(before) + label_block(s).labels =~= label_views(before));
                    pos = quote;
                    more = false;
                } else {
                    let key = string_of(v, start, key_end);
                    assert(key@ =~= label_key(r));
                    let ghost q = b.skip(1);
                    assert(q =~= v@.skip(quote + 1));
                    let (val, val_end) = read_quoted(v, quote + 1);
                    assert(q.skip(quoted_len(q) as int) =~= v@.skip(val_end as int));
                    let next = skip_space(v, val_end);
                    let ghost c = text::trim_start(q.skip(quoted_len(q) as int));
                    let ghost one = seq![(label_key(r), quoted(q))];
                    labels.push((key, val));
                    proof {
                        lemma_label_views_push(before, (key, val));
                        assert(label_views(labels@) =~= label_views(before) + one);
                    }
                    if char_at(v, next, ',') {
                        assert(c.skip(1) =~= v@.skip(next + 1));
                        assert(label_views(before) + label_block(s).labels =~= label_views(
                            labels@,
                        ) + label_block(c.skip(1)).labels);
                        pos = next + 1;
                    } else if char_at(v, next, '}') {
                        assert(c.skip(1) =~= v@.skip(next + 1));
                        pos = next + 1;
                        more = false;
                    } else {
                        pos = next;
                        more = false;
                    }
                }
            }
        }
    }
    (labels, pos)
}

/// Parses one line of exposition text.
pub fn parse_line(line: &str) -> (r: Option<Sample>)
    ensures
        sample_view(r) == sample_of(line@),
{
    let v = trimmed(line);
    let ghost s = text::trim(line@);
    assert(s.skip(0) =~= s);
    if char_at(&v, 0, '#') {
        return None;
    }
    let name_end = span_end(&v, 0, Class::Name);
    if name_end == 0 {
        return None;
    }
    let name = string_of(&v, 0, name_end);
    assert(name@ =~= s.take(name_end as int));
    let start = skip_space(&v, name_end);
    let (labels, rest) = if char_at(&v, start, '{') {
        assert(v@.skip(start as int).skip(1) =~= v@.skip(start + 1));
        read_labels(&v, start + 1)
    } else {
        let none: Vec<(String, String)> = Vec::new();
        assert(label_views(none@) =~= Seq::empty());
        (none, start)
    };
    let from = skip_space(&v, rest);
    let to = span_end(&v, from, Class::Word);
    if from == to {
        return None;
    }
    let token = string_of(&v, from, to);
    assert(token@ =~= first_word(v@.skip(rest as int)));
    let value = parse_value(token.as_str());
    Some(Sample { name, labels, value })
}

/// Why a fetch failed.
#[derive(Debug)]
pub enum FetchError {
    /// The server answered with a status that is no success.
    Status(u16),
    /// There was no answer; the message of the transport.
    Transport(String),
}

pub open spec fn short_error_text(e: FetchError) -> Seq<char> {
    match e {
        FetchError::Status(code) => "HTTP "@ + text::decimal(code as nat),
        FetchError::Transport(msg) => if text::starts_with(msg@, "Transport: "@) {
            msg@.skip("Transport: "@.len() as int)
        } else {
            msg@
        },
    }
}

/// A short reason for the disconnect banner: the status, or the transport's
/// message without its `Transport: ` prefix.
pub fn short_error(e: &FetchError) -> (r: String)
    ensures
        r@ == short_error_text(*e),
{
    match e {
        FetchError::Status(code) => "HTTP ".to_owned().concat(
            decimal_text(*code as u64).as_str(),
        ),
        FetchError::Transport(msg) => {
            if has_prefix(msg.as_str(), "Transport: ") {
                let v = chars_of(msg.as_str());
                let skip = "Transport: ".unicode_len();
                let r = string_of(&v, skip, v.len());
                assert(r@ =~= msg@.skip("Transport: "@.len() as int));
                r
            } else {
                msg.clone()
            }
        },
    }
}

/// What a fetched `/metrics` body amounts to: its text, unless it is over the
/// size cap.
pub open spec fn body_text(bytes: Seq<u8>) -> Result<Seq<char>, Seq<char>> {
    if bytes.len() > MAX_METRICS_BYTES {
        Err("/metrics body exceeded 16777216 bytes"@)
    } else {
        Ok(text::lossy(bytes))
    }
}

/// The text of a fetched `/metrics` body, or a short error where the body is
/// over the size cap. A body that is valid UTF-8 is read as it is.
pub fn metrics_text(bytes: &Vec<u8>) -> (r: Result<String, String>)
    ensures
        match r {
            Ok(t) => body_text(bytes@) == Ok::<Seq<char>, Seq<char>>(t@),
            Err(e) => body_text(bytes@) == Err::<Seq<char>, Seq<char>>(e@),
        },
        bytes@.len() <= MAX_METRICS_BYTES && vstd::utf8::valid_utf8(bytes@) ==> (r matches Ok(t)
            && t@ == vstd::utf8::decode_utf8(bytes@)),
{
    if bytes.len() > MAX_METRICS_BYTES {
        Err("/metrics body exceeded 16777216 bytes".to_owned())
    } else {
        Ok(lossy_text(bytes))
    }
}

/// `r` is the timeout in seconds, at least a thousandth.
pub open spec fn is_timeout<T: Arithmetic>(t: T, seconds: T::F, r: T::F) -> bool {
    exists|least: T::F| #[trigger]
        state::is_fraction(t, 1, 1_000, least) && call_ensures(T::larger, (&t, seconds, least), r)
}

/// The timeout of a fetch in seconds, at least a thousandth.
pub fn fetch_timeout<T: Arithmetic>(t: &T, seconds: T::F) -> (r: T::F)
    ensures
        is_timeout(*t, seconds, r),
{
    let least = fraction(t, 1, 1_000);
    t.larger(seconds, least)
}

} // verus!
