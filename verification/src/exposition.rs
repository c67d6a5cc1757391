//! Writing exposition text, and reading it back.

use vstd::prelude::*;

use crate::collectors::common;
use crate::collectors::common::{LabelBlock, SampleView};
use crate::collectors::scrape;
use crate::text;
use crate::text::Class;

verus! {

/// Each line with a line feed after it.
pub open spec fn unlines(ls: Seq<Seq<char>>) -> Seq<char>
    decreases ls.len(),
{
    if ls.len() == 0 {
        Seq::empty()
    } else {
        unlines(ls.drop_last()) + ls.last().push('\n')
    }
}

/// `key="value"`
pub open spec fn label_text(l: (Seq<char>, Seq<char>)) -> Seq<char> {
    l.0 + "=\""@ + l.1 + "\""@
}

/// Labels with commas between them.
pub open spec fn label_list(labels: Seq<(Seq<char>, Seq<char>)>) -> Seq<char>
    decreases labels.len(),
{
    if labels.len() == 0 {
        Seq::empty()
    } else if labels.len() == 1 {
        label_text(labels[0])
    } else {
        label_text(labels[0]) + ","@ + label_list(labels.skip(1))
    }
}

/// Labels in braces, or nothing where there are none.
pub open spec fn label_braces(labels: Seq<(Seq<char>, Seq<char>)>) -> Seq<char> {
    if labels.len() == 0 {
        Seq::empty()
    } else {
        "{"@ + label_list(labels) + "}"@
    }
}

/// The line of one sample.
pub open spec fn sample_line(
    name: Seq<char>,
    labels: Seq<(Seq<char>, Seq<char>)>,
    token: Seq<char>,
) -> Seq<char> {
    name + label_braces(labels) + " "@ + token
}

pub open spec fn help_line(name: Seq<char>, help: Seq<char>) -> Seq<char> {
    "# HELP "@ + name + " "@ + help
}

pub open spec fn type_line(name: Seq<char>, kind: Seq<char>) -> Seq<char> {
    "# TYPE "@ + name + " "@ + kind
}

/// A text that stands in a quoted string, on one line, as it is.
pub open spec fn is_plain(s: Seq<char>) -> bool {
    forall|i: int| 0 <= i < s.len() ==> (#[trigger] s[i]) != '"' && s[i] != '\\' && s[i] != '\n'
}

/// A text that can stand as the value of a sample: no white space in it, and
/// no brace that would open a block of labels.
pub open spec fn is_token(s: Seq<char>) -> bool {
    s.len() > 0 && s[0] != '{' && text::within(s, Class::Word)
}

pub open spec fn is_name(s: Seq<char>) -> bool {
    s.len() > 0 && text::within(s, Class::Name)
}

pub open spec fn writable_labels(labels: Seq<(Seq<char>, Seq<char>)>) -> bool {
    forall|i: int|
        0 <= i < labels.len() ==> text::within((#[trigger] labels[i]).0, Class::Label) && is_plain(
            labels[i].1,
        )
}

pub proof fn lemma_not_trimmed(s: Seq<char>)
    requires
        s.len() > 0,
        !text::is_space(s[0]),
        !text::is_space(s.last()),
    ensures
        text::trim(s) == s,
{
    lemma_start_not_trimmed(s);
}

proof fn lemma_start_not_trimmed(s: Seq<char>)
    requires
        s.len() == 0 || !text::is_space(s[0]),
    ensures
        text::trim_start(s) == s,
{
    assert(s.skip(0) =~= s);
}

/// A quoted string without escapes reads as itself, up to the closing quote.
proof fn lemma_quoted_plain(s: Seq<char>, tail: Seq<char>)
    requires
        is_plain(s),
    ensures
        common::quoted(s + "\""@ + tail) == s,
        common::quoted_len(s + "\""@ + tail) == s.len() + 1,
    decreases s.len(),
{
    reveal_strlit("\"");
    let all = s + "\""@ + tail;
    if s.len() == 0 {
        assert(all[0] == '"');
        assert(common::quoted(all) =~= s);
    } else {
        assert(all[0] == s[0]);
        assert(all.skip(1) =~= s.skip(1) + "\""@ + tail);
        lemma_quoted_plain(s.skip(1), tail);
        assert(common::quoted(all) =~= s);
    }
}

/// A label at the front of a block is read up to the comma or brace after it.
proof fn lemma_label_front(key: Seq<char>, val: Seq<char>, after: Seq<char>)
    requires
        text::within(key, Class::Label),
        is_plain(val),
        common::at(after, ',') || common::at(after, '}'),
    ensures
        ({
            let s = key + "=\""@ + (val + "\""@ + after);
            let one = seq![(key, val)];
            let more = common::label_block(after.skip(1));
            common::label_block(s) == if common::at(after, ',') {
                LabelBlock { labels: one + more.labels, rest: more.rest }
            } else {
                LabelBlock { labels: one, rest: after.skip(1) }
            }
        }),
{
    let s = key + "=\""@ + (val + "\""@ + after);
    let n = key.len() as int;
    reveal_strlit("\"");
    reveal_strlit("=\"");
    assert(s[n] == '=');
    assert(s.take(n) =~= key);
    assert(!text::is_space(s[0]) && s[0] != '}') by {
        if n > 0 {
            assert(s[0] == key[0]);
            assert(text::belongs(Class::Label, key[0]));
        }
    }
    lemma_start_not_trimmed(s);
    text::lemma_span_is(s, Class::Label, n);
    let a = s.skip(n);
    assert(a[0] == '=');
    lemma_start_not_trimmed(a);
    assert(common::after_key(s) == a);
    let b = a.skip(1);
    assert(b[0] == '"');
    lemma_start_not_trimmed(b);
    let q = b.skip(1);
    assert(q =~= val + "\""@ + after);
    lemma_quoted_plain(val, after);
    let c = q.skip((val.len() + 1) as int);
    assert(c =~= after);
    lemma_start_not_trimmed(c);
    assert(common::label_key(s) == key);
}

/// A list of labels and a closing brace read back as those labels.
proof fn lemma_label_list(labels: Seq<(Seq<char>, Seq<char>)>, tail: Seq<char>)
    requires
        labels.len() > 0,
        writable_labels(labels),
    ensures
        common::label_block(label_list(labels) + "}"@ + tail) == (LabelBlock {
            labels,
            rest: tail,
        }),
    decreases labels.len(),
{
    reveal_strlit("\"");
    reveal_strlit(",");
    reveal_strlit("}");
    let key = labels[0].0;
    let val = labels[0].1;
    let rest = labels.skip(1);
    let one = seq![(key, val)];
    let s = label_list(labels) + "}"@ + tail;
    if labels.len() == 1 {
        let after = "}"@ + tail;
        assert(s =~= key + "=\""@ + (val + "\""@ + after));
        lemma_label_front(key, val, after);
        assert(after.skip(1) =~= tail);
        assert(one =~= labels);
    } else {
        let more = label_list(rest) + "}"@ + tail;
        let after = ","@ + more;
        assert(s =~= key + "=\""@ + (val + "\""@ + after));
        lemma_label_front(key, val, after);
        assert(after.skip(1) =~= more);
        assert forall|i: int| 0 <= i < rest.len() implies text::within(
            (#[trigger] rest[i]).0,
            Class::Label,
        ) && is_plain(rest[i].1) by {
            assert(rest[i] == labels[i + 1]);
        }
        lemma_label_list(rest, tail);
        assert(one + rest =~= labels);
    }
}

/// The line of a sample reads back as that sample.
pub proof fn law_sample_line_read_back(
    name: Seq<char>,
    labels: Seq<(Seq<char>, Seq<char>)>,
    token: Seq<char>,
)
    requires
        is_name(name),
        writable_labels(labels),
        is_token(token),
    ensures
        common::sample_of(sample_line(name, labels, token)) == Some(
            SampleView { name, labels, value: common::value_numeral(token) },
        ),
{
    reveal_strlit("{");
    reveal_strlit("}");
    reveal_strlit(" ");
    let s = sample_line(name, labels, token);
    let n = name.len() as int;
    assert(s[0] == name[0]);
    assert(text::belongs(Class::Name, name[0]));
    assert(s.last() == token.last());
    assert(text::belongs(Class::Word, token[token.len() - 1]));
    lemma_not_trimmed(s);
    assert(s.take(n) =~= name);
    assert(s.skip(n) =~= label_braces(labels) + (" "@ + token));
    assert(s[n] == s.skip(n)[0]);
    text::lemma_span_is(s, Class::Name, n);
    let r = s.skip(n);
    let tail = " "@ + token;
    lemma_first_word(token);
    if labels.len() == 0 {
        assert(r =~= tail);
        assert(labels =~= Seq::empty());
        lemma_start_not_trimmed(token);
        assert(token.take(token.len() as int) =~= token);
        text::lemma_span_is(token, Class::Word, token.len() as int);
    } else {
        assert(r[0] == '{');
        lemma_start_not_trimmed(r);
        assert(r.skip(1) =~= label_list(labels) + "}"@ + tail);
        lemma_label_list(labels, tail);
    }
}

/// After one space, a token is the first word.
proof fn lemma_first_word(token: Seq<char>)
    requires
        is_token(token),
    ensures
        text::trim_start(" "@ + token) == token,
        common::first_word(" "@ + token) == token,
{
    reveal_strlit(" ");
    let s = " "@ + token;
    assert(text::belongs(Class::Word, token[0]));
    assert(text::within(s.take(1), Class::Space));
    assert(s[1] == token[0]);
    text::lemma_span_is(s, Class::Space, 1);
    assert(s.skip(1) =~= token);
    assert(token.take(token.len() as int) =~= token);
    text::lemma_span_is(token, Class::Word, token.len() as int);
}

/// A comment holds no sample.
pub proof fn lemma_comment(s: Seq<char>)
    requires
        common::at(s, '#'),
    ensures
        common::sample_of(s) is None,
{
    lemma_start_not_trimmed(s);
    lemma_trim_end_keeps_first(s);
}

proof fn lemma_trim_end_keeps_first(s: Seq<char>)
    requires
        s.len() > 0,
        !text::is_space(s[0]),
    ensures
        text::trim_end(s).len() > 0,
        text::trim_end(s)[0] == s[0],
    decreases s.len(),
{
    if text::is_space(s.last()) {
        lemma_trim_end_keeps_first(s.drop_last());
    }
}

/// A line that stands on its own: no line feed in it, and no white space at
/// its end.
pub open spec fn is_line(s: Seq<char>) -> bool {
    s.len() > 0 && text::within(s, Class::Line) && !text::is_space(s.last())
}

pub open spec fn are_lines(ls: Seq<Seq<char>>) -> bool {
    forall|i: int| 0 <= i < ls.len() ==> is_line(#[trigger] ls[i])
}

pub proof fn lemma_unlines_add(a: Seq<Seq<char>>, b: Seq<Seq<char>>)
    ensures
        unlines(a + b) == unlines(a) + unlines(b),
    decreases b.len(),
{
    if b.len() == 0 {
        assert(a + b =~= a);
        assert(unlines(a) + unlines(b) =~= unlines(a));
    } else {
        assert((a + b).drop_last() =~= a + b.drop_last());
        lemma_unlines_add(a, b.drop_last());
        assert(unlines(a + b) =~= unlines(a) + unlines(b));
    }
}

proof fn lemma_lines_first(l: Seq<char>, rest: Seq<char>)
    requires
        is_line(l),
    ensures
        text::lines(l.push('\n') + rest) == seq![l] + text::lines(rest),
{
    let s = l.push('\n') + rest;
    let n = l.len() as int;
    assert(s.take(n) =~= l);
    assert(s[n] == '\n');
    text::lemma_span_is(s, Class::Line, n);
    assert(s.skip(n + 1) =~= rest);
}

/// Lines that were written one after another read back as those lines.
pub proof fn law_lines_read_back(ls: Seq<Seq<char>>)
    requires
        are_lines(ls),
    ensures
        text::lines(unlines(ls)) == ls,
    decreases ls.len(),
{
    if ls.len() > 0 {
        let first = ls.take(1);
        let rest = ls.skip(1);
        assert(first + rest =~= ls);
        lemma_unlines_add(first, rest);
        assert(first.drop_last() =~= Seq::<Seq<char>>::empty());
        assert(unlines(first.drop_last()) =~= Seq::<char>::empty());
        assert(unlines(first) =~= ls[0].push('\n'));
        assert forall|i: int| 0 <= i < rest.len() implies is_line(#[trigger] rest[i]) by {
            assert(rest[i] == ls[i + 1]);
        }
        lemma_lines_first(ls[0], unlines(rest));
        law_lines_read_back(rest);
        assert(seq![ls[0]] + rest =~= ls);
    } else {
        assert(text::lines(unlines(ls)) =~= ls);
    }
}

pub proof fn lemma_samples_add(a: Seq<Seq<char>>, b: Seq<Seq<char>>)
    ensures
        scrape::samples_in(a + b) == scrape::samples_in(a) + scrape::samples_in(b),
    decreases b.len(),
{
    if b.len() == 0 {
        assert(a + b =~= a);
        assert(scrape::samples_in(a) + scrape::samples_in(b) =~= scrape::samples_in(a));
    } else {
        assert((a + b).drop_last() =~= a + b.drop_last());
        lemma_samples_add(a, b.drop_last());
        assert(scrape::samples_in(a + b) =~= scrape::samples_in(a) + scrape::samples_in(b));
    }
}

/// The texts of labels that are given as string slices.
pub open spec fn slice_labels(v: Seq<(&str, &str)>) -> Seq<(Seq<char>, Seq<char>)> {
    v.map_values(|l: (&str, &str)| (l.0@, l.1@))
}

/// Appends a line and its line feed.
pub fn put_line(out: &mut String, line: &str)
    ensures
        final(out)@ == old(out)@ + unlines(seq![line@]),
{
    out.append(line);
    out.push('\n');
    proof {
        let one = seq![line@];
        assert(one.drop_last() =~= Seq::empty());
        assert(unlines(one.drop_last()) =~= Seq::empty());
        assert(out@ =~= old(out)@ + unlines(one));
    }
}

/// Appends `# HELP` and `# TYPE` of a series.
pub fn put_heading(out: &mut String, name: &str, help: &str, kind: &str)
    ensures
        final(out)@ == old(out)@ + unlines(seq![help_line(name@, help@), type_line(name@, kind@)]),
{
    let h = "# HELP ".to_owned().concat(name).concat(" ").concat(help);
    let t = "# TYPE ".to_owned().concat(name).concat(" ").concat(kind);
    put_line(out, h.as_str());
    put_line(out, t.as_str());
    proof {
        lemma_unlines_add(seq![h@], seq![t@]);
        assert(seq![h@] + seq![t@] =~= seq![
            help_line(name@, help@),
            type_line(name@, kind@),
        ]);
        assert(out@ =~= old(out)@ + unlines(seq![h@] + seq![t@]));
    }
}

fn label_list_text(labels: &Vec<(&str, &str)>, from: usize) -> (r: String)
    requires
        from <= labels@.len(),
    ensures
        r@ == label_list(slice_labels(labels@).skip(from as int)),
    decreases labels@.len() - from,
{
    let ghost all = slice_labels(labels@).skip(from as int);
    if from == labels.len() {
        let r = String::new();
        assert(r@ =~= label_list(all));
        return r;
    }
    let l = labels[from];
    assert(all[0] == (l.0@, l.1@));
    let one = l.0.to_owned().concat("=\"").concat(l.1).concat("\"");
    if from + 1 == labels.len() {
        one
    } else {
        let rest = label_list_text(labels, from + 1);
        assert(all.skip(1) =~= slice_labels(labels@).skip(from + 1));
        one.concat(",").concat(rest.as_str())
    }
}

/// Appends the line of one sample.
pub fn put_sample(out: &mut String, name: &str, labels: &Vec<(&str, &str)>, token: &str)
    ensures
        final(out)@ == old(out)@ + unlines(
            seq![sample_line(name@, slice_labels(labels@), token@)],
        ),
{
    let list = label_list_text(labels, 0);
    assert(slice_labels(labels@).skip(0) =~= slice_labels(labels@));
    let line = if labels.len() == 0 {
        let line = name.to_owned().concat(" ").concat(token);
        assert(line@ =~= sample_line(name@, slice_labels(labels@), token@));
        line
    } else {
        name.to_owned().concat("{").concat(list.as_str()).concat("}").concat(" ").concat(token)
    };
    assert(line@ =~= sample_line(name@, slice_labels(labels@), token@));
    put_line(out, line.as_str());
}

} // verus!
