//! Text as sequences of characters: classes, spans, trimming, lines, words,
//! and decimal numbers.

use vstd::prelude::*;

verus! {

/// `String::push` appends the given character to the end of the string.
pub assume_specification[ String::push ](s: &mut String, c: char)
    ensures
        final(s)@ == old(s)@.push(c),
;

/// The sets of characters that the parsers run over.
#[derive(Clone, Copy)]
pub enum Class {
    /// Unicode white space.
    Space,
    /// Anything but white space.
    Word,
    /// Anything but a line feed.
    Line,
    /// Characters of a metric name.
    Name,
    /// Characters of a label key.
    Label,
    /// Anything but a hyphen.
    Prefix,
}

/// The characters with the Unicode property `White_Space`.
pub open spec fn is_space(c: char) -> bool {
    ||| '\u{9}' <= c <= '\u{d}'
    ||| c == ' '
    ||| c == '\u{85}'
    ||| c == '\u{a0}'
    ||| c == '\u{1680}'
    ||| '\u{2000}' <= c <= '\u{200a}'
    ||| c == '\u{2028}'
    ||| c == '\u{2029}'
    ||| c == '\u{202f}'
    ||| c == '\u{205f}'
    ||| c == '\u{3000}'
}

/// An ASCII letter or digit.
pub open spec fn is_alphanumeric(c: char) -> bool {
    'a' <= c <= 'z' || 'A' <= c <= 'Z' || '0' <= c <= '9'
}

pub open spec fn belongs(k: Class, c: char) -> bool {
    match k {
        Class::Space => is_space(c),
        Class::Word => !is_space(c),
        Class::Line => c != '\n',
        Class::Name => is_alphanumeric(c) || c == '_' || c == ':',
        Class::Label => is_alphanumeric(c) || c == '_',
        Class::Prefix => c != '-',
    }
}

/// Every character of `s` belongs to the class.
pub open spec fn within(s: Seq<char>, k: Class) -> bool {
    forall|i: int| 0 <= i < s.len() ==> belongs(k, #[trigger] s[i])
}

/// The length of the longest prefix whose characters all belong to the class.
pub open spec fn span(s: Seq<char>, k: Class) -> nat
    decreases s.len(),
{
    if s.len() > 0 && belongs(k, s[0]) {
        1 + span(s.skip(1), k)
    } else {
        0
    }
}

pub open spec fn trim_start(s: Seq<char>) -> Seq<char> {
    s.skip(span(s, Class::Space) as int)
}

pub open spec fn trim_end(s: Seq<char>) -> Seq<char>
    decreases s.len(),
{
    if s.len() > 0 && is_space(s.last()) {
        trim_end(s.drop_last())
    } else {
        s
    }
}

pub open spec fn trim(s: Seq<char>) -> Seq<char> {
    trim_end(trim_start(s))
}

/// `s` without one carriage return at its end.
pub open spec fn without_return(s: Seq<char>) -> Seq<char> {
    if s.len() > 0 && s.last() == '\r' {
        s.drop_last()
    } else {
        s
    }
}

/// The lines of a text: what stands before each line feed, less a carriage
/// return at its end, and what stands after the last one unless it is empty.
pub open spec fn lines(s: Seq<char>) -> Seq<Seq<char>>
    decreases s.len(),
{
    let n = span(s, Class::Line) as int;
    if s.len() == 0 {
        Seq::empty()
    } else if n >= s.len() {
        seq![s]
    } else {
        seq![without_return(s.take(n))] + lines(s.skip(n + 1))
    }
}

/// The maximal runs of characters that are not white space.
pub open spec fn words(s: Seq<char>) -> Seq<Seq<char>>
    decreases s.len(),
    via words_decreases
{
    let t = trim_start(s);
    let n = span(t, Class::Word) as int;
    if t.len() == 0 {
        Seq::empty()
    } else {
        seq![t.take(n)] + words(t.skip(n))
    }
}

#[via_fn]
proof fn words_decreases(s: Seq<char>) {
    lemma_span(s, Class::Space);
    lemma_span(trim_start(s), Class::Word);
}

/// The pieces one after another, with `sep` between neighbours.
pub open spec fn joined(parts: Seq<Seq<char>>, sep: Seq<char>) -> Seq<char>
    decreases parts.len(),
{
    if parts.len() == 0 {
        Seq::empty()
    } else if parts.len() == 1 {
        parts[0]
    } else {
        joined(parts.drop_last(), sep) + sep + parts.last()
    }
}

/// `n` copies of `c`.
pub open spec fn repeated(c: char, n: nat) -> Seq<char> {
    Seq::new(n, |i: int| c)
}

pub open spec fn starts_with(s: Seq<char>, prefix: Seq<char>) -> bool {
    prefix.len() <= s.len() && s.take(prefix.len() as int) == prefix
}

/// The first `n` characters, or all of them where there are fewer.
pub open spec fn clipped(s: Seq<char>, n: nat) -> Seq<char> {
    if s.len() <= n {
        s
    } else {
        s.take(n as int)
    }
}

/// `s` with spaces before it, up to `width` characters.
pub open spec fn right_aligned(s: Seq<char>, width: nat) -> Seq<char> {
    if s.len() >= width {
        s
    } else {
        repeated(' ', (width - s.len()) as nat) + s
    }
}

/// `s` with spaces after it, up to `width` characters.
pub open spec fn left_aligned(s: Seq<char>, width: nat) -> Seq<char> {
    if s.len() >= width {
        s
    } else {
        s + repeated(' ', (width - s.len()) as nat)
    }
}

pub open spec fn lower(c: char) -> char {
    if 'A' <= c <= 'Z' {
        (c as u8 + 32) as char
    } else {
        c
    }
}

/// ASCII letters in lower case, other characters as they are.
pub open spec fn lowered(s: Seq<char>) -> Seq<char> {
    s.map_values(|c: char| lower(c))
}

pub open spec fn digit(d: int) -> char {
    ('0' as u8 + d) as char
}

/// A natural number in decimal.
pub open spec fn decimal(n: nat) -> Seq<char>
    decreases n,
{
    if n < 10 {
        seq![digit(n as int)]
    } else {
        decimal(n / 10).push(digit((n % 10) as int))
    }
}

/// An integer in decimal, with a minus sign where it is negative.
pub open spec fn signed_decimal(n: int) -> Seq<char> {
    if n < 0 {
        seq!['-'] + decimal((-n) as nat)
    } else {
        decimal(n as nat)
    }
}

pub open spec fn is_digit(c: char) -> bool {
    '0' <= c <= '9'
}

/// The number that a run of decimal digits stands for.
pub open spec fn digits_value(s: Seq<char>) -> int
    decreases s.len(),
{
    if s.len() == 0 {
        0
    } else {
        digits_value(s.drop_last()) * 10 + (s.last() as int - '0' as int)
    }
}

pub open spec fn all_digits(s: Seq<char>) -> bool {
    s.len() > 0 && forall|i: int| 0 <= i < s.len() ==> is_digit(#[trigger] s[i])
}

pub proof fn lemma_span(s: Seq<char>, k: Class)
    ensures
        span(s, k) <= s.len(),
        within(s.take(span(s, k) as int), k),
        span(s, k) < s.len() ==> !belongs(k, s[span(s, k) as int]),
    decreases s.len(),
{
    if s.len() > 0 && belongs(k, s[0]) {
        lemma_span(s.skip(1), k);
        let n = span(s.skip(1), k) as int;
        assert forall|i: int| 0 <= i < n + 1 implies belongs(k, #[trigger] s.take(n + 1)[i]) by {
            if i > 0 {
                assert(s.skip(1).take(n)[i - 1] == s[i]);
            }
        }
    }
}

/// A prefix within the class, followed by a character outside it or by the
/// end, is the longest such prefix.
pub proof fn lemma_span_is(s: Seq<char>, k: Class, n: int)
    requires
        0 <= n <= s.len(),
        within(s.take(n), k),
        n < s.len() ==> !belongs(k, s[n]),
    ensures
        span(s, k) == n,
    decreases n,
{
    if n > 0 {
        assert(s.take(n)[0] == s[0]);
        assert forall|i: int| 0 <= i < n - 1 implies belongs(
            k,
            #[trigger] s.skip(1).take(n - 1)[i],
        ) by {
            assert(s.take(n)[i + 1] == s[i + 1]);
        }
        lemma_span_is(s.skip(1), k, n - 1);
    }
}

/// The characters of a string.
pub fn chars_of(s: &str) -> (r: Vec<char>)
    ensures
        r@ == s@,
{
    let mut r: Vec<char> = Vec::new();
    for c in it: s.chars()
        invariant
            it.seq() == s@,
            r@ == s@.take(it.index()),
    {
        r.push(c);
    }
    r
}

/// The string made of the characters from `from` up to `to`.
pub fn string_of(v: &Vec<char>, from: usize, to: usize) -> (r: String)
    requires
        from <= to <= v@.len(),
    ensures
        r@ == v@.subrange(from as int, to as int),
{
    let mut r = String::new();
    for i in from..to
        invariant
            from <= to <= v@.len(),
            r@ == v@.subrange(from as int, i as int),
    {
        r.push(v[i]);
    }
    r
}

pub fn same(a: &str, b: &str) -> (r: bool)
    ensures
        r == (a@ == b@),
{
    let x: String = a.to_owned();
    let y: String = b.to_owned();
    x == y
}

pub fn is_white(c: char) -> (r: bool)
    ensures
        r == is_space(c),
{
    ('\u{9}' <= c && c <= '\u{d}') || c == ' ' || c == '\u{85}' || c == '\u{a0}' || c == '\u{1680}'
        || ('\u{2000}' <= c && c <= '\u{200a}') || c == '\u{2028}' || c == '\u{2029}'
        || c == '\u{202f}' || c == '\u{205f}' || c == '\u{3000}'
}

fn is_member(k: Class, c: char) -> (r: bool)
    ensures
        r == belongs(k, c),
{
    let alphanumeric = ('a' <= c && c <= 'z') || ('A' <= c && c <= 'Z') || ('0' <= c && c <= '9');
    match k {
        Class::Space => is_white(c),
        Class::Word => !is_white(c),
        Class::Line => c != '\n',
        Class::Name => alphanumeric || c == '_' || c == ':',
        Class::Label => alphanumeric || c == '_',
        Class::Prefix => c != '-',
    }
}

/// The end of the span of class `k` that starts at `from`.
pub fn span_end(v: &Vec<char>, from: usize, k: Class) -> (to: usize)
    requires
        from <= v@.len(),
    ensures
        from <= to <= v@.len(),
        to - from == span(v@.skip(from as int), k),
{
    let mut to: usize = from;
    while to < v.len() && is_member(k, v[to])
        invariant
            from <= to <= v@.len(),
            within(v@.skip(from as int).take(to - from), k),
        ensures
            from <= to <= v@.len(),
            within(v@.skip(from as int).take(to - from), k),
            to < v@.len() ==> !belongs(k, v@[to as int]),
        decreases v@.len() - to,
    {
        proof {
            let s = v@.skip(from as int);
            assert forall|i: int| 0 <= i < to + 1 - from implies belongs(
                k,
                #[trigger] s.take(to + 1 - from)[i],
            ) by {
                if i < to - from {
                    assert(s.take(to - from)[i] == s[i]);
                }
            }
        }
        to = to + 1;
    }
    proof {
        lemma_span_is(v@.skip(from as int), k, to - from);
    }
    to
}

/// The texts of a sequence of strings.
pub open spec fn views(v: Seq<String>) -> Seq<Seq<char>> {
    v.map_values(|s: String| s@)
}

pub proof fn lemma_views_push(v: Seq<String>, s: String)
    ensures
        views(v.push(s)) == views(v).push(s@),
{
    assert(views(v.push(s)) =~= views(v).push(s@));
}

/// Where the text without the white space at its end stops, at or after `from`.
fn trimmed_end(v: &Vec<char>, from: usize) -> (to: usize)
    requires
        from <= v@.len(),
    ensures
        from <= to <= v@.len(),
        v@.subrange(from as int, to as int) == trim_end(v@.skip(from as int)),
{
    let mut to: usize = v.len();
    assert(v@.subrange(from as int, to as int) =~= v@.skip(from as int));
    while from < to && is_white(v[to - 1])
        invariant
            from <= to <= v@.len(),
            trim_end(v@.subrange(from as int, to as int)) == trim_end(v@.skip(from as int)),
        ensures
            from <= to <= v@.len(),
            trim_end(v@.subrange(from as int, to as int)) == trim_end(v@.skip(from as int)),
            from == to || !is_space(v@[to - 1]),
        decreases to,
    {
        assert(v@.subrange(from as int, to as int).drop_last() =~= v@.subrange(
            from as int,
            to - 1,
        ));
        to = to - 1;
    }
    to
}

/// The characters of `s` without the white space at both ends.
pub fn trimmed(s: &str) -> (r: Vec<char>)
    ensures
        r@ == trim(s@),
{
    let v = chars_of(s);
    let from = span_end(&v, 0, Class::Space);
    let to = trimmed_end(&v, from);
    assert(v@.skip(0) =~= v@);
    let mut r: Vec<char> = Vec::new();
    for i in from..to
        invariant
            from <= to <= v@.len(),
            r@ == v@.subrange(from as int, i as int),
    {
        r.push(v[i]);
    }
    r
}

pub fn text_of(v: &Vec<char>) -> (r: String)
    ensures
        r@ == v@,
{
    assert(v@.subrange(0, v@.len() as int) =~= v@);
    string_of(v, 0, v.len())
}

/// The lines of a text.
pub fn split_lines(text: &str) -> (r: Vec<String>)
    ensures
        views(r@) == lines(text@),
{
    let v = chars_of(text);
    let mut r: Vec<String> = Vec::new();
    let mut pos: usize = 0;
    assert(v@.skip(0) =~= v@);
    assert(views(r@) =~= Seq::empty());
    assert(lines(v@) =~= views(r@) + lines(v@.skip(0)));
    while pos < v.len()
        invariant
            pos <= v@.len(),
            lines(v@) == views(r@) + lines(v@.skip(pos as int)),
        decreases v@.len() - pos,
    {
        let end = span_end(&v, pos, Class::Line);
        let ghost rest = v@.skip(pos as int);
        let ghost before = r@;
        if end >= v.len() {
            let line = string_of(&v, pos, end);
            assert(line@ =~= rest);
            r.push(line);
            proof {
                lemma_views_push(before, line);
                assert(lines(rest) == seq![rest]);
                assert(v@.skip(end as int).len() == 0);
                assert(lines(v@.skip(end as int)) =~= Seq::empty());
                assert(views(r@) + lines(v@.skip(end as int)) =~= views(before) + lines(rest));
            }
            pos = end;
        } else {
            let stop = if end > pos && v[end - 1] == '\r' {
                end - 1
            } else {
                end
            };
            let line = string_of(&v, pos, stop);
            proof {
                assert(rest.take(end - pos) =~= v@.subrange(pos as int, end as int));
                assert(line@ =~= without_return(rest.take(end - pos)));
                assert(rest.skip(end - pos + 1) =~= v@.skip(end + 1));
            }
            r.push(line);
            proof {
                lemma_views_push(before, line);
                assert(views(r@) + lines(v@.skip(end + 1)) =~= views(before) + lines(rest));
            }
            pos = end + 1;
        }
    }
    proof {
        assert(v@.skip(pos as int).len() == 0);
        assert(views(r@) + lines(v@.skip(pos as int)) =~= views(r@));
    }
    r
}

/// The words of a text.
pub fn split_words(text: &str) -> (r: Vec<String>)
    ensures
        views(r@) == words(text@),
{
    let v = chars_of(text);
    let mut r: Vec<String> = Vec::new();
    let mut pos: usize = 0;
    let mut more = true;
    assert(v@.skip(0) =~= v@);
    assert(words(v@) =~= views(r@) + words(v@.skip(0)));
    while more
        invariant
            pos <= v@.len(),
            more ==> words(v@) == views(r@) + words(v@.skip(pos as int)),
            !more ==> words(v@) == views(r@),
        decreases v@.len() - pos, if more { 1int } else { 0int },
    {
        let ghost rest = v@.skip(pos as int);
        let ghost before = r@;
        let from = span_end(&v, pos, Class::Space);
        assert(trim_start(rest) =~= v@.skip(from as int));
        if from == v.len() {
            assert(words(rest) =~= Seq::empty());
            assert(views(r@) + words(rest) =~= views(r@));
            more = false;
        } else {
            let to = span_end(&v, from, Class::Word);
            proof {
                lemma_span(rest, Class::Space);
                assert(rest[from - pos] == v@[from as int]);
            }
            let word = string_of(&v, from, to);
            r.push(word);
            proof {
                lemma_views_push(before, word);
                assert(trim_start(rest).take(to - from) =~= word@);
                assert(trim_start(rest).skip(to - from) =~= v@.skip(to as int));
                assert(views(r@) + words(v@.skip(to as int)) =~= views(before) + words(rest));
                assert(to > from);
            }
            pos = to;
        }
    }
    r
}

/// The pieces with `sep` between neighbours.
pub fn join(parts: &Vec<String>, sep: &str) -> (r: String)
    ensures
        r@ == joined(views(parts@), sep@),
{
    let mut r = String::new();
    for i in 0..parts.len()
        invariant
            r@ == joined(views(parts@).take(i as int), sep@),
    {
        if i > 0 {
            r.append(sep);
        }
        r.append(parts[i].as_str());
        proof {
            let now = views(parts@).take(i + 1);
            assert(now.drop_last() =~= views(parts@).take(i as int));
            assert(now.last() == parts@[i as int]@);
            if i == 0 {
                assert(r@ =~= now[0]);
            }
        }
    }
    assert(views(parts@).take(parts@.len() as int) =~= views(parts@));
    r
}

/// `n` copies of `c`.
pub fn repeat(c: char, n: usize) -> (r: String)
    ensures
        r@ == repeated(c, n as nat),
{
    let mut r = String::new();
    for i in 0..n
        invariant
            r@ == repeated(c, i as nat),
    {
        r.push(c);
        assert(repeated(c, i as nat).push(c) =~= repeated(c, (i + 1) as nat));
    }
    r
}

/// The first `n` characters of `s`.
pub fn clip(s: &str, n: usize) -> (r: String)
    ensures
        r@ == clipped(s@, n as nat),
{
    let v = chars_of(s);
    let to = if v.len() <= n {
        v.len()
    } else {
        n
    };
    assert(v@.subrange(0, to as int) =~= clipped(s@, n as nat));
    string_of(&v, 0, to)
}

pub fn align_right(s: &str, width: usize) -> (r: String)
    ensures
        r@ == right_aligned(s@, width as nat),
{
    let n = s.unicode_len();
    if n >= width {
        s.to_owned()
    } else {
        let mut r = repeat(' ', width - n);
        r.append(s);
        r
    }
}

pub fn align_left(s: &str, width: usize) -> (r: String)
    ensures
        r@ == left_aligned(s@, width as nat),
{
    let n = s.unicode_len();
    let mut r: String = s.to_owned();
    if n < width {
        let pad = repeat(' ', width - n);
        r.append(pad.as_str());
    }
    r
}

/// Whether `s` begins with `prefix`.
pub fn has_prefix(s: &str, prefix: &str) -> (r: bool)
    ensures
        r == starts_with(s@, prefix@),
{
    let n = prefix.unicode_len();
    if s.unicode_len() < n {
        return false;
    }
    let head = s.substring_char(0, n);
    assert(s@.subrange(0, n as int) =~= s@.take(n as int));
    same(head, prefix)
}

/// `s` in ASCII lower case.
pub fn to_lower(s: &str) -> (r: String)
    ensures
        r@ == lowered(s@),
{
    let v = chars_of(s);
    let mut r = String::new();
    for i in 0..v.len()
        invariant
            v@ == s@,
            r@ == lowered(s@.take(i as int)),
    {
        let c = v[i];
        let l = if 'A' <= c && c <= 'Z' {
            (c as u8 + 32) as char
        } else {
            c
        };
        r.push(l);
        assert(lowered(s@.take(i + 1)) =~= lowered(s@.take(i as int)).push(lower(c)));
    }
    assert(s@.take(v@.len() as int) =~= s@);
    r
}

/// A natural number in decimal.
pub fn decimal_text(n: u64) -> (r: String)
    ensures
        r@ == decimal(n as nat),
    decreases n,
{
    let mut r = if n < 10 {
        String::new()
    } else {
        decimal_text(n / 10)
    };
    r.push((48u8 + (n % 10) as u8) as char);
    assert(r@ =~= decimal(n as nat));
    r
}

/// An integer in decimal.
pub fn signed_text(n: i64) -> (r: String)
    ensures
        r@ == signed_decimal(n as int),
{
    if n >= 0 {
        decimal_text(n as u64)
    } else {
        let size: u64 = if n == i64::MIN {
            0x8000_0000_0000_0000u64
        } else {
            (-n) as u64
        };
        let mut r = String::new();
        r.push('-');
        let digits = decimal_text(size);
        r.append(digits.as_str());
        assert(r@ =~= signed_decimal(n as int));
        r
    }
}

/// The natural number that a text stands for: digits, after an optional plus
/// sign.
pub open spec fn natural_of(s: Seq<char>) -> Option<int> {
    let body = if s.len() > 0 && s[0] == '+' {
        s.skip(1)
    } else {
        s
    };
    if all_digits(body) {
        Some(digits_value(body))
    } else {
        None
    }
}

/// The integer that a text stands for: digits, after an optional sign.
pub open spec fn integer_of(s: Seq<char>) -> Option<int> {
    if s.len() > 0 && s[0] == '-' {
        if all_digits(s.skip(1)) {
            Some(-digits_value(s.skip(1)))
        } else {
            None
        }
    } else {
        natural_of(s)
    }
}

/// A natural number in decimal is read back.
pub proof fn law_decimal_read_back(n: nat)
    ensures
        all_digits(decimal(n)),
        digits_value(decimal(n)) == n,
        natural_of(decimal(n)) == Some(n as int),
    decreases n,
{
    let d = decimal(n);
    if n < 10 {
        assert(d.drop_last() =~= Seq::empty());
        assert(digits_value(d.drop_last()) == 0);
    } else {
        law_decimal_read_back(n / 10);
        assert(d.drop_last() =~= decimal(n / 10));
        assert forall|i: int| 0 <= i < d.len() implies is_digit(#[trigger] d[i]) by {
            if i < d.len() - 1 {
                assert(d[i] == decimal(n / 10)[i]);
            }
        }
    }
    assert(is_digit(d[0]));
}

/// An integer in decimal is read back.
pub proof fn law_integer_read_back(n: int)
    ensures
        integer_of(signed_decimal(n)) == Some(n),
{
    let s = signed_decimal(n);
    if n < 0 {
        law_decimal_read_back((-n) as nat);
        assert(s.skip(1) =~= decimal((-n) as nat));
    } else {
        law_decimal_read_back(n as nat);
        assert(is_digit(s[0]));
    }
}

proof fn lemma_digits_value_grows(s: Seq<char>, n: int)
    requires
        0 <= n <= s.len(),
        forall|i: int| 0 <= i < s.len() ==> is_digit(#[trigger] s[i]),
    ensures
        0 <= digits_value(s.take(n)) <= digits_value(s),
    decreases s.len(),
{
    if n < s.len() {
        lemma_digits_value_grows(s.drop_last(), n);
        assert(s.drop_last().take(n) =~= s.take(n));
    } else {
        assert(s.take(n) =~= s);
        if s.len() > 0 {
            lemma_digits_value_grows(s.drop_last(), s.len() - 1);
            assert(s.drop_last().take(s.len() - 1) =~= s.drop_last());
        }
    }
}

/// The value of the digits from `from` on, unless there are none, some
/// character is no digit, or the value is over `max`.
fn digits_from(v: &Vec<char>, from: usize, max: u64) -> (r: Option<u64>)
    requires
        from <= v@.len(),
    ensures
        r matches Some(n) ==> all_digits(v@.skip(from as int)) && n == digits_value(
            v@.skip(from as int),
        ) && n <= max,
        r is None ==> !all_digits(v@.skip(from as int)) || digits_value(v@.skip(from as int)) > max,
{
    let ghost s = v@.skip(from as int);
    if from == v.len() {
        return None;
    }
    let mut i: usize = from;
    while i < v.len()
        invariant
            from <= i <= v@.len(),
            s == v@.skip(from as int),
            forall|j: int| from <= j < i ==> is_digit(#[trigger] v@[j]),
        decreases v@.len() - i,
    {
        let c = v[i];
        if !('0' <= c && c <= '9') {
            assert(s[i - from] == c);
            return None;
        }
        i = i + 1;
    }
    assert forall|j: int| 0 <= j < s.len() implies is_digit(#[trigger] s[j]) by {
        assert(s[j] == v@[from + j]);
    }
    let mut total: u128 = 0;
    let mut k: usize = from;
    while k < v.len()
        invariant
            from <= k <= v@.len(),
            s == v@.skip(from as int),
            forall|j: int| 0 <= j < s.len() ==> is_digit(#[trigger] s[j]),
            s.len() > 0,
            total == digits_value(s.take(k - from)),
            total <= max,
        decreases v@.len() - k,
    {
        let c = v[k];
        proof {
            assert(s[k - from] == c);
            assert(s.take(k + 1 - from).drop_last() =~= s.take(k - from));
            assert(s.take(k + 1 - from).last() == c);
            lemma_digits_value_grows(s, k + 1 - from);
        }
        total = total * 10 + (c as u32 - 48) as u128;
        if total > max as u128 {
            return None;
        }
        k = k + 1;
    }
    assert(s.take(k - from) =~= s);
    Some(total as u64)
}

/// The natural number up to `max` that a text stands for.
pub fn parse_natural(s: &str, max: u64) -> (r: Option<u64>)
    ensures
        r matches Some(n) ==> natural_of(s@) == Some(n as int) && n <= max,
        r is None ==> (natural_of(s@) matches Some(n) ==> n > max),
{
    let v = chars_of(s);
    if v.len() > 0 && v[0] == '+' {
        digits_from(&v, 1, max)
    } else {
        assert(v@.skip(0) =~= v@);
        digits_from(&v, 0, max)
    }
}

/// The 64-bit integer that a text stands for.
pub fn parse_integer(s: &str) -> (r: Option<i64>)
    ensures
        r matches Some(n) ==> integer_of(s@) == Some(n as int),
        r is None ==> (integer_of(s@) matches Some(n) ==> n < i64::MIN || n > i64::MAX),
{
    let v = chars_of(s);
    if v.len() > 0 && v[0] == '-' {
        match digits_from(&v, 1, 0x8000_0000_0000_0000u64) {
            Some(n) => if n == 0x8000_0000_0000_0000u64 {
                Some(i64::MIN)
            } else {
                Some(-(n as i64))
            },
            None => None,
        }
    } else {
        match parse_natural(s, 0x7fff_ffff_ffff_ffffu64) {
            Some(n) => Some(n as i64),
            None => None,
        }
    }
}

/// The text that bytes are read as where some of them are no UTF-8.
pub uninterp spec fn lossy(bytes: Seq<u8>) -> Seq<char>;

/// `String::from_utf8_lossy` reads bytes as UTF-8 and puts a replacement
/// character where they are none. Bytes that are valid UTF-8 are read as the
/// text that they encode; of others only that the text depends on them alone
/// is stated.
#[verifier::external_body]
pub(crate) fn lossy_text(bytes: &Vec<u8>) -> (r: String)
    ensures
        r@ == lossy(bytes@),
        vstd::utf8::valid_utf8(bytes@) ==> r@ == vstd::utf8::decode_utf8(bytes@),
{
    String::from_utf8_lossy(bytes).into_owned()
}

} // verus!
