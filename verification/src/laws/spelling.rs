//! How numbers are spelled and texts are cut and put together.

use vstd::prelude::*;

use crate::text;
use crate::text::{
    decimal_text, join, parse_integer, parse_natural, signed_text, split_lines, to_lower, Class,
};

verus! {

/// A number that was spelled is read back.
pub proof fn law_spelled_numbers_are_read(
    n: u64,
    a: String,
    max: u64,
    x: Option<u64>,
    i: i64,
    b: String,
    y: Option<i64>,
    first: &str,
    second: &str,
)
    requires
        call_ensures(decimal_text, (n,), a),
        first@ == a@,
        call_ensures(parse_natural, (first, max), x),
        call_ensures(signed_text, (i,), b),
        second@ == b@,
        call_ensures(parse_integer, (second,), y),
    ensures
        x == if n <= max {
            Some(n)
        } else {
            None
        },
        y == Some(i),
{
    text::law_decimal_read_back(n as nat);
    text::law_integer_read_back(i as int);
}

/// The last digit of a spelled number stands for its ones; what is before it
/// spells the tens.
pub proof fn law_ones_come_last(n: u64, d: u64, tens: String, m: u64, all: String)
    requires
        d < 10,
        m == 10 * n + d,
        call_ensures(decimal_text, (n,), tens),
        call_ensures(decimal_text, (m,), all),
    ensures
        all@.last() as int == '0' as int + d,
        n == 0 ==> all@.len() == 1,
        n > 0 ==> all@.drop_last() == tens@,
{
    if n > 0 {
        assert(m / 10 == n && m % 10 == d);
        assert(all@.drop_last() =~= tens@);
    }
}

/// A number below zero is spelled as its opposite after a minus sign.
pub proof fn law_minus_comes_first(n: i64, m: i64, a: String, b: String)
    requires
        n > 0,
        m == -n,
        call_ensures(signed_text, (n,), a),
        call_ensures(signed_text, (m,), b),
    ensures
        b@ == seq!['-'] + a@,
{
}

/// What is read as a number has nothing but digits in it, after a plus sign at
/// most.
pub proof fn law_only_digits_are_numbers(s: &str, max: u64, r: Option<u64>)
    requires
        call_ensures(parse_natural, (s, max), r),
        r is Some,
    ensures
        s@.len() > 0,
        s@[0] == '+' || '0' <= s@[0] <= '9',
        forall|i: int| 1 <= i < s@.len() ==> '0' <= #[trigger] s@[i] <= '9',
{
    if s@.len() > 0 && s@[0] == '+' {
        let body = s@.skip(1);
        assert(text::all_digits(body));
        assert forall|i: int| 1 <= i < s@.len() implies '0' <= #[trigger] s@[i] <= '9' by {
            assert(body[i - 1] == s@[i]);
        }
    } else {
        assert(text::all_digits(s@));
    }
}

/// A line ends at a line feed, with or without a carriage return before it; what
/// comes after it are the other lines.
pub proof fn law_lines_end_at_line_feeds(
    l: Seq<char>,
    end: Seq<char>,
    rest: &str,
    whole: &str,
    a: Vec<String>,
    b: Vec<String>,
)
    requires
        end == seq!['\n'] || end == seq!['\r', '\n'],
        forall|i: int| 0 <= i < l.len() ==> #[trigger] l[i] != '\n',
        end.len() == 1 && l.len() > 0 ==> l.last() != '\r',
        whole@ == l + end + rest@,
        call_ensures(split_lines, (rest,), a),
        call_ensures(split_lines, (whole,), b),
    ensures
        text::views(b@) == seq![l] + text::views(a@),
{
    let s = whole@;
    let n = l.len() + end.len() - 1;
    assert(s[n] == '\n');
    let front = s.take(n);
    assert forall|i: int| 0 <= i < front.len() implies text::belongs(
        Class::Line,
        #[trigger] front[i],
    ) by {
        if i < l.len() {
            assert(front[i] == l[i]);
        } else {
            assert(front[i] == '\r');
        }
    }
    text::lemma_span_is(s, Class::Line, n);
    assert(s.skip(n + 1) =~= rest@);
    if end.len() == 1 {
        assert(front =~= l);
    } else {
        assert(front.last() == '\r');
        assert(front.drop_last() =~= l);
    }
}

/// Joined texts stand one after another in their order, with the separator
/// between them and nowhere else.
pub proof fn law_joined_texts_are_separated(
    parts: Vec<String>,
    more: Vec<String>,
    sep: &str,
    a: String,
    b: String,
)
    requires
        more@.len() == parts@.len() + 1,
        more@.drop_last() == parts@,
        call_ensures(join, (&parts, sep), a),
        call_ensures(join, (&more, sep), b),
    ensures
        parts@.len() == 0 ==> b@ == more@.last()@,
        parts@.len() > 0 ==> b@ == a@ + sep@ + more@.last()@,
{
    assert(text::views(more@).drop_last() =~= text::views(parts@));
}

/// Only the letters from A to Z change when a text is put in lower case.
pub proof fn law_lower_case_keeps_the_rest(s: &str, r: String)
    requires
        call_ensures(to_lower, (s,), r),
    ensures
        r@.len() == s@.len(),
        forall|i: int| #![trigger r@[i]]
            0 <= i < s@.len() ==> r@[i] as int == if 'A' <= s@[i] <= 'Z' {
                s@[i] as int + 32
            } else {
                s@[i] as int
            },
{
}

} // verus!
