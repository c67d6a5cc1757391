//! Cumulative histograms, and their exposition.

use vstd::prelude::*;

use crate::exposition;
use crate::exposition::{put_heading, put_sample};
use crate::state::Arithmetic;
use crate::text;
use crate::text::decimal_text;

verus! {

/// A count stays here once it gets here: the largest whole number to which a
/// double-precision count can be raised in steps of one.
pub const LARGEST_COUNT: u64 = 9007199254740992;

pub open spec fn bumped(n: u64) -> u64 {
    if n < LARGEST_COUNT {
        (n + 1) as u64
    } else {
        n
    }
}

fn bump(n: u64) -> (r: u64)
    ensures
        r == bumped(n),
{
    if n < LARGEST_COUNT {
        n + 1
    } else {
        n
    }
}

/// One cumulative histogram. Bucket `i` counts the values up to bound `i`;
/// the last bucket has no bound and counts every value.
pub struct HistAcc<F> {
    pub bounds: Vec<F>,
    pub buckets: Vec<u64>,
    pub sum: F,
    pub count: u64,
}

/// How one value moves a bucket: it counts where it is within the bound.
pub open spec fn counted<T: Arithmetic>(
    t: T,
    value: T::F,
    bound: T::F,
    before: u64,
    after: u64,
) -> bool {
    exists|within: bool| #[trigger]
        call_ensures(T::at_most, (&t, value, bound), within) && after == if within {
            bumped(before)
        } else {
            before
        }
}

/// `after` is `before` with the value `v` in it.
pub open spec fn taken_in<T: Arithmetic>(
    t: T,
    before: HistAcc<T::F>,
    after: HistAcc<T::F>,
    v: T::F,
) -> bool {
    &&& after.wf()
    &&& after.bounds == before.bounds
    &&& after.count == bumped(before.count)
    &&& call_ensures(T::plus, (&t, before.sum, v), after.sum)
    &&& forall|i: int|
        0 <= i < before.bounds@.len() ==> counted(
            t,
            v,
            before.bounds@[i],
            before.buckets@[i],
            #[trigger] after.buckets@[i],
        )
}

/// `after` is `before` with one more value in it; a negative value counts as
/// zero.
pub open spec fn observed<T: Arithmetic>(
    t: T,
    zero: T::F,
    before: HistAcc<T::F>,
    after: HistAcc<T::F>,
    value: T::F,
) -> bool {
    exists|v: T::F| #[trigger]
        call_ensures(T::larger, (&t, value, zero), v) && taken_in(t, before, after, v)
}

/// Floating-point values as text.
pub trait Spelling: Arithmetic {
    fn is_nan(&self, a: Self::F) -> bool;

    /// The shortest decimal without an exponent that reads back as a finite
    /// value; a whole number has no decimal point.
    fn plain(&self, a: Self::F) -> String;
}

/// Digits, with a minus sign before them or not.
pub open spec fn is_whole_text(s: Seq<char>) -> bool {
    if s.len() > 0 && s[0] == '-' {
        is_digits(s.skip(1))
    } else {
        is_digits(s)
    }
}

/// One digit or more.
pub open spec fn is_digits(s: Seq<char>) -> bool {
    &&& s.len() > 0
    &&& forall|i: int| 0 <= i < s.len() ==> '0' <= #[trigger] s[i] <= '9'
}

/// A plain decimal with a point: a minus sign or none, digits, the point,
/// digits.
pub open spec fn is_decimal_text(s: Seq<char>) -> bool {
    exists|i: int|
        0 <= i < s.len() && #[trigger] s[i] == '.' && is_whole_text(s.take(i)) && is_digits(
            s.skip(i + 1),
        )
}

/// A decimal with its point: a whole number gets one.
pub open spec fn with_point(s: Seq<char>) -> Seq<char> {
    if s.contains('.') {
        s
    } else {
        s + ".0"@
    }
}

fn put_point(s: String) -> (r: String)
    ensures
        r@ == with_point(s@),
{
    let v = text::chars_of(s.as_str());
    for i in 0..v.len()
        invariant
            v@ == s@,
            forall|j: int| 0 <= j < i ==> #[trigger] v@[j] != '.',
    {
        if v[i] == '.' {
            assert(s@.contains(v@[i as int]));
            return s;
        }
    }
    assert(!s@.contains('.'));
    s.concat(".0")
}

/// Finite values are spelled plainly: as a minus sign or none, digits, and a
/// point with digits or none.
pub open spec fn spells_plainly<T: Spelling>(t: T) -> bool {
    forall|a: T::F, s: String| #[trigger]
        call_ensures(T::plain, (&t, a), s) && call_ensures(T::is_nan, (&t, a), false)
            && call_ensures(T::is_infinite, (&t, a), false) ==> is_whole_text(s@)
            || is_decimal_text(s@)
}

/// `s` is how the exposition text spells a value: a plain decimal, or a word
/// where the value is no finite number.
pub open spec fn is_token<T: Spelling>(t: T, zero: T::F, v: T::F, s: Seq<char>) -> bool {
    exists|nan: bool, inf: bool, up: bool, plain: String| #[trigger]
        call_ensures(T::is_nan, (&t, v), nan) && #[trigger] call_ensures(
            T::is_infinite,
            (&t, v),
            inf,
        ) && #[trigger] call_ensures(T::under, (&t, zero, v), up) && (nan || inf || #[trigger]
        call_ensures(T::plain, (&t, v), plain)) && s == if nan {
            "NaN"@
        } else if inf {
            if up {
                "+Inf"@
            } else {
                "-Inf"@
            }
        } else {
            with_point(plain@)
        }
}

/// Format a value the way Prometheus exposition text expects (plain decimal,
/// never `inf`/`nan` literals for finite values).
pub fn fmt_f64<T: Spelling>(t: &T, zero: T::F, v: T::F) -> (r: String)
    ensures
        is_token(*t, zero, v, r@),
        spells_plainly(*t) ==> r@ == "NaN"@ || r@ == "+Inf"@ || r@ == "-Inf"@ || is_decimal_text(
            r@,
        ),
{
    let nan = t.is_nan(v);
    let inf = t.is_infinite(v);
    let up = t.under(zero, v);
    let plain = t.plain(v);
    assert(call_ensures(T::is_nan, (t, v), nan));
    assert(call_ensures(T::is_infinite, (t, v), inf));
    assert(call_ensures(T::under, (t, zero, v), up));
    assert(call_ensures(T::plain, (t, v), plain));
    proof {
        if spells_plainly(*t) && !nan && !inf {
            lemma_with_point(plain@);
        }
    }
    if nan {
        "NaN".to_owned()
    } else if inf {
        if up {
            "+Inf".to_owned()
        } else {
            "-Inf".to_owned()
        }
    } else {
        put_point(plain)
    }
}

proof fn lemma_with_point(s: Seq<char>)
    requires
        is_whole_text(s) || is_decimal_text(s),
    ensures
        is_decimal_text(with_point(s)),
{
    reveal_strlit(".0");
    if s.contains('.') {
        if is_whole_text(s) {
            let i = choose|i: int| 0 <= i < s.len() && s[i] == '.';
            if s[0] == '-' {
                assert(s.skip(1)[i - 1] == '.');
            }
            assert(false);
        }
    } else {
        if is_decimal_text(s) {
            let i = choose|i: int|
                0 <= i < s.len() && #[trigger] s[i] == '.' && is_whole_text(s.take(i)) && is_digits(
                    s.skip(i + 1),
                );
            assert(s.contains(s[i]));
        }
        let r = s + ".0"@;
        assert(r[s.len() as int] == '.');
        assert(r.take(s.len() as int) =~= s);
        assert(r.skip(s.len() as int + 1) =~= seq!['0']);
    }
}

/// A finite value is spelled as a plain decimal with a point; the other values
/// are words.
pub proof fn law_tokens_are_decimals<T: Spelling>(t: T, zero: T::F, v: T::F, s: Seq<char>)
    requires
        spells_plainly(t),
        is_token(t, zero, v, s),
        forall|r: bool| #[trigger] call_ensures(T::is_nan, (&t, v), r) ==> !r,
        forall|r: bool| #[trigger] call_ensures(T::is_infinite, (&t, v), r) ==> !r,
    ensures
        is_decimal_text(s),
{
    let plain = choose|plain: String| #[trigger]
        call_ensures(T::plain, (&t, v), plain) && s == with_point(plain@) && call_ensures(
            T::is_nan,
            (&t, v),
            false,
        ) && call_ensures(T::is_infinite, (&t, v), false);
    lemma_with_point(plain@);
}

/// The numbers of a histogram are spelled in another: the sum as a value, the
/// bounds plainly.
pub open spec fn spelled<T: Spelling>(
    t: T,
    zero: T::F,
    h: HistAcc<T::F>,
    s: HistAcc<String>,
) -> bool {
    &&& s.wf()
    &&& s.buckets@ == h.buckets@
    &&& s.count == h.count
    &&& s.bounds@.len() == h.bounds@.len()
    &&& is_token(t, zero, h.sum, s.sum@)
    &&& forall|i: int|
        0 <= i < s.bounds@.len() ==> call_ensures(
            T::plain,
            (&t, h.bounds@[i]),
            #[trigger] s.bounds@[i],
        )
}

impl<F> HistAcc<F> {
    /// There is one bucket more than bounds; the last one equals the count,
    /// and none is over it.
    pub open spec fn wf(&self) -> bool {
        &&& self.buckets@.len() == self.bounds@.len() + 1
        &&& self.buckets@.last() == self.count
        &&& forall|i: int|
            0 <= i < self.buckets@.len() ==> #[trigger] self.buckets@[i] <= self.count
        &&& self.count <= LARGEST_COUNT
    }

    /// A histogram without values; `zero` is the sum of none.
    pub fn new(bounds: Vec<F>, zero: F) -> (r: HistAcc<F>)
        requires
            bounds@.len() < usize::MAX,
        ensures
            r.wf(),
            r.bounds == bounds,
            r.sum == zero,
            r.count == 0,
            forall|i: int| 0 <= i < r.buckets@.len() ==> #[trigger] r.buckets@[i] == 0,
    {
        let n = bounds.len();
        let mut buckets: Vec<u64> = Vec::new();
        for i in 0..n + 1
            invariant
                buckets@.len() == i,
                n < usize::MAX,
                forall|j: int| 0 <= j < i ==> #[trigger] buckets@[j] == 0,
        {
            buckets.push(0);
        }
        HistAcc { bounds, buckets, sum: zero, count: 0 }
    }
}

impl<F: Copy> HistAcc<F> {
    /// Observe a single sample: increment every bucket whose bound is at least
    /// the value, plus the bucket without a bound; add to the sum and the
    /// count.
    pub fn observe<T: Arithmetic<F = F>>(&mut self, t: &T, zero: F, value: F)
        requires
            old(self).wf(),
        ensures
            final(self).wf(),
            observed(*t, zero, *old(self), *final(self), value),
    {
        let v = t.larger(value, zero);
        assert(call_ensures(T::larger, (t, value, zero), v));
        let n = self.bounds.len();
        let ghost before = *self;
        for i in 0..n
            invariant
                n == before.bounds@.len(),
                before.wf(),
                self.bounds == before.bounds,
                self.sum == before.sum,
                self.count == before.count,
                self.buckets@.len() == n + 1,
                forall|j: int| i <= j <= n ==> #[trigger] self.buckets@[j] == before.buckets@[j],
                forall|j: int|
                    0 <= j < i ==> counted(
                        *t,
                        v,
                        before.bounds@[j],
                        before.buckets@[j],
                        #[trigger] self.buckets@[j],
                    ),
        {
            let within = t.at_most(v, self.bounds[i]);
            assert(call_ensures(T::at_most, (t, v, before.bounds@[i as int]), within));
            if within {
                let b = bump(self.buckets[i]);
                self.buckets.set(i, b);
            }
        }
        let last = bump(self.buckets[n]);
        self.buckets.set(n, last);
        self.sum = t.plus(self.sum, v);
        self.count = bump(self.count);
        assert(taken_in(*t, before, *self, v));
    }

    /// The same histogram with its numbers as texts.
    pub fn texts<T: Spelling<F = F>>(&self, t: &T, zero: F) -> (r: HistAcc<String>)
        requires
            self.wf(),
        ensures
            spelled(*t, zero, *self, r),
    {
        let mut bounds: Vec<String> = Vec::new();
        for i in 0..self.bounds.len()
            invariant
                bounds@.len() == i,
                forall|j: int|
                    0 <= j < i ==> call_ensures(
                        T::plain,
                        (t, self.bounds@[j]),
                        #[trigger] bounds@[j],
                    ),
        {
            bounds.push(t.plain(self.bounds[i]));
        }
        let mut buckets: Vec<u64> = Vec::new();
        for i in 0..self.buckets.len()
            invariant
                buckets@ == self.buckets@.take(i as int),
        {
            buckets.push(self.buckets[i]);
        }
        assert(self.buckets@.take(self.buckets@.len() as int) =~= self.buckets@);
        HistAcc { bounds, buckets, sum: fmt_f64(t, zero, self.sum), count: self.count }
    }
}

/// No bucket counts more than a later one.
pub open spec fn is_cumulative<F>(h: HistAcc<F>) -> bool {
    forall|i: int, j: int|
        0 <= i < j < h.buckets@.len() ==> #[trigger] h.buckets@[i] <= #[trigger] h.buckets@[j]
}

/// Where the bounds ascend (what is within one is within every later one), the
/// counts are cumulative, whatever is taken in.
pub proof fn law_counts_stay_cumulative<T: Arithmetic>(
    t: T,
    within: spec_fn(T::F, T::F) -> bool,
    before: HistAcc<T::F>,
    after: HistAcc<T::F>,
    v: T::F,
)
    requires
        before.wf(),
        is_cumulative(before),
        taken_in(t, before, after, v),
        forall|b: T::F, r: bool| #[trigger]
            call_ensures(T::at_most, (&t, v, b), r) ==> r == within(v, b),
        forall|i: int, j: int|
            0 <= i < j < before.bounds@.len() && within(v, #[trigger] before.bounds@[i]) ==> within(
                v,
                #[trigger] before.bounds@[j],
            ),
    ensures
        is_cumulative(after),
{
    let n = before.bounds@.len() as int;
    assert(after.buckets@.len() == n + 1);
    assert(before.buckets@[n] == before.count);
    assert forall|i: int, j: int| 0 <= i < j < after.buckets@.len() implies (#[trigger]
    after.buckets@[i]) <= (#[trigger] after.buckets@[j]) by {
        assert(counted(t, v, before.bounds@[i], before.buckets@[i], after.buckets@[i]));
        assert(before.buckets@[i] <= before.buckets@[j]);
        if j < n {
            assert(counted(t, v, before.bounds@[j], before.buckets@[j], after.buckets@[j]));
        } else {
            assert(after.buckets@[n] == after.count);
        }
    }
}

/// How many of the values are within the bound.
pub open spec fn count_within<F>(
    within: spec_fn(F, F) -> bool,
    vs: Seq<F>,
    bound: F,
) -> nat
    decreases vs.len(),
{
    if vs.len() == 0 {
        0
    } else {
        count_within(within, vs.drop_last(), bound) + if within(vs.last(), bound) {
            1nat
        } else {
            0nat
        }
    }
}

/// The sum of the numbers that the values stand for.
pub open spec fn sum_of<F>(v: spec_fn(F) -> real, vs: Seq<F>) -> real
    decreases vs.len(),
{
    if vs.len() == 0 {
        0real
    } else {
        sum_of(v, vs.drop_last()) + v(vs.last())
    }
}

/// The states of a histogram that starts without values and observes the given
/// ones, in order.
pub open spec fn is_course<T: Arithmetic>(
    t: T,
    zero: T::F,
    hs: Seq<HistAcc<T::F>>,
    values: Seq<T::F>,
) -> bool {
    &&& hs.len() == values.len() + 1
    &&& hs[0].wf() && hs[0].sum == zero && hs[0].count == 0
    &&& forall|i: int| 0 <= i < hs[0].buckets@.len() ==> #[trigger] hs[0].buckets@[i] == 0
    &&& forall|i: int|
        0 <= i < values.len() ==> observed(t, zero, hs[i], hs[i + 1], #[trigger] values[i])
}

/// After any observations the histogram counts them all, and each bucket those
/// up to its bound, a negative value as zero.
pub proof fn law_buckets_count_values<T: Arithmetic>(
    t: T,
    zero: T::F,
    clip: spec_fn(T::F) -> T::F,
    within: spec_fn(T::F, T::F) -> bool,
    hs: Seq<HistAcc<T::F>>,
    values: Seq<T::F>,
)
    requires
        is_course(t, zero, hs, values),
        values.len() <= LARGEST_COUNT,
        forall|a: T::F, r: T::F| #[trigger]
            call_ensures(T::larger, (&t, a, zero), r) ==> r == clip(a),
        forall|a: T::F, b: T::F, r: bool| #[trigger]
            call_ensures(T::at_most, (&t, a, b), r) ==> r == within(a, b),
    ensures
        hs.last().wf(),
        hs.last().bounds == hs[0].bounds,
        hs.last().count == values.len(),
        hs.last().buckets@.last() == values.len(),
        forall|i: int|
            0 <= i < hs[0].bounds@.len() ==> #[trigger] hs.last().buckets@[i] == count_within(
                within,
                values.map_values(clip),
                hs[0].bounds@[i],
            ),
    decreases values.len(),
{
    let vs = values.map_values(clip);
    if values.len() > 0 {
        let front = values.drop_last();
        let states = hs.drop_last();
        assert forall|i: int| 0 <= i < front.len() implies observed(
            t,
            zero,
            states[i],
            states[i + 1],
            #[trigger] front[i],
        ) by {
            assert(front[i] == values[i]);
        }
        law_buckets_count_values(t, zero, clip, within, states, front);
        let n = values.len() - 1;
        let last = values[n];
        let before = hs[n];
        let after = hs[n + 1];
        assert(states.last() == before);
        assert(observed(t, zero, before, after, last));
        let v = choose|v: T::F| #[trigger]
            call_ensures(T::larger, (&t, last, zero), v) && taken_in(t, before, after, v);
        assert(v == clip(last));
        assert(vs.drop_last() =~= front.map_values(clip));
        assert(vs.last() == v);
        assert forall|i: int| 0 <= i < hs[0].bounds@.len() implies #[trigger] after.buckets@[i]
            == count_within(within, vs, hs[0].bounds@[i]) by {
            assert(counted(t, v, before.bounds@[i], before.buckets@[i], after.buckets@[i]));
            assert(before.buckets@[i] == count_within(within, vs.drop_last(), hs[0].bounds@[i]));
            assert(before.buckets@[i] <= before.count);
        }
    }
}

/// Where adding is exact, the sum of a histogram is the sum of what it
/// observed, a negative value as zero.
pub proof fn law_sum_adds_values<T: Arithmetic>(
    t: T,
    zero: T::F,
    clip: spec_fn(T::F) -> T::F,
    v: spec_fn(T::F) -> real,
    hs: Seq<HistAcc<T::F>>,
    values: Seq<T::F>,
)
    requires
        is_course(t, zero, hs, values),
        v(zero) == 0real,
        forall|a: T::F, r: T::F| #[trigger]
            call_ensures(T::larger, (&t, a, zero), r) ==> r == clip(a),
        forall|a: T::F, b: T::F, r: T::F| #[trigger]
            call_ensures(T::plus, (&t, a, b), r) ==> v(r) == v(a) + v(b),
    ensures
        v(hs.last().sum) == sum_of(v, values.map_values(clip)),
    decreases values.len(),
{
    let vs = values.map_values(clip);
    if values.len() > 0 {
        let front = values.drop_last();
        let states = hs.drop_last();
        assert forall|i: int| 0 <= i < front.len() implies observed(
            t,
            zero,
            states[i],
            states[i + 1],
            #[trigger] front[i],
        ) by {
            assert(front[i] == values[i]);
        }
        law_sum_adds_values(t, zero, clip, v, states, front);
        let n = values.len() - 1;
        assert(observed(t, zero, hs[n], hs[n + 1], values[n]));
        assert(vs.drop_last() =~= front.map_values(clip));
        assert(vs.last() == clip(values[n]));
    }
}

/// A count as the exposition text spells it.
pub open spec fn count_token(n: u64) -> Seq<char> {
    text::decimal(n as nat) + ".0"@
}

/// The text of the bound of bucket `i`.
pub open spec fn bound_text(h: HistAcc<String>, i: int) -> Seq<char> {
    if i < h.bounds@.len() {
        h.bounds@[i]@
    } else {
        "+Inf"@
    }
}

/// The labels of bucket `i`: those in `front`, the bound and the model.
pub open spec fn bucket_labels(
    h: HistAcc<String>,
    front: Seq<(Seq<char>, Seq<char>)>,
    model: Seq<char>,
    i: int,
) -> Seq<(Seq<char>, Seq<char>)> {
    front + seq![("le"@, bound_text(h, i)), ("model_name"@, model)]
}

pub open spec fn plain_labels(front: Seq<(Seq<char>, Seq<char>)>, model: Seq<char>) -> Seq<
    (Seq<char>, Seq<char>),
> {
    front + seq![("model_name"@, model)]
}

pub open spec fn bucket_line(
    h: HistAcc<String>,
    base: Seq<char>,
    front: Seq<(Seq<char>, Seq<char>)>,
    model: Seq<char>,
    i: int,
) -> Seq<char> {
    exposition::sample_line(
        base + "_bucket"@,
        bucket_labels(h, front, model, i),
        count_token(h.buckets@[i]),
    )
}

/// The lines of the first `n` buckets.
pub open spec fn bucket_lines(
    h: HistAcc<String>,
    base: Seq<char>,
    front: Seq<(Seq<char>, Seq<char>)>,
    model: Seq<char>,
    n: nat,
) -> Seq<Seq<char>> {
    Seq::new(n, |i: int| bucket_line(h, base, front, model, i))
}

/// The lines of a histogram: its heading, its buckets, its count and its sum.
pub open spec fn histogram_lines(
    h: HistAcc<String>,
    base: Seq<char>,
    help: Seq<char>,
    front: Seq<(Seq<char>, Seq<char>)>,
    model: Seq<char>,
) -> Seq<Seq<char>> {
    seq![exposition::help_line(base, help), exposition::type_line(base, "histogram"@)]
        + bucket_lines(h, base, front, model, h.buckets@.len()) + seq![
        exposition::sample_line(
            base + "_count"@,
            plain_labels(front, model),
            count_token(h.count),
        ),
        exposition::sample_line(base + "_sum"@, plain_labels(front, model), h.sum@),
    ]
}

fn count_text(n: u64) -> (r: String)
    ensures
        r@ == count_token(n),
{
    decimal_text(n).concat(".0")
}

/// The labels before the bound: those of the engine, where there is one.
fn labels_with<'a>(engine: bool, le: Option<&'a str>, model: &'a str) -> (r: Vec<
    (&'a str, &'a str),
>)
    ensures
        exposition::slice_labels(r@) == front_labels(engine) + (match le {
            Some(b) => seq![("le"@, b@), ("model_name"@, model@)],
            None => seq![("model_name"@, model@)],
        }),
{
    let mut r: Vec<(&'a str, &'a str)> = Vec::new();
    if engine {
        r.push(("engine", "0"));
    }
    match le {
        Some(b) => {
            r.push(("le", b));
        },
        None => {},
    }
    r.push(("model_name", model));
    assert(exposition::slice_labels(r@) =~= front_labels(engine) + (match le {
        Some(b) => seq![("le"@, b@), ("model_name"@, model@)],
        None => seq![("model_name"@, model@)],
    }));
    r
}

/// The labels that stand before all others: vLLM numbers its engines.
pub open spec fn front_labels(engine: bool) -> Seq<(Seq<char>, Seq<char>)> {
    if engine {
        seq![("engine"@, "0"@)]
    } else {
        Seq::empty()
    }
}

impl HistAcc<String> {
    fn render_with(&self, out: &mut String, base: &str, help: &str, engine: bool, model: &str)
        requires
            self.wf(),
        ensures
            final(out)@ == old(out)@ + exposition::unlines(
                histogram_lines(*self, base@, help@, front_labels(engine), model@),
            ),
    {
        let ghost front = front_labels(engine);
        let ghost heading = seq![
            exposition::help_line(base@, help@),
            exposition::type_line(base@, "histogram"@),
        ];
        let ghost start = out@;
        put_heading(out, base, help, "histogram");
        let bucket_name = base.to_owned().concat("_bucket");
        assert(heading + bucket_lines(*self, base@, front, model@, 0) =~= heading);
        for i in 0..self.buckets.len()
            invariant
                self.wf(),
                bucket_name@ == base@ + "_bucket"@,
                front == front_labels(engine),
                out@ == start + exposition::unlines(
                    heading + bucket_lines(*self, base@, front, model@, i as nat),
                ),
        {
            let le = if i < self.bounds.len() {
                self.bounds[i].as_str()
            } else {
                "+Inf"
            };
            let labels = labels_with(engine, Some(le), model);
            let count = count_text(self.buckets[i]);
            put_sample(out, bucket_name.as_str(), &labels, count.as_str());
            proof {
                let before = heading + bucket_lines(*self, base@, front, model@, i as nat);
                let line = seq![bucket_line(*self, base@, front, model@, i as int)];
                exposition::lemma_unlines_add(before, line);
                assert(before + line =~= heading + bucket_lines(
                    *self,
                    base@,
                    front,
                    model@,
                    (i + 1) as nat,
                ));
                assert(out@ =~= start + exposition::unlines(before + line));
            }
        }
        let labels = labels_with(engine, None, model);
        let count_name = base.to_owned().concat("_count");
        let sum_name = base.to_owned().concat("_sum");
        let count = count_text(self.count);
        put_sample(out, count_name.as_str(), &labels, count.as_str());
        put_sample(out, sum_name.as_str(), &labels, self.sum.as_str());
        proof {
            let before = heading + bucket_lines(*self, base@, front, model@, self.buckets@.len());
            let c = seq![
                exposition::sample_line(
                    base@ + "_count"@,
                    plain_labels(front, model@),
                    count_token(self.count),
                ),
            ];
            let s = seq![
                exposition::sample_line(
                    base@ + "_sum"@,
                    plain_labels(front, model@),
                    self.sum@,
                ),
            ];
            exposition::lemma_unlines_add(before, c);
            exposition::lemma_unlines_add(before + c, s);
            assert(before + c + s =~= histogram_lines(*self, base@, help@, front, model@));
            assert(out@ =~= start + exposition::unlines(before + c + s));
        }
    }

    /// Appends the exposition of a vLLM histogram.
    pub fn render(&self, out: &mut String, base: &str, help: &str, model: &str)
        requires
            self.wf(),
        ensures
            final(out)@ == old(out)@ + exposition::unlines(
                histogram_lines(*self, base@, help@, front_labels(true), model@),
            ),
    {
        self.render_with(out, base, help, true, model);
    }

    /// Appends the exposition of an SGLang histogram: without an `engine`
    /// label, and with `le` first.
    pub fn render_sgl(&self, out: &mut String, base: &str, help: &str, model: &str)
        requires
            self.wf(),
        ensures
            final(out)@ == old(out)@ + exposition::unlines(
                histogram_lines(*self, base@, help@, front_labels(false), model@),
            ),
    {
        self.render_with(out, base, help, false, model);
    }
}

} // verus!
