//! What two exposition texts say when they are joined by a line feed: the sums
//! of what each says.

use vstd::prelude::*;

use crate::collectors::common;
use crate::collectors::common::{Numeral, NumeralView, SampleView};
use crate::collectors::scrape;
use crate::collectors::scrape::{
    HistogramReading, HistogramReadingView, Reading, ReadingView, Scrape, ScrapeView,
};
use crate::collectors::{sglang, vllm};
use crate::exact;
use crate::exposition;
use crate::state;
use crate::state::{Arithmetic, BackendSnapshot, Histogram};
use crate::text;
use crate::text::Class;

verus! {

/// Two texts, one after the other, with a line feed between them.
pub open spec fn joined(a: Seq<char>, b: Seq<char>) -> Seq<char> {
    a.push('\n') + b
}

proof fn lemma_trim_space(s: Seq<char>, c: char)
    requires
        text::is_space(c),
    ensures
        text::trim(s.push(c)) == text::trim(s),
{
    let n = text::span(s, Class::Space) as int;
    let l = s.push(c);
    text::lemma_span(s, Class::Space);
    if n == s.len() {
        assert forall|i: int| 0 <= i < l.len() implies text::belongs(
            Class::Space,
            #[trigger] l.take(l.len() as int)[i],
        ) by {
            if i < n {
                assert(s.take(n)[i] == l[i]);
            }
        }
        text::lemma_span_is(l, Class::Space, l.len() as int);
        assert(l.skip(l.len() as int) =~= Seq::empty());
        assert(s.skip(n) =~= Seq::empty());
    } else {
        assert(l.take(n) =~= s.take(n));
        text::lemma_span_is(l, Class::Space, n);
        assert(l.skip(n) =~= s.skip(n).push(c));
        assert(l.skip(n).drop_last() =~= s.skip(n));
    }
}

proof fn lemma_return_ignored(line: Seq<char>)
    ensures
        common::sample_of(text::without_return(line)) == common::sample_of(line),
{
    if line.len() > 0 && line.last() == '\r' {
        lemma_trim_space(line.drop_last(), '\r');
        assert(line.drop_last().push('\r') =~= line);
    }
}

/// The samples of two joined texts are those of the one and those of the
/// other, in order.
pub proof fn law_joined_samples(a: Seq<char>, b: Seq<char>)
    ensures
        scrape::samples(joined(a, b)) == scrape::samples(a) + scrape::samples(b),
    decreases a.len(),
{
    let s = joined(a, b);
    let n = text::span(a, Class::Line) as int;
    text::lemma_span(a, Class::Line);
    assert(s.take(n) =~= a.take(n));
    assert(s[n] == '\n');
    text::lemma_span_is(s, Class::Line, n);
    if n < a.len() {
        let rest = a.skip(n + 1);
        assert(s.skip(n + 1) =~= joined(rest, b));
        law_joined_samples(rest, b);
        let first = seq![text::without_return(a.take(n))];
        exposition::lemma_samples_add(first, text::lines(joined(rest, b)));
        exposition::lemma_samples_add(first, text::lines(rest));
        assert(scrape::samples(s) =~= scrape::samples(a) + scrape::samples(b));
    } else {
        assert(s.skip(n + 1) =~= b);
        assert(a.take(n) =~= a);
        let first = seq![text::without_return(a)];
        exposition::lemma_samples_add(first, text::lines(b));
        lemma_return_ignored(a);
        assert(first.drop_last() =~= Seq::empty());
        assert(seq![a].drop_last() =~= Seq::empty());
        assert(scrape::samples_in(first.drop_last()) =~= Seq::empty());
        if a.len() == 0 {
            assert(text::trim(a).len() == 0);
            assert(common::sample_of(a) is None);
        }
        assert(scrape::samples_in(first) =~= scrape::samples(a));
    }
}

proof fn lemma_values_add(a: Seq<SampleView>, b: Seq<SampleView>, name: Seq<char>)
    ensures
        scrape::values_named(a + b, name) == scrape::values_named(a, name) + scrape::values_named(
            b,
            name,
        ),
    decreases b.len(),
{
    if b.len() == 0 {
        assert(a + b =~= a);
        assert(scrape::values_named(a, name) + scrape::values_named(b, name)
            =~= scrape::values_named(a, name));
    } else {
        assert((a + b).drop_last() =~= a + b.drop_last());
        lemma_values_add(a, b.drop_last(), name);
        assert(scrape::values_named(a + b, name) =~= scrape::values_named(a, name)
            + scrape::values_named(b, name));
    }
}

proof fn lemma_buckets_add(a: Seq<SampleView>, b: Seq<SampleView>, name: Seq<char>)
    ensures
        scrape::buckets_named(a + b, name) == scrape::buckets_named(a, name)
            + scrape::buckets_named(b, name),
    decreases b.len(),
{
    if b.len() == 0 {
        assert(a + b =~= a);
        assert(scrape::buckets_named(a, name) + scrape::buckets_named(b, name)
            =~= scrape::buckets_named(a, name));
    } else {
        assert((a + b).drop_last() =~= a + b.drop_last());
        lemma_buckets_add(a, b.drop_last(), name);
        assert(scrape::buckets_named(a + b, name) =~= scrape::buckets_named(a, name)
            + scrape::buckets_named(b, name));
    }
}

pub proof fn lemma_model_add(a: Seq<SampleView>, b: Seq<SampleView>)
    ensures
        scrape::model_named(a + b) == if scrape::model_named(a) is Some {
            scrape::model_named(a)
        } else {
            scrape::model_named(b)
        },
    decreases b.len(),
{
    if b.len() == 0 {
        assert(a + b =~= a);
    } else {
        assert((a + b).drop_last() =~= a + b.drop_last());
        lemma_model_add(a, b.drop_last());
    }
}

/// The addends of one reading, and those of another.
pub open spec fn both(a: ReadingView, b: ReadingView) -> ReadingView {
    match (a, b) {
        (ReadingView::Sum(x), ReadingView::Sum(y)) => ReadingView::Sum(x + y),
        _ => a,
    }
}

pub open spec fn both_histograms(
    a: HistogramReadingView,
    b: HistogramReadingView,
) -> HistogramReadingView {
    HistogramReadingView {
        count: a.count + b.count,
        sum: a.sum + b.sum,
        buckets: a.buckets + b.buckets,
    }
}

proof fn lemma_histograms_add(a: Seq<SampleView>, b: Seq<SampleView>, base: Seq<char>)
    ensures
        scrape::histogram_named(a + b, base) == both_histograms(
            scrape::histogram_named(a, base),
            scrape::histogram_named(b, base),
        ),
{
    lemma_values_add(a, b, base + "_count"@);
    lemma_values_add(a, b, base + "_sum"@);
    lemma_buckets_add(a, b, base + "_bucket"@);
}

/// `c` says what `a` and `b` say together: each series has the addends of
/// both, and the model is the first that is named.
pub open spec fn says_both(a: ScrapeView, b: ScrapeView, c: ScrapeView) -> bool {
    &&& c.model_name == if a.model_name is Some {
        a.model_name
    } else {
        b.model_name
    }
    &&& c.generation_tokens_total == both(a.generation_tokens_total, b.generation_tokens_total)
    &&& c.prompt_tokens_total == both(a.prompt_tokens_total, b.prompt_tokens_total)
    &&& c.prompt_tokens_cached_total == both(
        a.prompt_tokens_cached_total,
        b.prompt_tokens_cached_total,
    )
    &&& c.num_preemptions_total == both(a.num_preemptions_total, b.num_preemptions_total)
    &&& c.prefix_cache_hits_total == both(a.prefix_cache_hits_total, b.prefix_cache_hits_total)
    &&& c.prefix_cache_queries_total == both(
        a.prefix_cache_queries_total,
        b.prefix_cache_queries_total,
    )
    &&& c.request_success_total == both(a.request_success_total, b.request_success_total)
    &&& c.num_requests_running == both(a.num_requests_running, b.num_requests_running)
    &&& c.num_requests_waiting == both(a.num_requests_waiting, b.num_requests_waiting)
    &&& c.kv_cache_usage_perc == both(a.kv_cache_usage_perc, b.kv_cache_usage_perc)
    &&& c.ttft == both_histograms(a.ttft, b.ttft)
    &&& c.inter_token == both_histograms(a.inter_token, b.inter_token)
    &&& c.e2e == both_histograms(a.e2e, b.e2e)
    &&& c.queue_time == both_histograms(a.queue_time, b.queue_time)
    &&& c.req_prompt_tokens == both_histograms(a.req_prompt_tokens, b.req_prompt_tokens)
    &&& c.req_gen_tokens == both_histograms(a.req_gen_tokens, b.req_gen_tokens)
    &&& c.prefill_time == both_histograms(a.prefill_time, b.prefill_time)
    &&& c.decode_time == both_histograms(a.decode_time, b.decode_time)
}

/// Two joined vLLM texts say what both say together.
pub proof fn law_vllm_texts_join(a: Seq<char>, b: Seq<char>)
    ensures
        says_both(
            vllm::scrape_of(scrape::samples(a)),
            vllm::scrape_of(scrape::samples(b)),
            vllm::scrape_of(scrape::samples(joined(a, b))),
        ),
{
    let x = scrape::samples(a);
    let y = scrape::samples(b);
    law_joined_samples(a, b);
    lemma_model_add(x, y);
    lemma_values_add(x, y, "vllm:generation_tokens_total"@);
    lemma_values_add(x, y, "vllm:prompt_tokens_total"@);
    lemma_values_add(x, y, "vllm:prompt_tokens_cached_total"@);
    lemma_values_add(x, y, "vllm:num_preemptions_total"@);
    lemma_values_add(x, y, "vllm:prefix_cache_hits_total"@);
    lemma_values_add(x, y, "vllm:prefix_cache_queries_total"@);
    lemma_values_add(x, y, "vllm:request_success_total"@);
    lemma_values_add(x, y, "vllm:num_requests_running"@);
    lemma_values_add(x, y, "vllm:num_requests_waiting"@);
    lemma_values_add(x, y, "vllm:kv_cache_usage_perc"@);
    lemma_histograms_add(x, y, "vllm:time_to_first_token_seconds"@);
    lemma_histograms_add(x, y, "vllm:inter_token_latency_seconds"@);
    lemma_histograms_add(x, y, "vllm:e2e_request_latency_seconds"@);
    lemma_histograms_add(x, y, "vllm:request_queue_time_seconds"@);
    lemma_histograms_add(x, y, "vllm:request_prompt_tokens"@);
    lemma_histograms_add(x, y, "vllm:request_generation_tokens"@);
    lemma_histograms_add(x, y, "vllm:request_prefill_time_seconds"@);
    lemma_histograms_add(x, y, "vllm:request_decode_time_seconds"@);
}

/// The numbers in a text and the values that stand for them: `num` and `bound`
/// say which number a numeral stands for as a value and as a bound, and adding
/// is exact where the numbers are on the `grid` (of doubles: the whole numbers
/// up to the largest to which one can be added).
#[verifier::reject_recursive_types(F)]
pub ghost struct Numbers<F> {
    pub ok: spec_fn(F) -> bool,
    pub v: spec_fn(F) -> real,
    pub num: spec_fn(NumeralView) -> real,
    pub is_bound: spec_fn(NumeralView) -> bool,
    pub bound: spec_fn(NumeralView) -> real,
    pub grid: spec_fn(real) -> bool,
}

/// The arithmetic reads numerals as those numbers, orders their values, and
/// adds them exactly on the grid.
pub open spec fn reads<T: Arithmetic>(t: T, zero: T::F, m: Numbers<T::F>) -> bool {
    &&& exact::orders(t, m.ok, m.v)
    &&& (m.v)(zero) == 0real
    &&& forall|n: NumeralView, r: T::F| #[trigger]
        state::is_value(t, n, r) ==> (m.v)(r) == (m.num)(n)
    &&& forall|n: NumeralView, r: T::F|
        (m.is_bound)(n) && #[trigger] state::is_bound(t, n, r) ==> (m.ok)(r) && (m.v)(r)
            == (m.bound)(n)
    &&& forall|a: T::F, b: T::F, r: T::F|
        (m.grid)((m.v)(a)) && (m.grid)((m.v)(b)) && (m.grid)((m.v)(a) + (m.v)(b)) && #[trigger]
        call_ensures(T::plus, (&t, a, b), r) ==> (m.v)(r) == (m.v)(a) + (m.v)(b)
}

/// The sum of the addends.
pub open spec fn total(num: spec_fn(NumeralView) -> real, ns: Seq<NumeralView>) -> real
    decreases ns.len(),
{
    if ns.len() == 0 {
        0real
    } else {
        total(num, ns.drop_last()) + num(ns.last())
    }
}

/// The addends and their running sums are on the grid.
pub open spec fn sums_on_grid<F>(m: Numbers<F>, ns: Seq<NumeralView>) -> bool {
    &&& forall|i: int| 0 <= i < ns.len() ==> (m.grid)((m.num)(#[trigger] ns[i]))
    &&& forall|i: int| 0 <= i <= ns.len() ==> (m.grid)(total(m.num, #[trigger] ns.take(i)))
}

/// The sum of the addends of the buckets with the bound `x`.
pub open spec fn bucket_total<F>(
    m: Numbers<F>,
    bs: Seq<(NumeralView, NumeralView)>,
    x: real,
) -> real
    decreases bs.len(),
{
    if bs.len() == 0 {
        0real
    } else {
        bucket_total(m, bs.drop_last(), x) + if (m.bound)(bs.last().0) == x {
            (m.num)(bs.last().1)
        } else {
            0real
        }
    }
}

/// The bounds are bounds, and the addends of the buckets and their running sums
/// are on the grid.
pub open spec fn buckets_on_grid<F>(m: Numbers<F>, bs: Seq<(NumeralView, NumeralView)>) -> bool {
    &&& forall|i: int|
        0 <= i < bs.len() ==> (m.is_bound)((#[trigger] bs[i]).0) && (m.grid)((m.num)(bs[i].1))
    &&& forall|i: int, x: real|
        0 <= i <= bs.len() ==> (m.grid)(#[trigger] bucket_total(m, bs.take(i), x))
}

pub open spec fn reading_on_grid<F>(m: Numbers<F>, r: ReadingView) -> bool {
    r matches ReadingView::Sum(ns) && sums_on_grid(m, ns)
}

pub open spec fn histogram_on_grid<F>(m: Numbers<F>, h: HistogramReadingView) -> bool {
    sums_on_grid(m, h.count) && sums_on_grid(m, h.sum) && buckets_on_grid(m, h.buckets)
}

/// Everything that is summed is on the grid.
pub open spec fn scrape_on_grid<F>(m: Numbers<F>, s: ScrapeView) -> bool {
    &&& reading_on_grid(m, s.generation_tokens_total)
    &&& reading_on_grid(m, s.prompt_tokens_total)
    &&& reading_on_grid(m, s.prompt_tokens_cached_total)
    &&& reading_on_grid(m, s.num_preemptions_total)
    &&& reading_on_grid(m, s.prefix_cache_hits_total)
    &&& reading_on_grid(m, s.prefix_cache_queries_total)
    &&& reading_on_grid(m, s.request_success_total)
    &&& reading_on_grid(m, s.num_requests_running)
    &&& reading_on_grid(m, s.num_requests_waiting)
    &&& reading_on_grid(m, s.kv_cache_usage_perc)
    &&& histogram_on_grid(m, s.ttft)
    &&& histogram_on_grid(m, s.inter_token)
    &&& histogram_on_grid(m, s.e2e)
    &&& histogram_on_grid(m, s.queue_time)
    &&& histogram_on_grid(m, s.req_prompt_tokens)
    &&& histogram_on_grid(m, s.req_gen_tokens)
    &&& histogram_on_grid(m, s.prefill_time)
    &&& histogram_on_grid(m, s.decode_time)
}

proof fn lemma_total_add(
    num: spec_fn(NumeralView) -> real,
    a: Seq<NumeralView>,
    b: Seq<NumeralView>,
)
    ensures
        total(num, a + b) == total(num, a) + total(num, b),
    decreases b.len(),
{
    if b.len() == 0 {
        assert(a + b =~= a);
    } else {
        assert((a + b).drop_last() =~= a + b.drop_last());
        lemma_total_add(num, a, b.drop_last());
    }
}

proof fn lemma_bucket_total_add<F>(
    m: Numbers<F>,
    a: Seq<(NumeralView, NumeralView)>,
    b: Seq<(NumeralView, NumeralView)>,
    x: real,
)
    ensures
        bucket_total(m, a + b, x) == bucket_total(m, a, x) + bucket_total(m, b, x),
    decreases b.len(),
{
    if b.len() == 0 {
        assert(a + b =~= a);
    } else {
        assert((a + b).drop_last() =~= a + b.drop_last());
        lemma_bucket_total_add(m, a, b.drop_last(), x);
    }
}

proof fn lemma_sum_steps<T: Arithmetic>(
    t: T,
    zero: T::F,
    m: Numbers<T::F>,
    ns: Seq<Numeral>,
    steps: Seq<T::F>,
    i: int,
)
    requires
        reads(t, zero, m),
        sums_on_grid(m, scrape::numeral_views(ns)),
        state::sum_steps(t, zero, ns, steps),
        0 <= i <= ns.len(),
    ensures
        (m.v)(steps[i]) == total(m.num, scrape::numeral_views(ns).take(i)),
    decreases i,
{
    let vs = scrape::numeral_views(ns);
    if i > 0 {
        lemma_sum_steps(t, zero, m, ns, steps, i - 1);
        assert(state::sum_step(t, steps[i - 1], ns[i - 1], steps[i - 1 + 1]));
        assert(vs.take(i).drop_last() =~= vs.take(i - 1));
        assert(vs.take(i).last() == vs[i - 1]);
        assert(vs[i - 1] == ns[i - 1]@);
        assert((m.grid)((m.num)(vs[i - 1])));
        assert((m.grid)(total(m.num, vs.take(i - 1))));
        assert((m.grid)(total(m.num, vs.take(i))));
    }
}

proof fn lemma_summed<T: Arithmetic>(
    t: T,
    zero: T::F,
    m: Numbers<T::F>,
    ns: Seq<Numeral>,
    r: T::F,
)
    requires
        reads(t, zero, m),
        sums_on_grid(m, scrape::numeral_views(ns)),
        state::summed(t, zero, ns, r),
    ensures
        (m.v)(r) == total(m.num, scrape::numeral_views(ns)),
{
    let steps = choose|steps: Seq<T::F>| #[trigger]
        state::sum_steps(t, zero, ns, steps) && r == steps.last();
    lemma_sum_steps(t, zero, m, ns, steps, ns.len() as int);
    let vs = scrape::numeral_views(ns);
    assert(vs.take(ns.len() as int) =~= vs);
}

proof fn lemma_readings_add<T: Arithmetic>(
    t: T,
    zero: T::F,
    m: Numbers<T::F>,
    a: Reading,
    b: Reading,
    c: Reading,
    x: T::F,
    y: T::F,
    z: T::F,
)
    requires
        reads(t, zero, m),
        reading_on_grid(m, a@),
        reading_on_grid(m, b@),
        reading_on_grid(m, c@),
        c@ == both(a@, b@),
        state::read_as(t, zero, a, x),
        state::read_as(t, zero, b, y),
        state::read_as(t, zero, c, z),
    ensures
        (m.v)(z) == (m.v)(x) + (m.v)(y),
{
    if let (Reading::Sum(p), Reading::Sum(q), Reading::Sum(r)) = (a, b, c) {
        lemma_summed(t, zero, m, p@, x);
        lemma_summed(t, zero, m, q@, y);
        lemma_summed(t, zero, m, r@, z);
        lemma_total_add(m.num, scrape::numeral_views(p@), scrape::numeral_views(q@));
    }
}

/// The buckets hold the totals of the addends.
spec fn holds_totals<F>(
    m: Numbers<F>,
    buckets: Seq<(F, F)>,
    bs: Seq<(NumeralView, NumeralView)>,
) -> bool {
    &&& exact::ascend(buckets, m.ok, m.v)
    &&& forall|j: int|
        0 <= j < buckets.len() ==> (m.v)((#[trigger] buckets[j]).1) == bucket_total(
            m,
            bs,
            (m.v)(buckets[j].0),
        )
    &&& forall|x: real|
        !(#[trigger] exact::has_bound(buckets, m.v, x)) ==> bucket_total(m, bs, x) == 0real
}

proof fn lemma_bucket_steps<T: Arithmetic>(
    t: T,
    zero: T::F,
    m: Numbers<T::F>,
    bs: Seq<(Numeral, Numeral)>,
    steps: Seq<Seq<(T::F, T::F)>>,
    i: int,
)
    requires
        reads(t, zero, m),
        buckets_on_grid(m, scrape::bucket_views(bs)),
        state::bucket_steps(t, bs, steps),
        0 <= i <= bs.len(),
    ensures
        holds_totals(m, steps[i], scrape::bucket_views(bs).take(i)),
    decreases i,
{
    let vs = scrape::bucket_views(bs);
    if i > 0 {
        lemma_bucket_steps(t, zero, m, bs, steps, i - 1);
        let before = steps[i - 1];
        let after = steps[i - 1 + 1];
        let b = bs[i - 1];
        assert(state::bucket_step(t, before, b, after));
        let (le, n) = choose|le: T::F, n: T::F| #[trigger]
            state::is_bound(t, b.0@, le) && #[trigger] state::is_value(t, b.1@, n)
                && state::bucket_added(t, before, le, n, after);
        assert(vs[i - 1] == (b.0@, b.1@));
        assert((m.is_bound)(vs[i - 1].0) && (m.grid)((m.num)(vs[i - 1].1)));
        let was = vs.take(i - 1);
        let now = vs.take(i);
        assert(now.drop_last() =~= was);
        assert(now.last() == vs[i - 1]);
        let x = (m.v)(le);
        assert(forall|y: real| #[trigger]
            bucket_total(m, now, y) == bucket_total(m, was, y) + if x == y {
                (m.num)(b.1@)
            } else {
                0real
            });
        assert((m.grid)(bucket_total(m, was, x)) && (m.grid)(bucket_total(m, now, x)));
        let at = exact::lemma_added(t, m.ok, m.v, before, le, n, after);
        exact::law_buckets_strictly_ascend(t, m.ok, m.v, before, le, n, after);
        assert forall|j: int| 0 <= j < after.len() implies (m.v)((#[trigger] after[j]).1)
            == bucket_total(m, now, (m.v)(after[j].0)) by {
            if exact::has_bound(before, m.v, x) {
                assert((m.v)(before[j].1) == bucket_total(m, was, (m.v)(before[j].0)));
                if j < at {
                    assert((m.v)(after[j].0) < (m.v)(after[at].0));
                } else if at < j {
                    assert((m.v)(after[at].0) < (m.v)(after[j].0));
                }
            } else {
                if j == at {
                    assert(after[j] == (le, n));
                } else {
                    let from = if j < at {
                        j
                    } else {
                        j - 1
                    };
                    assert(after[j] == before[from]);
                    assert((m.v)(before[from].1) == bucket_total(
                        m,
                        was,
                        (m.v)(before[from].0),
                    ));
                }
            }
        }
        assert forall|y: real| !(#[trigger] exact::has_bound(after, m.v, y)) implies bucket_total(
            m,
            now,
            y,
        ) == 0real by {
            assert(!exact::has_bound(before, m.v, y) && y != x);
        }
    } else {
        assert(vs.take(0) =~= Seq::empty());
    }
}

proof fn lemma_bucket_count<T: Arithmetic>(
    t: T,
    zero: T::F,
    m: Numbers<T::F>,
    h: HistogramReading,
    r: Histogram<T::F>,
    k: T::F,
    x: T::F,
)
    requires
        reads(t, zero, m),
        histogram_on_grid(m, h@),
        state::histogram_read_as(t, zero, h, r),
        (m.ok)(k),
        state::counts(t, zero, r, k, x),
    ensures
        (m.v)(x) == bucket_total(m, h@.buckets, (m.v)(k)),
{
    let steps = choose|steps: Seq<Seq<(T::F, T::F)>>| #[trigger]
        state::bucket_steps(t, h.buckets@, steps) && r.buckets@ == steps.last();
    let n = h.buckets@.len() as int;
    lemma_bucket_steps(t, zero, m, h.buckets@, steps, n);
    assert(h@.buckets.take(n) =~= h@.buckets);
    let p = r.buckets@;
    let i = choose|i: int| #[trigger]
        state::found_at(t, p, k, i) && x == if i < p.len() {
            p[i].1
        } else {
            zero
        };
    exact::lemma_found(t, m.ok, m.v, p, k, i);
    if i < p.len() {
        assert((m.v)(p[i].1) == bucket_total(m, h@.buckets, (m.v)(p[i].0)));
    }
}

/// Count, sum and what is found at every bound of `c` are the sums of those of
/// `a` and `b`.
pub open spec fn histograms_add<T: Arithmetic>(
    t: T,
    zero: T::F,
    m: Numbers<T::F>,
    a: Histogram<T::F>,
    b: Histogram<T::F>,
    c: Histogram<T::F>,
) -> bool {
    &&& (m.v)(c.count) == (m.v)(a.count) + (m.v)(b.count)
    &&& (m.v)(c.sum) == (m.v)(a.sum) + (m.v)(b.sum)
    &&& forall|k: T::F, x: T::F, y: T::F, z: T::F|
        (m.ok)(k) && #[trigger] state::counts(t, zero, a, k, x) && #[trigger] state::counts(
            t,
            zero,
            b,
            k,
            y,
        ) && #[trigger] state::counts(t, zero, c, k, z) ==> (m.v)(z) == (m.v)(x) + (m.v)(y)
}

proof fn lemma_read_histograms_add<T: Arithmetic>(
    t: T,
    zero: T::F,
    m: Numbers<T::F>,
    a: HistogramReading,
    b: HistogramReading,
    c: HistogramReading,
    x: Histogram<T::F>,
    y: Histogram<T::F>,
    z: Histogram<T::F>,
)
    requires
        reads(t, zero, m),
        histogram_on_grid(m, a@),
        histogram_on_grid(m, b@),
        histogram_on_grid(m, c@),
        c@ == both_histograms(a@, b@),
        state::histogram_read_as(t, zero, a, x),
        state::histogram_read_as(t, zero, b, y),
        state::histogram_read_as(t, zero, c, z),
    ensures
        histograms_add(t, zero, m, x, y, z),
{
    lemma_summed(t, zero, m, a.count@, x.count);
    lemma_summed(t, zero, m, b.count@, y.count);
    lemma_summed(t, zero, m, c.count@, z.count);
    lemma_total_add(m.num, a@.count, b@.count);
    lemma_summed(t, zero, m, a.sum@, x.sum);
    lemma_summed(t, zero, m, b.sum@, y.sum);
    lemma_summed(t, zero, m, c.sum@, z.sum);
    lemma_total_add(m.num, a@.sum, b@.sum);
    assert forall|k: T::F, p: T::F, q: T::F, r: T::F|
        (m.ok)(k) && #[trigger] state::counts(t, zero, x, k, p) && #[trigger] state::counts(
            t,
            zero,
            y,
            k,
            q,
        ) && #[trigger] state::counts(t, zero, z, k, r) implies (m.v)(r) == (m.v)(p) + (m.v)(
        q,
    ) by {
        lemma_bucket_count(t, zero, m, a, x, k, p);
        lemma_bucket_count(t, zero, m, b, y, k, q);
        lemma_bucket_count(t, zero, m, c, z, k, r);
        lemma_bucket_total_add(m, a@.buckets, b@.buckets, (m.v)(k));
    }
}

/// Every scalar and every histogram of `c` is the sum of those of `a` and `b`.
pub open spec fn snapshots_add<T: Arithmetic>(
    t: T,
    zero: T::F,
    m: Numbers<T::F>,
    a: BackendSnapshot<T::F>,
    b: BackendSnapshot<T::F>,
    c: BackendSnapshot<T::F>,
) -> bool {
    &&& (m.v)(c.generation_tokens_total) == (m.v)(a.generation_tokens_total)
        + (m.v)(b.generation_tokens_total)
    &&& (m.v)(c.prompt_tokens_total) == (m.v)(a.prompt_tokens_total) + (m.v)(b.prompt_tokens_total)
    &&& (m.v)(c.prompt_tokens_cached_total) == (m.v)(a.prompt_tokens_cached_total)
        + (m.v)(b.prompt_tokens_cached_total)
    &&& (m.v)(c.num_preemptions_total) == (m.v)(a.num_preemptions_total)
        + (m.v)(b.num_preemptions_total)
    &&& (m.v)(c.prefix_cache_hits_total) == (m.v)(a.prefix_cache_hits_total)
        + (m.v)(b.prefix_cache_hits_total)
    &&& (m.v)(c.prefix_cache_queries_total) == (m.v)(a.prefix_cache_queries_total)
        + (m.v)(b.prefix_cache_queries_total)
    &&& (m.v)(c.request_success_total) == (m.v)(a.request_success_total)
        + (m.v)(b.request_success_total)
    &&& (m.v)(c.num_requests_running) == (m.v)(a.num_requests_running)
        + (m.v)(b.num_requests_running)
    &&& (m.v)(c.num_requests_waiting) == (m.v)(a.num_requests_waiting)
        + (m.v)(b.num_requests_waiting)
    &&& (m.v)(c.kv_cache_usage_perc) == (m.v)(a.kv_cache_usage_perc) + (m.v)(b.kv_cache_usage_perc)
    &&& histograms_add(t, zero, m, a.ttft, b.ttft, c.ttft)
    &&& histograms_add(t, zero, m, a.inter_token, b.inter_token, c.inter_token)
    &&& histograms_add(t, zero, m, a.e2e, b.e2e, c.e2e)
    &&& histograms_add(t, zero, m, a.queue_time, b.queue_time, c.queue_time)
    &&& histograms_add(t, zero, m, a.req_prompt_tokens, b.req_prompt_tokens, c.req_prompt_tokens)
    &&& histograms_add(t, zero, m, a.req_gen_tokens, b.req_gen_tokens, c.req_gen_tokens)
    &&& histograms_add(t, zero, m, a.prefill_time, b.prefill_time, c.prefill_time)
    &&& histograms_add(t, zero, m, a.decode_time, b.decode_time, c.decode_time)
}

/// What two joined vLLM texts say in numbers is the sum of what each says; so
/// the order of the lines makes no difference to it.
pub proof fn law_vllm_numbers_add<T: Arithmetic>(
    t: T,
    zero: T::F,
    m: Numbers<T::F>,
    a: Seq<char>,
    b: Seq<char>,
    p: Scrape,
    q: Scrape,
    r: Scrape,
    x: BackendSnapshot<T::F>,
    y: BackendSnapshot<T::F>,
    z: BackendSnapshot<T::F>,
)
    requires
        reads(t, zero, m),
        p@ == vllm::scrape_of(scrape::samples(a)),
        q@ == vllm::scrape_of(scrape::samples(b)),
        r@ == vllm::scrape_of(scrape::samples(joined(a, b))),
        scrape_on_grid(m, p@),
        scrape_on_grid(m, q@),
        scrape_on_grid(m, r@),
        state::evaluated(t, zero, p, x),
        state::evaluated(t, zero, q, y),
        state::evaluated(t, zero, r, z),
    ensures
        snapshots_add(t, zero, m, x, y, z),
        scrape::text_view(z.model_name) == if x.model_name is Some {
            scrape::text_view(x.model_name)
        } else {
            scrape::text_view(y.model_name)
        },
{
    law_vllm_texts_join(a, b);
    lemma_readings_add(
        t,
        zero,
        m,
        p.generation_tokens_total,
        q.generation_tokens_total,
        r.generation_tokens_total,
        x.generation_tokens_total,
        y.generation_tokens_total,
        z.generation_tokens_total,
    );
    lemma_readings_add(
        t,
        zero,
        m,
        p.prompt_tokens_total,
        q.prompt_tokens_total,
        r.prompt_tokens_total,
        x.prompt_tokens_total,
        y.prompt_tokens_total,
        z.prompt_tokens_total,
    );
    lemma_readings_add(
        t,
        zero,
        m,
        p.prompt_tokens_cached_total,
        q.prompt_tokens_cached_total,
        r.prompt_tokens_cached_total,
        x.prompt_tokens_cached_total,
        y.prompt_tokens_cached_total,
        z.prompt_tokens_cached_total,
    );
    lemma_readings_add(
        t,
        zero,
        m,
        p.num_preemptions_total,
        q.num_preemptions_total,
        r.num_preemptions_total,
        x.num_preemptions_total,
        y.num_preemptions_total,
        z.num_preemptions_total,
    );
    lemma_readings_add(
        t,
        zero,
        m,
        p.prefix_cache_hits_total,
        q.prefix_cache_hits_total,
        r.prefix_cache_hits_total,
        x.prefix_cache_hits_total,
        y.prefix_cache_hits_total,
        z.prefix_cache_hits_total,
    );
    lemma_readings_add(
        t,
        zero,
        m,
        p.prefix_cache_queries_total,
        q.prefix_cache_queries_total,
        r.prefix_cache_queries_total,
        x.prefix_cache_queries_total,
        y.prefix_cache_queries_total,
        z.prefix_cache_queries_total,
    );
    lemma_readings_add(
        t,
        zero,
        m,
        p.request_success_total,
        q.request_success_total,
        r.request_success_total,
        x.request_success_total,
        y.request_success_total,
        z.request_success_total,
    );
    lemma_readings_add(
        t,
        zero,
        m,
        p.num_requests_running,
        q.num_requests_running,
        r.num_requests_running,
        x.num_requests_running,
        y.num_requests_running,
        z.num_requests_running,
    );
    lemma_readings_add(
        t,
        zero,
        m,
        p.num_requests_waiting,
        q.num_requests_waiting,
        r.num_requests_waiting,
        x.num_requests_waiting,
        y.num_requests_waiting,
        z.num_requests_waiting,
    );
    lemma_readings_add(
        t,
        zero,
        m,
        p.kv_cache_usage_perc,
        q.kv_cache_usage_perc,
        r.kv_cache_usage_perc,
        x.kv_cache_usage_perc,
        y.kv_cache_usage_perc,
        z.kv_cache_usage_perc,
    );
    lemma_read_histograms_add(t, zero, m, p.ttft, q.ttft, r.ttft, x.ttft, y.ttft, z.ttft);
    lemma_read_histograms_add(
        t,
        zero,
        m,
        p.inter_token,
        q.inter_token,
        r.inter_token,
        x.inter_token,
        y.inter_token,
        z.inter_token,
    );
    lemma_read_histograms_add(t, zero, m, p.e2e, q.e2e, r.e2e, x.e2e, y.e2e, z.e2e);
    lemma_read_histograms_add(
        t,
        zero,
        m,
        p.queue_time,
        q.queue_time,
        r.queue_time,
        x.queue_time,
        y.queue_time,
        z.queue_time,
    );
    lemma_read_histograms_add(
        t,
        zero,
        m,
        p.req_prompt_tokens,
        q.req_prompt_tokens,
        r.req_prompt_tokens,
        x.req_prompt_tokens,
        y.req_prompt_tokens,
        z.req_prompt_tokens,
    );
    lemma_read_histograms_add(
        t,
        zero,
        m,
        p.req_gen_tokens,
        q.req_gen_tokens,
        r.req_gen_tokens,
        x.req_gen_tokens,
        y.req_gen_tokens,
        z.req_gen_tokens,
    );
    lemma_read_histograms_add(
        t,
        zero,
        m,
        p.prefill_time,
        q.prefill_time,
        r.prefill_time,
        x.prefill_time,
        y.prefill_time,
        z.prefill_time,
    );
    lemma_read_histograms_add(
        t,
        zero,
        m,
        p.decode_time,
        q.decode_time,
        r.decode_time,
        x.decode_time,
        y.decode_time,
        z.decode_time,
    );
}

/// Two joined SGLang texts say what both say together: each token count, each
/// number of requests and each histogram has the addends of both, the model is
/// the first that is named, and the hit rate the last that is given.
pub proof fn law_sgl_texts_join(a: Seq<char>, b: Seq<char>)
    ensures
        sgl_says_both(
            sglang::scrape_of(scrape::samples(a)),
            sglang::scrape_of(scrape::samples(b)),
            sglang::scrape_of(scrape::samples(joined(a, b))),
        ),
{
    let x = scrape::samples(a);
    let y = scrape::samples(b);
    law_joined_samples(a, b);
    lemma_model_add(x, y);
    lemma_last_add(x, y, "sglang:cache_hit_rate"@);
    lemma_last_add(x, y, "process_start_time_seconds"@);
    lemma_values_add(x, y, "sglang:prompt_tokens_total"@);
    lemma_values_add(x, y, "sglang:generation_tokens_total"@);
    lemma_values_add(x, y, "sglang:num_running_reqs"@);
    lemma_values_add(x, y, "sglang:num_queue_reqs"@);
    lemma_histograms_add(x, y, "sglang:time_to_first_token_seconds"@);
    lemma_histograms_add(x, y, "sglang:e2e_request_latency_seconds"@);
    lemma_histograms_add(x, y, "sglang:time_per_output_token_seconds"@);
}

/// A later value takes the place of an earlier one.
pub open spec fn later<A>(a: Option<A>, b: Option<A>) -> Option<A> {
    if b is Some {
        b
    } else {
        a
    }
}

pub open spec fn sgl_says_both(a: ScrapeView, b: ScrapeView, c: ScrapeView) -> bool {
    &&& c.model_name == if a.model_name is Some {
        a.model_name
    } else {
        b.model_name
    }
    &&& c.process_start_time == later(a.process_start_time, b.process_start_time)
    &&& c.prefix_cache_hits_total == if b.prefix_cache_hits_total is Value {
        b.prefix_cache_hits_total
    } else {
        a.prefix_cache_hits_total
    }
    &&& c.prompt_tokens_total == both(a.prompt_tokens_total, b.prompt_tokens_total)
    &&& c.generation_tokens_total == both(a.generation_tokens_total, b.generation_tokens_total)
    &&& c.num_requests_running == both(a.num_requests_running, b.num_requests_running)
    &&& c.num_requests_waiting == both(a.num_requests_waiting, b.num_requests_waiting)
    &&& c.ttft == both_histograms(a.ttft, b.ttft)
    &&& c.inter_token == both_histograms(a.inter_token, b.inter_token)
    &&& c.e2e == both_histograms(a.e2e, b.e2e)
}

proof fn lemma_last_add(a: Seq<SampleView>, b: Seq<SampleView>, name: Seq<char>)
    ensures
        scrape::last_named(a + b, name) == later(
            scrape::last_named(a, name),
            scrape::last_named(b, name),
        ),
    decreases b.len(),
{
    if b.len() == 0 {
        assert(a + b =~= a);
    } else {
        assert((a + b).drop_last() =~= a + b.drop_last());
        lemma_last_add(a, b.drop_last(), name);
    }
}

/// Everything that is summed of an SGLang text is on the grid.
pub open spec fn sgl_on_grid<F>(m: Numbers<F>, s: ScrapeView) -> bool {
    &&& reading_on_grid(m, s.prompt_tokens_total)
    &&& reading_on_grid(m, s.generation_tokens_total)
    &&& reading_on_grid(m, s.num_requests_running)
    &&& reading_on_grid(m, s.num_requests_waiting)
    &&& histogram_on_grid(m, s.ttft)
    &&& histogram_on_grid(m, s.inter_token)
    &&& histogram_on_grid(m, s.e2e)
}

/// Token counts, numbers of requests and histograms of `c` are the sums of
/// those of `a` and `b`.
pub open spec fn sgl_snapshots_add<T: Arithmetic>(
    t: T,
    zero: T::F,
    m: Numbers<T::F>,
    a: BackendSnapshot<T::F>,
    b: BackendSnapshot<T::F>,
    c: BackendSnapshot<T::F>,
) -> bool {
    &&& (m.v)(c.prompt_tokens_total) == (m.v)(a.prompt_tokens_total) + (m.v)(b.prompt_tokens_total)
    &&& (m.v)(c.generation_tokens_total) == (m.v)(a.generation_tokens_total) + (m.v)(
        b.generation_tokens_total,
    )
    &&& (m.v)(c.num_requests_running) == (m.v)(a.num_requests_running) + (m.v)(
        b.num_requests_running,
    )
    &&& (m.v)(c.num_requests_waiting) == (m.v)(a.num_requests_waiting) + (m.v)(
        b.num_requests_waiting,
    )
    &&& histograms_add(t, zero, m, a.ttft, b.ttft, c.ttft)
    &&& histograms_add(t, zero, m, a.inter_token, b.inter_token, c.inter_token)
    &&& histograms_add(t, zero, m, a.e2e, b.e2e, c.e2e)
}

/// What two joined SGLang texts say in numbers is the sum of what each says, as
/// the texts of two ranks of one server.
pub proof fn law_sgl_numbers_add<T: Arithmetic>(
    t: T,
    zero: T::F,
    m: Numbers<T::F>,
    a: Seq<char>,
    b: Seq<char>,
    p: Scrape,
    q: Scrape,
    r: Scrape,
    x: BackendSnapshot<T::F>,
    y: BackendSnapshot<T::F>,
    z: BackendSnapshot<T::F>,
)
    requires
        reads(t, zero, m),
        p@ == sglang::scrape_of(scrape::samples(a)),
        q@ == sglang::scrape_of(scrape::samples(b)),
        r@ == sglang::scrape_of(scrape::samples(joined(a, b))),
        sgl_on_grid(m, p@),
        sgl_on_grid(m, q@),
        sgl_on_grid(m, r@),
        state::evaluated(t, zero, p, x),
        state::evaluated(t, zero, q, y),
        state::evaluated(t, zero, r, z),
    ensures
        sgl_snapshots_add(t, zero, m, x, y, z),
{
    law_sgl_texts_join(a, b);
    lemma_readings_add(
        t,
        zero,
        m,
        p.prompt_tokens_total,
        q.prompt_tokens_total,
        r.prompt_tokens_total,
        x.prompt_tokens_total,
        y.prompt_tokens_total,
        z.prompt_tokens_total,
    );
    lemma_readings_add(
        t,
        zero,
        m,
        p.generation_tokens_total,
        q.generation_tokens_total,
        r.generation_tokens_total,
        x.generation_tokens_total,
        y.generation_tokens_total,
        z.generation_tokens_total,
    );
    lemma_readings_add(
        t,
        zero,
        m,
        p.num_requests_running,
        q.num_requests_running,
        r.num_requests_running,
        x.num_requests_running,
        y.num_requests_running,
        z.num_requests_running,
    );
    lemma_readings_add(
        t,
        zero,
        m,
        p.num_requests_waiting,
        q.num_requests_waiting,
        r.num_requests_waiting,
        x.num_requests_waiting,
        y.num_requests_waiting,
        z.num_requests_waiting,
    );
    lemma_read_histograms_add(t, zero, m, p.ttft, q.ttft, r.ttft, x.ttft, y.ttft, z.ttft);
    lemma_read_histograms_add(
        t,
        zero,
        m,
        p.inter_token,
        q.inter_token,
        r.inter_token,
        x.inter_token,
        y.inter_token,
        z.inter_token,
    );
    lemma_read_histograms_add(t, zero, m, p.e2e, q.e2e, r.e2e, x.e2e, y.e2e, z.e2e);
}

} // verus!
