//! What the series of a history mean: the number that each of them, by its
//! name, shows of two snapshots.

use vstd::prelude::*;

use crate::exact;
use crate::state;
use crate::state::{Arithmetic, BackendSnapshot, Histogram, Snapshot, SERIES_COUNT};

verus! {

/// No two series share a name, and the thirteen names are these.
pub proof fn law_names_are_distinct()
    ensures
        SERIES_COUNT == 13,
        forall|i: int, j: int|
            0 <= i < j < SERIES_COUNT ==> #[trigger] state::series_name(i)
                != #[trigger] state::series_name(j),
{
    lemma_literals();
    assert forall|i: int, j: int| 0 <= i < j < SERIES_COUNT implies #[trigger] state::series_name(i)
        != #[trigger] state::series_name(j) by {
        let a = state::series_name(i);
        let b = state::series_name(j);
        if a.len() == b.len() {
            assert(a[0] != b[0] || a[1] != b[1] || a[4] != b[4]);
        }
    }
}

proof fn lemma_literals()
    ensures
        "gen_tok_s"@ =~= seq!['g', 'e', 'n', '_', 't', 'o', 'k', '_', 's'],
        "prompt_tok_s"@ =~= seq!['p', 'r', 'o', 'm', 'p', 't', '_', 't', 'o', 'k', '_', 's'],
        "running"@ =~= seq!['r', 'u', 'n', 'n', 'i', 'n', 'g'],
        "waiting"@ =~= seq!['w', 'a', 'i', 't', 'i', 'n', 'g'],
        "kv_cache"@ =~= seq!['k', 'v', '_', 'c', 'a', 'c', 'h', 'e'],
        "ttft"@ =~= seq!['t', 't', 'f', 't'],
        "tpot"@ =~= seq!['t', 'p', 'o', 't'],
        "e2e"@ =~= seq!['e', '2', 'e'],
        "queue_time"@ =~= seq!['q', 'u', 'e', 'u', 'e', '_', 't', 'i', 'm', 'e'],
        "req_prompt_tok"@ =~= seq![
            'r', 'e', 'q', '_', 'p', 'r', 'o', 'm', 'p', 't', '_', 't', 'o', 'k',
        ],
        "req_gen_tok"@ =~= seq!['r', 'e', 'q', '_', 'g', 'e', 'n', '_', 't', 'o', 'k'],
        "req_prefill"@ =~= seq!['r', 'e', 'q', '_', 'p', 'r', 'e', 'f', 'i', 'l', 'l'],
        "req_decode"@ =~= seq!['r', 'e', 'q', '_', 'd', 'e', 'c', 'o', 'd', 'e'],
{
    reveal_strlit("gen_tok_s");
    reveal_strlit("prompt_tok_s");
    reveal_strlit("running");
    reveal_strlit("waiting");
    reveal_strlit("kv_cache");
    reveal_strlit("ttft");
    reveal_strlit("tpot");
    reveal_strlit("e2e");
    reveal_strlit("queue_time");
    reveal_strlit("req_prompt_tok");
    reveal_strlit("req_gen_tok");
    reveal_strlit("req_prefill");
    reveal_strlit("req_decode");
}

/// A name finds one series only.
pub proof fn law_names_find_one(name: Seq<char>, i: int, k: int)
    requires
        state::names_series(name, i),
        0 <= k < SERIES_COUNT,
        state::series_name(k) == name,
    ensures
        i == k,
{
    law_names_are_distinct();
}

/// The series that there are.
pub open spec fn is_series(name: Seq<char>) -> bool {
    ||| name == "gen_tok_s"@
    ||| name == "prompt_tok_s"@
    ||| name == "running"@
    ||| name == "waiting"@
    ||| name == "kv_cache"@
    ||| name == "ttft"@
    ||| name == "tpot"@
    ||| name == "e2e"@
    ||| name == "queue_time"@
    ||| name == "req_prompt_tok"@
    ||| name == "req_gen_tok"@
    ||| name == "req_prefill"@
    ||| name == "req_decode"@
}

/// Just the series that there are are found by their names.
pub proof fn law_series_are_found(name: Seq<char>, i: int)
    requires
        state::names_series(name, i),
    ensures
        i < SERIES_COUNT <==> is_series(name),
{
    lemma_places();
    if is_series(name) && i == SERIES_COUNT {
        assert(exists|k: int| 0 <= k < SERIES_COUNT && #[trigger] state::series_name(k) == name);
    }
}

/// Where a series stands.
pub proof fn lemma_place_of(name: Seq<char>) -> (i: int)
    requires
        is_series(name),
    ensures
        state::names_series(name, i),
        0 <= i < SERIES_COUNT,
{
    lemma_places();
    law_names_are_distinct();
    let i = choose|k: int| 0 <= k < SERIES_COUNT && #[trigger] state::series_name(k) == name;
    assert(exists|k: int| 0 <= k < SERIES_COUNT && #[trigger] state::series_name(k) == name);
    i
}

/// How much a counter grew in a second, between two readings that are `seconds`
/// apart. A counter that fell was reset.
pub open spec fn per_second(before: real, after: real, seconds: real) -> real {
    if seconds > 0real && after >= before {
        (after - before) / seconds
    } else {
        0real
    }
}

/// The mean of what a histogram took in between two readings.
pub open spec fn recent_mean<F>(
    v: spec_fn(F) -> real,
    before: Histogram<F>,
    after: Histogram<F>,
) -> real {
    if v(after.count) > v(before.count) && v(after.sum) >= v(before.sum) {
        (v(after.sum) - v(before.sum)) / (v(after.count) - v(before.count))
    } else {
        0real
    }
}

/// The mean of what a histogram took in between two readings, or the mean of
/// all it holds where that was nothing.
pub open spec fn steady_mean<F>(
    v: spec_fn(F) -> real,
    before: Histogram<F>,
    after: Histogram<F>,
) -> real {
    if v(after.count) > v(before.count) && v(after.sum) >= v(before.sum) {
        recent_mean(v, before, after)
    } else if v(after.count) > 0real {
        v(after.sum) / v(after.count)
    } else {
        0real
    }
}

/// What the series of the given name shows of two readings of a server that
/// was reached both times, `seconds` apart.
pub open spec fn shown<F>(
    v: spec_fn(F) -> real,
    name: Seq<char>,
    p: BackendSnapshot<F>,
    c: BackendSnapshot<F>,
    seconds: real,
    x: real,
) -> bool {
    &&& name == "gen_tok_s"@ ==> x == per_second(
        v(p.generation_tokens_total),
        v(c.generation_tokens_total),
        seconds,
    )
    &&& name == "prompt_tok_s"@ ==> x == per_second(
        v(p.prompt_tokens_total),
        v(c.prompt_tokens_total),
        seconds,
    )
    &&& name == "ttft"@ ==> x == recent_mean(v, p.ttft, c.ttft)
    &&& name == "tpot"@ ==> x == recent_mean(v, p.inter_token, c.inter_token)
    &&& name == "e2e"@ ==> x == recent_mean(v, p.e2e, c.e2e)
    &&& name == "queue_time"@ ==> x == recent_mean(v, p.queue_time, c.queue_time)
    &&& name == "req_prompt_tok"@ ==> x == steady_mean(v, p.req_prompt_tokens, c.req_prompt_tokens)
    &&& name == "req_gen_tok"@ ==> x == steady_mean(v, p.req_gen_tokens, c.req_gen_tokens)
    &&& name == "req_prefill"@ ==> x == steady_mean(v, p.prefill_time, c.prefill_time)
    &&& name == "req_decode"@ ==> x == steady_mean(v, p.decode_time, c.decode_time)
}

/// What the series of a gauge shows of a reading; the KV cache is in percent.
pub open spec fn gauged<F>(
    v: spec_fn(F) -> real,
    name: Seq<char>,
    c: BackendSnapshot<F>,
    x: real,
) -> bool {
    &&& name == "running"@ ==> x == v(c.num_requests_running)
    &&& name == "waiting"@ ==> x == v(c.num_requests_waiting)
    &&& name == "kv_cache"@ ==> x == v(c.kv_cache_usage_perc) * 100real
}

pub open spec fn is_gauge(name: Seq<char>) -> bool {
    name == "running"@ || name == "waiting"@ || name == "kv_cache"@
}

/// Each series, by its name, shows its own metric: a rate of its counter, a mean
/// of its histogram, or its gauge. Without two readings of a reachable server
/// all but the gauges are zero.
pub proof fn law_series_show_their_metric<T: Arithmetic>(
    t: T,
    v: spec_fn(T::F) -> real,
    zero: T::F,
    prev: Option<Snapshot<T::F>>,
    cur: Snapshot<T::F>,
    d: Seq<T::F>,
    name: Seq<char>,
    i: int,
)
    requires
        exact::is_exact(t, v),
        v(zero) == 0real,
        state::derived_from(t, zero, prev, cur, d),
        state::names_series(name, i),
        i < SERIES_COUNT,
    ensures
        gauged(v, name, cur.backend, v(d[i])),
        prev matches Some(p) ==> (p.backend.reachable && cur.backend.reachable ==> shown(
            v,
            name,
            p.backend,
            cur.backend,
            v(cur.monotonic) - v(p.monotonic),
            v(d[i]),
        )),
        !(prev is Some && prev.unwrap().backend.reachable && cur.backend.reachable) && !is_gauge(
            name,
        ) ==> v(d[i]) == 0real,
{
    law_names_are_distinct();
    lemma_places();
    let c = cur.backend;
    lemma_product(t, v, c.kv_cache_usage_perc, 100, d[4]);
    if prev is Some && prev.unwrap().backend.reachable && c.reachable {
        let p = prev.unwrap().backend;
        let (pt, ct) = (prev.unwrap().monotonic, cur.monotonic);
        lemma_rate(
            t,
            v,
            zero,
            p.generation_tokens_total,
            pt,
            c.generation_tokens_total,
            ct,
            d[0],
        );
        lemma_rate(t, v, zero, p.prompt_tokens_total, pt, c.prompt_tokens_total, ct, d[1]);
        lemma_recent(t, v, zero, p.ttft, c.ttft, d[5]);
        lemma_recent(t, v, zero, p.inter_token, c.inter_token, d[6]);
        lemma_recent(t, v, zero, p.e2e, c.e2e, d[7]);
        lemma_recent(t, v, zero, p.queue_time, c.queue_time, d[8]);
        lemma_steady(t, v, zero, p.req_prompt_tokens, c.req_prompt_tokens, d[9]);
        lemma_steady(t, v, zero, p.req_gen_tokens, c.req_gen_tokens, d[10]);
        lemma_steady(t, v, zero, p.prefill_time, c.prefill_time, d[11]);
        lemma_steady(t, v, zero, p.decode_time, c.decode_time, d[12]);
    }
}

/// Where the series with each name stands.
proof fn lemma_places()
    ensures
        state::series_name(0) == "gen_tok_s"@,
        state::series_name(1) == "prompt_tok_s"@,
        state::series_name(2) == "running"@,
        state::series_name(3) == "waiting"@,
        state::series_name(4) == "kv_cache"@,
        state::series_name(5) == "ttft"@,
        state::series_name(6) == "tpot"@,
        state::series_name(7) == "e2e"@,
        state::series_name(8) == "queue_time"@,
        state::series_name(9) == "req_prompt_tok"@,
        state::series_name(10) == "req_gen_tok"@,
        state::series_name(11) == "req_prefill"@,
        state::series_name(12) == "req_decode"@,
{
}

pub proof fn lemma_product<T: Arithmetic>(
    t: T,
    v: spec_fn(T::F) -> real,
    a: T::F,
    n: i64,
    r: T::F,
)
    requires
        exact::is_exact(t, v),
        state::is_product(t, a, n, r),
    ensures
        v(r) == v(a) * (n as real),
{
}

/// A rate times the time is what the counter grew by; there is none without
/// time, and none where the counter fell.
pub proof fn law_rate_times_time_is_growth<T: Arithmetic>(
    t: T,
    v: spec_fn(T::F) -> real,
    zero: T::F,
    before: T::F,
    from: T::F,
    after: T::F,
    to: T::F,
    r: T::F,
)
    requires
        exact::is_exact(t, v),
        v(zero) == 0real,
        state::is_rate(t, zero, before, from, after, to, r),
    ensures
        v(to) > v(from) && v(after) >= v(before) ==> v(r) * (v(to) - v(from)) == v(after) - v(
            before,
        ),
        v(to) <= v(from) || v(after) < v(before) ==> v(r) == 0real,
{
    lemma_rate(t, v, zero, before, from, after, to, r);
    let a = v(after) - v(before);
    let b = v(to) - v(from);
    if b > 0real {
        assert(a / b * b == a) by (nonlinear_arith)
            requires
                b > 0real,
        ;
    }
}

pub proof fn lemma_rate<T: Arithmetic>(
    t: T,
    v: spec_fn(T::F) -> real,
    zero: T::F,
    before: T::F,
    from: T::F,
    after: T::F,
    to: T::F,
    r: T::F,
)
    requires
        exact::is_exact(t, v),
        v(zero) == 0real,
        state::is_rate(t, zero, before, from, after, to, r),
    ensures
        v(r) == per_second(v(before), v(after), v(to) - v(from)),
{
}

pub proof fn lemma_recent<T: Arithmetic>(
    t: T,
    v: spec_fn(T::F) -> real,
    zero: T::F,
    before: Histogram<T::F>,
    after: Histogram<T::F>,
    r: T::F,
)
    requires
        exact::is_exact(t, v),
        v(zero) == 0real,
        state::is_recent_average(t, zero, before, after, r),
    ensures
        v(r) == recent_mean(v, before, after),
{
}

pub proof fn lemma_steady<T: Arithmetic>(
    t: T,
    v: spec_fn(T::F) -> real,
    zero: T::F,
    before: Histogram<T::F>,
    after: Histogram<T::F>,
    r: T::F,
)
    requires
        exact::is_exact(t, v),
        v(zero) == 0real,
        state::is_average(t, zero, before, after, r),
    ensures
        v(r) == steady_mean(v, before, after),
{
}

/// The mean of what a histogram took in, times how much it took in, is what its
/// sum grew by.
pub proof fn law_recent_mean_times_count<T: Arithmetic>(
    t: T,
    v: spec_fn(T::F) -> real,
    zero: T::F,
    before: Histogram<T::F>,
    after: Histogram<T::F>,
    recent: T::F,
    steady: T::F,
)
    requires
        exact::is_exact(t, v),
        v(zero) == 0real,
        state::is_recent_average(t, zero, before, after, recent),
        state::is_average(t, zero, before, after, steady),
        v(after.count) > v(before.count),
        v(after.sum) >= v(before.sum),
    ensures
        v(recent) * (v(after.count) - v(before.count)) == v(after.sum) - v(before.sum),
        v(steady) == v(recent),
{
    lemma_recent(t, v, zero, before, after, recent);
    lemma_steady(t, v, zero, before, after, steady);
    let a = v(after.sum) - v(before.sum);
    let b = v(after.count) - v(before.count);
    assert(a / b * b == a) by (nonlinear_arith)
        requires
            b > 0real,
    ;
}

/// Two pairs of snapshots that agree in a series' own metric and in their times
/// give that series the same number, whatever else they hold.
pub proof fn law_series_ignore_other_metrics<T: Arithmetic>(
    t: T,
    v: spec_fn(T::F) -> real,
    zero: T::F,
    p: Snapshot<T::F>,
    c: Snapshot<T::F>,
    q: Snapshot<T::F>,
    e: Snapshot<T::F>,
    d: Seq<T::F>,
    f: Seq<T::F>,
    i: int,
)
    requires
        exact::is_exact(t, v),
        v(zero) == 0real,
        state::derived_from(t, zero, Some(p), c, d),
        state::derived_from(t, zero, Some(q), e, f),
        p.backend.reachable && c.backend.reachable && q.backend.reachable && e.backend.reachable,
        v(c.monotonic) - v(p.monotonic) == v(e.monotonic) - v(q.monotonic),
        0 <= i < SERIES_COUNT,
    ensures
        state::series_name(i) == "ttft"@ && p.backend.ttft == q.backend.ttft && c.backend.ttft
            == e.backend.ttft ==> v(d[i]) == v(f[i]),
        state::series_name(i) == "tpot"@ && p.backend.inter_token == q.backend.inter_token
            && c.backend.inter_token == e.backend.inter_token ==> v(d[i]) == v(f[i]),
        state::series_name(i) == "e2e"@ && p.backend.e2e == q.backend.e2e && c.backend.e2e
            == e.backend.e2e ==> v(d[i]) == v(f[i]),
        state::series_name(i) == "queue_time"@ && p.backend.queue_time == q.backend.queue_time
            && c.backend.queue_time == e.backend.queue_time ==> v(d[i]) == v(f[i]),
        state::series_name(i) == "req_prompt_tok"@ && p.backend.req_prompt_tokens
            == q.backend.req_prompt_tokens && c.backend.req_prompt_tokens
            == e.backend.req_prompt_tokens ==> v(d[i]) == v(f[i]),
        state::series_name(i) == "req_gen_tok"@ && p.backend.req_gen_tokens
            == q.backend.req_gen_tokens && c.backend.req_gen_tokens == e.backend.req_gen_tokens
            ==> v(d[i]) == v(f[i]),
        state::series_name(i) == "req_prefill"@ && p.backend.prefill_time == q.backend.prefill_time
            && c.backend.prefill_time == e.backend.prefill_time ==> v(d[i]) == v(f[i]),
        state::series_name(i) == "req_decode"@ && p.backend.decode_time == q.backend.decode_time
            && c.backend.decode_time == e.backend.decode_time ==> v(d[i]) == v(f[i]),
        state::series_name(i) == "gen_tok_s"@ && p.backend.generation_tokens_total
            == q.backend.generation_tokens_total && c.backend.generation_tokens_total
            == e.backend.generation_tokens_total ==> v(d[i]) == v(f[i]),
        state::series_name(i) == "prompt_tok_s"@ && p.backend.prompt_tokens_total
            == q.backend.prompt_tokens_total && c.backend.prompt_tokens_total
            == e.backend.prompt_tokens_total ==> v(d[i]) == v(f[i]),
{
    law_names_are_distinct();
    let name = state::series_name(i);
    assert(state::names_series(name, i));
    law_series_show_their_metric(t, v, zero, Some(p), c, d, name, i);
    law_series_show_their_metric(t, v, zero, Some(q), e, f, name, i);
}

/// What is left of `gap` after `dt` seconds in a window of `minutes`.
pub open spec fn left_over(e: spec_fn(real) -> real, minutes: real, dt: real, gap: real) -> real {
    e(dt / (minutes * 60real)) * gap
}

/// The three moving averages of a series are over one, five and fifteen
/// minutes, in this order: the first value seeds all of them, and after that the
/// distance to the latest value falls at the pace of the window. Where no time
/// passed they stay.
pub proof fn law_windows_are_minutes<T: Arithmetic>(
    t: T,
    v: spec_fn(T::F) -> real,
    e: spec_fn(real) -> real,
    zero: T::F,
    seeded_at: Option<T::F>,
    now: T::F,
    d: Seq<T::F>,
    before: Seq<(T::F, T::F, T::F)>,
    after: Seq<(T::F, T::F, T::F)>,
    i: int,
)
    requires
        exact::is_exact(t, v),
        exact::falls(t, v, e),
        v(zero) == 0real,
        state::windows_moved(t, zero, seeded_at, now, d, before, after),
        0 <= i < SERIES_COUNT,
    ensures
        seeded_at is None ==> after[i] == (d[i], d[i], d[i]),
        seeded_at matches Some(start) ==> (v(now) <= v(start) ==> after[i] == before[i]),
        seeded_at matches Some(start) ==> (v(now) > v(start) ==> {
            let dt = v(now) - v(start);
            &&& v(after[i].0) - v(d[i]) == left_over(e, 1real, dt, v(before[i].0) - v(d[i]))
            &&& v(after[i].1) - v(d[i]) == left_over(e, 5real, dt, v(before[i].1) - v(d[i]))
            &&& v(after[i].2) - v(d[i]) == left_over(e, 15real, dt, v(before[i].2) - v(d[i]))
        }),
{
    if let Some(start) = seeded_at {
        if v(now) > v(start) {
            let n = SERIES_COUNT;
            let dt = choose|dt: T::F| #[trigger]
                call_ensures(T::minus, (&t, now, start), dt) && v(dt) > 0real && forall|i: int|
                    0 <= i < n ==> state::decayed_to(t, before[i], d[i], dt, #[trigger] after[i]);
            assert(state::decayed_to(t, before[i], d[i], dt, after[i]));
            exact::lemma_moved(t, v, e, before[i].0, d[i], dt, 0, after[i].0);
            exact::lemma_moved(t, v, e, before[i].1, d[i], dt, 1, after[i].1);
            exact::lemma_moved(t, v, e, before[i].2, d[i], dt, 2, after[i].2);
        }
    }
}

/// Once a series that was steady rises, its averages follow the sooner the
/// shorter their window is: none over one minute is below that over five, and
/// none over five below that over fifteen. Where it falls it is the other way.
pub proof fn law_shorter_windows_follow_sooner<T: Arithmetic>(
    t: T,
    v: spec_fn(T::F) -> real,
    e: spec_fn(real) -> real,
    zero: T::F,
    start: T::F,
    now: T::F,
    d: Seq<T::F>,
    before: Seq<(T::F, T::F, T::F)>,
    after: Seq<(T::F, T::F, T::F)>,
    i: int,
)
    requires
        exact::is_exact(t, v),
        exact::falls(t, v, e),
        v(zero) == 0real,
        v(now) > v(start),
        state::windows_moved(t, zero, Some(start), now, d, before, after),
        0 <= i < SERIES_COUNT,
        v(before[i].0) == v(before[i].1) == v(before[i].2),
    ensures
        v(d[i]) >= v(before[i].0) ==> v(after[i].0) >= v(after[i].1) >= v(after[i].2),
        v(d[i]) <= v(before[i].0) ==> v(after[i].0) <= v(after[i].1) <= v(after[i].2),
{
    law_windows_are_minutes(t, v, e, zero, Some(start), now, d, before, after, i);
    let dt = v(now) - v(start);
    let gap = v(before[i].0) - v(d[i]);
    let a = dt / (1real * 60real);
    let b = dt / (5real * 60real);
    let c = dt / (15real * 60real);
    assert(c <= b <= a && c >= 0real) by (nonlinear_arith)
        requires
            a == dt / (1real * 60real),
            b == dt / (5real * 60real),
            c == dt / (15real * 60real),
            dt > 0real,
    ;
    lemma_falls(t, v, e, b, a - b);
    lemma_falls(t, v, e, c, b - c);
    assert((gap <= 0real ==> e(a) * gap >= e(b) * gap && e(b) * gap >= e(c) * gap) && (gap >= 0real
        ==> e(a) * gap <= e(b) * gap && e(b) * gap <= e(c) * gap)) by (nonlinear_arith)
        requires
            e(a) <= e(b) <= e(c),
    ;
}

proof fn lemma_falls<T: Arithmetic>(
    t: T,
    v: spec_fn(T::F) -> real,
    e: spec_fn(real) -> real,
    x: real,
    more: real,
)
    requires
        exact::falls(t, v, e),
        x >= 0real,
        more >= 0real,
    ensures
        e(x + more) <= e(x),
{
    assert(e(x + more) == e(x) * e(more));
    assert(0real < e(x) <= 1real);
    assert(0real < e(more) <= 1real);
    assert(e(x) * e(more) <= e(x)) by (nonlinear_arith)
        requires
            0real < e(x),
            0real < e(more) <= 1real,
    ;
}

} // verus!
