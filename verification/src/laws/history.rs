//! What the history tells of the snapshots that it took in.

use vstd::prelude::*;

use crate::exact;
use crate::series;
use crate::state;
use crate::state::{
    compute_rate, histogram_avg, histogram_quantile, histogram_recent_avg, Arithmetic,
    BackendSnapshot, Histogram, History, Series, Snapshot, SERIES_COUNT,
};

verus! {

/// Once a snapshot was taken in, each series tells, by its name, its own metric
/// of it: the gauges what they read, and all others what their counter or
/// histogram did since the snapshot before.
pub proof fn law_update_tells_each_metric<T: Arithmetic>(
    t: T,
    v: spec_fn(T::F) -> real,
    h: &mut History<T::F>,
    snap: Snapshot<T::F>,
    name: &str,
    r: Option<T::F>,
)
    requires
        exact::is_exact(t, v),
        v(old(h).nothing()) == 0real,
        call_ensures(History::<T::F>::update::<T>, (h, &t, snap), ()),
        call_ensures(History::<T::F>::derived, (final(h), name), r),
    ensures
        r is Some <==> series::is_series(name@),
        r matches Some(x) ==> series::gauged(v, name@, snap.backend, v(x)),
        r matches Some(x) ==> (old(h).baseline() matches Some(p) ==> (p.backend.reachable
            && snap.backend.reachable ==> series::shown(
            v,
            name@,
            p.backend,
            snap.backend,
            v(snap.monotonic) - v(p.monotonic),
            v(x),
        ))),
{
    if r is Some {
        let i = choose|i: int| #[trigger]
            state::names_series(name@, i) && i < SERIES_COUNT && r.unwrap() == final(h).latest()[i];
        series::law_series_are_found(name@, i);
        series::law_series_show_their_metric(
            t,
            v,
            old(h).nothing(),
            old(h).baseline(),
            snap,
            final(h).latest(),
            name@,
            i,
        );
    } else {
        series::law_series_are_found(name@, SERIES_COUNT as int);
    }
}

/// The averages of a series after an update, by its name: the first snapshot
/// seeds all three windows with its value, and after that what is left of the
/// distance of each average to the latest value is what one, five and fifteen
/// minutes leave of it, in this order.
pub proof fn law_update_moves_each_window<T: Arithmetic>(
    t: T,
    v: spec_fn(T::F) -> real,
    e: spec_fn(real) -> real,
    h: &mut History<T::F>,
    snap: Snapshot<T::F>,
    name: &str,
    x: T::F,
    before: (T::F, T::F, T::F),
    after: (T::F, T::F, T::F),
)
    requires
        exact::is_exact(t, v),
        exact::falls(t, v, e),
        v(old(h).nothing()) == 0real,
        call_ensures(History::<T::F>::avg, (old(h), name), Some(before)),
        call_ensures(History::<T::F>::update::<T>, (h, &t, snap), ()),
        call_ensures(History::<T::F>::derived, (final(h), name), Some(x)),
        call_ensures(History::<T::F>::avg, (final(h), name), Some(after)),
    ensures
        old(h).seeded_at() is None ==> after == (x, x, x),
        old(h).seeded_at() matches Some(start) ==> (v(snap.monotonic) <= v(start) ==> after
            == before),
        old(h).seeded_at() matches Some(start) ==> (v(snap.monotonic) > v(start) ==> {
            let dt = v(snap.monotonic) - v(start);
            let (a, b, c) = (v(before.0) - v(x), v(before.1) - v(x), v(before.2) - v(x));
            &&& v(after.0) - v(x) == series::left_over(e, 1real, dt, a)
            &&& v(after.1) - v(x) == series::left_over(e, 5real, dt, b)
            &&& v(after.2) - v(x) == series::left_over(e, 15real, dt, c)
        }),
        old(h).seeded_at() matches Some(start) ==> (v(snap.monotonic) > v(start) && v(before.0)
            == v(before.1) && v(before.1) == v(before.2) && v(x) >= v(before.0) ==> v(after.0)
            >= v(after.1) && v(after.1) >= v(after.2)),
{
    let i = choose|i: int| #[trigger]
        state::names_series(name@, i) && i < SERIES_COUNT && x == final(h).latest()[i];
    series::law_names_are_distinct();
    series::law_windows_are_minutes(
        t,
        v,
        e,
        old(h).nothing(),
        old(h).seeded_at(),
        snap.monotonic,
        final(h).latest(),
        old(h).averages(),
        final(h).averages(),
        i,
    );
    if let Some(start) = old(h).seeded_at() {
        let (p, q, r) = before;
        if v(snap.monotonic) > v(start) && v(p) == v(q) && v(q) == v(r) {
            series::law_shorter_windows_follow_sooner(
                t,
                v,
                e,
                old(h).nothing(),
                start,
                snap.monotonic,
                final(h).latest(),
                old(h).averages(),
                final(h).averages(),
                i,
            );
        }
    }
}

/// Two histories whose last and whose next snapshots differ only in their
/// end-to-end histograms tell the same of every series but that of the
/// end-to-end latency.
pub proof fn law_update_keeps_latencies_apart<T: Arithmetic>(
    t: T,
    v: spec_fn(T::F) -> real,
    h: &mut History<T::F>,
    k: &mut History<T::F>,
    p: Snapshot<T::F>,
    q: Snapshot<T::F>,
    c: Snapshot<T::F>,
    d: Snapshot<T::F>,
    name: &str,
    x: Option<T::F>,
    y: Option<T::F>,
)
    requires
        exact::is_exact(t, v),
        v(old(h).nothing()) == 0real,
        v(old(k).nothing()) == 0real,
        old(h).baseline() == Some(p),
        old(k).baseline() == Some(q),
        p.monotonic == q.monotonic && c.monotonic == d.monotonic,
        q.backend == (BackendSnapshot { e2e: q.backend.e2e, ..p.backend }),
        d.backend == (BackendSnapshot { e2e: d.backend.e2e, ..c.backend }),
        call_ensures(History::<T::F>::update::<T>, (h, &t, c), ()),
        call_ensures(History::<T::F>::update::<T>, (k, &t, d), ()),
        call_ensures(History::<T::F>::derived, (final(h), name), x),
        call_ensures(History::<T::F>::derived, (final(k), name), y),
        name@ != "e2e"@,
    ensures
        x is Some <==> y is Some,
        x is Some ==> v(x.unwrap()) == v(y.unwrap()),
{
    if p.backend.reachable && c.backend.reachable {
        law_update_tells_each_metric(t, v, h, c, name, x);
        law_update_tells_each_metric(t, v, k, d, name, y);
    } else {
        law_unreached_servers_have_no_rates(t, v, h, c, name, x);
        law_unreached_servers_have_no_rates(t, v, k, d, name, y);
    }
}

/// Before there are two snapshots, and where a server was not reached in one of
/// them, all but the gauges are zero.
pub proof fn law_unreached_servers_have_no_rates<T: Arithmetic>(
    t: T,
    v: spec_fn(T::F) -> real,
    h: &mut History<T::F>,
    snap: Snapshot<T::F>,
    name: &str,
    r: Option<T::F>,
)
    requires
        exact::is_exact(t, v),
        v(old(h).nothing()) == 0real,
        call_ensures(History::<T::F>::update::<T>, (h, &t, snap), ()),
        call_ensures(History::<T::F>::derived, (final(h), name), r),
        old(h).baseline() matches Some(p) ==> !(p.backend.reachable && snap.backend.reachable),
    ensures
        r is Some <==> series::is_series(name@),
        r matches Some(x) ==> series::gauged(v, name@, snap.backend, v(x)),
        r matches Some(x) ==> (!series::is_gauge(name@) ==> v(x) == 0real),
{
    if r is Some {
        let i = choose|i: int| #[trigger]
            state::names_series(name@, i) && i < SERIES_COUNT && r.unwrap() == final(h).latest()[i];
        series::law_series_are_found(name@, i);
        series::law_series_show_their_metric(
            t,
            v,
            old(h).nothing(),
            old(h).baseline(),
            snap,
            final(h).latest(),
            name@,
            i,
        );
    } else {
        series::law_series_are_found(name@, SERIES_COUNT as int);
    }
}

/// An update appends to the values of each series, and only the last ones are
/// kept. The snapshot is what the next one is held against.
pub proof fn law_update_appends<T: Arithmetic>(
    t: T,
    h: &mut History<T::F>,
    snap: Snapshot<T::F>,
    i: int,
)
    requires
        0 <= i < SERIES_COUNT,
        call_ensures(History::<T::F>::update::<T>, (h, &t, snap), ()),
    ensures
        final(h).baseline() == Some(snap),
        final(h).seeded_at() == Some(snap.monotonic),
        ({
            let (a, b) = (old(h).series_at(i), final(h).series_at(i));
            &&& b.len() == if a.len() < old(h).limit() {
                a.len() + 1
            } else {
                old(h).limit()
            }
            &&& b.len() > 0 ==> b.last() == final(h).latest()[i]
            &&& forall|j: int|
                0 <= j < b.len() - 1 ==> #[trigger] b[j] == a[a.len() + 1 - b.len() + j]
        }),
{
    let (a, x) = (old(h).series_at(i), final(h).latest()[i]);
    assert(final(h).series_at(i) == state::last_of(a.push(x), old(h).limit()));
}

/// The rate of a counter times the time that passed is what it grew by; a
/// counter that fell, and one of no time, has none.
pub proof fn law_rate_is_growth_over_time<T: Arithmetic>(
    t: T,
    v: spec_fn(T::F) -> real,
    zero: T::F,
    a: T::F,
    at: T::F,
    b: T::F,
    bt: T::F,
    r: T::F,
)
    requires
        exact::is_exact(t, v),
        v(zero) == 0real,
        call_ensures(compute_rate::<T>, (&t, zero, a, at, b, bt), r),
    ensures
        v(bt) > v(at) && v(b) >= v(a) ==> v(r) * (v(bt) - v(at)) == v(b) - v(a),
        v(bt) <= v(at) || v(b) < v(a) ==> v(r) == 0real,
{
    series::lemma_rate(t, v, zero, a, at, b, bt, r);
    let (x, y) = (v(b) - v(a), v(bt) - v(at));
    assert(y > 0real ==> x / y * y == x) by (nonlinear_arith);
}

/// The mean of what a histogram took in, times how much it took in, is what its
/// sum grew by. Where it took in nothing there is none; or, for the steady mean,
/// it is that of all that the histogram holds.
pub proof fn law_means_times_count_are_sums<T: Arithmetic>(
    t: T,
    v: spec_fn(T::F) -> real,
    zero: T::F,
    prev: Histogram<T::F>,
    cur: Histogram<T::F>,
    r: T::F,
    s: T::F,
)
    requires
        exact::is_exact(t, v),
        v(zero) == 0real,
        call_ensures(histogram_recent_avg::<T>, (&t, zero, &prev, &cur), r),
        call_ensures(histogram_avg::<T>, (&t, zero, &prev, &cur), s),
    ensures
        ({
            let (n, x) = (v(cur.count) - v(prev.count), v(cur.sum) - v(prev.sum));
            &&& n > 0real && x >= 0real ==> v(r) * n == x && v(s) * n == x
            &&& n <= 0real || x < 0real ==> v(r) == 0real && (v(cur.count) > 0real ==> v(s) * v(
                cur.count,
            ) == v(cur.sum)) && (v(cur.count) <= 0real ==> v(s) == 0real)
        }),
{
    series::lemma_recent(t, v, zero, prev, cur, r);
    series::lemma_steady(t, v, zero, prev, cur, s);
    let (n, x) = (v(cur.count) - v(prev.count), v(cur.sum) - v(prev.sum));
    let (m, y) = (v(cur.count), v(cur.sum));
    assert((n > 0real ==> x / n * n == x) && (m > 0real ==> y / m * m == y)) by (nonlinear_arith);
}

/// A quantile lies in the first bucket up to whose bound its share of all that
/// was observed was observed, and parts that bucket as its share parts what the
/// bucket gained over the one before.
pub proof fn law_quantile_is_between_its_bounds<T: Arithmetic>(
    t: T,
    v: spec_fn(T::F) -> real,
    zero: T::F,
    prev: Histogram<T::F>,
    cur: Histogram<T::F>,
    ds: Seq<real>,
    ls: Seq<real>,
    endless: Seq<bool>,
    q: T::F,
    r: T::F,
    k: int,
)
    requires
        exact::is_exact(t, v),
        v(zero) == 0real,
        exact::is_window(t, v, prev, cur, ds, ls, endless),
        exact::are_bounds(ls, endless),
        v(cur.count) > v(prev.count),
        call_ensures(histogram_quantile::<T>, (&t, zero, &prev, &cur, q), r),
        0 <= k < ds.len(),
        forall|j: int| 0 <= j <= k ==> !#[trigger] endless[j],
        forall|j: int|
            0 <= j < k ==> #[trigger] ds[j] < v(q) * (v(cur.count) - v(prev.count)),
        v(q) * (v(cur.count) - v(prev.count)) <= ds[k],
        exact::before_place(ds, k) < ds[k],
    ensures
        ({
            let share = v(q) * (v(cur.count) - v(prev.count));
            let (below, lower) = (exact::before_place(ds, k), exact::before_place(ls, k));
            (v(r) - lower) * (ds[k] - below) == (share - below) * (ls[k] - lower)
        }),
{
    exact::law_quantile_parts_its_bucket(t, v, zero, prev, cur, ds, ls, endless, q, r, k);
}

/// The hit rate of prefixes times the queries is the hits; none without
/// queries.
pub proof fn law_hit_rate_times_queries_is_hits<T: Arithmetic>(
    t: T,
    v: spec_fn(T::F) -> real,
    zero: T::F,
    s: BackendSnapshot<T::F>,
    r: T::F,
)
    requires
        exact::is_exact(t, v),
        v(zero) == 0real,
        call_ensures(BackendSnapshot::<T::F>::prefix_cache_hit_rate::<T>, (&s, &t, zero), r),
    ensures
        v(s.prefix_cache_queries_total) > 0real ==> v(r) * v(s.prefix_cache_queries_total) == v(
            s.prefix_cache_hits_total,
        ),
        v(s.prefix_cache_queries_total) <= 0real ==> v(r) == 0real,
{
    let (x, y) = (v(s.prefix_cache_hits_total), v(s.prefix_cache_queries_total));
    assert(y > 0real ==> x / y * y == x) by (nonlinear_arith);
}

/// Adding to a histogram changes only what is counted under the bound: it grows
/// by what was added, or is that where there was no such bound. Bounds stay in
/// ascending order, each once, and neither the count nor the sum changes.
pub proof fn law_added_counts_stay_under_their_bound<T: Arithmetic>(
    t: T,
    ok: spec_fn(T::F) -> bool,
    v: spec_fn(T::F) -> real,
    zero: T::F,
    h: &mut Histogram<T::F>,
    le: T::F,
    x: T::F,
    k: T::F,
    a: T::F,
    b: T::F,
)
    requires
        exact::orders(t, ok, v),
        exact::ascend(old(h).buckets@, ok, v),
        ok(le),
        ok(k),
        call_ensures(Histogram::<T::F>::get::<T>, (old(h), &t, k, zero), a),
        call_ensures(Histogram::<T::F>::add::<T>, (h, &t, le, x), ()),
        call_ensures(Histogram::<T::F>::get::<T>, (final(h), &t, k, zero), b),
    ensures
        v(k) != v(le) ==> b == a,
        v(k) == v(le) && exact::has_bound(old(h).buckets@, v, v(le)) ==> call_ensures(
            T::plus,
            (&t, a, x),
            b,
        ),
        v(k) == v(le) && !exact::has_bound(old(h).buckets@, v, v(le)) ==> a == zero && b == x,
        exact::ascend(final(h).buckets@, ok, v),
        final(h).count == old(h).count && final(h).sum == old(h).sum,
{
    exact::law_only_added_bound_changes(t, ok, v, zero, *old(h), le, x, *final(h), k, a, b);
    exact::law_buckets_strictly_ascend(t, ok, v, old(h).buckets@, le, x, final(h).buckets@);
}

/// A series keeps the last values that were appended to it, in their order.
pub proof fn law_series_keep_the_last<F: Copy>(s: &mut Series<F>, x: F)
    requires
        old(s).wf(),
        old(s)@.len() <= old(s).limit(),
        call_ensures(Series::<F>::append, (s, x), ()),
    ensures
        ({
            let (a, b) = (old(s)@, final(s)@);
            &&& b.len() == if a.len() < old(s).limit() {
                a.len() + 1
            } else {
                old(s).limit()
            }
            &&& b.len() > 0 ==> b.last() == x
            &&& forall|j: int|
                0 <= j < b.len() - 1 ==> #[trigger] b[j] == a[a.len() + 1 - b.len() + j]
        }),
{
}

/// A history that was cleared is as one that was just made: it holds no values,
/// and there is nothing to hold the next snapshot against.
pub proof fn law_clearing_starts_over<F: Copy>(h: &mut History<F>)
    requires
        call_ensures(History::<F>::clear, (h,), ()),
    ensures
        forall|i: int| 0 <= i < SERIES_COUNT ==> (#[trigger] final(h).series_at(i)).len() == 0,
        final(h).baseline() is None,
        final(h).seeded_at() is None,
        final(h).limit() == old(h).limit(),
        forall|i: int|
            0 <= i < SERIES_COUNT ==> #[trigger] final(h).latest()[i] == old(h).nothing(),
{
}

} // verus!
