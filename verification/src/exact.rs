//! Laws over arithmetic that orders and computes numbers as they are. Each says
//! which numbers values stand for, and how far the arithmetic has to agree.

use vstd::prelude::*;

use crate::state;
use crate::state::{Arithmetic, Histogram};

verus! {

/// On the values that are `ok`, comparing compares the numbers that the values
/// stand for. All values but those that are no number are ordered so, an
/// infinite one as a number beyond all others.
pub open spec fn orders<T: Arithmetic>(
    t: T,
    ok: spec_fn(T::F) -> bool,
    v: spec_fn(T::F) -> real,
) -> bool {
    &&& forall|a: T::F, b: T::F, r: bool|
        ok(a) && ok(b) && #[trigger] call_ensures(T::under, (&t, a, b), r) ==> r == (v(a) < v(b))
    &&& forall|a: T::F, b: T::F, r: bool|
        ok(a) && ok(b) && #[trigger] call_ensures(T::equal, (&t, a, b), r) ==> r == (v(a) == v(b))
}

/// The bounds are `ok`, and each is below the next.
pub open spec fn ascend<F>(
    buckets: Seq<(F, F)>,
    ok: spec_fn(F) -> bool,
    v: spec_fn(F) -> real,
) -> bool {
    &&& forall|i: int| 0 <= i < buckets.len() ==> ok((#[trigger] buckets[i]).0)
    &&& forall|i: int, j: int|
        0 <= i < j < buckets.len() ==> v((#[trigger] buckets[i]).0) < v((#[trigger] buckets[j]).0)
}

/// One of the buckets has the bound `x`.
pub open spec fn has_bound<F>(buckets: Seq<(F, F)>, v: spec_fn(F) -> real, x: real) -> bool {
    exists|i: int| 0 <= i < buckets.len() && v((#[trigger] buckets[i]).0) == x
}

pub proof fn lemma_found<T: Arithmetic>(
    t: T,
    ok: spec_fn(T::F) -> bool,
    v: spec_fn(T::F) -> real,
    buckets: Seq<(T::F, T::F)>,
    le: T::F,
    i: int,
)
    requires
        orders(t, ok, v),
        ascend(buckets, ok, v),
        ok(le),
        state::found_at(t, buckets, le, i),
    ensures
        i < buckets.len() ==> v(buckets[i].0) == v(le),
        i == buckets.len() ==> !has_bound(buckets, v, v(le)),
{
    if i < buckets.len() {
        assert(state::bound_is(t, buckets, i, le, true));
    } else if has_bound(buckets, v, v(le)) {
        let j = choose|j: int| 0 <= j < buckets.len() && v((#[trigger] buckets[j]).0) == v(le);
        assert(state::bound_is(t, buckets, j, le, false));
        assert(false);
    }
}

/// What `after` is where a value was added to `before`: the bucket that has
/// the bound grew by it, or a bucket came in at `at`.
pub proof fn lemma_added<T: Arithmetic>(
    t: T,
    ok: spec_fn(T::F) -> bool,
    v: spec_fn(T::F) -> real,
    before: Seq<(T::F, T::F)>,
    le: T::F,
    x: T::F,
    after: Seq<(T::F, T::F)>,
) -> (at: int)
    requires
        orders(t, ok, v),
        ascend(before, ok, v),
        ok(le),
        state::bucket_added(t, before, le, x, after),
    ensures
        has_bound(before, v, v(le)) ==> 0 <= at < before.len() && v(before[at].0) == v(le)
            && after.len() == before.len() && after[at].0 == before[at].0 && call_ensures(
            T::plus,
            (&t, before[at].1, x),
            after[at].1,
        ) && forall|j: int| 0 <= j < before.len() && j != at ==> #[trigger] after[j] == before[j],
        !has_bound(before, v, v(le)) ==> 0 <= at <= before.len() && after == before.insert(
            at,
            (le, x),
        ) && (forall|j: int| 0 <= j < at ==> v((#[trigger] before[j]).0) < v(le)) && (forall|j: int|
            at <= j < before.len() ==> v(le) < v((#[trigger] before[j]).0)),
{
    let i = choose|i: int| #[trigger]
        state::found_at(t, before, le, i) && if i < before.len() {
            exists|n: T::F| #[trigger]
                call_ensures(T::plus, (&t, before[i].1, x), n) && after == before.update(
                    i,
                    (before[i].0, n),
                )
        } else {
            exists|k: int| #[trigger]
                state::slot_at(t, before, le, k) && after == before.insert(k, (le, x))
        };
    lemma_found(t, ok, v, before, le, i);
    if i < before.len() {
        i
    } else {
        let k = choose|k: int| #[trigger]
            state::slot_at(t, before, le, k) && after == before.insert(k, (le, x));
        assert forall|j: int| 0 <= j < k implies v((#[trigger] before[j]).0) < v(le) by {
            assert(state::bound_over(t, before, j, le, false));
            assert(state::bound_is(t, before, j, le, false));
        }
        if k < before.len() {
            assert(state::bound_over(t, before, k, le, true));
        }
        k
    }
}

/// Adding to a histogram keeps the bounds of its buckets in strictly ascending
/// order: they are the ones before and the added one, each once.
pub proof fn law_buckets_strictly_ascend<T: Arithmetic>(
    t: T,
    ok: spec_fn(T::F) -> bool,
    v: spec_fn(T::F) -> real,
    before: Seq<(T::F, T::F)>,
    le: T::F,
    x: T::F,
    after: Seq<(T::F, T::F)>,
)
    requires
        orders(t, ok, v),
        ascend(before, ok, v),
        ok(le),
        state::bucket_added(t, before, le, x, after),
    ensures
        ascend(after, ok, v),
        forall|y: real| #[trigger]
            has_bound(after, v, y) <==> has_bound(before, v, y) || y == v(le),
        after.len() == before.len() + if has_bound(before, v, v(le)) {
            0int
        } else {
            1
        },
{
    let at = lemma_added(t, ok, v, before, le, x, after);
    if has_bound(before, v, v(le)) {
        assert forall|j: int| 0 <= j < after.len() implies (#[trigger] after[j]).0
            == before[j].0 by {}
        assert forall|y: real| #[trigger]
            has_bound(after, v, y) <==> has_bound(before, v, y) || y == v(le) by {
            if has_bound(after, v, y) {
                let j = choose|j: int| 0 <= j < after.len() && v((#[trigger] after[j]).0) == y;
                assert(v(before[j].0) == y);
            }
            if has_bound(before, v, y) {
                let j = choose|j: int| 0 <= j < before.len() && v((#[trigger] before[j]).0) == y;
                assert(v(after[j].0) == y);
            }
        }
    } else {
        let from = |j: int|
            if j < at {
                j
            } else {
                j - 1
            };
        assert forall|j: int| 0 <= j < after.len() && j != at implies (#[trigger] after[j])
            == before[from(j)] by {}
        assert(after[at] == (le, x));
        assert forall|i: int, j: int| 0 <= i < j < after.len() implies v((#[trigger] after[i]).0)
            < v((#[trigger] after[j]).0) by {
            if i != at && j != at {
                assert(after[i] == before[from(i)] && after[j] == before[from(j)]);
            } else if i == at {
                assert(after[j] == before[j - 1]);
            } else {
                assert(after[i] == before[i]);
            }
        }
        assert forall|y: real| #[trigger]
            has_bound(after, v, y) <==> has_bound(before, v, y) || y == v(le) by {
            if has_bound(after, v, y) {
                let j = choose|j: int| 0 <= j < after.len() && v((#[trigger] after[j]).0) == y;
                if j != at {
                    assert(v(before[from(j)].0) == y);
                }
            }
            if y == v(le) {
                assert(v(after[at].0) == y);
            }
            if has_bound(before, v, y) {
                let j = choose|j: int| 0 <= j < before.len() && v((#[trigger] before[j]).0) == y;
                let to = if j < at {
                    j
                } else {
                    j + 1
                };
                assert(after[to] == before[j]);
                assert(v(after[to].0) == y);
            }
        }
    }
}

/// What adding to a histogram does to what is found in it: at the added bound
/// the count grows by the value, or is the value where there was no such
/// bucket; at every other bound it stays.
pub proof fn law_only_added_bound_changes<T: Arithmetic>(
    t: T,
    ok: spec_fn(T::F) -> bool,
    v: spec_fn(T::F) -> real,
    zero: T::F,
    before: Histogram<T::F>,
    le: T::F,
    x: T::F,
    after: Histogram<T::F>,
    k: T::F,
    a: T::F,
    b: T::F,
)
    requires
        orders(t, ok, v),
        ascend(before.buckets@, ok, v),
        ok(le),
        ok(k),
        state::bucket_added(t, before.buckets@, le, x, after.buckets@),
        state::counts(t, zero, before, k, a),
        state::counts(t, zero, after, k, b),
    ensures
        v(k) != v(le) ==> a == b,
        v(k) == v(le) && has_bound(before.buckets@, v, v(le)) ==> call_ensures(
            T::plus,
            (&t, a, x),
            b,
        ),
        v(k) == v(le) && !has_bound(before.buckets@, v, v(le)) ==> a == zero && b == x,
{
    let p = before.buckets@;
    let q = after.buckets@;
    let at = lemma_added(t, ok, v, p, le, x, q);
    law_buckets_strictly_ascend(t, ok, v, p, le, x, q);
    let i = choose|i: int| #[trigger]
        state::found_at(t, p, k, i) && a == if i < p.len() {
            p[i].1
        } else {
            zero
        };
    let j = choose|j: int| #[trigger]
        state::found_at(t, q, k, j) && b == if j < q.len() {
            q[j].1
        } else {
            zero
        };
    lemma_found(t, ok, v, p, k, i);
    lemma_found(t, ok, v, q, k, j);
    if i < p.len() {
        assert(has_bound(p, v, v(k)));
    }
    if j < q.len() {
        assert(has_bound(q, v, v(k)));
    }
    assert(has_bound(q, v, v(k)) <==> has_bound(p, v, v(k)) || v(k) == v(le));
    if has_bound(p, v, v(le)) {
        if i < p.len() {
            assert(q[i].0 == p[i].0);
            if i < j {
                assert(v(q[i].0) < v(q[j].0));
            } else if j < i {
                assert(v(q[j].0) < v(q[i].0));
            }
            assert(i == j);
            if v(k) == v(le) {
                if i < at {
                    assert(v(p[i].0) < v(p[at].0));
                } else if at < i {
                    assert(v(p[at].0) < v(p[i].0));
                }
            }
        }
    } else {
        assert(q[at] == (le, x));
        if v(k) == v(le) {
            if j < at {
                assert(v(q[j].0) < v(q[at].0));
            } else if at < j {
                assert(v(q[at].0) < v(q[j].0));
            }
        } else if i < p.len() {
            let to = if i < at {
                i
            } else {
                i + 1
            };
            assert(q[to] == p[i]);
            if j < to {
                assert(v(q[j].0) < v(q[to].0));
            } else if to < j {
                assert(v(q[to].0) < v(q[j].0));
            }
        }
    }
}

/// Values stand for numbers, and the operations compute what they say, without
/// rounding.
pub open spec fn is_exact<T: Arithmetic>(t: T, v: spec_fn(T::F) -> real) -> bool {
    &&& forall|n: i64, r: T::F| #[trigger]
        call_ensures(T::whole, (&t, n), r) ==> v(r) == n as real
    &&& forall|a: T::F, b: T::F, r: T::F| #[trigger]
        call_ensures(T::plus, (&t, a, b), r) ==> v(r) == v(a) + v(b)
    &&& forall|a: T::F, b: T::F, r: T::F| #[trigger]
        call_ensures(T::minus, (&t, a, b), r) ==> v(r) == v(a) - v(b)
    &&& forall|a: T::F, b: T::F, r: T::F| #[trigger]
        call_ensures(T::times, (&t, a, b), r) ==> v(r) == v(a) * v(b)
    &&& forall|a: T::F, b: T::F, r: T::F|
        v(b) != 0real && #[trigger] call_ensures(T::ratio, (&t, a, b), r) ==> v(r) == v(a) / v(b)
    &&& forall|a: T::F, b: T::F, r: bool| #[trigger]
        call_ensures(T::at_most, (&t, a, b), r) ==> r == (v(a) <= v(b))
    &&& forall|a: T::F, b: T::F, r: bool| #[trigger]
        call_ensures(T::under, (&t, a, b), r) ==> r == (v(a) < v(b))
    &&& forall|a: T::F, b: T::F, r: bool| #[trigger]
        call_ensures(T::equal, (&t, a, b), r) ==> r == (v(a) == v(b))
}

/// `e` is what is left of one over time: it falls from one toward zero, and over
/// two times in a row it falls by both.
pub open spec fn falls<T: Arithmetic>(
    t: T,
    v: spec_fn(T::F) -> real,
    e: spec_fn(real) -> real,
) -> bool {
    &&& forall|a: T::F, r: T::F| #[trigger]
        call_ensures(T::exp_minus, (&t, a), r) ==> v(r) == e(v(a))
    &&& forall|x: real, y: real| #[trigger] e(x + y) == e(x) * e(y)
    &&& forall|x: real| x >= 0real ==> 0real < #[trigger] e(x) <= 1real
}

pub proof fn lemma_moved<T: Arithmetic>(
    t: T,
    v: spec_fn(T::F) -> real,
    e: spec_fn(real) -> real,
    before: T::F,
    value: T::F,
    dt: T::F,
    window: usize,
    after: T::F,
)
    requires
        is_exact(t, v),
        falls(t, v, e),
        state::moved_toward(t, before, value, dt, window, after),
    ensures
        v(after) == v(value) + e(v(dt) / (state::window_tau(window) as real)) * (v(before) - v(
            value,
        )),
{
    let tau = state::window_tau(window);
    let (share, gap, step) = choose|share: T::F, gap: T::F, step: T::F| #[trigger]
        state::is_decay(t, dt, window, share) && #[trigger] call_ensures(
            T::minus,
            (&t, value, before),
            gap,
        ) && #[trigger] call_ensures(T::times, (&t, share, gap), step) && call_ensures(
            T::plus,
            (&t, before, step),
            after,
        );
    let (q, left, one) = choose|q: T::F, left: T::F, one: T::F| #[trigger]
        state::is_quotient(t, dt, tau, q) && #[trigger] call_ensures(T::exp_minus, (&t, q), left)
            && #[trigger] call_ensures(T::whole, (&t, 1i64), one) && call_ensures(
            T::minus,
            (&t, one, left),
            share,
        );
    let k = choose|k: T::F| #[trigger]
        call_ensures(T::whole, (&t, tau), k) && call_ensures(T::ratio, (&t, dt, k), q);
    assert(v(k) == tau as real);
    assert(tau as real > 0real);
    assert(v(q) == v(dt) / (tau as real));
    let l = v(left);
    let b = v(before);
    let x = v(value);
    assert(v(share) == 1real - l);
    assert(v(after) == b + (1real - l) * (x - b));
    assert(b + (1real - l) * (x - b) == x + l * (b - x)) by (nonlinear_arith);
}

/// Where a value holds, moving an average over two times in a row is the same
/// as moving it over both at once.
pub proof fn law_average_steps_add<T: Arithmetic>(
    t: T,
    v: spec_fn(T::F) -> real,
    e: spec_fn(real) -> real,
    before: T::F,
    value: T::F,
    first: T::F,
    middle: T::F,
    second: T::F,
    after: T::F,
    both: T::F,
    at_once: T::F,
    window: usize,
)
    requires
        is_exact(t, v),
        falls(t, v, e),
        v(both) == v(first) + v(second),
        state::moved_toward(t, before, value, first, window, middle),
        state::moved_toward(t, middle, value, second, window, after),
        state::moved_toward(t, before, value, both, window, at_once),
    ensures
        v(after) == v(at_once),
{
    lemma_moved(t, v, e, before, value, first, window, middle);
    lemma_moved(t, v, e, middle, value, second, window, after);
    lemma_moved(t, v, e, before, value, both, window, at_once);
    let tau = state::window_tau(window) as real;
    let a = v(first) / tau;
    let b = v(second) / tau;
    assert(v(both) / tau == a + b) by (nonlinear_arith)
        requires
            v(both) == v(first) + v(second),
            a == v(first) / tau,
            b == v(second) / tau,
            tau > 0real,
    ;
    assert(e(a + b) == e(a) * e(b));
    let x = v(value);
    let d = v(before) - x;
    let p = e(a);
    let q = e(b);
    assert(q * (p * d) == (p * q) * d) by (nonlinear_arith);
    assert(v(middle) - x == p * d);
}

/// A moving average never passes the value it moves toward: it lies between
/// where it was and the value.
pub proof fn law_average_stays_between<T: Arithmetic>(
    t: T,
    v: spec_fn(T::F) -> real,
    e: spec_fn(real) -> real,
    before: T::F,
    value: T::F,
    dt: T::F,
    window: usize,
    after: T::F,
)
    requires
        is_exact(t, v),
        falls(t, v, e),
        v(dt) >= 0real,
        state::moved_toward(t, before, value, dt, window, after),
    ensures
        v(before) <= v(value) ==> v(before) <= v(after) <= v(value),
        v(before) >= v(value) ==> v(before) >= v(after) >= v(value),
{
    lemma_moved(t, v, e, before, value, dt, window, after);
    let tau = state::window_tau(window) as real;
    let a = v(dt) / tau;
    assert(a >= 0real) by (nonlinear_arith)
        requires
            a == v(dt) / tau,
            v(dt) >= 0real,
            tau > 0real,
    ;
    let l = e(a);
    let x = v(value);
    let d = v(before) - x;
    assert(0real < l <= 1real);
    assert((d >= 0real ==> 0real <= l * d <= d) && (d <= 0real ==> d <= l * d <= 0real))
        by (nonlinear_arith)
        requires
            0real < l <= 1real,
    ;
}

/// Two triples of averages stand for the same numbers.
pub open spec fn same_numbers<F>(
    v: spec_fn(F) -> real,
    a: (F, F, F),
    b: (F, F, F),
) -> bool {
    v(a.0) == v(b.0) && v(a.1) == v(b.1) && v(a.2) == v(b.2)
}

/// While the latest values stay, folding them into the moving averages at two
/// times in a row leaves the same averages as folding them in at the later time
/// alone.
pub proof fn law_windows_steps_add<T: Arithmetic>(
    t: T,
    v: spec_fn(T::F) -> real,
    e: spec_fn(real) -> real,
    zero: T::F,
    start: T::F,
    first: T::F,
    second: T::F,
    d: Seq<T::F>,
    before: Seq<(T::F, T::F, T::F)>,
    middle: Seq<(T::F, T::F, T::F)>,
    after: Seq<(T::F, T::F, T::F)>,
    at_once: Seq<(T::F, T::F, T::F)>,
)
    requires
        is_exact(t, v),
        falls(t, v, e),
        v(zero) == 0real,
        v(start) < v(first) < v(second),
        state::windows_moved(t, zero, Some(start), first, d, before, middle),
        state::windows_moved(t, zero, Some(first), second, d, middle, after),
        state::windows_moved(t, zero, Some(start), second, d, before, at_once),
    ensures
        after.len() == at_once.len(),
        forall|i: int|
            0 <= i < after.len() ==> same_numbers(v, #[trigger] after[i], at_once[i]),
{
    let n = state::SERIES_COUNT;
    let x = choose|dt: T::F| #[trigger]
        call_ensures(T::minus, (&t, first, start), dt) && v(dt) > 0real && forall|i: int|
            0 <= i < n ==> state::decayed_to(t, before[i], d[i], dt, #[trigger] middle[i]);
    let y = choose|dt: T::F| #[trigger]
        call_ensures(T::minus, (&t, second, first), dt) && v(dt) > 0real && forall|i: int|
            0 <= i < n ==> state::decayed_to(t, middle[i], d[i], dt, #[trigger] after[i]);
    let z = choose|dt: T::F| #[trigger]
        call_ensures(T::minus, (&t, second, start), dt) && v(dt) > 0real && forall|i: int|
            0 <= i < n ==> state::decayed_to(t, before[i], d[i], dt, #[trigger] at_once[i]);
    assert forall|i: int| 0 <= i < after.len() implies same_numbers(
        v,
        #[trigger] after[i],
        at_once[i],
    ) by {
        let (p, q, r, s, c) = (before[i], middle[i], after[i], at_once[i], d[i]);
        assert(state::decayed_to(t, p, c, x, q));
        assert(state::decayed_to(t, q, c, y, r));
        assert(state::decayed_to(t, p, c, z, s));
        law_average_steps_add(t, v, e, p.0, c, x, q.0, y, r.0, z, s.0, 0);
        law_average_steps_add(t, v, e, p.1, c, x, q.1, y, r.1, z, s.1, 1);
        law_average_steps_add(t, v, e, p.2, c, x, q.2, y, r.2, z, s.2, 2);
    }
}

/// `b` lies between `a` and `c`.
pub open spec fn lies_between(a: real, b: real, c: real) -> bool {
    (a <= c ==> a <= b <= c) && (a >= c ==> a >= b >= c)
}

/// Folding the latest values into the moving averages moves every one of them
/// toward its value without passing it; none moves where no time has passed.
pub proof fn law_windows_move_toward<T: Arithmetic>(
    t: T,
    v: spec_fn(T::F) -> real,
    e: spec_fn(real) -> real,
    zero: T::F,
    start: T::F,
    now: T::F,
    d: Seq<T::F>,
    before: Seq<(T::F, T::F, T::F)>,
    after: Seq<(T::F, T::F, T::F)>,
)
    requires
        is_exact(t, v),
        falls(t, v, e),
        v(zero) == 0real,
        before.len() == state::SERIES_COUNT,
        state::windows_moved(t, zero, Some(start), now, d, before, after),
    ensures
        after.len() == before.len(),
        v(now) <= v(start) ==> after == before,
        forall|i: int|
            0 <= i < after.len() ==> lies_between(
                v(before[i].0),
                v((#[trigger] after[i]).0),
                v(d[i]),
            ) && lies_between(v(before[i].1), v(after[i].1), v(d[i])) && lies_between(
                v(before[i].2),
                v(after[i].2),
                v(d[i]),
            ),
{
    let n = state::SERIES_COUNT;
    if v(now) > v(start) {
        let dt = choose|dt: T::F| #[trigger]
            call_ensures(T::minus, (&t, now, start), dt) && v(dt) > 0real && forall|i: int|
                0 <= i < n ==> state::decayed_to(t, before[i], d[i], dt, #[trigger] after[i]);
        assert forall|i: int| 0 <= i < after.len() implies lies_between(
            v(before[i].0),
            v((#[trigger] after[i]).0),
            v(d[i]),
        ) && lies_between(v(before[i].1), v(after[i].1), v(d[i])) && lies_between(
            v(before[i].2),
            v(after[i].2),
            v(d[i]),
        ) by {
            let (p, r, c) = (before[i], after[i], d[i]);
            assert(state::decayed_to(t, p, c, dt, r));
            law_average_stays_between(t, v, e, p.0, c, dt, 0, r.0);
            law_average_stays_between(t, v, e, p.1, c, dt, 1, r.1);
            law_average_stays_between(t, v, e, p.2, c, dt, 2, r.2);
        }
    }
}

/// The number that the target lies at, from bucket `i` on: the gains `ds` of
/// the buckets up to the bounds `ls`, of which the ones that are
/// `endless` have no bound.
pub open spec fn at_target(
    ds: Seq<real>,
    ls: Seq<real>,
    endless: Seq<bool>,
    target: real,
    i: int,
    before: real,
    lower: real,
) -> real
    decreases ds.len() - i,
{
    if i < 0 || i >= ds.len() {
        lower
    } else if target <= ds[i] {
        if endless[i] {
            lower
        } else if ds[i] - before <= 0real {
            ls[i]
        } else {
            lower + (target - before) / (ds[i] - before) * (ls[i] - lower)
        }
    } else {
        at_target(
            ds,
            ls,
            endless,
            target,
            i + 1,
            ds[i],
            if endless[i] {
                lower
            } else {
                ls[i]
            },
        )
    }
}

/// Finite bounds are not negative, and they ascend.
pub open spec fn are_bounds(ls: Seq<real>, endless: Seq<bool>) -> bool {
    &&& ls.len() == endless.len()
    &&& forall|i: int| 0 <= i < ls.len() && !endless[i] ==> #[trigger] ls[i] >= 0real
    &&& forall|i: int, j: int|
        0 <= i < j < ls.len() && !endless[i] && !endless[j] ==> #[trigger] ls[i]
            <= #[trigger] ls[j]
}

/// `before` and `lower` are what a walk over the buckets has come to at `i`.
spec fn walked(
    ds: Seq<real>,
    ls: Seq<real>,
    endless: Seq<bool>,
    target: real,
    i: int,
    before: real,
    lower: real,
) -> bool {
    &&& 0 <= i <= ds.len() == ls.len()
    &&& before <= target
    &&& lower >= 0real
    &&& forall|j: int| i <= j < ls.len() && !endless[j] ==> lower <= #[trigger] ls[j]
}

proof fn lemma_target_within(
    ds: Seq<real>,
    ls: Seq<real>,
    endless: Seq<bool>,
    target: real,
    i: int,
    before: real,
    lower: real,
    top: real,
)
    requires
        are_bounds(ls, endless),
        walked(ds, ls, endless, target, i, before, lower),
        lower <= top,
        forall|j: int| 0 <= j < ls.len() && !endless[j] ==> #[trigger] ls[j] <= top,
    ensures
        lower <= at_target(ds, ls, endless, target, i, before, lower) <= top,
    decreases ds.len() - i,
{
    if i < ds.len() {
        if target <= ds[i] {
            if !endless[i] {
                assert(lower <= ls[i] <= top);
                if ds[i] - before > 0real {
                    lemma_part(target - before, ds[i] - before, ls[i] - lower);
                }
            }
        } else {
            let next = if endless[i] {
                lower
            } else {
                ls[i]
            };
            lemma_target_within(ds, ls, endless, target, i + 1, ds[i], next, top);
            assert(!endless[i] ==> lower <= ls[i]);
        }
    }
}

proof fn lemma_part(part: real, span: real, width: real)
    requires
        0real <= part <= span,
        0real < span,
        0real <= width,
    ensures
        0real <= part / span * width <= width,
{
    let f = part / span;
    assert(0real <= f <= 1real) by (nonlinear_arith)
        requires
            f == part / span,
            0real <= part <= span,
            0real < span,
    ;
    assert(0real <= f * width <= width) by (nonlinear_arith)
        requires
            0real <= f <= 1real,
            0real <= width,
    ;
}

proof fn lemma_parts(a: real, b: real, span: real, width: real)
    requires
        a <= b,
        0real < span,
        0real <= width,
    ensures
        a / span * width <= b / span * width,
{
    let f = a / span;
    let g = b / span;
    assert(f <= g) by (nonlinear_arith)
        requires
            f == a / span,
            g == b / span,
            a <= b,
            0real < span,
    ;
    assert(f * width <= g * width) by (nonlinear_arith)
        requires
            f <= g,
            0real <= width,
    ;
}

proof fn lemma_target_grows(
    ds: Seq<real>,
    ls: Seq<real>,
    endless: Seq<bool>,
    low: real,
    high: real,
    i: int,
    before: real,
    lower: real,
    top: real,
)
    requires
        are_bounds(ls, endless),
        low <= high,
        walked(ds, ls, endless, low, i, before, lower),
        lower <= top,
        forall|j: int| 0 <= j < ls.len() && !endless[j] ==> #[trigger] ls[j] <= top,
    ensures
        at_target(ds, ls, endless, low, i, before, lower) <= at_target(
            ds,
            ls,
            endless,
            high,
            i,
            before,
            lower,
        ),
    decreases ds.len() - i,
{
    if i < ds.len() {
        let next = if endless[i] {
            lower
        } else {
            ls[i]
        };
        assert(!endless[i] ==> lower <= ls[i] <= top);
        if high <= ds[i] {
            if !endless[i] && ds[i] - before > 0real {
                lemma_parts(low - before, high - before, ds[i] - before, ls[i] - lower);
            }
        } else if low <= ds[i] {
            if !endless[i] && ds[i] - before > 0real {
                lemma_part(low - before, ds[i] - before, ls[i] - lower);
            }
            lemma_target_within(ds, ls, endless, high, i + 1, ds[i], next, top);
        } else {
            lemma_target_grows(ds, ls, endless, low, high, i + 1, ds[i], next, top);
        }
    }
}

/// What a bucket gained; one that lost gained nothing.
pub open spec fn gain_of(before: real, after: real) -> real {
    if after < before {
        0real
    } else {
        after - before
    }
}

/// What the buckets of two states of a histogram stand for: the same ascending
/// bounds in both, and what each bucket gained.
pub open spec fn is_window<T: Arithmetic>(
    t: T,
    v: spec_fn(T::F) -> real,
    prev: Histogram<T::F>,
    cur: Histogram<T::F>,
    ds: Seq<real>,
    ls: Seq<real>,
    endless: Seq<bool>,
) -> bool {
    let n = cur.buckets@.len();
    &&& prev.buckets@.len() == n && ds.len() == n && ls.len() == n && endless.len() == n
    &&& forall|i: int|
        0 <= i < n ==> v((#[trigger] cur.buckets@[i]).0) == ls[i] && v(prev.buckets@[i].0) == ls[i]
            && ds[i] == gain_of(v(prev.buckets@[i].1), v(cur.buckets@[i].1))
    &&& forall|i: int, j: int| 0 <= i < j < n ==> #[trigger] ls[i] < #[trigger] ls[j]
    &&& forall|i: int, r: bool|
        0 <= i < n && #[trigger] call_ensures(T::is_infinite, (&t, cur.buckets@[i].0), r) ==> r
            == endless[i]
}

proof fn lemma_gain<T: Arithmetic>(
    t: T,
    v: spec_fn(T::F) -> real,
    zero: T::F,
    prev: Histogram<T::F>,
    cur: Histogram<T::F>,
    ds: Seq<real>,
    ls: Seq<real>,
    endless: Seq<bool>,
    i: int,
    d: T::F,
)
    requires
        is_exact(t, v),
        v(zero) == 0real,
        is_window(t, v, prev, cur, ds, ls, endless),
        are_bounds(ls, endless),
        0 <= i < ds.len(),
        state::gained(t, zero, prev, cur, cur.buckets@[i].0, d),
    ensures
        v(d) == ds[i],
{
    let le = cur.buckets@[i].0;
    let (a, b, diff, lost) = choose|a: T::F, b: T::F, diff: T::F, lost: bool| #[trigger]
        state::counts(t, zero, cur, le, a) && #[trigger] state::counts(t, zero, prev, le, b)
            && #[trigger] call_ensures(T::minus, (&t, a, b), diff) && #[trigger] call_ensures(
            T::under,
            (&t, diff, zero),
            lost,
        ) && d == if lost {
            zero
        } else {
            diff
        };
    lemma_count(t, v, zero, cur, ls, i, le, a);
    assert forall|j: int| 0 <= j < prev.buckets@.len() implies v((#[trigger] prev.buckets@[j]).0)
        == ls[j] by {
        assert(v(cur.buckets@[j].0) == ls[j]);
    }
    lemma_count(t, v, zero, prev, ls, i, le, b);
    assert(ds[i] == gain_of(v(prev.buckets@[i].1), v(cur.buckets@[i].1)));
}

proof fn lemma_count<T: Arithmetic>(
    t: T,
    v: spec_fn(T::F) -> real,
    zero: T::F,
    h: Histogram<T::F>,
    ls: Seq<real>,
    i: int,
    le: T::F,
    a: T::F,
)
    requires
        is_exact(t, v),
        h.buckets@.len() == ls.len(),
        forall|j: int| 0 <= j < ls.len() ==> v((#[trigger] h.buckets@[j]).0) == ls[j],
        forall|j: int, k: int| 0 <= j < k < ls.len() ==> #[trigger] ls[j] < #[trigger] ls[k],
        0 <= i < ls.len(),
        v(le) == ls[i],
        state::counts(t, zero, h, le, a),
    ensures
        a == h.buckets@[i].1,
{
    let ok = |x: T::F| true;
    let p = h.buckets@;
    assert(ascend(p, ok, v)) by {
        assert forall|j: int, k: int| 0 <= j < k < p.len() implies v((#[trigger] p[j]).0) < v(
            (#[trigger] p[k]).0,
        ) by {
            assert(ls[j] < ls[k]);
        }
    }
    let at = choose|at: int| #[trigger]
        state::found_at(t, p, le, at) && a == if at < p.len() {
            p[at].1
        } else {
            zero
        };
    lemma_found(t, ok, v, p, le, at);
    assert(v(p[i].0) == v(le));
    assert(has_bound(p, v, v(le)));
    if at < i {
        assert(v(p[at].0) < v(p[i].0));
    } else if i < at {
        assert(v(p[i].0) < v(p[at].0));
    }
}

proof fn lemma_quantile_from<T: Arithmetic>(
    t: T,
    v: spec_fn(T::F) -> real,
    zero: T::F,
    prev: Histogram<T::F>,
    cur: Histogram<T::F>,
    ds: Seq<real>,
    ls: Seq<real>,
    endless: Seq<bool>,
    target: T::F,
    i: int,
    before: T::F,
    lower: T::F,
    r: T::F,
)
    requires
        is_exact(t, v),
        v(zero) == 0real,
        is_window(t, v, prev, cur, ds, ls, endless),
        are_bounds(ls, endless),
        0 <= i <= ds.len(),
        state::quantile_from(t, zero, prev, cur, target, i, before, lower, r),
    ensures
        v(r) == at_target(ds, ls, endless, v(target), i, v(before), v(lower)),
    decreases ds.len() - i,
{
    if i < ds.len() {
        let le = cur.buckets@[i].0;
        assert(v(le) == ls[i]);
        let (d, reached, ends) = choose|d: T::F, reached: bool, ends: bool| #[trigger]
            state::gained(t, zero, prev, cur, le, d) && #[trigger] call_ensures(
                T::at_most,
                (&t, target, d),
                reached,
            ) && #[trigger] call_ensures(T::is_infinite, (&t, le), ends) && if reached {
                state::within_bucket(t, zero, target, before, d, lower, le, r)
            } else {
                state::quantile_from(
                    t,
                    zero,
                    prev,
                    cur,
                    target,
                    i + 1,
                    d,
                    if ends {
                        lower
                    } else {
                        le
                    },
                    r,
                )
            };
        lemma_gain(t, v, zero, prev, cur, ds, ls, endless, i, d);
        assert(ends == endless[i]);
        if reached {
            lemma_within_bucket(t, v, zero, target, before, d, lower, le, endless[i], r);
        } else {
            let next = if ends {
                lower
            } else {
                le
            };
            lemma_quantile_from(
                t,
                v,
                zero,
                prev,
                cur,
                ds,
                ls,
                endless,
                target,
                i + 1,
                d,
                next,
                r,
            );
        }
    }
}

proof fn lemma_within_bucket<T: Arithmetic>(
    t: T,
    v: spec_fn(T::F) -> real,
    zero: T::F,
    target: T::F,
    before: T::F,
    after: T::F,
    lower: T::F,
    le: T::F,
    ends: bool,
    r: T::F,
)
    requires
        is_exact(t, v),
        v(zero) == 0real,
        state::within_bucket(t, zero, target, before, after, lower, le, r),
        forall|x: bool| #[trigger] call_ensures(T::is_infinite, (&t, le), x) ==> x == ends,
    ensures
        v(r) == if ends {
            v(lower)
        } else if v(after) - v(before) <= 0real {
            v(le)
        } else {
            v(lower) + (v(target) - v(before)) / (v(after) - v(before)) * (v(le) - v(lower))
        },
{
    if !ends {
        let (span, flat) = choose|span: T::F, flat: bool| #[trigger]
            call_ensures(T::minus, (&t, after, before), span) && #[trigger] call_ensures(
                T::at_most,
                (&t, span, zero),
                flat,
            ) && if flat {
                r == le
            } else {
                state::is_interpolated(t, target, before, span, lower, le, r)
            };
        if !flat {
            let (part, frac, width, step) = choose|part: T::F, frac: T::F, width: T::F, step: T::F|
                #[trigger] call_ensures(T::minus, (&t, target, before), part) && #[trigger]
                call_ensures(T::ratio, (&t, part, span), frac) && #[trigger] call_ensures(
                    T::minus,
                    (&t, le, lower),
                    width,
                ) && #[trigger] call_ensures(T::times, (&t, frac, width), step) && call_ensures(
                    T::plus,
                    (&t, lower, step),
                    r,
                );
            assert(v(span) != 0real);
        }
    }
}

/// A quantile is not below zero and not above the finite bounds, and it does
/// not fall as `q` grows, whatever the buckets gained. It is zero where nothing
/// was observed.
pub proof fn law_quantiles_grow<T: Arithmetic>(
    t: T,
    v: spec_fn(T::F) -> real,
    zero: T::F,
    prev: Histogram<T::F>,
    cur: Histogram<T::F>,
    ds: Seq<real>,
    ls: Seq<real>,
    endless: Seq<bool>,
    low: T::F,
    high: T::F,
    a: T::F,
    b: T::F,
    top: real,
)
    requires
        is_exact(t, v),
        v(zero) == 0real,
        is_window(t, v, prev, cur, ds, ls, endless),
        are_bounds(ls, endless),
        0real <= v(low) <= v(high),
        top >= 0real,
        forall|j: int| 0 <= j < ls.len() && !endless[j] ==> #[trigger] ls[j] <= top,
        state::is_quantile(t, zero, prev, cur, low, a),
        state::is_quantile(t, zero, prev, cur, high, b),
    ensures
        v(a) <= v(b),
        0real <= v(a) <= top,
        0real <= v(b) <= top,
        cur.buckets@.len() == 0 || v(cur.count) <= v(prev.count) ==> a == zero && b == zero,
{
    if cur.buckets@.len() > 0 && v(cur.count) > v(prev.count) {
        let total = v(cur.count) - v(prev.count);
        let x = v(low) * total;
        let y = v(high) * total;
        lemma_quantile(t, v, zero, prev, cur, ds, ls, endless, low, a);
        lemma_quantile(t, v, zero, prev, cur, ds, ls, endless, high, b);
        assert(0real <= x <= y) by (nonlinear_arith)
            requires
                x == v(low) * total,
                y == v(high) * total,
                0real <= v(low) <= v(high),
                total > 0real,
        ;
        lemma_target_within(ds, ls, endless, x, 0, 0real, 0real, top);
        lemma_target_within(ds, ls, endless, y, 0, 0real, 0real, top);
        lemma_target_grows(ds, ls, endless, x, y, 0, 0real, 0real, top);
    }
}

proof fn lemma_quantile<T: Arithmetic>(
    t: T,
    v: spec_fn(T::F) -> real,
    zero: T::F,
    prev: Histogram<T::F>,
    cur: Histogram<T::F>,
    ds: Seq<real>,
    ls: Seq<real>,
    endless: Seq<bool>,
    q: T::F,
    r: T::F,
)
    requires
        is_exact(t, v),
        v(zero) == 0real,
        is_window(t, v, prev, cur, ds, ls, endless),
        are_bounds(ls, endless),
        state::is_quantile(t, zero, prev, cur, q, r),
        cur.buckets@.len() > 0,
        v(cur.count) > v(prev.count),
    ensures
        v(r) == at_target(
            ds,
            ls,
            endless,
            v(q) * (v(cur.count) - v(prev.count)),
            0,
            0real,
            0real,
        ),
{
    let (total, none, target) = choose|total: T::F, none: bool, target: T::F| #[trigger]
        call_ensures(T::minus, (&t, cur.count, prev.count), total) && #[trigger] call_ensures(
            T::at_most,
            (&t, total, zero),
            none,
        ) && #[trigger] call_ensures(T::times, (&t, q, total), target) && if none {
            r == zero
        } else {
            state::quantile_from(t, zero, prev, cur, target, 0, zero, zero, r)
        };
    lemma_quantile_from(t, v, zero, prev, cur, ds, ls, endless, target, 0, zero, zero, r);
}

/// What was reached before place `k`, or zero where that is the first.
pub open spec fn before_place(s: Seq<real>, k: int) -> real {
    if k > 0 {
        s[k - 1]
    } else {
        0real
    }
}

/// A quantile lies in the first bucket up to whose bound its share of all that
/// was observed was observed. There it parts the bucket as its share parts what
/// the bucket gained over the one before.
pub proof fn law_quantile_parts_its_bucket<T: Arithmetic>(
    t: T,
    v: spec_fn(T::F) -> real,
    zero: T::F,
    prev: Histogram<T::F>,
    cur: Histogram<T::F>,
    ds: Seq<real>,
    ls: Seq<real>,
    endless: Seq<bool>,
    q: T::F,
    r: T::F,
    k: int,
)
    requires
        is_exact(t, v),
        v(zero) == 0real,
        is_window(t, v, prev, cur, ds, ls, endless),
        are_bounds(ls, endless),
        v(cur.count) > v(prev.count),
        state::is_quantile(t, zero, prev, cur, q, r),
        0 <= k < ds.len(),
        forall|j: int| 0 <= j <= k ==> !#[trigger] endless[j],
        forall|j: int|
            0 <= j < k ==> #[trigger] ds[j] < v(q) * (v(cur.count) - v(prev.count)),
        v(q) * (v(cur.count) - v(prev.count)) <= ds[k],
        before_place(ds, k) < ds[k],
    ensures
        ({
            let share = v(q) * (v(cur.count) - v(prev.count));
            let (below, lower) = (before_place(ds, k), before_place(ls, k));
            (v(r) - lower) * (ds[k] - below) == (share - below) * (ls[k] - lower)
        }),
{
    let share = v(q) * (v(cur.count) - v(prev.count));
    lemma_quantile(t, v, zero, prev, cur, ds, ls, endless, q, r);
    lemma_first_reached(ds, ls, endless, share, 0, k);
    let (below, lower) = (before_place(ds, k), before_place(ls, k));
    let (part, span, width) = (share - below, ds[k] - below, ls[k] - lower);
    assert(part / span * width * span == part * width) by (nonlinear_arith)
        requires
            span > 0real,
    ;
}

proof fn lemma_first_reached(
    ds: Seq<real>,
    ls: Seq<real>,
    endless: Seq<bool>,
    target: real,
    i: int,
    k: int,
)
    requires
        0 <= i <= k < ds.len(),
        forall|j: int| 0 <= j <= k ==> !#[trigger] endless[j],
        forall|j: int| 0 <= j < k ==> #[trigger] ds[j] < target,
        target <= ds[k],
        before_place(ds, k) < ds[k],
    ensures
        at_target(ds, ls, endless, target, i, before_place(ds, i), before_place(ls, i))
            == before_place(ls, k) + (target - before_place(ds, k)) / (ds[k] - before_place(ds, k))
            * (ls[k] - before_place(ls, k)),
    decreases k - i,
{
    assert(!endless[i]);
    if i < k {
        lemma_first_reached(ds, ls, endless, target, i + 1, k);
        assert(ds[i] < target);
    }
}

} // verus!
