//! The times that things take, in seconds, with exact arithmetic.

use vstd::prelude::*;

use crate::collectors::common::fetch_timeout;
use crate::config;
use crate::exact;
use crate::mock_server::config::MockServerConfig;
use crate::mock_server::simulate::traffic_interval;
use crate::state;
use crate::state::Arithmetic;
use crate::ui::frame::toast_end;
use crate::ui::poller::{faster, nap, slower};

verus! {

/// The arithmetic is exact, and picks the larger and the smaller of two values.
pub open spec fn picks<T: Arithmetic>(t: T, v: spec_fn(T::F) -> real) -> bool {
    &&& exact::is_exact(t, v)
    &&& forall|a: T::F, b: T::F, r: T::F| #[trigger]
        call_ensures(T::larger, (&t, a, b), r) ==> v(r) == if v(a) < v(b) {
            v(b)
        } else {
            v(a)
        }
    &&& forall|a: T::F, b: T::F, r: T::F| #[trigger]
        call_ensures(T::smaller, (&t, a, b), r) ==> v(r) == if v(a) < v(b) {
            v(a)
        } else {
            v(b)
        }
}

pub proof fn lemma_fraction<T: Arithmetic>(
    t: T,
    v: spec_fn(T::F) -> real,
    n: i64,
    d: i64,
    r: T::F,
)
    requires
        exact::is_exact(t, v),
        d != 0,
        state::is_fraction(t, n, d, r),
    ensures
        v(r) * (d as real) == n as real,
{
    let (a, b) = choose|a: T::F, b: T::F| #[trigger]
        call_ensures(T::whole, (&t, n), a) && #[trigger] call_ensures(T::whole, (&t, d), b)
            && call_ensures(T::ratio, (&t, a, b), r);
    let (x, y) = (n as real, d as real);
    assert((x / y) * y == x) by (nonlinear_arith)
        requires
            y != 0real,
    ;
}

pub proof fn lemma_quotient<T: Arithmetic>(
    t: T,
    v: spec_fn(T::F) -> real,
    a: T::F,
    n: i64,
    r: T::F,
)
    requires
        exact::is_exact(t, v),
        n != 0,
        state::is_quotient(t, a, n, r),
    ensures
        v(r) * (n as real) == v(a),
{
    let b = choose|b: T::F| #[trigger]
        call_ensures(T::whole, (&t, n), b) && call_ensures(T::ratio, (&t, a, b), r);
    let (x, y) = (v(a), n as real);
    assert((x / y) * y == x) by (nonlinear_arith)
        requires
            y != 0real,
    ;
}

/// Polling faster halves the interval down to a fifth of a second, and slower
/// doubles it up to ten seconds; beyond these bounds it stays as it is.
pub proof fn law_steps_halve_and_double<T: Arithmetic>(
    t: T,
    v: spec_fn(T::F) -> real,
    interval: T::F,
    less: T::F,
    more: T::F,
)
    requires
        picks(t, v),
        v(interval) > 0real,
        call_ensures(faster::<T>, (&t, interval), less),
        call_ensures(slower::<T>, (&t, interval), more),
    ensures
        5real * v(interval) >= 2real ==> v(less) + v(less) == v(interval),
        1real <= 5real * v(interval) <= 2real ==> 5real * v(less) == 1real,
        5real * v(interval) <= 1real ==> v(less) == v(interval),
        v(interval) <= 5real ==> v(more) == v(interval) + v(interval),
        5real <= v(interval) <= 10real ==> v(more) == 10real,
        v(interval) >= 10real ==> v(more) == v(interval),
{
    let (half, least, step) = choose|half: T::F, least: T::F, step: T::F| #[trigger]
        state::is_quotient(t, interval, 2, half) && #[trigger] state::is_fraction(t, 2, 10, least)
            && #[trigger] call_ensures(T::larger, (&t, least, half), step) && call_ensures(
            T::smaller,
            (&t, interval, step),
            less,
        );
    lemma_quotient(t, v, interval, 2, half);
    lemma_fraction(t, v, 2, 10, least);
    assert(v(half) * 2real == v(interval));
    assert(v(least) * 10real == 2real);
    let (double, most, step) = choose|double: T::F, most: T::F, step: T::F| #[trigger]
        state::is_product(t, interval, 2, double) && #[trigger] call_ensures(
            T::whole,
            (&t, 10i64),
            most,
        ) && #[trigger] call_ensures(T::smaller, (&t, most, double), step) && call_ensures(
            T::larger,
            (&t, interval, step),
            more,
        );
    let two = choose|b: T::F| #[trigger]
        call_ensures(T::whole, (&t, 2i64), b) && call_ensures(T::times, (&t, interval, b), double);
    assert(v(double) == v(interval) * 2real);
}

/// Polling slower takes polling faster back, from two fifths of a second to
/// ten seconds.
pub proof fn law_slower_undoes_faster<T: Arithmetic>(
    t: T,
    v: spec_fn(T::F) -> real,
    interval: T::F,
    less: T::F,
    back: T::F,
)
    requires
        picks(t, v),
        2real <= 5real * v(interval) <= 50real,
        call_ensures(faster::<T>, (&t, interval), less),
        call_ensures(slower::<T>, (&t, less), back),
    ensures
        v(back) == v(interval),
{
    let (half, least, step) = choose|half: T::F, least: T::F, step: T::F| #[trigger]
        state::is_quotient(t, interval, 2, half) && #[trigger] state::is_fraction(t, 2, 10, least)
            && #[trigger] call_ensures(T::larger, (&t, least, half), step) && call_ensures(
            T::smaller,
            (&t, interval, step),
            less,
        );
    lemma_quotient(t, v, interval, 2, half);
    lemma_fraction(t, v, 2, 10, least);
    assert(v(half) * 2real == v(interval));
    assert(v(least) * 10real == 2real);
    let (double, most, step) = choose|double: T::F, most: T::F, step: T::F| #[trigger]
        state::is_product(t, less, 2, double) && #[trigger] call_ensures(
            T::whole,
            (&t, 10i64),
            most,
        ) && #[trigger] call_ensures(T::smaller, (&t, most, double), step) && call_ensures(
            T::larger,
            (&t, less, step),
            back,
        );
    let two = choose|b: T::F| #[trigger]
        call_ensures(T::whole, (&t, 2i64), b) && call_ensures(T::times, (&t, less, b), double);
    assert(v(double) == v(less) * 2real);
}

/// The naps between two polls never last longer than a tenth of a second, nor
/// past the interval, and there is one more just while the interval lasts.
pub proof fn law_naps_fill_the_interval<T: Arithmetic>(
    t: T,
    v: spec_fn(T::F) -> real,
    interval: T::F,
    slept: T::F,
    r: Option<T::F>,
)
    requires
        picks(t, v),
        call_ensures(nap::<T>, (&t, interval, slept), r),
    ensures
        r is Some <==> v(slept) < v(interval),
        r matches Some(nap) ==> {
            &&& v(nap) > 0real
            &&& 10real * v(nap) <= 1real
            &&& v(slept) + v(nap) <= v(interval)
            &&& 10real * v(nap) == 1real || v(slept) + v(nap) == v(interval)
        },
{
    let more = choose|more: bool| #[trigger]
        call_ensures(T::under, (&t, slept, interval), more) && match r {
            None => !more,
            Some(nap) => more && exists|tenth: T::F, left: T::F| #[trigger]
                state::is_fraction(t, 1, 10, tenth) && #[trigger] call_ensures(
                    T::minus,
                    (&t, interval, slept),
                    left,
                ) && call_ensures(T::smaller, (&t, tenth, left), nap),
        };
    if let Some(nap) = r {
        let (tenth, left) = choose|tenth: T::F, left: T::F| #[trigger]
            state::is_fraction(t, 1, 10, tenth) && #[trigger] call_ensures(
                T::minus,
                (&t, interval, slept),
                left,
            ) && call_ensures(T::smaller, (&t, tenth, left), nap);
        lemma_fraction(t, v, 1, 10, tenth);
        assert(v(tenth) * 10real == 1real);
    }
}

/// A toast stays for one and a half seconds.
pub proof fn law_toasts_stay<T: Arithmetic>(t: T, v: spec_fn(T::F) -> real, now: T::F, end: T::F)
    requires
        exact::is_exact(t, v),
        call_ensures(toast_end::<T>, (&t, now), end),
    ensures
        2real * (v(end) - v(now)) == 3real,
{
    let stay = choose|stay: T::F| #[trigger]
        state::is_fraction(t, 3, 2, stay) && call_ensures(T::plus, (&t, now, stay), end);
    lemma_fraction(t, v, 3, 2, stay);
    assert(v(stay) * 2real == 3real);
}

/// A fetch is given as long as was asked for, but at least a millisecond.
pub proof fn law_timeouts_have_a_floor<T: Arithmetic>(
    t: T,
    v: spec_fn(T::F) -> real,
    seconds: T::F,
    r: T::F,
)
    requires
        picks(t, v),
        call_ensures(fetch_timeout::<T>, (&t, seconds), r),
    ensures
        1_000real * v(seconds) >= 1real ==> v(r) == v(seconds),
        1_000real * v(seconds) <= 1real ==> 1_000real * v(r) == 1real,
{
    let least = choose|least: T::F| #[trigger]
        state::is_fraction(t, 1, 1_000, least) && call_ensures(T::larger, (&t, seconds, least), r);
    lemma_fraction(t, v, 1, 1_000, least);
    assert(v(least) * 1_000real == 1real);
}

/// Generated traffic comes as often as a request takes, and at most ten times a
/// second.
pub proof fn law_traffic_has_a_pace<T: Arithmetic>(
    t: T,
    v: spec_fn(T::F) -> real,
    c: MockServerConfig<T::F>,
    r: T::F,
)
    requires
        picks(t, v),
        call_ensures(traffic_interval::<T>, (&t, &c), r),
    ensures
        10real * v(c.request_latency) >= 1real ==> v(r) == v(c.request_latency),
        10real * v(c.request_latency) <= 1real ==> 10real * v(r) == 1real,
{
    law_intervals_have_a_floor(t, v, c.request_latency, r);
}

/// An interval that was asked for is kept from a tenth of a second on.
pub proof fn law_intervals_have_a_floor<T: Arithmetic>(
    t: T,
    v: spec_fn(T::F) -> real,
    asked: T::F,
    r: T::F,
)
    requires
        picks(t, v),
        config::is_at_least_a_tenth(t, asked, r),
    ensures
        10real * v(asked) >= 1real ==> v(r) == v(asked),
        10real * v(asked) <= 1real ==> 10real * v(r) == 1real,
{
    let least = choose|least: T::F| #[trigger]
        state::is_fraction(t, 1, 10, least) && call_ensures(T::larger, (&t, asked, least), r);
    lemma_fraction(t, v, 1, 10, least);
    assert(v(least) * 10real == 1real);
}

} // verus!
