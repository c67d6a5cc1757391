//! Which number and which unit the compact texts are in, with exact arithmetic.

use vstd::prelude::*;

use crate::exact;
use crate::state;
use crate::text;
use crate::timing;
use crate::ui::cells;
use crate::ui::figures;
use crate::ui::figures::fmt_chars;
use crate::ui::widgets;
use crate::ui::widgets::{big_number, fmt_bytes, fmt_duration, fmt_seconds, Figures};

verus! {

/// `s` is the number `w` with the given count of decimals, and a suffix.
pub open spec fn printed<T: Figures>(
    t: T,
    w: T::F,
    decimals: usize,
    suffix: Seq<char>,
    s: Seq<char>,
) -> bool {
    exists|b: String| #[trigger]
        call_ensures(T::fixed, (&t, w, decimals), b) && s == b@ + suffix
}

proof fn lemma_fixed_with<T: Figures>(
    t: T,
    w: T::F,
    decimals: usize,
    suffix: Seq<char>,
    s: Seq<char>,
)
    requires
        widgets::is_fixed_with(t, w, decimals, suffix, s),
    ensures
        printed(t, w, decimals, suffix, s),
{
    let body = choose|body: Seq<char>|
        widgets::is_fixed(t, w, decimals, body) && s == #[trigger] (body + suffix);
    let r = choose|r: String| #[trigger]
        call_ensures(T::fixed, (&t, w, decimals), r) && r@ == body;
    assert(s == r@ + suffix);
}

/// The number that a scaled text prints.
proof fn lemma_scaled<T: Figures>(
    t: T,
    v: spec_fn(T::F) -> real,
    x: T::F,
    n: i64,
    decimals: usize,
    suffix: Seq<char>,
    s: Seq<char>,
) -> (w: T::F)
    requires
        exact::is_exact(t, v),
        n != 0,
        widgets::is_scaled_with(t, x, n, decimals, suffix, s),
    ensures
        v(w) * (n as real) == v(x),
        printed(t, w, decimals, suffix, s),
{
    let body = choose|body: Seq<char>|
        widgets::is_scaled(t, x, n, decimals, body) && s == #[trigger] (body + suffix);
    let w = choose|w: T::F| #[trigger]
        state::is_quotient(t, x, n, w) && widgets::is_fixed(t, w, decimals, body);
    let r = choose|r: String| #[trigger]
        call_ensures(T::fixed, (&t, w, decimals), r) && r@ == body;
    assert(s == r@ + suffix);
    timing::lemma_quotient(t, v, x, n, w);
    w
}

/// A compact number: millions with two decimals from a million on, thousands
/// with one from a thousand on, and below that as it is, with the fewer
/// decimals the larger it is. Its unit comes last.
pub proof fn law_big_numbers_are_scaled<T: Figures>(
    t: T,
    v: spec_fn(T::F) -> real,
    x: T::F,
    unit: &str,
    s: String,
) -> (w: T::F)
    requires
        exact::is_exact(t, v),
        call_ensures(big_number::<T>, (&t, x, unit), s),
    ensures
        v(x) >= 1_000_000real ==> v(w) * 1_000_000real == v(x) && printed(
            t,
            w,
            2,
            "M"@ + unit@,
            s@,
        ),
        1_000real <= v(x) < 1_000_000real ==> v(w) * 1_000real == v(x) && printed(
            t,
            w,
            1,
            "k"@ + unit@,
            s@,
        ),
        100real <= v(x) < 1_000real ==> w == x && printed(t, w, 0, unit@, s@),
        10real <= v(x) < 100real ==> w == x && printed(t, w, 1, unit@, s@),
        v(x) < 10real ==> w == x && printed(t, w, 2, unit@, s@),
{
    let n = choose|n: Seq<char>| widgets::is_compact(t, x, n) && s@ == #[trigger] (n + unit@);
    let (m, k, h, d) = choose|m: bool, k: bool, h: bool, d: bool| #[trigger]
        state::is_at_least(t, x, 1_000_000, m) && #[trigger] state::is_at_least(t, x, 1_000, k)
            && #[trigger] state::is_at_least(t, x, 100, h) && #[trigger] state::is_at_least(
            t,
            x,
            10,
            d,
        ) && if m {
            widgets::is_scaled_with(t, x, 1_000_000, 2, "M"@, n)
        } else if k {
            widgets::is_scaled_with(t, x, 1_000, 1, "k"@, n)
        } else if h {
            widgets::is_fixed(t, x, 0, n)
        } else if d {
            widgets::is_fixed(t, x, 1, n)
        } else {
            widgets::is_fixed(t, x, 2, n)
        };
    assert(m == (v(x) >= 1_000_000real));
    assert(k == (v(x) >= 1_000real));
    assert(h == (v(x) >= 100real));
    assert(d == (v(x) >= 10real));
    if m {
        let w = lemma_scaled(t, v, x, 1_000_000, 2, "M"@, n);
        let r = choose|b: String| #[trigger]
            call_ensures(T::fixed, (&t, w, 2usize), b) && n == b@ + "M"@;
        assert(s@ =~= r@ + ("M"@ + unit@));
        w
    } else if k {
        let w = lemma_scaled(t, v, x, 1_000, 1, "k"@, n);
        let r = choose|b: String| #[trigger]
            call_ensures(T::fixed, (&t, w, 1usize), b) && n == b@ + "k"@;
        assert(s@ =~= r@ + ("k"@ + unit@));
        w
    } else {
        x
    }
}

/// A latency: a dash where there is none, whole milliseconds below a second, and
/// seconds with two decimals from there on.
pub proof fn law_latencies_are_in_their_unit<T: Figures>(
    t: T,
    v: spec_fn(T::F) -> real,
    zero: T::F,
    x: T::F,
    s: String,
) -> (w: T::F)
    requires
        exact::is_exact(t, v),
        v(zero) == 0real,
        call_ensures(fmt_seconds::<T>, (&t, zero, x), s),
    ensures
        v(x) <= 0real ==> s@ == "—"@,
        0real < v(x) < 1real ==> v(w) == 1_000real * v(x) && printed(t, w, 0, "ms"@, s@),
        v(x) >= 1real ==> w == x && printed(t, w, 2, "s"@, s@),
{
    let (none, short, ms) = choose|none: bool, short: bool, ms: T::F| #[trigger]
        call_ensures(T::at_most, (&t, x, zero), none) && #[trigger] state::is_below(t, x, 1, short)
            && #[trigger] state::is_product(t, x, 1_000, ms) && if none {
            s@ == "—"@
        } else if short {
            widgets::is_fixed_with(t, ms, 0, "ms"@, s@)
        } else {
            widgets::is_fixed_with(t, x, 2, "s"@, s@)
        };
    assert(short == (v(x) < 1real));
    let k = choose|k: T::F| #[trigger]
        call_ensures(T::whole, (&t, 1_000i64), k) && call_ensures(T::times, (&t, x, k), ms);
    assert(v(ms) == v(x) * 1_000real);
    if !none {
        if short {
            lemma_fixed_with(t, ms, 0, "ms"@, s@);
        } else {
            lemma_fixed_with(t, x, 2, "s"@, s@);
        }
    }
    if short {
        ms
    } else {
        x
    }
}

/// How many bytes the unit at place `k` has: each has 1024 of the one before.
pub open spec fn unit_bytes(k: nat) -> real
    decreases k,
{
    if k == 0 {
        1real
    } else {
        1024real * unit_bytes((k - 1) as nat)
    }
}

/// The units of sizes, from the smallest.
pub open spec fn size_units() -> Seq<Seq<char>> {
    seq!["B"@, "KB"@, "MB"@, "GB"@, "TB"@, "PB"@]
}

/// A size is told with one decimal in the first unit in which it is below 1024,
/// and in the largest one where it never is.
pub proof fn law_sizes_are_in_their_unit<T: Figures>(
    t: T,
    v: spec_fn(T::F) -> real,
    x: T::F,
    s: String,
) -> (r: (nat, T::F))
    requires
        exact::is_exact(t, v),
        call_ensures(fmt_bytes::<T>, (&t, x), s),
    ensures
        r.0 <= 5,
        v(r.1) * unit_bytes(r.0) == v(x),
        v(r.1) < 1024real || r.0 == 5,
        r.0 > 0 ==> v(r.1) >= 1real,
        printed(t, r.1, 1, size_units()[r.0 as int], s@),
{
    assert(unit_bytes(0) == 1real);
    let r = lemma_size(t, v, x, 0, s@);
    r
}

proof fn lemma_size<T: Figures>(
    t: T,
    v: spec_fn(T::F) -> real,
    x: T::F,
    i: nat,
    s: Seq<char>,
) -> (r: (nat, T::F))
    requires
        exact::is_exact(t, v),
        i <= 5,
        widgets::is_size(t, x, i as int, s),
    ensures
        i <= r.0 <= 5,
        v(r.1) * unit_bytes(r.0) == v(x) * unit_bytes(i),
        v(r.1) < 1024real || r.0 == 5,
        r.0 == i ==> r.1 == x,
        r.0 > i ==> v(r.1) >= 1real,
        printed(t, r.1, 1, size_units()[r.0 as int], s),
    decreases 5 - i,
{
    if i >= 5 {
        lemma_fixed_with(t, x, 1, widgets::byte_unit(i as int), s);
        (i, x)
    } else {
        let small = choose|small: bool| #[trigger]
            state::is_below(t, x, 1024, small) && if small {
                widgets::is_fixed_with(t, x, 1, widgets::byte_unit(i as int), s)
            } else {
                exists|w: T::F| #[trigger]
                    state::is_quotient(t, x, 1024, w) && widgets::is_size(t, w, i as int + 1, s)
            };
        assert(small == (v(x) < 1024real));
        if small {
            lemma_fixed_with(t, x, 1, widgets::byte_unit(i as int), s);
            (i, x)
        } else {
            let w = choose|w: T::F| #[trigger]
                state::is_quotient(t, x, 1024, w) && widgets::is_size(t, w, i as int + 1, s);
            timing::lemma_quotient(t, v, x, 1024, w);
            assert(v(w) * 1024real == v(x));
            let r = lemma_size(t, v, w, i + 1, s);
            let (a, b, c) = (v(w), v(x), unit_bytes(i));
            assert(unit_bytes(i + 1) == 1024real * c);
            assert(a * (1024real * c) == b * c) by (nonlinear_arith)
                requires
                    a * 1024real == b,
            ;
            r
        }
    }
}

/// A count of characters: as it is below a thousand, in thousands below a
/// million, with one decimal below ten thousand, and in millions with one
/// decimal from there on.
pub proof fn law_counts_are_in_their_unit<T: Figures>(
    t: T,
    v: spec_fn(T::F) -> real,
    n: i64,
    s: String,
) -> (w: T::F)
    requires
        exact::is_exact(t, v),
        call_ensures(fmt_chars::<T>, (&t, n), s),
    ensures
        n < 1_000 ==> s@ == text::signed_decimal(n as int),
        1_000 <= n < 10_000 ==> v(w) * 1_000real == n as real && printed(t, w, 1, "k"@, s@),
        10_000 <= n < 1_000_000 ==> v(w) * 1_000real == n as real && printed(t, w, 0, "k"@, s@),
        n >= 1_000_000 ==> v(w) * 1_000_000real == n as real && printed(t, w, 1, "M"@, s@),
{
    if n < 1_000 {
        arbitrary()
    } else {
        let x = choose|x: T::F| #[trigger]
            call_ensures(T::whole, (&t, n), x) && if n >= 1_000_000 {
                widgets::is_scaled_with(t, x, 1_000_000, 1, "M"@, s@)
            } else if n >= 10_000 {
                widgets::is_scaled_with(t, x, 1_000, 0, "k"@, s@)
            } else {
                widgets::is_scaled_with(t, x, 1_000, 1, "k"@, s@)
            };
        if n >= 1_000_000 {
            lemma_scaled(t, v, x, 1_000_000, 1, "M"@, s@)
        } else if n >= 10_000 {
            lemma_scaled(t, v, x, 1_000, 0, "k"@, s@)
        } else {
            lemma_scaled(t, v, x, 1_000, 1, "k"@, s@)
        }
    }
}

/// A time of the given days, hours, minutes and seconds is told in its two
/// largest units from an hour on, and in one below that.
pub proof fn law_durations_are_in_their_units(d: nat, h: nat, m: nat, s: nat)
    requires
        h < 24,
        m < 60,
        s < 60,
    ensures
        ({
            let told = cells::duration_text((((d * 24 + h) * 60 + m) * 60 + s) as int);
            told == if d > 0 {
                text::decimal(d) + "d "@ + text::decimal(h) + "h"@
            } else if h > 0 {
                text::decimal(h) + "h "@ + text::decimal(m) + "m"@
            } else if m > 0 {
                text::decimal(m) + "m"@
            } else {
                text::decimal(s) + "s"@
            }
        }),
{
    let n = ((d * 24 + h) * 60 + m) * 60 + s;
    assert(n == d * 86400 + h * 3600 + m * 60 + s);
    assert(n / 86400 == d && n % 86400 == h * 3600 + m * 60 + s);
    assert((n % 86400) / 3600 == h);
    assert(n % 3600 == m * 60 + s);
    assert((n % 3600) / 60 == m);
    assert(n % 60 == s);
}

/// Cutting off the decimals gives the whole number below, and every number is
/// finite.
pub open spec fn truncates<T: Figures>(t: T, v: spec_fn(T::F) -> real) -> bool {
    &&& forall|a: T::F, n: i64|
        v(a) >= 0real && #[trigger] call_ensures(T::truncated, (&t, a), n) ==> n as real <= v(a)
            && v(a) < n as real + 1real
    &&& forall|a: T::F, r: bool| #[trigger] call_ensures(T::is_finite, (&t, a), r) ==> r
}

/// The age of an entry is how many whole seconds have passed since it came, and
/// zero where it came later than now.
pub proof fn law_age_is_time_passed<T: Figures>(
    t: T,
    v: spec_fn(T::F) -> real,
    zero: T::F,
    since: T::F,
    now: T::F,
    age: Option<i64>,
)
    requires
        timing::picks(t, v),
        truncates(t, v),
        v(zero) == 0real,
        figures::is_age(t, zero, since, now, age),
    ensures
        age matches Some(n) && if v(now) <= v(since) {
            n == 0
        } else {
            n as real <= v(now) - v(since) && v(now) - v(since) < n as real + 1real
        },
{
    let (d, passed) = choose|d: T::F, passed: T::F| #[trigger]
        call_ensures(T::minus, (&t, now, since), d) && #[trigger] call_ensures(
            T::larger,
            (&t, d, zero),
            passed,
        ) && widgets::is_count(t, zero, passed, age);
    let (finite, negative, n) = choose|finite: bool, negative: bool, n: i64| #[trigger]
        call_ensures(T::is_finite, (&t, passed), finite) && #[trigger] call_ensures(
            T::under,
            (&t, passed, zero),
            negative,
        ) && #[trigger] call_ensures(T::truncated, (&t, passed), n) && age == if !finite
            || negative {
            None
        } else {
            Some(n)
        };
    if v(now) <= v(since) {
        assert(n as real <= 0real && 0real < n as real + 1real);
        assert(n == 0);
    }
}

/// A time is told by its whole seconds; one below zero is not told.
pub proof fn law_durations_are_whole<T: Figures>(
    t: T,
    v: spec_fn(T::F) -> real,
    zero: T::F,
    x: T::F,
    n: int,
    r: String,
)
    requires
        timing::picks(t, v),
        truncates(t, v),
        v(zero) == 0real,
        call_ensures(fmt_duration::<T>, (&t, zero, x), r),
        v(x) >= 0real ==> n as real <= v(x) && v(x) < n as real + 1real,
    ensures
        v(x) < 0real ==> r@ == "—"@,
        v(x) >= 0real ==> r@ == cells::duration_text(n),
{
    let k = choose|k: Option<i64>| #[trigger]
        widgets::is_count(t, zero, x, k) && r@ == cells::duration(k);
    let (finite, negative, m) = choose|finite: bool, negative: bool, m: i64| #[trigger]
        call_ensures(T::is_finite, (&t, x), finite) && #[trigger] call_ensures(
            T::under,
            (&t, x, zero),
            negative,
        ) && #[trigger] call_ensures(T::truncated, (&t, x), m) && k == if !finite || negative {
            None
        } else {
            Some(m)
        };
    if v(x) >= 0real {
        assert(m == n);
    }
}

} // verus!
