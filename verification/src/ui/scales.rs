//! What bars and texts stand for, in numbers: how long a bar is for its value,
//! and which unit a text is in. All with exact arithmetic.

use vstd::prelude::*;

use crate::state;
use crate::timing;
use crate::ui::cells;
use crate::ui::figures;
use crate::ui::painter::Scale;
use crate::ui::screen;
use crate::ui::widgets;
use crate::ui::widgets::Figures;

verus! {

/// The arithmetic is exact, and rounding gives a number no further off than one
/// half.
pub open spec fn rounds<T: Figures>(t: T, v: spec_fn(T::F) -> real, zero: T::F) -> bool {
    &&& timing::picks(t, v)
    &&& v(zero) == 0real
    &&& forall|a: T::F, n: i64| #[trigger]
        call_ensures(T::rounded, (&t, a), n) ==> -1real <= 2real * (n as real - v(a)) <= 1real
}

pub open spec fn between(x: real, lo: real, hi: real) -> real {
    if x < lo {
        lo
    } else if x > hi {
        hi
    } else {
        x
    }
}

/// `n` of `rows` steps are as close as can be to the share `part` of `all`.
pub open spec fn is_near(n: real, rows: real, part: real, all: real) -> bool {
    -all <= 2real * (n * all - rows * part) <= all
}

proof fn lemma_share<T: Figures>(
    t: T,
    v: spec_fn(T::F) -> real,
    zero: T::F,
    part: T::F,
    all: T::F,
    share: T::F,
    rows: i64,
    n: i64,
)
    requires
        rounds(t, v, zero),
        v(all) > 0real,
        widgets::is_share(t, zero, part, all, share),
        widgets::is_part(t, share, rows, n),
    ensures
        is_near(n as real, rows as real, between(v(part), 0real, v(all)), v(all)),
{
    let (q, one) = choose|q: T::F, one: T::F| #[trigger]
        call_ensures(T::ratio, (&t, part, all), q) && #[trigger] call_ensures(
            T::whole,
            (&t, 1i64),
            one,
        ) && state::is_clamped(t, q, zero, one, share);
    let (k, p) = choose|k: T::F, p: T::F| #[trigger]
        call_ensures(T::whole, (&t, rows), k) && #[trigger] call_ensures(
            T::times,
            (&t, share, k),
            p,
        ) && call_ensures(T::rounded, (&t, p), n);
    let (a, b) = (v(part), v(all));
    let quot = a / b;
    assert(v(q) == quot && v(one) == 1real);
    assert(v(share) == between(quot, 0real, 1real));
    assert(quot * b == a && (quot < 0real <==> a < 0real) && (quot > 1real <==> a > b))
        by (nonlinear_arith)
        requires
            quot == a / b,
            b > 0real,
    ;
    let s = v(share);
    assert(s * b == between(a, 0real, b)) by (nonlinear_arith)
        requires
            s == between(quot, 0real, 1real),
            quot * b == a,
            quot < 0real <==> a < 0real,
            quot > 1real <==> a > b,
            b > 0real,
    ;
    let (x, m) = (rows as real, n as real);
    assert(v(p) == s * x);
    lemma_scaled(m, x, s, b);
}

proof fn lemma_scaled(m: real, x: real, s: real, b: real)
    requires
        b > 0real,
        -1real <= 2real * (m - s * x) <= 1real,
    ensures
        -b <= 2real * (m * b - x * (s * b)) <= b,
{
    let e = m - s * x;
    assert(m * b - x * (s * b) == e * b) by (nonlinear_arith)
        requires
            e == m - s * x,
    ;
    assert(-b <= 2real * (e * b) <= b) by (nonlinear_arith)
        requires
            b > 0real,
            -1real <= 2real * e <= 1real,
    ;
}

/// A bar of a chart is as long as its value lies far from the lower to the upper
/// end of the axis, to the nearest dot: none at the lower end, all at the upper
/// one, and no more beyond.
pub proof fn law_bars_are_to_scale<T: Figures>(
    t: T,
    v: spec_fn(T::F) -> real,
    zero: T::F,
    values: Seq<T::F>,
    vmin: T::F,
    vmax: T::F,
    rows: i64,
    heights: Seq<i64>,
    i: int,
)
    requires
        rounds(t, v, zero),
        v(vmin) < v(vmax),
        widgets::are_heights(t, zero, values, vmin, vmax, rows, heights),
        0 <= i < values.len(),
    ensures
        heights.len() == values.len(),
        ({
            let axis = v(vmax) - v(vmin);
            let far = between(v(values[i]) - v(vmin), 0real, axis);
            is_near(heights[i] as real, rows as real, far, axis)
        }),
{
    let span = choose|span: T::F| #[trigger]
        widgets::is_span(t, zero, vmin, vmax, span) && forall|i: int|
            0 <= i < values.len() ==> widgets::is_height(
                t,
                zero,
                values[i],
                vmin,
                span,
                rows,
                #[trigger] heights[i],
            );
    assert(v(span) == v(vmax) - v(vmin));
    assert(widgets::is_height(t, zero, values[i], vmin, span, rows, heights[i]));
    let (d, share) = choose|d: T::F, share: T::F| #[trigger]
        call_ensures(T::minus, (&t, values[i], vmin), d) && #[trigger] widgets::is_share(
            t,
            zero,
            d,
            span,
            share,
        ) && widgets::is_part(t, share, rows, heights[i]);
    lemma_share(t, v, zero, d, span, share, rows, heights[i]);
}

/// The axis of a chart starts at zero. It ends at the largest value that is
/// shown, or at the least end where none is larger; that of percentages always
/// ends at one hundred.
pub proof fn law_axes_end_at_the_peak<T: Figures>(
    t: T,
    v: spec_fn(T::F) -> real,
    zero: T::F,
    values: Seq<T::F>,
    scale: Scale,
    rows: i64,
    heights: Seq<i64>,
) -> (top: T::F)
    requires
        rounds(t, v, zero),
        figures::are_scaled(t, zero, values, scale, rows, heights),
        scale matches Scale::Peak { floor } ==> floor > 0,
    ensures
        heights.len() == values.len(),
        forall|i: int| #![trigger heights[i]]
            0 <= i < values.len() ==> is_near(
                heights[i] as real,
                rows as real,
                between(v(values[i]), 0real, v(top)),
                v(top),
            ),
        match scale {
            Scale::Peak { floor } => {
                let least = 1real / (floor as real);
                &&& v(top) >= least
                &&& forall|i: int| 0 <= i < values.len() ==> v(#[trigger] values[i]) <= v(top)
                &&& v(top) == least || exists|i: int|
                    0 <= i < values.len() && v(#[trigger] values[i]) == v(top)
            },
            Scale::Percent => v(top) == 100real,
        },
{
    let top = choose|top: T::F| #[trigger]
        figures::is_top(t, zero, values, scale, top) && widgets::are_heights(
            t,
            zero,
            values,
            zero,
            top,
            rows,
            heights,
        );
    match scale {
        Scale::Peak { floor } => {
            let (p, least) = choose|p: T::F, least: T::F|
                figures::is_peak(t, zero, values, p) && #[trigger] state::is_fraction(
                    t,
                    1,
                    floor,
                    least,
                ) && #[trigger] call_ensures(T::larger, (&t, p, least), top);
            timing::lemma_fraction(t, v, 1, floor, least);
            let (a, b) = (v(least), floor as real);
            assert(b > 0real);
            assert(a == 1real / b && a > 0real) by (nonlinear_arith)
                requires
                    a * b == 1real,
                    b > 0real,
            ;
            screen::law_peak_is_largest(t, v, zero, values, p);
        },
        Scale::Percent => {},
    }
    assert forall|i: int| #![trigger heights[i]] 0 <= i < values.len() implies is_near(
        heights[i] as real,
        rows as real,
        between(v(values[i]), 0real, v(top)),
        v(top),
    ) by {
        law_bars_are_to_scale(t, v, zero, values, zero, top, rows, heights, i);
        assert(v(top) - v(zero) == v(top) && v(values[i]) - v(zero) == v(values[i]));
    }
    top
}

/// A horizontal bar is filled in proportion to its value, to the nearest cell,
/// and not at all where the most is nothing.
pub proof fn law_bars_fill_in_proportion<T: Figures>(
    t: T,
    v: spec_fn(T::F) -> real,
    zero: T::F,
    value: T::F,
    vmax: T::F,
    width: i64,
    n: i64,
)
    requires
        rounds(t, v, zero),
        widgets::is_filled(t, zero, value, vmax, width, n),
    ensures
        v(vmax) > 0real ==> is_near(
            n as real,
            width as real,
            between(v(value), 0real, v(vmax)),
            v(vmax),
        ),
        v(vmax) <= 0real ==> n == 0,
{
    let (none, share) = choose|none: bool, share: T::F| #[trigger]
        call_ensures(T::at_most, (&t, vmax, zero), none) && #[trigger] widgets::is_share(
            t,
            zero,
            value,
            vmax,
            share,
        ) && widgets::is_part(
            t,
            if none {
                zero
            } else {
                share
            },
            width,
            n,
        );
    if none {
        let (k, p) = choose|k: T::F, p: T::F| #[trigger]
            call_ensures(T::whole, (&t, width), k) && #[trigger] call_ensures(
                T::times,
                (&t, zero, k),
                p,
            ) && call_ensures(T::rounded, (&t, p), n);
        let w = v(k);
        assert(0real * w == 0real) by (nonlinear_arith);
        assert(-1real <= 2real * (n as real) <= 1real);
        assert(n == 0);
    } else {
        lemma_share(t, v, zero, value, vmax, share, width, n);
    }
}

/// The level of a block of a sparkline is in proportion to its value: none at
/// zero, and all eight at the most.
pub proof fn law_blocks_are_to_scale<T: Figures>(
    t: T,
    v: spec_fn(T::F) -> real,
    zero: T::F,
    values: Seq<T::F>,
    vmax: T::F,
    levels: Seq<usize>,
    i: int,
)
    requires
        rounds(t, v, zero),
        v(vmax) > 0real,
        widgets::are_levels(t, zero, values, vmax, levels),
        0 <= i < values.len(),
    ensures
        levels.len() == values.len(),
        levels[i] <= 8,
        is_near(levels[i] as real, 8real, between(v(values[i]), 0real, v(vmax)), v(vmax)),
{
    let (none, one) = choose|none: bool, one: T::F| #[trigger]
        call_ensures(T::at_most, (&t, vmax, zero), none) && #[trigger] call_ensures(
            T::whole,
            (&t, 1i64),
            one,
        ) && forall|i: int|
            0 <= i < values.len() ==> widgets::is_level(
                t,
                zero,
                values[i],
                if none {
                    one
                } else {
                    vmax
                },
                #[trigger] levels[i],
            );
    assert(widgets::is_level(t, zero, values[i], vmax, levels[i]));
    let (share, k) = choose|share: T::F, k: i64| #[trigger]
        widgets::is_share(t, zero, values[i], vmax, share) && #[trigger] widgets::is_part(
            t,
            share,
            8,
            k,
        ) && levels[i] == cells::clamped(k as int, 0, 8);
    lemma_share(t, v, zero, values[i], vmax, share, 8, k);
    let (m, p, b) = (k as real, between(v(values[i]), 0real, v(vmax)), v(vmax));
    assert(0real <= p <= b);
    assert(-1real < m && m < 9real) by (nonlinear_arith)
        requires
            -b <= 2real * (m * b - 8real * p) <= b,
            0real <= p <= b,
            b > 0real,
    ;
    assert(0 <= k <= 8);
}

/// `l` is the logarithm of one more, as far as charts need it: zero at zero, and
/// the larger the number is the larger.
pub open spec fn logs<T: Figures>(
    t: T,
    v: spec_fn(T::F) -> real,
    l: spec_fn(real) -> real,
) -> bool {
    &&& forall|a: T::F, r: T::F| #[trigger]
        call_ensures(T::ln_1p, (&t, a), r) ==> v(r) == l(v(a))
    &&& l(0real) == 0real
    &&& forall|x: real, y: real|
        0real <= x && x < y ==> #[trigger] l(x) < #[trigger] l(y)
}

proof fn lemma_capped<T: Figures>(
    t: T,
    v: spec_fn(T::F) -> real,
    zero: T::F,
    q: T::F,
    part: real,
    all: real,
    rows: i64,
    n: i64,
)
    requires
        rounds(t, v, zero),
        all > 0real,
        part >= 0real,
        v(q) == part / all,
        widgets::is_capped(t, q, rows, n),
    ensures
        is_near(n as real, rows as real, between(part, 0real, all), all),
{
    let (one, m) = choose|one: T::F, m: T::F| #[trigger]
        call_ensures(T::whole, (&t, 1i64), one) && #[trigger] call_ensures(
            T::smaller,
            (&t, q, one),
            m,
        ) && widgets::is_part(t, m, rows, n);
    let (k, p) = choose|k: T::F, p: T::F| #[trigger]
        call_ensures(T::whole, (&t, rows), k) && #[trigger] call_ensures(T::times, (&t, m, k), p)
            && call_ensures(T::rounded, (&t, p), n);
    let quot = part / all;
    assert(quot * all == part && quot >= 0real && (quot > 1real <==> part > all))
        by (nonlinear_arith)
        requires
            quot == part / all,
            all > 0real,
            part >= 0real,
    ;
    let s = v(m);
    assert(s == if quot < 1real {
        quot
    } else {
        1real
    });
    assert(s * all == between(part, 0real, all)) by (nonlinear_arith)
        requires
            s == if quot < 1real {
                quot
            } else {
                1real
            },
            quot * all == part,
            quot >= 0real,
            quot > 1real <==> part > all,
            all > 0real,
            part >= 0real,
    ;
    assert(v(p) == s * (rows as real));
    lemma_scaled(n as real, rows as real, s, all);
}

/// A column of a stacked chart on a linear axis: the near dots are in proportion
/// to the near value, and the far dots to the far one.
pub proof fn law_stacks_are_to_scale<T: Figures>(
    t: T,
    v: spec_fn(T::F) -> real,
    zero: T::F,
    near: T::F,
    far: T::F,
    span: T::F,
    rows: i64,
    dots: (i64, i64),
)
    requires
        rounds(t, v, zero),
        v(span) > 0real,
        v(near) >= 0real,
        v(far) >= 0real,
        widgets::is_stack(t, zero, near, far, span, false, rows, dots),
    ensures
        is_near(dots.0 as real, rows as real, between(v(near), 0real, v(span)), v(span)),
        is_near(dots.1 as real, rows as real, between(v(far), 0real, v(span)), v(span)),
{
    let q = choose|q: T::F| #[trigger]
        call_ensures(T::ratio, (&t, near, span), q) && widgets::is_capped(t, q, rows, dots.0);
    lemma_capped(t, v, zero, q, v(near), v(span), rows, dots.0);
    let q = choose|q: T::F| #[trigger]
        call_ensures(T::ratio, (&t, far, span), q) && widgets::is_capped(t, q, rows, dots.1);
    lemma_capped(t, v, zero, q, v(far), v(span), rows, dots.1);
}

/// A column of a stacked chart on a logarithmic axis: the near dots are in
/// proportion to the logarithm of the near value, and near and far dots
/// together to that of the sum, where the near ones leave room for them.
pub proof fn law_logarithmic_stacks_are_to_scale<T: Figures>(
    t: T,
    v: spec_fn(T::F) -> real,
    l: spec_fn(real) -> real,
    zero: T::F,
    near: T::F,
    far: T::F,
    span: T::F,
    rows: i64,
    dots: (i64, i64),
) -> (all: i64)
    requires
        rounds(t, v, zero),
        logs(t, v, l),
        v(span) > 0real,
        v(near) >= 0real,
        v(far) >= 0real,
        widgets::is_stack(t, zero, near, far, span, true, rows, dots),
    ensures
        ({
            let end = l(v(span));
            let (one, both) = (l(v(near)), l(v(near) + v(far)));
            &&& is_near(dots.0 as real, rows as real, between(one, 0real, end), end)
            &&& is_near(all as real, rows as real, between(both, 0real, end), end)
        }),
        dots.0 >= 1 && all >= dots.0 ==> dots.0 + dots.1 == all,
        dots.0 < 1 && all >= 1 ==> dots.1 == all - 1,
        all < dots.0 || all < 1 ==> dots.1 == 0,
{
    let (sum, all) = choose|sum: T::F, all: i64| #[trigger]
        call_ensures(T::plus, (&t, near, far), sum) && #[trigger] widgets::is_logarithmic(
            t,
            zero,
            sum,
            span,
            rows,
            all,
        ) && dots.1 == widgets::beyond(all, dots.0);
    lemma_logarithmic(t, v, l, zero, near, span, rows, dots.0);
    lemma_logarithmic(t, v, l, zero, sum, span, rows, all);
    all
}

proof fn lemma_logarithmic<T: Figures>(
    t: T,
    v: spec_fn(T::F) -> real,
    l: spec_fn(real) -> real,
    zero: T::F,
    x: T::F,
    span: T::F,
    rows: i64,
    n: i64,
)
    requires
        rounds(t, v, zero),
        logs(t, v, l),
        v(span) > 0real,
        v(x) >= 0real,
        widgets::is_logarithmic(t, zero, x, span, rows, n),
    ensures
        is_near(n as real, rows as real, between(l(v(x)), 0real, l(v(span))), l(v(span))),
{
    let (end, flat, m, q) = choose|end: T::F, flat: bool, m: T::F, q: T::F| #[trigger]
        call_ensures(T::ln_1p, (&t, span), end) && #[trigger] call_ensures(
            T::equal,
            (&t, end, zero),
            flat,
        ) && #[trigger] call_ensures(T::ln_1p, (&t, x), m) && #[trigger] call_ensures(
            T::ratio,
            (&t, m, end),
            q,
        ) && widgets::is_capped(
            t,
            if flat {
                zero
            } else {
                q
            },
            rows,
            n,
        );
    assert(l(0real) < l(v(span)));
    assert(l(v(x)) >= 0real) by {
        if v(x) > 0real {
            assert(l(0real) < l(v(x)));
        }
    }
    lemma_capped(t, v, zero, q, l(v(x)), l(v(span)), rows, n);
}

/// On the axis that expands the band near the most, zero is at the bottom and
/// the most at the top, a larger value is higher, and in between a value is as
/// far from the top as the logarithm of nineteen times its headroom says.
pub proof fn law_headroom_is_expanded<T: Figures>(
    t: T,
    v: spec_fn(T::F) -> real,
    l: spec_fn(real) -> real,
    zero: T::F,
    values: Seq<T::F>,
    vmax: T::F,
    r: Seq<T::F>,
    i: int,
)
    requires
        rounds(t, v, zero),
        logs(t, v, l),
        widgets::are_headrooms(t, zero, values, vmax, r),
        0 <= i < values.len(),
    ensures
        r.len() == values.len(),
        v(vmax) <= 0real ==> r[i] == zero,
        v(vmax) > 0real ==> {
            let room = between(v(vmax) - v(values[i]), 0real, v(vmax));
            &&& v(r[i]) == 1real - l(19real * room / v(vmax)) / l(19real)
            &&& v(values[i]) <= 0real ==> v(r[i]) == 0real
            &&& v(values[i]) >= v(vmax) ==> v(r[i]) == 1real
        },
{
    let (flat, k, most) = choose|flat: bool, k: T::F, most: T::F| #[trigger]
        call_ensures(T::at_most, (&t, vmax, zero), flat) && #[trigger] call_ensures(
            T::whole,
            (&t, 19i64),
            k,
        ) && #[trigger] call_ensures(T::ln_1p, (&t, k), most) && forall|i: int|
            0 <= i < r.len() ==> if flat {
                #[trigger] r[i] == zero
            } else {
                widgets::is_headroom(t, zero, values[i], vmax, k, most, r[i])
            };
    if v(vmax) > 0real {
        let x = values[i];
        assert(r[i] == r[i]);
        assert(widgets::is_headroom(t, zero, x, vmax, k, most, r[i]));
        let (room, h, kh, q, m, share, one) = choose|
            room: T::F,
            h: T::F,
            kh: T::F,
            q: T::F,
            m: T::F,
            share: T::F,
            one: T::F,
        | #[trigger]
            call_ensures(T::minus, (&t, vmax, x), room) && #[trigger] state::is_clamped(
                t,
                room,
                zero,
                vmax,
                h,
            ) && #[trigger] call_ensures(T::times, (&t, k, h), kh) && #[trigger] call_ensures(
                T::ratio,
                (&t, kh, vmax),
                q,
            ) && #[trigger] call_ensures(T::ln_1p, (&t, q), m) && #[trigger] call_ensures(
                T::ratio,
                (&t, m, most),
                share,
            ) && #[trigger] call_ensures(T::whole, (&t, 1i64), one) && call_ensures(
                T::minus,
                (&t, one, share),
                r[i],
            );
        assert(l(0real) < l(19real));
        assert(v(h) == between(v(vmax) - v(x), 0real, v(vmax)));
        assert(v(kh) == 19real * v(h));
        let (b, end) = (v(vmax), l(19real));
        assert(19real * b / b == 19real && 19real * 0real / b == 0real) by (nonlinear_arith)
            requires
                b > 0real,
        ;
        assert(end / end == 1real && 0real / end == 0real) by (nonlinear_arith)
            requires
                end > 0real,
        ;
    }
}

/// Of two values on the axis that expands the band near the most, the larger one
/// is never lower.
pub proof fn law_headroom_keeps_order<T: Figures>(
    t: T,
    v: spec_fn(T::F) -> real,
    l: spec_fn(real) -> real,
    zero: T::F,
    values: Seq<T::F>,
    vmax: T::F,
    r: Seq<T::F>,
    i: int,
    j: int,
)
    requires
        rounds(t, v, zero),
        logs(t, v, l),
        widgets::are_headrooms(t, zero, values, vmax, r),
        0 <= i < values.len(),
        0 <= j < values.len(),
        v(values[i]) <= v(values[j]),
    ensures
        v(r[i]) <= v(r[j]),
{
    law_headroom_is_expanded(t, v, l, zero, values, vmax, r, i);
    law_headroom_is_expanded(t, v, l, zero, values, vmax, r, j);
    if v(vmax) > 0real {
        let b = v(vmax);
        let x = between(b - v(values[i]), 0real, b);
        let y = between(b - v(values[j]), 0real, b);
        let (p, q) = (19real * x / b, 19real * y / b);
        assert(0real <= q <= p) by (nonlinear_arith)
            requires
                0real <= y <= x,
                p == 19real * x / b,
                q == 19real * y / b,
                b > 0real,
        ;
        let end = l(19real);
        assert(l(0real) < end);
        assert(l(q) <= l(p)) by {
            if q < p {
                assert(l(q) < l(p));
            }
        }
        let (lp, lq) = (l(p), l(q));
        assert(lq / end <= lp / end) by (nonlinear_arith)
            requires
                lq <= lp,
                end > 0real,
        ;
    }
}

} // verus!
