//! Hand-rolled drawing primitives for the btop look.
//!
//! The headline widget is [`braille_chart`], which packs a series into a 2x4
//! Unicode braille dot matrix per cell for `2w x 4h`-dot resolution.

use vstd::prelude::*;

use crate::state;
use crate::state::{at_least, below, clamp, product, quotient, Arithmetic};
use crate::text;
use crate::ui::cells;
use crate::ui::cells::{
    block_line, braille_rows, clamp_dots, duration_line, filled_bar, stacked_columns, stacked_rows,
};

verus! {

/// Arithmetic for display.
pub trait Figures: Arithmetic {
    /// The number with the given count of decimals.
    fn fixed(&self, a: Self::F, decimals: usize) -> String;

    /// The natural logarithm of `1 + a`.
    fn ln_1p(&self, a: Self::F) -> Self::F;

    /// The nearest integer, half-way cases away from zero; the nearest one
    /// that fits, and zero for what is no number.
    fn rounded(&self, a: Self::F) -> i64;

    fn is_finite(&self, a: Self::F) -> bool;
}

/// `s` is the number with the given count of decimals.
pub open spec fn is_fixed<T: Figures>(t: T, v: T::F, decimals: usize, s: Seq<char>) -> bool {
    exists|r: String| #[trigger] call_ensures(T::fixed, (&t, v, decimals), r) && r@ == s
}

/// `s` is the number divided by `n`, with the given count of decimals.
pub open spec fn is_scaled<T: Figures>(
    t: T,
    v: T::F,
    n: i64,
    decimals: usize,
    s: Seq<char>,
) -> bool {
    exists|w: T::F| #[trigger]
        state::is_quotient(t, v, n, w) && is_fixed(t, w, decimals, s)
}

/// `s` is the number divided by `n`, with the given count of decimals and the
/// given suffix.
pub open spec fn is_scaled_with<T: Figures>(
    t: T,
    v: T::F,
    n: i64,
    decimals: usize,
    suffix: Seq<char>,
    s: Seq<char>,
) -> bool {
    exists|body: Seq<char>| is_scaled(t, v, n, decimals, body) && s == #[trigger] (body + suffix)
}

/// `s` is the number with the given count of decimals and the given suffix.
pub open spec fn is_fixed_with<T: Figures>(
    t: T,
    v: T::F,
    decimals: usize,
    suffix: Seq<char>,
    s: Seq<char>,
) -> bool {
    exists|body: Seq<char>| is_fixed(t, v, decimals, body) && s == #[trigger] (body + suffix)
}

/// `s` is the number in millions with two decimals, in thousands with one, or
/// as it is with fewer decimals the larger it is.
pub open spec fn is_compact<T: Figures>(t: T, v: T::F, s: Seq<char>) -> bool {
    exists|m: bool, k: bool, h: bool, d: bool| #[trigger]
        state::is_at_least(t, v, 1_000_000, m) && #[trigger] state::is_at_least(t, v, 1_000, k)
            && #[trigger] state::is_at_least(t, v, 100, h) && #[trigger] state::is_at_least(
            t,
            v,
            10,
            d,
        ) && if m {
            is_scaled_with(t, v, 1_000_000, 2, "M"@, s)
        } else if k {
            is_scaled_with(t, v, 1_000, 1, "k"@, s)
        } else if h {
            is_fixed(t, v, 0, s)
        } else if d {
            is_fixed(t, v, 1, s)
        } else {
            is_fixed(t, v, 2, s)
        }
}

/// `s` is a compact number with its unit.
pub open spec fn is_big_number<T: Figures>(
    t: T,
    v: T::F,
    unit: Seq<char>,
    s: Seq<char>,
) -> bool {
    exists|n: Seq<char>| is_compact(t, v, n) && s == #[trigger] (n + unit)
}

pub fn fixed_text<T: Figures>(t: &T, v: T::F, decimals: usize) -> (r: String)
    ensures
        is_fixed(*t, v, decimals, r@),
{
    let r = t.fixed(v, decimals);
    assert(call_ensures(T::fixed, (t, v, decimals), r));
    r
}

fn scaled_text<T: Figures>(t: &T, v: T::F, n: i64, decimals: usize) -> (r: String)
    ensures
        is_scaled(*t, v, n, decimals, r@),
{
    let w = quotient(t, v, n);
    fixed_text(t, w, decimals)
}

pub fn scaled_with<T: Figures>(t: &T, v: T::F, n: i64, decimals: usize, suffix: &str) -> (r: String)
    ensures
        is_scaled_with(*t, v, n, decimals, suffix@, r@),
{
    let body = scaled_text(t, v, n, decimals);
    let ghost b = body@;
    let r = body.concat(suffix);
    assert(r@ == b + suffix@);
    r
}

fn fixed_with<T: Figures>(t: &T, v: T::F, decimals: usize, suffix: &str) -> (r: String)
    ensures
        is_fixed_with(*t, v, decimals, suffix@, r@),
{
    let body = fixed_text(t, v, decimals);
    let ghost b = body@;
    let r = body.concat(suffix);
    assert(r@ == b + suffix@);
    r
}

fn compact<T: Figures>(t: &T, v: T::F) -> (r: String)
    ensures
        is_compact(*t, v, r@),
{
    let m = at_least(t, v, 1_000_000);
    let k = at_least(t, v, 1_000);
    let h = at_least(t, v, 100);
    let d = at_least(t, v, 10);
    if m {
        scaled_with(t, v, 1_000_000, 2, "M")
    } else if k {
        scaled_with(t, v, 1_000, 1, "k")
    } else if h {
        fixed_text(t, v, 0)
    } else if d {
        fixed_text(t, v, 1)
    } else {
        fixed_text(t, v, 2)
    }
}

/// Compact human-readable number with a unit suffix.
pub fn big_number<T: Figures>(t: &T, value: T::F, unit: &str) -> (r: String)
    ensures
        is_big_number(*t, value, unit@, r@),
{
    let n = compact(t, value);
    let ghost shown = n@;
    let r = n.concat(unit);
    assert(r@ == shown + unit@);
    r
}

/// `s` is a latency: a dash where there is none, milliseconds below a second,
/// else seconds.
pub open spec fn is_latency<T: Figures>(t: T, zero: T::F, v: T::F, s: Seq<char>) -> bool {
    exists|none: bool, short: bool, ms: T::F| #[trigger]
        call_ensures(T::at_most, (&t, v, zero), none) && #[trigger] state::is_below(t, v, 1, short)
            && #[trigger] state::is_product(t, v, 1_000, ms) && if none {
            s == "—"@
        } else if short {
            is_fixed_with(t, ms, 0, "ms"@, s)
        } else {
            is_fixed_with(t, v, 2, "s"@, s)
        }
}

/// Human latency: ms below 1s, otherwise seconds.
pub fn fmt_seconds<T: Figures>(t: &T, zero: T::F, value: T::F) -> (r: String)
    ensures
        is_latency(*t, zero, value, r@),
{
    let none = t.at_most(value, zero);
    let short = below(t, value, 1);
    let ms = product(t, value, 1_000);
    assert(call_ensures(T::at_most, (t, value, zero), none));
    if none {
        "—".to_owned()
    } else if short {
        fixed_with(t, ms, 0, "ms")
    } else {
        fixed_with(t, value, 2, "s")
    }
}

/// The unit of a size that was divided by 1024 `i` times.
pub open spec fn byte_unit(i: int) -> Seq<char> {
    if i == 0 {
        "B"@
    } else if i == 1 {
        "KB"@
    } else if i == 2 {
        "MB"@
    } else if i == 3 {
        "GB"@
    } else if i == 4 {
        "TB"@
    } else {
        "PB"@
    }
}

/// `s` is a size that was divided by 1024 `i` times already: in the first unit
/// in which it is below 1024, and in the last one where it never is.
pub open spec fn is_size<T: Figures>(t: T, v: T::F, i: int, s: Seq<char>) -> bool
    decreases 5 - i,
{
    if i >= 5 {
        is_fixed_with(t, v, 1, byte_unit(i), s)
    } else {
        exists|small: bool| #[trigger]
            state::is_below(t, v, 1024, small) && if small {
                is_fixed_with(t, v, 1, byte_unit(i), s)
            } else {
                exists|w: T::F| #[trigger]
                    state::is_quotient(t, v, 1024, w) && is_size(t, w, i + 1, s)
            }
    }
}

fn unit_text(i: usize) -> (r: &'static str)
    ensures
        r@ == byte_unit(i as int),
{
    if i == 0 {
        "B"
    } else if i == 1 {
        "KB"
    } else if i == 2 {
        "MB"
    } else if i == 3 {
        "GB"
    } else if i == 4 {
        "TB"
    } else {
        "PB"
    }
}

fn size_from<T: Figures>(t: &T, v: T::F, i: usize) -> (r: String)
    requires
        i <= 5,
    ensures
        is_size(*t, v, i as int, r@),
    decreases 5 - i,
{
    if i < 5 {
        let small = below(t, v, 1024);
        if !small {
            let w = quotient(t, v, 1024);
            return size_from(t, w, i + 1);
        }
    }
    fixed_with(t, v, 1, unit_text(i))
}

/// Bytes -> human readable (KB/MB/GB/...).
pub fn fmt_bytes<T: Figures>(t: &T, value: T::F) -> (r: String)
    ensures
        is_size(*t, value, 0, r@),
{
    size_from(t, value, 0)
}

/// `n` is how many whole seconds a time has; none where it is negative or
/// infinite.
pub open spec fn is_count<T: Figures>(t: T, zero: T::F, v: T::F, r: Option<i64>) -> bool {
    exists|finite: bool, negative: bool, n: i64| #[trigger]
        call_ensures(T::is_finite, (&t, v), finite) && #[trigger] call_ensures(
            T::under,
            (&t, v, zero),
            negative,
        ) && #[trigger] call_ensures(T::truncated, (&t, v), n) && r == if !finite || negative {
            None
        } else {
            Some(n)
        }
}

/// How many whole seconds a time has.
pub fn whole_seconds<T: Figures>(t: &T, zero: T::F, v: T::F) -> (r: Option<i64>)
    ensures
        is_count(*t, zero, v, r),
{
    let finite = t.is_finite(v);
    let negative = t.under(v, zero);
    let n = t.truncated(v);
    assert(call_ensures(T::is_finite, (t, v), finite));
    assert(call_ensures(T::under, (t, v, zero), negative));
    assert(call_ensures(T::truncated, (t, v), n));
    if !finite || negative {
        None
    } else {
        Some(n)
    }
}

/// Compact uptime: '45s', '12m', '3h 20m', '2d 4h'.
pub fn fmt_duration<T: Figures>(t: &T, zero: T::F, seconds: T::F) -> (r: String)
    ensures
        exists|n: Option<i64>| #[trigger]
            is_count(*t, zero, seconds, n) && r@ == cells::duration(n),
{
    let n = whole_seconds(t, zero, seconds);
    duration_line(n)
}

/// `r` is the distance from `vmin` to `vmax`, or one where there is none.
pub open spec fn is_span<T: Figures>(t: T, zero: T::F, vmin: T::F, vmax: T::F, r: T::F) -> bool {
    exists|d: T::F, flat: bool, one: T::F| #[trigger]
        call_ensures(T::minus, (&t, vmax, vmin), d) && #[trigger] call_ensures(
            T::at_most,
            (&t, d, zero),
            flat,
        ) && #[trigger] call_ensures(T::whole, (&t, 1i64), one) && r == if flat {
            one
        } else {
            d
        }
}

fn span_of<T: Figures>(t: &T, zero: T::F, vmin: T::F, vmax: T::F) -> (r: T::F)
    ensures
        is_span(*t, zero, vmin, vmax, r),
{
    let d = t.minus(vmax, vmin);
    let flat = t.at_most(d, zero);
    let one = t.whole(1);
    assert(call_ensures(T::minus, (t, vmax, vmin), d));
    assert(call_ensures(T::at_most, (t, d, zero), flat));
    assert(call_ensures(T::whole, (t, 1i64), one));
    if flat {
        one
    } else {
        d
    }
}

/// `r` is what share of `whole` `part` is, from zero to one.
pub open spec fn is_share<T: Figures>(t: T, zero: T::F, part: T::F, all: T::F, r: T::F) -> bool {
    exists|q: T::F, one: T::F| #[trigger]
        call_ensures(T::ratio, (&t, part, all), q) && #[trigger] call_ensures(
            T::whole,
            (&t, 1i64),
            one,
        ) && state::is_clamped(t, q, zero, one, r)
}

fn share_of<T: Figures>(t: &T, zero: T::F, part: T::F, all: T::F) -> (r: T::F)
    ensures
        is_share(*t, zero, part, all, r),
{
    let q = t.ratio(part, all);
    let one = t.whole(1);
    assert(call_ensures(T::ratio, (t, part, all), q));
    assert(call_ensures(T::whole, (t, 1i64), one));
    clamp(t, q, zero, one)
}

/// `n` is the share of `rows`, rounded.
pub open spec fn is_part<T: Figures>(t: T, share: T::F, rows: i64, n: i64) -> bool {
    exists|k: T::F, p: T::F| #[trigger]
        call_ensures(T::whole, (&t, rows), k) && #[trigger] call_ensures(
            T::times,
            (&t, share, k),
            p,
        ) && call_ensures(T::rounded, (&t, p), n)
}

fn part_of<T: Figures>(t: &T, share: T::F, rows: i64) -> (r: i64)
    ensures
        is_part(*t, share, rows, r),
{
    let k = t.whole(rows);
    let p = t.times(share, k);
    assert(call_ensures(T::whole, (t, rows), k));
    assert(call_ensures(T::times, (t, share, k), p));
    t.rounded(p)
}

/// `n` is how many of `rows` dots a value lights on an axis from `vmin` over
/// `span`.
pub open spec fn is_height<T: Figures>(
    t: T,
    zero: T::F,
    v: T::F,
    vmin: T::F,
    span: T::F,
    rows: i64,
    n: i64,
) -> bool {
    exists|d: T::F, share: T::F| #[trigger]
        call_ensures(T::minus, (&t, v, vmin), d) && #[trigger] is_share(t, zero, d, span, share)
            && is_part(t, share, rows, n)
}

fn height_of<T: Figures>(
    t: &T,
    zero: T::F,
    v: T::F,
    vmin: T::F,
    span: T::F,
    rows: i64,
) -> (r: i64)
    ensures
        is_height(*t, zero, v, vmin, span, rows, r),
{
    let d = t.minus(v, vmin);
    assert(call_ensures(T::minus, (t, v, vmin), d));
    let share = share_of(t, zero, d, span);
    part_of(t, share, rows)
}

/// The heights of the bars of a chart with `rows` rows of dots, whose axis
/// runs from `vmin` to `vmax`.
pub open spec fn are_heights<T: Figures>(
    t: T,
    zero: T::F,
    values: Seq<T::F>,
    vmin: T::F,
    vmax: T::F,
    rows: i64,
    heights: Seq<i64>,
) -> bool {
    heights.len() == values.len() && exists|span: T::F| #[trigger]
        is_span(t, zero, vmin, vmax, span) && forall|i: int|
            0 <= i < values.len() ==> is_height(
                t,
                zero,
                values[i],
                vmin,
                span,
                rows,
                #[trigger] heights[i],
            )
}

/// The heights of the last values are the last of the heights: a chart of the
/// samples that fit it is the chart of all of them.
pub proof fn law_only_last_samples_count<T: Figures>(
    t: T,
    zero: T::F,
    series: Seq<T::F>,
    vmin: T::F,
    vmax: T::F,
    width: nat,
    height: nat,
    baseline: bool,
    flip: bool,
    heights: Seq<i64>,
    rows: Seq<String>,
)
    requires
        are_heights(t, zero, series, vmin, vmax, (4 * height) as i64, heights),
        cells::are_rows(heights, width, height, baseline, flip, rows),
    ensures
        are_heights(
            t,
            zero,
            state::last_of(series, 2 * width),
            vmin,
            vmax,
            (4 * height) as i64,
            state::last_of(heights, 2 * width),
        ),
        cells::are_rows(
            state::last_of(heights, 2 * width),
            width,
            height,
            baseline,
            flip,
            rows,
        ),
{
    cells::law_only_last_heights_count(heights, width, height, baseline, flip, rows);
    let n = 2 * width;
    let last = state::last_of(heights, n);
    let from = if series.len() <= n {
        0
    } else {
        series.len() - n
    };
    let span = choose|span: T::F| #[trigger]
        is_span(t, zero, vmin, vmax, span) && forall|i: int|
            0 <= i < series.len() ==> is_height(
                t,
                zero,
                series[i],
                vmin,
                span,
                (4 * height) as i64,
                #[trigger] heights[i],
            );
    assert forall|i: int| 0 <= i < last.len() implies is_height(
        t,
        zero,
        state::last_of(series, n)[i],
        vmin,
        span,
        (4 * height) as i64,
        #[trigger] last[i],
    ) by {
        assert(last[i] == heights[from + i]);
        assert(state::last_of(series, n)[i] == series[from + i]);
    }
}

/// Each operation that a chart needs has one result.
pub open spec fn has_one_result<T: Figures>(t: T) -> bool {
    &&& forall|n: i64, r: T::F, s: T::F| #[trigger]
        call_ensures(T::whole, (&t, n), r) && #[trigger] call_ensures(T::whole, (&t, n), s) ==> r
            == s
    &&& forall|a: T::F, b: T::F, r: T::F, s: T::F| #[trigger]
        call_ensures(T::minus, (&t, a, b), r) && #[trigger] call_ensures(T::minus, (&t, a, b), s)
            ==> r == s
    &&& forall|a: T::F, b: T::F, r: T::F, s: T::F| #[trigger]
        call_ensures(T::times, (&t, a, b), r) && #[trigger] call_ensures(T::times, (&t, a, b), s)
            ==> r == s
    &&& forall|a: T::F, b: T::F, r: T::F, s: T::F| #[trigger]
        call_ensures(T::ratio, (&t, a, b), r) && #[trigger] call_ensures(T::ratio, (&t, a, b), s)
            ==> r == s
    &&& forall|a: T::F, b: T::F, r: bool, s: bool| #[trigger]
        call_ensures(T::at_most, (&t, a, b), r) && #[trigger] call_ensures(
            T::at_most,
            (&t, a, b),
            s,
        ) ==> r == s
    &&& forall|a: T::F, b: T::F, r: bool, s: bool| #[trigger]
        call_ensures(T::under, (&t, a, b), r) && #[trigger] call_ensures(T::under, (&t, a, b), s)
            ==> r == s
    &&& forall|a: T::F, r: i64, s: i64| #[trigger]
        call_ensures(T::rounded, (&t, a), r) && #[trigger] call_ensures(T::rounded, (&t, a), s)
            ==> r == s
}

proof fn lemma_one_height<T: Figures>(
    t: T,
    zero: T::F,
    v: T::F,
    vmin: T::F,
    span: T::F,
    rows: i64,
    n: i64,
    m: i64,
)
    requires
        has_one_result(t),
        is_height(t, zero, v, vmin, span, rows, n),
        is_height(t, zero, v, vmin, span, rows, m),
    ensures
        n == m,
{
}

proof fn lemma_one_span<T: Figures>(
    t: T,
    zero: T::F,
    vmin: T::F,
    vmax: T::F,
    a: T::F,
    b: T::F,
)
    requires
        has_one_result(t),
        is_span(t, zero, vmin, vmax, a),
        is_span(t, zero, vmin, vmax, b),
    ensures
        a == b,
{
}

proof fn lemma_one_list_of_heights<T: Figures>(
    t: T,
    zero: T::F,
    values: Seq<T::F>,
    vmin: T::F,
    vmax: T::F,
    rows: i64,
    a: Seq<i64>,
    b: Seq<i64>,
)
    requires
        has_one_result(t),
        are_heights(t, zero, values, vmin, vmax, rows, a),
        are_heights(t, zero, values, vmin, vmax, rows, b),
    ensures
        a == b,
{
    let x = choose|span: T::F| #[trigger]
        is_span(t, zero, vmin, vmax, span) && forall|i: int|
            0 <= i < values.len() ==> is_height(
                t,
                zero,
                values[i],
                vmin,
                span,
                rows,
                #[trigger] a[i],
            );
    let y = choose|span: T::F| #[trigger]
        is_span(t, zero, vmin, vmax, span) && forall|i: int|
            0 <= i < values.len() ==> is_height(
                t,
                zero,
                values[i],
                vmin,
                span,
                rows,
                #[trigger] b[i],
            );
    lemma_one_span(t, zero, vmin, vmax, x, y);
    assert forall|i: int| 0 <= i < a.len() implies a[i] == b[i] by {
        assert(is_height(t, zero, values[i], vmin, x, rows, a[i]));
        assert(is_height(t, zero, values[i], vmin, x, rows, b[i]));
        lemma_one_height(t, zero, values[i], vmin, x, rows, a[i], b[i]);
    }
    assert(a =~= b);
}

/// `rows` is a braille chart of the series.
pub open spec fn is_chart<T: Figures>(
    t: T,
    zero: T::F,
    series: Seq<T::F>,
    width: nat,
    height: nat,
    vmin: T::F,
    vmax: T::F,
    baseline: bool,
    flip: bool,
    rows: Seq<String>,
) -> bool {
    exists|heights: Seq<i64>| #[trigger]
        are_heights(t, zero, series, vmin, vmax, (4 * height) as i64, heights)
            && cells::are_rows(heights, width, height, baseline, flip, rows)
}

/// A chart of the samples that fit it is the chart of all of them: the rows are
/// the same.
pub proof fn law_last_samples_give_chart<T: Figures>(
    t: T,
    zero: T::F,
    series: Seq<T::F>,
    width: nat,
    height: nat,
    vmin: T::F,
    vmax: T::F,
    baseline: bool,
    flip: bool,
    rows: Seq<String>,
    last: Seq<String>,
)
    requires
        has_one_result(t),
        is_chart(t, zero, series, width, height, vmin, vmax, baseline, flip, rows),
        is_chart(
            t,
            zero,
            state::last_of(series, 2 * width),
            width,
            height,
            vmin,
            vmax,
            baseline,
            flip,
            last,
        ),
    ensures
        text::views(rows) == text::views(last),
{
    let k = (4 * height) as i64;
    let a = choose|heights: Seq<i64>| #[trigger]
        are_heights(t, zero, series, vmin, vmax, k, heights) && cells::are_rows(
            heights,
            width,
            height,
            baseline,
            flip,
            rows,
        );
    let fit = state::last_of(series, 2 * width);
    let b = choose|heights: Seq<i64>| #[trigger]
        are_heights(t, zero, fit, vmin, vmax, k, heights) && cells::are_rows(
            heights,
            width,
            height,
            baseline,
            flip,
            last,
        );
    law_only_last_samples_count(
        t,
        zero,
        series,
        vmin,
        vmax,
        width,
        height,
        baseline,
        flip,
        a,
        rows,
    );
    lemma_one_list_of_heights(
        t,
        zero,
        fit,
        vmin,
        vmax,
        k,
        state::last_of(a, 2 * width),
        b,
    );
    assert forall|i: int| 0 <= i < rows.len() implies rows[i]@ == last[i]@ by {
        assert(rows[i]@ == cells::chart_row(b, width, height, baseline, flip, i));
    }
    assert(text::views(rows) =~= text::views(last));
}

/// A chart is `height` rows of `width` braille glyphs, and the flipped chart of
/// the same series is its mirror image: what one shows in a dot row, counted
/// from the top, the other shows in that row counted from the bottom.
pub proof fn law_charts_mirror<T: Figures>(
    t: T,
    zero: T::F,
    series: Seq<T::F>,
    width: nat,
    height: nat,
    vmin: T::F,
    vmax: T::F,
    baseline: bool,
    flip: bool,
    rows: Seq<String>,
    flipped: Seq<String>,
)
    requires
        has_one_result(t),
        0 < width,
        is_chart(t, zero, series, width, height, vmin, vmax, baseline, flip, rows),
        is_chart(t, zero, series, width, height, vmin, vmax, baseline, !flip, flipped),
    ensures
        rows.len() == height && flipped.len() == height,
        forall|row: int|
            0 <= row < height ==> (#[trigger] rows[row])@.len() == width && flipped[row]@.len()
                == width,
        forall|row: int, col: int|
            0 <= row < height && 0 <= col < width ==> cells::is_braille(
                #[trigger] rows[row]@[col],
            ),
        forall|row: int, col: int, column: int, k: int|
            0 <= row < height && 0 <= col < width && 0 <= column < 2 && 0 <= k < 4
                ==> #[trigger] cells::shows(rows[row]@[col], column, k) == cells::shows(
                flipped[height - 1 - row]@[col],
                column,
                3 - k,
            ),
{
    let n = (4 * height) as i64;
    let a = choose|heights: Seq<i64>| #[trigger]
        are_heights(t, zero, series, vmin, vmax, n, heights) && cells::are_rows(
            heights,
            width,
            height,
            baseline,
            flip,
            rows,
        );
    let b = choose|heights: Seq<i64>| #[trigger]
        are_heights(t, zero, series, vmin, vmax, n, heights) && cells::are_rows(
            heights,
            width,
            height,
            baseline,
            !flip,
            flipped,
        );
    lemma_one_list_of_heights(t, zero, series, vmin, vmax, n, a, b);
    assert forall|row: int, col: int|
        0 <= row < height && 0 <= col < width implies cells::is_braille(
        #[trigger] rows[row]@[col],
    ) by {
        assert(rows[row]@ == cells::chart_row(a, width, height, baseline, flip, row));
        cells::law_charts_are_braille(a, width, height, baseline, flip, row, col);
    }
    assert forall|row: int, col: int, column: int, k: int|
        0 <= row < height && 0 <= col < width && 0 <= column < 2 && 0 <= k < 4
            implies #[trigger] cells::shows(rows[row]@[col], column, k) == cells::shows(
        flipped[height - 1 - row]@[col],
        column,
        3 - k,
    ) by {
        let other = height - 1 - row;
        assert(rows[row]@ == cells::chart_row(a, width, height, baseline, flip, row));
        assert(flipped[other]@ == cells::chart_row(a, width, height, baseline, !flip, other));
        cells::law_flip_mirrors(a, width, height, baseline, flip, row, col, column, k);
    }
}

/// The heights of the bars of a chart.
pub fn heights_of<T: Figures>(
    t: &T,
    zero: T::F,
    values: &Vec<T::F>,
    vmin: T::F,
    vmax: T::F,
    rows: i64,
) -> (r: Vec<i64>)
    ensures
        are_heights(*t, zero, values@, vmin, vmax, rows, r@),
{
    let span = span_of(t, zero, vmin, vmax);
    let mut r: Vec<i64> = Vec::new();
    for i in 0..values.len()
        invariant
            r@.len() == i,
            forall|j: int|
                0 <= j < i ==> is_height(*t, zero, values@[j], vmin, span, rows, #[trigger] r@[j]),
    {
        r.push(height_of(t, zero, values[i], vmin, span, rows));
    }
    assert(is_span(*t, zero, vmin, vmax, span));
    r
}

/// Render `series` as `height` rows of `width` braille glyphs.
///
/// Each cell is a 2x4 dot matrix, so the effective resolution is `2*width`
/// columns by `4*height` dots. Values are clipped to `[vmin, vmax]`; the most
/// recent samples are shown right-aligned.
///
/// With `baseline` (btop's `no_zero` behavior) every sampled column lights at
/// least its bottom dot, so the graph keeps a continuous floor instead of
/// leaving gaps where the value is zero.
///
/// With `flip` the bars grow downward from the top row instead of upward from
/// the bottom, for the lower half of a btop-style mirrored chart, so that its
/// floor sits on the shared centre line.
pub fn braille_chart<T: Figures>(
    t: &T,
    zero: T::F,
    series: &Vec<T::F>,
    width: usize,
    height: usize,
    vmin: T::F,
    vmax: T::F,
    baseline: bool,
    flip: bool,
) -> (r: Vec<String>)
    requires
        2 * width <= usize::MAX,
        4 * height <= usize::MAX,
        4 * height <= i64::MAX,
    ensures
        is_chart(
            *t,
            zero,
            series@,
            width as nat,
            height as nat,
            vmin,
            vmax,
            baseline,
            flip,
            r@,
        ),
{
    let dots = (4 * height) as i64;
    let heights = heights_of(t, zero, series, vmin, vmax, dots);
    assert(dots == (4 * (height as nat)) as i64);
    assert(are_heights(*t, zero, series@, vmin, vmax, (4 * (height as nat)) as i64, heights@));
    braille_rows(&heights, width, height, baseline, flip)
}

/// `r` is `v` on an axis that expands the band near `vmax`: the headroom below
/// `vmax` is scaled by a logarithm with stretch `k`, whose value at `k` is
/// `most`.
pub open spec fn is_headroom<T: Figures>(
    t: T,
    zero: T::F,
    v: T::F,
    vmax: T::F,
    k: T::F,
    most: T::F,
    r: T::F,
) -> bool {
    exists|room: T::F, h: T::F, kh: T::F, q: T::F, l: T::F, share: T::F, one: T::F| #[trigger]
        call_ensures(T::minus, (&t, vmax, v), room) && #[trigger] state::is_clamped(
            t,
            room,
            zero,
            vmax,
            h,
        ) && #[trigger] call_ensures(T::times, (&t, k, h), kh) && #[trigger] call_ensures(
            T::ratio,
            (&t, kh, vmax),
            q,
        ) && #[trigger] call_ensures(T::ln_1p, (&t, q), l) && #[trigger] call_ensures(
            T::ratio,
            (&t, l, most),
            share,
        ) && #[trigger] call_ensures(T::whole, (&t, 1i64), one) && call_ensures(
            T::minus,
            (&t, one, share),
            r,
        )
}

fn headroom<T: Figures>(t: &T, zero: T::F, v: T::F, vmax: T::F, k: T::F, most: T::F) -> (r: T::F)
    ensures
        is_headroom(*t, zero, v, vmax, k, most, r),
{
    let room = t.minus(vmax, v);
    let h = clamp(t, room, zero, vmax);
    let kh = t.times(k, h);
    let q = t.ratio(kh, vmax);
    let l = t.ln_1p(q);
    let share = t.ratio(l, most);
    let one = t.whole(1);
    assert(call_ensures(T::minus, (t, vmax, v), room));
    assert(call_ensures(T::times, (t, k, h), kh));
    assert(call_ensures(T::ratio, (t, kh, vmax), q));
    assert(call_ensures(T::ln_1p, (t, q), l));
    assert(call_ensures(T::ratio, (t, l, most), share));
    assert(call_ensures(T::whole, (t, 1i64), one));
    t.minus(one, share)
}

/// The values on an axis that expands the band near `vmax`; all are zero where
/// there is no headroom.
pub open spec fn are_headrooms<T: Figures>(
    t: T,
    zero: T::F,
    values: Seq<T::F>,
    vmax: T::F,
    r: Seq<T::F>,
) -> bool {
    r.len() == values.len() && exists|flat: bool, k: T::F, most: T::F| #[trigger]
        call_ensures(T::at_most, (&t, vmax, zero), flat) && #[trigger] call_ensures(
            T::whole,
            (&t, 19i64),
            k,
        ) && #[trigger] call_ensures(T::ln_1p, (&t, k), most) && forall|i: int|
            0 <= i < r.len() ==> if flat {
                #[trigger] r[i] == zero
            } else {
                is_headroom(t, zero, values[i], vmax, k, most, r[i])
            }
}

/// Compress `values` onto a [0, 1] axis that expands the band near `vmax`.
///
/// Plotting near-saturated data (e.g. KV cache that sits at 85-95%) on a linear
/// axis crushes all the variation into a thin strip at the top. This log-scales
/// the *headroom* (`vmax - value`) instead: a value of 0 maps to 0 (a thin
/// floor), `vmax` maps to 1 (the top), and the spacing stretches as values
/// approach `vmax` so the busy band fills the chart. Feed the result to
/// [`braille_chart`] with `vmin=0, vmax=1`.
pub fn log_headroom_scale<T: Figures>(
    t: &T,
    zero: T::F,
    values: &Vec<T::F>,
    vmax: T::F,
) -> (r: Vec<T::F>)
    ensures
        are_headrooms(*t, zero, values@, vmax, r@),
{
    let flat = t.at_most(vmax, zero);
    let k = t.whole(19);
    let most = t.ln_1p(k);
    assert(call_ensures(T::at_most, (t, vmax, zero), flat));
    assert(call_ensures(T::whole, (t, 19i64), k));
    assert(call_ensures(T::ln_1p, (t, k), most));
    let mut r: Vec<T::F> = Vec::new();
    for i in 0..values.len()
        invariant
            r@.len() == i,
            forall|j: int|
                0 <= j < i ==> if flat {
                    #[trigger] r@[j] == zero
                } else {
                    is_headroom(*t, zero, values@[j], vmax, k, most, r@[j])
                },
    {
        r.push(
            if flat {
                zero
            } else {
                headroom(t, zero, values[i], vmax, k, most)
            },
        );
    }
    r
}

/// `r` is the value, not below zero; zero where there is none.
pub open spec fn is_floored<T: Figures>(t: T, zero: T::F, v: Option<T::F>, r: T::F) -> bool {
    match v {
        Some(v) => call_ensures(T::larger, (&t, v, zero), r),
        None => r == zero,
    }
}

fn floored<T: Figures>(t: &T, zero: T::F, v: Option<T::F>) -> (r: T::F)
    ensures
        is_floored(*t, zero, v, r),
{
    match v {
        Some(v) => t.larger(v, zero),
        None => zero,
    }
}

/// `n` is the fraction `q` of `rows`, at most all of them, rounded.
pub open spec fn is_capped<T: Figures>(t: T, q: T::F, rows: i64, n: i64) -> bool {
    exists|one: T::F, m: T::F| #[trigger]
        call_ensures(T::whole, (&t, 1i64), one) && #[trigger] call_ensures(
            T::smaller,
            (&t, q, one),
            m,
        ) && is_part(t, m, rows, n)
}

fn capped<T: Figures>(t: &T, q: T::F, rows: i64) -> (r: i64)
    ensures
        is_capped(*t, q, rows, r),
{
    let one = t.whole(1);
    let m = t.smaller(q, one);
    assert(call_ensures(T::whole, (t, 1i64), one));
    assert(call_ensures(T::smaller, (t, q, one), m));
    part_of(t, m, rows)
}

/// `n` is how many dots a value fills on a linear axis that ends at `span`.
pub open spec fn is_linear<T: Figures>(t: T, v: T::F, span: T::F, rows: i64, n: i64) -> bool {
    exists|q: T::F| #[trigger]
        call_ensures(T::ratio, (&t, v, span), q) && is_capped(t, q, rows, n)
}

fn linear<T: Figures>(t: &T, v: T::F, span: T::F, rows: i64) -> (r: i64)
    ensures
        is_linear(*t, v, span, rows, r),
{
    let q = t.ratio(v, span);
    assert(call_ensures(T::ratio, (t, v, span), q));
    capped(t, q, rows)
}

/// `n` is how many dots a value fills on a logarithmic axis that ends at
/// `span`.
pub open spec fn is_logarithmic<T: Figures>(
    t: T,
    zero: T::F,
    v: T::F,
    span: T::F,
    rows: i64,
    n: i64,
) -> bool {
    exists|end: T::F, flat: bool, l: T::F, q: T::F| #[trigger]
        call_ensures(T::ln_1p, (&t, span), end) && #[trigger] call_ensures(
            T::equal,
            (&t, end, zero),
            flat,
        ) && #[trigger] call_ensures(T::ln_1p, (&t, v), l) && #[trigger] call_ensures(
            T::ratio,
            (&t, l, end),
            q,
        ) && is_capped(
            t,
            if flat {
                zero
            } else {
                q
            },
            rows,
            n,
        )
}

fn logarithmic<T: Figures>(t: &T, zero: T::F, v: T::F, span: T::F, rows: i64) -> (r: i64)
    ensures
        is_logarithmic(*t, zero, v, span, rows, r),
{
    let end = t.ln_1p(span);
    let flat = t.equal(end, zero);
    let l = t.ln_1p(v);
    let q = t.ratio(l, end);
    assert(call_ensures(T::ln_1p, (t, span), end));
    assert(call_ensures(T::equal, (t, end, zero), flat));
    assert(call_ensures(T::ln_1p, (t, v), l));
    assert(call_ensures(T::ratio, (t, l, end), q));
    capped(
        t,
        if flat {
            zero
        } else {
            q
        },
        rows,
    )
}

/// The dots of a column that shows `near` and `far`, one upon the other. On a
/// logarithmic axis the far ones are those that the sum fills beyond the near
/// ones, of which there is at least one.
pub open spec fn is_stack<T: Figures>(
    t: T,
    zero: T::F,
    near: T::F,
    far: T::F,
    span: T::F,
    log: bool,
    rows: i64,
    dots: (i64, i64),
) -> bool {
    if log {
        &&& is_logarithmic(t, zero, near, span, rows, dots.0)
        &&& exists|sum: T::F, all: i64| #[trigger]
            call_ensures(T::plus, (&t, near, far), sum) && #[trigger] is_logarithmic(
                t,
                zero,
                sum,
                span,
                rows,
                all,
            ) && dots.1 == beyond(all, dots.0)
    } else {
        is_linear(t, near, span, rows, dots.0) && is_linear(t, far, span, rows, dots.1)
    }
}

/// How many of `all` dots lie beyond `near` dots, and at least beyond one.
pub open spec fn beyond(all: i64, near: i64) -> i64 {
    let from = if near < 1 {
        1
    } else {
        near as int
    };
    if all <= from {
        0
    } else {
        (all - from) as i64
    }
}

fn stack_of<T: Figures>(
    t: &T,
    zero: T::F,
    near: T::F,
    far: T::F,
    span: T::F,
    log: bool,
    rows: i64,
) -> (r: (i64, i64))
    ensures
        is_stack(*t, zero, near, far, span, log, rows, r),
{
    if log {
        let n = logarithmic(t, zero, near, span, rows);
        let sum = t.plus(near, far);
        assert(call_ensures(T::plus, (t, near, far), sum));
        let all = logarithmic(t, zero, sum, span, rows);
        let from: i64 = if n < 1 {
            1
        } else {
            n
        };
        let f: i64 = if all <= from {
            0
        } else {
            all - from
        };
        assert(f == beyond(all, n));
        (n, f)
    } else {
        (linear(t, near, span, rows), linear(t, far, span, rows))
    }
}

/// The dots of a column that shows a near and a far value, where there are
/// any.
pub open spec fn is_column<T: Figures>(
    t: T,
    zero: T::F,
    column: (Option<T::F>, Option<T::F>),
    span: T::F,
    log: bool,
    rows: i64,
    dots: Option<(i64, i64)>,
) -> bool {
    match dots {
        None => column.0 is None && column.1 is None,
        Some(d) => (column.0 is Some || column.1 is Some) && exists|near: T::F, far: T::F|
            #[trigger] is_floored(t, zero, column.0, near) && #[trigger] is_floored(
                t,
                zero,
                column.1,
                far,
            ) && is_stack(t, zero, near, far, span, log, rows, d),
    }
}

fn column_of<T: Figures>(
    t: &T,
    zero: T::F,
    column: (Option<T::F>, Option<T::F>),
    span: T::F,
    log: bool,
    rows: i64,
) -> (r: Option<(i64, i64)>)
    ensures
        is_column(*t, zero, column, span, log, rows, r),
{
    if column.0.is_none() && column.1.is_none() {
        return None;
    }
    let near = floored(t, zero, column.0);
    let far = floored(t, zero, column.1);
    assert(is_floored(*t, zero, column.0, near));
    assert(is_floored(*t, zero, column.1, far));
    let d = stack_of(t, zero, near, far, span, log, rows);
    Some(d)
}

/// The dots of every column of a stacked chart whose axis ends at `vmax`, or
/// at one where that is not positive.
pub open spec fn are_columns<T: Figures>(
    t: T,
    zero: T::F,
    near: Seq<T::F>,
    far: Seq<T::F>,
    width: int,
    rows: i64,
    vmax: T::F,
    log: bool,
    dots: Seq<Option<(i64, i64)>>,
) -> bool {
    dots.len() == 2 * width && exists|up: bool, one: T::F| #[trigger]
        call_ensures(T::under, (&t, zero, vmax), up) && #[trigger] call_ensures(
            T::whole,
            (&t, 1i64),
            one,
        ) && forall|gc: int|
            0 <= gc < 2 * width ==> is_column(
                t,
                zero,
                (cells::stacked_value(near, width, gc), cells::stacked_value(far, width, gc)),
                if up {
                    vmax
                } else {
                    one
                },
                log,
                rows,
                #[trigger] dots[gc],
            )
}

/// Two stacked series growing *downward* from the top row.
///
/// Used for the lower half of a btop-style mirrored chart: `near` grows from
/// the centre line outward (its floor keeps the axis continuous), and `far` is
/// stacked beyond it. Returns a `height x width` grid of `(glyph, band)` where
/// `band` is 0 for `near`, 1 for `far`, or -1 for an empty cell.
///
/// Because a braille cell packs 2x4 dots but can carry only one colour, a
/// cell's band is whichever series owns more of its lit dots (ties -> near).
///
/// With `log` the *cumulative* stack is log-scaled (`ln_1p`): `near` fills
/// `ln_1p(near)` of the column and the total reaches `ln_1p(near + far)`, both
/// normalised by `ln_1p(vmax)`. This expands the low end so small integer
/// counts stay distinct instead of being flattened by an occasional burst.
pub fn stacked_chart_down<T: Figures>(
    t: &T,
    zero: T::F,
    near: &Vec<T::F>,
    far: &Vec<T::F>,
    width: usize,
    height: usize,
    vmax: T::F,
    log: bool,
) -> (grid: Vec<Vec<(char, i8)>>)
    requires
        2 * width <= usize::MAX,
        4 * height <= usize::MAX,
        4 * height <= i64::MAX,
    ensures
        exists|dots: Seq<Option<(i64, i64)>>| #[trigger]
            are_columns(
                *t,
                zero,
                near@,
                far@,
                width as int,
                (4 * height) as i64,
                vmax,
                log,
                dots,
            ) && cells::are_stacked(dots, width as nat, height as nat, grid@),
{
    let up = t.under(zero, vmax);
    let one = t.whole(1);
    assert(call_ensures(T::under, (t, zero, vmax), up));
    assert(call_ensures(T::whole, (t, 1i64), one));
    let span = if up {
        vmax
    } else {
        one
    };
    let columns = stacked_columns(near, far, width);
    let rows = (4 * height) as i64;
    let mut dots: Vec<Option<(i64, i64)>> = Vec::new();
    for gc in 0..columns.len()
        invariant
            columns@.len() == 2 * width,
            dots@.len() == gc,
            forall|k: int|
                0 <= k < 2 * width ==> #[trigger] columns@[k] == (
                    cells::stacked_value(near@, width as int, k),
                    cells::stacked_value(far@, width as int, k),
                ),
            forall|k: int|
                0 <= k < gc ==> is_column(
                    *t,
                    zero,
                    (
                        cells::stacked_value(near@, width as int, k),
                        cells::stacked_value(far@, width as int, k),
                    ),
                    span,
                    log,
                    rows,
                    #[trigger] dots@[k],
                ),
    {
        let d = column_of(t, zero, columns[gc], span, log, rows);
        dots.push(d);
    }
    assert(are_columns(
        *t,
        zero,
        near@,
        far@,
        width as int,
        (4 * height) as i64,
        vmax,
        log,
        dots@,
    ));
    stacked_rows(&dots, width, height)
}

/// `n` is how many of `width` cells a value fills where `vmax` fills all; none
/// where `vmax` is not positive.
pub open spec fn is_filled<T: Figures>(
    t: T,
    zero: T::F,
    value: T::F,
    vmax: T::F,
    width: i64,
    n: i64,
) -> bool {
    exists|none: bool, share: T::F| #[trigger]
        call_ensures(T::at_most, (&t, vmax, zero), none) && #[trigger] is_share(
            t,
            zero,
            value,
            vmax,
            share,
        ) && is_part(
            t,
            if none {
                zero
            } else {
                share
            },
            width,
            n,
        )
}

/// A horizontal bar of `width` chars filled proportional to value/vmax.
pub fn hbar<T: Figures>(t: &T, zero: T::F, value: T::F, vmax: T::F, width: usize) -> (r: String)
    requires
        width <= i64::MAX,
    ensures
        exists|n: i64| #[trigger]
            is_filled(*t, zero, value, vmax, width as i64, n) && r@ == cells::bar_line(
                cells::clamped(n as int, 0, width as int) as nat,
                width as nat,
            ),
{
    let none = t.at_most(vmax, zero);
    assert(call_ensures(T::at_most, (t, vmax, zero), none));
    let share = share_of(t, zero, value, vmax);
    let n = part_of(
        t,
        if none {
            zero
        } else {
            share
        },
        width as i64,
    );
    assert(is_filled(*t, zero, value, vmax, width as i64, n));
    filled_bar(clamp_dots(n, 0, width), width)
}

/// `n` is the level from 0 to 8 of a value where `top` is at the top.
pub open spec fn is_level<T: Figures>(t: T, zero: T::F, v: T::F, top: T::F, n: usize) -> bool {
    exists|share: T::F, k: i64| #[trigger]
        is_share(t, zero, v, top, share) && #[trigger] is_part(t, share, 8, k) && n
            == cells::clamped(k as int, 0, 8)
}

/// The levels of the values, where `vmax` is at the top, or one where that is
/// not positive.
pub open spec fn are_levels<T: Figures>(
    t: T,
    zero: T::F,
    values: Seq<T::F>,
    vmax: T::F,
    levels: Seq<usize>,
) -> bool {
    levels.len() == values.len() && exists|none: bool, one: T::F| #[trigger]
        call_ensures(T::at_most, (&t, vmax, zero), none) && #[trigger] call_ensures(
            T::whole,
            (&t, 1i64),
            one,
        ) && forall|i: int|
            0 <= i < values.len() ==> is_level(
                t,
                zero,
                values[i],
                if none {
                    one
                } else {
                    vmax
                },
                #[trigger] levels[i],
            )
}

/// Render a small inline sparkline using block elements (8 levels).
pub fn histogram_bars<T: Figures>(t: &T, zero: T::F, values: &Vec<T::F>, vmax: T::F) -> (r: String)
    ensures
        exists|levels: Seq<usize>| #[trigger]
            are_levels(*t, zero, values@, vmax, levels) && r@ == cells::blocks(levels),
{
    let none = t.at_most(vmax, zero);
    let one = t.whole(1);
    assert(call_ensures(T::at_most, (t, vmax, zero), none));
    assert(call_ensures(T::whole, (t, 1i64), one));
    let top = if none {
        one
    } else {
        vmax
    };
    let mut levels: Vec<usize> = Vec::new();
    for i in 0..values.len()
        invariant
            levels@.len() == i,
            forall|j: int|
                0 <= j < i ==> is_level(*t, zero, values@[j], top, #[trigger] levels@[j]),
    {
        let share = share_of(t, zero, values[i], top);
        let k = part_of(t, share, 8);
        assert(is_part(*t, share, 8, k));
        levels.push(clamp_dots(k, 0, 8));
    }
    assert(are_levels(*t, zero, values@, vmax, levels@));
    block_line(&levels)
}

} // verus!
