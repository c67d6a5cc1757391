//! What charts and bars show of their values.

use vstd::prelude::*;

use crate::ui::cells;
use crate::ui::scales;
use crate::ui::widgets;
use crate::ui::widgets::{
    braille_chart, hbar, histogram_bars, log_headroom_scale, stacked_chart_down, Figures,
};

verus! {

/// `n` of `rows` dots stand for `x` on an axis from `lo` to `hi`, to the nearest
/// dot.
pub open spec fn stands_for(n: int, rows: int, x: real, lo: real, hi: real) -> bool {
    scales::is_near(
        n as real,
        rows as real,
        scales::between(x - lo, 0real, hi - lo),
        hi - lo,
    )
}

/// The dots of a chart: there is a bar for each of the last values, the last one
/// on the right, whose length stands for its value; just the dots along it are
/// lit, from the bottom up or, flipped, from the top down.
pub proof fn law_chart_dots_stand_for_values<T: Figures>(
    t: T,
    v: spec_fn(T::F) -> real,
    zero: T::F,
    values: Vec<T::F>,
    width: usize,
    height: usize,
    vmin: T::F,
    vmax: T::F,
    baseline: bool,
    flip: bool,
    r: Vec<String>,
    row: int,
    col: int,
    column: int,
    k: int,
)
    requires
        scales::rounds(t, v, zero),
        v(vmin) < v(vmax),
        4 * height <= i64::MAX,
        call_ensures(
            braille_chart::<T>,
            (&t, zero, &values, width, height, vmin, vmax, baseline, flip),
            r,
        ),
        0 <= row < height,
        0 <= col < width,
        0 <= column < 2,
        0 <= k < 4,
    ensures
        r@.len() == height,
        r@[row]@.len() == width,
        exists|n: int| #[trigger]
            lights(
                r@[row]@[col],
                column,
                k,
                n,
                baseline,
                distance(flip, height as int, row, k),
            ) && ({
                let back = 2 * (width - col) - column;
                if back <= values@.len() {
                    stands_for(
                        n,
                        4 * height,
                        v(values@[values@.len() - back]),
                        v(vmin),
                        v(vmax),
                    )
                } else {
                    n < 0
                }
            }),
{
    let rows = (4 * (height as nat)) as i64;
    let hs = choose|hs: Seq<i64>| #[trigger]
        widgets::are_heights(t, zero, values@, vmin, vmax, rows, hs) && cells::are_rows(
            hs,
            width as nat,
            height as nat,
            baseline,
            flip,
            r@,
        );
    assert(r@[row]@ == cells::chart_row(hs, width as nat, height as nat, baseline, flip, row));
    cells::law_dots_show_heights(
        hs,
        width as nat,
        height as nat,
        baseline,
        flip,
        row,
        col,
        column,
        k,
    );
    let back = 2 * (width - col) - column;
    let at = distance(flip, height as int, row, k);
    if back <= values@.len() {
        let i = values@.len() - back;
        scales::law_bars_are_to_scale(t, v, zero, values@, vmin, vmax, rows, hs, i);
        let (m, x, b) = (hs[i] as real, rows as real, v(vmax) - v(vmin));
        let p = scales::between(v(values@[i]) - v(vmin), 0real, b);
        assert(m > -1real) by (nonlinear_arith)
            requires
                -b <= 2real * (m * b - x * p),
                p >= 0real,
                x >= 0real,
                b > 0real,
        ;
        assert(hs[i] >= 0);
        assert(lights(r@[row]@[col], column, k, hs[i] as int, baseline, at));
    } else {
        assert(lights(r@[row]@[col], column, k, -1, baseline, at));
    }
}

/// How many dots lie before dot row `k` of a line, from where bars start.
pub open spec fn distance(flip: bool, height: int, row: int, k: int) -> int {
    if flip {
        4 * row + k
    } else {
        4 * (height - row) - 1 - k
    }
}

/// A dot that lies `at` dots from where bars start is lit just where a bar of
/// `n` dots reaches it; with a baseline the first dot of every bar is.
pub open spec fn lights(
    c: char,
    column: int,
    k: int,
    n: int,
    baseline: bool,
    at: int,
) -> bool {
    cells::shows(c, column, k) <==> at < n || at == 0 && baseline && n >= 0
}

/// A horizontal bar has as many full cells as stand for its value, the others
/// are empty.
pub proof fn law_bars_stand_for_values<T: Figures>(
    t: T,
    v: spec_fn(T::F) -> real,
    zero: T::F,
    value: T::F,
    vmax: T::F,
    width: usize,
    r: String,
)
    requires
        scales::rounds(t, v, zero),
        width <= i64::MAX,
        call_ensures(hbar::<T>, (&t, zero, value, vmax, width), r),
    ensures
        exists|n: int| #[trigger]
            is_bar(r@, n, width as int) && if v(vmax) > 0real {
                scales::is_near(
                    n as real,
                    width as real,
                    scales::between(v(value), 0real, v(vmax)),
                    v(vmax),
                )
            } else {
                n == 0
            },
{
    let n = choose|n: i64| #[trigger]
        widgets::is_filled(t, zero, value, vmax, width as i64, n) && r@ == cells::bar_line(
            cells::clamped(n as int, 0, width as int) as nat,
            width as nat,
        );
    scales::law_bars_fill_in_proportion(t, v, zero, value, vmax, width as i64, n);
    let (m, w) = (n as real, width as real);
    if v(vmax) > 0real {
        let (p, b) = (scales::between(v(value), 0real, v(vmax)), v(vmax));
        assert(w >= 0real);
        assert(-1real < m && m < w + 1real) by (nonlinear_arith)
            requires
                -b <= 2real * (m * b - w * p) <= b,
                0real <= p <= b,
                b > 0real,
                w >= 0real,
        ;
        assert(0 <= n <= width);
    }
    assert(is_bar(r@, n as int, width as int));
}

/// The first `n` of `width` cells are full.
pub open spec fn is_bar(s: Seq<char>, n: int, width: int) -> bool {
    &&& s.len() == width
    &&& forall|i: int|
        0 <= i < width ==> #[trigger] s[i] == if i < n {
            '█'
        } else {
            '░'
        }
}

/// The axis that expands the band near the most: zero is at the bottom, the most
/// at the top, and a larger value is never lower.
pub proof fn law_headroom_scale<T: Figures>(
    t: T,
    v: spec_fn(T::F) -> real,
    l: spec_fn(real) -> real,
    zero: T::F,
    values: Vec<T::F>,
    vmax: T::F,
    r: Vec<T::F>,
    i: int,
    j: int,
)
    requires
        scales::rounds(t, v, zero),
        scales::logs(t, v, l),
        call_ensures(log_headroom_scale::<T>, (&t, zero, &values, vmax), r),
        0 <= i < values@.len(),
        0 <= j < values@.len(),
    ensures
        r@.len() == values@.len(),
        v(vmax) > 0real && v(values@[i]) <= 0real ==> v(r@[i]) == 0real,
        v(vmax) > 0real && v(values@[i]) >= v(vmax) ==> v(r@[i]) == 1real,
        v(values@[i]) <= v(values@[j]) ==> v(r@[i]) <= v(r@[j]),
        v(vmax) > 0real && 0real <= v(values@[i]) <= v(vmax) ==> v(r@[i]) == 1real - l(
            19real * (v(vmax) - v(values@[i])) / v(vmax),
        ) / l(19real),
{
    scales::law_headroom_is_expanded(t, v, l, zero, values@, vmax, r@, i);
    if v(values@[i]) <= v(values@[j]) {
        scales::law_headroom_keeps_order(t, v, l, zero, values@, vmax, r@, i, j);
    }
}

/// A sparkline has a block for each value, whose level out of eight stands for
/// it.
pub proof fn law_sparklines_stand_for_values<T: Figures>(
    t: T,
    v: spec_fn(T::F) -> real,
    zero: T::F,
    values: Vec<T::F>,
    vmax: T::F,
    r: String,
    i: int,
)
    requires
        scales::rounds(t, v, zero),
        v(vmax) > 0real,
        call_ensures(histogram_bars::<T>, (&t, zero, &values, vmax), r),
        0 <= i < values@.len(),
    ensures
        r@.len() == values@.len(),
        exists|n: int|
            0 <= n <= 8 && r@[i] == #[trigger] cells::block(n) && scales::is_near(
                n as real,
                8real,
                scales::between(v(values@[i]), 0real, v(vmax)),
                v(vmax),
            ),
{
    let levels = choose|levels: Seq<usize>| #[trigger]
        widgets::are_levels(t, zero, values@, vmax, levels) && r@ == cells::blocks(levels);
    scales::law_blocks_are_to_scale(t, v, zero, values@, vmax, levels, i);
    assert(r@[i] == cells::block(levels[i] as int));
}

/// The blocks of a sparkline are the higher the larger their level is: none at
/// zero, and at each step one eighth more.
pub proof fn law_blocks_rise(n: int)
    requires
        0 <= n <= 8,
    ensures
        n == 0 ==> cells::block(n) == ' ',
        n > 0 ==> cells::block(n) as int == '▁' as int + n - 1,
{
}

/// A stacked chart of as many values as it has dot columns, on a linear axis:
/// in each dot column the dots grow down from the top, first those that stand
/// for the near value, at least one, and after them those that stand for the
/// far value, as far as there is room.
pub proof fn law_stacks_stand_for_values<T: Figures>(
    t: T,
    v: spec_fn(T::F) -> real,
    zero: T::F,
    near: Vec<T::F>,
    far: Vec<T::F>,
    width: usize,
    height: usize,
    vmax: T::F,
    grid: Vec<Vec<(char, i8)>>,
    row: int,
    col: int,
    column: int,
    k: int,
)
    requires
        scales::rounds(t, v, zero),
        v(vmax) > 0real,
        4 * height <= i64::MAX,
        near@.len() == 2 * width && far@.len() == 2 * width,
        call_ensures(
            stacked_chart_down::<T>,
            (&t, zero, &near, &far, width, height, vmax, false),
            grid,
        ),
        0 <= row < height,
        0 <= col < width,
        0 <= column < 2,
        0 <= k < 4,
        v(near@[2 * col + column]) >= 0real,
        v(far@[2 * col + column]) >= 0real,
    ensures
        grid@.len() == height,
        grid@[row]@.len() == width,
        exists|n: int, f: int| #[trigger]
            stacks(grid@[row]@[col].0, column, k, 4 * row + k, n, f, 4 * height) && stands_for(
                n,
                4 * height,
                v(near@[2 * col + column]),
                0real,
                v(vmax),
            ) && stands_for(f, 4 * height, v(far@[2 * col + column]), 0real, v(vmax)),
{
    let rows = (4 * height) as i64;
    let gc = 2 * col + column;
    let dots = choose|dots: Seq<Option<(i64, i64)>>| #[trigger]
        widgets::are_columns(
            t,
            zero,
            near@,
            far@,
            width as int,
            rows,
            vmax,
            false,
            dots,
        ) && cells::are_stacked(dots, width as nat, height as nat, grid@);
    let (up, one) = choose|up: bool, one: T::F| #[trigger]
        call_ensures(T::under, (&t, zero, vmax), up) && #[trigger] call_ensures(
            T::whole,
            (&t, 1i64),
            one,
        ) && forall|gc: int|
            0 <= gc < 2 * width ==> widgets::is_column(
                t,
                zero,
                (
                    cells::stacked_value(near@, width as int, gc),
                    cells::stacked_value(far@, width as int, gc),
                ),
                if up {
                    vmax
                } else {
                    one
                },
                false,
                rows,
                #[trigger] dots[gc],
            );
    let d = dots[gc];
    assert(cells::stacked_value(near@, width as int, gc) == Some(near@[gc]));
    assert(cells::stacked_value(far@, width as int, gc) == Some(far@[gc]));
    assert(d is Some);
    let (a, b) = choose|a: T::F, b: T::F|
        #[trigger] widgets::is_floored(t, zero, Some(near@[gc]), a)
            && #[trigger] widgets::is_floored(t, zero, Some(far@[gc]), b) && widgets::is_stack(
            t,
            zero,
            a,
            b,
            vmax,
            false,
            rows,
            d.unwrap(),
        );
    assert(v(a) == v(near@[gc]) && v(b) == v(far@[gc]));
    scales::law_stacks_are_to_scale(t, v, zero, a, b, vmax, rows, d.unwrap());
    cells::law_stacked_dots(dots, height as int, row, col, column, k);
    assert(grid@[row]@[col] == cells::stacked_cell(dots, height as int, row, col));
    let (n, f) = (d.unwrap().0 as int, d.unwrap().1 as int);
    lemma_length(n, 4 * height, v(near@[gc]), v(vmax));
    lemma_length(f, 4 * height, v(far@[gc]), v(vmax));
    assert(stacks(grid@[row]@[col].0, column, k, 4 * row + k, n, f, 4 * height));
}

proof fn lemma_length(n: int, rows: int, x: real, top: real)
    requires
        stands_for(n, rows, x, 0real, top),
        top > 0real,
        rows >= 0,
    ensures
        0 <= n <= rows,
{
    let (m, r, p) = (n as real, rows as real, scales::between(x, 0real, top));
    assert(-1real < m && m < r + 1real) by (nonlinear_arith)
        requires
            -top <= 2real * (m * top - r * p) <= top,
            0real <= p <= top,
            r >= 0real,
            top > 0real,
    ;
}

/// Dot row `r`, from the top, is lit just where a stack of `n` near dots, at
/// least one, and `f` far dots reaches it within `rows`; a cell without dots is
/// blank.
pub open spec fn stacks(
    c: char,
    column: int,
    k: int,
    r: int,
    n: int,
    f: int,
    rows: int,
) -> bool {
    let near = if n < 1 {
        1
    } else {
        n
    };
    let reached = r < near + f && r < rows;
    if c == ' ' {
        !reached
    } else {
        cells::shows(c, column, k) <==> reached
    }
}

} // verus!
