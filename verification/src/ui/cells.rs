//! Cells of braille dots and blocks.
//!
//! A braille glyph is a 2x4 dot matrix, so that `width` by `height` cells show
//! `2*width` columns of `4*height` dots. What is drawn here is given in dots.

use vstd::prelude::*;

use crate::state;
use crate::text;
use crate::text::{decimal_text, repeat};

verus! {

/// `char::from_u32` gives the character of a code point that is one: every
/// number up to 0x10ffff but the surrogates.
pub assume_specification[ char::from_u32 ](i: u32) -> (r: Option<char>)
    ensures
        r is Some <==> (i <= 0xd7ff || 0xe000 <= i <= 0x10ffff),
        r matches Some(c) ==> c as int == i,
;

/// The bit of a braille dot, by column and row of the cell, with row 0 at the
/// top:
///
/// ```text
/// 1 4        0x01 0x08
/// 2 5   ->   0x02 0x10
/// 3 6        0x04 0x20
/// 7 8        0x40 0x80
/// ```
pub open spec fn dot_bit(column: int, row: int) -> int {
    if column == 0 {
        if row == 0 {
            0x01
        } else if row == 1 {
            0x02
        } else if row == 2 {
            0x04
        } else {
            0x40
        }
    } else {
        if row == 0 {
            0x08
        } else if row == 1 {
            0x10
        } else if row == 2 {
            0x20
        } else {
            0x80
        }
    }
}

pub open spec fn bit_if(lit: bool, bit: int) -> int {
    if lit {
        bit
    } else {
        0
    }
}

/// The bits of one column of a cell: the dots whose row, counted from the top
/// of the chart, is from `lo` up to but not including `hi`.
pub open spec fn column_bits(column: int, top: int, lo: int, hi: int) -> int {
    bit_if(lo <= top < hi, dot_bit(column, 0)) + bit_if(lo <= top + 1 < hi, dot_bit(column, 1))
        + bit_if(lo <= top + 2 < hi, dot_bit(column, 2)) + bit_if(
        lo <= top + 3 < hi,
        dot_bit(column, 3),
    )
}

/// How many dots of one column of a cell are lit.
pub open spec fn column_count(top: int, lo: int, hi: int) -> int {
    bit_if(lo <= top < hi, 1) + bit_if(lo <= top + 1 < hi, 1) + bit_if(lo <= top + 2 < hi, 1)
        + bit_if(lo <= top + 3 < hi, 1)
}

/// The braille glyph with the given bits.
pub open spec fn glyph(bits: int) -> char {
    (0x2800 + bits) as char
}

fn bit(lit: bool, value: u32) -> (r: u32)
    ensures
        r == bit_if(lit, value as int),
{
    if lit {
        value
    } else {
        0
    }
}

fn left_bits(top: usize, lo: usize, hi: usize) -> (r: u32)
    requires
        top + 3 <= usize::MAX,
    ensures
        r == column_bits(0, top as int, lo as int, hi as int),
        r <= 0x47,
{
    bit(lo <= top && top < hi, 0x01) + bit(lo <= top + 1 && top + 1 < hi, 0x02) + bit(
        lo <= top + 2 && top + 2 < hi,
        0x04,
    ) + bit(lo <= top + 3 && top + 3 < hi, 0x40)
}

fn right_bits(top: usize, lo: usize, hi: usize) -> (r: u32)
    requires
        top + 3 <= usize::MAX,
    ensures
        r == column_bits(1, top as int, lo as int, hi as int),
        r <= 0xb8,
{
    bit(lo <= top && top < hi, 0x08) + bit(lo <= top + 1 && top + 1 < hi, 0x10) + bit(
        lo <= top + 2 && top + 2 < hi,
        0x20,
    ) + bit(lo <= top + 3 && top + 3 < hi, 0x80)
}

fn count_lit(top: usize, lo: usize, hi: usize) -> (r: u32)
    requires
        top + 3 <= usize::MAX,
    ensures
        r == column_count(top as int, lo as int, hi as int),
        r <= 4,
{
    bit(lo <= top && top < hi, 1) + bit(lo <= top + 1 && top + 1 < hi, 1) + bit(
        lo <= top + 2 && top + 2 < hi,
        1,
    ) + bit(lo <= top + 3 && top + 3 < hi, 1)
}

fn braille(bits: u32) -> (r: char)
    requires
        bits <= 0xff,
    ensures
        r == glyph(bits as int),
{
    match char::from_u32(0x2800 + bits) {
        Some(c) => c,
        None => ' ',
    }
}

pub open spec fn clamped(n: int, lo: int, hi: int) -> int {
    if n < lo {
        lo
    } else if n > hi {
        hi
    } else {
        n
    }
}

pub fn clamp_dots(n: i64, lo: usize, hi: usize) -> (r: usize)
    requires
        lo <= hi <= i64::MAX,
    ensures
        r == clamped(n as int, lo as int, hi as int),
{
    if n < lo as i64 {
        lo
    } else if n > hi as i64 {
        hi
    } else {
        n as usize
    }
}

/// How many dots of dot column `gc` are lit. The last heights are shown,
/// aligned to the right; a column without a height is empty. With `baseline`
/// every column with a height lights at least one dot.
pub open spec fn bar(
    heights: Seq<i64>,
    width: int,
    height: int,
    baseline: bool,
    gc: int,
) -> int {
    let at = heights.len() - 2 * width + gc;
    if at < 0 {
        0
    } else {
        clamped(
            heights[at] as int,
            if baseline {
                1
            } else {
                0
            },
            4 * height,
        )
    }
}

/// Where the bar of a column starts, in dot rows from the top: bars grow up
/// from the bottom, or down from the top with `flip`.
pub open spec fn bar_top(height: int, filled: int, flip: bool) -> int {
    if flip {
        0
    } else {
        4 * height - filled
    }
}

/// The bits of the cell in `row` and `col`.
pub open spec fn cell_bits(
    heights: Seq<i64>,
    width: int,
    height: int,
    baseline: bool,
    flip: bool,
    row: int,
    col: int,
) -> int {
    let left = bar(heights, width, height, baseline, 2 * col);
    let right = bar(heights, width, height, baseline, 2 * col + 1);
    let lt = bar_top(height, left, flip);
    let rt = bar_top(height, right, flip);
    column_bits(0, 4 * row, lt, lt + left) + column_bits(1, 4 * row, rt, rt + right)
}

/// Row `row` of the chart.
pub open spec fn chart_row(
    heights: Seq<i64>,
    width: nat,
    height: nat,
    baseline: bool,
    flip: bool,
    row: int,
) -> Seq<char> {
    Seq::new(
        width,
        |col: int|
            glyph(
                cell_bits(heights, width as int, height as int, baseline, flip, row, col),
            ),
    )
}

/// The rows of a chart: `height` of them, but none without a column.
pub open spec fn are_rows(
    heights: Seq<i64>,
    width: nat,
    height: nat,
    baseline: bool,
    flip: bool,
    rows: Seq<String>,
) -> bool {
    &&& rows.len() == if width == 0 {
        0
    } else {
        height
    }
    &&& forall|row: int|
        0 <= row < rows.len() ==> (#[trigger] rows[row])@ == chart_row(
            heights,
            width,
            height,
            baseline,
            flip,
            row,
        )
}

fn bar_dots(
    heights: &Vec<i64>,
    width: usize,
    height: usize,
    baseline: bool,
    gc: usize,
) -> (r: usize)
    requires
        gc < 2 * width <= usize::MAX,
        0 < height,
        4 * height <= i64::MAX,
        4 * height <= usize::MAX,
    ensures
        r == bar(heights@, width as int, height as int, baseline, gc as int),
        r <= 4 * height,
{
    let n = heights.len();
    let empty = 2 * width - gc;
    if n < empty {
        return 0;
    }
    clamp_dots(
        heights[n - empty],
        if baseline {
            1
        } else {
            0
        },
        4 * height,
    )
}

/// Render bars as `height` rows of `width` braille glyphs.
///
/// Each cell is a 2x4 dot matrix, so the effective resolution is `2*width`
/// columns by `4*height` dots. Heights are clipped to the chart; the most
/// recent ones are shown right-aligned.
///
/// With `baseline` (btop's `no_zero` behavior) every sampled column lights at
/// least its bottom dot, so the graph keeps a continuous floor instead of
/// leaving gaps where the value is zero.
///
/// With `flip` the bars grow downward from the top row instead of upward from
/// the bottom, for the lower half of a btop-style mirrored chart, so that its
/// floor sits on the shared centre line.
pub fn braille_rows(
    heights: &Vec<i64>,
    width: usize,
    height: usize,
    baseline: bool,
    flip: bool,
) -> (r: Vec<String>)
    requires
        2 * width <= usize::MAX,
        4 * height <= usize::MAX,
        4 * height <= i64::MAX,
    ensures
        are_rows(heights@, width as nat, height as nat, baseline, flip, r@),
{
    let mut rows: Vec<String> = Vec::new();
    if width == 0 || height == 0 {
        return rows;
    }
    for row in 0..height
        invariant
            0 < width,
            0 < height,
            2 * width <= usize::MAX,
            4 * height <= usize::MAX,
            4 * height <= i64::MAX,
            rows@.len() == row,
            forall|k: int|
                0 <= k < row ==> (#[trigger] rows@[k])@ == chart_row(
                    heights@,
                    width as nat,
                    height as nat,
                    baseline,
                    flip,
                    k,
                ),
    {
        let mut line = String::new();
        let ghost want = chart_row(
            heights@,
            width as nat,
            height as nat,
            baseline,
            flip,
            row as int,
        );
        for col in 0..width
            invariant
                row < height,
                2 * width <= usize::MAX,
                4 * height <= usize::MAX,
                4 * height <= i64::MAX,
                want == chart_row(
                    heights@,
                    width as nat,
                    height as nat,
                    baseline,
                    flip,
                    row as int,
                ),
                line@ == want.take(col as int),
        {
            let left = bar_dots(heights, width, height, baseline, 2 * col);
            let right = bar_dots(heights, width, height, baseline, 2 * col + 1);
            let lt = if flip {
                0
            } else {
                4 * height - left
            };
            let rt = if flip {
                0
            } else {
                4 * height - right
            };
            let bits = left_bits(4 * row, lt, lt + left) + right_bits(4 * row, rt, rt + right);
            line.push(braille(bits));
            assert(line@ =~= want.take(col + 1));
        }
        assert(want.take(width as int) =~= want);
        rows.push(line);
    }
    rows
}

/// The code points of the braille patterns.
pub open spec fn is_braille(c: char) -> bool {
    0x2800 <= c as int <= 0x28ff
}

/// A chart is made of braille glyphs, `width` in each row.
pub proof fn law_charts_are_braille(
    heights: Seq<i64>,
    width: nat,
    height: nat,
    baseline: bool,
    flip: bool,
    row: int,
    col: int,
)
    requires
        0 <= col < width,
    ensures
        chart_row(heights, width, height, baseline, flip, row).len() == width,
        is_braille(chart_row(heights, width, height, baseline, flip, row)[col]),
{
}

/// With a baseline every column that shows a value lights a dot, and a taller
/// value lights no fewer.
pub proof fn law_bars_follow_values(
    heights: Seq<i64>,
    width: int,
    height: int,
    baseline: bool,
    gc: int,
    hc: int,
)
    requires
        0 < height,
        0 <= gc < 2 * width,
        0 <= hc < 2 * width,
        0 <= heights.len() - 2 * width + gc,
        0 <= heights.len() - 2 * width + hc,
        heights[heights.len() - 2 * width + gc] <= heights[heights.len() - 2 * width + hc],
    ensures
        baseline ==> bar(heights, width, height, baseline, gc) >= 1,
        bar(heights, width, height, baseline, gc) <= bar(heights, width, height, baseline, hc),
        0 <= bar(heights, width, height, baseline, gc) <= 4 * height,
{
}

/// Only the last heights count: as many as the chart has dot columns.
pub proof fn law_only_last_heights_count(
    heights: Seq<i64>,
    width: nat,
    height: nat,
    baseline: bool,
    flip: bool,
    rows: Seq<String>,
)
    ensures
        are_rows(heights, width, height, baseline, flip, rows) == are_rows(
            state::last_of(heights, 2 * width),
            width,
            height,
            baseline,
            flip,
            rows,
        ),
{
    let last = state::last_of(heights, 2 * width);
    assert forall|row: int| #[trigger]
        chart_row(heights, width, height, baseline, flip, row) == chart_row(
            last,
            width,
            height,
            baseline,
            flip,
            row,
        ) by {
        assert forall|gc: int| 0 <= gc < 2 * width implies #[trigger] bar(
            heights,
            width as int,
            height as int,
            baseline,
            gc,
        ) == bar(last, width as int, height as int, baseline, gc) by {}
        assert forall|col: int| 0 <= col < width implies cell_bits(
            heights,
            width as int,
            height as int,
            baseline,
            flip,
            row,
            col,
        ) == cell_bits(last, width as int, height as int, baseline, flip, row, col) by {
            assert(bar(heights, width as int, height as int, baseline, 2 * col) == bar(
                last,
                width as int,
                height as int,
                baseline,
                2 * col,
            ));
            assert(bar(heights, width as int, height as int, baseline, 2 * col + 1) == bar(
                last,
                width as int,
                height as int,
                baseline,
                2 * col + 1,
            ));
        }
        assert(chart_row(heights, width, height, baseline, flip, row) =~= chart_row(
            last,
            width,
            height,
            baseline,
            flip,
            row,
        ));
    }
}

/// The glyph shows the dot in the given column and row of its cell.
pub open spec fn shows(c: char, column: int, row: int) -> bool {
    ((c as int - 0x2800) / dot_bit(column, row)) % 2 == 1
}

/// The dot in column `gc` and dot row `r`, from the top, is lit.
pub open spec fn is_lit(
    heights: Seq<i64>,
    width: int,
    height: int,
    baseline: bool,
    flip: bool,
    r: int,
    gc: int,
) -> bool {
    let filled = bar(heights, width, height, baseline, gc);
    let top = bar_top(height, filled, flip);
    top <= r < top + filled
}

proof fn lemma_bits(
    a0: bool,
    a1: bool,
    a2: bool,
    a3: bool,
    b0: bool,
    b1: bool,
    b2: bool,
    b3: bool,
    bits: int,
)
    requires
        bits == (bit_if(a0, 0x01) + bit_if(a1, 0x02) + bit_if(a2, 0x04) + bit_if(a3, 0x40)) + (
        bit_if(b0, 0x08) + bit_if(b1, 0x10) + bit_if(b2, 0x20) + bit_if(b3, 0x80)),
    ensures
        0 <= bits <= 0xff,
        ((bits / 0x01) % 2 == 1) == a0,
        ((bits / 0x02) % 2 == 1) == a1,
        ((bits / 0x04) % 2 == 1) == a2,
        ((bits / 0x08) % 2 == 1) == b0,
        ((bits / 0x10) % 2 == 1) == b1,
        ((bits / 0x20) % 2 == 1) == b2,
        ((bits / 0x40) % 2 == 1) == a3,
        ((bits / 0x80) % 2 == 1) == b3,
{
}

proof fn lemma_shown(
    heights: Seq<i64>,
    width: nat,
    height: nat,
    baseline: bool,
    flip: bool,
    row: int,
    col: int,
    column: int,
    k: int,
)
    requires
        0 <= col < width,
        0 <= column < 2,
        0 <= k < 4,
    ensures
        shows(chart_row(heights, width, height, baseline, flip, row)[col], column, k) == is_lit(
            heights,
            width as int,
            height as int,
            baseline,
            flip,
            4 * row + k,
            2 * col + column,
        ),
{
    let w = width as int;
    let h = height as int;
    let left = bar(heights, w, h, baseline, 2 * col);
    let right = bar(heights, w, h, baseline, 2 * col + 1);
    let lt = bar_top(h, left, flip);
    let rt = bar_top(h, right, flip);
    let top = 4 * row;
    lemma_bits(
        lt <= top < lt + left,
        lt <= top + 1 < lt + left,
        lt <= top + 2 < lt + left,
        lt <= top + 3 < lt + left,
        rt <= top < rt + right,
        rt <= top + 1 < rt + right,
        rt <= top + 2 < rt + right,
        rt <= top + 3 < rt + right,
        cell_bits(heights, w, h, baseline, flip, row, col),
    );
}

/// A flipped chart is the mirror image of the other: what one shows in a dot
/// row, counted from the top, the other shows in that row counted from the
/// bottom.
pub proof fn law_flip_mirrors(
    heights: Seq<i64>,
    width: nat,
    height: nat,
    baseline: bool,
    flip: bool,
    row: int,
    col: int,
    column: int,
    k: int,
)
    requires
        0 <= col < width,
        0 <= row < height,
        0 <= column < 2,
        0 <= k < 4,
    ensures
        shows(chart_row(heights, width, height, baseline, flip, row)[col], column, k) == shows(
            chart_row(heights, width, height, baseline, !flip, height - 1 - row)[col],
            column,
            3 - k,
        ),
{
    lemma_shown(heights, width, height, baseline, flip, row, col, column, k);
    lemma_shown(heights, width, height, baseline, !flip, height - 1 - row, col, column, 3 - k);
}

/// What dot column `gc` of a stacked chart shows of a series of length `n`:
/// shorter series are aligned to the right.
pub open spec fn stacked_index(n: int, width: int, gc: int) -> Option<int> {
    let at = if n < 2 * width {
        gc - (2 * width - n)
    } else {
        gc
    };
    if 0 <= at < n {
        Some(at)
    } else {
        None
    }
}

pub open spec fn stacked_value<F>(series: Seq<F>, width: int, gc: int) -> Option<F> {
    match stacked_index(series.len() as int, width, gc) {
        Some(at) => Some(series[at]),
        None => None,
    }
}

/// The values that each dot column of a stacked chart shows.
pub fn stacked_columns<F: Copy>(near: &Vec<F>, far: &Vec<F>, width: usize) -> (r: Vec<
    (Option<F>, Option<F>),
>)
    requires
        2 * width <= usize::MAX,
    ensures
        r@.len() == 2 * width,
        forall|gc: int|
            0 <= gc < 2 * width ==> #[trigger] r@[gc] == (
                stacked_value(near@, width as int, gc),
                stacked_value(far@, width as int, gc),
            ),
{
    let n = 2 * width;
    let mut r: Vec<(Option<F>, Option<F>)> = Vec::new();
    for gc in 0..n
        invariant
            n == 2 * width,
            r@.len() == gc,
            forall|k: int|
                0 <= k < gc ==> #[trigger] r@[k] == (
                    stacked_value(near@, width as int, k),
                    stacked_value(far@, width as int, k),
                ),
    {
        r.push((value_in(near, n, gc), value_in(far, n, gc)));
    }
    r
}

fn value_in<F: Copy>(series: &Vec<F>, columns: usize, gc: usize) -> (r: Option<F>)
    requires
        gc < columns,
        columns % 2 == 0,
    ensures
        r == stacked_value(series@, (columns / 2) as int, gc as int),
{
    let pad = if series.len() < columns {
        columns - series.len()
    } else {
        0
    };
    if gc < pad || gc - pad >= series.len() {
        None
    } else {
        Some(series[gc - pad])
    }
}

/// The dots of one column of a stacked chart: those of the near series, and
/// those of the far series beyond them. A column that shows a value lights at
/// least one near dot; together they do not exceed the chart.
pub open spec fn stack(dots: Option<(i64, i64)>, height: int) -> (int, int) {
    match dots {
        Some((n, f)) => {
            let near = clamped(n as int, 1, 4 * height);
            (near, clamped(f as int, 0, 4 * height - near))
        },
        None => (0, 0),
    }
}

/// The cell in `row` and `col` of a stacked chart: its glyph, and the band
/// that owns more of its dots (0 near, 1 far; -1 for an empty cell).
pub open spec fn stacked_cell(dots: Seq<Option<(i64, i64)>>, height: int, row: int, col: int) -> (
    char,
    i8,
) {
    let (ln, lf) = stack(dots[2 * col], height);
    let (rn, rf) = stack(dots[2 * col + 1], height);
    let top = 4 * row;
    let near = column_count(top, 0, ln) + column_count(top, 0, rn);
    let far = column_count(top, ln, ln + lf) + column_count(top, rn, rn + rf);
    if near == 0 && far == 0 {
        (' ', -1i8)
    } else {
        (
            glyph(column_bits(0, top, 0, ln + lf) + column_bits(1, top, 0, rn + rf)),
            if near >= far {
                0i8
            } else {
                1i8
            },
        )
    }
}

/// A cell of a stacked chart is empty, or it is a braille glyph that belongs to
/// one of the two bands.
pub proof fn law_stacked_cells(dots: Seq<Option<(i64, i64)>>, height: int, row: int, col: int)
    ensures
        stacked_cell(dots, height, row, col) == (' ', -1i8) || is_braille(
            stacked_cell(dots, height, row, col).0,
        ) && (stacked_cell(dots, height, row, col).1 == 0i8 || stacked_cell(
            dots,
            height,
            row,
            col,
        ).1 == 1i8),
{
}

fn stack_dots(dots: &Vec<Option<(i64, i64)>>, height: usize, gc: usize) -> (r: (usize, usize))
    requires
        gc < dots@.len(),
        0 < height,
        4 * height <= usize::MAX,
        4 * height <= i64::MAX,
    ensures
        (r.0 as int, r.1 as int) == stack(dots@[gc as int], height as int),
        r.0 + r.1 <= 4 * height,
{
    match dots[gc] {
        Some((n, f)) => {
            let near = clamp_dots(n, 1, 4 * height);
            (near, clamp_dots(f, 0, 4 * height - near))
        },
        None => (0, 0),
    }
}

/// The grid of a stacked chart.
pub open spec fn are_stacked(
    dots: Seq<Option<(i64, i64)>>,
    width: nat,
    height: nat,
    grid: Seq<Vec<(char, i8)>>,
) -> bool {
    &&& grid.len() == height
    &&& forall|row: int|
        0 <= row < height ==> (#[trigger] grid[row])@ == Seq::new(
            width,
            |col: int| stacked_cell(dots, height as int, row, col),
        )
}

/// Two stacked series growing *downward* from the top row.
///
/// Used for the lower half of a btop-style mirrored chart: the near series
/// grows from the centre line outward (its floor keeps the axis continuous),
/// and the far one is stacked beyond it. `dots` gives the dots of both for
/// each of the `2*width` columns. Returns a `height x width` grid of
/// `(glyph, band)` where `band` is 0 for near, 1 for far, or -1 for an empty
/// cell.
///
/// Because a braille cell packs 2x4 dots but can carry only one colour, a
/// cell's band is whichever series owns more of its lit dots (ties -> near).
pub fn stacked_rows(
    dots: &Vec<Option<(i64, i64)>>,
    width: usize,
    height: usize,
) -> (grid: Vec<Vec<(char, i8)>>)
    requires
        dots@.len() == 2 * width,
        4 * height <= usize::MAX,
        4 * height <= i64::MAX,
    ensures
        are_stacked(dots@, width as nat, height as nat, grid@),
{
    let columns = dots.len();
    let mut grid: Vec<Vec<(char, i8)>> = Vec::new();
    for row in 0..height
        invariant
            dots@.len() == 2 * width,
            columns == 2 * width,
            4 * height <= usize::MAX,
            4 * height <= i64::MAX,
            grid@.len() == row,
            forall|k: int|
                0 <= k < row ==> (#[trigger] grid@[k])@ == Seq::new(
                    width as nat,
                    |col: int| stacked_cell(dots@, height as int, k, col),
                ),
    {
        let mut line: Vec<(char, i8)> = Vec::new();
        for col in 0..width
            invariant
                row < height,
                dots@.len() == 2 * width,
                columns == 2 * width,
                4 * height <= usize::MAX,
                4 * height <= i64::MAX,
                line@.len() == col,
                forall|k: int|
                    0 <= k < col ==> #[trigger] line@[k] == stacked_cell(
                        dots@,
                        height as int,
                        row as int,
                        k,
                    ),
        {
            let (ln, lf) = stack_dots(dots, height, 2 * col);
            let (rn, rf) = stack_dots(dots, height, 2 * col + 1);
            let top = 4 * row;
            let near = count_lit(top, 0, ln) + count_lit(top, 0, rn);
            let far = count_lit(top, ln, ln + lf) + count_lit(top, rn, rn + rf);
            let cell = if near == 0 && far == 0 {
                (' ', -1i8)
            } else {
                let bits = left_bits(top, 0, ln + lf) + right_bits(top, 0, rn + rf);
                (
                    braille(bits),
                    if near >= far {
                        0i8
                    } else {
                        1i8
                    },
                )
            };
            line.push(cell);
        }
        proof {
            assert(line@ =~= Seq::new(
                width as nat,
                |col: int| stacked_cell(dots@, height as int, row as int, col),
            ));
        }
        grid.push(line);
    }
    grid
}

/// A horizontal bar of `width` characters, the first `filled` of them filled.
pub open spec fn bar_line(filled: nat, width: nat) -> Seq<char> {
    text::repeated('█', filled) + text::repeated('░', (width - filled) as nat)
}

/// A horizontal bar of `width` characters, the first `filled` of them filled.
pub fn filled_bar(filled: usize, width: usize) -> (r: String)
    requires
        filled <= width,
    ensures
        r@ == bar_line(filled as nat, width as nat),
{
    let mut r = repeat('█', filled);
    let rest = repeat('░', width - filled);
    r.append(rest.as_str());
    r
}

/// The block element of a level from 0 (empty) to 8 (full).
pub open spec fn block(level: int) -> char {
    if level <= 0 {
        ' '
    } else if level == 1 {
        '▁'
    } else if level == 2 {
        '▂'
    } else if level == 3 {
        '▃'
    } else if level == 4 {
        '▄'
    } else if level == 5 {
        '▅'
    } else if level == 6 {
        '▆'
    } else if level == 7 {
        '▇'
    } else {
        '█'
    }
}

fn block_char(level: usize) -> (r: char)
    ensures
        r == block(level as int),
{
    if level == 0 {
        ' '
    } else if level == 1 {
        '▁'
    } else if level == 2 {
        '▂'
    } else if level == 3 {
        '▃'
    } else if level == 4 {
        '▄'
    } else if level == 5 {
        '▅'
    } else if level == 6 {
        '▆'
    } else if level == 7 {
        '▇'
    } else {
        '█'
    }
}

/// The block elements of the levels.
pub open spec fn blocks(levels: Seq<usize>) -> Seq<char> {
    Seq::new(levels.len(), |i: int| block(levels[i] as int))
}

/// Render a small inline sparkline using block elements (8 levels).
pub fn block_line(levels: &Vec<usize>) -> (r: String)
    ensures
        r@ == blocks(levels@),
{
    let mut r = String::new();
    let ghost want = blocks(levels@);
    for i in 0..levels.len()
        invariant
            want == blocks(levels@),
            r@ == want.take(i as int),
    {
        r.push(block_char(levels[i]));
        assert(r@ =~= want.take(i + 1));
    }
    assert(want.take(levels@.len() as int) =~= want);
    r
}

/// A duration in its one or two largest units.
pub open spec fn duration_text(seconds: int) -> Seq<char> {
    let days = seconds / 86400;
    let hours = (seconds % 86400) / 3600;
    let mins = (seconds % 3600) / 60;
    let secs = seconds % 60;
    if days > 0 {
        text::decimal(days as nat) + "d "@ + text::decimal(hours as nat) + "h"@
    } else if hours > 0 {
        text::decimal(hours as nat) + "h "@ + text::decimal(mins as nat) + "m"@
    } else if mins > 0 {
        text::decimal(mins as nat) + "m"@
    } else {
        text::decimal(secs as nat) + "s"@
    }
}

/// A duration; a dash where there is none, or a negative one.
pub open spec fn duration(seconds: Option<i64>) -> Seq<char> {
    match seconds {
        Some(s) => if s < 0 {
            "—"@
        } else {
            duration_text(s as int)
        },
        None => "—"@,
    }
}

/// Compact uptime: '45s', '12m', '3h 20m', '2d 4h'; a dash where there is no
/// duration, or a negative one.
pub fn duration_line(seconds: Option<i64>) -> (r: String)
    ensures
        r@ == duration(seconds),
{
    let s: i64 = match seconds {
        Some(s) => s,
        None => -1,
    };
    if s < 0 {
        return "—".to_owned();
    }
    let s = s as u64;
    let days = s / 86400;
    let rem = s % 86400;
    let hours = rem / 3600;
    let mins = (rem % 3600) / 60;
    let secs = rem % 60;
    assert(rem % 3600 == s % 3600 && rem % 60 == s % 60) by (nonlinear_arith)
        requires
            rem == s % 86400,
    ;
    if days > 0 {
        decimal_text(days).concat("d ").concat(decimal_text(hours).as_str()).concat("h")
    } else if hours > 0 {
        decimal_text(hours).concat("h ").concat(decimal_text(mins).as_str()).concat("m")
    } else if mins > 0 {
        decimal_text(mins).concat("m")
    } else {
        decimal_text(secs).concat("s")
    }
}

/// A dot of a chart is lit just where its bar reaches: counted from the bottom,
/// or from the top in a flipped chart, there are as many dots as the height of
/// its dot column says, the last height on the right, and none without a
/// height.
pub proof fn law_dots_show_heights(
    heights: Seq<i64>,
    width: nat,
    height: nat,
    baseline: bool,
    flip: bool,
    row: int,
    col: int,
    column: int,
    k: int,
)
    requires
        0 <= col < width,
        0 <= row < height,
        0 <= column < 2,
        0 <= k < 4,
    ensures
        ({
            let c = chart_row(heights, width, height, baseline, flip, row)[col];
            let back = 2 * (width - col) - column;
            let from_start = if flip {
                4 * row + k
            } else {
                4 * (height - row) - 1 - k
            };
            shows(c, column, k) <==> back <= heights.len() && (from_start < heights[heights.len()
                - back] || from_start == 0 && baseline)
        }),
{
    lemma_shown(heights, width, height, baseline, flip, row, col, column, k);
}

/// The dots of a stacked chart grow down from the top: in each dot column as
/// many are lit as its near and far dots together, and a cell in which none is
/// lit is empty. The near dots come first; a cell belongs to those of which it
/// has more.
pub proof fn law_stacked_dots(
    dots: Seq<Option<(i64, i64)>>,
    height: int,
    row: int,
    col: int,
    column: int,
    k: int,
)
    requires
        0 <= row < height,
        0 <= column < 2,
        0 <= k < 4,
    ensures
        ({
            let (c, band) = stacked_cell(dots, height, row, col);
            let (near, far) = stack(dots[2 * col + column], height);
            let r = 4 * row + k;
            &&& c == ' ' ==> r >= near + far
            &&& c != ' ' ==> (shows(c, column, k) <==> r < near + far)
            &&& band == -1 <==> c == ' '
        }),
        ({
            let (a, b) = (stack(dots[2 * col], height), stack(dots[2 * col + 1], height));
            let (top, end) = (4 * row, 4 * row + 4);
            let near = covered(top, end, 0, a.0) + covered(top, end, 0, b.0);
            let far = covered(top, end, a.0, a.0 + a.1) + covered(top, end, b.0, b.0 + b.1);
            let band = stacked_cell(dots, height, row, col).1;
            &&& near + far > 0 ==> band == if near >= far {
                0i8
            } else {
                1i8
            }
            &&& near + far == 0 ==> band == -1
        }),
{
    let (ln, lf) = stack(dots[2 * col], height);
    let (rn, rf) = stack(dots[2 * col + 1], height);
    let top = 4 * row;
    let (a, b) = (ln + lf, rn + rf);
    let bits = column_bits(0, top, 0, a) + column_bits(1, top, 0, b);
    lemma_bits(
        0 <= top < a,
        0 <= top + 1 < a,
        0 <= top + 2 < a,
        0 <= top + 3 < a,
        0 <= top < b,
        0 <= top + 1 < b,
        0 <= top + 2 < b,
        0 <= top + 3 < b,
        bits,
    );
    assert(glyph(bits) as int == 0x2800 + bits);
}

/// How many of the rows from `top` up to `end` lie from `lo` up to `hi`.
pub open spec fn covered(top: int, end: int, lo: int, hi: int) -> int {
    let from = if lo > top {
        lo
    } else {
        top
    };
    let to = if hi < end {
        hi
    } else {
        end
    };
    if to > from {
        to - from
    } else {
        0
    }
}

} // verus!
