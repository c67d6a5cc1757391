//! What can be read off the screen: which text stands where in a panel, and
//! which number of the history it tells.

use vstd::prelude::*;

use crate::exact;
use crate::series;
use crate::state;
use crate::state::{History, Snapshot};
use crate::text;
use crate::ui::cells;
use crate::ui::figures;
use crate::ui::frame::PanelTexts;
use crate::ui::layout::Area;
use crate::ui::painter;
use crate::ui::painter::{Canvas, OpView, Scale};
use crate::ui::panels;
use crate::ui::panels::{FeedTexts, LoadavgTexts, LOADAVG_COUNT};
use crate::ui::theme;
use crate::ui::theme::{Pair, Style};
use crate::ui::widgets;
use crate::ui::widgets::Figures;

verus! {

/// The text was drawn in line `y`, from column `x` on.
pub open spec fn reads_at(ops: Seq<OpView>, y: int, x: int, s: Seq<char>) -> bool {
    exists|k: int|
        0 <= k < ops.len() && (#[trigger] ops[k] matches OpView::Text { y: line, x: from, text, .. }
            && line == y && from == x && text == s)
}

/// The text was drawn in line `y`, and ends before column `edge`.
pub open spec fn ends_at(ops: Seq<OpView>, y: int, edge: int, s: Seq<char>) -> bool {
    reads_at(ops, y, edge - s.len(), s)
}

/// The area lies on the terminal.
pub open spec fn on_canvas(c: Canvas, a: Area) -> bool {
    &&& 0 <= a.y && a.y + a.h <= c.height
    &&& 0 <= a.x && a.x + a.w <= c.width
}

pub proof fn lemma_text_added(
    c: Canvas,
    ops: Seq<OpView>,
    y: int,
    x: int,
    s: Seq<char>,
    style: Style,
)
    ensures
        forall|y2: int, x2: int, s2: Seq<char>|
            reads_at(ops, y2, x2, s2) ==> #[trigger] reads_at(
                painter::with_text(c, ops, y, x, s, style),
                y2,
                x2,
                s2,
            ),
        0 <= y < c.height && 0 <= x < c.width ==> reads_at(
            painter::with_text(c, ops, y, x, s, style),
            y,
            x,
            text::clipped(s, (c.width - x) as nat),
        ),
{
    let after = painter::with_text(c, ops, y, x, s, style);
    assert forall|y2: int, x2: int, s2: Seq<char>| reads_at(
        ops,
        y2,
        x2,
        s2,
    ) implies #[trigger] reads_at(after, y2, x2, s2) by {
        let k = choose|k: int|
            0 <= k < ops.len() && (#[trigger] ops[k] matches OpView::Text {
                y: line,
                x: from,
                text,
                ..
            } && line == y2 && from == x2 && text == s2);
        assert(after[k] == ops[k]);
    }
    if 0 <= y < c.height && 0 <= x < c.width {
        let text = text::clipped(s, (c.width - x) as nat);
        assert(after[ops.len() as int] == OpView::Text { y, x, text, style });
    }
}

/// The heads of the number columns of the windowed-average panel.
pub open spec fn column_heads() -> Seq<Seq<char>> {
    seq!["now"@, "1m"@, "5m"@, "15m"@]
}

/// Four columns end before the edges; in line `y` stand the texts, as much of
/// each as there is room for.
pub open spec fn columns_read(
    ops: Seq<OpView>,
    y: int,
    edges: Seq<int>,
    width: nat,
    s: Seq<Seq<char>>,
) -> bool {
    &&& ends_at(ops, y, edges[0], text::clipped(s[0], width))
    &&& ends_at(ops, y, edges[1], text::clipped(s[1], width))
    &&& ends_at(ops, y, edges[2], text::clipped(s[2], width))
    &&& ends_at(ops, y, edges[3], text::clipped(s[3], width))
}

/// Columns of the given width, side by side up to `right`.
pub open spec fn column_edges(right: int, width: int) -> Seq<int> {
    seq![right - 3 * width, right - 2 * width, right - width, right]
}

proof fn lemma_cells_read(
    c: Canvas,
    ops: Seq<OpView>,
    a: Area,
    y: int,
    s: Seq<Seq<char>>,
    values: bool,
)
    requires
        on_canvas(c, a),
        a.x + a.w < c.width,
        a.y <= y < a.y + a.h,
        s.len() == 4,
        a.w - panels::number_width(a.w) * 4 >= 0,
    ensures
        columns_read(
            panels::with_cells(c, ops, a, y, s, values),
            y,
            column_edges(a.x + a.w, panels::number_width(a.w)),
            panels::number_width(a.w) as nat,
            s,
        ),
        forall|y2: int, x2: int, s2: Seq<char>|
            reads_at(ops, y2, x2, s2) ==> #[trigger] reads_at(
                panels::with_cells(c, ops, a, y, s, values),
                y2,
                x2,
                s2,
            ),
{
    let first = if values {
        Pair::Title
    } else {
        Pair::Dim
    };
    let dim = Pair::Dim;
    let one = panels::with_cell(c, ops, a, y, 0, s[0], first, values);
    let two = panels::with_cell(c, one, a, y, 1, s[1], dim, false);
    let three = panels::with_cell(c, two, a, y, 2, s[2], dim, false);
    lemma_cell_read(c, ops, a, y, 0, s[0], first, values);
    lemma_cell_read(c, one, a, y, 1, s[1], dim, false);
    lemma_cell_read(c, two, a, y, 2, s[2], dim, false);
    lemma_cell_read(c, three, a, y, 3, s[3], dim, false);
}

proof fn lemma_cell_read(
    c: Canvas,
    ops: Seq<OpView>,
    a: Area,
    y: int,
    col: int,
    s: Seq<char>,
    pair: Pair,
    bold: bool,
)
    requires
        on_canvas(c, a),
        a.x + a.w < c.width,
        a.y <= y < a.y + a.h,
        0 <= col < 4,
        a.w - panels::number_width(a.w) * 4 >= 0,
    ensures
        ends_at(
            panels::with_cell(c, ops, a, y, col, s, pair, bold),
            y,
            column_edges(a.x + a.w, panels::number_width(a.w))[col],
            text::clipped(s, panels::number_width(a.w) as nat),
        ),
        forall|y2: int, x2: int, s2: Seq<char>|
            reads_at(ops, y2, x2, s2) ==> #[trigger] reads_at(
                panels::with_cell(c, ops, a, y, col, s, pair, bold),
                y2,
                x2,
                s2,
            ),
{
    let num_w = panels::number_width(a.w);
    let shown = text::clipped(s, num_w as nat);
    assert(col * num_w == if col == 0 {
        0
    } else if col == 1 {
        num_w
    } else if col == 2 {
        2 * num_w
    } else {
        3 * num_w
    }) by (nonlinear_arith)
        requires
            0 <= col < 4,
    ;
    lemma_text_added(
        c,
        ops,
        y,
        a.x + (a.w - num_w * 4) + col * num_w + num_w - shown.len(),
        shown,
        theme::styled(pair, bold, false),
    );
}

/// The label of a series in the windowed-average panel.
pub open spec fn row_label(name: Seq<char>) -> Seq<char> {
    if name == "gen_tok_s"@ {
        "gen tok/s"@
    } else if name == "prompt_tok_s"@ {
        "prompt tok/s"@
    } else if name == "kv_cache"@ {
        "kv cache"@
    } else if name == "queue_time"@ {
        "queue"@
    } else {
        name
    }
}

/// The series that the windowed-average panel shows.
pub open spec fn has_row(name: Seq<char>) -> bool {
    ||| name == "gen_tok_s"@
    ||| name == "prompt_tok_s"@
    ||| name == "running"@
    ||| name == "waiting"@
    ||| name == "kv_cache"@
    ||| is_latency(name)
}

/// The series that are times of requests.
pub open spec fn is_latency(name: Seq<char>) -> bool {
    ||| name == "ttft"@
    ||| name == "tpot"@
    ||| name == "e2e"@
    ||| name == "queue_time"@
}

/// Just the first nine series have a row, each the one at its place; the last
/// four of them are latencies.
proof fn lemma_rows(name: Seq<char>, i: int)
    requires
        state::names_series(name, i),
        has_row(name),
    ensures
        0 <= i < LOADAVG_COUNT,
        panels::loadavg_label(i) == row_label(name),
        is_latency(name) <==> i >= 5,
{
    series::law_series_are_found(name, i);
    series::law_names_are_distinct();
    assert(state::series_name(i) == name);
    assert(state::series_name(0) == "gen_tok_s"@);
    assert(state::series_name(1) == "prompt_tok_s"@);
    assert(state::series_name(2) == "running"@);
    assert(state::series_name(3) == "waiting"@);
    assert(state::series_name(4) == "kv_cache"@);
    assert(state::series_name(5) == "ttft"@);
    assert(state::series_name(6) == "tpot"@);
    assert(state::series_name(7) == "e2e"@);
    assert(state::series_name(8) == "queue_time"@);
}

/// The average of a series over one, five or fifteen minutes.
pub open spec fn over<F>(averages: (F, F, F), minutes: int) -> F {
    if minutes == 1 {
        averages.0
    } else if minutes == 5 {
        averages.1
    } else {
        averages.2
    }
}

/// `s` tells the value of a series: times as latencies, all else as a compact
/// number.
pub open spec fn tells<T: Figures>(
    t: T,
    zero: T::F,
    name: Seq<char>,
    x: T::F,
    s: Seq<char>,
) -> bool {
    if is_latency(name) {
        widgets::is_latency(t, zero, x, s)
    } else {
        widgets::is_big_number(t, x, Seq::empty(), s)
    }
}

/// With number columns of the given width, line `i` under the heads of the
/// windowed-average panel has the texts of a series, each under its head.
pub open spec fn row_reads<T: Figures>(
    t: T,
    h: History<T::F>,
    ops: Seq<OpView>,
    a: Area,
    name: Seq<char>,
    i: int,
    width: int,
    s: Seq<Seq<char>>,
) -> bool {
    let edges = column_edges(a.x + a.w - 1, width);
    let y = a.y + 2 + i;
    let label = text::clipped(row_label(name), (a.w - 2 - 4 * width) as nat);
    &&& 5 <= width <= 9 && s.len() == 4
    &&& columns_read(ops, a.y + 1, edges, width as nat, column_heads())
    &&& columns_read(ops, y, edges, width as nat, s)
    &&& reads_at(ops, y, a.x + 1, label)
    &&& tells(t, h.nothing(), name, h.latest()[i], s[0])
    &&& tells(t, h.nothing(), name, over(h.averages()[i], 1), s[1])
    &&& tells(t, h.nothing(), name, over(h.averages()[i], 5), s[2])
    &&& tells(t, h.nothing(), name, over(h.averages()[i], 15), s[3])
}

/// In the windowed-average panel, the line of a series says its label, and in
/// the column headed "now" its latest value, in the columns headed "1m", "5m"
/// and "15m" its averages over one, five and fifteen minutes.
pub proof fn law_columns_show_their_window<T: Figures>(
    t: T,
    h: History<T::F>,
    snap: Snapshot<T::F>,
    now: T::F,
    x: PanelTexts,
    c: Canvas,
    ops: Seq<OpView>,
    a: Area,
    num: int,
    name: Seq<char>,
    i: int,
)
    requires
        figures::are_panel_texts(t, h, snap, now, x),
        on_canvas(c, a),
        a.w >= 28,
        state::names_series(name, i),
        has_row(name),
        a.h >= i + 4,
    ensures
        exists|width: int, s: Seq<Seq<char>>| #[trigger]
            row_reads(t, h, panels::with_loadavg(c, ops, a, x.loadavg, num), a, name, i, width, s),
{
    lemma_rows(name, i);
    let inner = painter::inner_area(a);
    let width = panels::number_width(inner.w);
    let row = x.loadavg.rows@[i];
    assert(figures::are_row_texts(t, h, i, row));
    let s = panels::cell_texts(row);
    let after = panels::with_loadavg(c, ops, a, x.loadavg, num);
    let edges = column_edges(a.x + a.w - 1, width);
    let boxed = painter::with_box(
        c,
        ops,
        a,
        "1·5·15"@,
        num,
        Pair::Title,
        "windowed avg"@,
        Pair::BoxCache,
    );
    let named = painter::with_text(
        c,
        boxed,
        inner.y,
        inner.x,
        text::clipped("metric"@, (inner.w - width * 4) as nat),
        theme::styled(Pair::Dim, false, true),
    );
    let headed = panels::with_cells(c, named, inner, inner.y, column_heads(), false);
    lemma_cells_read(c, named, inner, inner.y, column_heads(), false);
    let n = panels::at_most(LOADAVG_COUNT as int, inner.h - 1);
    lemma_averages_read(c, headed, inner, x.loadavg, n);
    assert(columns_read(after, a.y + 1, edges, width as nat, column_heads()));
    assert(columns_read(after, a.y + 2 + i, edges, width as nat, s));
    assert(row_reads(t, h, after, a, name, i, width, s));
}

/// The numbers under "1m", "5m" and "15m" of the line of a series, with exact
/// arithmetic, once the history was updated at a later time: what is left of
/// the distance of each average to the latest value is what its window leaves,
/// and where the series was steady and rose, they do not ascend from left to
/// right.
pub proof fn law_columns_follow_their_window<T: Figures>(
    t: T,
    v: spec_fn(T::F) -> real,
    e: spec_fn(real) -> real,
    start: T::F,
    at: T::F,
    before: Seq<(T::F, T::F, T::F)>,
    h: History<T::F>,
    snap: Snapshot<T::F>,
    now: T::F,
    x: PanelTexts,
    c: Canvas,
    ops: Seq<OpView>,
    a: Area,
    num: int,
    name: Seq<char>,
    i: int,
)
    requires
        exact::is_exact(t, v),
        exact::falls(t, v, e),
        v(h.nothing()) == 0real,
        v(at) > v(start),
        state::windows_moved(
            t,
            h.nothing(),
            Some(start),
            at,
            h.latest(),
            before,
            h.averages(),
        ),
        figures::are_panel_texts(t, h, snap, now, x),
        on_canvas(c, a),
        a.w >= 28,
        state::names_series(name, i),
        has_row(name),
        a.h >= i + 4,
    ensures
        exists|width: int, s: Seq<Seq<char>>, one: T::F, five: T::F, fifteen: T::F| #[trigger]
            row_reads(t, h, panels::with_loadavg(c, ops, a, x.loadavg, num), a, name, i, width, s)
                && #[trigger] tells(t, h.nothing(), name, one, s[1]) && #[trigger] tells(
                t,
                h.nothing(),
                name,
                five,
                s[2],
            ) && #[trigger] tells(t, h.nothing(), name, fifteen, s[3]) && {
                let last = v(h.latest()[i]);
                let dt = v(at) - v(start);
                let (a, b, c) = (v(before[i].0), v(before[i].1), v(before[i].2));
                &&& v(one) - last == series::left_over(e, 1real, dt, a - last)
                &&& v(five) - last == series::left_over(e, 5real, dt, b - last)
                &&& v(fifteen) - last == series::left_over(e, 15real, dt, c - last)
                &&& a == b && b == c && last >= a ==> v(one) >= v(five) && v(five) >= v(fifteen)
            },
{
    law_columns_show_their_window(t, h, snap, now, x, c, ops, a, num, name, i);
    let after = panels::with_loadavg(c, ops, a, x.loadavg, num);
    let (width, s) = choose|width: int, s: Seq<Seq<char>>| #[trigger]
        row_reads(t, h, after, a, name, i, width, s);
    lemma_rows(name, i);
    series::law_windows_are_minutes(
        t,
        v,
        e,
        h.nothing(),
        Some(start),
        at,
        h.latest(),
        before,
        h.averages(),
        i,
    );
    let (p, q, r) = before[i];
    if v(p) == v(q) && v(q) == v(r) {
        series::law_shorter_windows_follow_sooner(
            t,
            v,
            e,
            h.nothing(),
            start,
            at,
            h.latest(),
            before,
            h.averages(),
            i,
        );
    }
    let w = h.averages()[i];
    assert(tells(t, h.nothing(), name, w.0, s[1]));
    assert(tells(t, h.nothing(), name, w.1, s[2]));
    assert(tells(t, h.nothing(), name, w.2, s[3]));
}

proof fn lemma_averages_read(c: Canvas, ops: Seq<OpView>, a: Area, t: LoadavgTexts, n: int)
    requires
        on_canvas(c, a),
        a.x + a.w < c.width,
        0 <= n < a.h,
        0 < a.w,
        a.w - panels::number_width(a.w) * 4 >= 0,
    ensures
        forall|i: int| #![trigger t.rows@[i]]
            0 <= i < n ==> columns_read(
                panels::with_averages(c, ops, a, t, n),
                a.y + 1 + i,
                column_edges(a.x + a.w, panels::number_width(a.w)),
                panels::number_width(a.w) as nat,
                panels::cell_texts(t.rows@[i]),
            ) && reads_at(
                panels::with_averages(c, ops, a, t, n),
                a.y + 1 + i,
                a.x,
                text::clipped(
                    panels::loadavg_label(i),
                    (a.w - panels::number_width(a.w) * 4) as nat,
                ),
            ),
        forall|y2: int, x2: int, s2: Seq<char>|
            reads_at(ops, y2, x2, s2) ==> #[trigger] reads_at(
                panels::with_averages(c, ops, a, t, n),
                y2,
                x2,
                s2,
            ),
    decreases n,
{
    if n > 0 {
        lemma_averages_read(c, ops, a, t, n - 1);
        let before = panels::with_averages(c, ops, a, t, n - 1);
        let label = text::clipped(
            panels::loadavg_label(n - 1),
            (a.w - panels::number_width(a.w) * 4) as nat,
        );
        let style = theme::styled(Pair::Dim, false, false);
        let named = painter::with_text(c, before, a.y + n, a.x, label, style);
        lemma_text_added(c, before, a.y + n, a.x, label, style);
        lemma_cells_read(c, named, a, a.y + n, panels::cell_texts(t.rows@[n - 1]), true);
        let after = panels::with_averages(c, ops, a, t, n);
        let edges = column_edges(a.x + a.w, panels::number_width(a.w));
        let width = panels::number_width(a.w) as nat;
        assert forall|i: int| #![trigger t.rows@[i]] 0 <= i < n implies columns_read(
            after,
            a.y + 1 + i,
            edges,
            width,
            panels::cell_texts(t.rows@[i]),
        ) && reads_at(
            after,
            a.y + 1 + i,
            a.x,
            text::clipped(
                panels::loadavg_label(i),
                (a.w - panels::number_width(a.w) * 4) as nat,
            ),
        ) by {
            if i < n - 1 {
                let texts = panels::cell_texts(t.rows@[i]);
                assert(columns_read(before, a.y + 1 + i, edges, width, texts));
            }
        }
    }
}

/// A chart of the series was drawn in the area, growing up or, flipped, down.
pub open spec fn charts_at(ops: Seq<OpView>, area: Area, name: Seq<char>, down: bool) -> bool {
    exists|k: int|
        0 <= k < ops.len() && (#[trigger] ops[k] matches OpView::Chart {
            area: within,
            series: of,
            flip,
            ..
        } && within == area && of == name && flip == down)
}

/// What was drawn before is still there.
spec fn grew(before: Seq<OpView>, after: Seq<OpView>) -> bool {
    &&& before.len() <= after.len()
    &&& forall|k: int| 0 <= k < before.len() ==> #[trigger] after[k] == before[k]
}

proof fn lemma_grew(before: Seq<OpView>, after: Seq<OpView>)
    requires
        grew(before, after),
    ensures
        forall|y: int, x: int, s: Seq<char>|
            reads_at(before, y, x, s) ==> #[trigger] reads_at(after, y, x, s),
        forall|a: Area, name: Seq<char>, down: bool|
            charts_at(before, a, name, down) ==> #[trigger] charts_at(after, a, name, down),
{
    assert forall|y: int, x: int, s: Seq<char>| reads_at(
        before,
        y,
        x,
        s,
    ) implies #[trigger] reads_at(after, y, x, s) by {
        let k = choose|k: int|
            0 <= k < before.len() && (#[trigger] before[k] matches OpView::Text {
                y: line,
                x: from,
                text,
                ..
            } && line == y && from == x && text == s);
        assert(after[k] == before[k]);
    }
    assert forall|a: Area, name: Seq<char>, down: bool| charts_at(
        before,
        a,
        name,
        down,
    ) implies #[trigger] charts_at(after, a, name, down) by {
        let k = choose|k: int|
            0 <= k < before.len() && (#[trigger] before[k] matches OpView::Chart {
                area: within,
                series: of,
                flip,
                ..
            } && within == a && of == name && flip == down);
        assert(after[k] == before[k]);
    }
}

proof fn lemma_filled(
    ops: Seq<OpView>,
    a: Area,
    name: Seq<char>,
    scale: Scale,
    flip: bool,
    pair: Pair,
)
    ensures
        grew(ops, panels::with_filled(ops, a, name, scale, flip, pair)),
        a.h > 0 && a.w > 0 ==> charts_at(
            panels::with_filled(ops, a, name, scale, flip, pair),
            a,
            name,
            flip,
        ),
{
    let after = panels::with_filled(ops, a, name, scale, flip, pair);
    if a.h > 0 && a.w > 0 {
        let style = theme::styled(pair, false, false);
        let op = OpView::Chart { area: a, series: name, scale, flip, style };
        assert(after[ops.len() as int] == op);
    }
}

proof fn lemma_divider(c: Canvas, ops: Seq<OpView>, y: int, x: int, n: int)
    ensures
        grew(ops, panels::with_divider(c, ops, y, x, n)),
    decreases n,
{
    if n > 0 {
        lemma_divider(c, ops, y, x, n - 1);
    }
}

/// A row of a stats column: its label from `x` on, and its value up to `edge`.
pub open spec fn stat_reads(
    ops: Seq<OpView>,
    y: int,
    x: int,
    edge: int,
    label: Seq<char>,
    value: Seq<char>,
) -> bool {
    &&& reads_at(ops, y, x, text::clipped(label, (edge - x) as nat))
    &&& ends_at(ops, y, edge, text::clipped(value, (edge - x) as nat))
}

proof fn lemma_stats(
    c: Canvas,
    ops: Seq<OpView>,
    y0: int,
    x: int,
    w: nat,
    rows: Seq<(Seq<char>, Pair, Seq<char>)>,
    n: int,
)
    requires
        0 <= x && x + w < c.width,
        0 < w,
        0 <= y0,
        n > 0 ==> y0 + n <= c.height,
    ensures
        grew(ops, panels::with_stats(c, ops, y0, x, w, rows, n)),
        forall|j: int| #![trigger rows[j]]
            0 <= j < n ==> stat_reads(
                panels::with_stats(c, ops, y0, x, w, rows, n),
                y0 + j,
                x,
                x + w,
                rows[j].0,
                rows[j].2,
            ),
    decreases n,
{
    if n > 0 {
        lemma_stats(c, ops, y0, x, w, rows, n - 1);
        let before = panels::with_stats(c, ops, y0, x, w, rows, n - 1);
        let after = panels::with_stats(c, ops, y0, x, w, rows, n);
        let (label, pair, value) = rows[n - 1];
        let dim = theme::styled(Pair::Dim, false, false);
        let name = text::clipped(label, w);
        let named = painter::with_text(c, before, y0 + n - 1, x, name, dim);
        let shown = text::clipped(value, w);
        let bold = theme::styled(pair, true, false);
        lemma_text_added(c, before, y0 + n - 1, x, name, dim);
        lemma_text_added(c, named, y0 + n - 1, x + w - shown.len(), shown, bold);
        assert(grew(before, after));
        lemma_grew(before, after);
        assert forall|j: int| #![trigger rows[j]] 0 <= j < n implies stat_reads(
            after,
            y0 + j,
            x,
            x + w,
            rows[j].0,
            rows[j].2,
        ) by {
            if j < n - 1 {
                assert(stat_reads(before, y0 + j, x, x + w, rows[j].0, rows[j].2));
            }
        }
    }
}

/// `s` is the rate of a series in tokens per second.
pub open spec fn tells_rate<T: Figures>(t: T, x: T::F, s: Seq<char>) -> bool {
    widgets::is_big_number(t, x, " tok/s"@, s)
}

/// `x` is the largest of the values that are shown, or zero.
pub open spec fn is_largest<F>(v: spec_fn(F) -> real, values: Seq<F>, x: F) -> bool {
    &&& v(x) >= 0real
    &&& forall|k: int| 0 <= k < values.len() ==> v(#[trigger] values[k]) <= v(x)
    &&& v(x) == 0real || exists|k: int| 0 <= k < values.len() && v(#[trigger] values[k]) == v(x)
}

/// With a comparison that picks the larger number, the peak of the values is
/// the largest of them, and never below zero.
pub proof fn law_peak_is_largest<T: Figures>(
    t: T,
    v: spec_fn(T::F) -> real,
    zero: T::F,
    values: Seq<T::F>,
    x: T::F,
)
    requires
        v(zero) == 0real,
        forall|p: T::F, q: T::F, r: T::F| #[trigger]
            call_ensures(T::larger, (&t, p, q), r) ==> v(r) == if v(p) < v(q) {
                v(q)
            } else {
                v(p)
            },
        figures::is_peak(t, zero, values, x),
    ensures
        is_largest(v, values, x),
    decreases values.len(),
{
    if values.len() > 0 {
        let front = values.drop_last();
        let p = choose|p: T::F| #[trigger]
            call_ensures(T::larger, (&t, p, values.last()), x) && figures::is_peak(
                t,
                zero,
                front,
                p,
            );
        law_peak_is_largest(t, v, zero, front, p);
        assert forall|k: int| 0 <= k < values.len() implies v(#[trigger] values[k]) <= v(x) by {
            if k < front.len() {
                assert(front[k] == values[k]);
            }
        }
        if v(p) < v(values.last()) {
            assert(v(values[values.len() - 1]) == v(x));
        } else if v(x) != 0real {
            let k = choose|k: int| 0 <= k < front.len() && v(#[trigger] front[k]) == v(p);
            assert(v(values[k]) == v(x));
        }
    }
}

/// What the throughput panel says beside its chart: the texts of the four
/// lines, from the top.
pub struct RateLines<F> {
    /// Where the labels start.
    pub from: int,
    pub gen_now: Seq<char>,
    pub gen_peak: (F, Seq<char>),
    pub prompt_now: Seq<char>,
    pub prompt_peak: (F, Seq<char>),
    /// The areas of both halves of the chart.
    pub up: Area,
    pub down: Area,
}

/// The throughput panel, where it is wide: four lines beside the chart say the
/// latest value and the peak of the generated tokens per second, and the same
/// of the prompt tokens; the chart grows up with the generated tokens, and
/// down with the prompt tokens.
pub proof fn law_throughput_shows_its_series<T: Figures>(
    t: T,
    h: History<T::F>,
    snap: Snapshot<T::F>,
    now: T::F,
    x: PanelTexts,
    c: Canvas,
    ops: Seq<OpView>,
    a: Area,
    num: int,
    gen: int,
    prompt: int,
) -> (r: RateLines<T::F>)
    requires
        figures::are_panel_texts(t, h, snap, now, x),
        on_canvas(c, a),
        a.w >= 29,
        a.h >= 6,
        state::names_series("gen_tok_s"@, gen),
        state::names_series("prompt_tok_s"@, prompt),
    ensures
        ({
            let after = panels::with_throughput(c, ops, a, x.throughput, num);
            let edge = a.x + a.w - 1;
            &&& stat_reads(after, a.y + 1, r.from, edge, "gen now"@, r.gen_now)
            &&& stat_reads(after, a.y + 2, r.from, edge, "gen peak"@, r.gen_peak.1)
            &&& stat_reads(after, a.y + 3, r.from, edge, "prompt now"@, r.prompt_now)
            &&& stat_reads(after, a.y + 4, r.from, edge, "prompt peak"@, r.prompt_peak.1)
            &&& charts_at(after, r.up, "gen_tok_s"@, false)
            &&& charts_at(after, r.down, "prompt_tok_s"@, true)
        }),
        tells_rate(t, h.latest()[gen], r.gen_now),
        tells_rate(t, r.gen_peak.0, r.gen_peak.1),
        figures::is_peak(t, h.nothing(), h.series_at(gen), r.gen_peak.0),
        tells_rate(t, h.latest()[prompt], r.prompt_now),
        tells_rate(t, r.prompt_peak.0, r.prompt_peak.1),
        figures::is_peak(t, h.nothing(), h.series_at(prompt), r.prompt_peak.0),
        r.up.y == a.y + 1 && r.up.y + r.up.h == r.down.y && r.down.y + r.down.h == a.y + a.h - 1,
        r.up.x == r.down.x == a.x + 1,
        r.up.w == r.down.w,
        r.up.x + r.up.w < r.from,
        r.from < a.x + a.w - 1,
{
    series::law_names_find_one("gen_tok_s"@, gen, 0);
    series::law_names_find_one("prompt_tok_s"@, prompt, 1);
    let unit = " tok/s"@;
    let q = x.throughput;
    let gen_pk = choose|p: T::F| #[trigger]
        figures::is_peak(t, h.nothing(), h.series_at(0), p) && widgets::is_big_number(
            t,
            p,
            unit,
            q.gen_peak@,
        );
    let prompt_pk = choose|p: T::F| #[trigger]
        figures::is_peak(t, h.nothing(), h.series_at(1), p) && widgets::is_big_number(
            t,
            p,
            unit,
            q.prompt_peak@,
        );
    let inner = painter::inner_area(a);
    let chart_w = inner.w - panels::side_width(inner.w, 3, 18, 24) - 1;
    let boxed = painter::with_box(
        c,
        ops,
        a,
        "throughput"@,
        num,
        Pair::Title,
        "tok/s"@,
        Pair::BoxThru,
    );
    let left = Area { w: chart_w, ..inner };
    let up = panels::upper_half(left);
    let down = panels::lower_half(left);
    let none = Seq::<char>::empty();
    let charted = panels::with_mirror(c, boxed, left, "gen_tok_s"@, none, "prompt_tok_s"@, none);
    let scale = Scale::Peak { floor: 1_000_000_000 };
    let half = panels::with_filled(boxed, up, "gen_tok_s"@, scale, false, Pair::Cyan);
    lemma_filled(boxed, up, "gen_tok_s"@, scale, false, Pair::Cyan);
    lemma_filled(half, down, "prompt_tok_s"@, scale, true, Pair::Magenta);
    lemma_grew(half, charted);
    let divided = panels::with_divider(c, charted, inner.y, inner.x + chart_w, inner.h);
    lemma_divider(c, charted, inner.y, inner.x + chart_w, inner.h);
    lemma_grew(charted, divided);
    let rows = panels::throughput_rows(q);
    let w = (inner.w - chart_w - 2) as nat;
    let after = panels::with_throughput(c, ops, a, q, num);
    lemma_stats(c, divided, inner.y, inner.x + chart_w + 2, w, rows, 4);
    lemma_grew(divided, after);
    assert(rows[0].0 == "gen now"@ && rows[1].0 == "gen peak"@);
    assert(rows[2].0 == "prompt now"@ && rows[3].0 == "prompt peak"@);
    RateLines {
        from: inner.x + chart_w + 2,
        gen_now: q.gen_now@,
        gen_peak: (gen_pk, q.gen_peak@),
        prompt_now: q.prompt_now@,
        prompt_peak: (prompt_pk, q.prompt_peak@),
        up,
        down,
    }
}

/// The throughput panel, where it is narrow: the latest values stand in the
/// corners of the chart, that of the generated tokens above.
pub proof fn law_narrow_throughput_shows_its_series<T: Figures>(
    t: T,
    h: History<T::F>,
    snap: Snapshot<T::F>,
    now: T::F,
    x: PanelTexts,
    c: Canvas,
    ops: Seq<OpView>,
    a: Area,
    num: int,
    gen: int,
    prompt: int,
) -> (r: (Seq<char>, Seq<char>, Area, Area))
    requires
        figures::are_panel_texts(t, h, snap, now, x),
        on_canvas(c, a),
        3 <= a.w < 29,
        a.h >= 4,
        state::names_series("gen_tok_s"@, gen),
        state::names_series("prompt_tok_s"@, prompt),
    ensures
        ({
            let after = panels::with_throughput(c, ops, a, x.throughput, num);
            let room = (c.width - a.x - 1) as nat;
            let above = text::clipped(" gen "@ + r.0 + " "@, room);
            let below = text::clipped(" prompt "@ + r.1 + " "@, room);
            &&& reads_at(after, a.y + 1, a.x + 1, above)
            &&& reads_at(after, a.y + a.h - 2, a.x + 1, below)
            &&& charts_at(after, r.2, "gen_tok_s"@, false)
            &&& charts_at(after, r.3, "prompt_tok_s"@, true)
        }),
        tells_rate(t, h.latest()[gen], r.0),
        tells_rate(t, h.latest()[prompt], r.1),
        r.2.y == a.y + 1 && r.2.y + r.2.h == r.3.y && r.3.y + r.3.h == a.y + a.h - 1,
{
    series::law_names_find_one("gen_tok_s"@, gen, 0);
    series::law_names_find_one("prompt_tok_s"@, prompt, 1);
    reveal_strlit(" ");
    reveal_strlit("gen ");
    reveal_strlit(" gen ");
    reveal_strlit("prompt ");
    reveal_strlit(" prompt ");
    let q = x.throughput;
    let inner = painter::inner_area(a);
    let boxed = painter::with_box(
        c,
        ops,
        a,
        "throughput"@,
        num,
        Pair::Title,
        "tok/s"@,
        Pair::BoxThru,
    );
    let up = panels::upper_half(inner);
    let down = panels::lower_half(inner);
    let scale = Scale::Peak { floor: 1_000_000_000 };
    let half = panels::with_filled(boxed, up, "gen_tok_s"@, scale, false, Pair::Cyan);
    lemma_filled(boxed, up, "gen_tok_s"@, scale, false, Pair::Cyan);
    let both = panels::with_filled(half, down, "prompt_tok_s"@, scale, true, Pair::Magenta);
    lemma_filled(half, down, "prompt_tok_s"@, scale, true, Pair::Magenta);
    let above = " "@ + ("gen "@ + q.gen_now@) + " "@;
    let below = " "@ + ("prompt "@ + q.prompt_now@) + " "@;
    assert(above =~= " gen "@ + q.gen_now@ + " "@);
    assert(below =~= " prompt "@ + q.prompt_now@ + " "@);
    let purple = theme::styled(Pair::Purple, true, false);
    let pink = theme::styled(Pair::Pink, true, false);
    let named = painter::with_text(c, both, inner.y, inner.x, above, purple);
    lemma_text_added(c, both, inner.y, inner.x, above, purple);
    lemma_text_added(c, named, inner.y + inner.h - 1, inner.x, below, pink);
    lemma_grew(half, panels::with_throughput(c, ops, a, q, num));
    lemma_grew(both, panels::with_throughput(c, ops, a, q, num));
    (q.gen_now@, q.prompt_now@, up, down)
}

/// The series of single requests.
pub open spec fn is_per_request(name: Seq<char>) -> bool {
    ||| name == "req_prompt_tok"@
    ||| name == "req_gen_tok"@
    ||| name == "req_prefill"@
    ||| name == "req_decode"@
}

/// The label of a series in the perf panel.
pub open spec fn perf_label(name: Seq<char>) -> Seq<char> {
    if name == "ttft"@ {
        "TTFT"@
    } else if name == "tpot"@ {
        "TPOT"@
    } else if name == "queue_time"@ {
        "queue"@
    } else if name == "req_prompt_tok"@ {
        "p-tok"@
    } else if name == "req_gen_tok"@ {
        "g-tok"@
    } else if name == "req_prefill"@ {
        "prefill"@
    } else if name == "req_decode"@ {
        "decode"@
    } else {
        name
    }
}

/// `s` tells the value of a series in the perf panel: numbers of tokens without
/// decimals, times as latencies.
pub open spec fn tells_perf<T: Figures>(
    t: T,
    zero: T::F,
    name: Seq<char>,
    x: T::F,
    s: Seq<char>,
) -> bool {
    if name == "req_prompt_tok"@ || name == "req_gen_tok"@ {
        widgets::is_fixed(t, x, 0, s)
    } else {
        widgets::is_latency(t, zero, x, s)
    }
}

/// Under the top of the perf panel, where the line of a series stands: the
/// latencies first, a line of its own after them, the others below.
pub open spec fn perf_line(i: int) -> int {
    if i < 9 {
        i - 4
    } else {
        i - 2
    }
}

proof fn lemma_perf_series(name: Seq<char>, i: int)
    requires
        state::names_series(name, i),
        is_latency(name) || is_per_request(name),
    ensures
        is_latency(name) ==> 5 <= i < 9 && panels::latency_metric(i - 5).0 == perf_label(name)
            && panels::latency_metric(i - 5).1 == name,
        is_per_request(name) ==> 9 <= i < 13 && panels::request_metric(i - 9).0 == perf_label(name)
            && panels::request_metric(i - 9).1 == name,
        (name == "req_prompt_tok"@ || name == "req_gen_tok"@) <==> 9 <= i < 11,
{
    series::law_series_are_found(name, i);
    series::law_names_are_distinct();
    assert(state::series_name(i) == name);
    assert(state::series_name(5) == "ttft"@);
    assert(state::series_name(6) == "tpot"@);
    assert(state::series_name(7) == "e2e"@);
    assert(state::series_name(8) == "queue_time"@);
    assert(state::series_name(9) == "req_prompt_tok"@);
    assert(state::series_name(10) == "req_gen_tok"@);
    assert(state::series_name(11) == "req_prefill"@);
    assert(state::series_name(12) == "req_decode"@);
}

proof fn lemma_sparks(ops: Seq<OpView>, per_request: bool, y: int, x: int, w: int, n: int)
    ensures
        grew(ops, panels::with_sparks(ops, per_request, y, x, w, n)),
        w > 0 ==> forall|j: int| #![trigger panels::metric(per_request, j)]
            0 <= j < n ==> charts_at(
                panels::with_sparks(ops, per_request, y, x, w, n),
                (Area { y: y + j, x, h: 1, w }),
                panels::metric(per_request, j).1,
                false,
            ),
    decreases n,
{
    if n > 0 {
        lemma_sparks(ops, per_request, y, x, w, n - 1);
        let before = panels::with_sparks(ops, per_request, y, x, w, n - 1);
        let after = panels::with_sparks(ops, per_request, y, x, w, n);
        let (label, name, pair) = panels::metric(per_request, n - 1);
        let area = panels::spark_area(y + n - 1, x, w);
        lemma_filled(before, area, name, Scale::Peak { floor: 1_000_000 }, false, pair);
        lemma_grew(before, after);
        if w > 0 {
            assert forall|j: int| #![trigger panels::metric(per_request, j)]
                0 <= j < n implies charts_at(
                after,
                (Area { y: y + j, x, h: 1, w }),
                panels::metric(per_request, j).1,
                false,
            ) by {
                if j < n - 1 {
                    assert(charts_at(
                        before,
                        Area { y: y + j, x, h: 1, w },
                        panels::metric(per_request, j).1,
                        false,
                    ));
                }
            }
        }
    }
}

/// The perf panel, where it is wide: the line of a series has its label, its
/// latest value, and on the left a chart of it.
pub proof fn law_perf_shows_its_series<T: Figures>(
    t: T,
    h: History<T::F>,
    snap: Snapshot<T::F>,
    now: T::F,
    x: PanelTexts,
    c: Canvas,
    ops: Seq<OpView>,
    a: Area,
    num: int,
    name: Seq<char>,
    i: int,
) -> (r: (int, Seq<char>))
    requires
        figures::are_panel_texts(t, h, snap, now, x),
        on_canvas(c, a),
        a.w >= 23,
        state::names_series(name, i),
        is_latency(name) || is_per_request(name),
        a.h >= perf_line(i) + 2,
    ensures
        ({
            let after = panels::with_perf(c, ops, a, x.perf, num);
            let y = a.y + perf_line(i);
            let chart = Area { y, x: a.x + 1, h: 1, w: r.0 - 3 - a.x };
            &&& stat_reads(after, y, r.0, a.x + a.w - 1, perf_label(name), r.1)
            &&& charts_at(after, chart, name, false)
        }),
        tells_perf(t, h.nothing(), name, h.latest()[i], r.1),
        r.0 < a.x + a.w - 1,
{
    lemma_perf_series(name, i);
    let q = x.perf;
    let inner = painter::inner_area(a);
    let chart_w = inner.w - panels::side_width(inner.w, 4, 12, 18) - 1;
    let boxed = painter::with_box(
        c,
        ops,
        a,
        "perf"@,
        num,
        Pair::Title,
        "recent avg"@,
        Pair::BoxLat,
    );
    let m = panels::at_most(4, inner.h);
    let n = panels::shown_requests(inner.h);
    let divided = panels::with_divider(c, boxed, inner.y, inner.x + chart_w, inner.h);
    let sparks = panels::with_sparks(divided, false, inner.y, inner.x, chart_w, m);
    lemma_sparks(divided, false, inner.y, inner.x, chart_w, m);
    let line = panels::rule_text("per-request"@, chart_w);
    let div = theme::styled(Pair::Div, false, false);
    let ruled = if inner.h > 5 {
        painter::with_text(c, sparks, inner.y + 5, inner.x, line, div)
    } else {
        sparks
    };
    lemma_grew(sparks, ruled);
    let all = panels::with_sparks(ruled, true, inner.y + 6, inner.x, chart_w, n);
    lemma_sparks(ruled, true, inner.y + 6, inner.x, chart_w, n);
    lemma_grew(ruled, all);
    let from = inner.x + chart_w + 2;
    let w = (inner.w - chart_w - 2) as nat;
    let above = panels::with_stats(c, all, inner.y, from, w, panels::latency_stats(q), m);
    lemma_stats(c, all, inner.y, from, w, panels::latency_stats(q), m);
    lemma_grew(all, above);
    let after = panels::with_perf(c, ops, a, q, num);
    lemma_stats(c, above, inner.y + 6, from, w, panels::request_stats(q, n), n);
    lemma_grew(above, after);
    if is_latency(name) {
        let j = i - 5;
        assert(panels::metric(false, j).1 == name);
        assert(panels::latency_stats(q)[j].2 == q.latencies@[j]@);
        (from, q.latencies@[j]@)
    } else {
        let j = i - 9;
        assert(panels::metric(true, j).1 == name);
        assert(panels::request_stats(q, n)[j].2 == q.per_request@[j]@);
        (from, q.per_request@[j]@)
    }
}

/// As far as both go, they say the same.
pub open spec fn starts_alike(s: Seq<char>, head: Seq<char>) -> bool {
    forall|k: int| 0 <= k < s.len() && k < head.len() ==> #[trigger] s[k] == head[k]
}

/// The perf panel, where it is narrow: the line of a latency has its label, its
/// latest value, and a chart of it where there is room.
pub proof fn law_narrow_perf_shows_its_series<T: Figures>(
    t: T,
    h: History<T::F>,
    snap: Snapshot<T::F>,
    now: T::F,
    x: PanelTexts,
    c: Canvas,
    ops: Seq<OpView>,
    a: Area,
    num: int,
    name: Seq<char>,
    i: int,
) -> (s: Seq<char>)
    requires
        figures::are_panel_texts(t, h, snap, now, x),
        on_canvas(c, a),
        9 <= a.w < 23,
        state::names_series(name, i),
        is_latency(name),
        a.h >= perf_line(i) + 2,
    ensures
        ({
            let after = panels::with_perf(c, ops, a, x.perf, num);
            let y = a.y + perf_line(i);
            let (l, v) = (a.x + 1, a.x + 7);
            let chart = Area { y, x: a.x + 15, h: 1, w: a.w - 16 };
            let label = text::left_aligned(perf_label(name), 5);
            let value = text::right_aligned(s, 7);
            &&& reads_at(after, y, l, text::clipped(label, (c.width - l) as nat))
            &&& reads_at(after, y, v, text::clipped(value, (c.width - v) as nat))
            &&& a.w > 18 ==> charts_at(after, chart, name, false)
        }),
        tells_perf(t, h.nothing(), name, h.latest()[i], s),
{
    lemma_perf_series(name, i);
    let q = x.perf;
    let inner = painter::inner_area(a);
    let boxed = painter::with_box(
        c,
        ops,
        a,
        "perf"@,
        num,
        Pair::Title,
        "recent avg"@,
        Pair::BoxLat,
    );
    let n = panels::at_most(4, inner.h);
    lemma_latency_rows(c, boxed, inner, q, n);
    lemma_grew(
        panels::with_latency_rows(c, boxed, inner, q, n),
        panels::with_perf(c, ops, a, q, num),
    );
    assert(panels::latency_metric(i - 5).1 == name);
    q.latencies@[i - 5]@
}

spec fn latency_row_reads(
    ops: Seq<OpView>,
    c: Canvas,
    a: Area,
    j: int,
    s: Seq<char>,
) -> bool {
    let y = a.y + j;
    let label = text::left_aligned(panels::latency_metric(j).0, 5);
    let value = text::right_aligned(s, 7);
    let chart = Area { y, x: a.x + 14, h: 1, w: a.w - 14 };
    &&& reads_at(ops, y, a.x, text::clipped(label, (c.width - a.x) as nat))
    &&& reads_at(ops, y, a.x + 6, text::clipped(value, (c.width - a.x - 6) as nat))
    &&& a.w > 16 ==> charts_at(ops, chart, panels::latency_metric(j).1, false)
}

proof fn lemma_latency_rows(
    c: Canvas,
    ops: Seq<OpView>,
    a: Area,
    t: panels::PerfTexts,
    n: int,
)
    requires
        on_canvas(c, a),
        a.w >= 7,
        0 <= n <= a.h,
    ensures
        forall|j: int| #![trigger t.latencies@[j]]
            0 <= j < n ==> latency_row_reads(
                panels::with_latency_rows(c, ops, a, t, n),
                c,
                a,
                j,
                t.latencies@[j]@,
            ),
    decreases n,
{
    if n > 0 {
        lemma_latency_rows(c, ops, a, t, n - 1);
        let before = panels::with_latency_rows(c, ops, a, t, n - 1);
        let after = panels::with_latency_rows(c, ops, a, t, n);
        let y = a.y + n - 1;
        let (label, name, pair) = panels::latency_metric(n - 1);
        let dim = theme::styled(Pair::Dim, false, false);
        let bold = theme::styled(pair, true, false);
        let shown = text::left_aligned(label, 5);
        let value = text::right_aligned(t.latencies@[n - 1]@, 7);
        let named = painter::with_text(c, before, y, a.x, shown, dim);
        let valued = painter::with_text(c, named, y, a.x + 6, value, bold);
        lemma_text_added(c, before, y, a.x, shown, dim);
        lemma_text_added(c, named, y, a.x + 6, value, bold);
        let area = panels::spark_area(y, a.x + 14, a.w - 14);
        lemma_filled(valued, area, name, Scale::Peak { floor: 1_000_000 }, false, pair);
        lemma_grew(before, after);
        lemma_grew(valued, after);
        assert forall|j: int| #![trigger t.latencies@[j]] 0 <= j < n implies latency_row_reads(
            after,
            c,
            a,
            j,
            t.latencies@[j]@,
        ) by {
            if j < n - 1 {
                assert(latency_row_reads(before, c, a, j, t.latencies@[j]@));
            }
        }
    }
}

/// The narrow perf panel names the use of the cache and the hit rate of
/// prefixes, in percent, above a chart of the use of the cache.
pub proof fn law_narrow_perf_shows_the_cache<T: Figures>(
    t: T,
    h: History<T::F>,
    snap: Snapshot<T::F>,
    now: T::F,
    x: PanelTexts,
    c: Canvas,
    ops: Seq<OpView>,
    a: Area,
    num: int,
    kv: int,
) -> (r: (Seq<char>, Seq<char>, Seq<char>))
    requires
        figures::are_panel_texts(t, h, snap, now, x),
        on_canvas(c, a),
        3 <= a.w < 23,
        a.h >= 8,
        state::names_series("kv_cache"@, kv),
    ensures
        ({
            let after = panels::with_perf(c, ops, a, x.perf, num);
            let chart = Area { y: a.y + 6, x: a.x + 1, h: a.h - 7, w: a.w - 2 };
            &&& reads_at(after, a.y + 5, a.x + 1, r.0)
            &&& charts_at(after, chart, "kv_cache"@, false)
        }),
        r.0.len() == a.w - 2,
        starts_alike(r.0, "┄ kv "@ + r.1 + "%  prefix "@ + r.2 + "% "@),
        widgets::is_fixed(t, h.latest()[kv], 0, r.1),
        figures::is_hit_text(t, h.nothing(), snap, r.2),
{
    series::law_names_find_one("kv_cache"@, kv, 4);
    reveal_strlit("┄ ");
    reveal_strlit(" ");
    reveal_strlit("kv ");
    reveal_strlit("┄ kv ");
    reveal_strlit("%  prefix ");
    reveal_strlit("%");
    reveal_strlit("% ");
    let q = x.perf;
    let inner = painter::inner_area(a);
    let boxed = painter::with_box(
        c,
        ops,
        a,
        "perf"@,
        num,
        Pair::Title,
        "recent avg"@,
        Pair::BoxLat,
    );
    let rows = panels::with_latency_rows(c, boxed, inner, q, 4);
    let label = "kv "@ + q.kv@ + "%  prefix "@ + q.hit@ + "%"@;
    let head = "┄ "@ + label + " "@;
    assert(head =~= "┄ kv "@ + q.kv@ + "%  prefix "@ + q.hit@ + "% "@);
    let line = panels::rule_text(label, inner.w);
    let div = theme::styled(Pair::Div, false, false);
    let ruled = painter::with_text(c, rows, inner.y + 4, inner.x, line, div);
    lemma_text_added(c, rows, inner.y + 4, inner.x, line, div);
    assert(line.len() == inner.w);
    let area = Area { y: inner.y + 5, h: inner.h - 5, ..inner };
    lemma_filled(ruled, area, "kv_cache"@, Scale::Percent, false, Pair::Default);
    lemma_grew(ruled, panels::with_perf(c, ops, a, q, num));
    (line, q.kv@, q.hit@)
}

/// What the feed says of an entry under each of its heads.
pub struct EntryTexts {
    pub age: Seq<char>,
    pub id: Seq<char>,
    pub size: Seq<char>,
    pub limit: Seq<char>,
}

/// Where the columns of the feed stand: where the age and the request id
/// start, and where the size and the token limit end.
pub struct FeedEdges {
    pub age: int,
    pub id: int,
    pub size: int,
    pub limit: int,
}

/// A line has the age in four cells, the request id from its column on, and
/// the size and the token limit in the last cells of their columns.
pub open spec fn entry_reads(ops: Seq<OpView>, y: int, k: FeedEdges, e: EntryTexts) -> bool {
    &&& reads_at(ops, y, k.age, text::clipped(text::right_aligned(e.age, 4), 4))
    &&& reads_at(ops, y, k.id, e.id)
    &&& ends_at(ops, y, k.size, text::clipped(text::right_aligned(e.size, 6), 6))
    &&& e.limit.len() > 0 ==> ends_at(
        ops,
        y,
        k.limit,
        text::clipped(text::right_aligned(e.limit, 6), 6),
    )
    &&& e.limit.len() == 0 ==> reads_at(ops, y, k.limit - 6, "-"@)
}

/// `s` is an age in whole seconds as the feed says it.
pub open spec fn tells_age(age: Option<i64>, s: Seq<char>) -> bool {
    match age {
        Some(n) => s == if n < 0 {
            "—"@
        } else {
            cells::duration_text(n as int)
        },
        None => s == "—"@,
    }
}

/// The requests panel, where it is wide: under the heads "age", "req id",
/// "size" and "max_tok", the latter as far as it fits, the line of an entry has
/// how long ago it came, its request id, how many characters its prompt has,
/// and its limit of tokens, and dashes for what it lacks. The lines are in the
/// order of the entries.
pub proof fn law_feed_shows_its_entries<T: Figures>(
    t: T,
    h: History<T::F>,
    snap: Snapshot<T::F>,
    now: T::F,
    x: PanelTexts,
    c: Canvas,
    ops: Seq<OpView>,
    a: Area,
    num: int,
    i: int,
) -> (r: (FeedEdges, EntryTexts))
    requires
        figures::are_panel_texts(t, h, snap, now, x),
        on_canvas(c, a),
        a.w >= 30,
        0 <= i < snap.merged_log@.len(),
        snap.access_error is None,
        a.h >= i + 5,
    ensures
        ({
            let after = panels::with_requests(c, ops, a, snap, x.feed@, num);
            &&& reads_at(after, a.y + 2, r.0.age, "age"@)
            &&& reads_at(after, a.y + 2, r.0.id, "req id"@)
            &&& ends_at(after, a.y + 2, r.0.size, "size"@)
            &&& ends_at(after, a.y + 2, r.0.limit, "max_to"@)
            &&& entry_reads(after, a.y + 3 + i, r.0, r.1)
        }),
        r.0.age == a.x + 1 && r.0.age + 4 < r.0.id && r.0.id + 4 < r.0.size - 6,
        r.0.size < r.0.limit - 6 && r.0.limit == a.x + a.w - 1,
        exists|age: Option<i64>| #[trigger]
            figures::is_age(t, h.nothing(), snap.merged_log@[i].t, now, age) && tells_age(
                age,
                r.1.age,
            ),
        starts_alike(
            r.1.id,
            match snap.merged_log@[i].request_id {
                Some(id) => id@,
                None => "—"@,
            },
        ),
        r.1.id.len() == r.0.size - 7 - r.0.id,
        match snap.merged_log@[i].prompt_chars {
            Some(n) => figures::is_char_count(t, n, r.1.size),
            None => r.1.size == "—"@,
        },
        match snap.merged_log@[i].max_tokens {
            Some(n) => r.1.limit == text::signed_decimal(n as int),
            None => r.1.limit.len() == 0,
        },
{
    reveal_strlit("—");
    reveal_strlit("-");
    reveal_strlit("age");
    reveal_strlit("req id");
    reveal_strlit("size");
    reveal_strlit("max_tok");
    reveal_strlit("max_to");
    assert(text::clipped("max_tok"@, 6) =~= "max_to"@);
    let inner = painter::inner_area(a);
    let boxed = painter::with_box(
        c,
        ops,
        a,
        "requests"@,
        num,
        Pair::Title,
        "activity"@,
        Pair::BoxReq,
    );
    let lined = painter::with_text(
        c,
        boxed,
        inner.y,
        inner.x,
        text::repeated('─', inner.w as nat),
        theme::styled(Pair::Div, false, false),
    );
    let f = Area { y: inner.y + 1, h: inner.h - 1, ..inner };
    let k = panels::feed_columns(f);
    let entries = snap.merged_log@;
    let headed = panels::with_feed_head(c, lined, f);
    lemma_feed_head(c, lined, f);
    let n = panels::at_most(entries.len() as int, f.h - 1);
    lemma_feed_rows(c, headed, f, entries, x.feed@, n);
    let after = panels::with_requests(c, ops, a, snap, x.feed@, num);
    lemma_grew(headed, after);
    let e = entries[i];
    let q = x.feed@[i];
    assert(figures::are_feed_texts(t, h.nothing(), e, now, q));
    (
        FeedEdges { age: f.x, id: k.x_req, size: k.x_size + 6, limit: k.x_tok + 6 },
        entry_texts(f, e, q),
    )
}

/// The texts of an entry.
spec fn entry_texts<F>(a: Area, e: state::MergedLogEntry<F>, t: FeedTexts) -> EntryTexts {
    let w = panels::feed_columns(a).req_w as nat;
    EntryTexts {
        age: match t.age {
            Some(n) => if n < 0 {
                "—"@
            } else {
                cells::duration_text(n as int)
            },
            None => "—"@,
        },
        id: match e.request_id {
            Some(id) => text::left_aligned(text::clipped(id@, w), w),
            None => text::left_aligned("—"@, w),
        },
        size: match e.prompt_chars {
            Some(n) => t.size@,
            None => "—"@,
        },
        limit: match e.max_tokens {
            Some(n) => text::signed_decimal(n as int),
            None => Seq::empty(),
        },
    }
}

proof fn lemma_feed_head(c: Canvas, ops: Seq<OpView>, a: Area)
    requires
        on_canvas(c, a),
        a.w >= 28,
        a.h >= 1,
    ensures
        ({
            let after = panels::with_feed_head(c, ops, a);
            let k = panels::feed_columns(a);
            &&& reads_at(after, a.y, a.x, "age"@)
            &&& reads_at(after, a.y, k.x_req, "req id"@)
            &&& reads_at(after, a.y, k.x_size + 2, "size"@)
            &&& reads_at(after, a.y, k.x_tok, text::clipped("max_tok"@, 6))
        }),
{
    reveal_strlit("age");
    reveal_strlit("req id");
    reveal_strlit("size");
    reveal_strlit("max_tok");
    let k = panels::feed_columns(a);
    let hdr = theme::styled(Pair::Dim, false, true);
    let id = text::clipped("req id"@, k.req_w as nat);
    let aged = painter::with_text(c, ops, a.y, a.x, "age"@, hdr);
    let named = painter::with_text(c, aged, a.y, k.x_req, id, hdr);
    let sized = painter::with_text(c, named, a.y, k.x_size + 2, "size"@, hdr);
    lemma_text_added(c, ops, a.y, a.x, "age"@, hdr);
    lemma_text_added(c, aged, a.y, k.x_req, id, hdr);
    lemma_text_added(c, named, a.y, k.x_size + 2, "size"@, hdr);
    lemma_text_added(c, sized, a.y, k.x_tok, text::clipped("max_tok"@, 6), hdr);
}

spec fn feed_edges(a: Area) -> FeedEdges {
    let k = panels::feed_columns(a);
    FeedEdges { age: a.x, id: k.x_req, size: k.x_size + 6, limit: k.x_tok + 6 }
}

proof fn lemma_feed_row<F>(
    c: Canvas,
    ops: Seq<OpView>,
    a: Area,
    y: int,
    e: state::MergedLogEntry<F>,
    t: FeedTexts,
)
    requires
        on_canvas(c, a),
        a.w >= 28,
        a.y <= y < a.y + a.h,
    ensures
        grew(ops, panels::with_feed_row(c, ops, a, y, e, t)),
        entry_reads(
            panels::with_feed_row(c, ops, a, y, e, t),
            y,
            feed_edges(a),
            entry_texts(a, e, t),
        ),
{
    reveal_strlit("—");
    reveal_strlit("-");
    let k = panels::feed_columns(a);
    let w = k.req_w as nat;
    let q = entry_texts(a, e, t);
    let faint = theme::styled(Pair::Dim, false, true);
    let dim = theme::styled(Pair::Dim, false, false);
    let cyan = theme::styled(Pair::Cyan, false, false);
    let green = theme::styled(Pair::Green, false, false);
    let bold = theme::styled(Pair::Cyan, true, false);
    let aged = painter::with_text(c, ops, y, a.x, panels::age_text(t.age), dim);
    lemma_text_added(c, ops, y, a.x, panels::age_text(t.age), dim);
    let id_style = if e.request_id is Some {
        cyan
    } else {
        faint
    };
    let named = painter::with_text(c, aged, y, k.x_req, q.id, id_style);
    lemma_text_added(c, aged, y, k.x_req, q.id, id_style);
    let size_style = if e.prompt_chars is Some {
        green
    } else {
        faint
    };
    let size = text::clipped(text::right_aligned(q.size, 6), 6);
    assert(text::right_aligned("—"@, 6).len() == 6);
    let sized = painter::with_text(c, named, y, k.x_size, size, size_style);
    lemma_text_added(c, named, y, k.x_size, size, size_style);
    match e.max_tokens {
        Some(n) => {
            let limit = text::clipped(text::right_aligned(q.limit, 6), 6);
            let size = if n < 0 {
                -n
            } else {
                n as int
            };
            assert(text::decimal(size as nat).len() > 0);
            lemma_text_added(c, sized, y, k.x_tok, limit, bold);
        },
        None => {
            lemma_text_added(c, sized, y, k.x_tok, "-"@, faint);
        },
    }
}

proof fn lemma_feed_rows<F>(
    c: Canvas,
    ops: Seq<OpView>,
    a: Area,
    entries: Seq<state::MergedLogEntry<F>>,
    texts: Seq<FeedTexts>,
    n: int,
)
    requires
        on_canvas(c, a),
        a.w >= 28,
        0 <= n < a.h,
    ensures
        grew(ops, panels::with_feed_rows(c, ops, a, entries, texts, n)),
        forall|j: int| #![trigger entries[j]]
            0 <= j < n ==> entry_reads(
                panels::with_feed_rows(c, ops, a, entries, texts, n),
                a.y + 1 + j,
                feed_edges(a),
                entry_texts(a, entries[j], texts[j]),
            ),
    decreases n,
{
    if n > 0 {
        lemma_feed_rows(c, ops, a, entries, texts, n - 1);
        let before = panels::with_feed_rows(c, ops, a, entries, texts, n - 1);
        let after = panels::with_feed_rows(c, ops, a, entries, texts, n);
        lemma_feed_row(c, before, a, a.y + n, entries[n - 1], texts[n - 1]);
        lemma_grew(before, after);
        assert forall|j: int| #![trigger entries[j]] 0 <= j < n implies entry_reads(
            after,
            a.y + 1 + j,
            feed_edges(a),
            entry_texts(a, entries[j], texts[j]),
        ) by {
            if j < n - 1 {
                assert(entry_reads(
                    before,
                    a.y + 1 + j,
                    feed_edges(a),
                    entry_texts(a, entries[j], texts[j]),
                ));
            }
        }
    }
}

} // verus!
