//! What can be read of the history once it was drawn.

use vstd::prelude::*;

use crate::collectors::BackendKind;
use crate::exact;
use crate::series;
use crate::state;
use crate::state::{History, Snapshot, SERIES_COUNT};
use crate::text;
use crate::ui::cells;
use crate::ui::controls::Controls;
use crate::ui::figures;
use crate::ui::figures::{draw_series, panel_texts};
use crate::ui::frame;
use crate::ui::frame::{draw_frame, Overlays, PanelTexts};
use crate::ui::layout;
use crate::ui::layout::{Area, Rect};
use crate::ui::painter;
use crate::ui::painter::{paint_chart, Canvas, Chart, OpView, Painter, Scale};
use crate::ui::panels::{draw_loadavg, draw_perf, draw_requests, draw_throughput};
use crate::ui::placed;
use crate::ui::scales;
use crate::ui::screen;
use crate::ui::screen::{EntryTexts, FeedEdges, RateLines};
use crate::ui::theme;
use crate::ui::theme::{Pair, Style};
use crate::ui::views;
use crate::ui::widgets::Figures;

verus! {

/// In the windowed-average panel, the line of a series says its label, and in
/// the column headed "now" its latest value, in the columns headed "1m", "5m"
/// and "15m" its averages over one, five and fifteen minutes.
pub proof fn law_averages_are_drawn_under_their_head<T: Figures>(
    t: T,
    h: History<T::F>,
    snap: Snapshot<T::F>,
    now: T::F,
    x: PanelTexts,
    p: &mut Painter,
    rect: Rect,
    num: i32,
    name: Seq<char>,
    i: int,
)
    requires
        call_ensures(panel_texts::<T>, (&t, &h, &snap, now), x),
        call_ensures(draw_loadavg, (p, rect, &x.loadavg, num), ()),
        screen::on_canvas(old(p).canvas(), rect@),
        rect.w >= 28,
        state::names_series(name, i),
        screen::has_row(name),
        rect.h >= i + 4,
    ensures
        exists|width: int, s: Seq<Seq<char>>| #[trigger]
            screen::row_reads(t, h, final(p)@, rect@, name, i, width, s),
{
    screen::law_columns_show_their_window(
        t,
        h,
        snap,
        now,
        x,
        old(p).canvas(),
        old(p)@,
        rect@,
        num as int,
        name,
        i,
    );
}

/// From the snapshot to the screen: once a history that has averages took in a
/// later snapshot and was drawn, the numbers in the columns "1m", "5m" and "15m"
/// of the line of a series are those that one, five and fifteen minutes leave
/// of the distance to its latest value. Where the series was steady and rose,
/// they do not ascend from left to right.
pub proof fn law_drawn_averages_follow_their_window<T: Figures>(
    t: T,
    v: spec_fn(T::F) -> real,
    e: spec_fn(real) -> real,
    before: &mut History<T::F>,
    next: Snapshot<T::F>,
    h: History<T::F>,
    now: T::F,
    x: PanelTexts,
    p: &mut Painter,
    rect: Rect,
    num: i32,
    name: Seq<char>,
    i: int,
)
    requires
        exact::is_exact(t, v),
        exact::falls(t, v, e),
        v(old(before).nothing()) == 0real,
        old(before).seeded_at() is Some,
        v(next.monotonic) > v(old(before).seeded_at().unwrap()),
        call_ensures(History::<T::F>::update::<T>, (before, &t, next), ()),
        *final(before) == h,
        call_ensures(panel_texts::<T>, (&t, &h, &next, now), x),
        call_ensures(draw_loadavg, (p, rect, &x.loadavg, num), ()),
        screen::on_canvas(old(p).canvas(), rect@),
        rect.w >= 28,
        state::names_series(name, i),
        screen::has_row(name),
        rect.h >= i + 4,
    ensures
        exists|width: int, s: Seq<Seq<char>>, one: T::F, five: T::F, fifteen: T::F| #[trigger]
            screen::row_reads(t, h, final(p)@, rect@, name, i, width, s)
                && #[trigger] screen::tells(t, h.nothing(), name, one, s[1])
                && #[trigger] screen::tells(t, h.nothing(), name, five, s[2])
                && #[trigger] screen::tells(t, h.nothing(), name, fifteen, s[3]) && {
                let last = v(h.latest()[i]);
                let dt = v(next.monotonic) - v(old(before).seeded_at().unwrap());
                let w = old(before).averages()[i];
                let (a, b, c) = (v(w.0), v(w.1), v(w.2));
                &&& v(one) - last == series::left_over(e, 1real, dt, a - last)
                &&& v(five) - last == series::left_over(e, 5real, dt, b - last)
                &&& v(fifteen) - last == series::left_over(e, 15real, dt, c - last)
                &&& a == b && b == c && last >= a ==> v(one) >= v(five) && v(five) >= v(fifteen)
            },
{
    screen::law_columns_follow_their_window(
        t,
        v,
        e,
        old(before).seeded_at().unwrap(),
        next.monotonic,
        old(before).averages(),
        h,
        next,
        now,
        x,
        old(p).canvas(),
        old(p)@,
        rect@,
        num as int,
        name,
        i,
    );
}

/// The throughput panel, where it is wide: four lines say the latest value and
/// the peak of the generated tokens per second, and the same of the prompt
/// tokens; the chart grows up with the one and down with the other.
pub proof fn law_throughput_is_drawn_by_series<T: Figures>(
    t: T,
    h: History<T::F>,
    snap: Snapshot<T::F>,
    now: T::F,
    x: PanelTexts,
    p: &mut Painter,
    rect: Rect,
    num: i32,
    gen: int,
    prompt: int,
) -> (r: RateLines<T::F>)
    requires
        call_ensures(panel_texts::<T>, (&t, &h, &snap, now), x),
        call_ensures(draw_throughput, (p, rect, &x.throughput, num), ()),
        screen::on_canvas(old(p).canvas(), rect@),
        rect.w >= 29,
        rect.h >= 6,
        state::names_series("gen_tok_s"@, gen),
        state::names_series("prompt_tok_s"@, prompt),
    ensures
        ({
            let (after, a) = (final(p)@, rect@);
            let edge = a.x + a.w - 1;
            &&& screen::stat_reads(after, a.y + 1, r.from, edge, "gen now"@, r.gen_now)
            &&& screen::stat_reads(after, a.y + 2, r.from, edge, "gen peak"@, r.gen_peak.1)
            &&& screen::stat_reads(after, a.y + 3, r.from, edge, "prompt now"@, r.prompt_now)
            &&& screen::stat_reads(after, a.y + 4, r.from, edge, "prompt peak"@, r.prompt_peak.1)
            &&& screen::charts_at(after, r.up, "gen_tok_s"@, false)
            &&& screen::charts_at(after, r.down, "prompt_tok_s"@, true)
            &&& r.up.y == a.y + 1 && r.up.y + r.up.h == r.down.y
        }),
        screen::tells_rate(t, h.latest()[gen], r.gen_now),
        screen::tells_rate(t, r.gen_peak.0, r.gen_peak.1),
        figures::is_peak(t, h.nothing(), h.series_at(gen), r.gen_peak.0),
        screen::tells_rate(t, h.latest()[prompt], r.prompt_now),
        screen::tells_rate(t, r.prompt_peak.0, r.prompt_peak.1),
        figures::is_peak(t, h.nothing(), h.series_at(prompt), r.prompt_peak.0),
{
    screen::law_throughput_shows_its_series(
        t,
        h,
        snap,
        now,
        x,
        old(p).canvas(),
        old(p)@,
        rect@,
        num as int,
        gen,
        prompt,
    )
}

/// The perf panel, where it is wide: the line of a series has its label, its
/// latest value, and on the left a chart of it.
pub proof fn law_perf_is_drawn_by_series<T: Figures>(
    t: T,
    h: History<T::F>,
    snap: Snapshot<T::F>,
    now: T::F,
    x: PanelTexts,
    p: &mut Painter,
    rect: Rect,
    num: i32,
    name: Seq<char>,
    i: int,
) -> (r: (int, Seq<char>))
    requires
        call_ensures(panel_texts::<T>, (&t, &h, &snap, now), x),
        call_ensures(draw_perf, (p, rect, &x.perf, num), ()),
        screen::on_canvas(old(p).canvas(), rect@),
        rect.w >= 23,
        state::names_series(name, i),
        screen::is_latency(name) || screen::is_per_request(name),
        rect.h >= screen::perf_line(i) + 2,
    ensures
        ({
            let (after, a) = (final(p)@, rect@);
            let y = a.y + screen::perf_line(i);
            let chart = Area { y, x: a.x + 1, h: 1, w: r.0 - 3 - a.x };
            let label = screen::perf_label(name);
            &&& screen::stat_reads(after, y, r.0, a.x + a.w - 1, label, r.1)
            &&& screen::charts_at(after, chart, name, false)
        }),
        screen::tells_perf(t, h.nothing(), name, h.latest()[i], r.1),
{
    screen::law_perf_shows_its_series(
        t,
        h,
        snap,
        now,
        x,
        old(p).canvas(),
        old(p)@,
        rect@,
        num as int,
        name,
        i,
    )
}

/// The requests panel, where it is wide: under its heads, the line of an entry
/// has how long ago it came, its request id, the size of its prompt, and its
/// limit of tokens.
pub proof fn law_feed_is_drawn_under_its_heads<T: Figures>(
    t: T,
    h: History<T::F>,
    snap: Snapshot<T::F>,
    now: T::F,
    x: PanelTexts,
    p: &mut Painter,
    rect: Rect,
    num: i32,
    i: int,
) -> (r: (FeedEdges, EntryTexts))
    requires
        call_ensures(panel_texts::<T>, (&t, &h, &snap, now), x),
        call_ensures(draw_requests::<T::F>, (p, rect, &snap, &x.feed, num), ()),
        screen::on_canvas(old(p).canvas(), rect@),
        rect.w >= 30,
        0 <= i < snap.merged_log@.len(),
        snap.access_error is None,
        rect.h >= i + 5,
    ensures
        ({
            let (after, a) = (final(p)@, rect@);
            &&& screen::reads_at(after, a.y + 2, r.0.age, "age"@)
            &&& screen::reads_at(after, a.y + 2, r.0.id, "req id"@)
            &&& screen::ends_at(after, a.y + 2, r.0.size, "size"@)
            &&& screen::ends_at(after, a.y + 2, r.0.limit, "max_to"@)
            &&& screen::entry_reads(after, a.y + 3 + i, r.0, r.1)
        }),
        exists|age: Option<i64>| #[trigger]
            figures::is_age(
                t,
                h.nothing(),
                snap.merged_log@[i].t,
                now,
                age,
            ) && screen::tells_age(age, r.1.age),
        screen::starts_alike(
            r.1.id,
            match snap.merged_log@[i].request_id {
                Some(id) => id@,
                None => "—"@,
            },
        ),
        match snap.merged_log@[i].prompt_chars {
            Some(n) => figures::is_char_count(t, n, r.1.size),
            None => r.1.size == "—"@,
        },
        match snap.merged_log@[i].max_tokens {
            Some(n) => r.1.limit == text::signed_decimal(n as int),
            None => r.1.limit.len() == 0,
        },
{
    screen::law_feed_shows_its_entries(
        t,
        h,
        snap,
        now,
        x,
        old(p).canvas(),
        old(p)@,
        rect@,
        num as int,
        i,
    )
}

/// In a frame on a terminal of its size, each available panel of the view stands
/// in the area that the layout gives it, under its own titles.
pub proof fn law_frame_draws_panels_in_place<F>(
    p: &mut Painter,
    lines: i32,
    cols: i32,
    available: Vec<&str>,
    t: PanelTexts,
    snap: Snapshot<F>,
    k: Controls,
    o: Overlays,
    id: Seq<char>,
)
    requires
        call_ensures(draw_frame::<F>, (p, lines, cols, &available, &t, &snap, &k, &o), ()),
        !layout::is_too_small(lines as int, cols as int),
        placed::is_panel(id),
        ({
            let view = views::view_tree(k.active_view as int);
            let m = layout::map_of(
                layout::arrangement(lines as int, cols as int, view, available@),
            );
            &&& m.dom().contains(id)
            &&& screen::on_canvas(old(p).canvas(), m[id])
            &&& m[id].w > 2 && m[id].h >= 2
        }),
    ensures
        ({
            let view = views::view_tree(k.active_view as int);
            let m = layout::map_of(
                layout::arrangement(lines as int, cols as int, view, available@),
            );
            placed::titled(old(p).canvas(), final(p)@, m[id], id)
        }),
{
    let view = views::view_tree(k.active_view as int);
    let m = layout::map_of(layout::arrangement(lines as int, cols as int, view, available@));
    let es = choose|es: Seq<(Seq<char>, Area)>|
        frame::lists_map(es, m) && final(p)@ == #[trigger] frame::with_frame(
            old(p).canvas(),
            old(p)@,
            lines as int,
            cols as int,
            es,
            t,
            snap,
            k,
            o,
        );
    let i = choose|i: int| 0 <= i < es.len() && (#[trigger] es[i]).0 == id;
    placed::law_panels_stand_in_their_areas(
        old(p).canvas(),
        old(p)@,
        lines as int,
        cols as int,
        es,
        t,
        snap,
        k,
        o,
        i,
    );
}

/// The help stands at the given place: its keys, each beside what it does.
pub open spec fn help_at(ops: Seq<OpView>, y: int, x: int) -> bool {
    &&& screen::reads_at(ops, y, x, "tokos — keybindings"@)
    &&& screen::reads_at(ops, y + 2, x, "  q / Esc    quit"@)
    &&& screen::reads_at(ops, y + 3, x, "  + / -      faster / slower refresh"@)
    &&& screen::reads_at(ops, y + 4, x, "  p          pause / resume polling"@)
    &&& screen::reads_at(ops, y + 5, x, "  b          cycle backend (auto → vllm → sglang)"@)
    &&& screen::reads_at(ops, y + 6, x, "  Tab        cycle to the next view"@)
    &&& screen::reads_at(ops, y + 8, x, "  h / ?      toggle this help"@)
    &&& screen::reads_at(ops, y + 13, x, "press any key to close"@)
}

/// Over the panels of a frame stands what was switched to, each in the middle of
/// its own line; and the help names each key beside what it does.
pub proof fn law_frame_shows_toasts_and_help<F>(
    p: &mut Painter,
    lines: i32,
    cols: i32,
    available: Vec<&str>,
    t: PanelTexts,
    snap: Snapshot<F>,
    k: Controls,
    o: Overlays,
)
    requires
        call_ensures(draw_frame::<F>, (p, lines, cols, &available, &t, &snap, &k, &o), ()),
        old(p).canvas().width == cols,
        old(p).canvas().height == lines,
        cols >= 62,
        lines >= 20,
        k.active_view == 0,
    ensures
        o.view_toast ==> screen::reads_at(
            final(p)@,
            0,
            (cols - " 1/1  overview "@.len()) / 2,
            " 1/1  overview "@,
        ),
        ({
            let name = match k.backend {
                BackendKind::Auto => "auto"@,
                BackendKind::Vllm => "vllm"@,
                BackendKind::Sgl => "sglang"@,
            };
            let label = " backend: "@ + name + " "@;
            o.backend_toast ==> screen::reads_at(
                final(p)@,
                1,
                (cols - label.len()) / 2,
                label,
            )
        }),
        k.show_help ==> exists|y: int, x: int| #[trigger] help_at(final(p)@, y, x),
{
    let view = views::view_tree(k.active_view as int);
    let m = layout::map_of(layout::arrangement(lines as int, cols as int, view, available@));
    let es = choose|es: Seq<(Seq<char>, Area)>|
        frame::lists_map(es, m) && final(p)@ == #[trigger] frame::with_frame(
            old(p).canvas(),
            old(p)@,
            lines as int,
            cols as int,
            es,
            t,
            snap,
            k,
            o,
        );
    let (y, x) = placed::law_overlays_are_shown(
        old(p).canvas(),
        old(p)@,
        lines as int,
        cols as int,
        es,
        t,
        snap,
        k,
        o,
    );
    if k.show_help {
        let ls = frame::help_lines();
        assert(ls[0] == "tokos — keybindings"@);
        assert(ls[2] == "  q / Esc    quit"@);
        assert(ls[3] == "  + / -      faster / slower refresh"@);
        assert(ls[4] == "  p          pause / resume polling"@);
        assert(ls[5] == "  b          cycle backend (auto → vllm → sglang)"@);
        assert(ls[6] == "  Tab        cycle to the next view"@);
        assert(ls[8] == "  h / ?      toggle this help"@);
        assert(ls[13] == "press any key to close"@);
        assert(help_at(final(p)@, y, x));
    }
}

/// On a terminal of less than sixty-two columns or twenty lines a frame says
/// nothing but that it is too small, in the middle of it.
pub proof fn law_small_terminals_are_told<F>(
    p: &mut Painter,
    lines: i32,
    cols: i32,
    available: Vec<&str>,
    t: PanelTexts,
    snap: Snapshot<F>,
    k: Controls,
    o: Overlays,
)
    requires
        call_ensures(draw_frame::<F>, (p, lines, cols, &available, &t, &snap, &k, &o), ()),
        old(p).canvas().width == cols,
        old(p).canvas().height == lines,
        0 < cols,
        0 < lines,
        cols < 62 || lines < 20,
    ensures
        final(p)@.len() == old(p)@.len() + 1,
        final(p)@.drop_last() == old(p)@,
        ({
            let told = "terminal too small — resize to at least 62x20"@;
            cols > told.len() ==> screen::reads_at(
                final(p)@,
                lines / 2,
                (cols - told.len()) / 2,
                told,
            )
        }),
{
    let told = "terminal too small — resize to at least 62x20"@;
    let x = frame::centred(cols as int, told.len() as int);
    screen::lemma_text_added(
        old(p).canvas(),
        old(p)@,
        lines / 2,
        x,
        told,
        theme::styled(Pair::Yellow, true, false),
    );
    assert(final(p)@.drop_last() =~= old(p)@);
}

/// A chart of a series: row by row, its bars are those of the values of just
/// that series, to scale, on an axis that ends at their peak or, for percentages,
/// at one hundred.
pub proof fn law_charts_show_their_series<T: Figures>(
    t: T,
    v: spec_fn(T::F) -> real,
    h: History<T::F>,
    p: &mut Painter,
    chart: Chart,
    i: int,
)
    requires
        scales::rounds(t, v, h.nothing()),
        state::names_series(chart.series@, i),
        i < SERIES_COUNT,
        chart.rect.w > 0,
        chart.scale matches Scale::Peak { floor } ==> floor > 0,
        call_ensures(draw_series::<T>, (&t, &h, p, &chart), ()),
    ensures
        exists|heights: Seq<i64>, top: T::F| #[trigger]
            to_scale(v, h.series_at(i), figures::dot_rows(chart.rect.h), heights, top)
                && final(p)@ == painter::with_rows(
                old(p).canvas(),
                old(p)@,
                chart.rect@,
                heights,
                chart.flip,
                chart.style,
                chart.rect.h as int,
            ) && (chart.scale is Percent ==> v(top) == 100real) && (chart.scale is Peak
                ==> forall|j: int|
                0 <= j < h.series_at(i).len() ==> v(#[trigger] h.series_at(i)[j]) <= v(top)),
{
    series::law_names_are_distinct();
    let heights = choose|heights: Seq<i64>| #[trigger]
        figures::are_scaled(
            t,
            h.nothing(),
            h.series_at(i),
            chart.scale,
            figures::dot_rows(chart.rect.h),
            heights,
        ) && final(p)@ == painter::with_rows(
            old(p).canvas(),
            old(p)@,
            chart.rect@,
            heights,
            chart.flip,
            chart.style,
            chart.rect.h as int,
        );
    let top = scales::law_axes_end_at_the_peak(
        t,
        v,
        h.nothing(),
        h.series_at(i),
        chart.scale,
        figures::dot_rows(chart.rect.h),
        heights,
    );
    assert(to_scale(v, h.series_at(i), figures::dot_rows(chart.rect.h), heights, top));
}

/// The heights are those of the values, of `rows` dots where a value is `top`.
pub open spec fn to_scale<F>(
    v: spec_fn(F) -> real,
    values: Seq<F>,
    rows: i64,
    heights: Seq<i64>,
    top: F,
) -> bool {
    &&& heights.len() == values.len()
    &&& forall|i: int| #![trigger heights[i]]
        0 <= i < values.len() ==> scales::is_near(
            heights[i] as real,
            rows as real,
            scales::between(v(values[i]), 0real, v(top)),
            v(top),
        )
}

/// A text is drawn where it was asked for, as much of it as is left of the line,
/// and nothing else changes; off the terminal nothing is drawn.
pub proof fn law_texts_are_clipped(p: &mut Painter, y: i32, x: i32, s: &str, style: Style)
    requires
        call_ensures(Painter::text, (p, y, x, s, style), ()),
    ensures
        ({
            let (a, b, c) = (old(p)@, final(p)@, old(p).canvas());
            let on = 0 <= y < c.height && 0 <= x < c.width;
            &&& !on ==> b == a
            &&& on ==> b.len() == a.len() + 1 && b.drop_last() == a
            &&& on ==> (b.last() matches OpView::Text { y: line, x: from, text, style: look }
                && line == y && from == x && look == style && screen::starts_alike(text, s@)
                && text.len() == if s@.len() < c.width - x {
                s@.len() as int
            } else {
                c.width - x
            })
        }),
        final(p).canvas() == old(p).canvas(),
{
    let (a, b, c) = (old(p)@, final(p)@, old(p).canvas());
    if 0 <= y < c.height && 0 <= x < c.width {
        assert(b.drop_last() =~= a);
    }
}

/// A box leaves all but its outline: the area one cell inside of it, and none
/// where it is smaller than two cells.
pub proof fn law_boxes_leave_their_inside(
    p: &mut Painter,
    rect: Rect,
    title: &str,
    num: i32,
    a: Pair,
    title2: &str,
    b: Pair,
    r: Rect,
)
    requires
        call_ensures(Painter::box_, (p, rect, title, num, a, title2, b), r),
    ensures
        rect.h >= 2 && rect.w >= 2 ==> {
            &&& r.y == rect.y + 1 && r.x == rect.x + 1
            &&& r.y + r.h == rect.y + rect.h - 1 && r.x + r.w == rect.x + rect.w - 1
        },
        rect.h < 2 || rect.w < 2 ==> r.h == 0 && r.w == 0,
        final(p).canvas() == old(p).canvas(),
{
}

/// A painted chart has its rows one below the other, each from the left of its
/// area on.
pub proof fn law_chart_rows_are_painted(
    p: &mut Painter,
    chart: Chart,
    heights: Vec<i64>,
    row: int,
)
    requires
        call_ensures(paint_chart, (p, &chart, &heights), ()),
        0 <= row < chart.rect.h,
        chart.rect.w > 0,
        screen::on_canvas(old(p).canvas(), chart.rect@),
    ensures
        screen::reads_at(
            final(p)@,
            chart.rect.y + row,
            chart.rect.x as int,
            cells::chart_row(
                heights@,
                chart.rect.w as nat,
                chart.rect.h as nat,
                true,
                chart.flip,
                row,
            ),
        ),
{
    lemma_rows_read(
        old(p).canvas(),
        old(p)@,
        chart.rect@,
        heights@,
        chart.flip,
        chart.style,
        chart.rect.h as int,
        row,
    );
}

proof fn lemma_rows_read(
    c: Canvas,
    ops: Seq<OpView>,
    a: Area,
    heights: Seq<i64>,
    flip: bool,
    style: Style,
    n: int,
    row: int,
)
    requires
        0 <= row < n <= a.h,
        a.w > 0,
        screen::on_canvas(c, a),
    ensures
        screen::reads_at(
            painter::with_rows(c, ops, a, heights, flip, style, n),
            a.y + row,
            a.x,
            cells::chart_row(heights, a.w as nat, a.h as nat, true, flip, row),
        ),
    decreases n,
{
    let before = painter::with_rows(c, ops, a, heights, flip, style, n - 1);
    let line = cells::chart_row(heights, a.w as nat, a.h as nat, true, flip, n - 1);
    screen::lemma_text_added(c, before, a.y + n - 1, a.x, line, style);
    assert(line.len() == a.w);
    if row < n - 1 {
        lemma_rows_read(c, ops, a, heights, flip, style, n - 1, row);
    }
}

} // verus!
