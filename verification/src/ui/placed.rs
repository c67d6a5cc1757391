//! What a frame shows where: each panel in the area that it was given, under
//! its own titles.

use vstd::prelude::*;

use crate::collectors::BackendKind;
use crate::state::{MergedLogEntry, Snapshot};
use crate::text;
use crate::ui::controls::Controls;
use crate::ui::frame;
use crate::ui::frame::{Overlays, PanelTexts};
use crate::ui::layout;
use crate::ui::layout::Area;
use crate::ui::painter;
use crate::ui::painter::{Canvas, OpView};
use crate::ui::panels;
use crate::ui::panels::{FeedTexts, LoadavgTexts, PerfTexts};
use crate::ui::registry;
use crate::ui::registry::Drawing;
use crate::ui::screen;
use crate::ui::theme;
use crate::ui::theme::{Pair, Style};

verus! {

/// What was drawn before is still there.
spec fn grew(before: Seq<OpView>, after: Seq<OpView>) -> bool {
    &&& before.len() <= after.len()
    &&& forall|k: int| 0 <= k < before.len() ==> #[trigger] after[k] == before[k]
}

proof fn lemma_still_reads(before: Seq<OpView>, after: Seq<OpView>, y: int, x: int, s: Seq<char>)
    requires
        grew(before, after),
        screen::reads_at(before, y, x, s),
    ensures
        screen::reads_at(after, y, x, s),
{
    let k = choose|k: int|
        0 <= k < before.len() && (#[trigger] before[k] matches OpView::Text {
            y: line,
            x: from,
            text,
            ..
        } && line == y && from == x && text == s);
    assert(after[k] == before[k]);
}

proof fn lemma_sides(c: Canvas, ops: Seq<OpView>, a: Area, style: Style, n: int)
    ensures
        grew(ops, painter::with_sides(c, ops, a, style, n)),
    decreases n,
{
    if n > 1 {
        lemma_sides(c, ops, a, style, n - 1);
    }
}

/// A box has its title in its upper line, and its second one in its lower.
proof fn lemma_box(
    c: Canvas,
    ops: Seq<OpView>,
    a: Area,
    title: Seq<char>,
    pair: Pair,
    title2: Seq<char>,
    border: Pair,
)
    ensures
        grew(ops, painter::with_box(c, ops, a, title, 0, pair, title2, border)),
        screen::on_canvas(c, a) && a.w > 2 && a.h >= 2 && title2.len() > 0 ==> {
            let after = painter::with_box(c, ops, a, title, 0, pair, title2, border);
            let room = (c.width - a.x - 2) as nat;
            &&& screen::reads_at(after, a.y, a.x + 2, text::clipped(" "@ + title + " "@, room))
            &&& screen::reads_at(
                after,
                a.y + a.h - 1,
                a.x + 2,
                text::clipped(" "@ + title2 + " "@, room),
            )
        },
{
    if a.h >= 2 && a.w >= 2 {
        let style = painter::border_style(c, border);
        let line = text::repeated('─', (a.w - 2) as nat);
        let top = painter::with_text(c, ops, a.y, a.x, "┌"@ + line + "┐"@, style);
        let ends = painter::with_text(c, top, a.y + a.h - 1, a.x, "└"@ + line + "┘"@, style);
        let sides = painter::with_sides(c, ends, a, style, a.h - 1);
        lemma_sides(c, ends, a, style, a.h - 1);
        let bold = theme::styled(pair, true, false);
        let named = painter::with_title(c, sides, a.y, a.x, 0, title, pair);
        screen::lemma_text_added(c, sides, a.y, a.x + 2, " "@ + title + " "@, bold);
        screen::lemma_text_added(c, named, a.y + a.h - 1, a.x + 2, " "@ + title2 + " "@, bold);
    }
}

proof fn lemma_stats(
    c: Canvas,
    ops: Seq<OpView>,
    y0: int,
    x: int,
    w: nat,
    rows: Seq<(Seq<char>, Pair, Seq<char>)>,
    n: int,
)
    ensures
        grew(ops, panels::with_stats(c, ops, y0, x, w, rows, n)),
    decreases n,
{
    if n > 0 {
        lemma_stats(c, ops, y0, x, w, rows, n - 1);
    }
}

proof fn lemma_divider(c: Canvas, ops: Seq<OpView>, y: int, x: int, n: int)
    ensures
        grew(ops, panels::with_divider(c, ops, y, x, n)),
    decreases n,
{
    if n > 0 {
        lemma_divider(c, ops, y, x, n - 1);
    }
}

proof fn lemma_sparks(ops: Seq<OpView>, per_request: bool, y: int, x: int, w: int, n: int)
    ensures
        grew(ops, panels::with_sparks(ops, per_request, y, x, w, n)),
    decreases n,
{
    if n > 0 {
        lemma_sparks(ops, per_request, y, x, w, n - 1);
    }
}

proof fn lemma_latency_rows(c: Canvas, ops: Seq<OpView>, a: Area, t: PerfTexts, n: int)
    ensures
        grew(ops, panels::with_latency_rows(c, ops, a, t, n)),
    decreases n,
{
    if n > 0 {
        lemma_latency_rows(c, ops, a, t, n - 1);
    }
}

proof fn lemma_averages(c: Canvas, ops: Seq<OpView>, a: Area, t: LoadavgTexts, n: int)
    ensures
        grew(ops, panels::with_averages(c, ops, a, t, n)),
    decreases n,
{
    if n > 0 {
        lemma_averages(c, ops, a, t, n - 1);
    }
}

proof fn lemma_feed_rows<F>(
    c: Canvas,
    ops: Seq<OpView>,
    a: Area,
    entries: Seq<MergedLogEntry<F>>,
    texts: Seq<FeedTexts>,
    n: int,
)
    ensures
        grew(ops, panels::with_feed_rows(c, ops, a, entries, texts, n)),
    decreases n,
{
    if n > 0 {
        lemma_feed_rows(c, ops, a, entries, texts, n - 1);
    }
}

/// The title of the panel with the given id.
pub open spec fn title_of(id: Seq<char>) -> Seq<char> {
    if id == "loadavg"@ {
        "1·5·15"@
    } else {
        id
    }
}

/// What the panel with the given id says in its lower line.
pub open spec fn subtitle_of(id: Seq<char>) -> Seq<char> {
    if id == "throughput"@ {
        "tok/s"@
    } else if id == "requests"@ {
        "activity"@
    } else if id == "perf"@ {
        "recent avg"@
    } else {
        "windowed avg"@
    }
}

/// The panels that there are.
pub open spec fn is_panel(id: Seq<char>) -> bool {
    ||| id == "throughput"@
    ||| id == "requests"@
    ||| id == "perf"@
    ||| id == "loadavg"@
}

/// The area has both titles of the panel with the given id.
pub open spec fn titled(c: Canvas, ops: Seq<OpView>, a: Area, id: Seq<char>) -> bool {
    let room = (c.width - a.x - 2) as nat;
    let above = text::clipped(" "@ + title_of(id) + " "@, room);
    let below = text::clipped(" "@ + subtitle_of(id) + " "@, room);
    &&& screen::reads_at(ops, a.y, a.x + 2, above)
    &&& screen::reads_at(ops, a.y + a.h - 1, a.x + 2, below)
}

proof fn lemma_panel<F>(
    c: Canvas,
    ops: Seq<OpView>,
    id: Seq<char>,
    d: Drawing,
    a: Area,
    t: PanelTexts,
    snap: Snapshot<F>,
)
    requires
        registry::drawing_named(id) == Some(d),
    ensures
        grew(ops, frame::with_panel(c, ops, d, a, t, snap)),
        screen::on_canvas(c, a) && a.w > 2 && a.h >= 2 ==> titled(
            c,
            frame::with_panel(c, ops, d, a, t, snap),
            a,
            id,
        ),
{
    reveal_strlit("throughput");
    reveal_strlit("requests");
    reveal_strlit("perf");
    reveal_strlit("loadavg");
    reveal_strlit("tok/s");
    reveal_strlit("activity");
    reveal_strlit("recent avg");
    reveal_strlit("windowed avg");
    let inner = painter::inner_area(a);
    let after = frame::with_panel(c, ops, d, a, t, snap);
    let title = title_of(id);
    let below = subtitle_of(id);
    let border = match d {
        Drawing::Throughput => Pair::BoxThru,
        Drawing::Requests => Pair::BoxReq,
        Drawing::Perf => Pair::BoxLat,
        Drawing::Loadavg => Pair::BoxCache,
    };
    let boxed = painter::with_box(c, ops, a, title, 0, Pair::Title, below, border);
    lemma_box(c, ops, a, title, Pair::Title, below, border);
    match d {
        Drawing::Throughput => lemma_throughput(c, boxed, a, t.throughput),
        Drawing::Requests => {
            let f = Area { y: inner.y + 1, h: inner.h - 1, ..inner };
            let lined = painter::with_text(
                c,
                boxed,
                inner.y,
                inner.x,
                text::repeated('─', inner.w as nat),
                theme::styled(Pair::Div, false, false),
            );
            let headed = panels::with_feed_head(c, lined, f);
            let es = snap.merged_log@;
            lemma_feed_rows(
                c,
                headed,
                f,
                es,
                t.feed@,
                panels::at_most(es.len() as int, f.h - 1),
            );
        },
        Drawing::Perf => lemma_perf(c, boxed, a, t.perf),
        Drawing::Loadavg => {
            let w = inner.w - panels::number_width(inner.w) * 4;
            let named = painter::with_text(
                c,
                boxed,
                inner.y,
                inner.x,
                text::clipped("metric"@, w as nat),
                theme::styled(Pair::Dim, false, true),
            );
            let heads = seq!["now"@, "1m"@, "5m"@, "15m"@];
            let headed = panels::with_cells(c, named, inner, inner.y, heads, false);
            assert(grew(named, headed));
            lemma_averages(
                c,
                headed,
                inner,
                t.loadavg,
                panels::at_most(panels::LOADAVG_COUNT as int, inner.h - 1),
            );
        },
    }
    assert(grew(boxed, after));
    if screen::on_canvas(c, a) && a.w > 2 && a.h >= 2 {
        let room = (c.width - a.x - 2) as nat;
        let upper = text::clipped(" "@ + title + " "@, room);
        let lower = text::clipped(" "@ + below + " "@, room);
        lemma_still_reads(boxed, after, a.y, a.x + 2, upper);
        lemma_still_reads(boxed, after, a.y + a.h - 1, a.x + 2, lower);
    }
}

/// What the throughput panel draws comes after its box.
proof fn lemma_throughput(c: Canvas, boxed: Seq<OpView>, a: Area, t: panels::ThroughputTexts)
    ensures
        forall|ops: Seq<OpView>|
            boxed == painter::with_box(
                c,
                ops,
                a,
                "throughput"@,
                0,
                Pair::Title,
                "tok/s"@,
                Pair::BoxThru,
            ) ==> grew(boxed, #[trigger] panels::with_throughput(c, ops, a, t, 0)),
{
    let inner = painter::inner_area(a);
    let chart_w = inner.w - panels::side_width(inner.w, 3, 18, 24) - 1;
    let none = Seq::<char>::empty();
    let left = Area { w: chart_w, ..inner };
    let charted = panels::with_mirror(c, boxed, left, "gen_tok_s"@, none, "prompt_tok_s"@, none);
    lemma_divider(c, charted, inner.y, inner.x + chart_w, inner.h);
    let divided = panels::with_divider(c, charted, inner.y, inner.x + chart_w, inner.h);
    lemma_stats(
        c,
        divided,
        inner.y,
        inner.x + chart_w + 2,
        (inner.w - chart_w - 2) as nat,
        panels::throughput_rows(t),
        panels::at_most(4, inner.h),
    );
}

/// What the perf panel draws comes after its box.
proof fn lemma_perf(c: Canvas, boxed: Seq<OpView>, a: Area, t: PerfTexts)
    ensures
        forall|ops: Seq<OpView>|
            boxed == painter::with_box(
                c,
                ops,
                a,
                "perf"@,
                0,
                Pair::Title,
                "recent avg"@,
                Pair::BoxLat,
            ) ==> grew(boxed, #[trigger] panels::with_perf(c, ops, a, t, 0)),
{
    let inner = painter::inner_area(a);
    let chart_w = inner.w - panels::side_width(inner.w, 4, 12, 18) - 1;
    lemma_latency_rows(c, boxed, inner, t, panels::at_most(4, inner.h));
    lemma_divider(c, boxed, inner.y, inner.x + chart_w, inner.h);
    let divided = panels::with_divider(c, boxed, inner.y, inner.x + chart_w, inner.h);
    let m = panels::at_most(4, inner.h);
    lemma_sparks(divided, false, inner.y, inner.x, chart_w, m);
    let sparks = panels::with_sparks(divided, false, inner.y, inner.x, chart_w, m);
    let ruled = if inner.h > 5 {
        painter::with_text(
            c,
            sparks,
            inner.y + 5,
            inner.x,
            panels::rule_text("per-request"@, chart_w),
            theme::styled(Pair::Div, false, false),
        )
    } else {
        sparks
    };
    let n = panels::shown_requests(inner.h);
    lemma_sparks(ruled, true, inner.y + 6, inner.x, chart_w, n);
    let all = panels::with_sparks(ruled, true, inner.y + 6, inner.x, chart_w, n);
    let width = (inner.w - chart_w - 2) as nat;
    let x = inner.x + chart_w + 2;
    lemma_stats(c, all, inner.y, x, width, panels::latency_stats(t), m);
    let above = panels::with_stats(c, all, inner.y, x, width, panels::latency_stats(t), m);
    lemma_stats(c, above, inner.y + 6, x, width, panels::request_stats(t, n), n);
}

proof fn lemma_panels<F>(
    c: Canvas,
    ops: Seq<OpView>,
    es: Seq<(Seq<char>, Area)>,
    t: PanelTexts,
    snap: Snapshot<F>,
    n: int,
)
    requires
        n <= es.len(),
    ensures
        grew(ops, frame::with_panels(c, ops, es, t, snap, n)),
        forall|i: int| #![trigger es[i]]
            0 <= i < n && is_panel(es[i].0) && screen::on_canvas(c, es[i].1) && es[i].1.w > 2
                && es[i].1.h >= 2 ==> titled(
                c,
                frame::with_panels(c, ops, es, t, snap, n),
                es[i].1,
                es[i].0,
            ),
    decreases n,
{
    if n > 0 {
        lemma_panels(c, ops, es, t, snap, n - 1);
        let before = frame::with_panels(c, ops, es, t, snap, n - 1);
        let after = frame::with_panels(c, ops, es, t, snap, n);
        let (id, a) = es[n - 1];
        if let Some(d) = registry::drawing_named(id) {
            lemma_panel(c, before, id, d, a, t, snap);
        }
        assert(grew(before, after));
        assert forall|i: int| #![trigger es[i]]
            0 <= i < n && is_panel(es[i].0) && screen::on_canvas(c, es[i].1) && es[i].1.w > 2
                && es[i].1.h >= 2 implies titled(c, after, es[i].1, es[i].0) by {
            if i < n - 1 {
                let (id, a) = es[i];
                assert(titled(c, before, a, id));
                let room = (c.width - a.x - 2) as nat;
                let upper = text::clipped(" "@ + title_of(id) + " "@, room);
                let lower = text::clipped(" "@ + subtitle_of(id) + " "@, room);
                lemma_still_reads(before, after, a.y, a.x + 2, upper);
                lemma_still_reads(before, after, a.y + a.h - 1, a.x + 2, lower);
            }
        }
    }
}

proof fn lemma_blanks(c: Canvas, ops: Seq<OpView>, a: Area, n: int)
    ensures
        grew(ops, frame::with_blanks(c, ops, a, n)),
    decreases n,
{
    if n > 0 {
        lemma_blanks(c, ops, a, n - 1);
    }
}

proof fn lemma_help_lines(c: Canvas, ops: Seq<OpView>, inner: Area, n: int)
    ensures
        grew(ops, frame::with_help_lines(c, ops, inner, n)),
    decreases n,
{
    if n > 0 {
        lemma_help_lines(c, ops, inner, n - 1);
    }
}

/// In a frame, each panel is drawn in the area that it was given: its titles
/// stand in the upper and the lower line of that area.
pub proof fn law_panels_stand_in_their_areas<F>(
    c: Canvas,
    ops: Seq<OpView>,
    lines: int,
    cols: int,
    es: Seq<(Seq<char>, Area)>,
    t: PanelTexts,
    snap: Snapshot<F>,
    k: Controls,
    o: Overlays,
    i: int,
)
    requires
        !layout::is_too_small(lines, cols),
        0 <= i < es.len(),
        is_panel(es[i].0),
        screen::on_canvas(c, es[i].1),
        es[i].1.w > 2,
        es[i].1.h >= 2,
    ensures
        titled(
            c,
            frame::with_frame(c, ops, lines, cols, es, t, snap, k, o),
            es[i].1,
            es[i].0,
        ),
{
    let drawn = frame::with_panels(c, ops, es, t, snap, es.len() as int);
    lemma_panels(c, ops, es, t, snap, es.len() as int);
    let after = frame::with_frame(c, ops, lines, cols, es, t, snap, k, o);
    let hi = theme::styled(Pair::Hi, true, false);
    let label = frame::view_label(k.active_view as int);
    let viewed = if o.view_toast {
        frame::with_centred(c, drawn, 0, cols, label, hi)
    } else {
        drawn
    };
    let named = if o.backend_toast {
        frame::with_centred(c, viewed, 1, cols, frame::backend_label(k.backend), hi)
    } else {
        viewed
    };
    let h = frame::help_area(lines, cols);
    let none = Seq::<char>::empty();
    let blank = frame::with_blanks(c, named, h, h.h);
    lemma_blanks(c, named, h, h.h);
    lemma_box(c, blank, h, "help"@, Pair::Title, none, Pair::Div);
    let boxed = painter::with_box(c, blank, h, "help"@, 0, Pair::Title, none, Pair::Div);
    let n = frame::help_lines().len() as int;
    lemma_help_lines(c, boxed, painter::inner_area(h), n);
    assert(grew(drawn, after));
    let (id, a) = es[i];
    let room = (c.width - a.x - 2) as nat;
    let upper = text::clipped(" "@ + title_of(id) + " "@, room);
    let lower = text::clipped(" "@ + subtitle_of(id) + " "@, room);
    lemma_still_reads(drawn, after, a.y, a.x + 2, upper);
    lemma_still_reads(drawn, after, a.y + a.h - 1, a.x + 2, lower);
}

proof fn lemma_at_most_longest(ls: Seq<Seq<char>>, i: int)
    requires
        0 <= i < ls.len(),
    ensures
        ls[i].len() <= frame::longest(ls),
    decreases ls.len(),
{
    if i < ls.len() - 1 {
        lemma_at_most_longest(ls.drop_last(), i);
        assert(ls.drop_last()[i] == ls[i]);
    }
}

proof fn lemma_help_line(c: Canvas, ops: Seq<OpView>, inner: Area, n: int, i: int)
    requires
        0 <= i < n,
        0 <= inner.y && inner.y + n <= c.height,
        0 <= inner.x && inner.x + 1 < c.width,
        frame::help_lines()[i].len() <= c.width - inner.x - 1,
    ensures
        screen::reads_at(
            frame::with_help_lines(c, ops, inner, n),
            inner.y + i,
            inner.x + 1,
            frame::help_lines()[i],
        ),
    decreases n,
{
    let before = frame::with_help_lines(c, ops, inner, n - 1);
    let pair = if n == 1 {
        Pair::Title
    } else {
        Pair::Dim
    };
    screen::lemma_text_added(
        c,
        before,
        inner.y + n - 1,
        inner.x + 1,
        frame::help_lines()[n - 1],
        theme::styled(pair, false, false),
    );
    if i < n - 1 {
        lemma_help_line(c, ops, inner, n - 1, i);
    }
}

/// Over the panels of a frame, each toast that is up stands in the middle of its
/// own line, and the help, where it is shown, stands there line by line.
pub proof fn law_overlays_are_shown<F>(
    c: Canvas,
    ops: Seq<OpView>,
    lines: int,
    cols: int,
    es: Seq<(Seq<char>, Area)>,
    t: PanelTexts,
    snap: Snapshot<F>,
    k: Controls,
    o: Overlays,
) -> (r: (int, int))
    requires
        c.width == cols,
        c.height == lines,
        cols >= 62,
        lines >= 20,
        k.active_view == 0,
    ensures
        ({
            let after = frame::with_frame(c, ops, lines, cols, es, t, snap, k, o);
            let backend = frame::backend_label(k.backend);
            let view = " 1/1  overview "@;
            &&& o.view_toast ==> screen::reads_at(after, 0, (cols - view.len()) / 2, view)
            &&& o.backend_toast ==> screen::reads_at(
                after,
                1,
                (cols - backend.len()) / 2,
                backend,
            )
            &&& k.show_help ==> forall|i: int| #![trigger frame::help_lines()[i]]
                0 <= i < 14 ==> screen::reads_at(after, r.0 + i, r.1, frame::help_lines()[i])
        }),
{
    let drawn = frame::with_panels(c, ops, es, t, snap, es.len() as int);
    let noted = if es.len() == 0 {
        frame::with_centred(
            c,
            drawn,
            lines / 2,
            cols,
            "no panels available in this view"@,
            theme::styled(Pair::Dim, false, true),
        )
    } else {
        drawn
    };
    let after = frame::with_frame(c, ops, lines, cols, es, t, snap, k, o);
    let hi = theme::styled(Pair::Hi, true, false);
    let label = frame::view_label(0);
    lemma_labels(k.backend);
    let viewed = if o.view_toast {
        frame::with_centred(c, noted, 0, cols, label, hi)
    } else {
        noted
    };
    let backend = frame::backend_label(k.backend);
    let named = if o.backend_toast {
        frame::with_centred(c, viewed, 1, cols, backend, hi)
    } else {
        viewed
    };
    let at = frame::centred(cols, label.len() as int);
    screen::lemma_text_added(c, noted, 0, at, label, hi);
    let at = frame::centred(cols, backend.len() as int);
    screen::lemma_text_added(c, viewed, 1, at, backend, hi);
    let h = frame::help_area(lines, cols);
    let none = Seq::<char>::empty();
    let blank = frame::with_blanks(c, named, h, h.h);
    lemma_blanks(c, named, h, h.h);
    lemma_box(c, blank, h, "help"@, Pair::Title, none, Pair::Div);
    let boxed = painter::with_box(c, blank, h, "help"@, 0, Pair::Title, none, Pair::Div);
    let inner = painter::inner_area(h);
    let n = frame::help_lines().len() as int;
    lemma_help_lines(c, boxed, inner, n);
    assert(grew(named, after));
    if o.view_toast {
        lemma_still_reads(named, after, 0, (cols - label.len()) / 2, label);
    }
    if o.backend_toast {
        lemma_still_reads(named, after, 1, (cols - backend.len()) / 2, backend);
    }
    if k.show_help {
        frame::lemma_help_fits();
        assert forall|i: int| #![trigger frame::help_lines()[i]]
            0 <= i < 14 implies screen::reads_at(
            after,
            inner.y + i,
            inner.x + 1,
            frame::help_lines()[i],
        ) by {
            lemma_at_most_longest(frame::help_lines(), i);
            lemma_help_line(c, boxed, inner, n, i);
        }
    }
    (inner.y, inner.x + 1)
}

proof fn lemma_labels(k: BackendKind)
    ensures
        frame::view_label(0) == " 1/1  overview "@,
        frame::view_label(0).len() == 15,
        frame::backend_label(k).len() <= 20,
{
    reveal_strlit(" ");
    reveal_strlit("/");
    reveal_strlit("  ");
    reveal_strlit("overview");
    reveal_strlit(" 1/1  overview ");
    reveal_strlit(" backend: ");
    reveal_strlit("auto");
    reveal_strlit("vllm");
    reveal_strlit("sglang");
    assert(text::decimal(1) =~= seq!['1']);
    assert(frame::view_label(0) =~= " 1/1  overview "@);
}

} // verus!
