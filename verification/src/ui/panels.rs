//! The bordered panels, square-box style. Each draws into a [`Rect`] on screen.
//!
//! What a panel shows of the history comes as text, and its charts name the
//! series that they show; where everything goes is decided here.

use vstd::prelude::*;

use crate::state::{MergedLogEntry, Snapshot};
use crate::text;
use crate::text::{align_left, align_right, clip, join, repeat, signed_text, split_words};
use crate::ui::layout::{Area, Rect};
use crate::ui::painter;
use crate::ui::painter::{Canvas, OpView, Painter, Scale, REACH};
use crate::ui::theme;
use crate::ui::theme::Pair;
use crate::ui::cells;
use crate::ui::cells::duration_line;

verus! {

/// Within a panel that is within reach.
spec fn inner_reach(a: Area) -> bool {
    &&& -REACH <= a.y <= REACH + 2 && -REACH <= a.x <= REACH + 2
    &&& a.h <= REACH && a.w <= REACH
}

/// A dotted line with a label in it, `width` cells wide.
pub open spec fn rule_text(label: Seq<char>, width: int) -> Seq<char> {
    if width <= 0 {
        Seq::empty()
    } else {
        let head = "┄ "@ + label + " "@;
        if head.len() < width {
            head + text::repeated('┄', (width - head.len()) as nat)
        } else {
            head.take(width)
        }
    }
}

fn rule(label: &str, width: i32) -> (r: String)
    ensures
        r@ == rule_text(label@, width as int),
{
    if width <= 0 {
        return String::new();
    }
    let w = width as usize;
    let mut s = "┄ ".to_owned().concat(label).concat(" ");
    let cur = s.as_str().unicode_len();
    if cur < w {
        let rest = repeat('┄', w - cur);
        s.append(rest.as_str());
        s
    } else {
        let r = clip(s.as_str(), w);
        assert(r@ =~= s@.take(w as int));
        r
    }
}

/// What has been drawn once a chart of a whole area is added.
pub open spec fn with_filled(
    ops: Seq<OpView>,
    a: Area,
    series: Seq<char>,
    scale: Scale,
    flip: bool,
    pair: Pair,
) -> Seq<OpView> {
    if a.h <= 0 || a.w <= 0 {
        ops
    } else {
        painter::with_chart(ops, a, series, scale, flip, theme::styled(pair, false, false))
    }
}

fn draw_chart(
    p: &mut Painter,
    inner: Rect,
    series: &'static str,
    scale: Scale,
    flip: bool,
    pair: Pair,
)
    ensures
        final(p).canvas() == old(p).canvas(),
        final(p)@ == with_filled(old(p)@, inner@, series@, scale, flip, pair),
{
    if inner.h <= 0 || inner.w <= 0 {
        return ;
    }
    let style = p.attr(pair, false, false);
    p.chart(inner, series, scale, flip, style);
}

/// The upper half of a mirrored chart.
pub open spec fn upper_half(a: Area) -> Area {
    Area {
        h: if a.h / 2 > 1 {
            a.h / 2
        } else {
            1
        },
        ..a
    }
}

pub open spec fn lower_half(a: Area) -> Area {
    Area { y: a.y + upper_half(a).h, h: a.h - upper_half(a).h, ..a }
}

/// What has been drawn once a mirrored chart of two series is added: the
/// first grows up from the centre line, the second down from it, and labels
/// that are not empty stand in the corners.
pub open spec fn with_mirror(
    c: Canvas,
    ops: Seq<OpView>,
    a: Area,
    top: Seq<char>,
    top_label: Seq<char>,
    bottom: Seq<char>,
    bottom_label: Seq<char>,
) -> Seq<OpView> {
    if a.h <= 0 || a.w <= 0 {
        ops
    } else {
        let scale = Scale::Peak { floor: 1_000_000_000 };
        let up = with_filled(ops, upper_half(a), top, scale, false, Pair::Cyan);
        let down = with_filled(up, lower_half(a), bottom, scale, true, Pair::Magenta);
        let named = if top_label.len() == 0 {
            down
        } else {
            painter::with_text(
                c,
                down,
                a.y,
                a.x,
                " "@ + top_label + " "@,
                theme::styled(Pair::Purple, true, false),
            )
        };
        if lower_half(a).h <= 0 || bottom_label.len() == 0 {
            named
        } else {
            painter::with_text(
                c,
                named,
                a.y + a.h - 1,
                a.x,
                " "@ + bottom_label + " "@,
                theme::styled(Pair::Pink, true, false),
            )
        }
    }
}

/// A mirrored chart of two single series sharing a centre line.
///
/// `top` grows up from the centre, `bottom` grows down from it; each half scales
/// to its own max. The current value of each is a bold corner label.
fn draw_mirror_chart(
    p: &mut Painter,
    rect: Rect,
    top: &'static str,
    top_label: &str,
    bottom: &'static str,
    bottom_label: &str,
)
    requires
        inner_reach(rect@),
    ensures
        final(p).canvas() == old(p).canvas(),
        final(p)@ == with_mirror(
            old(p).canvas(),
            old(p)@,
            rect@,
            top@,
            top_label@,
            bottom@,
            bottom_label@,
        ),
{
    if rect.h <= 0 || rect.w <= 0 {
        return ;
    }
    let top_h = if rect.h / 2 > 1 {
        rect.h / 2
    } else {
        1
    };
    let bot_h = rect.h - top_h;
    let scale = Scale::Peak { floor: 1_000_000_000 };
    let upper = Rect::new(rect.y, rect.x, top_h, rect.w);
    assert(upper@ =~= upper_half(rect@));
    draw_chart(p, upper, top, scale, false, Pair::Cyan);
    let lower = Rect::new(rect.y + top_h, rect.x, bot_h, rect.w);
    assert(lower@ =~= lower_half(rect@));
    draw_chart(p, lower, bottom, scale, true, Pair::Magenta);
    if top_label.unicode_len() > 0 {
        let label = " ".to_owned().concat(top_label).concat(" ");
        let style = p.attr(Pair::Purple, true, false);
        p.text(rect.y, rect.x, label.as_str(), style);
    }
    if bot_h > 0 && bottom_label.unicode_len() > 0 {
        let label = " ".to_owned().concat(bottom_label).concat(" ");
        let style = p.attr(Pair::Pink, true, false);
        p.text(rect.y + rect.h - 1, rect.x, label.as_str(), style);
    }
}

pub open spec fn stat_views(rows: Seq<(&str, Pair, &str)>) -> Seq<(Seq<char>, Pair, Seq<char>)> {
    rows.map_values(|r: (&str, Pair, &str)| (r.0@, r.1, r.2@))
}

/// What has been drawn once the first `n` rows of a stats column are added:
/// each has a label on the left and a value right-aligned within `rw`.
pub open spec fn with_stats(
    c: Canvas,
    ops: Seq<OpView>,
    y0: int,
    rx: int,
    rw: nat,
    rows: Seq<(Seq<char>, Pair, Seq<char>)>,
    n: int,
) -> Seq<OpView>
    decreases n,
{
    if n <= 0 {
        ops
    } else {
        let (label, pair, value) = rows[n - 1];
        let above = with_stats(c, ops, y0, rx, rw, rows, n - 1);
        let named = painter::with_text(
            c,
            above,
            y0 + n - 1,
            rx,
            text::clipped(label, rw),
            theme::styled(Pair::Dim, false, false),
        );
        let shown = text::clipped(value, rw);
        painter::with_text(
            c,
            named,
            y0 + n - 1,
            rx + rw - shown.len(),
            shown,
            theme::styled(pair, true, false),
        )
    }
}

pub open spec fn at_most(n: int, limit: int) -> int {
    if n < limit {
        n
    } else {
        limit
    }
}

/// Render a stats column: each row is a label on the left
/// and a colour-coded value right-aligned within `rw`.
fn draw_stat_column(
    p: &mut Painter,
    y0: i32,
    h: i32,
    rx: i32,
    rw: i32,
    rows: &Vec<(&str, Pair, &str)>,
)
    requires
        -REACH <= y0 <= REACH + 7,
        0 <= h <= REACH,
        -REACH <= rx <= 2 * REACH + 4,
        0 <= rw <= REACH,
    ensures
        final(p).canvas() == old(p).canvas(),
        final(p)@ == with_stats(
            old(p).canvas(),
            old(p)@,
            y0 as int,
            rx as int,
            rw as nat,
            stat_views(rows@),
            at_most(rows@.len() as int, h as int),
        ),
{
    let ghost c = p.canvas();
    let ghost start = p@;
    let ghost views = stat_views(rows@);
    let n = if rows.len() < h as usize {
        rows.len()
    } else {
        h as usize
    };
    for i in 0..n
        invariant
            -REACH <= y0 <= REACH + 7,
            -REACH <= rx <= 2 * REACH + 4,
            0 <= rw <= REACH,
            n <= h <= REACH,
            n <= rows@.len(),
            views == stat_views(rows@),
            p.canvas() == c,
            p@ == with_stats(c, start, y0 as int, rx as int, rw as nat, views, i as int),
    {
        let (label, vpair, value) = rows[i];
        assert(views[i as int] == (label@, vpair, value@));
        let y = y0 + i as i32;
        let dim = p.attr(Pair::Dim, false, false);
        let name = clip(label, rw as usize);
        p.text(y, rx, name.as_str(), dim);
        let vs = clip(value, rw as usize);
        let pad = rw - vs.as_str().unicode_len() as i32;
        let style = p.attr(vpair, true, false);
        p.text(y, rx + pad, vs.as_str(), style);
    }
}

/// What has been drawn once the first `n` cells of a dividing line are added.
pub open spec fn with_divider(c: Canvas, ops: Seq<OpView>, y: int, x: int, n: int) -> Seq<OpView>
    decreases n,
{
    if n <= 0 {
        ops
    } else {
        painter::with_text(
            c,
            with_divider(c, ops, y, x, n - 1),
            y + n - 1,
            x,
            "│"@,
            theme::styled(Pair::Div, false, false),
        )
    }
}

fn draw_divider(p: &mut Painter, y: i32, x: i32, n: i32)
    requires
        -REACH <= y <= REACH + 1,
        0 <= n <= REACH,
    ensures
        final(p).canvas() == old(p).canvas(),
        final(p)@ == with_divider(old(p).canvas(), old(p)@, y as int, x as int, n as int),
{
    let ghost c = p.canvas();
    let ghost start = p@;
    let style = p.attr(Pair::Div, false, false);
    let mut i: i32 = 0;
    while i < n
        invariant
            -REACH <= y <= REACH + 1,
            0 <= i <= n <= REACH,
            style == theme::styled(Pair::Div, false, false),
            p.canvas() == c,
            p@ == with_divider(c, start, y as int, x as int, i as int),
        decreases n - i,
    {
        p.text(y + i, x, "│", style);
        i = i + 1;
    }
}

/// What the throughput panel says: each rate now and at its peak.
pub struct ThroughputTexts {
    pub gen_now: String,
    pub gen_peak: String,
    pub prompt_now: String,
    pub prompt_peak: String,
}

/// The width of the stats beside a chart, of the given share of the panel.
pub open spec fn side_width(w: int, share: int, least: int, most: int) -> int {
    let part = if w / share > least {
        w / share
    } else {
        least
    };
    if part < most {
        part
    } else {
        most
    }
}

pub open spec fn throughput_rows(t: ThroughputTexts) -> Seq<(Seq<char>, Pair, Seq<char>)> {
    seq![
        ("gen now"@, Pair::Dim, t.gen_now@),
        ("gen peak"@, Pair::Dim, t.gen_peak@),
        ("prompt now"@, Pair::Dim, t.prompt_now@),
        ("prompt peak"@, Pair::Dim, t.prompt_peak@),
    ]
}

/// What has been drawn once the throughput panel is added.
pub open spec fn with_throughput(
    c: Canvas,
    ops: Seq<OpView>,
    a: Area,
    t: ThroughputTexts,
    num: int,
) -> Seq<OpView> {
    let boxed = painter::with_box(
        c,
        ops,
        a,
        "throughput"@,
        num,
        Pair::Title,
        "tok/s"@,
        Pair::BoxThru,
    );
    let inner = painter::inner_area(a);
    let chart_w = inner.w - side_width(inner.w, 3, 18, 24) - 1;
    if inner.h <= 0 {
        boxed
    } else if chart_w < 8 {
        with_mirror(
            c,
            boxed,
            inner,
            "gen_tok_s"@,
            "gen "@ + t.gen_now@,
            "prompt_tok_s"@,
            "prompt "@ + t.prompt_now@,
        )
    } else {
        let none = Seq::<char>::empty();
        let charted = with_mirror(
            c,
            boxed,
            Area { w: chart_w, ..inner },
            "gen_tok_s"@,
            none,
            "prompt_tok_s"@,
            none,
        );
        let divided = with_divider(c, charted, inner.y, inner.x + chart_w, inner.h);
        with_stats(
            c,
            divided,
            inner.y,
            inner.x + chart_w + 2,
            (inner.w - chart_w - 2) as nat,
            throughput_rows(t),
            at_most(4, inner.h),
        )
    }
}

/// The throughput panel: generation above, prompts below a shared centre line,
/// with the rates beside the chart, or in its corners where it is narrow.
pub fn draw_throughput(p: &mut Painter, rect: Rect, t: &ThroughputTexts, num: i32)
    requires
        painter::within_reach(rect@),
    ensures
        final(p).canvas() == old(p).canvas(),
        final(p)@ == with_throughput(old(p).canvas(), old(p)@, rect@, *t, num as int),
{
    let inner = p.box_(rect, "throughput", num, Pair::Title, "tok/s", Pair::BoxThru);
    if inner.h <= 0 {
        return ;
    }
    let third = inner.w / 3;
    let wide = if third > 18 {
        third
    } else {
        18
    };
    let right_w = if wide < 24 {
        wide
    } else {
        24
    };
    let chart_w = inner.w - right_w - 1;
    if chart_w < 8 {
        // too narrow to split; chart takes the whole panel
        let gen = "gen ".to_owned().concat(t.gen_now.as_str());
        let prompt = "prompt ".to_owned().concat(t.prompt_now.as_str());
        draw_mirror_chart(
            p,
            inner,
            "gen_tok_s",
            gen.as_str(),
            "prompt_tok_s",
            prompt.as_str(),
        );
        return ;
    }
    proof {
        reveal_strlit("");
        assert(""@ =~= Seq::<char>::empty());
    }
    let left = Rect::new(inner.y, inner.x, inner.h, chart_w);
    assert(left@ =~= Area { w: chart_w as int, ..inner@ });
    draw_mirror_chart(p, left, "gen_tok_s", "", "prompt_tok_s", "");
    let div_x = inner.x + chart_w;
    draw_divider(p, inner.y, div_x, inner.h);
    let rows: Vec<(&str, Pair, &str)> = vec![
        ("gen now", Pair::Dim, t.gen_now.as_str()),
        ("gen peak", Pair::Dim, t.gen_peak.as_str()),
        ("prompt now", Pair::Dim, t.prompt_now.as_str()),
        ("prompt peak", Pair::Dim, t.prompt_peak.as_str()),
    ];
    assert(stat_views(rows@) =~= throughput_rows(*t));
    draw_stat_column(p, inner.y, inner.h, div_x + 2, inner.w - chart_w - 2, &rows);
}

/// A metric of the perf panel: its label, its series and its color.
pub open spec fn latency_metric(i: int) -> (Seq<char>, Seq<char>, Pair) {
    if i == 0 {
        ("TTFT"@, "ttft"@, Pair::Cyan)
    } else if i == 1 {
        ("TPOT"@, "tpot"@, Pair::Green)
    } else if i == 2 {
        ("e2e"@, "e2e"@, Pair::Magenta)
    } else {
        ("queue"@, "queue_time"@, Pair::Dim)
    }
}

pub open spec fn request_metric(i: int) -> (Seq<char>, Seq<char>, Pair) {
    if i == 0 {
        ("p-tok"@, "req_prompt_tok"@, Pair::Cyan)
    } else if i == 1 {
        ("g-tok"@, "req_gen_tok"@, Pair::Green)
    } else if i == 2 {
        ("prefill"@, "req_prefill"@, Pair::Yellow)
    } else {
        ("decode"@, "req_decode"@, Pair::Purple)
    }
}

/// A metric of either list.
pub open spec fn metric(per_request: bool, i: int) -> (Seq<char>, Seq<char>, Pair) {
    if per_request {
        request_metric(i)
    } else {
        latency_metric(i)
    }
}

/// A metric of the perf panel: its label, its series and its color.
pub fn perf_metric(per_request: bool, i: usize) -> (r: (&'static str, &'static str, Pair))
    ensures
        (r.0@, r.1@, r.2) == metric(per_request, i as int),
{
    if per_request {
        if i == 0 {
            ("p-tok", "req_prompt_tok", Pair::Cyan)
        } else if i == 1 {
            ("g-tok", "req_gen_tok", Pair::Green)
        } else if i == 2 {
            ("prefill", "req_prefill", Pair::Yellow)
        } else {
            ("decode", "req_decode", Pair::Purple)
        }
    } else {
        if i == 0 {
            ("TTFT", "ttft", Pair::Cyan)
        } else if i == 1 {
            ("TPOT", "tpot", Pair::Green)
        } else if i == 2 {
            ("e2e", "e2e", Pair::Magenta)
        } else {
            ("queue", "queue_time", Pair::Dim)
        }
    }
}

/// What the perf panel says: the latencies, the per-request averages, and the
/// cache usage and hit rate in percent.
pub struct PerfTexts {
    pub latencies: Vec<String>,
    pub per_request: Vec<String>,
    pub kv: String,
    pub hit: String,
}

impl PerfTexts {
    /// There is a text for each of the four metrics of both kinds.
    pub open spec fn wf(&self) -> bool {
        self.latencies@.len() == 4 && self.per_request@.len() == 4
    }
}

/// The area of a one-line chart.
pub open spec fn spark_area(y: int, x: int, w: int) -> Area {
    Area { y, x, h: 1, w }
}

/// What has been drawn once one-line charts of the first `n` metrics are added,
/// one below the other.
pub open spec fn with_sparks(
    ops: Seq<OpView>,
    per_request: bool,
    y: int,
    x: int,
    w: int,
    n: int,
) -> Seq<OpView>
    decreases n,
{
    if n <= 0 {
        ops
    } else {
        let (label, series, pair) = metric(per_request, n - 1);
        with_filled(
            with_sparks(ops, per_request, y, x, w, n - 1),
            spark_area(y + n - 1, x, w),
            series,
            Scale::Peak { floor: 1_000_000 },
            false,
            pair,
        )
    }
}

fn draw_sparks(p: &mut Painter, per_request: bool, y: i32, x: i32, w: i32, n: usize)
    requires
        n <= 4,
        -REACH <= y <= 2 * REACH,
    ensures
        final(p).canvas() == old(p).canvas(),
        final(p)@ == with_sparks(
            old(p)@,
            per_request,
            y as int,
            x as int,
            w as int,
            n as int,
        ),
{
    let ghost c = p.canvas();
    let ghost start = p@;
    for i in 0..n
        invariant
            n <= 4,
            -REACH <= y <= 2 * REACH,
            p.canvas() == c,
            p@ == with_sparks(start, per_request, y as int, x as int, w as int, i as int),
    {
        let (_label, series, pair) = perf_metric(per_request, i);
        let line = Rect::new(y + i as i32, x, 1, w);
        assert(line@ =~= spark_area(y + i, x as int, w as int));
        draw_chart(p, line, series, Scale::Peak { floor: 1_000_000 }, false, pair);
    }
}

/// What has been drawn once the first `n` latency rows of a narrow panel are
/// added: label, value and a one-line chart where there is room for it.
pub open spec fn with_latency_rows(
    c: Canvas,
    ops: Seq<OpView>,
    a: Area,
    t: PerfTexts,
    n: int,
) -> Seq<OpView>
    decreases n,
{
    if n <= 0 {
        ops
    } else {
        let (label, series, pair) = latency_metric(n - 1);
        let y = a.y + n - 1;
        let named = painter::with_text(
            c,
            with_latency_rows(c, ops, a, t, n - 1),
            y,
            a.x,
            text::left_aligned(label, 5),
            theme::styled(Pair::Dim, false, false),
        );
        let valued = painter::with_text(
            c,
            named,
            y,
            a.x + 6,
            text::right_aligned(t.latencies@[n - 1]@, 7),
            theme::styled(pair, true, false),
        );
        if a.w - 14 > 2 {
            with_filled(
                valued,
                spark_area(y, a.x + 14, a.w - 14),
                series,
                Scale::Peak { floor: 1_000_000 },
                false,
                pair,
            )
        } else {
            valued
        }
    }
}

/// What has been drawn once the content of a narrow perf panel is added.
pub open spec fn with_perf_stacked(c: Canvas, ops: Seq<OpView>, a: Area, t: PerfTexts) -> Seq<
    OpView,
> {
    let rows = with_latency_rows(c, ops, a, t, at_most(4, a.h));
    if a.h <= 4 {
        rows
    } else {
        let label = "kv "@ + t.kv@ + "%  prefix "@ + t.hit@ + "%"@;
        let ruled = painter::with_text(
            c,
            rows,
            a.y + 4,
            a.x,
            rule_text(label, a.w),
            theme::styled(Pair::Div, false, false),
        );
        with_filled(
            ruled,
            Area { y: a.y + 5, h: a.h - 5, ..a },
            "kv_cache"@,
            Scale::Percent,
            false,
            Pair::Default,
        )
    }
}

/// Narrow-terminal fallback: latency rows with inline sparklines, then the
/// KV-cache chart below.
fn draw_perf_stacked(p: &mut Painter, inner: Rect, t: &PerfTexts)
    requires
        inner_reach(inner@),
        0 < inner.h,
        0 <= inner.w,
        t.wf(),
    ensures
        final(p).canvas() == old(p).canvas(),
        final(p)@ == with_perf_stacked(old(p).canvas(), old(p)@, inner@, *t),
{
    let ghost c = p.canvas();
    let ghost start = p@;
    let n: usize = if inner.h < 4 {
        inner.h as usize
    } else {
        4
    };
    for i in 0..n
        invariant
            inner_reach(inner@),
            n <= 4,
            n <= inner.h,
            0 <= inner.w,
            t.wf(),
            p.canvas() == c,
            p@ == with_latency_rows(c, start, inner@, *t, i as int),
    {
        let (label, series, pair) = perf_metric(false, i);
        let y = inner.y + i as i32;
        let name = align_left(label, 5);
        let dim = p.attr(Pair::Dim, false, false);
        p.text(y, inner.x, name.as_str(), dim);
        let value = align_right(t.latencies[i].as_str(), 7);
        let style = p.attr(pair, true, false);
        p.text(y, inner.x + 6, value.as_str(), style);
        let spark_w = inner.w - 14;
        if spark_w > 2 {
            let line = Rect::new(y, inner.x + 14, 1, spark_w);
            assert(line@ =~= spark_area(y as int, inner.x + 14, inner.w - 14));
            draw_chart(p, line, series, Scale::Peak { floor: 1_000_000 }, false, pair);
        }
    }
    if inner.h <= 4 {
        return ;
    }
    let label = "kv ".to_owned().concat(t.kv.as_str()).concat("%  prefix ").concat(
        t.hit.as_str(),
    ).concat("%");
    let line = rule(label.as_str(), inner.w);
    let div = p.attr(Pair::Div, false, false);
    p.text(inner.y + 4, inner.x, line.as_str(), div);
    let chart = Rect::new(inner.y + 5, inner.x, inner.h - 5, inner.w);
    assert(chart@ =~= Area { y: inner.y + 5, h: inner.h - 5, ..inner@ });
    draw_chart(p, chart, "kv_cache", Scale::Percent, false, Pair::Default);
}

/// How many per-request metrics a panel of the given height shows.
pub open spec fn shown_requests(h: int) -> int {
    if h <= 6 {
        0
    } else {
        at_most(h - 6, 4)
    }
}

pub open spec fn latency_stats(t: PerfTexts) -> Seq<(Seq<char>, Pair, Seq<char>)> {
    Seq::new(4, |i: int| (latency_metric(i).0, Pair::Dim, t.latencies@[i]@))
}

pub open spec fn request_stats(t: PerfTexts, n: int) -> Seq<(Seq<char>, Pair, Seq<char>)> {
    Seq::new(n as nat, |i: int| (request_metric(i).0, Pair::Dim, t.per_request@[i]@))
}

/// What has been drawn once the perf panel is added.
pub open spec fn with_perf(
    c: Canvas,
    ops: Seq<OpView>,
    a: Area,
    t: PerfTexts,
    num: int,
) -> Seq<OpView> {
    let boxed = painter::with_box(
        c,
        ops,
        a,
        "perf"@,
        num,
        Pair::Title,
        "recent avg"@,
        Pair::BoxLat,
    );
    let inner = painter::inner_area(a);
    let chart_w = inner.w - side_width(inner.w, 4, 12, 18) - 1;
    if inner.h <= 0 {
        boxed
    } else if chart_w < 8 {
        with_perf_stacked(c, boxed, inner, t)
    } else {
        let divided = with_divider(c, boxed, inner.y, inner.x + chart_w, inner.h);
        let sparks = with_sparks(
            divided,
            false,
            inner.y,
            inner.x,
            chart_w,
            at_most(4, inner.h),
        );
        let ruled = if inner.h > 5 {
            painter::with_text(
                c,
                sparks,
                inner.y + 5,
                inner.x,
                rule_text("per-request"@, chart_w),
                theme::styled(Pair::Div, false, false),
            )
        } else {
            sparks
        };
        let n = shown_requests(inner.h);
        let all = with_sparks(ruled, true, inner.y + 6, inner.x, chart_w, n);
        let width = (inner.w - chart_w - 2) as nat;
        let above = with_stats(
            c,
            all,
            inner.y,
            inner.x + chart_w + 2,
            width,
            latency_stats(t),
            at_most(4, inner.h),
        );
        with_stats(
            c,
            above,
            inner.y + 6,
            inner.x + chart_w + 2,
            width,
            request_stats(t, n),
            n,
        )
    }
}

/// The perf panel: one sparkline per latency metric, the per-request metrics
/// below them, and the values on the right.
pub fn draw_perf(p: &mut Painter, rect: Rect, t: &PerfTexts, num: i32)
    requires
        painter::within_reach(rect@),
        t.wf(),
    ensures
        final(p).canvas() == old(p).canvas(),
        final(p)@ == with_perf(old(p).canvas(), old(p)@, rect@, *t, num as int),
{
    let inner = p.box_(rect, "perf", num, Pair::Title, "recent avg", Pair::BoxLat);
    if inner.h <= 0 {
        return ;
    }
    let quarter = inner.w / 4;
    let wide = if quarter > 12 {
        quarter
    } else {
        12
    };
    let right_w = if wide < 18 {
        wide
    } else {
        18
    };
    let chart_w = inner.w - right_w - 1;
    if chart_w < 8 {
        draw_perf_stacked(p, inner, t);
        return ;
    }
    let div_x = inner.x + chart_w;
    draw_divider(p, inner.y, div_x, inner.h);

    // Left: one colour-coded sparkline per latency metric (one row each).
    let latencies: usize = if inner.h < 4 {
        inner.h as usize
    } else {
        4
    };
    draw_sparks(p, false, inner.y, inner.x, chart_w, latencies);

    // Per-request section: separator after latency metrics, then sparklines.
    if inner.h > 5 {
        let line = rule("per-request", chart_w);
        let div = p.attr(Pair::Div, false, false);
        p.text(inner.y + 5, inner.x, line.as_str(), div);
    }
    let n: usize = if inner.h <= 6 {
        0
    } else if inner.h - 6 < 4 {
        (inner.h - 6) as usize
    } else {
        4
    };
    draw_sparks(p, true, inner.y + 6, inner.x, chart_w, n);

    // Right: all text rows (aligned with the sparklines on the left).
    let mut rows: Vec<(&str, Pair, &str)> = Vec::new();
    for i in 0..4usize
        invariant
            t.wf(),
            rows@.len() == i,
            forall|j: int|
                0 <= j < i ==> stat_views(rows@)[j] == (
                    latency_metric(j).0,
                    Pair::Dim,
                    (#[trigger] t.latencies@[j])@,
                ),
    {
        let (label, _series, _pair) = perf_metric(false, i);
        rows.push((label, Pair::Dim, t.latencies[i].as_str()));
    }
    assert(stat_views(rows@) =~= latency_stats(*t)) by {
        assert forall|j: int| 0 <= j < 4 implies stat_views(rows@)[j] == latency_stats(*t)[j] by {
            assert(t.latencies@[j]@ == t.latencies@[j]@);
        }
    }
    draw_stat_column(p, inner.y, inner.h, div_x + 2, inner.w - chart_w - 2, &rows);
    let mut below: Vec<(&str, Pair, &str)> = Vec::new();
    for i in 0..n
        invariant
            t.wf(),
            n <= 4,
            below@.len() == i,
            forall|j: int|
                0 <= j < i ==> stat_views(below@)[j] == (
                    request_metric(j).0,
                    Pair::Dim,
                    (#[trigger] t.per_request@[j])@,
                ),
    {
        let (label, _series, _pair) = perf_metric(true, i);
        below.push((label, Pair::Dim, t.per_request[i].as_str()));
    }
    assert(stat_views(below@) =~= request_stats(*t, n as int)) by {
        assert forall|j: int| 0 <= j < n implies stat_views(below@)[j] == request_stats(
            *t,
            n as int,
        )[j] by {
            assert(t.per_request@[j]@ == t.per_request@[j]@);
        }
    }
    draw_stat_column(p, inner.y + 6, n as i32, div_x + 2, inner.w - chart_w - 2, &below);
}

/// How many metrics the windowed-average panel shows.
pub const LOADAVG_COUNT: usize = 9;

/// The label of row `i` of the windowed-average panel.
pub open spec fn loadavg_label(i: int) -> Seq<char> {
    if i == 0 {
        "gen tok/s"@
    } else if i == 1 {
        "prompt tok/s"@
    } else if i == 2 {
        "running"@
    } else if i == 3 {
        "waiting"@
    } else if i == 4 {
        "kv cache"@
    } else if i == 5 {
        "ttft"@
    } else if i == 6 {
        "tpot"@
    } else if i == 7 {
        "e2e"@
    } else {
        "queue"@
    }
}

/// The series of row `i` of the windowed-average panel.
pub open spec fn loadavg_series(i: int) -> Seq<char> {
    if i == 0 {
        "gen_tok_s"@
    } else if i == 1 {
        "prompt_tok_s"@
    } else if i == 2 {
        "running"@
    } else if i == 3 {
        "waiting"@
    } else if i == 4 {
        "kv_cache"@
    } else if i == 5 {
        "ttft"@
    } else if i == 6 {
        "tpot"@
    } else if i == 7 {
        "e2e"@
    } else {
        "queue_time"@
    }
}

/// A row of the windowed-average panel: its label, its series, and whether it
/// is a latency.
pub fn loadavg_row(i: usize) -> (r: (&'static str, &'static str, bool))
    ensures
        r.0@ == loadavg_label(i as int),
        r.1@ == loadavg_series(i as int),
        r.2 == (i >= 5),
{
    if i == 0 {
        ("gen tok/s", "gen_tok_s", false)
    } else if i == 1 {
        ("prompt tok/s", "prompt_tok_s", false)
    } else if i == 2 {
        ("running", "running", false)
    } else if i == 3 {
        ("waiting", "waiting", false)
    } else if i == 4 {
        ("kv cache", "kv_cache", false)
    } else if i == 5 {
        ("ttft", "ttft", true)
    } else if i == 6 {
        ("tpot", "tpot", true)
    } else if i == 7 {
        ("e2e", "e2e", true)
    } else {
        ("queue", "queue_time", true)
    }
}

/// The width of a number column of the windowed-average panel.
pub open spec fn number_width(w: int) -> int {
    let sixth = cells::clamped(w / 6, 6, 9);
    if w - sixth * 4 < 8 {
        let part = (w - 8) / 4;
        if part > 5 {
            part
        } else {
            5
        }
    } else {
        sixth
    }
}

/// What has been drawn once a cell of a number column is added, right-aligned.
pub open spec fn with_cell(
    c: Canvas,
    ops: Seq<OpView>,
    a: Area,
    y: int,
    col: int,
    s: Seq<char>,
    pair: Pair,
    bold: bool,
) -> Seq<OpView> {
    let num_w = number_width(a.w);
    let label_w = a.w - num_w * 4;
    let shown = text::clipped(s, num_w as nat);
    painter::with_text(
        c,
        ops,
        y,
        a.x + label_w + col * num_w + num_w - shown.len(),
        shown,
        theme::styled(pair, bold, false),
    )
}

/// What has been drawn once four cells of a row are added; the first one of a
/// row of values stands out.
pub open spec fn with_cells(
    c: Canvas,
    ops: Seq<OpView>,
    a: Area,
    y: int,
    s: Seq<Seq<char>>,
    values: bool,
) -> Seq<OpView> {
    let first = if values {
        Pair::Title
    } else {
        Pair::Dim
    };
    let one = with_cell(c, ops, a, y, 0, s[0], first, values);
    let two = with_cell(c, one, a, y, 1, s[1], Pair::Dim, false);
    let three = with_cell(c, two, a, y, 2, s[2], Pair::Dim, false);
    with_cell(c, three, a, y, 3, s[3], Pair::Dim, false)
}

/// The texts of the windowed-average panel: for each row its value now and its
/// 1/5/15-minute averages.
pub struct LoadavgTexts {
    pub rows: Vec<(String, String, String, String)>,
}

pub open spec fn cell_texts(r: (String, String, String, String)) -> Seq<Seq<char>> {
    seq![r.0@, r.1@, r.2@, r.3@]
}

/// What has been drawn once the first `n` rows of values are added.
pub open spec fn with_averages(
    c: Canvas,
    ops: Seq<OpView>,
    a: Area,
    t: LoadavgTexts,
    n: int,
) -> Seq<OpView>
    decreases n,
{
    if n <= 0 {
        ops
    } else {
        let y = a.y + n;
        let named = painter::with_text(
            c,
            with_averages(c, ops, a, t, n - 1),
            y,
            a.x,
            text::clipped(loadavg_label(n - 1), (a.w - number_width(a.w) * 4) as nat),
            theme::styled(Pair::Dim, false, false),
        );
        with_cells(c, named, a, y, cell_texts(t.rows@[n - 1]), true)
    }
}

/// What has been drawn once the windowed-average panel is added.
pub open spec fn with_loadavg(
    c: Canvas,
    ops: Seq<OpView>,
    a: Area,
    t: LoadavgTexts,
    num: int,
) -> Seq<OpView> {
    let boxed = painter::with_box(
        c,
        ops,
        a,
        "1·5·15"@,
        num,
        Pair::Title,
        "windowed avg"@,
        Pair::BoxCache,
    );
    let inner = painter::inner_area(a);
    let num_w = number_width(inner.w);
    let label_w = inner.w - num_w * 4;
    if inner.h <= 0 || inner.w <= 0 || label_w < 6 {
        boxed
    } else {
        let named = painter::with_text(
            c,
            boxed,
            inner.y,
            inner.x,
            text::clipped("metric"@, label_w as nat),
            theme::styled(Pair::Dim, false, true),
        );
        let heads = seq!["now"@, "1m"@, "5m"@, "15m"@];
        let headed = with_cells(c, named, inner, inner.y, heads, false);
        with_averages(c, headed, inner, t, at_most(LOADAVG_COUNT as int, inner.h - 1))
    }
}

fn draw_cell(
    p: &mut Painter,
    inner: Rect,
    num_w: i32,
    y: i32,
    col: i32,
    s: &str,
    pair: Pair,
    bold: bool,
)
    requires
        inner_reach(inner@),
        0 < inner.w,
        num_w == number_width(inner.w as int),
        6 <= inner.w - num_w * 4,
        0 <= col < 4,
    ensures
        final(p).canvas() == old(p).canvas(),
        final(p)@ == with_cell(
            old(p).canvas(),
            old(p)@,
            inner@,
            y as int,
            col as int,
            s@,
            pair,
            bold,
        ),
{
    let label_w = inner.w - num_w * 4;
    let shown = clip(s, num_w as usize);
    assert(0 <= col * num_w <= 3 * num_w) by (nonlinear_arith)
        requires
            0 <= col <= 3,
            0 <= num_w,
    ;
    let cx = inner.x + label_w + col * num_w;
    let style = p.attr(pair, bold, false);
    p.text(y, cx + num_w - shown.as_str().unicode_len() as i32, shown.as_str(), style);
}

fn draw_cells(
    p: &mut Painter,
    inner: Rect,
    num_w: i32,
    y: i32,
    a: &str,
    b: &str,
    c: &str,
    d: &str,
    values: bool,
)
    requires
        inner_reach(inner@),
        0 < inner.w,
        num_w == number_width(inner.w as int),
        6 <= inner.w - num_w * 4,
    ensures
        final(p).canvas() == old(p).canvas(),
        final(p)@ == with_cells(
            old(p).canvas(),
            old(p)@,
            inner@,
            y as int,
            seq![a@, b@, c@, d@],
            values,
        ),
{
    let first = if values {
        Pair::Title
    } else {
        Pair::Dim
    };
    draw_cell(p, inner, num_w, y, 0, a, first, values);
    draw_cell(p, inner, num_w, y, 1, b, Pair::Dim, false);
    draw_cell(p, inner, num_w, y, 2, c, Pair::Dim, false);
    draw_cell(p, inner, num_w, y, 3, d, Pair::Dim, false);
}

/// The windowed-average panel: five columns, a flexible label, then
/// now / 1m / 5m / 15m right-aligned.
pub fn draw_loadavg(p: &mut Painter, rect: Rect, t: &LoadavgTexts, num: i32)
    requires
        painter::within_reach(rect@),
        t.rows@.len() == LOADAVG_COUNT,
    ensures
        final(p).canvas() == old(p).canvas(),
        final(p)@ == with_loadavg(old(p).canvas(), old(p)@, rect@, *t, num as int),
{
    let inner = p.box_(rect, "1·5·15", num, Pair::Title, "windowed avg", Pair::BoxCache);
    if inner.h <= 0 || inner.w <= 0 {
        return ;
    }
    let sixth = inner.w / 6;
    let mut num_w = if sixth < 6 {
        6
    } else if sixth > 9 {
        9
    } else {
        sixth
    };
    let mut label_w = inner.w - num_w * 4;
    if label_w < 8 {
        let part = if inner.w < 8 {
            0
        } else {
            (inner.w - 8) / 4
        };
        num_w = if part > 5 {
            part
        } else {
            5
        };
        label_w = inner.w - num_w * 4;
    }
    assert(num_w == number_width(inner.w as int));
    if label_w < 6 || num_w < 5 {
        return ;
    }
    let metric = clip("metric", label_w as usize);
    let head = p.attr(Pair::Dim, false, true);
    p.text(inner.y, inner.x, metric.as_str(), head);
    draw_cells(p, inner, num_w, inner.y, "now", "1m", "5m", "15m", false);

    let n: usize = if inner.h - 1 < LOADAVG_COUNT as i32 {
        (inner.h - 1) as usize
    } else {
        LOADAVG_COUNT
    };
    let ghost c = p.canvas();
    let ghost headed = p@;
    for i in 0..n
        invariant
            inner_reach(inner@),
            0 < inner.w,
            num_w == number_width(inner.w as int),
            label_w == inner.w - num_w * 4,
            6 <= label_w,
            n <= LOADAVG_COUNT,
            t.rows@.len() == LOADAVG_COUNT,
            p.canvas() == c,
            p@ == with_averages(c, headed, inner@, *t, i as int),
    {
        let y = inner.y + 1 + i as i32;
        let (label, _series, _latency) = loadavg_row(i);
        let name = clip(label, label_w as usize);
        let dim = p.attr(Pair::Dim, false, false);
        p.text(y, inner.x, name.as_str(), dim);
        let r = &t.rows[i];
        draw_cells(
            p,
            inner,
            num_w,
            y,
            r.0.as_str(),
            r.1.as_str(),
            r.2.as_str(),
            r.3.as_str(),
            true,
        );
    }
}

/// The character may reach the terminal: it is no control character.
pub open spec fn is_shown(c: char) -> bool {
    c as u32 >= 0x20 && !(0x7f <= c as u32 && (c as u32) < 0xa0)
}

/// The characters that may reach the terminal.
pub open spec fn shown(s: Seq<char>) -> Seq<char>
    decreases s.len(),
{
    if s.len() == 0 {
        Seq::empty()
    } else if is_shown(s.last()) {
        shown(s.drop_last()).push(s.last())
    } else {
        shown(s.drop_last())
    }
}

/// A prompt as it is displayed: its words with one space between them, without
/// control characters, and cut off with `…` where it is too long.
pub open spec fn prompt_text(prompt: Seq<char>, maxlen: nat) -> Seq<char> {
    let all = shown(text::joined(text::words(prompt), " "@));
    if all.len() > maxlen {
        all.take(
            if maxlen == 0 {
                0
            } else {
                maxlen - 1
            },
        ) + "…"@
    } else {
        all
    }
}

/// Truncate a prompt for display, normalizing whitespace and adding `…` when
/// needed. Control characters (ESC, BEL, C1, etc.) are stripped so no escape
/// sequence can reach the terminal.
pub fn truncate_prompt(prompt: Option<&str>, maxlen: usize) -> (r: String)
    ensures
        r@ == match prompt {
            Some(p) => prompt_text(p@, maxlen as nat),
            None => Seq::empty(),
        },
{
    let p = match prompt {
        Some(p) => p,
        None => {
            return String::new();
        },
    };
    let words = split_words(p);
    let line = join(&words, " ");
    let chars = text::chars_of(line.as_str());
    let mut all: Vec<char> = Vec::new();
    assert(chars@.take(0) =~= Seq::empty());
    for i in 0..chars.len()
        invariant
            all@ == shown(chars@.take(i as int)),
    {
        proof {
            assert(chars@.take(i + 1).drop_last() =~= chars@.take(i as int));
            assert(chars@.take(i + 1).last() == chars@[i as int]);
        }
        let o = chars[i] as u32;
        if o >= 0x20 && !(0x7f <= o && o < 0xa0) {
            all.push(chars[i]);
        }
    }
    assert(chars@.take(chars@.len() as int) =~= chars@);
    if all.len() > maxlen {
        let keep = if maxlen == 0 {
            0
        } else {
            maxlen - 1
        };
        let kept = text::string_of(&all, 0, keep);
        assert(all@.subrange(0, keep as int) =~= all@.take(keep as int));
        kept.concat("…")
    } else {
        let r = text::text_of(&all);
        r
    }
}

proof fn lemma_shown(s: Seq<char>)
    ensures
        forall|i: int| 0 <= i < shown(s).len() ==> is_shown(#[trigger] shown(s)[i]),
    decreases s.len(),
{
    if s.len() > 0 {
        let before = shown(s.drop_last());
        lemma_shown(s.drop_last());
        assert forall|i: int| 0 <= i < shown(s).len() implies is_shown(#[trigger] shown(s)[i]) by {
            if i < before.len() {
                assert(shown(s)[i] == before[i]);
            }
        }
    }
}

/// A displayed prompt holds no control character, and is no longer than asked
/// for, but for the `…` that stands for a whole prompt.
pub proof fn law_prompt_is_clean(prompt: Seq<char>, maxlen: nat)
    ensures
        forall|i: int|
            0 <= i < prompt_text(prompt, maxlen).len() ==> is_shown(
                #[trigger] prompt_text(prompt, maxlen)[i],
            ),
        prompt_text(prompt, maxlen).len() <= if maxlen == 0 {
            1
        } else {
            maxlen
        },
{
    reveal_strlit("…");
    lemma_shown(text::joined(text::words(prompt), " "@));
}

/// What the feed says of an entry beside what the entry holds: its age in
/// seconds, and its character count as text.
pub struct FeedTexts {
    pub age: Option<i64>,
    pub size: String,
}

/// The columns of the request feed. Columns on the right drop out on narrow
/// panels.
pub struct FeedColumns {
    pub x_req: int,
    pub req_w: int,
    pub show_size: bool,
    pub x_size: int,
    pub show_tok: bool,
    pub x_tok: int,
}

/// `age  req id (flex)  size  max_tok`, from left to right: 4 cells for the
/// age, 6 each for size and token limit, one between columns.
pub open spec fn feed_columns(a: Area) -> FeedColumns {
    let show_tok = a.w >= 20;
    let show_size = a.w >= 28;
    let x_req = a.x + 5;
    let trailing = (if show_size {
        7int
    } else {
        0
    }) + (if show_tok {
        7int
    } else {
        0
    });
    let left = a.x + a.w - x_req - trailing;
    let req_w = if left > 4 {
        left
    } else {
        4
    };
    let x_size = x_req + req_w + 1;
    FeedColumns {
        x_req,
        req_w,
        show_size,
        x_size,
        show_tok,
        x_tok: if show_size {
            x_size + 7
        } else {
            x_size
        },
    }
}

/// What has been drawn once the heads of the feed's columns are added.
pub open spec fn with_feed_head(c: Canvas, ops: Seq<OpView>, a: Area) -> Seq<OpView> {
    let k = feed_columns(a);
    let hdr = theme::styled(Pair::Dim, false, true);
    let aged = painter::with_text(c, ops, a.y, a.x, "age"@, hdr);
    let named = painter::with_text(
        c,
        aged,
        a.y,
        k.x_req,
        text::clipped("req id"@, k.req_w as nat),
        hdr,
    );
    let sized = if k.show_size {
        painter::with_text(c, named, a.y, k.x_size + 2, "size"@, hdr)
    } else {
        named
    };
    if k.show_tok {
        painter::with_text(c, sized, a.y, k.x_tok, text::clipped("max_tok"@, 6), hdr)
    } else {
        sized
    }
}

/// The age column of an entry.
pub open spec fn age_text(age: Option<i64>) -> Seq<char> {
    let t = match age {
        Some(s) => if s < 0 {
            "—"@
        } else {
            cells::duration_text(s as int)
        },
        None => "—"@,
    };
    text::clipped(text::right_aligned(t, 4), 4)
}

/// What has been drawn once one entry of the feed is added in line `y`.
pub open spec fn with_feed_row<F>(
    c: Canvas,
    ops: Seq<OpView>,
    a: Area,
    y: int,
    e: MergedLogEntry<F>,
    t: FeedTexts,
) -> Seq<OpView> {
    let k = feed_columns(a);
    let faint = theme::styled(Pair::Dim, false, true);
    let aged = painter::with_text(
        c,
        ops,
        y,
        a.x,
        age_text(t.age),
        theme::styled(Pair::Dim, false, false),
    );
    let w = k.req_w as nat;
    let named = match e.request_id {
        Some(id) => painter::with_text(
            c,
            aged,
            y,
            k.x_req,
            text::left_aligned(text::clipped(id@, w), w),
            theme::styled(Pair::Cyan, false, false),
        ),
        None => painter::with_text(c, aged, y, k.x_req, text::left_aligned("—"@, w), faint),
    };
    let sized = if k.show_size {
        match e.prompt_chars {
            Some(n) => painter::with_text(
                c,
                named,
                y,
                k.x_size,
                text::clipped(text::right_aligned(t.size@, 6), 6),
                theme::styled(Pair::Green, false, false),
            ),
            None => painter::with_text(
                c,
                named,
                y,
                k.x_size,
                text::right_aligned("—"@, 6),
                faint,
            ),
        }
    } else {
        named
    };
    if k.show_tok {
        match e.max_tokens {
            Some(n) => painter::with_text(
                c,
                sized,
                y,
                k.x_tok,
                text::clipped(text::right_aligned(text::signed_decimal(n as int), 6), 6),
                theme::styled(Pair::Cyan, true, false),
            ),
            None => painter::with_text(c, sized, y, k.x_tok, "-"@, faint),
        }
    } else {
        sized
    }
}

/// What has been drawn once the first `n` entries of the feed are added, one
/// below the other.
pub open spec fn with_feed_rows<F>(
    c: Canvas,
    ops: Seq<OpView>,
    a: Area,
    entries: Seq<MergedLogEntry<F>>,
    texts: Seq<FeedTexts>,
    n: int,
) -> Seq<OpView>
    decreases n,
{
    if n <= 0 {
        ops
    } else {
        with_feed_row(
            c,
            with_feed_rows(c, ops, a, entries, texts, n - 1),
            a,
            a.y + n,
            entries[n - 1],
            texts[n - 1],
        )
    }
}

/// What has been drawn once the request feed is added: an error, a hint where
/// there are no entries, or the entries, newest first.
pub open spec fn with_feed<F>(
    c: Canvas,
    ops: Seq<OpView>,
    a: Area,
    entries: Seq<MergedLogEntry<F>>,
    texts: Seq<FeedTexts>,
    error: Option<Seq<char>>,
) -> Seq<OpView> {
    if a.h <= 0 || a.w <= 0 {
        ops
    } else {
        match error {
            Some(e) => painter::with_text(
                c,
                ops,
                a.y,
                a.x,
                text::clipped("⚠ "@ + e, a.w as nat),
                theme::styled(Pair::Yellow, false, true),
            ),
            None => if entries.len() == 0 {
                painter::with_text(
                    c,
                    ops,
                    a.y,
                    a.x,
                    text::clipped(
                        "run vLLM with --enable-log-requests to show inference requests"@,
                        a.w as nat,
                    ),
                    theme::styled(Pair::Dim, false, true),
                )
            } else {
                with_feed_rows(
                    c,
                    with_feed_head(c, ops, a),
                    a,
                    entries,
                    texts,
                    at_most(entries.len() as int, a.h - 1),
                )
            },
        }
    }
}

fn draw_feed_head(
    p: &mut Painter,
    rect: Rect,
    x_req: i32,
    req_w: i32,
    show_size: bool,
    x_size: i32,
    show_tok: bool,
    x_tok: i32,
)
    requires
        inner_reach(rect@),
        0 < rect.w,
        feed_columns(rect@) == (FeedColumns {
            x_req: x_req as int,
            req_w: req_w as int,
            show_size,
            x_size: x_size as int,
            show_tok,
            x_tok: x_tok as int,
        }),
    ensures
        final(p).canvas() == old(p).canvas(),
        final(p)@ == with_feed_head(old(p).canvas(), old(p)@, rect@),
{
    let hdr = p.attr(Pair::Dim, false, true);
    p.text(rect.y, rect.x, "age", hdr);
    let req = clip("req id", req_w as usize);
    p.text(rect.y, x_req, req.as_str(), hdr);
    if show_size {
        p.text(rect.y, x_size + 2, "size", hdr);
    }
    if show_tok {
        let tok = clip("max_tok", 6);
        p.text(rect.y, x_tok, tok.as_str(), hdr);
    }
}

fn draw_feed_row<F>(
    p: &mut Painter,
    rect: Rect,
    y: i32,
    e: &MergedLogEntry<F>,
    t: &FeedTexts,
    x_req: i32,
    req_w: i32,
    show_size: bool,
    x_size: i32,
    show_tok: bool,
    x_tok: i32,
)
    requires
        inner_reach(rect@),
        0 < rect.w,
        feed_columns(rect@) == (FeedColumns {
            x_req: x_req as int,
            req_w: req_w as int,
            show_size,
            x_size: x_size as int,
            show_tok,
            x_tok: x_tok as int,
        }),
    ensures
        final(p).canvas() == old(p).canvas(),
        final(p)@ == with_feed_row(old(p).canvas(), old(p)@, rect@, y as int, *e, *t),
{
    let dim = p.attr(Pair::Dim, false, false);
    let faint = p.attr(Pair::Dim, false, true);
    let age = align_right(duration_line(t.age).as_str(), 4);
    let age = clip(age.as_str(), 4);
    p.text(y, rect.x, age.as_str(), dim);

    let w = req_w as usize;
    match &e.request_id {
        Some(id) => {
            let rid = align_left(clip(id.as_str(), w).as_str(), w);
            let rid_style = p.attr(Pair::Cyan, false, false);
            p.text(y, x_req, rid.as_str(), rid_style);
        },
        None => {
            let rid = align_left("—", w);
            p.text(y, x_req, rid.as_str(), faint);
        },
    }
    if show_size {
        match e.prompt_chars {
            Some(_n) => {
                let v = align_right(t.size.as_str(), 6);
                let v = clip(v.as_str(), 6);
                let style = p.attr(Pair::Green, false, false);
                p.text(y, x_size, v.as_str(), style);
            },
            None => {
                let v = align_right("—", 6);
                p.text(y, x_size, v.as_str(), faint);
            },
        }
    }
    if show_tok {
        match e.max_tokens {
            Some(n) => {
                let v = align_right(signed_text(n).as_str(), 6);
                let v = clip(v.as_str(), 6);
                let style = p.attr(Pair::Cyan, true, false);
                p.text(y, x_tok, v.as_str(), style);
            },
            None => {
                p.text(y, x_tok, "-", faint);
            },
        }
    }
}

pub open spec fn error_view(e: Option<&str>) -> Option<Seq<char>> {
    match e {
        Some(s) => Some(s@),
        None => None,
    }
}

/// Render the vLLM inference request feed into `rect` — no box.
///
/// Columns (left to right, right columns drop out on narrow panels):
/// `age  req id (flex)  size  max_tok`. Newest first.
fn draw_request_feed<F>(
    p: &mut Painter,
    rect: Rect,
    entries: &Vec<MergedLogEntry<F>>,
    texts: &Vec<FeedTexts>,
    error: Option<&str>,
)
    requires
        inner_reach(rect@),
        texts@.len() == entries@.len(),
    ensures
        final(p).canvas() == old(p).canvas(),
        final(p)@ == with_feed(
            old(p).canvas(),
            old(p)@,
            rect@,
            entries@,
            texts@,
            error_view(error),
        ),
{
    if rect.h <= 0 || rect.w <= 0 {
        return ;
    }
    if let Some(err) = error {
        let msg = "⚠ ".to_owned().concat(err);
        let msg = clip(msg.as_str(), rect.w as usize);
        let style = p.attr(Pair::Yellow, false, true);
        p.text(rect.y, rect.x, msg.as_str(), style);
        return ;
    }
    if entries.len() == 0 {
        let hint = clip(
            "run vLLM with --enable-log-requests to show inference requests",
            rect.w as usize,
        );
        let style = p.attr(Pair::Dim, false, true);
        p.text(rect.y, rect.x, hint.as_str(), style);
        return ;
    }
    let x_req = rect.x + 5;
    let show_tok = rect.w >= 20;
    let show_size = rect.w >= 28;
    let size_part: i32 = if show_size {
        7
    } else {
        0
    };
    let tok_part: i32 = if show_tok {
        7
    } else {
        0
    };
    let left = rect.x + rect.w - x_req - (size_part + tok_part);
    let req_w = if left > 4 {
        left
    } else {
        4
    };
    let x_size = x_req + req_w + 1;
    let x_tok = if show_size {
        x_size + 7
    } else {
        x_size
    };
    draw_feed_head(p, rect, x_req, req_w, show_size, x_size, show_tok, x_tok);
    let n = if entries.len() < (rect.h - 1) as usize {
        entries.len()
    } else {
        (rect.h - 1) as usize
    };
    let ghost c = p.canvas();
    let ghost headed = p@;
    for i in 0..n
        invariant
            inner_reach(rect@),
            0 < rect.w,
            n <= rect.h - 1,
            n <= entries@.len(),
            texts@.len() == entries@.len(),
            feed_columns(rect@) == (FeedColumns {
                x_req: x_req as int,
                req_w: req_w as int,
                show_size,
                x_size: x_size as int,
                show_tok,
                x_tok: x_tok as int,
            }),
            p.canvas() == c,
            p@ == with_feed_rows(c, headed, rect@, entries@, texts@, i as int),
    {
        let y = rect.y + 1 + i as i32;
        draw_feed_row(
            p,
            rect,
            y,
            &entries[i],
            &texts[i],
            x_req,
            req_w,
            show_size,
            x_size,
            show_tok,
            x_tok,
        );
    }
}

/// What has been drawn once the requests panel is added.
pub open spec fn with_requests<F>(
    c: Canvas,
    ops: Seq<OpView>,
    a: Area,
    snap: Snapshot<F>,
    texts: Seq<FeedTexts>,
    num: int,
) -> Seq<OpView> {
    let boxed = painter::with_box(
        c,
        ops,
        a,
        "requests"@,
        num,
        Pair::Title,
        "activity"@,
        Pair::BoxReq,
    );
    let inner = painter::inner_area(a);
    if inner.h <= 0 {
        boxed
    } else {
        let lined = painter::with_text(
            c,
            boxed,
            inner.y,
            inner.x,
            text::repeated('─', inner.w as nat),
            theme::styled(Pair::Div, false, false),
        );
        with_feed(
            c,
            lined,
            Area { y: inner.y + 1, h: inner.h - 1, ..inner },
            snap.merged_log@,
            texts,
            match snap.access_error {
                Some(e) => Some(e@),
                None => None,
            },
        )
    }
}

/// The requests panel: the feed below a line.
pub fn draw_requests<F>(
    p: &mut Painter,
    rect: Rect,
    snap: &Snapshot<F>,
    texts: &Vec<FeedTexts>,
    num: i32,
)
    requires
        painter::within_reach(rect@),
        texts@.len() == snap.merged_log@.len(),
    ensures
        final(p).canvas() == old(p).canvas(),
        final(p)@ == with_requests(
            old(p).canvas(),
            old(p)@,
            rect@,
            *snap,
            texts@,
            num as int,
        ),
{
    let inner = p.box_(rect, "requests", num, Pair::Title, "activity", Pair::BoxReq);
    if inner.h <= 0 {
        return ;
    }
    let line = repeat('─', inner.w as usize);
    let div = p.attr(Pair::Div, false, false);
    p.text(inner.y, inner.x, line.as_str(), div);
    let feed = Rect::new(inner.y + 1, inner.x, inner.h - 1, inner.w);
    assert(feed@ =~= Area { y: inner.y + 1, h: inner.h - 1, ..inner@ });
    let error = match &snap.access_error {
        Some(e) => Some(e.as_str()),
        None => None,
    };
    draw_request_feed(p, feed, &snap.merged_log, texts, error);
}

} // verus!
