//! What the panels say: the figures of the history and of the last snapshot.

use vstd::prelude::*;

use crate::state;
use crate::state::{fraction, product, series_index, History, Snapshot, SERIES_COUNT};
use crate::text;
use crate::text::signed_text;
use crate::ui::frame::PanelTexts;
use crate::ui::painter;
use crate::ui::painter::{paint_chart, Canvas, Chart, OpView, Painter, Scale};
use crate::ui::panels::{
    loadavg_row, FeedTexts, LoadavgTexts, PerfTexts, ThroughputTexts, LOADAVG_COUNT,
};
use crate::ui::widgets;
use crate::ui::widgets::{
    big_number, fixed_text, fmt_seconds, heights_of, scaled_with, whole_seconds, Figures,
};

verus! {

/// `s` is a compact character count.
pub open spec fn is_char_count<T: Figures>(t: T, n: i64, s: Seq<char>) -> bool {
    if n < 1000 {
        s == text::signed_decimal(n as int)
    } else {
        exists|v: T::F| #[trigger]
            call_ensures(T::whole, (&t, n), v) && if n >= 1_000_000 {
                widgets::is_scaled_with(t, v, 1_000_000, 1, "M"@, s)
            } else if n >= 10_000 {
                widgets::is_scaled_with(t, v, 1_000, 0, "k"@, s)
            } else {
                widgets::is_scaled_with(t, v, 1_000, 1, "k"@, s)
            }
    }
}

/// Compact character count for the feed's size column: 42, 1.2k, 440k, 1.3M.
pub fn fmt_chars<T: Figures>(t: &T, n: i64) -> (r: String)
    ensures
        is_char_count(*t, n, r@),
{
    if n < 1000 {
        return signed_text(n);
    }
    let v = t.whole(n);
    assert(call_ensures(T::whole, (t, n), v));
    if n >= 1_000_000 {
        scaled_with(t, v, 1_000_000, 1, "M")
    } else if n >= 10_000 {
        scaled_with(t, v, 1_000, 0, "k")
    } else {
        scaled_with(t, v, 1_000, 1, "k")
    }
}

/// `r` is the largest of the values, or `zero` where none is larger.
pub open spec fn is_peak<T: Figures>(t: T, zero: T::F, s: Seq<T::F>, r: T::F) -> bool
    decreases s.len(),
{
    if s.len() == 0 {
        r == zero
    } else {
        exists|p: T::F| #[trigger]
            call_ensures(T::larger, (&t, p, s.last()), r) && is_peak(t, zero, s.drop_last(), p)
    }
}

/// The largest of the values, or `zero` where none is larger.
pub fn peak<T: Figures>(t: &T, zero: T::F, values: &Vec<T::F>) -> (r: T::F)
    ensures
        is_peak(*t, zero, values@, r),
{
    let mut r = zero;
    for i in 0..values.len()
        invariant
            is_peak(*t, zero, values@.take(i as int), r),
    {
        let next = t.larger(r, values[i]);
        proof {
            let s = values@.take(i + 1);
            assert(s.drop_last() =~= values@.take(i as int));
            assert(s.last() == values@[i as int]);
            assert(call_ensures(T::larger, (t, r, s.last()), next));
        }
        r = next;
    }
    assert(values@.take(values@.len() as int) =~= values@);
    r
}

/// `r` is the value that a bar of full height stands for.
pub open spec fn is_top<T: Figures>(
    t: T,
    zero: T::F,
    values: Seq<T::F>,
    scale: Scale,
    r: T::F,
) -> bool {
    match scale {
        Scale::Peak { floor } => exists|p: T::F, least: T::F|
            is_peak(t, zero, values, p) && #[trigger] state::is_fraction(t, 1, floor, least)
                && #[trigger] call_ensures(T::larger, (&t, p, least), r),
        Scale::Percent => call_ensures(T::whole, (&t, 100i64), r),
    }
}

/// The heights of the bars of a chart with `rows` rows of dots.
pub open spec fn are_scaled<T: Figures>(
    t: T,
    zero: T::F,
    values: Seq<T::F>,
    scale: Scale,
    rows: i64,
    heights: Seq<i64>,
) -> bool {
    exists|top: T::F| #[trigger]
        is_top(t, zero, values, scale, top) && widgets::are_heights(
            t,
            zero,
            values,
            zero,
            top,
            rows,
            heights,
        )
}

/// The heights of the bars of a chart with `rows` rows of dots.
pub fn chart_heights<T: Figures>(
    t: &T,
    zero: T::F,
    values: &Vec<T::F>,
    scale: Scale,
    rows: i64,
) -> (r: Vec<i64>)
    ensures
        are_scaled(*t, zero, values@, scale, rows, r@),
{
    let top = match scale {
        Scale::Peak { floor } => {
            let p = peak(t, zero, values);
            let least = fraction(t, 1, floor);
            let top = t.larger(p, least);
            assert(call_ensures(T::larger, (t, p, least), top));
            top
        },
        Scale::Percent => t.whole(100),
    };
    assert(is_top(*t, zero, values@, scale, top));
    heights_of(t, zero, values, zero, top, rows)
}

/// The rates that the throughput panel says.
pub open spec fn are_throughput_texts<T: Figures>(
    t: T,
    h: History<T::F>,
    x: ThroughputTexts,
) -> bool {
    let unit = " tok/s"@;
    &&& widgets::is_big_number(t, h.latest()[0], unit, x.gen_now@)
    &&& widgets::is_big_number(t, h.latest()[1], unit, x.prompt_now@)
    &&& is_peak_text(t, h.nothing(), h.series_at(0), unit, x.gen_peak@)
    &&& is_peak_text(t, h.nothing(), h.series_at(1), unit, x.prompt_peak@)
}

/// `s` is the peak of the values as a compact number.
pub open spec fn is_peak_text<T: Figures>(
    t: T,
    zero: T::F,
    values: Seq<T::F>,
    unit: Seq<char>,
    s: Seq<char>,
) -> bool {
    exists|p: T::F| #[trigger] is_peak(t, zero, values, p) && widgets::is_big_number(t, p, unit, s)
}

fn throughput_texts<T: Figures>(t: &T, h: &History<T::F>) -> (r: ThroughputTexts)
    requires
        h.wf(),
    ensures
        are_throughput_texts(*t, *h, r),
{
    let gen = h.values_at(0);
    let prompt = h.values_at(1);
    let gen_pk = peak(t, h.zero(), &gen);
    let prompt_pk = peak(t, h.zero(), &prompt);
    ThroughputTexts {
        gen_now: big_number(t, h.latest_at(0), " tok/s"),
        gen_peak: big_number(t, gen_pk, " tok/s"),
        prompt_now: big_number(t, h.latest_at(1), " tok/s"),
        prompt_peak: big_number(t, prompt_pk, " tok/s"),
    }
}

/// The text of per-request metric `i`: numbers of tokens without decimals,
/// times as latencies.
pub open spec fn is_request_text<T: Figures>(
    t: T,
    zero: T::F,
    i: int,
    v: T::F,
    s: Seq<char>,
) -> bool {
    if i < 2 {
        widgets::is_fixed(t, v, 0, s)
    } else {
        widgets::is_latency(t, zero, v, s)
    }
}

/// `s` is the prefix-cache hit rate in percent, without decimals.
pub open spec fn is_hit_text<T: Figures>(
    t: T,
    zero: T::F,
    snap: Snapshot<T::F>,
    s: Seq<char>,
) -> bool {
    exists|rate: T::F, percent: T::F|
        #[trigger] state::is_hit_rate(t, zero, snap.backend, rate) && #[trigger] state::is_product(
            t,
            rate,
            100,
            percent,
        ) && widgets::is_fixed(t, percent, 0, s)
}

/// The values that the perf panel says.
pub open spec fn are_perf_texts<T: Figures>(
    t: T,
    h: History<T::F>,
    snap: Snapshot<T::F>,
    x: PerfTexts,
) -> bool {
    &&& x.wf()
    &&& forall|i: int|
        0 <= i < 4 ==> widgets::is_latency(
            t,
            h.nothing(),
            h.latest()[5 + i],
            (#[trigger] x.latencies@[i])@,
        )
    &&& forall|i: int|
        0 <= i < 4 ==> is_request_text(
            t,
            h.nothing(),
            i,
            h.latest()[9 + i],
            (#[trigger] x.per_request@[i])@,
        )
    &&& widgets::is_fixed(t, h.latest()[4], 0, x.kv@)
    &&& is_hit_text(t, h.nothing(), snap, x.hit@)
}

fn perf_texts<T: Figures>(t: &T, h: &History<T::F>, snap: &Snapshot<T::F>) -> (r: PerfTexts)
    requires
        h.wf(),
    ensures
        are_perf_texts(*t, *h, *snap, r),
{
    let zero = h.zero();
    let mut latencies: Vec<String> = Vec::new();
    let mut per_request: Vec<String> = Vec::new();
    for i in 0..4usize
        invariant
            h.wf(),
            zero == h.nothing(),
            latencies@.len() == i,
            per_request@.len() == i,
            forall|j: int|
                0 <= j < i ==> widgets::is_latency(
                    *t,
                    zero,
                    h.latest()[5 + j],
                    (#[trigger] latencies@[j])@,
                ),
            forall|j: int|
                0 <= j < i ==> is_request_text(
                    *t,
                    zero,
                    j,
                    h.latest()[9 + j],
                    (#[trigger] per_request@[j])@,
                ),
    {
        latencies.push(fmt_seconds(t, zero, h.latest_at(5 + i)));
        let v = h.latest_at(9 + i);
        per_request.push(
            if i < 2 {
                fixed_text(t, v, 0)
            } else {
                fmt_seconds(t, zero, v)
            },
        );
    }
    let rate = snap.backend.prefix_cache_hit_rate(t, zero);
    let percent = product(t, rate, 100);
    PerfTexts {
        latencies,
        per_request,
        kv: fixed_text(t, h.latest_at(4), 0),
        hit: fixed_text(t, percent, 0),
    }
}

/// The text of a value of row `i` of the windowed-average panel.
pub open spec fn is_row_text<T: Figures>(
    t: T,
    zero: T::F,
    i: int,
    v: T::F,
    s: Seq<char>,
) -> bool {
    if i >= 5 {
        widgets::is_latency(t, zero, v, s)
    } else {
        widgets::is_big_number(t, v, Seq::empty(), s)
    }
}

/// The texts of row `i` of the windowed-average panel.
pub open spec fn are_row_texts<T: Figures>(
    t: T,
    h: History<T::F>,
    i: int,
    r: (String, String, String, String),
) -> bool {
    &&& is_row_text(t, h.nothing(), i, h.latest()[i], r.0@)
    &&& is_row_text(t, h.nothing(), i, h.averages()[i].0, r.1@)
    &&& is_row_text(t, h.nothing(), i, h.averages()[i].1, r.2@)
    &&& is_row_text(t, h.nothing(), i, h.averages()[i].2, r.3@)
}

fn row_text<T: Figures>(t: &T, zero: T::F, i: usize, v: T::F) -> (r: String)
    ensures
        is_row_text(*t, zero, i as int, v, r@),
{
    let (_label, _series, latency) = loadavg_row(i);
    if latency {
        fmt_seconds(t, zero, v)
    } else {
        proof {
            reveal_strlit("");
            assert(""@ =~= Seq::<char>::empty());
        }
        big_number(t, v, "")
    }
}

fn loadavg_texts<T: Figures>(t: &T, h: &History<T::F>) -> (r: LoadavgTexts)
    requires
        h.wf(),
    ensures
        r.rows@.len() == LOADAVG_COUNT,
        forall|i: int| 0 <= i < LOADAVG_COUNT ==> are_row_texts(*t, *h, i, #[trigger] r.rows@[i]),
{
    let zero = h.zero();
    let mut rows: Vec<(String, String, String, String)> = Vec::new();
    for i in 0..LOADAVG_COUNT
        invariant
            h.wf(),
            zero == h.nothing(),
            rows@.len() == i,
            forall|j: int| 0 <= j < i ==> are_row_texts(*t, *h, j, #[trigger] rows@[j]),
    {
        let (one, five, fifteen) = h.averages_at(i);
        rows.push(
            (
                row_text(t, zero, i, h.latest_at(i)),
                row_text(t, zero, i, one),
                row_text(t, zero, i, five),
                row_text(t, zero, i, fifteen),
            ),
        );
    }
    LoadavgTexts { rows }
}

/// `age` is how many whole seconds passed from `since` to `now`.
pub open spec fn is_age<T: Figures>(
    t: T,
    zero: T::F,
    since: T::F,
    now: T::F,
    age: Option<i64>,
) -> bool {
    exists|d: T::F, passed: T::F| #[trigger]
        call_ensures(T::minus, (&t, now, since), d) && #[trigger] call_ensures(
            T::larger,
            (&t, d, zero),
            passed,
        ) && widgets::is_count(t, zero, passed, age)
}

fn age_of<T: Figures>(t: &T, zero: T::F, since: T::F, now: T::F) -> (r: Option<i64>)
    ensures
        is_age(*t, zero, since, now, r),
{
    let d = t.minus(now, since);
    let passed = t.larger(d, zero);
    assert(call_ensures(T::minus, (t, now, since), d));
    assert(call_ensures(T::larger, (t, d, zero), passed));
    whole_seconds(t, zero, passed)
}

/// What the feed says of an entry: its age, and the size of its prompt.
pub open spec fn are_feed_texts<T: Figures>(
    t: T,
    zero: T::F,
    e: state::MergedLogEntry<T::F>,
    now: T::F,
    x: FeedTexts,
) -> bool {
    &&& is_age(t, zero, e.t, now, x.age)
    &&& e.prompt_chars matches Some(n) ==> is_char_count(t, n, x.size@)
}

fn feed_texts<T: Figures>(
    t: &T,
    zero: T::F,
    snap: &Snapshot<T::F>,
    now: T::F,
) -> (r: Vec<FeedTexts>)
    ensures
        r@.len() == snap.merged_log@.len(),
        forall|i: int|
            0 <= i < r@.len() ==> are_feed_texts(
                *t,
                zero,
                snap.merged_log@[i],
                now,
                #[trigger] r@[i],
            ),
{
    let mut r: Vec<FeedTexts> = Vec::new();
    for i in 0..snap.merged_log.len()
        invariant
            r@.len() == i,
            forall|j: int|
                0 <= j < i ==> are_feed_texts(
                    *t,
                    zero,
                    snap.merged_log@[j],
                    now,
                    #[trigger] r@[j],
                ),
    {
        let e = &snap.merged_log[i];
        let size = match e.prompt_chars {
            Some(n) => fmt_chars(t, n),
            None => String::new(),
        };
        let age = age_of(t, zero, e.t, now);
        r.push(FeedTexts { age, size });
    }
    r
}

/// The texts of all panels.
pub open spec fn are_panel_texts<T: Figures>(
    t: T,
    h: History<T::F>,
    snap: Snapshot<T::F>,
    now: T::F,
    x: PanelTexts,
) -> bool {
    &&& x.wf(&snap)
    &&& are_throughput_texts(t, h, x.throughput)
    &&& are_perf_texts(t, h, snap, x.perf)
    &&& forall|i: int|
        0 <= i < LOADAVG_COUNT ==> are_row_texts(t, h, i, #[trigger] x.loadavg.rows@[i])
    &&& forall|i: int|
        0 <= i < x.feed@.len() ==> are_feed_texts(
            t,
            h.nothing(),
            snap.merged_log@[i],
            now,
            #[trigger] x.feed@[i],
        )
}

/// What all panels say of the history and the last snapshot.
pub fn panel_texts<T: Figures>(
    t: &T,
    h: &History<T::F>,
    snap: &Snapshot<T::F>,
    now: T::F,
) -> (r: PanelTexts)
    requires
        h.wf(),
    ensures
        are_panel_texts(*t, *h, *snap, now, r),
{
    PanelTexts {
        throughput: throughput_texts(t, h),
        perf: perf_texts(t, h, snap),
        loadavg: loadavg_texts(t, h),
        feed: feed_texts(t, h.zero(), snap, now),
    }
}

/// The rows of dots of a chart.
pub open spec fn dot_rows(h: i32) -> i64 {
    if h <= 0 {
        0
    } else {
        (4 * h) as i64
    }
}

/// What has been drawn once a chart of a series of the history is added; a
/// series that is not there draws nothing.
pub open spec fn with_series<T: Figures>(
    t: T,
    h: History<T::F>,
    c: Canvas,
    ops: Seq<OpView>,
    chart: Chart,
    after: Seq<OpView>,
) -> bool {
    exists|i: int| #[trigger]
        state::names_series(chart.series@, i) && if i < SERIES_COUNT {
            exists|heights: Seq<i64>| #[trigger]
                are_scaled(
                    t,
                    h.nothing(),
                    h.series_at(i),
                    chart.scale,
                    dot_rows(chart.rect.h),
                    heights,
                ) && after == if chart.rect.w <= 0 {
                    ops
                } else {
                    painter::with_rows(
                        c,
                        ops,
                        chart.rect@,
                        heights,
                        chart.flip,
                        chart.style,
                        chart.rect.h as int,
                    )
                }
        } else {
            after == ops
        }
}

/// Draws a chart of a series of the history.
pub fn draw_series<T: Figures>(t: &T, h: &History<T::F>, p: &mut Painter, chart: &Chart)
    requires
        h.wf(),
        painter::within_reach(chart.rect@),
    ensures
        final(p).canvas() == old(p).canvas(),
        with_series(*t, *h, old(p).canvas(), old(p)@, *chart, final(p)@),
{
    let i = series_index(chart.series);
    assert(state::names_series(chart.series@, i as int));
    if i >= SERIES_COUNT {
        return ;
    }
    let values = h.values_at(i);
    let rows: i64 = if chart.rect.h <= 0 {
        0
    } else {
        4 * chart.rect.h as i64
    };
    let heights = chart_heights(t, h.zero(), &values, chart.scale, rows);
    assert(are_scaled(
        *t,
        h.nothing(),
        h.series_at(i as int),
        chart.scale,
        dot_rows(chart.rect.h),
        heights@,
    ));
    paint_chart(p, chart, &heights);
}

} // verus!
