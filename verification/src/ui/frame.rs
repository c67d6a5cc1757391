//! A whole frame: the panels of the active view, toasts and help.

use vstd::prelude::*;

use crate::collectors;
use crate::state;
use crate::state::{fraction, Arithmetic, Snapshot};
use crate::text;
use crate::text::{decimal_text, repeat};
use crate::ui::controls::Controls;
use crate::ui::layout;
use crate::ui::layout::{compute_layout, Area, Rect};
use crate::ui::painter;
use crate::ui::painter::{Canvas, OpView, Painter};
use crate::ui::panels;
use crate::ui::panels::{
    draw_loadavg, draw_perf, draw_requests, draw_throughput, FeedTexts, LoadavgTexts, PerfTexts,
    ThroughputTexts, LOADAVG_COUNT,
};
use crate::ui::registry;
use crate::ui::registry::{available_panels, find_panel, registry, Drawing};
use crate::ui::theme;
use crate::ui::theme::{Pair, Style};
use crate::ui::tiling;
use crate::ui::views;
use crate::ui::views::{views, VIEW_COUNT};

verus! {

/// Where a text of the given length starts that stands in the middle of a line.
pub open spec fn centred(cols: int, len: int) -> int {
    if cols > len {
        (cols - len) / 2
    } else {
        0
    }
}

fn centre(cols: i32, s: &str) -> (r: i32)
    requires
        0 <= cols,
    ensures
        r == centred(cols as int, s@.len() as int),
        0 <= r <= cols,
{
    let len = s.unicode_len();
    if (cols as usize) > len {
        (cols - len as i32) / 2
    } else {
        0
    }
}

/// What has been drawn once a text is added in the middle of line `y`.
pub open spec fn with_centred(
    c: Canvas,
    ops: Seq<OpView>,
    y: int,
    cols: int,
    s: Seq<char>,
    style: Style,
) -> Seq<OpView> {
    painter::with_text(c, ops, y, centred(cols, s.len() as int), s, style)
}

fn draw_centred(p: &mut Painter, y: i32, cols: i32, s: &str, style: Style)
    requires
        0 <= cols,
    ensures
        final(p).canvas() == old(p).canvas(),
        final(p)@ == with_centred(old(p).canvas(), old(p)@, y as int, cols as int, s@, style),
{
    let x = centre(cols, s);
    p.text(y, x, s, style);
}

/// What all panels say.
pub struct PanelTexts {
    pub throughput: ThroughputTexts,
    pub perf: PerfTexts,
    pub loadavg: LoadavgTexts,
    /// One for each entry of the request feed.
    pub feed: Vec<FeedTexts>,
}

impl PanelTexts {
    pub open spec fn wf<F>(&self, snap: &Snapshot<F>) -> bool {
        &&& self.perf.wf()
        &&& self.loadavg.rows@.len() == LOADAVG_COUNT
        &&& self.feed@.len() == snap.merged_log@.len()
    }
}

/// What has been drawn once a panel is added.
pub open spec fn with_panel<F>(
    c: Canvas,
    ops: Seq<OpView>,
    d: Drawing,
    a: Area,
    t: PanelTexts,
    snap: Snapshot<F>,
) -> Seq<OpView> {
    match d {
        Drawing::Throughput => panels::with_throughput(c, ops, a, t.throughput, 0),
        Drawing::Requests => panels::with_requests(c, ops, a, snap, t.feed@, 0),
        Drawing::Perf => panels::with_perf(c, ops, a, t.perf, 0),
        Drawing::Loadavg => panels::with_loadavg(c, ops, a, t.loadavg, 0),
    }
}

fn draw_panel<F>(p: &mut Painter, d: Drawing, rect: Rect, t: &PanelTexts, snap: &Snapshot<F>)
    requires
        painter::within_reach(rect@),
        t.wf(snap),
    ensures
        final(p).canvas() == old(p).canvas(),
        final(p)@ == with_panel(old(p).canvas(), old(p)@, d, rect@, *t, *snap),
{
    match d {
        Drawing::Throughput => draw_throughput(p, rect, &t.throughput, 0),
        Drawing::Requests => draw_requests(p, rect, snap, &t.feed, 0),
        Drawing::Perf => draw_perf(p, rect, &t.perf, 0),
        Drawing::Loadavg => draw_loadavg(p, rect, &t.loadavg, 0),
    }
}

/// What has been drawn once the first `n` of the placed panels are added; an id
/// that no panel has draws nothing.
pub open spec fn with_panels<F>(
    c: Canvas,
    ops: Seq<OpView>,
    es: Seq<(Seq<char>, Area)>,
    t: PanelTexts,
    snap: Snapshot<F>,
    n: int,
) -> Seq<OpView>
    decreases n,
{
    if n <= 0 {
        ops
    } else {
        let before = with_panels(c, ops, es, t, snap, n - 1);
        match registry::drawing_named(es[n - 1].0) {
            Some(d) => with_panel(c, before, d, es[n - 1].1, t, snap),
            None => before,
        }
    }
}

/// The pairs are those of the map, each once.
pub open spec fn lists_map(es: Seq<(Seq<char>, Area)>, m: Map<Seq<char>, Area>) -> bool {
    &&& forall|i: int|
        0 <= i < es.len() ==> m.dom().contains((#[trigger] es[i]).0) && m[es[i].0] == es[i].1
    &&& forall|id: Seq<char>| #[trigger]
        m.dom().contains(id) ==> exists|i: int| 0 <= i < es.len() && (#[trigger] es[i]).0 == id
    &&& forall|i: int, j: int|
        0 <= i < j < es.len() ==> (#[trigger] es[i]).0 != (#[trigger] es[j]).0
}

/// The label of a view that was switched to: its number and name.
pub open spec fn view_label(active: int) -> Seq<char> {
    " "@ + text::decimal((active + 1) as nat) + "/"@ + text::decimal(VIEW_COUNT as nat) + "  "@
        + views::view_name(active) + " "@
}

pub open spec fn backend_label(k: collectors::BackendKind) -> Seq<char> {
    " backend: "@ + collectors::kind_name(k) + " "@
}

/// The views by number and name.
pub open spec fn view_list() -> Seq<char> {
    text::decimal(1) + " "@ + views::view_name(0)
}

/// The lines of the help.
pub open spec fn help_lines() -> Seq<Seq<char>> {
    seq![
        "tokos — keybindings"@,
        ""@,
        "  q / Esc    quit"@,
        "  + / -      faster / slower refresh"@,
        "  p          pause / resume polling"@,
        "  b          cycle backend (auto → vllm → sglang)"@,
        "  Tab        cycle to the next view"@,
        "  1 - "@ + text::decimal(VIEW_COUNT as nat) + "      switch view"@,
        "  h / ?      toggle this help"@,
        ""@,
        "Views: "@ + view_list(),
        "  (panels unavailable on this host drop out automatically)"@,
        ""@,
        "press any key to close"@,
    ]
}

fn help_body() -> (r: Vec<String>)
    ensures
        text::views(r@) == help_lines(),
{
    let count = decimal_text(VIEW_COUNT as u64);
    let all = views();
    let list = decimal_text(1).concat(" ").concat(all[0].name);
    let r: Vec<String> = vec![
        "tokos — keybindings".to_owned(),
        "".to_owned(),
        "  q / Esc    quit".to_owned(),
        "  + / -      faster / slower refresh".to_owned(),
        "  p          pause / resume polling".to_owned(),
        "  b          cycle backend (auto → vllm → sglang)".to_owned(),
        "  Tab        cycle to the next view".to_owned(),
        "  1 - ".to_owned().concat(count.as_str()).concat("      switch view"),
        "  h / ?      toggle this help".to_owned(),
        "".to_owned(),
        "Views: ".to_owned().concat(list.as_str()),
        "  (panels unavailable on this host drop out automatically)".to_owned(),
        "".to_owned(),
        "press any key to close".to_owned(),
    ];
    assert(text::views(r@) =~= help_lines());
    r
}

/// The length of the longest line.
pub open spec fn longest(ls: Seq<Seq<char>>) -> nat
    decreases ls.len(),
{
    if ls.len() == 0 {
        0
    } else {
        let before = longest(ls.drop_last());
        if ls.last().len() > before {
            ls.last().len()
        } else {
            before
        }
    }
}

proof fn lemma_longest(ls: Seq<Seq<char>>, bound: nat)
    requires
        forall|i: int| 0 <= i < ls.len() ==> (#[trigger] ls[i]).len() <= bound,
    ensures
        longest(ls) <= bound,
    decreases ls.len(),
{
    if ls.len() > 0 {
        let front = ls.drop_last();
        assert forall|i: int| 0 <= i < front.len() implies (#[trigger] front[i]).len()
            <= bound by {
            assert(front[i] == ls[i]);
        }
        lemma_longest(front, bound);
        assert(ls[ls.len() - 1].len() <= bound);
    }
}

pub proof fn lemma_help_fits()
    ensures
        longest(help_lines()) <= 58,
{
    reveal_strlit("tokos — keybindings");
    reveal_strlit("");
    reveal_strlit("  q / Esc    quit");
    reveal_strlit("  + / -      faster / slower refresh");
    reveal_strlit("  p          pause / resume polling");
    reveal_strlit("  b          cycle backend (auto → vllm → sglang)");
    reveal_strlit("  Tab        cycle to the next view");
    reveal_strlit("  1 - ");
    reveal_strlit("      switch view");
    reveal_strlit("  h / ?      toggle this help");
    reveal_strlit("Views: ");
    reveal_strlit("  (panels unavailable on this host drop out automatically)");
    reveal_strlit("press any key to close");
    reveal_strlit("overview");
    reveal_strlit(" ");
    assert(text::decimal(1).len() == 1);
    lemma_longest(help_lines(), 58);
}

/// The area of the help, in the middle of the screen.
pub open spec fn help_area(lines: int, cols: int) -> Area {
    let w = (longest(help_lines()) + 4) as int;
    let h = (help_lines().len() + 2) as int;
    Area { y: centred(lines, h), x: centred(cols, w), h, w }
}

/// What has been drawn once the first `n` lines under the help are blanked.
pub open spec fn with_blanks(c: Canvas, ops: Seq<OpView>, a: Area, n: int) -> Seq<OpView>
    decreases n,
{
    if n <= 0 {
        ops
    } else {
        painter::with_text(
            c,
            with_blanks(c, ops, a, n - 1),
            a.y + n - 1,
            a.x,
            text::repeated(' ', a.w as nat),
            theme::styled(Pair::Default, false, false),
        )
    }
}

/// What has been drawn once the first `n` lines of the help are added.
pub open spec fn with_help_lines(c: Canvas, ops: Seq<OpView>, inner: Area, n: int) -> Seq<OpView>
    decreases n,
{
    if n <= 0 {
        ops
    } else {
        let pair = if n == 1 {
            Pair::Title
        } else {
            Pair::Dim
        };
        painter::with_text(
            c,
            with_help_lines(c, ops, inner, n - 1),
            inner.y + n - 1,
            inner.x + 1,
            help_lines()[n - 1],
            theme::styled(pair, false, false),
        )
    }
}

/// What has been drawn once the help is added.
pub open spec fn with_help(c: Canvas, ops: Seq<OpView>, lines: int, cols: int) -> Seq<OpView> {
    let a = help_area(lines, cols);
    let blank = with_blanks(c, ops, a, a.h);
    let none = Seq::<char>::empty();
    let boxed = painter::with_box(c, blank, a, "help"@, 0, Pair::Title, none, Pair::Div);
    with_help_lines(c, boxed, painter::inner_area(a), help_lines().len() as int)
}

fn draw_help(p: &mut Painter, lines: i32, cols: i32)
    requires
        0 <= lines <= 0xffff,
        0 <= cols <= 0xffff,
    ensures
        final(p).canvas() == old(p).canvas(),
        final(p)@ == with_help(old(p).canvas(), old(p)@, lines as int, cols as int),
{
    let ghost c = p.canvas();
    let ghost start = p@;
    let body = help_body();
    let ghost all = text::views(body@);
    let mut widest: usize = 0;
    assert(all.take(0) =~= Seq::empty());
    for i in 0..body.len()
        invariant
            all == text::views(body@),
            widest == longest(all.take(i as int)),
    {
        proof {
            assert(all.take(i + 1).drop_last() =~= all.take(i as int));
            assert(all.take(i + 1).last() == body@[i as int]@);
        }
        let n = body[i].as_str().unicode_len();
        if n > widest {
            widest = n;
        }
    }
    proof {
        assert(all.take(body@.len() as int) =~= all);
        lemma_help_fits();
    }
    let bw = widest as i32 + 4;
    let bh: i32 = 16;
    let y0 = if lines > bh {
        (lines - bh) / 2
    } else {
        0
    };
    let x0 = if cols > bw {
        (cols - bw) / 2
    } else {
        0
    };
    let rect = Rect::new(y0, x0, bh, bw);
    let ghost a = help_area(lines as int, cols as int);
    assert(body@.len() == all.len() == 14);
    assert(rect@ =~= a);

    // Clear the area under the overlay so panel content doesn't bleed through.
    let blank = repeat(' ', bw as usize);
    let plain = p.attr(Pair::Default, false, false);
    for row in 0..bh
        invariant
            rect@ == a,
            rect == (Rect { y: y0, x: x0, h: bh, w: bw }),
            0 <= y0 <= 0xffff,
            bh == 16,
            blank@ == text::repeated(' ', bw as nat),
            plain == theme::styled(Pair::Default, false, false),
            p.canvas() == c,
            p@ == with_blanks(c, start, a, row as int),
    {
        p.text(y0 + row, x0, blank.as_str(), plain);
    }
    proof {
        reveal_strlit("");
        assert(""@ =~= Seq::<char>::empty());
    }
    let inner = p.box_(rect, "help", 0, Pair::Title, "", Pair::Div);
    let ghost boxed = p@;
    for i in 0..body.len()
        invariant
            body@.len() == 14,
            all == text::views(body@),
            all == help_lines(),
            inner@ == painter::inner_area(a),
            a.h == 16,
            0 <= a.y <= 0xffff,
            0 <= a.x <= 0xffff,
            a.w >= 4,
            p.canvas() == c,
            p@ == with_help_lines(c, boxed, inner@, i as int),
    {
        assert(body@[i as int]@ == all[i as int]);
        let pair = if i == 0 {
            Pair::Title
        } else {
            Pair::Dim
        };
        let style = p.attr(pair, false, false);
        p.text(inner.y + i as i32, inner.x + 1, body[i].as_str(), style);
    }
}

/// What a frame shows beside the panels.
pub struct Overlays {
    /// The name of the view that was just switched to.
    pub view_toast: bool,
    /// The name of the backend that was just asked for.
    pub backend_toast: bool,
}

/// What has been drawn once the overlays are added.
pub open spec fn with_overlays(
    c: Canvas,
    ops: Seq<OpView>,
    lines: int,
    cols: int,
    k: Controls,
    o: Overlays,
) -> Seq<OpView> {
    let hi = theme::styled(Pair::Hi, true, false);
    let viewed = if o.view_toast {
        with_centred(c, ops, 0, cols, view_label(k.active_view as int), hi)
    } else {
        ops
    };
    let named = if o.backend_toast {
        with_centred(c, viewed, 1, cols, backend_label(k.backend), hi)
    } else {
        viewed
    };
    if k.show_help {
        with_help(c, named, lines, cols)
    } else {
        named
    }
}

fn draw_overlays(p: &mut Painter, lines: i32, cols: i32, k: &Controls, o: &Overlays)
    requires
        0 <= lines <= 0xffff,
        0 <= cols <= 0xffff,
        k.active_view < VIEW_COUNT,
    ensures
        final(p).canvas() == old(p).canvas(),
        final(p)@ == with_overlays(old(p).canvas(), old(p)@, lines as int, cols as int, *k, *o),
{
    let hi = p.attr(Pair::Hi, true, false);
    if o.view_toast {
        let all = views();
        let label = " ".to_owned().concat(
            decimal_text((k.active_view + 1) as u64).as_str(),
        ).concat("/").concat(decimal_text(VIEW_COUNT as u64).as_str()).concat("  ").concat(
            all[k.active_view].name,
        ).concat(" ");
        draw_centred(p, 0, cols, label.as_str(), hi);
    }
    if o.backend_toast {
        let label = " backend: ".to_owned().concat(k.backend.as_str()).concat(" ");
        draw_centred(p, 1, cols, label.as_str(), hi);
    }
    if k.show_help {
        draw_help(p, lines, cols);
    }
}

/// The ids of the panels that are shown: the requests panel only where a log
/// is followed.
pub open spec fn panels_shown(has_log: bool) -> Seq<Seq<char>> {
    if has_log {
        seq![
            registry::panel_id(Drawing::Throughput),
            registry::panel_id(Drawing::Requests),
            registry::panel_id(Drawing::Perf),
            registry::panel_id(Drawing::Loadavg),
        ]
    } else {
        seq![
            registry::panel_id(Drawing::Throughput),
            registry::panel_id(Drawing::Perf),
            registry::panel_id(Drawing::Loadavg),
        ]
    }
}

/// `r` is when a toast that comes up at `now` goes: one and a half seconds
/// later.
pub open spec fn is_toast_end<T: Arithmetic>(t: T, now: T::F, r: T::F) -> bool {
    exists|stay: T::F| #[trigger]
        state::is_fraction(t, 3, 2, stay) && call_ensures(T::plus, (&t, now, stay), r)
}

/// When a toast that comes up now goes.
pub fn toast_end<T: Arithmetic>(t: &T, now: T::F) -> (r: T::F)
    ensures
        is_toast_end(*t, now, r),
{
    let stay = fraction(t, 3, 2);
    t.plus(now, stay)
}

/// The toasts that are up: those whose end has not come.
pub fn overlays<T: Arithmetic>(t: &T, now: T::F, view_until: T::F, backend_until: T::F) -> (r:
    Overlays)
    ensures
        call_ensures(T::under, (t, now, view_until), r.view_toast),
        call_ensures(T::under, (t, now, backend_until), r.backend_toast),
{
    let view_toast = t.under(now, view_until);
    let backend_toast = t.under(now, backend_until);
    Overlays { view_toast, backend_toast }
}

/// The panels whose requirements are met; following a log is the one
/// capability there is.
pub fn available_caps(has_log: bool) -> (r: Vec<&'static str>)
    ensures
        r@.map_values(|s: &'static str| s@) == panels_shown(has_log),
{
    let mut caps: Vec<&str> = Vec::new();
    if has_log {
        caps.push("log");
    }
    let panels = registry();
    let r = available_panels(&panels, &caps);
    proof {
        let ps = panels@;
        let names = |s: &'static str| s@;
        assert forall|i: int| 0 <= i < 4 implies registry::is_met(#[trigger] ps[i], caps@) == (i
            != 1 || has_log) by {
            let p = ps[i];
            assert(registry::is_panel_of(p, registry::drawing_at(i)));
            let wanted = p.requires@.map_values(names);
            assert(wanted.len() == p.requires@.len());
            if i == 1 {
                assert(wanted[0] == "log"@);
                assert(p.requires@[0]@ == "log"@);
                if has_log {
                    assert(caps@[0]@ == "log"@);
                    assert(layout::listed(caps@, "log"@));
                } else {
                    assert(!layout::listed(caps@, p.requires@[0]@));
                }
            }
        }
        assert(registry::is_panel_of(ps[0], Drawing::Throughput));
        assert(registry::is_panel_of(ps[1], Drawing::Requests));
        assert(registry::is_panel_of(ps[2], Drawing::Perf));
        assert(registry::is_panel_of(ps[3], Drawing::Loadavg));
        reveal_with_fuel(registry::met_upto, 5);
        assert(registry::met_upto(ps, caps@, 4) =~= panels_shown(has_log));
    }
    r
}

/// What has been drawn once a frame is added, given the order in which its
/// panels are drawn.
pub open spec fn with_frame<F>(
    c: Canvas,
    ops: Seq<OpView>,
    lines: int,
    cols: int,
    es: Seq<(Seq<char>, Area)>,
    t: PanelTexts,
    snap: Snapshot<F>,
    k: Controls,
    o: Overlays,
) -> Seq<OpView> {
    if layout::is_too_small(lines, cols) {
        with_centred(
            c,
            ops,
            lines / 2,
            cols,
            "terminal too small — resize to at least 62x20"@,
            theme::styled(Pair::Yellow, true, false),
        )
    } else {
        let drawn = with_panels(c, ops, es, t, snap, es.len() as int);
        let noted = if es.len() == 0 {
            with_centred(
                c,
                drawn,
                lines / 2,
                cols,
                "no panels available in this view"@,
                theme::styled(Pair::Dim, false, true),
            )
        } else {
            drawn
        };
        with_overlays(c, noted, lines, cols, k, o)
    }
}

/// Draws a frame: the available panels of the active view, each in its place,
/// and what lies over them.
pub fn draw_frame<F>(
    p: &mut Painter,
    lines: i32,
    cols: i32,
    available: &Vec<&str>,
    t: &PanelTexts,
    snap: &Snapshot<F>,
    k: &Controls,
    o: &Overlays,
)
    requires
        0 <= lines <= 0xffff,
        0 <= cols <= 0xffff,
        k.active_view < VIEW_COUNT,
        t.wf(snap),
    ensures
        final(p).canvas() == old(p).canvas(),
        exists|es: Seq<(Seq<char>, Area)>|
            lists_map(
                es,
                layout::map_of(
                    layout::arrangement(
                        lines as int,
                        cols as int,
                        views::view_tree(k.active_view as int),
                        available@,
                    ),
                ),
            ) && final(p)@ == #[trigger] with_frame(
                old(p).canvas(),
                old(p)@,
                lines as int,
                cols as int,
                es,
                *t,
                *snap,
                *k,
                *o,
            ),
{
    let ghost c = p.canvas();
    let ghost start = p@;
    let all = views();
    let view = &all[k.active_view];
    let ghost tree = views::view_tree(k.active_view as int);
    let ghost most = views::VIEW_WEIGHT as int;
    proof {
        views::law_views_are_proportioned(k.active_view as int);
        assert(tiling::splittable(most, lines as int, cols as int)) by (nonlinear_arith)
            requires
                most == 0x7fff,
                0 <= lines <= 0xffff,
                0 <= cols <= 0xffff,
        ;
        tiling::law_every_screen(tree, available@, most, lines as int, cols as int);
        tiling::law_panels_on_screen(tree, available@, most, lines as int, cols as int);
    }
    let lay = compute_layout(lines, cols, &view.root, available);
    let entries = lay.panels.entries();
    let ghost es = entries@.map_values(|e: (&'static str, Rect)| (e.0@, e.1@));
    proof {
        let m = lay.panels@;
        assert forall|i: int| 0 <= i < es.len() implies m.dom().contains((#[trigger] es[i]).0)
            && m[es[i].0] == es[i].1 by {
            assert(entries@[i].0@ == es[i].0);
        }
        assert forall|id: Seq<char>| #[trigger] m.dom().contains(id) implies exists|i: int|
            0 <= i < es.len() && (#[trigger] es[i]).0 == id by {
            let i = choose|i: int| 0 <= i < entries@.len() && (#[trigger] entries@[i]).0@ == id;
            assert(es[i].0 == id);
        }
        assert forall|i: int, j: int| 0 <= i < j < es.len() implies (#[trigger] es[i]).0 != (
        #[trigger] es[j]).0 by {
            assert(entries@[i].0@ == es[i].0);
            assert(entries@[j].0@ == es[j].0);
        }
        assert(lists_map(es, m));
    }
    if lay.too_small {
        let style = p.attr(Pair::Yellow, true, false);
        draw_centred(
            p,
            lines / 2,
            cols,
            "terminal too small — resize to at least 62x20",
            style,
        );
        assert(p@ == with_frame(c, start, lines as int, cols as int, es, *t, *snap, *k, *o));
        return ;
    }
    let n = entries.len();
    for i in 0..n
        invariant
            0 <= lines <= 0xffff,
            0 <= cols <= 0xffff,
            n == entries@.len(),
            es == entries@.map_values(|e: (&'static str, Rect)| (e.0@, e.1@)),
            forall|j: int| 0 <= j < es.len() ==> tiling::on_screen(
                (#[trigger] es[j]).1,
                lines as int,
                cols as int,
            ),
            t.wf(snap),
            p.canvas() == c,
            p@ == with_panels(c, start, es, *t, *snap, i as int),
    {
        let (id, rect) = entries[i];
        assert(es[i as int] == (id@, rect@));
        if let Some(panel) = find_panel(id) {
            draw_panel(p, panel.draw, rect, t, snap);
        }
    }
    if n == 0 {
        let style = p.attr(Pair::Dim, false, true);
        draw_centred(p, lines / 2, cols, "no panels available in this view", style);
    }
    draw_overlays(p, lines, cols, k, o);
    assert(p@ == with_frame(c, start, lines as int, cols as int, es, *t, *snap, *k, *o));
}

/// The requests panel is available just where a log is followed; all others
/// always are.
pub proof fn law_feed_needs_a_log(has_log: bool)
    ensures
        panels_shown(has_log).contains("requests"@) <==> has_log,
        panels_shown(has_log).contains("throughput"@),
        panels_shown(has_log).contains("perf"@),
        panels_shown(has_log).contains("loadavg"@),
{
    reveal_strlit("throughput");
    reveal_strlit("requests");
    reveal_strlit("perf");
    reveal_strlit("loadavg");
    let ps = panels_shown(has_log);
    if has_log {
        assert(ps[0] == "throughput"@ && ps[1] == "requests"@);
        assert(ps[2] == "perf"@ && ps[3] == "loadavg"@);
    } else {
        assert(ps[0] == "throughput"@ && ps[1] == "perf"@ && ps[2] == "loadavg"@);
        assert("requests"@.len() == 8);
        assert forall|i: int| 0 <= i < ps.len() implies #[trigger] ps[i] != "requests"@ by {
            assert(ps[i].len() != 8);
        }
    }
}

} // verus!
