//! How the screen is divided: each part gets its share, and lies where the
//! layout says.

use vstd::prelude::*;

use crate::ui::layout;
use crate::ui::layout::{Area, Tree};
use crate::ui::views;

verus! {

/// A segment is the whole part of its weight's share of the total; the last one
/// is not below its share, as it takes what the others leave.
pub proof fn law_segments_are_shares(total: int, ws: Seq<int>, k: int)
    requires
        total >= 0,
        forall|i: int| 0 <= i < ws.len() ==> #[trigger] ws[i] >= 0,
        layout::sum_of(ws) > 0,
        0 <= k < ws.len(),
    ensures
        ({
            let all = layout::sum_of(ws);
            let part = layout::segment(total, ws, k);
            if k < ws.len() - 1 {
                all * part <= total * ws[k] && total * ws[k] < all * (part + 1)
            } else {
                total * ws[k] <= all * part
            }
        }),
{
    let all = layout::sum_of(ws);
    let part = layout::segment(total, ws, k);
    if k < ws.len() - 1 {
        lemma_share(total * ws[k], all, total, ws[k]);
    } else {
        lemma_taken(total, ws, k);
        assert(ws.take(k) =~= ws.drop_last());
        let before = layout::taken(total, ws, k);
        let rest = layout::sum_of(ws.drop_last());
        assert(total * ws[k] <= all * part) by (nonlinear_arith)
            requires
                all == rest + ws[k],
                part == total - before,
                all * before <= total * rest,
        ;
    }
}

proof fn lemma_share(n: int, all: int, total: int, w: int)
    requires
        n == total * w,
        total >= 0,
        w >= 0,
        all > 0,
    ensures
        all * layout::quotient(n, all) <= n,
        n < all * (layout::quotient(n, all) + 1),
{
    assert(n >= 0) by (nonlinear_arith)
        requires
            n == total * w,
            total >= 0,
            w >= 0,
    ;
    let q = n / all;
    assert(all * q <= n && n < all * (q + 1)) by (nonlinear_arith)
        requires
            q == n / all,
            all > 0,
    ;
}

proof fn lemma_taken(total: int, ws: Seq<int>, k: int)
    requires
        total >= 0,
        forall|i: int| 0 <= i < ws.len() ==> #[trigger] ws[i] >= 0,
        layout::sum_of(ws) > 0,
        0 <= k <= ws.len(),
    ensures
        layout::sum_of(ws) * layout::taken(total, ws, k) <= total * layout::sum_of(ws.take(k)),
    decreases k,
{
    let all = layout::sum_of(ws);
    if k > 0 {
        lemma_taken(total, ws, k - 1);
        lemma_share(total * ws[k - 1], all, total, ws[k - 1]);
        assert(ws.take(k).drop_last() =~= ws.take(k - 1));
        let before = layout::taken(total, ws, k - 1);
        let q = layout::quotient(total * ws[k - 1], all);
        let (s, w) = (layout::sum_of(ws.take(k - 1)), ws[k - 1]);
        assert(all * (before + q) <= total * (s + w)) by (nonlinear_arith)
            requires
                all * before <= total * s,
                all * q <= total * w,
        ;
    } else {
        assert(ws.take(0) =~= Seq::empty());
        assert(all * 0 == 0 && total * 0 == 0) by (nonlinear_arith);
    }
}

/// The parts of a row lie side by side over its whole height, the first on the
/// left; those of a column one below the other over its whole width, the first
/// on top. Both fill the whole.
pub proof fn law_rows_and_columns(n: Tree, a: Area, k: int)
    requires
        0 <= k < n.children.len(),
    ensures
        ({
            let s = layout::slot(n, a, k);
            if n.vertical {
                &&& s.x == a.x && s.w == a.w
                &&& k == 0 ==> s.y == a.y
                &&& k > 0 ==> s.y == layout::slot(n, a, k - 1).y + layout::slot(n, a, k - 1).h
                &&& k == n.children.len() - 1 ==> s.y + s.h == a.y + a.h
            } else {
                &&& s.y == a.y && s.h == a.h
                &&& k == 0 ==> s.x == a.x
                &&& k > 0 ==> s.x == layout::slot(n, a, k - 1).x + layout::slot(n, a, k - 1).w
                &&& k == n.children.len() - 1 ==> s.x + s.w == a.x + a.w
            }
        }),
{
    assert(layout::weights_of(n).len() == n.children.len());
}

/// `part` is the whole part of `n` in `d` of `all`.
pub open spec fn is_share_of(part: int, n: int, d: int, all: int) -> bool {
    d * part <= n * all && n * all < d * (part + 1)
}

/// In the overview, where every panel is available, the request feed takes the
/// full width below; above it, with two thirds of the lines, the windowed
/// averages stand on the left in a third of the columns, and on the right
/// throughput above performance, in halves.
pub proof fn law_overview(lines: int, cols: int, available: Seq<&str>) -> (r: (
    Area,
    Area,
    Area,
    Area,
))
    requires
        !layout::is_too_small(lines, cols),
        layout::listed(available, "loadavg"@),
        layout::listed(available, "throughput"@),
        layout::listed(available, "perf"@),
        layout::listed(available, "requests"@),
    ensures
        layout::arrangement(lines, cols, views::view_tree(0), available) == seq![
            ("loadavg"@, r.0),
            ("throughput"@, r.1),
            ("perf"@, r.2),
            ("requests"@, r.3),
        ],
        r.0.y == 0 && r.0.x == 0 && r.1.y == 0,
        r.1.x == r.0.w && r.2.x == r.0.w,
        r.1.w == cols - r.0.w && r.2.w == cols - r.0.w,
        r.2.y == r.1.h && r.1.h + r.2.h == r.0.h,
        r.3.x == 0 && r.3.w == cols,
        r.3.y == r.0.h && r.3.h == lines - r.0.h,
        is_share_of(r.0.h, 2, 3, lines),
        is_share_of(r.0.w, 1, 3, cols),
        is_share_of(r.1.h, 1, 2, r.0.h),
{
    let thru = views::leaf_tree("throughput"@, 1);
    let perf = views::leaf_tree("perf"@, 1);
    let load = views::leaf_tree("loadavg"@, 1);
    let feed = views::leaf_tree("requests"@, 2);
    let main = views::split_tree(true, 2, seq![thru, perf]);
    let top = views::split_tree(false, 4, seq![load, main]);
    let all = views::split_tree(true, 1, seq![top, feed]);
    lemma_kept_pair(true, 2, thru, perf, available);
    lemma_kept_pair(false, 4, load, main, available);
    lemma_kept_pair(true, 1, top, feed, available);
    let s = layout::screen(lines, cols);
    lemma_placed_pair(true, 1, top, feed, s);
    let upper = layout::slot(all, s, 0);
    let below = layout::slot(all, s, 1);
    lemma_placed_pair(false, 4, load, main, upper);
    let left = layout::slot(top, upper, 0);
    let right = layout::slot(top, upper, 1);
    lemma_placed_pair(true, 2, thru, perf, right);
    let first = layout::slot(main, right, 0);
    let second = layout::slot(main, right, 1);
    assert(layout::arrangement(lines, cols, views::view_tree(0), available) =~= seq![
        ("loadavg"@, left),
        ("throughput"@, first),
        ("perf"@, second),
        ("requests"@, below),
    ]);
    lemma_pair_slots(true, 1, top, feed, s);
    lemma_pair_slots(false, 4, load, main, upper);
    lemma_pair_slots(true, 2, thru, perf, right);
    (left, first, second, below)
}

proof fn lemma_kept_pair(
    vertical: bool,
    weight: int,
    a: Tree,
    b: Tree,
    available: Seq<&str>,
)
    requires
        layout::pruned(a, available) == Some(a),
        layout::pruned(b, available) == Some(b),
    ensures
        layout::pruned(views::split_tree(vertical, weight, seq![a, b]), available) == Some(
            views::split_tree(vertical, weight, seq![a, b]),
        ),
{
    let kids = seq![a, b];
    assert(kids.drop_last() =~= seq![a]);
    assert(seq![a].drop_last() =~= Seq::<Tree>::empty());
    assert(layout::pruned_all(Seq::<Tree>::empty(), available) =~= Seq::empty());
    assert(layout::pruned_all(seq![a], available) =~= seq![a]);
    assert(layout::pruned_all(kids, available) =~= kids);
}

proof fn lemma_placed_pair(vertical: bool, weight: int, a: Tree, b: Tree, area: Area)
    ensures
        ({
            let t = views::split_tree(vertical, weight, seq![a, b]);
            layout::placed(t, area) == layout::placed(a, layout::slot(t, area, 0))
                + layout::placed(b, layout::slot(t, area, 1))
        }),
{
    let t = views::split_tree(vertical, weight, seq![a, b]);
    assert(layout::placed_upto(t, area, 0) =~= Seq::empty());
    assert(layout::placed_upto(t, area, 1) =~= layout::placed(a, layout::slot(t, area, 0)));
    assert(layout::placed_upto(t, area, 2) =~= layout::placed(a, layout::slot(t, area, 0))
        + layout::placed(b, layout::slot(t, area, 1)));
}

proof fn lemma_pair_slots(vertical: bool, weight: int, a: Tree, b: Tree, area: Area)
    requires
        area.h >= 0,
        area.w >= 0,
        a.weight > 0,
        b.weight > 0,
    ensures
        ({
            let t = views::split_tree(vertical, weight, seq![a, b]);
            let (s, u) = (layout::slot(t, area, 0), layout::slot(t, area, 1));
            let d = a.weight + b.weight;
            if vertical {
                &&& s == (Area { h: s.h, ..area })
                &&& u == (Area { y: area.y + s.h, h: area.h - s.h, ..area })
                &&& is_share_of(s.h, a.weight, d, area.h)
                &&& 0 <= s.h <= area.h
            } else {
                &&& s == (Area { w: s.w, ..area })
                &&& u == (Area { x: area.x + s.w, w: area.w - s.w, ..area })
                &&& is_share_of(s.w, a.weight, d, area.w)
                &&& 0 <= s.w <= area.w
            }
        }),
{
    let t = views::split_tree(vertical, weight, seq![a, b]);
    let ws = layout::weights_of(t);
    assert(ws =~= seq![a.weight, b.weight]);
    assert(ws.drop_last() =~= seq![a.weight]);
    assert(ws.drop_last().drop_last() =~= Seq::empty());
    assert(layout::sum_of(ws.drop_last().drop_last()) == 0);
    assert(layout::sum_of(ws.drop_last()) == a.weight);
    assert(layout::sum_of(ws) == a.weight + b.weight);
    let total = if vertical {
        area.h
    } else {
        area.w
    };
    law_segments_are_shares(total, ws, 0);
    law_rows_and_columns(t, area, 0);
    law_rows_and_columns(t, area, 1);
    let (d, w) = (a.weight + b.weight, a.weight);
    let part = layout::segment(total, ws, 0);
    assert(0 <= part <= total && is_share_of(part, w, d, total)) by (nonlinear_arith)
        requires
            d * part <= total * w,
            total * w < d * (part + 1),
            0 < w < d,
            total >= 0,
    ;
}

} // verus!
