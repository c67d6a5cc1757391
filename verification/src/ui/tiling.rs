//! What holds of every layout: the panels tile the screen.

use vstd::prelude::*;

use crate::ui::layout;
use crate::ui::layout::{Area, Tree};

verus! {

/// No weight is negative, and the weights of siblings add up to no more than
/// `most`.
pub open spec fn proportioned(n: Tree, most: int) -> bool
    decreases n,
{
    &&& n.weight >= 0
    &&& layout::sum_of(layout::weights_of(n)) <= most
    &&& forall|k: int| 0 <= k < n.children.len() ==> proportioned(#[trigger] n.children[k], most)
}

/// No split is without children.
pub open spec fn solid(n: Tree) -> bool
    decreases n,
{
    n.panel is None ==> {
        &&& n.children.len() > 0
        &&& forall|k: int| 0 <= k < n.children.len() ==> solid(#[trigger] n.children[k])
    }
}

/// The cell in line `y` and column `x` is in the area.
pub open spec fn inside(a: Area, y: int, x: int) -> bool {
    a.y <= y < a.y + a.h && a.x <= x < a.x + a.w
}

/// How many of the panels the cell is in.
pub open spec fn coverage(es: Seq<(Seq<char>, Area)>, y: int, x: int) -> nat
    decreases es.len(),
{
    if es.len() == 0 {
        0
    } else {
        coverage(es.drop_last(), y, x) + if inside(es.last().1, y, x) {
            1nat
        } else {
            0nat
        }
    }
}

proof fn lemma_coverage_add(
    a: Seq<(Seq<char>, Area)>,
    b: Seq<(Seq<char>, Area)>,
    y: int,
    x: int,
)
    ensures
        coverage(a + b, y, x) == coverage(a, y, x) + coverage(b, y, x),
    decreases b.len(),
{
    if b.len() == 0 {
        assert(a + b =~= a);
    } else {
        assert((a + b).drop_last() =~= a + b.drop_last());
        lemma_coverage_add(a, b.drop_last(), y, x);
    }
}

proof fn lemma_sum_of_part(ws: Seq<int>, k: int)
    requires
        0 <= k <= ws.len(),
        forall|i: int| 0 <= i < ws.len() ==> #[trigger] ws[i] >= 0,
    ensures
        0 <= layout::sum_of(ws.take(k)) <= layout::sum_of(ws),
    decreases ws.len(),
{
    if k == ws.len() {
        assert(ws.take(k) =~= ws);
        lemma_sum_nonnegative(ws);
    } else {
        let front = ws.drop_last();
        assert forall|i: int| 0 <= i < front.len() implies #[trigger] front[i] >= 0 by {
            assert(front[i] == ws[i]);
        }
        assert(ws[ws.len() - 1] >= 0);
        lemma_sum_of_part(front, k);
        assert(front.take(k) =~= ws.take(k));
    }
}

proof fn lemma_sum_nonnegative(ws: Seq<int>)
    requires
        forall|i: int| 0 <= i < ws.len() ==> #[trigger] ws[i] >= 0,
    ensures
        layout::sum_of(ws) >= 0,
    decreases ws.len(),
{
    if ws.len() > 0 {
        let front = ws.drop_last();
        assert forall|i: int| 0 <= i < front.len() implies #[trigger] front[i] >= 0 by {
            assert(front[i] == ws[i]);
        }
        assert(ws[ws.len() - 1] >= 0);
        lemma_sum_nonnegative(front);
    }
}

/// The segments before `k` take no more than their weights' share.
proof fn lemma_taken_share(total: int, ws: Seq<int>, k: int)
    requires
        total >= 0,
        0 <= k <= ws.len(),
        forall|i: int| 0 <= i < ws.len() ==> #[trigger] ws[i] >= 0,
    ensures
        0 <= layout::taken(total, ws, k),
        layout::taken(total, ws, k) * layout::weight_total(ws) <= total * layout::sum_of(
            ws.take(k),
        ),
    decreases k,
{
    let tw = layout::weight_total(ws);
    if k == 0 {
        assert(ws.take(0) =~= Seq::empty());
        assert(0 * tw == 0) by (nonlinear_arith);
        assert(total * 0 == 0) by (nonlinear_arith);
    } else {
        lemma_taken_share(total, ws, k - 1);
        let w = ws[k - 1];
        assert(w >= 0);
        let t = layout::taken(total, ws, k - 1);
        let s = layout::sum_of(ws.take(k - 1));
        assert(ws.take(k).drop_last() =~= ws.take(k - 1));
        assert(total * w >= 0) by (nonlinear_arith)
            requires
                total >= 0,
                w >= 0,
        ;
        let q = (total * w) / tw;
        assert(q >= 0 && q * tw <= total * w) by (nonlinear_arith)
            requires
                q == (total * w) / tw,
                tw >= 1,
                total * w >= 0,
        ;
        assert((t + q) * tw <= total * (s + w)) by (nonlinear_arith)
            requires
                t * tw <= total * s,
                q * tw <= total * w,
        ;
    }
}

proof fn lemma_taken_bounds(total: int, ws: Seq<int>, k: int)
    requires
        total >= 0,
        0 <= k <= ws.len(),
        forall|i: int| 0 <= i < ws.len() ==> #[trigger] ws[i] >= 0,
    ensures
        0 <= layout::taken(total, ws, k) <= total,
{
    lemma_taken_share(total, ws, k);
    lemma_sum_of_part(ws, k);
    let tw = layout::weight_total(ws);
    let t = layout::taken(total, ws, k);
    let s = layout::sum_of(ws.take(k));
    assert(t <= total) by (nonlinear_arith)
        requires
            t * tw <= total * s,
            0 <= s <= tw,
            tw >= 1,
            total >= 0,
            t >= 0,
    ;
}

/// Segments lie one after the other, from the start to the end of what is
/// split, and none has a negative length where no weight is negative.
pub proof fn law_segments_tile(start: int, total: int, ws: Seq<int>)
    requires
        total >= 0,
        ws.len() > 0,
        forall|i: int| 0 <= i < ws.len() ==> #[trigger] ws[i] >= 0,
    ensures
        layout::taken(total, ws, 0) == 0,
        forall|k: int|
            0 <= k < ws.len() - 1 ==> #[trigger] layout::taken(total, ws, k + 1) == layout::taken(
                total,
                ws,
                k,
            ) + layout::segment(total, ws, k),
        layout::taken(total, ws, ws.len() - 1) + layout::segment(total, ws, ws.len() - 1) == total,
        forall|k: int| 0 <= k < ws.len() ==> #[trigger] layout::segment(total, ws, k) >= 0,
{
    assert forall|k: int| 0 <= k < ws.len() implies #[trigger] layout::segment(total, ws, k)
        >= 0 by {
        lemma_segment(total, ws, k);
    }
}

proof fn lemma_segment(total: int, ws: Seq<int>, k: int)
    requires
        total >= 0,
        0 <= k < ws.len(),
        forall|i: int| 0 <= i < ws.len() ==> #[trigger] ws[i] >= 0,
    ensures
        0 <= layout::segment(total, ws, k),
        0 <= layout::taken(total, ws, k),
        layout::taken(total, ws, k) + layout::segment(total, ws, k) <= total,
        k < ws.len() - 1 ==> layout::taken(total, ws, k + 1) == layout::taken(total, ws, k)
            + layout::segment(total, ws, k),
{
    lemma_taken_bounds(total, ws, k);
    if k < ws.len() - 1 {
        lemma_taken_bounds(total, ws, k + 1);
        let w = ws[k];
        let tw = layout::weight_total(ws);
        assert(total * w >= 0) by (nonlinear_arith)
            requires
                total >= 0,
                w >= 0,
        ;
        assert((total * w) / tw >= 0) by (nonlinear_arith)
            requires
                total * w >= 0,
                tw >= 1,
        ;
    }
}

proof fn lemma_weights(n: Tree, most: int)
    requires
        proportioned(n, most),
    ensures
        forall|i: int|
            0 <= i < layout::weights_of(n).len() ==> #[trigger] layout::weights_of(n)[i] >= 0,
        forall|i: int|
            0 <= i < layout::weights_of(n).len() ==> #[trigger] layout::weights_of(n)[i] <= most,
{
    let ws = layout::weights_of(n);
    assert forall|i: int| 0 <= i < ws.len() implies #[trigger] ws[i] >= 0 by {
        assert(proportioned(n.children[i], most));
    }
    assert forall|i: int| 0 <= i < ws.len() implies #[trigger] ws[i] <= most by {
        lemma_sum_of_part(ws, i + 1);
        lemma_sum_of_part(ws, i);
        assert(ws.take(i + 1).drop_last() =~= ws.take(i));
        assert(ws.take(i + 1).last() == ws[i]);
    }
}

/// An area on a screen of `lines` by `cols`.
pub open spec fn on_screen(a: Area, lines: int, cols: int) -> bool {
    &&& 0 <= a.y && 0 <= a.h && a.y + a.h <= lines
    &&& 0 <= a.x && 0 <= a.w && a.x + a.w <= cols
}

proof fn lemma_splits(start: int, total: int, ws: Seq<int>, most: int, side: int)
    requires
        0 <= start,
        0 <= total,
        start + total <= side <= i32::MAX,
        most <= i32::MAX,
        most * side <= i32::MAX,
        layout::sum_of(ws) <= most,
        forall|i: int| 0 <= i < ws.len() ==> 0 <= #[trigger] ws[i] <= most,
    ensures
        layout::splits(start, total, ws),
{
    assert forall|k: int| 0 <= k <= ws.len() implies layout::in_i32(
        layout::sum_of(#[trigger] ws.take(k)),
    ) by {
        lemma_sum_of_part(ws, k);
    }
    assert forall|k: int| 0 <= k < ws.len() - 1 implies layout::in_i32(total * #[trigger] ws[k])
        && layout::in_i32(layout::taken(total, ws, k + 1)) && layout::in_i32(
        start + layout::taken(total, ws, k + 1),
    ) && layout::in_i32(total - layout::taken(total, ws, k + 1)) by {
        lemma_taken_bounds(total, ws, k + 1);
        let w = ws[k];
        assert(0 <= total * w <= most * side) by (nonlinear_arith)
            requires
                0 <= total <= side,
                0 <= w <= most,
        ;
    }
}

proof fn lemma_slot(n: Tree, a: Area, k: int, most: int, lines: int, cols: int)
    requires
        proportioned(n, most),
        on_screen(a, lines, cols),
        0 <= k < n.children.len(),
    ensures
        on_screen(layout::slot(n, a, k), lines, cols),
{
    lemma_weights(n, most);
    if n.vertical {
        lemma_segment(a.h, layout::weights_of(n), k);
    } else {
        lemma_segment(a.w, layout::weights_of(n), k);
    }
}

proof fn lemma_fits(n: Tree, a: Area, most: int, lines: int, cols: int)
    requires
        proportioned(n, most),
        on_screen(a, lines, cols),
        splittable(most, lines, cols),
    ensures
        layout::fits(n, a),
    decreases n,
{
    if n.panel is None {
        lemma_weights(n, most);
        if n.vertical {
            lemma_splits(a.y, a.h, layout::weights_of(n), most, lines);
        } else {
            lemma_splits(a.x, a.w, layout::weights_of(n), most, cols);
        }
        assert forall|k: int| 0 <= k < n.children.len() implies layout::fits(
            #[trigger] n.children[k],
            layout::slot(n, a, k),
        ) by {
            lemma_slot(n, a, k, most, lines, cols);
            assert(proportioned(n.children[k], most));
            lemma_fits(n.children[k], layout::slot(n, a, k), most, lines, cols);
        }
    }
}

proof fn lemma_pruned_all(ns: Seq<Tree>, available: Seq<&str>, most: int)
    requires
        forall|k: int| 0 <= k < ns.len() ==> proportioned(#[trigger] ns[k], most),
    ensures
        forall|k: int|
            0 <= k < layout::pruned_all(ns, available).len() ==> proportioned(
                #[trigger] layout::pruned_all(ns, available)[k],
                most,
            ) && solid(layout::pruned_all(ns, available)[k]),
        layout::sum_of(layout::pruned_all(ns, available).map_values(|c: Tree| c.weight))
            <= layout::sum_of(ns.map_values(|c: Tree| c.weight)),
    decreases ns,
{
    if ns.len() > 0 {
        let front = ns.drop_last();
        assert forall|k: int| 0 <= k < front.len() implies proportioned(
            #[trigger] front[k],
            most,
        ) by {
            assert(front[k] == ns[k]);
        }
        lemma_pruned_all(front, available, most);
        let last = ns.last();
        assert(proportioned(ns[ns.len() - 1], most));
        lemma_pruned(last, available, most);
        let all = layout::pruned_all(ns, available);
        let before = layout::pruned_all(front, available);
        let ws = ns.map_values(|c: Tree| c.weight);
        assert(ws.drop_last() =~= front.map_values(|c: Tree| c.weight));
        assert(ws.last() == last.weight);
        if let Some(k) = layout::pruned(last, available) {
            let kept = all.map_values(|c: Tree| c.weight);
            assert(kept.drop_last() =~= before.map_values(|c: Tree| c.weight));
            assert(kept.last() == last.weight);
        }
    }
}

/// Pruning keeps a tree's weight and proportions, and leaves no empty split.
pub proof fn lemma_pruned(n: Tree, available: Seq<&str>, most: int)
    requires
        proportioned(n, most),
    ensures
        layout::pruned(n, available) matches Some(t) ==> t.weight == n.weight && proportioned(
            t,
            most,
        ) && solid(t),
    decreases n,
{
    if n.panel is None {
        assert forall|k: int| 0 <= k < n.children.len() implies proportioned(
            #[trigger] n.children[k],
            most,
        ) by {}
        lemma_pruned_all(n.children, available, most);
        let kids = layout::pruned_all(n.children, available);
        if kids.len() == 1 {
            assert(proportioned(kids[0], most) && solid(kids[0]));
            let t = Tree { weight: n.weight, ..kids[0] };
            assert(layout::weights_of(t) =~= layout::weights_of(kids[0]));
            assert forall|k: int| 0 <= k < t.children.len() implies proportioned(
                #[trigger] t.children[k],
                most,
            ) by {
                assert(proportioned(kids[0].children[k], most));
            }
            assert(proportioned(t, most));
            if t.panel is None {
                assert forall|k: int| 0 <= k < t.children.len() implies solid(
                    #[trigger] t.children[k],
                ) by {
                    assert(solid(kids[0].children[k]));
                }
            }
            assert(solid(t));
        } else if kids.len() > 1 {
            let t = Tree { children: kids, ..n };
            assert(layout::weights_of(t) =~= kids.map_values(|c: Tree| c.weight));
            assert(layout::weights_of(n) =~= n.children.map_values(|c: Tree| c.weight));
        }
    }
}

/// Splitting a screen by such weights stays within the machine's integers.
pub open spec fn splittable(most: int, lines: int, cols: int) -> bool {
    &&& most <= i32::MAX && lines <= i32::MAX && cols <= i32::MAX
    &&& most * lines <= i32::MAX && most * cols <= i32::MAX
}

/// A well-proportioned view can be laid out on every screen that its weights
/// can split within the machine's integers.
pub proof fn law_every_screen(
    view: Tree,
    available: Seq<&str>,
    most: int,
    lines: int,
    cols: int,
)
    requires
        proportioned(view, most),
        0 <= lines,
        0 <= cols,
        splittable(most, lines, cols),
    ensures
        layout::fits_screen(lines, cols, view, available),
{
    lemma_pruned(view, available, most);
    if let Some(t) = layout::pruned(view, available) {
        lemma_fits(t, layout::screen(lines, cols), most, lines, cols);
    }
}

proof fn lemma_tiles_upto(
    n: Tree,
    a: Area,
    k: int,
    y: int,
    x: int,
    most: int,
    lines: int,
    cols: int,
)
    requires
        proportioned(n, most),
        solid(n),
        n.panel is None,
        on_screen(a, lines, cols),
        0 <= k <= n.children.len(),
    ensures
        coverage(layout::placed_upto(n, a, k), y, x) == if (if n.vertical {
            inside(Area { h: reached(a.h, layout::weights_of(n), k), ..a }, y, x)
        } else {
            inside(Area { w: reached(a.w, layout::weights_of(n), k), ..a }, y, x)
        }) {
            1nat
        } else {
            0nat
        },
    decreases n, k,
{
    if k > 0 {
        lemma_tiles_upto(n, a, k - 1, y, x, most, lines, cols);
        assert(proportioned(n.children[k - 1], most) && solid(n.children[k - 1]));
        lemma_slot(n, a, k - 1, most, lines, cols);
        lemma_tiles(n.children[k - 1], layout::slot(n, a, k - 1), y, x, most, lines, cols);
        lemma_coverage_add(
            layout::placed_upto(n, a, k - 1),
            layout::placed(n.children[k - 1], layout::slot(n, a, k - 1)),
            y,
            x,
        );
        lemma_weights(n, most);
        if n.vertical {
            lemma_segment(a.h, layout::weights_of(n), k - 1);
        } else {
            lemma_segment(a.w, layout::weights_of(n), k - 1);
        }
    }
}

/// Where the first `k` segments end.
spec fn reached(total: int, ws: Seq<int>, k: int) -> int {
    if k == ws.len() && k > 0 {
        total
    } else {
        layout::taken(total, ws, k)
    }
}

proof fn lemma_tiles(n: Tree, a: Area, y: int, x: int, most: int, lines: int, cols: int)
    requires
        proportioned(n, most),
        solid(n),
        on_screen(a, lines, cols),
    ensures
        coverage(layout::placed(n, a), y, x) == if inside(a, y, x) {
            1nat
        } else {
            0nat
        },
    decreases n, n.children.len() + 1,
{
    match n.panel {
        Some(p) => {
            let es = layout::placed(n, a);
            assert(es.drop_last() =~= Seq::empty());
            assert(coverage(es.drop_last(), y, x) == 0);
        },
        None => {
            lemma_tiles_upto(n, a, n.children.len() as int, y, x, most, lines, cols);
        },
    }
}

/// Every cell of the screen is in exactly one panel, and no panel reaches over
/// the screen's edge, unless the screen is too small or no panel is available.
pub proof fn law_panels_tile_screen(
    view: Tree,
    available: Seq<&str>,
    most: int,
    lines: int,
    cols: int,
    y: int,
    x: int,
)
    requires
        proportioned(view, most),
        0 <= lines,
        0 <= cols,
        !layout::is_too_small(lines, cols),
        layout::pruned(view, available) is Some,
    ensures
        coverage(layout::arrangement(lines, cols, view, available), y, x) == if 0 <= y < lines
            && 0 <= x < cols {
            1nat
        } else {
            0nat
        },
{
    lemma_pruned(view, available, most);
    let t = layout::pruned(view, available).unwrap();
    lemma_tiles(t, layout::screen(lines, cols), y, x, most, lines, cols);
}

/// All panels that the tree names, in order.
pub open spec fn panels_in(n: Tree) -> Seq<Seq<char>>
    decreases n, n.children.len() + 1,
{
    match n.panel {
        Some(p) => seq![p],
        None => panels_upto(n, n.children.len() as int),
    }
}

pub open spec fn panels_upto(n: Tree, k: int) -> Seq<Seq<char>>
    decreases n, k,
{
    if k <= 0 || k > n.children.len() {
        Seq::empty()
    } else {
        panels_upto(n, k - 1) + panels_in(n.children[k - 1])
    }
}

/// The panels that are available, in order.
pub open spec fn kept(ps: Seq<Seq<char>>, available: Seq<&str>) -> Seq<Seq<char>>
    decreases ps.len(),
{
    if ps.len() == 0 {
        Seq::empty()
    } else {
        let before = kept(ps.drop_last(), available);
        if layout::listed(available, ps.last()) {
            before.push(ps.last())
        } else {
            before
        }
    }
}

proof fn lemma_kept_add(a: Seq<Seq<char>>, b: Seq<Seq<char>>, available: Seq<&str>)
    ensures
        kept(a + b, available) == kept(a, available) + kept(b, available),
    decreases b.len(),
{
    if b.len() == 0 {
        assert(a + b =~= a);
        assert(kept(a, available) + kept(b, available) =~= kept(a, available));
    } else {
        assert((a + b).drop_last() =~= a + b.drop_last());
        lemma_kept_add(a, b.drop_last(), available);
        assert(kept(a + b, available) =~= kept(a, available) + kept(b, available));
    }
}

/// The panels of a list of trees, in order.
spec fn panels_of(ns: Seq<Tree>) -> Seq<Seq<char>>
    decreases ns.len(),
{
    if ns.len() == 0 {
        Seq::empty()
    } else {
        panels_of(ns.drop_last()) + panels_in(ns.last())
    }
}

proof fn lemma_panels_upto(n: Tree, k: int)
    requires
        0 <= k <= n.children.len(),
    ensures
        panels_upto(n, k) == panels_of(n.children.take(k)),
    decreases k,
{
    if k > 0 {
        lemma_panels_upto(n, k - 1);
        assert(n.children.take(k).drop_last() =~= n.children.take(k - 1));
        assert(n.children.take(k).last() == n.children[k - 1]);
    } else {
        assert(panels_upto(n, k) =~= panels_of(n.children.take(k)));
    }
}

proof fn lemma_panels_split(n: Tree)
    requires
        n.panel is None,
    ensures
        panels_in(n) == panels_of(n.children),
{
    lemma_panels_upto(n, n.children.len() as int);
    assert(n.children.take(n.children.len() as int) =~= n.children);
}

proof fn lemma_pruned_panels_all(ns: Seq<Tree>, available: Seq<&str>)
    ensures
        panels_of(layout::pruned_all(ns, available)) == kept(panels_of(ns), available),
    decreases ns,
{
    if ns.len() > 0 {
        lemma_pruned_panels_all(ns.drop_last(), available);
        law_pruned_panels(ns.last(), available);
        lemma_kept_add(panels_of(ns.drop_last()), panels_in(ns.last()), available);
        let before = layout::pruned_all(ns.drop_last(), available);
        match layout::pruned(ns.last(), available) {
            Some(k) => {
                assert(before.push(k).drop_last() =~= before);
            },
            None => {
                assert(kept(panels_of(ns), available) =~= kept(
                    panels_of(ns.drop_last()),
                    available,
                ));
            },
        }
    } else {
        assert(panels_of(layout::pruned_all(ns, available)) =~= kept(panels_of(ns), available));
    }
}

/// Pruning keeps the available panels, in their order, and no others.
pub proof fn law_pruned_panels(n: Tree, available: Seq<&str>)
    ensures
        match layout::pruned(n, available) {
            Some(t) => panels_in(t) == kept(panels_in(n), available),
            None => kept(panels_in(n), available) == Seq::<Seq<char>>::empty(),
        },
    decreases n,
{
    match n.panel {
        Some(p) => {
            let ps = panels_in(n);
            assert(ps.drop_last() =~= Seq::empty());
            assert(kept(ps.drop_last(), available) =~= Seq::empty());
            assert(kept(ps, available) =~= if layout::listed(available, p) {
                seq![p]
            } else {
                Seq::empty()
            });
        },
        None => {
            lemma_panels_split(n);
            lemma_pruned_panels_all(n.children, available);
            let kids = layout::pruned_all(n.children, available);
            if kids.len() == 0 {
            } else if kids.len() == 1 {
                let t = Tree { weight: n.weight, ..kids[0] };
                lemma_same_panels(kids[0], t, t.children.len() as int);
                assert(kids.drop_last() =~= Seq::empty());
                assert(panels_of(kids.drop_last()) =~= Seq::empty());
                assert(panels_of(kids) =~= panels_in(kids[0]));
            } else {
                lemma_panels_split(Tree { children: kids, ..n });
            }
        },
    }
}

proof fn lemma_same_panels(a: Tree, b: Tree, k: int)
    requires
        a.children == b.children,
        a.panel == b.panel,
        k == a.children.len(),
    ensures
        panels_in(a) == panels_in(b),
{
    if a.panel is None {
        lemma_panels_split(a);
        lemma_panels_split(b);
    }
}

proof fn lemma_placed_upto_panels(n: Tree, a: Area, k: int)
    requires
        0 <= k <= n.children.len(),
    ensures
        layout::placed_upto(n, a, k).map_values(|e: (Seq<char>, Area)| e.0) == panels_upto(n, k),
    decreases n, k,
{
    let names = |e: (Seq<char>, Area)| e.0;
    if k > 0 {
        lemma_placed_upto_panels(n, a, k - 1);
        law_placed_panels(n.children[k - 1], layout::slot(n, a, k - 1));
        let p = layout::placed_upto(n, a, k - 1);
        let q = layout::placed(n.children[k - 1], layout::slot(n, a, k - 1));
        assert((p + q).map_values(names) =~= p.map_values(names) + q.map_values(names));
    } else {
        assert(layout::placed_upto(n, a, k).map_values(names) =~= panels_upto(n, k));
    }
}

/// Placing a tree gives each of its panels an area, in order.
pub proof fn law_placed_panels(n: Tree, a: Area)
    ensures
        layout::placed(n, a).map_values(|e: (Seq<char>, Area)| e.0) == panels_in(n),
    decreases n, n.children.len() + 1,
{
    match n.panel {
        Some(p) => {
            assert(layout::placed(n, a).map_values(|e: (Seq<char>, Area)| e.0) =~= panels_in(n));
        },
        None => {
            lemma_placed_upto_panels(n, a, n.children.len() as int);
        },
    }
}

proof fn lemma_placed_upto_on_screen(n: Tree, a: Area, k: int, most: int, lines: int, cols: int)
    requires
        proportioned(n, most),
        on_screen(a, lines, cols),
        0 <= k <= n.children.len(),
    ensures
        forall|i: int|
            0 <= i < layout::placed_upto(n, a, k).len() ==> on_screen(
                (#[trigger] layout::placed_upto(n, a, k)[i]).1,
                lines,
                cols,
            ),
    decreases n, k,
{
    if k > 0 {
        lemma_placed_upto_on_screen(n, a, k - 1, most, lines, cols);
        assert(proportioned(n.children[k - 1], most));
        lemma_slot(n, a, k - 1, most, lines, cols);
        lemma_placed_on_screen(n.children[k - 1], layout::slot(n, a, k - 1), most, lines, cols);
        let p = layout::placed_upto(n, a, k - 1);
        let q = layout::placed(n.children[k - 1], layout::slot(n, a, k - 1));
        assert forall|i: int| 0 <= i < (p + q).len() implies on_screen(
            (#[trigger] (p + q)[i]).1,
            lines,
            cols,
        ) by {
            if i < p.len() {
                assert((p + q)[i] == p[i]);
            } else {
                assert((p + q)[i] == q[i - p.len()]);
            }
        }
    }
}

proof fn lemma_placed_on_screen(n: Tree, a: Area, most: int, lines: int, cols: int)
    requires
        proportioned(n, most),
        on_screen(a, lines, cols),
    ensures
        forall|i: int|
            0 <= i < layout::placed(n, a).len() ==> on_screen(
                (#[trigger] layout::placed(n, a)[i]).1,
                lines,
                cols,
            ),
    decreases n, n.children.len() + 1,
{
    match n.panel {
        Some(p) => {
            assert(layout::placed(n, a) =~= seq![(p, a)]);
        },
        None => {
            lemma_placed_upto_on_screen(n, a, n.children.len() as int, most, lines, cols);
            assert(layout::placed(n, a) =~= layout::placed_upto(
                n,
                a,
                n.children.len() as int,
            ));
        },
    }
}

proof fn lemma_map_on_screen(es: Seq<(Seq<char>, Area)>, lines: int, cols: int)
    requires
        forall|i: int| 0 <= i < es.len() ==> on_screen((#[trigger] es[i]).1, lines, cols),
    ensures
        forall|id: Seq<char>| #[trigger]
            layout::map_of(es).dom().contains(id) ==> on_screen(
                layout::map_of(es)[id],
                lines,
                cols,
            ),
    decreases es.len(),
{
    if es.len() > 0 {
        let front = es.drop_last();
        assert forall|i: int| 0 <= i < front.len() implies on_screen(
            (#[trigger] front[i]).1,
            lines,
            cols,
        ) by {
            assert(front[i] == es[i]);
        }
        lemma_map_on_screen(front, lines, cols);
        assert(on_screen(es[es.len() - 1].1, lines, cols));
        assert forall|id: Seq<char>| #[trigger]
            layout::map_of(es).dom().contains(id) implies on_screen(
            layout::map_of(es)[id],
            lines,
            cols,
        ) by {
            if id != es.last().0 {
                assert(layout::map_of(front).dom().contains(id));
            }
        }
    }
}

/// No panel reaches over the edge of the screen.
pub proof fn law_panels_on_screen(
    view: Tree,
    available: Seq<&str>,
    most: int,
    lines: int,
    cols: int,
)
    requires
        proportioned(view, most),
        0 <= lines,
        0 <= cols,
    ensures
        forall|id: Seq<char>| #[trigger]
            layout::map_of(layout::arrangement(lines, cols, view, available)).dom().contains(id)
                ==> on_screen(
                layout::map_of(layout::arrangement(lines, cols, view, available))[id],
                lines,
                cols,
            ),
{
    lemma_pruned(view, available, most);
    if let Some(t) = layout::pruned(view, available) {
        lemma_placed_on_screen(t, layout::screen(lines, cols), most, lines, cols);
    }
    lemma_map_on_screen(layout::arrangement(lines, cols, view, available), lines, cols);
}

} // verus!
