//! Where panels come to stand.

use vstd::prelude::*;

use crate::ui::layout;
use crate::ui::layout::{compute_layout, prune, split_weighted, Area, Layout, Node};
use crate::ui::placed;
use crate::ui::proportion;
use crate::ui::registry::{find_panel, Panel};
use crate::ui::tiling;
use crate::ui::views;
use crate::ui::views::{views, NamedView};

verus! {

/// Segments follow one another from the start to the end, and each but the last
/// is the whole part of its weight's share.
pub proof fn law_segments_follow_one_another(
    start: i32,
    total: i32,
    weights: Vec<i32>,
    r: Vec<(i32, i32)>,
    k: int,
)
    requires
        total >= 0,
        weights@.len() > 0,
        forall|i: int| 0 <= i < weights@.len() ==> #[trigger] weights@[i] >= 0,
        layout::sum_of(layout::ints(weights@)) > 0,
        call_ensures(split_weighted, (start, total, &weights), r),
        0 <= k < weights@.len(),
    ensures
        r@.len() == weights@.len(),
        r@[0].0 == start,
        k > 0 ==> r@[k].0 == r@[k - 1].0 + r@[k - 1].1,
        r@[r@.len() - 1].0 + r@[r@.len() - 1].1 == start + total,
        ({
            let all = layout::sum_of(layout::ints(weights@));
            let (w, part) = (weights@[k] as int, r@[k].1 as int);
            if k < weights@.len() - 1 {
                all * part <= total * w && total * w < all * (part + 1)
            } else {
                total * w <= all * part
            }
        }),
{
    let ws = layout::ints(weights@);
    assert forall|i: int| 0 <= i < ws.len() implies #[trigger] ws[i] >= 0 by {
        assert(weights@[i] >= 0);
    }
    tiling::law_segments_tile(start as int, total as int, ws);
    proportion::law_segments_are_shares(total as int, ws, k);
    let n = ws.len() - 1;
    assert(r@[0].0 == start + layout::taken(total as int, ws, 0));
    assert(r@[k].1 == layout::segment(total as int, ws, k));
    assert(r@[n].0 == start + layout::taken(total as int, ws, n));
    if k > 0 {
        assert(layout::taken(total as int, ws, k - 1 + 1) == layout::taken(total as int, ws, k - 1)
            + layout::segment(total as int, ws, k - 1));
        assert(r@[k - 1].0 == start + layout::taken(total as int, ws, k - 1));
    }
}

/// The areas of the four panels.
pub struct Overview {
    pub averages: Area,
    pub throughput: Area,
    pub perf: Area,
    pub requests: Area,
}

/// The overview, where every panel is available: the request feed takes the full
/// width below; above it, with two thirds of the lines, the windowed averages
/// stand on the left in a third of the columns, and on the right throughput
/// above performance, in halves.
pub proof fn law_overview_is_laid_out(
    lines: i32,
    cols: i32,
    all: Vec<NamedView>,
    available: Vec<&str>,
    l: Layout,
) -> (r: Overview)
    requires
        call_ensures(views, (), all),
        call_ensures(compute_layout, (lines, cols, &all@[0].root, &available), l),
        !layout::is_too_small(lines as int, cols as int),
        layout::listed(available@, "loadavg"@),
        layout::listed(available@, "throughput"@),
        layout::listed(available@, "perf"@),
        layout::listed(available@, "requests"@),
    ensures
        !l.too_small,
        l.panels@.dom().contains("loadavg"@) && l.panels@["loadavg"@] == r.averages,
        l.panels@.dom().contains("throughput"@) && l.panels@["throughput"@] == r.throughput,
        l.panels@.dom().contains("perf"@) && l.panels@["perf"@] == r.perf,
        l.panels@.dom().contains("requests"@) && l.panels@["requests"@] == r.requests,
        r.averages.y == 0 && r.averages.x == 0 && r.throughput.y == 0,
        r.throughput.x == r.averages.w && r.perf.x == r.averages.w,
        r.throughput.w == cols - r.averages.w && r.perf.w == cols - r.averages.w,
        r.perf.y == r.throughput.h && r.throughput.h + r.perf.h == r.averages.h,
        r.requests.x == 0 && r.requests.w == cols,
        r.requests.y == r.averages.h && r.requests.h == lines - r.averages.h,
        proportion::is_share_of(r.averages.h, 2, 3, lines as int),
        proportion::is_share_of(r.averages.w, 1, 3, cols as int),
        proportion::is_share_of(r.throughput.h, 1, 2, r.averages.h),
{
    let (a, b, c, d) = proportion::law_overview(lines as int, cols as int, available@);
    let es = seq![("loadavg"@, a), ("throughput"@, b), ("perf"@, c), ("requests"@, d)];
    assert(all@[0].root@ == views::view_tree(0));
    assert(layout::arrangement(lines as int, cols as int, all@[0].root@, available@) == es);
    reveal_strlit("throughput");
    reveal_strlit("requests");
    reveal_strlit("perf");
    reveal_strlit("loadavg");
    assert("throughput"@.len() == 10 && "requests"@.len() == 8);
    assert("perf"@.len() == 4 && "loadavg"@.len() == 7);
    let none = Map::<Seq<char>, Area>::empty();
    let e3 = es.drop_last();
    let e2 = e3.drop_last();
    let e1 = e2.drop_last();
    assert(e1.drop_last() =~= Seq::empty());
    assert(layout::with_all(none, e1.drop_last()) == none);
    assert(layout::with_all(none, e1) == none.insert("loadavg"@, a));
    assert(layout::with_all(none, e2) == none.insert("loadavg"@, a).insert("throughput"@, b));
    assert(layout::with_all(none, e3) == none.insert("loadavg"@, a).insert(
        "throughput"@,
        b,
    ).insert("perf"@, c));
    assert(l.panels@ == layout::with_all(none, es));
    Overview { averages: a, throughput: b, perf: c, requests: d }
}

/// Where the terminal is too small, nothing is laid out; every other terminal is
/// covered by the available panels, each cell by one.
pub proof fn law_panels_cover_the_terminal(
    lines: i32,
    cols: i32,
    root: Node,
    available: Vec<&str>,
    l: Layout,
    most: int,
    y: int,
    x: int,
)
    requires
        call_ensures(compute_layout, (lines, cols, &root, &available), l),
        tiling::proportioned(root@, most),
        0 <= lines && 0 <= cols,
        layout::pruned(root@, available@) is Some,
    ensures
        l.too_small <==> cols < 62 || lines < 20,
        l.too_small ==> l.panels@.dom() =~= Set::empty(),
        !l.too_small ==> tiling::coverage(
            layout::arrangement(lines as int, cols as int, root@, available@),
            y,
            x,
        ) == if 0 <= y < lines && 0 <= x < cols {
            1nat
        } else {
            0nat
        },
{
    if !l.too_small {
        tiling::law_panels_tile_screen(
            root@,
            available@,
            most,
            lines as int,
            cols as int,
            y,
            x,
        );
    }
}

/// What is left of a part of the layout keeps that part's weight, so that it
/// fills the same slot; and of a panel there is something left just where it is
/// available.
pub proof fn law_pruning_keeps_the_slot(n: Node, available: Vec<&str>, r: Option<Node>)
    requires
        call_ensures(prune, (&n, &available), r),
    ensures
        r matches Some(k) ==> k@.weight == n@.weight,
        n@.panel matches Some(p) ==> (r is Some <==> layout::listed(available@, p)),
        n@.panel matches Some(p) ==> (r matches Some(k) ==> k@ == n@),
        match r {
            Some(k) => tiling::panels_in(k@) == tiling::kept(tiling::panels_in(n@), available@),
            None => tiling::kept(tiling::panels_in(n@), available@).len() == 0,
        },
{
    tiling::law_pruned_panels(n@, available@);
}

/// A panel is found by its id; it has that id, the title that it is drawn with,
/// and needs a log just where it is the request feed.
pub proof fn law_panels_are_found_by_id(id: &str, r: Option<Panel>)
    requires
        call_ensures(find_panel, (id,), r),
    ensures
        r is Some <==> placed::is_panel(id@),
        r matches Some(p) ==> p.id@ == id@ && p.title@ == placed::title_of(id@),
        r matches Some(p) ==> p.requires@.len() == if id@ == "requests"@ {
            1nat
        } else {
            0nat
        },
{
    reveal_strlit("throughput");
    reveal_strlit("requests");
    reveal_strlit("perf");
    reveal_strlit("loadavg");
    assert("throughput"@.len() == 10 && "requests"@.len() == 8);
    assert("perf"@.len() == 4 && "loadavg"@.len() == 7);
    if let Some(p) = r {
        let names = p.requires@.map_values(|s: &'static str| s@);
        assert(names.len() == p.requires@.len());
    }
}

} // verus!
