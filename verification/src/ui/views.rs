//! The views: layout trees of all panels.
//!
//! Arrangement: loadavg sidebar (left) beside a stacked main column
//! (throughput over perf) on top; requests feed at the bottom.

use vstd::prelude::*;

use crate::ui::layout;
use crate::ui::layout::{col, leaf, row, Node, Tree};
use crate::ui::registry;
use crate::ui::registry::Drawing;
use crate::ui::tiling;

verus! {

/// A named layout tree.
pub struct NamedView {
    pub name: &'static str,
    pub root: Node,
}

pub open spec fn leaf_tree(panel: Seq<char>, weight: int) -> Tree {
    Tree { weight, panel: Some(panel), vertical: false, children: Seq::empty() }
}

pub open spec fn split_tree(vertical: bool, weight: int, children: Seq<Tree>) -> Tree {
    Tree { weight, panel: None, vertical, children }
}

/// The persistent layout: sidebar + stacked main on top, requests feed below.
pub open spec fn overview_tree() -> Tree {
    let main = split_tree(true, 2, seq![leaf_tree("throughput"@, 1), leaf_tree("perf"@, 1)]);
    let top = split_tree(false, 4, seq![leaf_tree("loadavg"@, 1), main]);
    split_tree(true, 1, seq![top, leaf_tree("requests"@, 2)])
}

/// How many views there are.
pub const VIEW_COUNT: usize = 1;

pub open spec fn view_name(i: int) -> Seq<char> {
    "overview"@
}

pub open spec fn view_tree(i: int) -> Tree {
    overview_tree()
}

fn overview() -> (r: Node)
    ensures
        r@ == overview_tree(),
{
    let stacked: Vec<Node> = vec![leaf("throughput", 1), leaf("perf", 1)];
    let main = col(stacked, 2);
    assert(layout::trees(stacked@) =~= seq![
        leaf_tree("throughput"@, 1),
        leaf_tree("perf"@, 1),
    ]);
    let upper: Vec<Node> = vec![leaf("loadavg", 1), main];
    let top = row(upper, 4);
    assert(layout::trees(upper@) =~= seq![leaf_tree("loadavg"@, 1), main@]);
    let all: Vec<Node> = vec![top, leaf("requests", 2)];
    let r = col(all, 1);
    assert(layout::trees(all@) =~= seq![top@, leaf_tree("requests"@, 2)]);
    r
}

/// All views.
pub fn views() -> (r: Vec<NamedView>)
    ensures
        r@.len() == VIEW_COUNT,
        forall|i: int|
            0 <= i < VIEW_COUNT ==> (#[trigger] r@[i]).name@ == view_name(i) && r@[i].root@
                == view_tree(i),
{
    vec![NamedView { name: "overview", root: overview() }]
}

proof fn lemma_leaf(panel: Seq<char>, weight: int)
    requires
        weight >= 0,
    ensures
        tiling::proportioned(leaf_tree(panel, weight), VIEW_WEIGHT as int),
{
    assert(layout::weights_of(leaf_tree(panel, weight)) =~= Seq::empty());
}

proof fn lemma_pair(vertical: bool, weight: int, a: Tree, b: Tree)
    requires
        weight >= 0,
        tiling::proportioned(a, VIEW_WEIGHT as int),
        tiling::proportioned(b, VIEW_WEIGHT as int),
        a.weight + b.weight <= 0x7fff,
    ensures
        tiling::proportioned(split_tree(vertical, weight, seq![a, b]), VIEW_WEIGHT as int),
{
    let t = split_tree(vertical, weight, seq![a, b]);
    let ws = layout::weights_of(t);
    assert(ws =~= seq![a.weight, b.weight]);
    assert(ws.drop_last() =~= seq![a.weight]);
    assert(ws.drop_last().drop_last() =~= Seq::empty());
    assert(layout::sum_of(ws.drop_last().drop_last()) == 0);
    assert(layout::sum_of(ws.drop_last()) == a.weight);
    assert forall|k: int| 0 <= k < t.children.len() implies tiling::proportioned(
        #[trigger] t.children[k], VIEW_WEIGHT as int,
    ) by {}
}

/// The largest sum of sibling weights in a view.
pub const VIEW_WEIGHT: i32 = 0x7fff;

/// Every view can be laid out on every screen.
pub proof fn law_views_are_proportioned(i: int)
    requires
        0 <= i < VIEW_COUNT,
    ensures
        tiling::proportioned(view_tree(i), VIEW_WEIGHT as int),
{
    lemma_leaf("throughput"@, 1);
    lemma_leaf("perf"@, 1);
    lemma_leaf("loadavg"@, 1);
    lemma_leaf("requests"@, 2);
    let main = split_tree(true, 2, seq![leaf_tree("throughput"@, 1), leaf_tree("perf"@, 1)]);
    lemma_pair(true, 2, leaf_tree("throughput"@, 1), leaf_tree("perf"@, 1));
    let top = split_tree(false, 4, seq![leaf_tree("loadavg"@, 1), main]);
    lemma_pair(false, 4, leaf_tree("loadavg"@, 1), main);
    lemma_pair(true, 1, top, leaf_tree("requests"@, 2));
}

/// The panels that a view names, in order, are registered ones.
pub proof fn law_views_name_registered_panels(i: int)
    requires
        0 <= i < VIEW_COUNT,
    ensures
        tiling::panels_in(view_tree(i)) == seq![
            registry::panel_id(Drawing::Loadavg),
            registry::panel_id(Drawing::Throughput),
            registry::panel_id(Drawing::Perf),
            registry::panel_id(Drawing::Requests),
        ],
{
    let main = split_tree(true, 2, seq![leaf_tree("throughput"@, 1), leaf_tree("perf"@, 1)]);
    lemma_pair_panels(true, 2, leaf_tree("throughput"@, 1), leaf_tree("perf"@, 1));
    let top = split_tree(false, 4, seq![leaf_tree("loadavg"@, 1), main]);
    lemma_pair_panels(false, 4, leaf_tree("loadavg"@, 1), main);
    lemma_pair_panels(true, 1, top, leaf_tree("requests"@, 2));
    assert(tiling::panels_in(view_tree(i)) =~= seq![
        "loadavg"@,
        "throughput"@,
        "perf"@,
        "requests"@,
    ]);
}

proof fn lemma_pair_panels(vertical: bool, weight: int, a: Tree, b: Tree)
    ensures
        tiling::panels_in(split_tree(vertical, weight, seq![a, b])) == tiling::panels_in(a)
            + tiling::panels_in(b),
{
    let t = split_tree(vertical, weight, seq![a, b]);
    assert(tiling::panels_upto(t, 0) =~= Seq::empty());
    assert(tiling::panels_upto(t, 1) =~= tiling::panels_in(a));
    assert(tiling::panels_upto(t, 2) =~= tiling::panels_in(a) + tiling::panels_in(b));
}

} // verus!
