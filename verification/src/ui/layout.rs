//! Layout primitives: a recursive split tree placed into terminal rects.
//!
//! A *view* is a tree of nested splits referencing panels by id. Each [`Node`]
//! is either a leaf (a single panel) or a split arranging its children in a row
//! (side by side, splitting width) or a column (stacked, splitting height),
//! sized proportional to per-child weights.
//!
//! [`compute_layout`] prunes panels that are not available, reflows the
//! remaining tree, and gives the screen [`Rect`] of each visible panel.

use vstd::prelude::*;

use crate::text::same;

verus! {

pub const MIN_COLS: i32 = 62;

pub const MIN_LINES: i32 = 20;

#[derive(Clone, Copy, Debug, Default, PartialEq, Eq, Structural)]
pub struct Rect {
    pub y: i32,
    pub x: i32,
    pub h: i32,
    pub w: i32,
}

/// A rect over the integers.
#[verifier::ext_equal]
pub struct Area {
    pub y: int,
    pub x: int,
    pub h: int,
    pub w: int,
}

impl View for Rect {
    type V = Area;

    open spec fn view(&self) -> Area {
        Area { y: self.y as int, x: self.x as int, h: self.h as int, w: self.w as int }
    }
}

impl Rect {
    pub fn new(y: i32, x: i32, h: i32, w: i32) -> (r: Rect)
        ensures
            r == (Rect { y, x, h, w }),
    {
        Rect { y, x, h, w }
    }
}

/// A node in a view's layout tree.
///
/// A leaf carries `panel` (its panel id) and no children. A split carries
/// `children` and `vertical` (true = stack into a column, splitting height;
/// false = lay out side by side in a row, splitting width). `weight` sizes this
/// node against its siblings.
#[derive(Debug)]
pub struct Node {
    pub weight: i32,
    pub panel: Option<&'static str>,
    pub vertical: bool,
    pub children: Vec<Node>,
}

/// A layout tree over the integers.
pub struct Tree {
    pub weight: int,
    pub panel: Option<Seq<char>>,
    pub vertical: bool,
    pub children: Seq<Tree>,
}

pub open spec fn panel_view(p: Option<&'static str>) -> Option<Seq<char>> {
    match p {
        Some(s) => Some(s@),
        None => None,
    }
}

impl View for Node {
    type V = Tree;

    open spec fn view(&self) -> Tree
        decreases self,
    {
        Tree {
            weight: self.weight as int,
            panel: panel_view(self.panel),
            vertical: self.vertical,
            children: Seq::new(
                self.children@.len(),
                |i: int|
                    if 0 <= i < self.children@.len() {
                        self.children@[i].view()
                    } else {
                        arbitrary()
                    },
            ),
        }
    }
}

pub open spec fn trees(ns: Seq<Node>) -> Seq<Tree> {
    ns.map_values(|n: Node| n@)
}

proof fn lemma_children(n: Node)
    ensures
        n@.children == trees(n.children@),
{
    reveal_with_fuel(<Node as View>::view, 2);
    assert(n@.children =~= trees(n.children@));
}

/// A single panel.
pub fn leaf(panel: &'static str, weight: i32) -> (r: Node)
    ensures
        r@ == (Tree {
            weight: weight as int,
            panel: Some(panel@),
            vertical: false,
            children: Seq::empty(),
        }),
{
    let r = Node { weight, panel: Some(panel), vertical: false, children: Vec::new() };
    assert(r@.children =~= Seq::empty());
    r
}

/// Arrange children side by side (split the available width).
pub fn row(children: Vec<Node>, weight: i32) -> (r: Node)
    ensures
        r@ == (Tree {
            weight: weight as int,
            panel: None,
            vertical: false,
            children: trees(children@),
        }),
{
    let r = Node { weight, panel: None, vertical: false, children };
    proof {
        lemma_children(r);
    }
    r
}

/// Stack children top to bottom (split the available height).
pub fn col(children: Vec<Node>, weight: i32) -> (r: Node)
    ensures
        r@ == (Tree {
            weight: weight as int,
            panel: None,
            vertical: true,
            children: trees(children@),
        }),
{
    let r = Node { weight, panel: None, vertical: true, children };
    proof {
        lemma_children(r);
    }
    r
}

/// One of the names is `p`.
pub open spec fn listed(names: Seq<&str>, p: Seq<char>) -> bool {
    exists|i: int| 0 <= i < names.len() && (#[trigger] names[i])@ == p
}

/// What is left of a tree when only the available panels are kept: leaves of
/// other panels are dropped, a split without children is dropped, and a split
/// with one child becomes that child in the split's slot.
pub open spec fn pruned(n: Tree, available: Seq<&str>) -> Option<Tree>
    decreases n,
{
    match n.panel {
        Some(p) => if listed(available, p) {
            Some(n)
        } else {
            None
        },
        None => {
            let kids = pruned_all(n.children, available);
            if kids.len() == 0 {
                None
            } else if kids.len() == 1 {
                Some(Tree { weight: n.weight, ..kids[0] })
            } else {
                Some(Tree { children: kids, ..n })
            }
        },
    }
}

pub open spec fn pruned_all(ns: Seq<Tree>, available: Seq<&str>) -> Seq<Tree>
    decreases ns,
{
    if ns.len() == 0 {
        Seq::empty()
    } else {
        let before = pruned_all(ns.drop_last(), available);
        match pruned(ns.last(), available) {
            Some(k) => before.push(k),
            None => before,
        }
    }
}


impl Node {
    /// A node equal to this one.
    pub fn copied(&self) -> (r: Node)
        ensures
            r@ == self@,
        decreases self,
    {
        let mut children: Vec<Node> = Vec::new();
        for i in 0..self.children.len()
            invariant
                children@.len() == i,
                forall|j: int|
                    0 <= j < i ==> (#[trigger] children@[j])@ == self.children@[j]@,
            decreases self.children.len() - i,
        {
            let kid = self.children[i].copied();
            children.push(kid);
        }
        let r = Node {
            weight: self.weight,
            panel: self.panel,
            vertical: self.vertical,
            children,
        };
        proof {
            lemma_children(r);
            lemma_children(*self);
            assert(r@.children =~= self@.children);
        }
        r
    }
}

/// Whether `p` is one of the names.
pub fn lists(names: &Vec<&str>, p: &str) -> (r: bool)
    ensures
        r == listed(names@, p@),
{
    for i in 0..names.len()
        invariant
            forall|j: int| 0 <= j < i ==> (#[trigger] names@[j])@ != p@,
    {
        if same(names[i], p) {
            assert(names@[i as int]@ == p@);
            return true;
        }
    }
    false
}

/// Drop leaves whose panel is not available and collapse empty splits.
///
/// A split with a single surviving child collapses to that child (keeping the
/// parent's weight, so the survivor inherits the parent's slot). Returns `None`
/// when nothing in the subtree is available.
pub fn prune(node: &Node, available: &Vec<&str>) -> (r: Option<Node>)
    ensures
        match r {
            Some(k) => pruned(node@, available@) == Some(k@),
            None => pruned(node@, available@) is None,
        },
    decreases node,
{
    if let Some(p) = node.panel {
        if lists(available, p) {
            return Some(node.copied());
        }
        return None;
    }
    let mut kids: Vec<Node> = Vec::new();
    proof {
        lemma_children(*node);
        assert(trees(kids@) =~= Seq::empty());
        assert(node@.children.take(0) =~= Seq::empty());
    }
    for i in 0..node.children.len()
        invariant
            node@.children == trees(node.children@),
            trees(kids@) == pruned_all(node@.children.take(i as int), available@),
        decreases node.children.len() - i,
    {
        let ghost before = trees(kids@);
        let kid = prune(&node.children[i], available);
        proof {
            let t = node@.children.take(i + 1);
            assert(t.drop_last() =~= node@.children.take(i as int));
            assert(t.last() == node.children@[i as int]@);
        }
        if let Some(k) = kid {
            kids.push(k);
            assert(trees(kids@) =~= before.push(k@));
        }
    }
    assert(node@.children.take(node.children@.len() as int) =~= node@.children);
    if kids.len() == 0 {
        return None;
    }
    if kids.len() == 1 {
        let ghost only = kids@[0];
        let mut k = kids.pop().unwrap();
        k.weight = node.weight;
        proof {
            lemma_children(k);
            lemma_children(only);
        }
        return Some(k);
    }
    let r = Node { weight: node.weight, panel: None, vertical: node.vertical, children: kids };
    proof {
        lemma_children(r);
    }
    Some(r)
}

/// Division that drops the fraction, for a positive divisor.
pub open spec fn quotient(a: int, b: int) -> int {
    if a >= 0 {
        a / b
    } else {
        -((-a) / b)
    }
}

pub open spec fn sum_of(ws: Seq<int>) -> int
    decreases ws.len(),
{
    if ws.len() == 0 {
        0
    } else {
        sum_of(ws.drop_last()) + ws.last()
    }
}

/// What the weights are measured against.
pub open spec fn weight_total(ws: Seq<int>) -> int {
    if sum_of(ws) > 1 {
        sum_of(ws)
    } else {
        1
    }
}

/// The length of segment `k`: its share of `total` by weight; the last one
/// takes what is left.
pub open spec fn segment(total: int, ws: Seq<int>, k: int) -> int {
    if k == ws.len() - 1 {
        total - taken(total, ws, k)
    } else {
        quotient(total * ws[k], weight_total(ws))
    }
}

/// What the segments before `k` take of `total`.
pub open spec fn taken(total: int, ws: Seq<int>, k: int) -> int
    decreases k,
{
    if k <= 0 {
        0
    } else {
        taken(total, ws, k - 1) + quotient(total * ws[k - 1], weight_total(ws))
    }
}

pub open spec fn in_i32(n: int) -> bool {
    i32::MIN <= n <= i32::MAX
}

/// Splitting stays within the machine's integers.
pub open spec fn splits(start: int, total: int, ws: Seq<int>) -> bool {
    &&& forall|k: int| 0 <= k <= ws.len() ==> in_i32(sum_of(#[trigger] ws.take(k)))
    &&& forall|k: int|
        0 <= k < ws.len() - 1 ==> in_i32(total * #[trigger] ws[k]) && in_i32(
            taken(total, ws, k + 1),
        ) && in_i32(start + taken(total, ws, k + 1)) && in_i32(total - taken(total, ws, k + 1))
    &&& in_i32(start + total)
}

fn divide(a: i32, b: i32) -> (r: i32)
    requires
        b >= 1,
    ensures
        r == quotient(a as int, b as int),
{
    if a >= 0 {
        a / b
    } else {
        let n = -(a as i64);
        let q = n / (b as i64);
        assert(q <= n) by (nonlinear_arith)
            requires
                q == n / (b as i64),
                n >= 0,
                b >= 1,
        ;
        (-q) as i32
    }
}

pub open spec fn ints(v: Seq<i32>) -> Seq<int> {
    v.map_values(|w: i32| w as int)
}

/// Split `total` into segments proportional to `weights`.
///
/// The last segment absorbs the rounding remainder so the segments exactly tile
/// `[start, start + total)`.
pub fn split_weighted(start: i32, total: i32, weights: &Vec<i32>) -> (r: Vec<(i32, i32)>)
    requires
        splits(start as int, total as int, ints(weights@)),
    ensures
        r@.len() == weights@.len(),
        forall|k: int|
            0 <= k < r@.len() ==> (#[trigger] r@[k]).0 == start + taken(
                total as int,
                ints(weights@),
                k,
            ) && r@[k].1 == segment(total as int, ints(weights@), k),
{
    let ghost ws = ints(weights@);
    let n = weights.len();
    let mut sum: i32 = 0;
    assert(ws.take(0) =~= Seq::empty());
    for i in 0..n
        invariant
            n == weights@.len(),
            ws == ints(weights@),
            splits(start as int, total as int, ws),
            sum == sum_of(ws.take(i as int)),
    {
        proof {
            let t = ws.take(i + 1);
            assert(t.drop_last() =~= ws.take(i as int));
            assert(t.last() == weights@[i as int]);
            assert(in_i32(sum_of(t)));
        }
        sum = sum + weights[i];
    }
    assert(ws.take(n as int) =~= ws);
    let tw = if sum > 1 {
        sum
    } else {
        1
    };
    let mut out: Vec<(i32, i32)> = Vec::new();
    let mut pos = start;
    let mut used: i32 = 0;
    for i in 0..n
        invariant
            n == weights@.len(),
            ws == ints(weights@),
            splits(start as int, total as int, ws),
            tw == weight_total(ws),
            i < n ==> used == taken(total as int, ws, i as int),
            i < n ==> pos == start + used,
            out@.len() == i,
            forall|k: int|
                0 <= k < i ==> (#[trigger] out@[k]).0 == start + taken(total as int, ws, k)
                    && out@[k].1 == segment(total as int, ws, k),
    {
        assert(ws[i as int] == weights@[i as int]);
        proof {
            if i > 0 {
                assert(in_i32(total * ws[i - 1]));
            }
        }
        let seg = if i == n - 1 {
            total - used
        } else {
            divide(total * weights[i], tw)
        };
        out.push((pos, seg));
        pos = pos + seg;
        used = used + seg;
    }
    out
}

/// Panels by id.
pub struct PanelMap {
    entries: Vec<(&'static str, Rect)>,
}

/// The map that a list of pairs stands for; a later pair counts over an
/// earlier one of the same id.
pub open spec fn with_all(m: Map<Seq<char>, Area>, es: Seq<(Seq<char>, Area)>) -> Map<
    Seq<char>,
    Area,
>
    decreases es.len(),
{
    if es.len() == 0 {
        m
    } else {
        with_all(m, es.drop_last()).insert(es.last().0, es.last().1)
    }
}

pub open spec fn map_of(es: Seq<(Seq<char>, Area)>) -> Map<Seq<char>, Area> {
    with_all(Map::empty(), es)
}

impl View for PanelMap {
    type V = Map<Seq<char>, Area>;

    closed spec fn view(&self) -> Map<Seq<char>, Area> {
        Map::new(
            |id: Seq<char>| exists|i: int|
                0 <= i < self.entries@.len() && (#[trigger] self.entries@[i]).0@ == id,
            |id: Seq<char>| self.entries@[self.index_of(id)].1@,
        )
    }
}

impl PanelMap {
    spec fn index_of(&self, id: Seq<char>) -> int {
        choose|i: int| 0 <= i < self.entries@.len() && (#[trigger] self.entries@[i]).0@ == id
    }

    /// No id occurs twice.
    pub closed spec fn wf(&self) -> bool {
        forall|i: int, j: int|
            0 <= i < j < self.entries@.len() ==> (#[trigger] self.entries@[i]).0@ != (
            #[trigger] self.entries@[j]).0@
    }

    pub fn new() -> (r: PanelMap)
        ensures
            r.wf(),
            r@ == Map::<Seq<char>, Area>::empty(),
    {
        let r = PanelMap { entries: Vec::new() };
        assert(r@ =~= Map::<Seq<char>, Area>::empty());
        r
    }

    /// The rect of a panel.
    pub fn get(&self, id: &str) -> (r: Option<Rect>)
        requires
            self.wf(),
        ensures
            match r {
                Some(rect) => self@.dom().contains(id@) && self@[id@] == rect@,
                None => !self@.dom().contains(id@),
            },
    {
        for i in 0..self.entries.len()
            invariant
                self.wf(),
                forall|j: int| 0 <= j < i ==> (#[trigger] self.entries@[j]).0@ != id@,
        {
            if same(self.entries[i].0, id) {
                assert(self.entries@[i as int].0@ == id@);
                assert(self.index_of(id@) == i);
                return Some(self.entries[i].1);
            }
        }
        None
    }

    pub fn contains_key(&self, id: &str) -> (r: bool)
        requires
            self.wf(),
        ensures
            r == self@.dom().contains(id@),
    {
        self.get(id).is_some()
    }

    pub fn is_empty(&self) -> (r: bool)
        requires
            self.wf(),
        ensures
            r == (self@ == Map::<Seq<char>, Area>::empty()),
    {
        let r = self.entries.len() == 0;
        proof {
            if r {
                assert(self@ =~= Map::<Seq<char>, Area>::empty());
            } else {
                assert(self.entries@[0].0@ == self.entries@[0].0@);
                assert(self@.dom().contains(self.entries@[0].0@));
            }
        }
        r
    }

    /// Gives a panel its rect.
    pub fn insert(&mut self, id: &'static str, rect: Rect)
        requires
            old(self).wf(),
        ensures
            final(self).wf(),
            final(self)@ == old(self)@.insert(id@, rect@),
    {
        let n = self.entries.len();
        for i in 0..n
            invariant
                self.wf(),
                n == self.entries@.len(),
                *self == *old(self),
                forall|j: int| 0 <= j < i ==> (#[trigger] self.entries@[j]).0@ != id@,
        {
            if same(self.entries[i].0, id) {
                self.entries.set(i, (id, rect));
                proof {
                    lemma_replaced(*old(self), *self, i as int, id@, rect);
                }
                return ;
            }
        }
        self.entries.push((id, rect));
        proof {
            lemma_pushed(*old(self), *self, id@, rect);
        }
    }

    /// The panels with their rects; each panel occurs once.
    pub fn entries(&self) -> (r: Vec<(&'static str, Rect)>)
        requires
            self.wf(),
        ensures
            forall|i: int|
                0 <= i < r@.len() ==> self@.dom().contains((#[trigger] r@[i]).0@) && self@[r@[i].0@]
                    == r@[i].1@,
            forall|id: Seq<char>| #[trigger] self@.dom().contains(id) ==> exists|i: int|
                0 <= i < r@.len() && (#[trigger] r@[i]).0@ == id,
            forall|i: int, j: int|
                0 <= i < j < r@.len() ==> (#[trigger] r@[i]).0@ != (#[trigger] r@[j]).0@,
    {
        let mut r: Vec<(&'static str, Rect)> = Vec::new();
        for i in 0..self.entries.len()
            invariant
                r@ == self.entries@.take(i as int),
        {
            r.push(self.entries[i]);
            assert(r@ =~= self.entries@.take(i + 1));
        }
        assert(r@ =~= self.entries@);
        proof {
            assert forall|i: int| 0 <= i < r@.len() implies self@.dom().contains(
                (#[trigger] r@[i]).0@,
            ) && self@[r@[i].0@] == r@[i].1@ by {
                let k = self.index_of(r@[i].0@);
                assert(self.entries@[i].0@ == r@[i].0@);
                assert(0 <= k < self.entries@.len() && self.entries@[k].0@ == r@[i].0@);
                assert(k == i);
            }
        }
        r
    }
}

proof fn lemma_replaced(before: PanelMap, after: PanelMap, i: int, id: Seq<char>, rect: Rect)
    requires
        before.wf(),
        0 <= i < before.entries@.len(),
        before.entries@[i].0@ == id,
        after.entries@.len() == before.entries@.len(),
        after.entries@[i].0@ == id,
        after.entries@[i].1 == rect,
        forall|j: int|
            0 <= j < before.entries@.len() && j != i ==> #[trigger] after.entries@[j]
                == before.entries@[j],
    ensures
        after.wf(),
        after@ == before@.insert(id, rect@),
{
    assert forall|j: int| 0 <= j < before.entries@.len() implies (#[trigger] after.entries@[j]).0@
        == before.entries@[j].0@ by {}
    assert(after@.dom() =~= before@.insert(id, rect@).dom()) by {
        assert forall|p: Seq<char>| after@.dom().contains(p) == before@.insert(
            id,
            rect@,
        ).dom().contains(p) by {
            if after@.dom().contains(p) {
                let j = after.index_of(p);
                assert(before.entries@[j].0@ == p);
            }
            if before@.dom().contains(p) {
                let j = before.index_of(p);
                assert(after.entries@[j].0@ == p);
            }
            if p == id {
                assert(after.entries@[i].0@ == p);
            }
        }
    }
    assert forall|p: Seq<char>| after@.dom().contains(p) implies after@[p] == before@.insert(
        id,
        rect@,
    )[p] by {
        let j = after.index_of(p);
        assert(0 <= j < after.entries@.len() && after.entries@[j].0@ == p);
        assert(before.entries@[j].0@ == p);
        assert(before.index_of(p) == j);
        if p == id {
            assert(j == i);
        }
    }
    assert(after@ =~= before@.insert(id, rect@));
}

proof fn lemma_pushed(before: PanelMap, after: PanelMap, id: Seq<char>, rect: Rect)
    requires
        before.wf(),
        forall|j: int| 0 <= j < before.entries@.len() ==> (#[trigger] before.entries@[j]).0@ != id,
        after.entries@.len() == before.entries@.len() + 1,
        after.entries@.last().0@ == id,
        after.entries@.last().1 == rect,
        forall|j: int|
            0 <= j < before.entries@.len() ==> #[trigger] after.entries@[j] == before.entries@[j],
    ensures
        after.wf(),
        after@ == before@.insert(id, rect@),
{
    let n = before.entries@.len() as int;
    assert(after.entries@[n].0@ == id);
    assert(after.wf()) by {
        assert forall|i: int, j: int| 0 <= i < j < after.entries@.len() implies (
        #[trigger] after.entries@[i]).0@ != (#[trigger] after.entries@[j]).0@ by {
            assert(after.entries@[i] == before.entries@[i]);
            if j < n {
                assert(after.entries@[j] == before.entries@[j]);
            }
        }
    }
    assert(after@.dom() =~= before@.insert(id, rect@).dom()) by {
        assert forall|p: Seq<char>| after@.dom().contains(p) == before@.insert(
            id,
            rect@,
        ).dom().contains(p) by {
            if after@.dom().contains(p) {
                let j = after.index_of(p);
                if j < n {
                    assert(before.entries@[j].0@ == p);
                }
            }
            if before@.dom().contains(p) {
                let j = before.index_of(p);
                assert(after.entries@[j].0@ == p);
            }
        }
    }
    assert forall|p: Seq<char>| after@.dom().contains(p) implies after@[p] == before@.insert(
        id,
        rect@,
    )[p] by {
        let j = after.index_of(p);
        assert(0 <= j < after.entries@.len() && after.entries@[j].0@ == p);
        if j < n {
            assert(before.entries@[j].0@ == p);
            assert(before.index_of(p) == j);
        }
    }
    assert(after@ =~= before@.insert(id, rect@));
}

impl Default for PanelMap {
    fn default() -> (r: PanelMap)
        ensures
            r.wf(),
            r@ == Map::<Seq<char>, Area>::empty(),
    {
        PanelMap::new()
    }
}

pub struct Layout {
    pub panels: PanelMap,
    pub too_small: bool,
}

impl Default for Layout {
    fn default() -> (r: Layout)
        ensures
            r.panels.wf(),
            r.panels@ == Map::<Seq<char>, Area>::empty(),
            !r.too_small,
    {
        Layout { panels: PanelMap::new(), too_small: false }
    }
}

pub open spec fn weights_of(n: Tree) -> Seq<int> {
    n.children.map_values(|c: Tree| c.weight)
}

/// The slot of child `k` of a split that fills `a`.
pub open spec fn slot(n: Tree, a: Area, k: int) -> Area {
    let ws = weights_of(n);
    if n.vertical {
        Area { y: a.y + taken(a.h, ws, k), h: segment(a.h, ws, k), ..a }
    } else {
        Area { x: a.x + taken(a.w, ws, k), w: segment(a.w, ws, k), ..a }
    }
}

/// The panels of a tree that fills `a`, in order, each with its area.
pub open spec fn placed(n: Tree, a: Area) -> Seq<(Seq<char>, Area)>
    decreases n, n.children.len() + 1,
{
    match n.panel {
        Some(p) => seq![(p, a)],
        None => placed_upto(n, a, n.children.len() as int),
    }
}

/// The panels of the first `k` children.
pub open spec fn placed_upto(n: Tree, a: Area, k: int) -> Seq<(Seq<char>, Area)>
    decreases n, k,
{
    if k <= 0 || k > n.children.len() {
        Seq::empty()
    } else {
        placed_upto(n, a, k - 1) + placed(n.children[k - 1], slot(n, a, k - 1))
    }
}

/// Placing the tree stays within the machine's integers.
pub open spec fn fits(n: Tree, a: Area) -> bool
    decreases n,
{
    n.panel is None ==> {
        &&& if n.vertical {
            splits(a.y, a.h, weights_of(n))
        } else {
            splits(a.x, a.w, weights_of(n))
        }
        &&& forall|k: int|
            0 <= k < n.children.len() ==> fits(#[trigger] n.children[k], slot(n, a, k))
    }
}

proof fn lemma_with_all_add(
    m: Map<Seq<char>, Area>,
    a: Seq<(Seq<char>, Area)>,
    b: Seq<(Seq<char>, Area)>,
)
    ensures
        with_all(m, a + b) == with_all(with_all(m, a), b),
    decreases b.len(),
{
    if b.len() == 0 {
        assert(a + b =~= a);
    } else {
        assert((a + b).drop_last() =~= a + b.drop_last());
        lemma_with_all_add(m, a, b.drop_last());
    }
}

/// Gives each panel of the tree its rect.
pub fn place(node: &Node, rect: Rect, out: &mut PanelMap)
    requires
        fits(node@, rect@),
        old(out).wf(),
    ensures
        final(out).wf(),
        final(out)@ == with_all(old(out)@, placed(node@, rect@)),
    decreases node,
{
    if let Some(p) = node.panel {
        out.insert(p, rect);
        proof {
            let es = placed(node@, rect@);
            assert(es.drop_last() =~= Seq::empty());
            assert(with_all(old(out)@, es.drop_last()) == old(out)@);
        }
        return ;
    }
    let n = node.children.len();
    let mut weights: Vec<i32> = Vec::new();
    for i in 0..n
        invariant
            n == node.children@.len(),
            weights@.len() == i,
            forall|j: int| 0 <= j < i ==> #[trigger] weights@[j] == node.children@[j].weight,
    {
        weights.push(node.children[i].weight);
    }
    proof {
        lemma_children(*node);
        assert forall|j: int| 0 <= j < n implies #[trigger] ints(weights@)[j] == weights_of(
            node@,
        )[j] by {
            assert(node@.children[j] == node.children@[j]@);
        }
        assert(ints(weights@) =~= weights_of(node@));
    }
    let segs = if node.vertical {
        split_weighted(rect.y, rect.h, &weights)
    } else {
        split_weighted(rect.x, rect.w, &weights)
    };
    for i in 0..n
        invariant
            n == node.children@.len(),
            node@.children == trees(node.children@),
            node@.panel is None,
            node.vertical == node@.vertical,
            fits(node@, rect@),
            segs@.len() == n,
            ints(weights@) == weights_of(node@),
            forall|k: int|
                0 <= k < n ==> (#[trigger] segs@[k]).0 == (if node.vertical {
                    rect.y + taken(rect.h as int, weights_of(node@), k)
                } else {
                    rect.x + taken(rect.w as int, weights_of(node@), k)
                }) && segs@[k].1 == (if node.vertical {
                    segment(rect.h as int, weights_of(node@), k)
                } else {
                    segment(rect.w as int, weights_of(node@), k)
                }),
            out.wf(),
            out@ == with_all(old(out)@, placed_upto(node@, rect@, i as int)),
        decreases n - i,
    {
        let seg = segs[i];
        let slot_rect = if node.vertical {
            Rect::new(seg.0, rect.x, seg.1, rect.w)
        } else {
            Rect::new(rect.y, seg.0, rect.h, seg.1)
        };
        proof {
            assert(node@.children[i as int] == node.children@[i as int]@);
            assert(slot_rect@ =~= slot(node@, rect@, i as int));
            lemma_with_all_add(
                old(out)@,
                placed_upto(node@, rect@, i as int),
                placed(node@.children[i as int], slot(node@, rect@, i as int)),
            );
        }
        place(&node.children[i], slot_rect, out);
    }
}

pub open spec fn screen(lines: int, cols: int) -> Area {
    Area { y: 0, x: 0, h: lines, w: cols }
}

pub open spec fn is_too_small(lines: int, cols: int) -> bool {
    cols < MIN_COLS || lines < MIN_LINES
}

/// The panels of a view on a screen, in order, each with its area.
pub open spec fn arrangement(
    lines: int,
    cols: int,
    view: Tree,
    available: Seq<&str>,
) -> Seq<(Seq<char>, Area)> {
    if is_too_small(lines, cols) {
        Seq::empty()
    } else {
        match pruned(view, available) {
            Some(t) => placed(t, screen(lines, cols)),
            None => Seq::empty(),
        }
    }
}

/// The view can be laid out on the screen within the machine's integers.
pub open spec fn fits_screen(lines: int, cols: int, view: Tree, available: Seq<&str>) -> bool {
    match pruned(view, available) {
        Some(t) => is_too_small(lines, cols) || fits(t, screen(lines, cols)),
        None => true,
    }
}

/// Place `view`'s available panels into the terminal rect.
///
/// Panels start at the top of the screen (no header/footer bar). Panels not in
/// `available` are pruned and the rest reflow to fill the freed space.
pub fn compute_layout(lines: i32, cols: i32, view: &Node, available: &Vec<&str>) -> (r: Layout)
    requires
        fits_screen(lines as int, cols as int, view@, available@),
    ensures
        r.panels.wf(),
        r.too_small == is_too_small(lines as int, cols as int),
        r.panels@ == map_of(arrangement(lines as int, cols as int, view@, available@)),
{
    if cols < MIN_COLS || lines < MIN_LINES {
        return Layout { panels: PanelMap::new(), too_small: true };
    }
    match prune(view, available) {
        Some(tree) => {
            let mut out = PanelMap::new();
            let all = Rect::new(0, 0, lines, cols);
            assert(all@ =~= screen(lines as int, cols as int));
            place(&tree, all, &mut out);
            Layout { panels: out, too_small: false }
        },
        None => Layout { panels: PanelMap::new(), too_small: false },
    }
}

} // verus!
