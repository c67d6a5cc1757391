//! The layout of panels on the screen.

use tokos::ui::frame::available_caps;
use tokos::ui::layout::{
    col, compute_layout, leaf, lists, prune, row, split_weighted, Node, PanelMap, Rect, MIN_COLS,
    MIN_LINES,
};
use tokos::ui::registry::{available_panels, find_panel, registry};
use tokos::ui::views::views;

fn all_panels() -> Vec<&'static str> {
    registry().iter().map(|p| p.id).collect()
}

fn rect(y: i32, x: i32, h: i32, w: i32) -> Rect {
    Rect { y, x, h, w }
}

#[test]
fn row_splits_width_col_splits_height() {
    let tree = col(
        vec![leaf("a", 1), row(vec![leaf("b", 1), leaf("c", 1)], 1)],
        1,
    );
    let avail = vec!["a", "b", "c"];
    let lay = compute_layout(40, 100, &tree, &avail);
    let a = lay.panels.get("a").unwrap();
    let b = lay.panels.get("b").unwrap();
    let c = lay.panels.get("c").unwrap();
    assert!(a == rect(0, 0, 20, 100));
    assert_eq!(b.y, 20);
    assert_eq!(c.y, 20);
    assert_eq!(b.h, 20);
    assert_eq!(c.h, 20);
    assert_eq!(b.x, 0);
    assert_eq!(c.x, b.w);
    assert_eq!(b.w + c.w, 100);
}

#[test]
fn weights_are_proportional() {
    let tree = col(vec![leaf("a", 2), leaf("b", 3)], 1);
    let avail = vec!["a", "b"];
    let lay = compute_layout(50, 80, &tree, &avail);
    assert_eq!(lay.panels.get("a").unwrap().h, 20);
    assert_eq!(lay.panels.get("b").unwrap().h, 30);
}

#[test]
fn prune_drops_unavailable_and_collapses() {
    let tree = row(vec![leaf("perf", 1), leaf("requests", 1)], 1);
    let avail = vec!["requests"];
    let pruned = prune(&tree, &avail).unwrap();
    assert_eq!(pruned.panel, Some("requests"));
}

#[test]
fn unavailable_panel_reflows_to_fill() {
    let mut avail = all_panels();
    avail.retain(|p| *p != "perf");
    let views = views();
    let lay = compute_layout(40, 120, &views[0].root, &avail);
    assert!(!lay.panels.contains_key("perf"));
    let ys = lay.panels.entries().iter().map(|(_, r)| r.y).min().unwrap();
    assert_eq!(ys, 0);
}

#[test]
fn too_small_flags() {
    let views = views();
    let lay = compute_layout(MIN_LINES - 1, MIN_COLS - 1, &views[0].root, &all_panels());
    assert!(lay.too_small);
    assert!(lay.panels.is_empty());
}

fn panels_in(node: &Node) -> Vec<&'static str> {
    match node.panel {
        Some(p) => vec![p],
        None => node.children.iter().flat_map(panels_in).collect(),
    }
}

#[test]
fn views_only_reference_registered_panels() {
    let all = all_panels();
    for view in views().iter() {
        for p in panels_in(&view.root) {
            assert!(all.contains(&p), "{}", view.name);
        }
    }
}

#[test]
fn one_row_too_few_is_too_small() {
    let views = views();
    assert!(compute_layout(MIN_LINES - 1, MIN_COLS, &views[0].root, &all_panels()).too_small);
    assert!(compute_layout(MIN_LINES, MIN_COLS - 1, &views[0].root, &all_panels()).too_small);
    assert!(!compute_layout(MIN_LINES, MIN_COLS, &views[0].root, &all_panels()).too_small);
}

#[test]
fn nothing_available_places_nothing() {
    let views = views();
    let none: Vec<&str> = Vec::new();
    let lay = compute_layout(40, 120, &views[0].root, &none);
    assert!(!lay.too_small);
    assert!(lay.panels.is_empty());
    assert!(prune(&views[0].root, &none).is_none());
}

#[test]
fn last_segment_takes_the_remainder() {
    assert_eq!(split_weighted(5, 10, &vec![1, 1, 1]), vec![(5, 3), (8, 3), (11, 4)]);
    assert_eq!(split_weighted(0, 7, &vec![2]), vec![(0, 7)]);
}

#[test]
fn placed_panels_tile_the_screen() {
    let views = views();
    let avail = all_panels();
    for lines in 20..60 {
        for cols in [62, 63, 80, 99, 200] {
            let lay = compute_layout(lines, cols, &views[0].root, &avail);
            let rects = lay.panels.entries();
            let area: i32 = rects.iter().map(|(_, r)| r.h * r.w).sum();
            assert_eq!(area, lines * cols);
            for (i, (_, a)) in rects.iter().enumerate() {
                assert!(a.y >= 0 && a.x >= 0 && a.y + a.h <= lines && a.x + a.w <= cols);
                for (_, b) in rects.iter().skip(i + 1) {
                    let apart = a.y + a.h <= b.y || b.y + b.h <= a.y || a.x + a.w <= b.x
                        || b.x + b.w <= a.x;
                    assert!(apart);
                }
            }
        }
    }
}

#[test]
fn panel_map_replaces_an_entry() {
    let mut m = PanelMap::new();
    assert!(m.is_empty());
    m.insert("a", rect(0, 0, 1, 1));
    m.insert("b", rect(1, 0, 1, 1));
    m.insert("a", rect(2, 0, 1, 1));
    assert!(m.get("a").unwrap() == rect(2, 0, 1, 1));
    assert!(m.get("b").unwrap() == rect(1, 0, 1, 1));
    assert!(m.get("c").is_none());
    assert_eq!(m.entries().len(), 2);
}

#[test]
fn panels_need_their_capabilities() {
    let none: Vec<&str> = Vec::new();
    assert_eq!(available_panels(&registry(), &none), vec!["throughput", "perf", "loadavg"]);
    let caps = vec!["log"];
    assert_eq!(
        available_panels(&registry(), &caps),
        vec!["throughput", "requests", "perf", "loadavg"]
    );
    assert!(lists(&caps, "log"));
    assert!(!lists(&none, "log"));
    assert_eq!(available_caps(false), vec!["throughput", "perf", "loadavg"]);
    assert_eq!(available_caps(true), vec!["throughput", "requests", "perf", "loadavg"]);
}

#[test]
fn registered_panels_are_found() {
    for p in registry() {
        assert_eq!(find_panel(p.id).unwrap().id, p.id);
    }
    assert!(find_panel("nope").is_none());
}
