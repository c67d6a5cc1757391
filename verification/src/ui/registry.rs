//! Panel registry: metadata for every panel a view can reference.
//!
//! Decouples panel identity from any particular view. A [`Panel`] names what it
//! draws and what it `requires` — a capability that must be present for the
//! panel to be shown (e.g. `"log"` for the requests panel). The app computes the
//! available capability set each frame and the layout prunes panels whose
//! requirement is unmet, so a view referencing such a panel still works without
//! the capability (that panel just drops out and its siblings reflow).

use vstd::prelude::*;

use crate::text::same;
use crate::ui::layout;

verus! {

/// What a panel draws.
#[derive(Clone, Copy, Debug, PartialEq, Eq, Structural)]
pub enum Drawing {
    Throughput,
    Requests,
    Perf,
    Loadavg,
}

pub struct Panel {
    pub id: &'static str,
    pub title: &'static str,
    pub draw: Drawing,
    pub requires: Vec<&'static str>,
}

/// How many panels there are.
pub const PANEL_COUNT: usize = 4;

pub open spec fn panel_id(d: Drawing) -> Seq<char> {
    match d {
        Drawing::Throughput => "throughput"@,
        Drawing::Requests => "requests"@,
        Drawing::Perf => "perf"@,
        Drawing::Loadavg => "loadavg"@,
    }
}

pub open spec fn panel_title(d: Drawing) -> Seq<char> {
    match d {
        Drawing::Throughput => "throughput"@,
        Drawing::Requests => "requests"@,
        Drawing::Perf => "perf"@,
        Drawing::Loadavg => "1·5·15"@,
    }
}

/// The order of the registry.
pub open spec fn drawing_at(i: int) -> Drawing {
    if i == 0 {
        Drawing::Throughput
    } else if i == 1 {
        Drawing::Requests
    } else if i == 2 {
        Drawing::Perf
    } else {
        Drawing::Loadavg
    }
}

/// What a panel requires: the requests panel needs a log to follow.
pub open spec fn required(d: Drawing) -> Seq<Seq<char>> {
    if d == Drawing::Requests {
        seq!["log"@]
    } else {
        Seq::empty()
    }
}

/// The panel of a drawing.
pub open spec fn is_panel_of(p: Panel, d: Drawing) -> bool {
    &&& p.draw == d
    &&& p.id@ == panel_id(d)
    &&& p.title@ == panel_title(d)
    &&& p.requires@.map_values(|s: &'static str| s@) == required(d)
}

fn panel(id: &'static str, title: &'static str, draw: Drawing) -> (r: Panel)
    ensures
        r.id == id,
        r.title == title,
        r.draw == draw,
        r.requires@.map_values(|s: &'static str| s@) == required(draw),
{
    let mut caps: Vec<&'static str> = Vec::new();
    if draw == Drawing::Requests {
        caps.push("log");
    }
    assert(caps@.map_values(|s: &'static str| s@) =~= required(draw));
    Panel { id, title, draw, requires: caps }
}

/// All panels.
pub fn registry() -> (r: Vec<Panel>)
    ensures
        r@.len() == PANEL_COUNT,
        forall|i: int| 0 <= i < PANEL_COUNT ==> is_panel_of(#[trigger] r@[i], drawing_at(i)),
{
    vec![
        panel("throughput", "throughput", Drawing::Throughput),
        panel("requests", "requests", Drawing::Requests),
        panel("perf", "perf", Drawing::Perf),
        panel("loadavg", "1·5·15", Drawing::Loadavg),
    ]
}

/// What the panel with the given id draws, where there is one.
pub open spec fn drawing_named(id: Seq<char>) -> Option<Drawing> {
    if id == "throughput"@ {
        Some(Drawing::Throughput)
    } else if id == "requests"@ {
        Some(Drawing::Requests)
    } else if id == "perf"@ {
        Some(Drawing::Perf)
    } else if id == "loadavg"@ {
        Some(Drawing::Loadavg)
    } else {
        None
    }
}

/// The panel with the given id.
pub fn find_panel(id: &str) -> (r: Option<Panel>)
    ensures
        match r {
            Some(p) => drawing_named(id@) == Some(p.draw) && is_panel_of(p, p.draw),
            None => drawing_named(id@) is None,
        },
{
    if same(id, "throughput") {
        Some(panel("throughput", "throughput", Drawing::Throughput))
    } else if same(id, "requests") {
        Some(panel("requests", "requests", Drawing::Requests))
    } else if same(id, "perf") {
        Some(panel("perf", "perf", Drawing::Perf))
    } else if same(id, "loadavg") {
        Some(panel("loadavg", "1·5·15", Drawing::Loadavg))
    } else {
        None
    }
}

/// Everything that the panel requires is there.
pub open spec fn is_met(p: Panel, caps: Seq<&str>) -> bool {
    forall|i: int| 0 <= i < p.requires@.len() ==> layout::listed(caps, (#[trigger] p.requires@[i])@)
}

fn meets(p: &Panel, caps: &Vec<&str>) -> (r: bool)
    ensures
        r == is_met(*p, caps@),
{
    for i in 0..p.requires.len()
        invariant
            forall|j: int|
                0 <= j < i ==> layout::listed(caps@, (#[trigger] p.requires@[j])@),
    {
        if !layout::lists(caps, p.requires[i]) {
            assert(!layout::listed(caps@, p.requires@[i as int]@));
            return false;
        }
    }
    true
}

/// The ids of the panels, of the first `n`, whose requirements are met.
pub open spec fn met_upto(panels: Seq<Panel>, caps: Seq<&str>, n: int) -> Seq<Seq<char>>
    decreases n,
{
    if n <= 0 {
        Seq::empty()
    } else {
        let before = met_upto(panels, caps, n - 1);
        if is_met(panels[n - 1], caps) {
            before.push(panels[n - 1].id@)
        } else {
            before
        }
    }
}

/// The ids of the given panels whose requirements the capabilities meet.
pub fn available_panels(panels: &Vec<Panel>, caps: &Vec<&str>) -> (r: Vec<&'static str>)
    ensures
        r@.map_values(|s: &'static str| s@) == met_upto(panels@, caps@, panels@.len() as int),
{
    let mut r: Vec<&'static str> = Vec::new();
    let ghost names = |s: &'static str| s@;
    assert(r@.map_values(names) =~= Seq::empty());
    for i in 0..panels.len()
        invariant
            names == (|s: &'static str| s@),
            r@.map_values(names) == met_upto(panels@, caps@, i as int),
    {
        let ghost before = r@;
        if meets(&panels[i], caps) {
            r.push(panels[i].id);
            assert(r@.map_values(names) =~= before.map_values(names).push(panels@[i as int].id@));
        }
    }
    r
}

/// Looking a panel up by its id gives that panel.
pub proof fn law_panels_are_found(d: Drawing)
    ensures
        drawing_named(panel_id(d)) == Some(d),
{
    reveal_strlit("throughput");
    reveal_strlit("requests");
    reveal_strlit("perf");
    reveal_strlit("loadavg");
    assert("throughput"@.len() == 10 && "requests"@.len() == 8);
    assert("perf"@.len() == 4 && "loadavg"@.len() == 7);
}

} // verus!
