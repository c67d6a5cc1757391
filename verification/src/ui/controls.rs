//! What the keys do.

use vstd::prelude::*;

use crate::collectors;
use crate::collectors::BackendKind;

verus! {

#[derive(Clone, Copy, Debug, PartialEq, Eq, Structural)]
pub enum KeyCode {
    Char(char),
    Tab,
    Esc,
    Other,
}

/// A key that was pressed, and whether the control key was held.
#[derive(Clone, Copy, Debug, PartialEq, Eq, Structural)]
pub struct KeyPress {
    pub code: KeyCode,
    pub ctrl: bool,
}

/// What a key asks for beyond the controls themselves.
#[derive(Clone, Copy, Debug, PartialEq, Eq, Structural)]
pub enum Action {
    Nothing,
    Quit,
    /// Pause or resume polling.
    TogglePause,
    /// Poll twice as often.
    Faster,
    /// Poll half as often.
    Slower,
    /// Show the name of the view that was switched to.
    ViewToast,
    /// Swap the backend, and show its name.
    SwapBackend(BackendKind),
}

/// What the keys control.
#[derive(Clone, Copy, Debug, PartialEq, Eq, Structural)]
pub struct Controls {
    pub show_help: bool,
    pub active_view: usize,
    pub backend: BackendKind,
}

/// Switching to a view: one that is not there, or is shown already, changes
/// nothing.
pub open spec fn view_selected(c: Controls, idx: int, views: int) -> (Controls, Action) {
    if idx >= views || idx == c.active_view {
        (c, Action::Nothing)
    } else {
        (Controls { active_view: idx as usize, ..c }, Action::ViewToast)
    }
}

/// What a key does. While the help is shown, any key closes it and does
/// nothing else.
pub open spec fn pressed(c: Controls, key: KeyPress, views: int) -> (Controls, Action) {
    if c.show_help {
        (Controls { show_help: false, ..c }, Action::Nothing)
    } else {
        match key.code {
            KeyCode::Esc => (c, Action::Quit),
            KeyCode::Tab => view_selected(c, (c.active_view + 1) % views, views),
            KeyCode::Other => (c, Action::Nothing),
            KeyCode::Char(ch) => if ch == 'q' || (ch == 'c' && key.ctrl) {
                (c, Action::Quit)
            } else if ch == 'h' || ch == '?' {
                (Controls { show_help: true, ..c }, Action::Nothing)
            } else if ch == 'p' {
                (c, Action::TogglePause)
            } else if ch == '+' || ch == '=' {
                (c, Action::Faster)
            } else if ch == '-' {
                (c, Action::Slower)
            } else if '1' <= ch && ch <= '9' {
                view_selected(c, ch as int - '1' as int, views)
            } else if ch == 'b' {
                let next = collectors::next_kind(c.backend);
                (Controls { backend: next, ..c }, Action::SwapBackend(next))
            } else {
                (c, Action::Nothing)
            },
        }
    }
}

impl Controls {
    /// The first view of a backend of the given kind, without help.
    pub fn new(backend: BackendKind) -> (r: Controls)
        ensures
            r == (Controls { show_help: false, active_view: 0, backend }),
    {
        Controls { show_help: false, active_view: 0, backend }
    }

    /// Switch to a view.
    pub fn select_view(&mut self, idx: usize, views: usize) -> (r: Action)
        ensures
            (*final(self), r) == view_selected(*old(self), idx as int, views as int),
    {
        if idx >= views || idx == self.active_view {
            return Action::Nothing;
        }
        self.active_view = idx;
        Action::ViewToast
    }

    /// Takes a key in and says what it asks for.
    pub fn press(&mut self, key: KeyPress, views: usize) -> (r: Action)
        requires
            old(self).active_view < views,
        ensures
            (*final(self), r) == pressed(*old(self), key, views as int),
            final(self).active_view < views,
    {
        if self.show_help {
            self.show_help = false;
            return Action::Nothing;
        }
        match key.code {
            KeyCode::Esc => Action::Quit,
            KeyCode::Tab => {
                let next = (self.active_view + 1) % views;
                self.select_view(next, views)
            },
            KeyCode::Other => Action::Nothing,
            KeyCode::Char(ch) => {
                if ch == 'q' || (ch == 'c' && key.ctrl) {
                    Action::Quit
                } else if ch == 'h' || ch == '?' {
                    self.show_help = true;
                    Action::Nothing
                } else if ch == 'p' {
                    Action::TogglePause
                } else if ch == '+' || ch == '=' {
                    Action::Faster
                } else if ch == '-' {
                    Action::Slower
                } else if '1' <= ch && ch <= '9' {
                    self.select_view((ch as u32 - '1' as u32) as usize, views)
                } else if ch == 'b' {
                    self.backend = self.backend.next();
                    Action::SwapBackend(self.backend)
                } else {
                    Action::Nothing
                }
            },
        }
    }
}

/// Whatever keys are pressed, a view that is there stays shown.
pub proof fn law_view_stays_valid(c: Controls, key: KeyPress, views: int)
    requires
        0 < views <= usize::MAX,
        c.active_view < views,
    ensures
        pressed(c, key, views).0.active_view < views,
{
}

/// Cycling through the backends three times comes back to the first.
pub proof fn law_backend_cycle(k: BackendKind)
    ensures
        collectors::next_kind(collectors::next_kind(collectors::next_kind(k))) == k,
        collectors::next_kind(k) != k,
{
}

/// The keys of the help, while it is not shown: each does what it says there,
/// and no more than that.
pub proof fn law_keys_do_what_help_says(c: Controls, ctrl: bool, views: int)
    requires
        !c.show_help,
        c.active_view < views,
    ensures
        forall|k: char| #[trigger]
            pressed(c, KeyPress { code: KeyCode::Char(k), ctrl }, views) == if k == 'q' {
                (c, Action::Quit)
            } else if k == 'c' && ctrl {
                (c, Action::Quit)
            } else if k == '+' || k == '=' {
                (c, Action::Faster)
            } else if k == '-' {
                (c, Action::Slower)
            } else if k == 'p' {
                (c, Action::TogglePause)
            } else if k == 'h' || k == '?' {
                (Controls { show_help: true, ..c }, Action::Nothing)
            } else if k == 'b' {
                let next = match c.backend {
                    BackendKind::Auto => BackendKind::Vllm,
                    BackendKind::Vllm => BackendKind::Sgl,
                    BackendKind::Sgl => BackendKind::Auto,
                };
                (Controls { backend: next, ..c }, Action::SwapBackend(next))
            } else if '1' <= k && k <= '9' && k as int - '0' as int <= views && k as int
                - '0' as int != c.active_view + 1 {
                (Controls { active_view: (k as int - '1' as int) as usize, ..c }, Action::ViewToast)
            } else {
                (c, Action::Nothing)
            },
        pressed(c, KeyPress { code: KeyCode::Esc, ctrl }, views) == (c, Action::Quit),
        pressed(c, KeyPress { code: KeyCode::Other, ctrl }, views) == (c, Action::Nothing),
{
}

/// The help comes up and goes again with the next key, whichever that is; all
/// else is as before.
pub proof fn law_help_is_passing(c: Controls, key: KeyPress, views: int)
    requires
        !c.show_help,
    ensures
        ({
            let open = pressed(c, KeyPress { code: KeyCode::Char('h'), ctrl: false }, views).0;
            pressed(open, key, views) == (c, Action::Nothing)
        }),
{
}

/// The controls once Tab was pressed `n` times.
pub open spec fn tabbed(c: Controls, views: int, n: nat) -> Controls
    decreases n,
{
    if n == 0 {
        c
    } else {
        pressed(
            tabbed(c, views, (n - 1) as nat),
            KeyPress { code: KeyCode::Tab, ctrl: false },
            views,
        ).0
    }
}

/// Tab goes through the views one by one, and after as many presses as there
/// are views the first one is back.
pub proof fn law_tab_cycles(c: Controls, views: int, n: nat)
    requires
        !c.show_help,
        0 < views <= usize::MAX,
        c.active_view < views,
    ensures
        tabbed(c, views, n) == (Controls {
            active_view: ((c.active_view + n) % views) as usize,
            ..c
        }),
        tabbed(c, views, views as nat) == c,
{
    lemma_tabbed(c, views, n);
    lemma_tabbed(c, views, views as nat);
    assert((c.active_view + views) % views == c.active_view) by (nonlinear_arith)
        requires
            0 <= c.active_view < views,
    ;
}

proof fn lemma_tabbed(c: Controls, views: int, n: nat)
    requires
        !c.show_help,
        0 < views <= usize::MAX,
        c.active_view < views,
    ensures
        tabbed(c, views, n) == (Controls {
            active_view: ((c.active_view + n) % views) as usize,
            ..c
        }),
    decreases n,
{
    if n == 0 {
        vstd::arithmetic::div_mod::lemma_small_mod(c.active_view as nat, views as nat);
    } else {
        lemma_tabbed(c, views, (n - 1) as nat);
        let at = (c.active_view + n - 1) % views;
        vstd::arithmetic::div_mod::lemma_mod_bound(c.active_view + n - 1, views);
        vstd::arithmetic::div_mod::lemma_mod_bound(c.active_view + n, views);
        vstd::arithmetic::div_mod::lemma_add_mod_noop(c.active_view + n - 1, 1, views);
        vstd::arithmetic::div_mod::lemma_add_mod_noop(at, 1, views);
        vstd::arithmetic::div_mod::lemma_mod_twice(c.active_view + n - 1, views);
        assert((at + 1) % views == (c.active_view + n) % views);
    }
}

} // verus!
