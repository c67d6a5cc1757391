//! What the keys and the poller do, one call after another.

use vstd::prelude::*;

use crate::collectors::BackendKind;
use crate::exact;
use crate::series;
use crate::state;
use crate::state::{Arithmetic, History, Snapshot, SERIES_COUNT};
use crate::ui::controls;
use crate::ui::controls::{Action, Controls, KeyCode, KeyPress};
use crate::ui::poller::{absorb, Poller, Round};

verus! {

/// A key that is a character, while the help is not shown, does what the help
/// says of it, and no more than that.
pub proof fn law_keys_are_pressed(
    c: &mut Controls,
    k: char,
    ctrl: bool,
    views: usize,
    r: Action,
)
    requires
        !old(c).show_help,
        old(c).active_view < views,
        call_ensures(Controls::press, (c, KeyPress { code: KeyCode::Char(k), ctrl }, views), r),
    ensures
        r == Action::Quit <==> k == 'q' || k == 'c' && ctrl,
        r == Action::Faster <==> k == '+' || k == '=',
        r == Action::Slower <==> k == '-',
        r == Action::TogglePause <==> k == 'p',
        r is SwapBackend <==> k == 'b',
        r matches Action::SwapBackend(b) ==> final(c).backend == b,
        k == 'b' ==> final(c).backend == match old(c).backend {
            BackendKind::Auto => BackendKind::Vllm,
            BackendKind::Vllm => BackendKind::Sgl,
            BackendKind::Sgl => BackendKind::Auto,
        },
        k != 'b' ==> final(c).backend == old(c).backend,
        final(c).show_help <==> k == 'h' || k == '?',
        r == Action::ViewToast <==> final(c).active_view != old(c).active_view,
        '1' <= k && k <= '9' && k as int - '0' as int <= views ==> final(c).active_view == k as int
            - '1' as int,
        !('1' <= k && k <= '9' && k as int - '0' as int <= views) ==> final(c).active_view == old(
            c,
        ).active_view,
{
    controls::law_keys_do_what_help_says(*old(c), ctrl, views as int);
    let key = KeyPress { code: KeyCode::Char(k), ctrl };
    assert(controls::pressed(*old(c), key, views as int) == (*final(c), r));
}

/// While the help is shown, the next key closes it, whichever it is, and does
/// nothing else. Escape quits otherwise.
pub proof fn law_help_closes(c: &mut Controls, key: KeyPress, views: usize, r: Action)
    requires
        old(c).active_view < views,
        call_ensures(Controls::press, (c, key, views), r),
    ensures
        old(c).show_help ==> r == Action::Nothing && *final(c) == (Controls {
            show_help: false,
            ..*old(c)
        }),
        !old(c).show_help && key.code == KeyCode::Esc ==> r == Action::Quit && *final(c) == *old(c),
        !old(c).show_help && key.code == KeyCode::Tab ==> final(c).active_view == if old(
            c,
        ).active_view + 1 < views {
            old(c).active_view + 1
        } else {
            0
        },
{
    if old(c).active_view + 1 < views {
        vstd::arithmetic::div_mod::lemma_small_mod(
            (old(c).active_view + 1) as nat,
            views as nat,
        );
    } else {
        vstd::arithmetic::div_mod::lemma_mod_self_0(views as int);
    }
}

/// A backend that was asked for is handed out at the start of the next round,
/// once, whether or not polling is paused; the round polls just when it is not.
pub proof fn law_backend_is_handed_out_once<F>(
    a: &mut Poller<F>,
    b: &mut Poller<F>,
    c: &mut Poller<F>,
    k: BackendKind,
    r: Round,
    s: Round,
)
    requires
        call_ensures(Poller::<F>::request_backend, (a, k), ()),
        old(b)@ == final(a)@,
        call_ensures(Poller::<F>::begin_round, (b,), r),
        old(c)@ == final(b)@,
        call_ensures(Poller::<F>::begin_round, (c,), s),
        !old(a)@.stop,
    ensures
        r == (Round::Go { backend: Some(k), poll: !old(a)@.paused }),
        s == (Round::Go { backend: None, poll: !old(a)@.paused }),
{
}

/// Pausing twice is as not pausing, and a poller that was stopped has no more
/// rounds.
pub proof fn law_pausing_and_stopping<F>(
    a: &mut Poller<F>,
    b: &mut Poller<F>,
    c: &mut Poller<F>,
    d: &mut Poller<F>,
    p: bool,
    q: bool,
    r: Round,
)
    requires
        call_ensures(Poller::<F>::toggle_pause, (a,), p),
        old(b)@ == final(a)@,
        call_ensures(Poller::<F>::toggle_pause, (b,), q),
        call_ensures(Poller::<F>::stop, (c,), ()),
        old(d)@ == final(c)@,
        call_ensures(Poller::<F>::begin_round, (d,), r),
    ensures
        p == !q,
        final(b)@ == old(a)@,
        r == Round::Stop,
{
}

/// The snapshot of a round is taken once. The epoch ticks just where the backend
/// is another one than before.
pub proof fn law_snapshots_are_taken_once<F>(
    a: &mut Poller<F>,
    b: &mut Poller<F>,
    c: &mut Poller<F>,
    snap: Snapshot<F>,
    kind: BackendKind,
    x: Option<Snapshot<F>>,
    y: Option<Snapshot<F>>,
)
    requires
        call_ensures(Poller::<F>::end_round, (a, snap, kind), ()),
        old(b)@ == final(a)@,
        call_ensures(Poller::<F>::take, (b,), x),
        old(c)@ == final(b)@,
        call_ensures(Poller::<F>::take, (c,), y),
    ensures
        x == Some(snap),
        y is None,
        final(a)@.kind == kind,
        final(a)@.kind_epoch != old(a)@.kind_epoch <==> kind != old(a)@.kind,
        final(a)@.interval == old(a)@.interval && final(a)@.paused == old(a)@.paused,
        final(a)@.pending_backend == old(a)@.pending_backend,
{
}

/// A snapshot of another backend starts the history over: there is nothing to
/// hold it against, so that all but the gauges are zero, and it is the only
/// value of each series. One of the same backend is held against the last.
pub proof fn law_another_backend_starts_over<T: Arithmetic>(
    t: T,
    v: spec_fn(T::F) -> real,
    h: &mut History<T::F>,
    last: &mut usize,
    epoch: usize,
    snap: Snapshot<T::F>,
    name: Seq<char>,
    i: int,
)
    requires
        exact::is_exact(t, v),
        v(old(h).nothing()) == 0real,
        old(h).limit() > 0,
        call_ensures(absorb::<T>, (&t, h, last, epoch, snap), ()),
        state::names_series(name, i),
        i < SERIES_COUNT,
    ensures
        *final(last) == epoch,
        series::gauged(v, name, snap.backend, v(final(h).latest()[i])),
        epoch != *old(last) ==> final(h).series_at(i) == seq![final(h).latest()[i]],
        epoch != *old(last) && !series::is_gauge(name) ==> v(final(h).latest()[i]) == 0real,
        epoch == *old(last) ==> (old(h).baseline() matches Some(p) ==> (p.backend.reachable
            && snap.backend.reachable ==> series::shown(
            v,
            name,
            p.backend,
            snap.backend,
            v(snap.monotonic) - v(p.monotonic),
            v(final(h).latest()[i]),
        ))),
{
    let prev = if epoch == *old(last) {
        old(h).baseline()
    } else {
        None
    };
    series::law_series_show_their_metric(
        t,
        v,
        old(h).nothing(),
        prev,
        snap,
        final(h).latest(),
        name,
        i,
    );
    if epoch != *old(last) {
        let x = final(h).latest()[i];
        assert(final(h).series_at(i) == state::last_of(
            Seq::<T::F>::empty().push(x),
            old(h).limit(),
        ));
        assert(Seq::<T::F>::empty().push(x) =~= seq![x]);
    }
}

} // verus!
