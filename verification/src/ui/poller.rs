//! What the background poller and the render loop share.
//!
//! The poller takes snapshots at the configured interval and keeps the latest
//! one; the render loop takes it and derives rates from the history.

use vstd::prelude::*;

use crate::collectors::BackendKind;
use crate::state;
use crate::state::{fraction, product, quotient, Arithmetic, History, Snapshot, SERIES_COUNT};

verus! {

/// What one round of the poller does.
#[derive(Clone, Copy, Debug, PartialEq, Eq, Structural)]
pub enum Round {
    /// End the loop.
    Stop,
    /// Go on, with a collector for another backend where one is asked for, and
    /// poll unless paused.
    Go { backend: Option<BackendKind>, poll: bool },
}

/// The state of the poller.
pub struct Poller<F> {
    latest: Option<Snapshot<F>>,
    stop: bool,
    paused: bool,
    interval: F,
    pending_backend: Option<BackendKind>,
    kind: BackendKind,
    kind_epoch: usize,
}

/// A counter one further; it wraps around.
pub open spec fn ticked(n: usize) -> usize {
    if n == usize::MAX {
        0
    } else {
        (n + 1) as usize
    }
}

/// All that the poller knows.
#[verifier::ext_equal]
pub struct PollerView<F> {
    pub latest: Option<Snapshot<F>>,
    pub stop: bool,
    pub paused: bool,
    pub interval: F,
    pub pending_backend: Option<BackendKind>,
    pub kind: BackendKind,
    pub kind_epoch: usize,
}

impl<F> View for Poller<F> {
    type V = PollerView<F>;

    closed spec fn view(&self) -> PollerView<F> {
        PollerView {
            latest: self.latest,
            stop: self.stop,
            paused: self.paused,
            interval: self.interval,
            pending_backend: self.pending_backend,
            kind: self.kind,
            kind_epoch: self.kind_epoch,
        }
    }
}

impl<F> Poller<F> {
    /// A poller of a backend of the given kind, with nothing polled yet.
    pub fn new(kind: BackendKind, interval: F) -> (r: Poller<F>)
        ensures
            r@ == (PollerView {
                latest: None,
                stop: false,
                paused: false,
                interval,
                pending_backend: None,
                kind,
                kind_epoch: 0,
            }),
    {
        Poller {
            latest: None,
            stop: false,
            paused: false,
            interval,
            pending_backend: None,
            kind,
            kind_epoch: 0,
        }
    }

    /// What the next round does. A backend that was asked for is handed out
    /// once, at the start of a round, never in the middle of a fetch.
    pub fn begin_round(&mut self) -> (r: Round)
        ensures
            r == if old(self)@.stop {
                Round::Stop
            } else {
                Round::Go { backend: old(self)@.pending_backend, poll: !old(self)@.paused }
            },
            final(self)@ == if old(self)@.stop {
                old(self)@
            } else {
                PollerView { pending_backend: None, ..old(self)@ }
            },
    {
        if self.stop {
            return Round::Stop;
        }
        let backend = self.pending_backend;
        self.pending_backend = None;
        Round::Go { backend, poll: !self.paused }
    }

    /// Keeps the snapshot of a round; the epoch ticks where the backend is
    /// another one than before.
    pub fn end_round(&mut self, snap: Snapshot<F>, effective: BackendKind)
        ensures
            final(self)@ == (PollerView {
                latest: Some(snap),
                kind: effective,
                kind_epoch: if effective == old(self)@.kind {
                    old(self)@.kind_epoch
                } else {
                    ticked(old(self)@.kind_epoch)
                },
                ..old(self)@
            }),
    {
        self.latest = Some(snap);
        if effective != self.kind {
            self.kind = effective;
            self.kind_epoch = if self.kind_epoch == usize::MAX {
                0
            } else {
                self.kind_epoch + 1
            };
        }
    }

    /// Pop the latest snapshot if a new one is available.
    pub fn take(&mut self) -> (r: Option<Snapshot<F>>)
        ensures
            r == old(self)@.latest,
            final(self)@ == (PollerView { latest: None, ..old(self)@ }),
    {
        self.latest.take()
    }

    /// Ask the poller to end.
    pub fn stop(&mut self)
        ensures
            final(self)@ == (PollerView { stop: true, ..old(self)@ }),
    {
        self.stop = true;
    }

    pub fn stopping(&self) -> (r: bool)
        ensures
            r == self@.stop,
    {
        self.stop
    }

    /// Pause or resume; whether it is paused now.
    pub fn toggle_pause(&mut self) -> (r: bool)
        ensures
            r == !old(self)@.paused,
            final(self)@ == (PollerView { paused: !old(self)@.paused, ..old(self)@ }),
    {
        self.paused = !self.paused;
        self.paused
    }

    pub fn paused(&self) -> (r: bool)
        ensures
            r == self@.paused,
    {
        self.paused
    }

    pub fn set_interval(&mut self, v: F)
        ensures
            final(self)@ == (PollerView { interval: v, ..old(self)@ }),
    {
        self.interval = v;
    }

    /// Request a backend swap to `kind`. The poller applies it at the start of
    /// the next round.
    pub fn request_backend(&mut self, kind: BackendKind)
        ensures
            final(self)@ == (PollerView { pending_backend: Some(kind), ..old(self)@ }),
    {
        self.pending_backend = Some(kind);
    }

    /// Counter that ticks every time the effective backend kind changes. The
    /// render loop compares this to decide when to clear the history.
    pub fn kind_epoch(&self) -> (r: usize)
        ensures
            r == self@.kind_epoch,
    {
        self.kind_epoch
    }
}

impl<F: Copy> Poller<F> {
    pub fn interval(&self) -> (r: F)
        ensures
            r == self@.interval,
    {
        self.interval
    }
}

/// `r` is half the interval, but not below a fifth of a second; never more
/// than the interval itself.
pub open spec fn is_faster<T: Arithmetic>(t: T, interval: T::F, r: T::F) -> bool {
    exists|half: T::F, least: T::F, step: T::F| #[trigger]
        state::is_quotient(t, interval, 2, half) && #[trigger] state::is_fraction(t, 2, 10, least)
            && #[trigger] call_ensures(T::larger, (&t, least, half), step) && call_ensures(
            T::smaller,
            (&t, interval, step),
            r,
        )
}

/// The interval that polls twice as often, but not below a fifth of a second;
/// one that is below already stays.
pub fn faster<T: Arithmetic>(t: &T, interval: T::F) -> (r: T::F)
    ensures
        is_faster(*t, interval, r),
{
    let half = quotient(t, interval, 2);
    let least = fraction(t, 2, 10);
    let step = t.larger(least, half);
    assert(call_ensures(T::larger, (t, least, half), step));
    t.smaller(interval, step)
}

/// `r` is twice the interval, but not over ten seconds; never less than the
/// interval itself.
pub open spec fn is_slower<T: Arithmetic>(t: T, interval: T::F, r: T::F) -> bool {
    exists|double: T::F, most: T::F, step: T::F| #[trigger]
        state::is_product(t, interval, 2, double) && #[trigger] call_ensures(
            T::whole,
            (&t, 10i64),
            most,
        ) && #[trigger] call_ensures(T::smaller, (&t, most, double), step) && call_ensures(
            T::larger,
            (&t, interval, step),
            r,
        )
}

/// The interval that polls half as often, but not over ten seconds; one that
/// is over already stays.
pub fn slower<T: Arithmetic>(t: &T, interval: T::F) -> (r: T::F)
    ensures
        is_slower(*t, interval, r),
{
    let double = product(t, interval, 2);
    let most = t.whole(10);
    let step = t.smaller(most, double);
    assert(call_ensures(T::whole, (t, 10i64), most));
    assert(call_ensures(T::smaller, (t, most, double), step));
    t.larger(interval, step)
}

/// Polling faster never makes the interval longer, and polling slower never
/// makes it shorter, where the smaller and the larger of two values are that.
pub proof fn law_steps_keep_direction<T: Arithmetic>(
    t: T,
    ok: spec_fn(T::F) -> bool,
    v: spec_fn(T::F) -> real,
    interval: T::F,
    less: T::F,
    more: T::F,
)
    requires
        ok(interval),
        forall|a: T::F, b: T::F, r: T::F|
            ok(a) && #[trigger] call_ensures(T::smaller, (&t, a, b), r) ==> v(r) <= v(a),
        forall|a: T::F, b: T::F, r: T::F|
            ok(a) && #[trigger] call_ensures(T::larger, (&t, a, b), r) ==> v(r) >= v(a),
        is_faster(t, interval, less),
        is_slower(t, interval, more),
    ensures
        v(less) <= v(interval) <= v(more),
{
}

/// `r` is how long to sleep before looking again whether to stop: a tenth of a
/// second, or what is left of the interval where that is less. None once the
/// interval is over.
pub open spec fn is_nap<T: Arithmetic>(t: T, interval: T::F, slept: T::F, r: Option<T::F>) -> bool {
    exists|more: bool| #[trigger]
        call_ensures(T::under, (&t, slept, interval), more) && match r {
            None => !more,
            Some(nap) => more && exists|tenth: T::F, left: T::F| #[trigger]
                state::is_fraction(t, 1, 10, tenth) && #[trigger] call_ensures(
                    T::minus,
                    (&t, interval, slept),
                    left,
                ) && call_ensures(T::smaller, (&t, tenth, left), nap),
        }
}

/// How long to sleep before looking again whether to stop.
pub fn nap<T: Arithmetic>(t: &T, interval: T::F, slept: T::F) -> (r: Option<T::F>)
    ensures
        is_nap(*t, interval, slept, r),
{
    let more = t.under(slept, interval);
    assert(call_ensures(T::under, (t, slept, interval), more));
    if !more {
        return None;
    }
    let tenth = fraction(t, 1, 10);
    let left = t.minus(interval, slept);
    assert(call_ensures(T::minus, (t, interval, slept), left));
    Some(t.smaller(tenth, left))
}

/// Takes a snapshot into the history. Where the backend has changed since the
/// last one, the history starts over.
pub fn absorb<T: Arithmetic>(
    t: &T,
    history: &mut History<T::F>,
    last_epoch: &mut usize,
    epoch: usize,
    snap: Snapshot<T::F>,
)
    requires
        old(history).wf(),
    ensures
        final(history).wf(),
        final(history).limit() == old(history).limit(),
        final(history).nothing() == old(history).nothing(),
        *final(last_epoch) == epoch,
        state::derived_from(
            *t,
            old(history).nothing(),
            if epoch == *old(last_epoch) {
                old(history).baseline()
            } else {
                None
            },
            snap,
            final(history).latest(),
        ),
        forall|i: int|
            0 <= i < SERIES_COUNT ==> #[trigger] final(history).series_at(i) == state::last_of(
                (if epoch == *old(last_epoch) {
                    old(history).series_at(i)
                } else {
                    Seq::empty()
                }).push(final(history).latest()[i]),
                old(history).limit(),
            ),
        state::windows_moved(
            *t,
            old(history).nothing(),
            if epoch == *old(last_epoch) {
                old(history).seeded_at()
            } else {
                None
            },
            snap.monotonic,
            final(history).latest(),
            old(history).averages(),
            final(history).averages(),
        ),
        final(history).baseline() == Some(snap),
        final(history).seeded_at() == Some(snap.monotonic),
{
    let ghost before = *history;
    if epoch != *last_epoch {
        history.clear();
        *last_epoch = epoch;
    }
    let ghost base = *history;
    history.update(t, snap);
    proof {
        assert forall|i: int| 0 <= i < SERIES_COUNT implies #[trigger] history.series_at(i)
            == state::last_of(
            (if epoch == *old(last_epoch) {
                before.series_at(i)
            } else {
                Seq::empty()
            }).push(history.latest()[i]),
            before.limit(),
        ) by {
            assert(history.series_at(i) == state::last_of(
                base.series_at(i).push(history.latest()[i]),
                base.limit(),
            ));
        }
    }
}

} // verus!
