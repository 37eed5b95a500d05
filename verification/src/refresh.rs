use vstd::prelude::*;

verus! {

/// How many redraw submissions follow a change before the controller
/// goes idle. A tunable constant, not a correctness requirement.
pub const RENDER_BUDGET: u8 = 3;

/// The render-refresh state: a pending-reload flag plus a countdown of
/// redraws still owed. Idle means the counter reached zero with no
/// reload pending; every navigation, mirror or fullscreen change makes
/// the state active again.
#[derive(Clone, Copy, Debug, PartialEq, Eq, Structural)]
pub struct RefreshState {
    pub counter: u8,
    pub needs_reload: bool,
}

/// What one frame tick asks of the host: reload (and re-upload) the
/// current image first, then submit one draw.
#[derive(Clone, Copy, Debug, PartialEq, Eq, Structural)]
pub struct TickOutcome {
    pub reload: bool,
    pub draw: bool,
}

/// Whether a tick in state `s` must reload the current image.
pub open spec fn tick_reloads(s: RefreshState) -> bool {
    s.needs_reload
}

/// Whether a tick in state `s` submits a draw. A completed reload
/// refills the budget, so a reloading tick always draws too.
pub open spec fn tick_draws(s: RefreshState) -> bool {
    s.needs_reload || s.counter > 0
}

/// The state after one frame tick: a pending reload refills the budget,
/// and each drawing tick consumes one unit of it.
pub open spec fn tick_next(s: RefreshState) -> RefreshState {
    if s.needs_reload {
        RefreshState { counter: (RENDER_BUDGET - 1) as u8, needs_reload: false }
    } else if s.counter > 0 {
        RefreshState { counter: (s.counter - 1) as u8, needs_reload: false }
    } else {
        s
    }
}

impl RefreshState {
    /// Idle: nothing pending, nothing owed; ticks do no work.
    pub open spec fn is_idle(&self) -> bool {
        self.counter == 0 && !self.needs_reload
    }

    /// The initial state is active with a reload pending, which forces
    /// the first image load and draw.
    pub fn new() -> (s: Self)
        ensures
            s.needs_reload,
            s.counter == 0,
    {
        RefreshState { counter: 0, needs_reload: true }
    }

    /// Record a navigation, mirror or fullscreen change: the next tick
    /// must reload.
    pub fn mark_dirty(&mut self)
        ensures
            *final(self) == (RefreshState { counter: old(self).counter, needs_reload: true }),
    {
        self.needs_reload = true;
    }

    /// Record that display geometry was recomputed outside a reload
    /// (a window resize): the full redraw budget is owed again.
    pub fn reset_budget(&mut self)
        ensures
            *final(self) == (RefreshState {
                counter: RENDER_BUDGET,
                needs_reload: old(self).needs_reload,
            }),
    {
        self.counter = RENDER_BUDGET;
    }

    /// One frame tick: says what the host must do this frame and
    /// advances the state accordingly.
    pub fn tick(&mut self) -> (o: TickOutcome)
        ensures
            *final(self) == tick_next(*old(self)),
            o.reload == tick_reloads(*old(self)),
            o.draw == tick_draws(*old(self)),
    {
        let reload = self.needs_reload;
        if self.needs_reload {
            self.needs_reload = false;
            self.counter = RENDER_BUDGET;
        }
        let draw = self.counter > 0;
        if self.counter > 0 {
            self.counter = self.counter - 1;
        }
        TickOutcome { reload, draw }
    }
}

/// From any state with a reload pending — the initial state, or the
/// state right after a navigation, mirror or fullscreen change — the
/// next `RENDER_BUDGET` ticks each submit a draw (the first of them
/// reloading first), the tick after that finds the controller idle, and
/// an idle controller stays idle and never draws until marked dirty
/// again.
pub proof fn lemma_reload_budget(s: RefreshState)
    requires
        s.needs_reload,
    ensures
        tick_reloads(s) && tick_draws(s),
        tick_draws(tick_next(s)),
        tick_draws(tick_next(tick_next(s))),
        tick_next(tick_next(tick_next(s))).is_idle(),
        forall|t: RefreshState|
            t.is_idle() ==> !tick_draws(t) && !tick_reloads(t) && #[trigger] tick_next(t) == t,
{
}

} // verus!
