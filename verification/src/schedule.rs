//! A schedule hands out the actions of a run one at a time, in the order of
//! the run's trace. Whoever holds the particles performs each action and asks
//! for the next; the schedule itself never touches a particle.

use crate::quantity::Quantity;
use crate::trace::{
    draw_trace, draws_from, draws_of, force_row, force_rows, interactions, is_sound,
    lemma_draws_from_len, lemma_steps_trace_sound, run_trace, slot_of, steps_trace, update_phase,
    Action,
};
use vstd::prelude::*;

verus! {

/// Where a run stands.
#[derive(Clone, Copy, Debug, PartialEq, Eq, Structural)]
pub enum Phase {
    /// The initial state is still being drawn.
    Initializing,
    /// The state is drawn; the clock or a step is next.
    Stepping,
    /// Nothing is left to do.
    Done,
}

/// The position of a run within its trace.
pub struct Schedule {
    n: usize,
    steps: usize,
    /// Whole steps still to come after the work that is pending.
    steps_left: usize,
    /// The action handed out next; `None` once the run is over.
    pending: Option<Action>,
}

/// The steps still to come, and the stop of the clock.
spec fn tail(n: usize, steps_left: usize) -> Seq<Action> {
    steps_trace(n, steps_left as nat) + seq![Action::StopClock]
}

/// What is left once the force on `target` is complete.
spec fn rest_after_row(n: usize, steps_left: usize, target: usize) -> Seq<Action> {
    force_rows((target + 1) as usize, n) + (update_phase(n) + tail(n, steps_left))
}

/// What is still to be handed out when `pending` is next and `steps_left`
/// whole steps follow the work it belongs to.
spec fn rest_of(n: usize, steps_left: usize, pending: Option<Action>) -> Seq<Action> {
    match pending {
        None => Seq::empty(),
        Some(Action::Draw { quantity, index }) => {
            draws_from(quantity, n).skip(index as int)
                + (seq![Action::StartClock] + tail(n, steps_left))
        },
        Some(Action::StartClock) => seq![Action::StartClock] + tail(n, steps_left),
        Some(Action::ClearForce { target }) => {
            force_rows(target, n) + (update_phase(n) + tail(n, steps_left))
        },
        Some(Action::AddForce { target, source }) => {
            interactions(target, n).skip(slot_of(target, source))
                + rest_after_row(n, steps_left, target)
        },
        Some(Action::Integrate { target }) => {
            update_phase(n).skip(target as int) + tail(n, steps_left)
        },
        Some(Action::StopClock) => seq![Action::StopClock],
    }
}

/// `rest` is the end of the trace of a run of `steps` steps on `n` particles.
spec fn is_suffix(n: usize, steps: usize, rest: Seq<Action>) -> bool {
    &&& rest.len() <= run_trace(n, steps).len()
    &&& run_trace(n, steps).skip(run_trace(n, steps).len() - rest.len()) == rest
}

impl Schedule {
    #[verifier::type_invariant]
    spec fn inv(self) -> bool {
        &&& self.pending matches Some(action) ==> is_sound(action, self.n)
        &&& is_suffix(self.n, self.steps, self.rest())
        &&& if self.pending matches Some(Action::Draw { .. }) {
            self.steps_left == self.steps
        } else {
            self.rest().len() <= 2 + steps_trace(self.n, self.steps as nat).len()
        }
    }

    /// What is still to be handed out.
    spec fn rest(self) -> Seq<Action> {
        rest_of(self.n, self.steps_left, self.pending)
    }

    /// The number of particles of the run.
    pub closed spec fn particles(self) -> usize {
        self.n
    }

    /// The number of steps of the run.
    pub closed spec fn steps(self) -> usize {
        self.steps
    }

    /// The whole run, from the first draw to the stop of the clock.
    pub open spec fn trace(self) -> Seq<Action> {
        run_trace(self.particles(), self.steps())
    }

    /// How many actions of the trace have been handed out.
    pub closed spec fn emitted(self) -> nat {
        (self.trace().len() - self.rest().len()) as nat
    }

    /// Where the run stands: initializing while a draw is next, done once the
    /// whole trace has been handed out, stepping in between.
    pub open spec fn spec_phase(self) -> Phase {
        if self.emitted() < draw_trace(self.particles()).len() {
            Phase::Initializing
        } else if self.emitted() < self.trace().len() {
            Phase::Stepping
        } else {
            Phase::Done
        }
    }

    /// A schedule for `steps` steps on `n` particles, with nothing handed out.
    pub fn new(n: usize, steps: usize) -> (s: Schedule)
        ensures
            s.particles() == n,
            s.steps() == steps,
            s.emitted() == 0,
    {
        let pending = if n > 0 {
            Action::Draw { quantity: Quantity::PositionX, index: 0 }
        } else {
            Action::StartClock
        };
        proof {
            let rest = rest_of(n, steps, Some(pending));
            lemma_draws_from_len(Quantity::PositionX, n);
            assert(draw_trace(n).skip(0) =~= draw_trace(n));
            assert(rest =~= run_trace(n, steps));
            assert(rest.skip(0) =~= rest);
        }
        Schedule { n, steps, steps_left: steps, pending: Some(pending) }
    }

    /// The number of particles of the run.
    pub fn particle_count(&self) -> (n: usize)
        ensures
            n == self.particles(),
    {
        self.n
    }

    /// The number of steps of the run.
    pub fn step_count(&self) -> (steps: usize)
        ensures
            steps == self.steps(),
    {
        self.steps
    }

    /// Where the run stands.
    pub fn phase(&self) -> (p: Phase)
        ensures
            p == self.spec_phase(),
            self.emitted() <= self.trace().len(),
    {
        proof {
            use_type_invariant(self);
            let steps_len = steps_trace(self.n, self.steps as nat).len();
            assert(self.trace().len() == draw_trace(self.n).len() + 2 + steps_len);
        }
        match self.pending {
            None => Phase::Done,
            Some(Action::Draw { quantity, index }) => {
                proof {
                    lemma_draws_from_len(quantity, self.n);
                }
                Phase::Initializing
            },
            Some(_) => Phase::Stepping,
        }
    }

    /// Hands out the next action of the run and moves past it; `None` once
    /// every action has been handed out, and from then on.
    pub fn next_action(&mut self) -> (action: Option<Action>)
        ensures
            final(self).particles() == old(self).particles(),
            final(self).steps() == old(self).steps(),
            old(self).emitted() <= old(self).trace().len(),
            match action {
                Some(a) => {
                    &&& old(self).emitted() < old(self).trace().len()
                    &&& a == old(self).trace()[old(self).emitted() as int]
                    &&& is_sound(a, old(self).particles())
                    &&& final(self).emitted() == old(self).emitted() + 1
                },
                None => {
                    &&& old(self).emitted() == old(self).trace().len()
                    &&& final(self).emitted() == old(self).emitted()
                },
            },
    {
        proof {
            use_type_invariant(&*self);
        }
        match self.pending {
            None => None,
            Some(action) => {
                let ghost before = self.rest();
                let (steps_left, pending) = following(self.n, self.steps_left, action);
                proof {
                    let trace = self.trace();
                    let at = trace.len() - before.len();
                    assert(trace.skip(at).skip(1) =~= trace.skip(at + 1));
                    assert(trace.skip(at)[0] == trace[at]);
                }
                *self = Schedule { n: self.n, steps: self.steps, steps_left, pending };
                Some(action)
            },
        }
    }
}

/// The action after `action`, and the whole steps that follow the work it
/// belongs to.
fn following(n: usize, steps_left: usize, action: Action) -> (next: (usize, Option<Action>))
    requires
        is_sound(action, n),
    ensures
        next.1 matches Some(a) ==> is_sound(a, n),
        ({
            let before = rest_of(n, steps_left, Some(action));
            let after = rest_of(n, next.0, next.1);
            &&& before.len() > 0
            &&& before[0] == action
            &&& after == before.skip(1)
            &&& next.1 matches Some(Action::Draw { .. }) ==> action is Draw && next.0 == steps_left
            &&& action is Draw && !(next.1 matches Some(Action::Draw { .. })) ==> after.len() == 2
                + steps_trace(n, steps_left as nat).len()
        }),
{
    let ghost before = rest_of(n, steps_left, Some(action));
    match action {
        Action::Draw { quantity, index } => (steps_left, after_draw(n, steps_left, quantity, index)),
        Action::StartClock => {
            let next = begin_step(n, steps_left);
            assert(rest_of(n, next.0, next.1) =~= before.skip(1));
            next
        },
        Action::ClearForce { target } => (steps_left, after_clear(n, steps_left, target)),
        Action::AddForce { target, source } => {
            (steps_left, after_add(n, steps_left, target, source))
        },
        Action::Integrate { target } => after_integrate(n, steps_left, target),
        Action::StopClock => {
            assert(rest_of(n, 0, None) =~= before.skip(1));
            (0, None)
        },
    }
}

/// The action after the draw of `quantity` for particle `index`.
fn after_draw(n: usize, steps_left: usize, quantity: Quantity, index: usize) -> (next: Option<
    Action,
>)
    requires
        index < n,
    ensures
        next matches Some(a) && is_sound(a, n) && (a is Draw || a is StartClock),
        ({
            let before = rest_of(n, steps_left, Some(Action::Draw { quantity, index }));
            &&& before.len() > 0
            &&& before[0] == (Action::Draw { quantity, index })
            &&& rest_of(n, steps_left, next) == before.skip(1)
        }),
{
    let ghost before = rest_of(n, steps_left, Some(Action::Draw { quantity, index }));
    let ghost after = seq![Action::StartClock] + tail(n, steps_left);
    proof {
        lemma_draws_from_len(quantity, n);
        assert(draws_from(quantity, n)[index as int] == draws_of(quantity, n)[index as int]);
        assert(before.skip(1) =~= draws_from(quantity, n).skip(index + 1) + after);
    }
    if index + 1 < n {
        Some(Action::Draw { quantity, index: index + 1 })
    } else {
        match quantity.successor() {
            Some(later) => {
                proof {
                    lemma_draws_from_len(later, n);
                    let rest = draws_from(later, n);
                    assert(draws_from(quantity, n).skip(index + 1) =~= rest.skip(0));
                }
                Some(Action::Draw { quantity: later, index: 0 })
            },
            None => {
                assert(draws_from(quantity, n).skip(index + 1) + after =~= after);
                Some(Action::StartClock)
            },
        }
    }
}

/// The action after the force on `target` was cleared.
fn after_clear(n: usize, steps_left: usize, target: usize) -> (next: Option<Action>)
    requires
        target < n,
    ensures
        next matches Some(a) && is_sound(a, n) && !(a is Draw),
        ({
            let before = rest_of(n, steps_left, Some(Action::ClearForce { target }));
            &&& before.len() > 0
            &&& before[0] == (Action::ClearForce { target })
            &&& rest_of(n, steps_left, next) == before.skip(1)
        }),
{
    let ghost before = rest_of(n, steps_left, Some(Action::ClearForce { target }));
    let ghost after = rest_after_row(n, steps_left, target);
    proof {
        let below = force_rows((target + 1) as usize, n);
        assert(force_rows(target, n) == force_row(target, n) + below);
        assert(before.skip(1) =~= interactions(target, n) + after);
    }
    if n > 1 {
        let source: usize = if target == 0 {
            1
        } else {
            0
        };
        assert(interactions(target, n).skip(0) =~= interactions(target, n));
        Some(Action::AddForce { target, source })
    } else {
        assert(interactions(target, n) + after =~= after);
        end_row(n, steps_left, target)
    }
}

/// The action after the pull of `source` was added to the force on `target`.
fn after_add(n: usize, steps_left: usize, target: usize, source: usize) -> (next: Option<Action>)
    requires
        target < n,
        source < n,
        source != target,
    ensures
        next matches Some(a) && is_sound(a, n) && !(a is Draw),
        ({
            let before = rest_of(n, steps_left, Some(Action::AddForce { target, source }));
            &&& before.len() > 0
            &&& before[0] == (Action::AddForce { target, source })
            &&& rest_of(n, steps_left, next) == before.skip(1)
        }),
{
    let ghost before = rest_of(n, steps_left, Some(Action::AddForce { target, source }));
    let ghost after = rest_after_row(n, steps_left, target);
    let ghost slot = slot_of(target, source);
    proof {
        assert(interactions(target, n)[slot] == (Action::AddForce { target, source }));
        assert(before.skip(1) =~= interactions(target, n).skip(slot + 1) + after);
    }
    let mut later: usize = source + 1;
    if later == target {
        later = later + 1;
    }
    if later < n {
        assert(slot_of(target, later) == slot + 1);
        Some(Action::AddForce { target, source: later })
    } else {
        assert(interactions(target, n).skip(slot + 1) + after =~= after);
        end_row(n, steps_left, target)
    }
}

/// The action after particle `target` was advanced, and the whole steps that
/// follow the work it belongs to.
fn after_integrate(n: usize, steps_left: usize, target: usize) -> (next: (usize, Option<Action>))
    requires
        target < n,
    ensures
        next.1 matches Some(a) && is_sound(a, n) && !(a is Draw),
        ({
            let before = rest_of(n, steps_left, Some(Action::Integrate { target }));
            &&& before.len() > 0
            &&& before[0] == (Action::Integrate { target })
            &&& rest_of(n, next.0, next.1) == before.skip(1)
        }),
{
    let ghost before = rest_of(n, steps_left, Some(Action::Integrate { target }));
    proof {
        assert(update_phase(n)[target as int] == (Action::Integrate { target }));
        assert(before.skip(1) =~= update_phase(n).skip(target + 1) + tail(n, steps_left));
    }
    if target + 1 < n {
        (steps_left, Some(Action::Integrate { target: target + 1 }))
    } else {
        assert(update_phase(n).skip(target + 1) + tail(n, steps_left) =~= tail(n, steps_left));
        begin_step(n, steps_left)
    }
}

/// What follows the last addition to the force on `target`: the next row of
/// the force phase, or the update phase after the last row.
fn end_row(n: usize, steps_left: usize, target: usize) -> (next: Option<Action>)
    requires
        target < n,
    ensures
        next matches Some(a) && is_sound(a, n) && !(a is Draw),
        rest_of(n, steps_left, next) == rest_after_row(n, steps_left, target),
{
    if target + 1 < n {
        Some(Action::ClearForce { target: target + 1 })
    } else {
        let next = Some(Action::Integrate { target: 0 });
        assert(rest_of(n, steps_left, next) =~= rest_after_row(n, steps_left, target));
        Some(Action::Integrate { target: 0 })
    }
}

/// What opens the steps that are left: the first row of the next step, or
/// the stop of the clock where no step is left or a step holds no work.
fn begin_step(n: usize, steps_left: usize) -> (next: (usize, Option<Action>))
    ensures
        next.1 matches Some(a) && is_sound(a, n) && !(a is Draw),
        rest_of(n, next.0, next.1) == tail(n, steps_left),
{
    if steps_left > 0 && n > 0 {
        proof {
            assert(force_rows(0, n) + (update_phase(n) + tail(n, (steps_left - 1) as usize))
                =~= tail(n, steps_left));
        }
        (steps_left - 1, Some(Action::ClearForce { target: 0 }))
    } else {
        proof {
            lemma_steps_trace_sound(n, steps_left as nat);
            assert(seq![Action::StopClock] =~= tail(n, steps_left));
        }
        (0, Some(Action::StopClock))
    }
}

} // verus!
