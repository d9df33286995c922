//! The order of work in a run, as a sequence of elementary actions.
//!
//! A run first draws the initial state, quantity by quantity and within each
//! quantity particle by particle. It then starts the clock, performs the steps
//! one after another, and stops the clock. A step has two phases: the force
//! phase computes, for every particle in turn, the net force on it from every
//! other particle; the update phase then advances every particle. No particle
//! moves before the force on every particle is known.

use crate::quantity::Quantity;
use vstd::prelude::*;

verus! {

/// One elementary piece of work of a run.
#[derive(Clone, Copy, Debug, PartialEq, Eq, Structural)]
pub enum Action {
    /// Draw the initial value of `quantity` for particle `index` from the
    /// pseudo-random stream, uniformly in the quantity's interval.
    Draw { quantity: Quantity, index: usize },
    /// Read the clock: the steps begin.
    StartClock,
    /// Set the force on particle `target` to the zero vector.
    ClearForce { target: usize },
    /// Add to the force on `target` the pull of `source`, computed from the
    /// positions as they were when the step began and from the mass of
    /// `source` alone.
    AddForce { target: usize, source: usize },
    /// Advance particle `target` by one time increment: its velocity by the
    /// force on it, then its position by the new velocity.
    Integrate { target: usize },
    /// Read the clock again: the steps are over.
    StopClock,
}

/// The draws of one quantity for `n` particles, by rising index.
pub open spec fn draws_of(quantity: Quantity, n: usize) -> Seq<Action> {
    Seq::new(n as nat, |i: int| Action::Draw { quantity, index: i as usize })
}

/// The draws of `quantity` and of every quantity after it.
pub open spec fn draws_from(quantity: Quantity, n: usize) -> Seq<Action>
    decreases 7 - quantity.spec_ordinal(),
{
    match quantity.spec_successor() {
        Some(next) => draws_of(quantity, n) + draws_from(next, n),
        None => draws_of(quantity, n),
    }
}

/// All draws of the initial state of `n` particles.
pub open spec fn draw_trace(n: usize) -> Seq<Action> {
    draws_from(Quantity::PositionX, n)
}

/// The particle whose pull is the `k`-th to be added to the force on
/// `target`: the others by rising index, `target` itself left out.
pub open spec fn source_at(target: usize, k: int) -> usize {
    if k < target {
        k as usize
    } else {
        (k + 1) as usize
    }
}

/// The place of `source` among the particles that pull on `target`.
pub open spec fn slot_of(target: usize, source: usize) -> int {
    if source < target {
        source as int
    } else {
        source - 1
    }
}

/// The additions to the force on `target`, one for every other particle.
pub open spec fn interactions(target: usize, n: usize) -> Seq<Action> {
    Seq::new(
        if n > 0 {
            (n - 1) as nat
        } else {
            0
        },
        |k: int| Action::AddForce { target, source: source_at(target, k) },
    )
}

/// The work that yields the force on `target`.
pub open spec fn force_row(target: usize, n: usize) -> Seq<Action> {
    seq![Action::ClearForce { target }] + interactions(target, n)
}

/// The work that yields the forces on the particles from `first` on.
pub open spec fn force_rows(first: usize, n: usize) -> Seq<Action>
    decreases n - first,
{
    if first >= n {
        Seq::empty()
    } else {
        force_row(first, n) + force_rows((first + 1) as usize, n)
    }
}

/// The force phase of a step.
pub open spec fn force_phase(n: usize) -> Seq<Action> {
    force_rows(0, n)
}

/// The update phase of a step.
pub open spec fn update_phase(n: usize) -> Seq<Action> {
    Seq::new(n as nat, |i: int| Action::Integrate { target: i as usize })
}

/// One step: all forces, then all updates.
pub open spec fn step_trace(n: usize) -> Seq<Action> {
    force_phase(n) + update_phase(n)
}

/// `steps` steps, one after another.
pub open spec fn steps_trace(n: usize, steps: nat) -> Seq<Action>
    decreases steps,
{
    if steps == 0 {
        Seq::empty()
    } else {
        step_trace(n) + steps_trace(n, (steps - 1) as nat)
    }
}

/// Everything a run of `steps` steps on `n` particles does, in order.
pub open spec fn run_trace(n: usize, steps: usize) -> Seq<Action> {
    draw_trace(n) + seq![Action::StartClock] + steps_trace(n, steps as nat)
        + seq![Action::StopClock]
}

/// True when `action` is work on the particles themselves: clearing a force,
/// adding to one, or advancing a particle.
pub open spec fn is_particle_work(action: Action) -> bool {
    action is ClearForce || action is AddForce || action is Integrate
}

/// True when `action` names only particles below `n`, and no particle as
/// pulling on itself.
pub open spec fn is_sound(action: Action, n: usize) -> bool {
    match action {
        Action::Draw { quantity, index } => index < n,
        Action::StartClock => true,
        Action::ClearForce { target } => target < n,
        Action::AddForce { target, source } => target < n && source < n && source != target,
        Action::Integrate { target } => target < n,
        Action::StopClock => true,
    }
}

/// True when every action of `actions` is sound for `n` particles.
pub open spec fn all_sound(actions: Seq<Action>, n: usize) -> bool {
    forall|k: int| 0 <= k < actions.len() ==> is_sound(#[trigger] actions[k], n)
}

/// From `quantity` on there are as many draws as there are particles, for
/// each quantity that is left.
pub proof fn lemma_draws_from_len(quantity: Quantity, n: usize)
    ensures
        draws_from(quantity, n).len() == (7 - quantity.spec_ordinal()) * n,
        draws_from(quantity, n).len() >= n,
        n == 0 ==> draws_from(quantity, n).len() == 0,
    decreases 7 - quantity.spec_ordinal(),
{
    let here = quantity.spec_ordinal() as int;
    match quantity.spec_successor() {
        Some(next) => {
            lemma_draws_from_len(next, n);
            assert((7 - here) * n == n + (7 - (here + 1)) * n) by (nonlinear_arith);
        },
        None => {
            assert((7 - here) * n == n) by (nonlinear_arith)
                requires
                    here == 6,
            ;
        },
    }
}

/// Among the draws from `quantity` on, the draw of a quantity `later` for
/// particle `index` stands `index` places into the block of `later`.
pub proof fn lemma_draws_from_index(quantity: Quantity, n: usize, later: Quantity, index: usize)
    requires
        quantity.spec_ordinal() <= later.spec_ordinal(),
        index < n,
    ensures
        ({
            let place = (later.spec_ordinal() - quantity.spec_ordinal()) * n + index;
            &&& place < draws_from(quantity, n).len()
            &&& draws_from(quantity, n)[place] == (Action::Draw { quantity: later, index })
        }),
    decreases 7 - quantity.spec_ordinal(),
{
    let here = quantity.spec_ordinal() as int;
    let there = later.spec_ordinal() as int;
    lemma_draws_from_len(quantity, n);
    if quantity == later {
        assert((there - here) * n == 0) by (nonlinear_arith)
            requires
                there == here,
        ;
    } else {
        let next = quantity.spec_successor()->0;
        lemma_draws_from_index(next, n, later, index);
        assert((there - here) * n == n + (there - (here + 1)) * n) by (nonlinear_arith);
    }
}

/// The initial state takes seven draws for each particle.
pub proof fn lemma_draw_trace_len(n: usize)
    ensures
        draw_trace(n).len() == 7 * n,
{
    lemma_draws_from_len(Quantity::PositionX, n);
    assert(Quantity::PositionX.spec_ordinal() == 0);
}

/// Drawing order: the values of one quantity are drawn for all particles, by
/// rising index, before any value of the next quantity is drawn.
pub proof fn lemma_draw_order(n: usize, quantity: Quantity, index: usize)
    requires
        index < n,
    ensures
        quantity.spec_ordinal() * n + index < draw_trace(n).len(),
        draw_trace(n)[quantity.spec_ordinal() * n + index] == (Action::Draw { quantity, index }),
{
    lemma_draws_from_index(Quantity::PositionX, n, quantity, index);
}

/// The initial state is drawn and nothing else, and every draw names a
/// particle that exists.
pub proof fn lemma_draws_sound(quantity: Quantity, n: usize)
    ensures
        all_sound(draws_from(quantity, n), n),
        forall|k: int|
            0 <= k < draws_from(quantity, n).len() ==> (#[trigger] draws_from(quantity, n)[k])
                is Draw,
    decreases 7 - quantity.spec_ordinal(),
{
    match quantity.spec_successor() {
        Some(next) => {
            lemma_draws_sound(next, n);
        },
        None => {},
    }
}

/// True when every action of `actions` clears a force or adds to one.
pub open spec fn all_force_work(actions: Seq<Action>) -> bool {
    forall|k: int|
        0 <= k < actions.len() ==> (#[trigger] actions[k]) is ClearForce || actions[k] is AddForce
}

/// The rows of the force phase from `first` on: each row takes `n` actions,
/// and the action at `place` of the row of `target` stands `place` places
/// into that row's block.
pub proof fn lemma_force_rows(first: usize, n: usize, target: usize, place: int)
    requires
        first <= target < n,
        0 <= place < n,
    ensures
        force_rows(first, n).len() == (n - first) * n,
        (target - first) * n + place < force_rows(first, n).len(),
        force_rows(first, n)[(target - first) * n + place] == force_row(target, n)[place],
    decreases n - first,
{
    let rows_left = n - first;
    let rows_before = target - first;
    assert(rows_left * n == n + (rows_left - 1) * n) by (nonlinear_arith);
    assert(force_row(first, n).len() == n);
    if first == target {
        assert(rows_before * n == 0) by (nonlinear_arith)
            requires
                rows_before == 0,
        ;
        if first + 1 < n {
            lemma_force_rows((first + 1) as usize, n, (first + 1) as usize, place);
        } else {
            assert(force_rows((first + 1) as usize, n).len() == 0);
            assert((rows_left - 1) * n == 0) by (nonlinear_arith)
                requires
                    rows_left == 1,
            ;
        }
    } else {
        lemma_force_rows((first + 1) as usize, n, target, place);
        assert(rows_before * n == n + (rows_before - 1) * n) by (nonlinear_arith);
    }
}

/// The force phase takes `n * n` actions: for each particle one to clear its
/// force and one for every other particle.
pub proof fn lemma_force_phase_len(n: usize)
    ensures
        force_phase(n).len() == n * n,
{
    if n > 0 {
        lemma_force_rows(0, n, 0, 0);
    } else {
        assert(0 * 0 == 0) by (nonlinear_arith);
    }
}

/// The force on `target` is cleared at the head of its row.
pub proof fn lemma_clear_position(n: usize, target: usize)
    requires
        target < n,
    ensures
        target * n < force_phase(n).len(),
        force_phase(n)[target * n] == (Action::ClearForce { target }),
{
    lemma_force_rows(0, n, target, 0);
}

/// Every ordered pair of distinct particles has its own place in the force
/// phase: the pull of `source` on `target` is added in the row of `target`,
/// after the pulls of the sources below it.
pub proof fn lemma_pair_position(n: usize, target: usize, source: usize)
    requires
        target < n,
        source < n,
        source != target,
    ensures
        ({
            let place = target * n + 1 + slot_of(target, source);
            &&& place < force_phase(n).len()
            &&& force_phase(n)[place] == (Action::AddForce { target, source })
        }),
{
    let slot = slot_of(target, source);
    lemma_force_rows(0, n, target, 1 + slot);
    assert(interactions(target, n)[slot] == (Action::AddForce { target, source }));
}

/// The rows of the force phase clear forces and add to them, and do nothing
/// else; they name only particles that exist, and never a particle as
/// pulling on itself.
pub proof fn lemma_force_rows_work(first: usize, n: usize)
    ensures
        all_force_work(force_rows(first, n)),
        all_sound(force_rows(first, n), n),
    decreases n - first,
{
    if first < n {
        lemma_force_rows_work((first + 1) as usize, n);
        let row = force_row(first, n);
        assert forall|k: int| 0 <= k < row.len() implies {
            &&& is_sound(#[trigger] row[k], n)
            &&& (row[k] is ClearForce || row[k] is AddForce)
        } by {
            if k > 0 {
                assert(row[k] == interactions(first, n)[k - 1]);
            }
        }
    }
}

/// Two phases: within a step, once a particle has been advanced no force is
/// cleared or added to any more. Every force of the step is therefore
/// computed from the positions the step began with.
pub proof fn lemma_forces_before_updates(n: usize, earlier: int, later: int)
    requires
        0 <= earlier <= later < step_trace(n).len(),
        step_trace(n)[earlier] is Integrate,
    ensures
        step_trace(n)[later] is Integrate,
{
    lemma_force_rows_work(0, n);
}

/// A step takes `n * n + n` actions: the force phase, then one update for
/// each particle by rising index.
pub proof fn lemma_step_trace(n: usize)
    ensures
        step_trace(n).len() == n * n + n,
        all_sound(step_trace(n), n),
        step_trace(n).subrange(0, n * n) == force_phase(n),
        step_trace(n).subrange(n * n, n * n + n) == update_phase(n),
{
    lemma_force_phase_len(n);
    lemma_force_rows_work(0, n);
    assert(step_trace(n).subrange(0, n * n) =~= force_phase(n));
    assert(step_trace(n).subrange(n * n, n * n + n) =~= update_phase(n));
}

/// Steps all take the same number of actions.
pub proof fn lemma_steps_trace_len(n: usize, steps: nat)
    ensures
        steps_trace(n, steps).len() == steps * step_trace(n).len(),
    decreases steps,
{
    let len = step_trace(n).len();
    if steps == 0 {
        assert(steps * len == 0) by (nonlinear_arith)
            requires
                steps == 0,
        ;
    } else {
        lemma_steps_trace_len(n, (steps - 1) as nat);
        assert(steps * len == len + (steps - 1) * len) by (nonlinear_arith);
    }
}

/// The steps of a run repeat one step: the action at `place` of step `step`
/// is the action at `place` of a single step.
pub proof fn lemma_steps_trace_index(n: usize, steps: nat, step: nat, place: int)
    requires
        step < steps,
        0 <= place < step_trace(n).len(),
    ensures
        step * step_trace(n).len() + place < steps_trace(n, steps).len(),
        steps_trace(n, steps)[step * step_trace(n).len() + place] == step_trace(n)[place],
    decreases steps,
{
    let len = step_trace(n).len();
    lemma_steps_trace_len(n, steps);
    lemma_steps_trace_len(n, (steps - 1) as nat);
    assert(steps * len == len + (steps - 1) * len) by (nonlinear_arith);
    if step == 0 {
        assert(step * len == 0) by (nonlinear_arith)
            requires
                step == 0,
        ;
    } else {
        lemma_steps_trace_index(n, (steps - 1) as nat, (step - 1) as nat, place);
        assert(step * len == len + (step - 1) * len) by (nonlinear_arith);
    }
}

/// Any number of steps is sound, and holds nothing at all where there are no
/// particles or no steps.
pub proof fn lemma_steps_trace_sound(n: usize, steps: nat)
    ensures
        all_sound(steps_trace(n, steps), n),
        forall|k: int|
            0 <= k < steps_trace(n, steps).len() ==> is_particle_work(
                #[trigger] steps_trace(n, steps)[k],
            ),
        n == 0 || steps == 0 ==> steps_trace(n, steps).len() == 0,
    decreases steps,
{
    if steps > 0 {
        lemma_steps_trace_sound(n, (steps - 1) as nat);
        lemma_force_rows_work(0, n);
    }
}

/// Every action of a run names only particles that exist, and no action adds
/// a particle's own pull to the force on it.
pub proof fn lemma_run_trace_sound(n: usize, steps: usize)
    ensures
        all_sound(run_trace(n, steps), n),
{
    lemma_draws_sound(Quantity::PositionX, n);
    lemma_steps_trace_sound(n, steps as nat);
}

/// A run on no particles only starts and stops the clock, whatever the number
/// of steps.
pub proof fn lemma_no_particles(steps: usize)
    ensures
        run_trace(0, steps) == seq![Action::StartClock, Action::StopClock],
{
    lemma_draws_from_len(Quantity::PositionX, 0);
    lemma_steps_trace_sound(0, steps as nat);
    assert(run_trace(0, steps) =~= seq![Action::StartClock, Action::StopClock]);
}

/// A run of no steps draws the initial state, starts the clock and stops it
/// at once: no force is computed and no particle advanced, whatever the
/// number of particles, and the clock starts only after the last draw.
pub proof fn lemma_no_steps(n: usize)
    ensures
        run_trace(n, 0) == draw_trace(n) + seq![Action::StartClock, Action::StopClock],
        forall|k: int|
            0 <= k < run_trace(n, 0).len() ==> !is_particle_work(#[trigger] run_trace(n, 0)[k]),
{
    lemma_draws_sound(Quantity::PositionX, n);
    lemma_steps_trace_sound(n, 0);
    assert(run_trace(n, 0) =~= draw_trace(n) + seq![Action::StartClock, Action::StopClock]);
}

/// A single particle feels no force: in a run on one particle nothing is ever
/// added to the force on it, which stays the zero vector it was cleared to.
pub proof fn lemma_single_particle(steps: usize)
    ensures
        forall|k: int|
            0 <= k < run_trace(1, steps).len() ==> !((#[trigger] run_trace(1, steps)[k])
                is AddForce),
        step_trace(1) == seq![Action::ClearForce { target: 0 }, Action::Integrate { target: 0 }],
{
    lemma_run_trace_sound(1, steps);
    let run = run_trace(1, steps);
    assert forall|k: int| 0 <= k < run.len() implies !((#[trigger] run[k]) is AddForce) by {
        assert(is_sound(run[k], 1));
    }
    assert(force_rows(1, 1).len() == 0);
    assert(step_trace(1) =~= seq![
        Action::ClearForce { target: 0 },
        Action::Integrate { target: 0 },
    ]);
}

/// The clock brackets the steps and nothing else: it starts right after the
/// last draw and stops right after the last step.
pub proof fn lemma_clock_position(n: usize, steps: usize)
    ensures
        ({
            let run = run_trace(n, steps);
            &&& run.len() == 7 * n + 2 + steps * step_trace(n).len()
            &&& run.subrange(0, 7 * n) == draw_trace(n)
            &&& run[7 * n] == Action::StartClock
            &&& run.subrange(7 * n + 1, run.len() - 1) == steps_trace(n, steps as nat)
            &&& run.last() == Action::StopClock
        }),
{
    lemma_draw_trace_len(n);
    lemma_steps_trace_len(n, steps as nat);
    let run = run_trace(n, steps);
    assert(run.subrange(0, 7 * n) =~= draw_trace(n));
    assert(run.subrange(7 * n + 1, run.len() - 1) =~= steps_trace(n, steps as nat));
}

} // verus!
