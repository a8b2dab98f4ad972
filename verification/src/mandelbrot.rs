//! The escape-time loop and the choice of a pixel's colour.
//!
//! A point is followed along its orbit until the orbit leaves the bounded
//! region or a limit of steps is reached. The loop knows nothing of the
//! numbers it works on: one step of the orbit, the test for the bounded
//! region and the shade of an escaped point are handed in, so the same loop
//! serves any arithmetic.

use vstd::prelude::*;
use crate::colour::Colour;

verus! {

/// Whether `steps` steps can lead from `start` to `z` through states that
/// all lie in the bounded region.
pub open spec fn reaches<Z, S: Fn(Z) -> Z, B: Fn(Z) -> bool>(
    step: S,
    bounded: B,
    start: Z,
    steps: nat,
    z: Z,
) -> bool
    decreases steps,
{
    if steps == 0 {
        z == start
    } else {
        exists|before: Z|
            {
                &&& reaches(step, bounded, start, (steps - 1) as nat, before)
                &&& bounded.ensures((before,), true)
                &&& #[trigger] step.ensures((before,), z)
            }
    }
}

/// Whether `count` and `z` are the outcome of following the orbit of
/// `start` for at most `max` steps: `count` steps lead to `z` through the
/// bounded region, and the orbit was left to itself until it escaped or the
/// limit was reached.
pub open spec fn is_escape_time<Z, S: Fn(Z) -> Z, B: Fn(Z) -> bool>(
    step: S,
    bounded: B,
    start: Z,
    max: nat,
    count: nat,
    z: Z,
) -> bool {
    &&& count <= max
    &&& reaches(step, bounded, start, count, z)
    &&& count < max ==> bounded.ensures((z,), false)
}

/// Follows the orbit of `start`: applies `step` for as long as the state is
/// `bounded` and fewer than `max` steps were taken. Returns the number of
/// steps taken and the state reached. The orbit has escaped exactly if the
/// count is below `max`.
pub fn classify<Z: Copy, S: Fn(Z) -> Z, B: Fn(Z) -> bool>(
    start: Z,
    max: usize,
    step: S,
    bounded: B,
) -> (res: (usize, Z))
    requires
        forall|z: Z| step.requires((z,)),
        forall|z: Z| bounded.requires((z,)),
    ensures
        is_escape_time(step, bounded, start, max as nat, res.0 as nat, res.1),
{
    let mut z = start;
    let mut count: usize = 0;
    while count < max
        invariant
            count <= max,
            reaches(step, bounded, start, count as nat, z),
            forall|z: Z| step.requires((z,)),
            forall|z: Z| bounded.requires((z,)),
        decreases max - count,
    {
        if !bounded(z) {
            return (count, z);
        }
        let next = step(z);
        assert(reaches(step, bounded, start, (count + 1) as nat, next));
        z = next;
        count += 1;
    }
    (count, z)
}

/// Whether `colour` is the colour of the point whose orbit starts at
/// `start`: a shade of the count and the state at which the orbit escaped,
/// or `inside` where it did not escape within `max` steps.
pub open spec fn is_colour_of<Z, S: Fn(Z) -> Z, B: Fn(Z) -> bool, G: Fn(usize, Z) -> Colour>(
    step: S,
    bounded: B,
    shade: G,
    start: Z,
    max: usize,
    inside: Colour,
    colour: Colour,
) -> bool {
    exists|count: usize, z: Z|
        {
            &&& #[trigger] is_escape_time(step, bounded, start, max as nat, count as nat, z)
            &&& if count < max {
                shade.ensures((count, z), colour)
            } else {
                colour == inside
            }
        }
}

/// Colours the point whose orbit starts at `start`. A point that escapes
/// within `max` steps gets the shade of its count and last state; a point
/// that does not gets `inside`, and no shade is computed for it.
pub fn colourise<Z: Copy, S: Fn(Z) -> Z, B: Fn(Z) -> bool, G: Fn(usize, Z) -> Colour>(
    start: Z,
    max: usize,
    step: S,
    bounded: B,
    shade: G,
    inside: Colour,
) -> (colour: Colour)
    requires
        forall|z: Z| step.requires((z,)),
        forall|z: Z| bounded.requires((z,)),
        forall|count: usize, z: Z| count < max ==> shade.requires((count, z)),
    ensures
        is_colour_of(step, bounded, shade, start, max, inside, colour),
{
    let (count, z) = classify(start, max, step, bounded);
    if count < max {
        shade(count, z)
    } else {
        inside
    }
}

/// The state after `n` applications of `f` to `start`.
pub open spec fn orbit<Z>(f: spec_fn(Z) -> Z, start: Z, n: nat) -> Z
    decreases n,
{
    if n == 0 {
        start
    } else {
        f(orbit(f, start, (n - 1) as nat))
    }
}

/// Where the step computes `f` and the test computes `inside`, the states
/// that `steps` steps can reach are the one state of the orbit of `f`, and
/// all states before it are inside.
proof fn lemma_reaches_orbit<Z, S: Fn(Z) -> Z, B: Fn(Z) -> bool>(
    step: S,
    bounded: B,
    f: spec_fn(Z) -> Z,
    inside: spec_fn(Z) -> bool,
    start: Z,
    steps: nat,
    z: Z,
)
    requires
        forall|a: Z, b: Z| step.ensures((a,), b) ==> b == f(a),
        forall|a: Z, b: bool| bounded.ensures((a,), b) ==> b == inside(a),
        reaches(step, bounded, start, steps, z),
    ensures
        z == orbit(f, start, steps),
        forall|i: nat| i < steps ==> inside(#[trigger] orbit(f, start, i)),
    decreases steps,
{
    if steps > 0 {
        let before = choose|before: Z|
            {
                &&& reaches(step, bounded, start, (steps - 1) as nat, before)
                &&& bounded.ensures((before,), true)
                &&& #[trigger] step.ensures((before,), z)
            };
        lemma_reaches_orbit(step, bounded, f, inside, start, (steps - 1) as nat, before);
        assert forall|i: nat| i < steps implies inside(#[trigger] orbit(f, start, i)) by {
            if i == steps - 1 {
                assert(orbit(f, start, i) == before);
            }
        }
    }
}

/// The escape time of a step and a test that are functions: where the step
/// computes `f` and the test computes `inside`, the state returned is the
/// one that `count` applications of `f` make of the start, every state
/// before it is inside, and below the limit the state returned is not. So
/// the count is the first index at which the orbit of `f` is outside, or the
/// limit where there is none below it.
pub proof fn lemma_escape_time_of_functions<Z, S: Fn(Z) -> Z, B: Fn(Z) -> bool>(
    step: S,
    bounded: B,
    f: spec_fn(Z) -> Z,
    inside: spec_fn(Z) -> bool,
    start: Z,
    max: nat,
    count: nat,
    z: Z,
)
    requires
        forall|a: Z, b: Z| step.ensures((a,), b) ==> b == f(a),
        forall|a: Z, b: bool| bounded.ensures((a,), b) ==> b == inside(a),
        is_escape_time(step, bounded, start, max, count, z),
    ensures
        count <= max,
        z == orbit(f, start, count),
        forall|i: nat| i < count ==> inside(#[trigger] orbit(f, start, i)),
        count < max ==> !inside(z),
{
    lemma_reaches_orbit(step, bounded, f, inside, start, count, z);
}

/// Every state that an orbit reaches from a fixed point of `step` is that
/// point.
proof fn lemma_fixed_point_stays<Z, S: Fn(Z) -> Z, B: Fn(Z) -> bool>(
    step: S,
    bounded: B,
    start: Z,
    steps: nat,
    z: Z,
)
    requires
        forall|next: Z| step.ensures((start,), next) ==> next == start,
        reaches(step, bounded, start, steps, z),
    ensures
        z == start,
    decreases steps,
{
    if steps > 0 {
        let before = choose|before: Z|
            {
                &&& reaches(step, bounded, start, (steps - 1) as nat, before)
                &&& bounded.ensures((before,), true)
                &&& #[trigger] step.ensures((before,), z)
            };
        lemma_fixed_point_stays(step, bounded, start, (steps - 1) as nat, before);
    }
}

/// The first state of an orbit of at least two steps: one step from the
/// start, and inside the bounded region.
proof fn lemma_second_state<Z, S: Fn(Z) -> Z, B: Fn(Z) -> bool>(
    step: S,
    bounded: B,
    start: Z,
    steps: nat,
    z: Z,
) -> (first: Z)
    requires
        steps >= 2,
        reaches(step, bounded, start, steps, z),
    ensures
        step.ensures((start,), first),
        bounded.ensures((first,), true),
    decreases steps,
{
    let before = choose|before: Z|
        {
            &&& reaches(step, bounded, start, (steps - 1) as nat, before)
            &&& bounded.ensures((before,), true)
            &&& #[trigger] step.ensures((before,), z)
        };
    if steps == 2 {
        assert(reaches(step, bounded, start, 1, before));
        let origin = choose|origin: Z|
            {
                &&& reaches(step, bounded, start, 0, origin)
                &&& bounded.ensures((origin,), true)
                &&& #[trigger] step.ensures((origin,), before)
            };
        before
    } else {
        lemma_second_state(step, bounded, start, (steps - 1) as nat, before)
    }
}

/// An orbit whose first step leaves the bounded region escapes at count 1:
/// where the start is bounded, whatever one step makes of it is not, and
/// at least one step is allowed, the count is 1.
pub proof fn lemma_escapes_at_first_step<Z, S: Fn(Z) -> Z, B: Fn(Z) -> bool>(
    step: S,
    bounded: B,
    start: Z,
    max: nat,
    count: nat,
    z: Z,
)
    requires
        max >= 1,
        !bounded.ensures((start,), false),
        forall|first: Z| step.ensures((start,), first) ==> !bounded.ensures((first,), true),
        is_escape_time(step, bounded, start, max, count, z),
    ensures
        count == 1,
{
    if count >= 2 {
        let first = lemma_second_state(step, bounded, start, count, z);
    }
}

/// An orbit that rests at a bounded point never escapes: where one step
/// leaves the start where it is and the start is bounded, the count is the
/// limit and the state is the start.
pub proof fn lemma_fixed_point_never_escapes<Z, S: Fn(Z) -> Z, B: Fn(Z) -> bool>(
    step: S,
    bounded: B,
    start: Z,
    max: nat,
    count: nat,
    z: Z,
)
    requires
        !bounded.ensures((start,), false),
        forall|next: Z| step.ensures((start,), next) ==> next == start,
        is_escape_time(step, bounded, start, max, count, z),
    ensures
        count == max,
        z == start,
{
    lemma_fixed_point_stays(step, bounded, start, count, z);
}

} // verus!
