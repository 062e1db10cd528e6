//! Control of the recursive integrator that turns a ray into a colour.
//!
//! Each call of the integrator first looks at its bounce budget: with none
//! left the ray is black and the scene is not consulted. Otherwise the ray is
//! traced into the scene, and what happened there decides the rest: an escape
//! shows the sky gradient, an absorption is black, and a scatter continues
//! with the scattered ray and one bounce fewer, its colour then attenuated.

use vstd::prelude::*;

verus! {

/// What the scene and the material that was hit did to a traced ray.
#[derive(Clone, Copy, Debug, PartialEq, Eq, Structural)]
pub enum Interaction {
    /// The ray hit nothing and left the scene.
    Escaped,
    /// The ray hit a surface whose material absorbed it.
    Absorbed,
    /// The ray hit a surface and was scattered.
    Scattered,
}

/// What the integrator does next.
#[derive(Clone, Copy, Debug, PartialEq, Eq, Structural)]
pub enum Step {
    /// The colour is black.
    Black,
    /// The ray must be traced into the scene.
    Trace,
    /// The colour is the sky gradient along the ray's direction.
    Sky,
    /// The colour is the attenuation times the colour of the scattered ray,
    /// traced with the given bounce budget.
    Attenuate { depth: i32 },
}

/// The step for bounce budget `depth`, where `seen` is what tracing the ray
/// gave, or `None` before it was traced.
pub open spec fn step_of(depth: int, seen: Option<Interaction>) -> Step {
    if depth <= 0 {
        Step::Black
    } else {
        match seen {
            None => Step::Trace,
            Some(Interaction::Escaped) => Step::Sky,
            Some(Interaction::Absorbed) => Step::Black,
            Some(Interaction::Scattered) => Step::Attenuate { depth: (depth - 1) as i32 },
        }
    }
}

/// Decides the integrator's next step for bounce budget `depth`, given what
/// tracing the ray gave (`None` before it was traced).
pub fn integrator_step(depth: i32, seen: Option<Interaction>) -> (s: Step)
    ensures
        s == step_of(depth as int, seen),
{
    if depth <= 0 {
        Step::Black
    } else {
        match seen {
            None => Step::Trace,
            Some(Interaction::Escaped) => Step::Sky,
            Some(Interaction::Absorbed) => Step::Black,
            Some(Interaction::Scattered) => Step::Attenuate { depth: depth - 1 },
        }
    }
}

/// How the colour of a ray is made: the sky gradient (`sky`) or black,
/// multiplied by the attenuations of `bounces` scatters.
pub struct PathEnd {
    pub sky: bool,
    pub bounces: nat,
}

/// How the integrator ends for bounce budget `depth` when the successive
/// traces of the path give `events` in order; `None` when the path needs
/// more traces than `events` holds.
pub open spec fn path_end(depth: int, events: Seq<Interaction>) -> Option<PathEnd>
    decreases events.len(),
{
    if step_of(depth, None) == Step::Black {
        Some(PathEnd { sky: false, bounces: 0 })
    } else if events.len() == 0 {
        None
    } else {
        match step_of(depth, Some(events[0])) {
            Step::Sky => Some(PathEnd { sky: true, bounces: 0 }),
            Step::Attenuate { depth: next } => match path_end(next as int, events.drop_first()) {
                Some(end) => Some(PathEnd { sky: end.sky, bounces: end.bounces + 1 }),
                None => None,
            },
            _ => Some(PathEnd { sky: false, bounces: 0 }),
        }
    }
}

/// With no bounces left the colour is black, whatever the scene would do to
/// the ray, and the scene is not traced.
pub proof fn lemma_no_bounces_left_is_black(depth: int, seen: Option<Interaction>)
    requires
        depth <= 0,
    ensures
        step_of(depth, seen) == Step::Black,
        step_of(depth, None) != Step::Trace,
{
}

/// A ray that escapes the scene shows the sky gradient, whatever positive
/// bounce budget is left.
pub proof fn lemma_escape_is_sky(depth1: int, depth2: int)
    requires
        depth1 > 0,
        depth2 > 0,
    ensures
        step_of(depth1, Some(Interaction::Escaped)) == Step::Sky,
        step_of(depth1, Some(Interaction::Escaped)) == step_of(depth2, Some(Interaction::Escaped)),
{
}

/// Every path ends within its bounce budget: with budget `depth`, at most
/// `depth` traces are made (so the first `depth` events decide the end), at
/// most `depth` attenuations are applied, and a path that spends the whole
/// budget is black.
pub proof fn lemma_path_ends_within_depth(depth: int, events: Seq<Interaction>)
    requires
        depth <= i32::MAX,
        events.len() >= depth,
    ensures
        path_end(depth, events) is Some,
        depth > 0 ==> path_end(depth, events) == path_end(depth, events.take(depth)),
        depth > 0 ==> path_end(depth, events).unwrap().bounces <= depth,
        path_end(depth, events).unwrap().bounces == depth ==> !path_end(depth, events).unwrap().sky,
    decreases events.len(),
{
    if depth > 0 {
        let taken = events.take(depth);
        assert(taken[0] == events[0]);
        if events[0] == Interaction::Scattered {
            lemma_path_ends_within_depth(depth - 1, events.drop_first());
            assert(taken.drop_first() =~= events.drop_first().take(depth - 1));
            if depth - 1 > 0 {
                lemma_path_ends_within_depth(depth - 1, taken.drop_first());
            }
        }
    }
}

} // verus!
