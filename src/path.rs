use vstd::prelude::*;

verus! {

// The recursive colour of a ray, written as a loop: each round traces the
// current ray into the scene and lets the hit material decide what follows.
// The colour of a path is the product of the attenuations met on it times the
// colour it ends in. The arithmetic on colours is the caller's; the decisions
// below are what bounds the path.

/// What came of tracing a ray into the scene.
#[derive(Clone, Copy, Debug, PartialEq, Eq, Structural)]
pub enum Bounce {
    /// No member was hit.
    Miss,
    /// A member was hit and its material absorbed the ray.
    Absorbed,
    /// A member was hit and its material sent out a new ray.
    Scattered,
}

/// What the shader does next.
#[derive(Clone, Copy, Debug, PartialEq, Eq, Structural)]
pub enum Step {
    /// Trace the current ray; `depth` bounces are left, this one included.
    Trace { depth: i32 },
    /// The path ends in black: it was absorbed or ran out of bounces.
    Black,
    /// The path left the scene: it ends in the background colour.
    Background,
}

/// The first step of a path that may bounce `depth` times.
pub open spec fn start_spec(depth: int) -> Step {
    if depth <= 0 {
        Step::Black
    } else {
        Step::Trace { depth: depth as i32 }
    }
}

/// The step after a trace made with `depth` bounces left.
pub open spec fn next_spec(depth: int, bounce: Bounce) -> Step {
    match bounce {
        Bounce::Miss => Step::Background,
        Bounce::Absorbed => Step::Black,
        Bounce::Scattered => start_spec(depth - 1),
    }
}

/// Where a path goes from `step` when its traces come out as `bounces`, in
/// order; a bounce past the end of the path is never asked for.
pub open spec fn walk(step: Step, bounces: Seq<Bounce>) -> Step
    decreases bounces.len(),
{
    match step {
        Step::Trace { depth } => if bounces.len() == 0 {
            step
        } else {
            walk(next_spec(depth as int, bounces[0]), bounces.drop_first())
        },
        _ => step,
    }
}

/// The first step of a path that may bounce `depth` times: with no bounce
/// left the path is black before anything is traced.
pub fn start(depth: i32) -> (r: Step)
    ensures
        r == start_spec(depth as int),
{
    if depth <= 0 {
        Step::Black
    } else {
        Step::Trace { depth }
    }
}

/// The step after a trace made with `depth` bounces left. A miss ends in the
/// background, an absorption in black, and a scattered ray is traced with one
/// bounce fewer.
pub fn next(depth: i32, bounce: Bounce) -> (r: Step)
    requires
        depth > 0,
    ensures
        r == next_spec(depth as int, bounce),
{
    match bounce {
        Bounce::Miss => Step::Background,
        Bounce::Absorbed => Step::Black,
        Bounce::Scattered => start(depth - 1),
    }
}

/// A path that starts with `depth` bounces ends after at most `depth`
/// traces, whatever the scene does; one with no bounce left is black and
/// traces nothing.
pub proof fn lemma_path_ends(depth: i32, bounces: Seq<Bounce>)
    requires
        bounces.len() >= depth,
    ensures
        !(walk(start_spec(depth as int), bounces) is Trace),
        depth <= 0 ==> walk(start_spec(depth as int), bounces) == Step::Black,
    decreases bounces.len(),
{
    if depth > 0 {
        let rest = bounces.drop_first();
        assert(walk(start_spec(depth as int), bounces) == walk(
            next_spec(depth as int, bounces[0]),
            rest,
        ));
        if bounces[0] == Bounce::Scattered {
            lemma_path_ends((depth - 1) as i32, rest);
        } else {
            assert(walk(next_spec(depth as int, bounces[0]), rest) == next_spec(
                depth as int,
                bounces[0],
            ));
        }
    }
}

} // verus!
