use vstd::prelude::*;

verus! {

/// What the scene and the hit surface did with one ray.
#[derive(Clone, Copy, Debug, PartialEq, Eq, Structural)]
pub enum Outcome {
    /// The ray hit nothing: it sees the sky.
    Miss,
    /// The ray hit a surface that absorbed it.
    Absorbed,
    /// The ray hit a surface that sent out a new ray.
    Scattered,
}

/// How a path ends.
#[derive(Clone, Copy, Debug, PartialEq, Eq, Structural)]
pub enum Terminal {
    /// The color is black: the bounce budget ran out or a surface absorbed the ray.
    Black,
    /// The color is the sky gradient in the last ray's direction.
    Sky,
}

/// The next move of the integrator.
#[derive(Clone, Copy, Debug, PartialEq, Eq, Structural)]
pub enum Step {
    /// Query the scene with the current ray.
    Query,
    /// The path is done.
    Finish(Terminal),
    /// Follow the scattered ray, weighting by the attenuation, with this budget.
    Follow(i32),
}

/// Before a ray is traced: with no budget left the color is black, else the
/// scene is queried.
pub fn begin(depth: i32) -> (s: Step)
    ensures
        depth <= 0 ==> s == Step::Finish(Terminal::Black),
        depth > 0 ==> s == Step::Query,
{
    if depth <= 0 {
        Step::Finish(Terminal::Black)
    } else {
        Step::Query
    }
}

/// After the scene was queried for a ray traced with budget `depth`.
pub fn after_query(depth: i32, outcome: Outcome) -> (s: Step)
    requires
        depth > 0,
    ensures
        s == (match outcome {
            Outcome::Miss => Step::Finish(Terminal::Sky),
            Outcome::Absorbed => Step::Finish(Terminal::Black),
            Outcome::Scattered => Step::Follow((depth - 1) as i32),
        }),
{
    match outcome {
        Outcome::Miss => Step::Finish(Terminal::Sky),
        Outcome::Absorbed => Step::Finish(Terminal::Black),
        Outcome::Scattered => Step::Follow(depth - 1),
    }
}

/// Where a path traced with budget `depth` ends, and how many scattered rays
/// it followed, when the rays it traces meet `outcomes` in turn (a path that
/// runs out of outcomes is taken to miss).
pub open spec fn path_end(depth: int, outcomes: Seq<Outcome>) -> (nat, Terminal)
    decreases outcomes.len(),
{
    if depth <= 0 {
        (0, Terminal::Black)
    } else if outcomes.len() == 0 {
        (0, Terminal::Sky)
    } else {
        match outcomes[0] {
            Outcome::Miss => (0, Terminal::Sky),
            Outcome::Absorbed => (0, Terminal::Black),
            Outcome::Scattered => {
                let (n, e) = path_end(depth - 1, outcomes.drop_first());
                (n + 1, e)
            },
        }
    }
}

/// Runs the integrator's steps over a known sequence of outcomes.
pub fn trace_path(depth: i32, outcomes: &Vec<Outcome>) -> (r: (u32, Terminal))
    ensures
        r.0 as nat == path_end(depth as int, outcomes@).0,
        r.1 == path_end(depth as int, outcomes@).1,
{
    let mut d: i32 = depth;
    let mut k: usize = 0;
    let mut bounces: u32 = 0;
    assert(outcomes@.skip(0) =~= outcomes@);
    loop
        invariant
            k <= outcomes.len(),
            bounces as int == k as int,
            depth as int - d as int == k as int,
            d <= depth,
            ({
                let (n, e) = path_end(d as int, outcomes@.skip(k as int));
                path_end(depth as int, outcomes@) == ((n + k) as nat, e)
            }),
        decreases outcomes.len() - k,
    {
        let s = begin(d);
        if let Step::Finish(t) = s {
            return (bounces, t);
        }
        if k == outcomes.len() {
            return (bounces, Terminal::Sky);
        }
        assert(outcomes@.skip(k as int)[0] == outcomes@[k as int]);
        assert(outcomes@.skip(k as int).drop_first() =~= outcomes@.skip(k as int + 1));
        match after_query(d, outcomes[k]) {
            Step::Follow(next) => {
                d = next;
                k = k + 1;
                bounces = bounces + 1;
            },
            Step::Finish(t) => {
                return (bounces, t);
            },
            Step::Query => {
                return (bounces, Terminal::Black);
            },
        }
    }
}

/// With no budget left a path is black and follows no ray, whatever it would meet.
pub proof fn lemma_exhausted_is_black(depth: int, outcomes: Seq<Outcome>)
    requires
        depth <= 0,
    ensures
        path_end(depth, outcomes) == (0nat, Terminal::Black),
{
}

/// A path never follows more scattered rays than its budget.
pub proof fn lemma_bounded_bounces(depth: int, outcomes: Seq<Outcome>)
    ensures
        path_end(depth, outcomes).0 <= if depth > 0 { depth } else { 0 },
    decreases outcomes.len(),
{
    if depth > 0 && outcomes.len() > 0 && outcomes[0] == Outcome::Scattered {
        lemma_bounded_bounces(depth - 1, outcomes.drop_first());
    }
}

} // verus!
