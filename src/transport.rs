use vstd::prelude::*;

verus! {

/// What a query of the world along the current ray found.
#[derive(Clone, Copy, Debug, PartialEq, Eq, Structural)]
pub enum Outcome {
    /// The ray hit nothing.
    Missed,
    /// The ray hit a surface that absorbed it.
    Absorbed,
    /// The ray hit a surface that sent it on in a new direction.
    Scattered,
}

/// The next move of one light-transport walk.
#[derive(Clone, Copy, Debug, PartialEq, Eq, Structural)]
pub enum Step {
    /// Query the world along the current ray; `depth` queries are left, this one included.
    Trace { depth: usize },
    /// The ray escaped: the sample is the sky color times the attenuations gathered.
    Sky,
    /// The walk ended in darkness: the sample is black.
    Black,
}

/// The first move of a walk allowed `depth` queries.
pub open spec fn first_step(depth: usize) -> Step {
    if depth == 0 {
        Step::Black
    } else {
        Step::Trace { depth }
    }
}

/// The move that follows a query made with `depth` queries left.
pub open spec fn step_after(depth: usize, outcome: Outcome) -> Step {
    match outcome {
        Outcome::Missed => Step::Sky,
        Outcome::Absorbed => Step::Black,
        Outcome::Scattered => first_step((depth - 1) as usize),
    }
}

/// Where a walk standing at `step` ends when its queries find `outcomes` in turn,
/// with the number of queries it made; `None` when it would need more outcomes.
pub open spec fn run(step: Step, outcomes: Seq<Outcome>) -> Option<(Step, nat)>
    decreases outcomes.len(),
{
    match step {
        Step::Trace { depth } => if outcomes.len() == 0 {
            None
        } else {
            match run(step_after(depth, outcomes[0]), outcomes.drop_first()) {
                Some((end, n)) => Some((end, n + 1)),
                None => None,
            }
        },
        _ => Some((step, 0)),
    }
}

/// The first move of a walk allowed `depth` queries: none at all when `depth` is 0.
pub fn walk_start(depth: usize) -> (r: Step)
    ensures
        r == first_step(depth),
{
    if depth == 0 {
        Step::Black
    } else {
        Step::Trace { depth }
    }
}

/// The move that follows a query made with `depth` queries left: a miss shows the
/// sky, an absorption ends in black, a scattered ray is traced with one query less.
pub fn walk_next(depth: usize, outcome: Outcome) -> (r: Step)
    requires
        depth > 0,
    ensures
        r == step_after(depth, outcome),
        r matches Step::Trace { depth: d } ==> d < depth,
{
    match outcome {
        Outcome::Missed => Step::Sky,
        Outcome::Absorbed => Step::Black,
        Outcome::Scattered => walk_start(depth - 1),
    }
}

/// Law: a walk allowed `depth` queries ends, in the sky or in black, after at most
/// `depth` of them, whatever the queries find.
pub proof fn lemma_walk_ends(depth: usize, outcomes: Seq<Outcome>)
    requires
        outcomes.len() >= depth,
    ensures
        run(first_step(depth), outcomes) matches Some((end, n)) && n <= depth && !(end is Trace),
    decreases depth,
{
    if depth > 0 {
        let after = step_after(depth, outcomes[0]);
        let rest = outcomes.drop_first();
        if outcomes[0] == Outcome::Scattered {
            lemma_walk_ends((depth - 1) as usize, rest);
        } else {
            assert(run(after, rest) == Some((after, 0nat)));
        }
    }
}

/// Law: a walk allowed at least one query whose first query misses ends in the
/// sky after that query, with no attenuation gathered. In a world with nothing
/// in it, every sample is therefore the sky color of its camera ray.
pub proof fn lemma_miss_shows_sky(depth: usize, outcomes: Seq<Outcome>)
    requires
        depth > 0,
        outcomes.len() > 0,
        outcomes[0] == Outcome::Missed,
    ensures
        run(first_step(depth), outcomes) == Some((Step::Sky, 1nat)),
{
    assert(run(Step::Sky, outcomes.drop_first()) == Some((Step::Sky, 0nat)));
}

} // verus!
