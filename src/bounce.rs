//! The decisions of the recursive path estimator, apart from its colour
//! arithmetic. A path starts with a bounce budget; each step reports what the
//! ray met, and the path either goes on with one bounce less or ends. A path
//! that ends by escaping contributes the sky colour times the attenuation
//! gathered so far; one that ends otherwise contributes black.
use vstd::prelude::*;

verus! {

/// What the ray of the current step met.
#[derive(Clone, Copy, Debug, PartialEq, Eq, Structural)]
pub enum Interaction {
    /// No surface within the trace interval: the ray reaches the sky.
    Missed,
    /// A surface whose material absorbed the ray.
    Absorbed,
    /// A surface whose material scattered the ray on.
    Scattered,
}

/// Why a path stopped.
#[derive(Clone, Copy, Debug, PartialEq, Eq, Structural)]
pub enum PathEnd {
    /// The bounce budget ran out before the ray escaped.
    BudgetExhausted,
    /// A material absorbed the ray.
    Absorbed,
    /// The ray left the scene.
    Escaped,
}

/// A path in progress, with the bounces it may still make, or a finished one.
#[derive(Clone, Copy, Debug, PartialEq, Eq, Structural)]
pub enum PathState {
    Tracing { depth: u32 },
    Finished { end: PathEnd },
}

pub open spec fn start_spec(max_depth: int) -> PathState {
    if max_depth <= 0 {
        PathState::Finished { end: PathEnd::BudgetExhausted }
    } else {
        PathState::Tracing { depth: max_depth as u32 }
    }
}

/// One step from a path that is still tracing with `depth` bounces left.
pub open spec fn advance_spec(depth: nat, event: Interaction) -> PathState {
    match event {
        Interaction::Missed => PathState::Finished { end: PathEnd::Escaped },
        Interaction::Absorbed => PathState::Finished { end: PathEnd::Absorbed },
        Interaction::Scattered => start_spec(depth - 1),
    }
}

/// The state after a sequence of events; events after the end change nothing.
pub open spec fn run(s: PathState, events: Seq<Interaction>) -> PathState
    decreases events.len(),
{
    if events.len() == 0 {
        s
    } else {
        match s {
            PathState::Tracing { depth } => run(
                advance_spec(depth as nat, events[0]),
                events.drop_first(),
            ),
            PathState::Finished { .. } => s,
        }
    }
}

impl PathEnd {
    /// Only an escaped path brings light: the others add black.
    pub fn lit(&self) -> (r: bool)
        ensures
            r <==> *self == PathEnd::Escaped,
    {
        match self {
            PathEnd::Escaped => true,
            _ => false,
        }
    }
}

impl PathState {
    /// A path with a budget of `max_depth` bounces. With no budget it is over
    /// before anything is intersected, whatever the ray and the scene.
    pub fn start(max_depth: i32) -> (s: PathState)
        ensures
            s == start_spec(max_depth as int),
            max_depth <= 0 ==> s == (PathState::Finished { end: PathEnd::BudgetExhausted }),
    {
        if max_depth <= 0 {
            PathState::Finished { end: PathEnd::BudgetExhausted }
        } else {
            PathState::Tracing { depth: max_depth as u32 }
        }
    }

    pub fn is_tracing(&self) -> (r: bool)
        ensures
            r <==> self is Tracing,
    {
        match self {
            PathState::Tracing { .. } => true,
            PathState::Finished { .. } => false,
        }
    }

    /// The next state once the current ray met `event`. A scattered ray goes
    /// on with one bounce less; at the last bounce the budget is exhausted.
    pub fn advance(self, event: Interaction) -> (s: PathState)
        requires
            self is Tracing,
        ensures
            s == advance_spec(self->depth as nat, event),
    {
        match self {
            PathState::Tracing { depth } => match event {
                Interaction::Missed => PathState::Finished { end: PathEnd::Escaped },
                Interaction::Absorbed => PathState::Finished { end: PathEnd::Absorbed },
                Interaction::Scattered => {
                    if depth <= 1 {
                        PathState::Finished { end: PathEnd::BudgetExhausted }
                    } else {
                        PathState::Tracing { depth: depth - 1 }
                    }
                },
            },
            PathState::Finished { .. } => self,
        }
    }
}

/// A path with no bounce budget ends in black whatever happens next.
pub proof fn lemma_no_budget_is_dark(max_depth: int, events: Seq<Interaction>)
    requires
        max_depth <= 0,
    ensures
        run(start_spec(max_depth), events) == (PathState::Finished { end: PathEnd::BudgetExhausted }),
    decreases events.len(),
{
}

/// While a path is still tracing, every step so far scattered and each took
/// exactly one bounce from the budget.
pub proof fn lemma_tracing_counts_bounces(depth: nat, events: Seq<Interaction>)
    requires
        0 < depth <= u32::MAX,
        run(PathState::Tracing { depth: depth as u32 }, events) is Tracing,
    ensures
        forall|i: int| 0 <= i < events.len() ==> events[i] == Interaction::Scattered,
        events.len() < depth,
        run(PathState::Tracing { depth: depth as u32 }, events)->depth == depth - events.len(),
    decreases events.len(),
{
    if events.len() > 0 {
        let next = advance_spec(depth, events[0]);
        assert(run(PathState::Tracing { depth: depth as u32 }, events) == run(next, events.drop_first()));
        if next is Finished {
            assert(run(next, events.drop_first()) == next) by {
                reveal_with_fuel(run, 2);
            }
        }
        assert(next == (PathState::Tracing { depth: (depth - 1) as u32 }));
        lemma_tracing_counts_bounces((depth - 1) as nat, events.drop_first());
        assert forall|i: int| 0 <= i < events.len() implies events[i] == Interaction::Scattered by {
            if i > 0 {
                assert(events[i] == events.drop_first()[i - 1]);
            }
        }
    }
}

/// A path with a budget of `max_depth` bounces stops at the latest after
/// `max_depth` scattering steps.
pub proof fn lemma_budget_bounds_bounces(max_depth: int, events: Seq<Interaction>)
    requires
        max_depth <= i32::MAX,
        events.len() >= max_depth,
    ensures
        run(start_spec(max_depth), events) is Finished,
{
    if max_depth > 0 && run(start_spec(max_depth), events) is Tracing {
        lemma_tracing_counts_bounces(max_depth as nat, events);
    }
}

} // verus!
