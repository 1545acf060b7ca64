use vstd::prelude::*;

verus! {

/// What happened to the ray of the current path segment.
#[derive(Clone, Copy, Debug, PartialEq, Eq, Structural)]
pub enum Event {
    /// The ray left the scene: it sees the sky.
    Miss,
    /// The ray hit a surface whose material absorbed it.
    Absorbed,
    /// The ray hit a surface and its material sent out a new ray.
    Scattered,
}

/// What the renderer does next with a path.
#[derive(Clone, Copy, Debug, PartialEq, Eq, Structural)]
pub enum Outcome {
    /// The path carries no light: black.
    Black,
    /// The path ends in the sky gradient, weighted by the attenuation so far.
    Sky,
    /// Follow the scattered ray one level deeper.
    Continue,
}

/// The remaining recursion budget of one light path.
#[derive(Clone, Copy, Debug, PartialEq, Eq, Structural)]
pub struct Path {
    pub depth: i32,
}

/// The outcome of one step of a path with `depth` levels left.
pub open spec fn step_outcome(depth: int, event: Event) -> Outcome {
    if depth <= 0 {
        Outcome::Black
    } else {
        match event {
            Event::Miss => Outcome::Sky,
            Event::Absorbed => Outcome::Black,
            Event::Scattered => Outcome::Continue,
        }
    }
}

/// How a path with `depth` levels left ends when its segments meet `events`
/// in turn; `Continue` where the events run out first.
pub open spec fn path_end(depth: int, events: Seq<Event>) -> Outcome
    decreases events.len(),
{
    if events.len() == 0 {
        Outcome::Continue
    } else if step_outcome(depth, events[0]) == Outcome::Continue {
        path_end(depth - 1, events.drop_first())
    } else {
        step_outcome(depth, events[0])
    }
}

/// How many times a path with `depth` levels left bounces when its segments
/// meet `events` in turn.
pub open spec fn bounces(depth: int, events: Seq<Event>) -> nat
    decreases events.len(),
{
    if events.len() == 0 {
        0
    } else if step_outcome(depth, events[0]) == Outcome::Continue {
        1 + bounces(depth - 1, events.drop_first())
    } else {
        0
    }
}

impl Path {
    /// A path that may bounce at most `max_depth` times.
    pub fn new(max_depth: i32) -> (r: Path)
        ensures
            r.depth == max_depth,
    {
        Path { depth: max_depth }
    }

    /// True when the budget is spent: the path is black without looking at
    /// the scene.
    pub fn exhausted(&self) -> (r: bool)
        ensures
            r == (self.depth <= 0),
    {
        self.depth <= 0
    }

    /// Takes the event of the current segment and says what follows; a
    /// bounce spends one level of the budget.
    pub fn advance(&mut self, event: Event) -> (r: Outcome)
        ensures
            r == step_outcome(old(self).depth as int, event),
            r == Outcome::Continue ==> final(self).depth == old(self).depth - 1,
            r != Outcome::Continue ==> *final(self) == *old(self),
    {
        let r = if self.depth <= 0 {
            Outcome::Black
        } else {
            match event {
                Event::Miss => Outcome::Sky,
                Event::Absorbed => Outcome::Black,
                Event::Scattered => Outcome::Continue,
            }
        };
        if r == Outcome::Continue {
            self.depth = self.depth - 1;
        }
        r
    }
}

/// A path whose budget is spent is black, whatever the scene holds.
pub proof fn lemma_exhausted_is_black(depth: int, events: Seq<Event>)
    requires
        depth <= 0,
        events.len() > 0,
    ensures
        path_end(depth, events) == Outcome::Black,
        bounces(depth, events) == 0,
{
}

/// A path never bounces more often than its budget allows.
pub proof fn lemma_bounces_bounded(depth: int, events: Seq<Event>)
    ensures
        bounces(depth, events) <= if depth <= 0 { 0 } else { depth },
    decreases events.len(),
{
    if events.len() > 0 && step_outcome(depth, events[0]) == Outcome::Continue {
        lemma_bounces_bounded(depth - 1, events.drop_first());
    }
}

/// A path that meets more events than its budget ends before the events run
/// out: it is black or sees the sky.
pub proof fn lemma_path_terminates(depth: int, events: Seq<Event>)
    requires
        events.len() > 0,
        events.len() > depth,
    ensures
        path_end(depth, events) != Outcome::Continue,
    decreases events.len(),
{
    if step_outcome(depth, events[0]) == Outcome::Continue {
        lemma_path_terminates(depth - 1, events.drop_first());
    }
}

} // verus!
