use vstd::prelude::*;

use crate::time::{Instant, StepSize};

verus! {

/// Result of clipping a proposed step to the next scheduled event.
#[derive(Clone, Copy, Debug, PartialEq)]
pub struct EventClip {
    step: StepSize,
    event: Option<Instant>,
    shortened: bool,
}

impl EventClip {
    /// The step of the clip.
    pub closed spec fn spec_step(self) -> StepSize {
        self.step
    }

    /// The event of the clip.
    pub closed spec fn spec_event(self) -> Option<Instant> {
        self.event
    }

    /// Whether the clip shortened the proposal.
    pub closed spec fn spec_shortened(self) -> bool {
        self.shortened
    }

    pub(crate) fn new(step: StepSize, event: Option<Instant>, shortened: bool) -> (r: Self)
        ensures
            r.spec_step() == step,
            r.spec_event() == event,
            r.spec_shortened() == shortened,
    {
        EventClip { step, event, shortened }
    }

    /// Step ending no later than the next event.
    ///
    /// When [`Self::event`] is `Some`, this value is the rounded positive
    /// duration from the clipping start to that event; the event instant is
    /// the authoritative boundary.
    pub fn step(&self) -> (r: StepSize)
        ensures
            r == self.spec_step(),
    {
        self.step
    }

    /// Authoritative event instant reached by this clipped step, when present.
    pub fn event(&self) -> (r: Option<Instant>)
        ensures
            r == self.spec_event(),
    {
        self.event
    }

    /// Whether the proposed step was shortened.
    pub fn was_shortened(&self) -> (r: bool)
        ensures
            r == self.spec_shortened(),
    {
        self.shortened
    }
}

} // verus!
