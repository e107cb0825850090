use vstd::prelude::*;

use crate::binary64::{
    computes, is_finite, is_positive_finite, le, lt, rounds_monotonically, total, ScalarOp, ZERO_BITS,
};
use crate::time::{Instant, StepSize, TimeError, instant::instant_outcome, step_size::step_outcome};
use super::{EventClip, ScheduleError};

verus! {

/// Whether the instants of `s` never decrease.
pub open spec fn nondecreasing(s: Seq<Instant>) -> bool {
    forall|i: int, j: int| 0 <= i < j < s.len() ==> le(#[trigger] s[i]@, #[trigger] s[j]@)
}

/// Whether `k` indexes the first instant of `s` strictly later than `start`.
pub open spec fn is_first_after(s: Seq<Instant>, start: u64, k: int) -> bool {
    &&& 0 <= k < s.len()
    &&& lt(start, s[k]@)
    &&& forall|j: int| 0 <= j < k ==> !lt(start, #[trigger] s[j]@)
}

/// The first instant of `s` strictly later than `start`, if any.
pub open spec fn first_after(s: Seq<Instant>, start: u64) -> Option<Instant> {
    if exists|k: int| is_first_after(s, start, k) {
        Some(s[choose|k: int| is_first_after(s, start, k)])
    } else {
        None
    }
}

/// The next event after `start` is an event of `s` strictly later than
/// `start`, and every earlier event is not later than `start`; when there is
/// none, no event of `s` is later than `start`. In a nondecreasing sequence
/// this skips every duplicate of `start` and returns the earliest later
/// instant.
pub proof fn lemma_first_after(s: Seq<Instant>, start: u64)
    ensures
        first_after(s, start) matches Some(event) ==> exists|k: int|
            is_first_after(s, start, k) && s[k] == event,
        first_after(s, start) matches Some(event) ==> lt(start, event@),
        first_after(s, start) is None ==> forall|k: int| 0 <= k < s.len() ==> !lt(start, #[trigger] s[k]@),
        nondecreasing(s) ==> (first_after(s, start) matches Some(event) ==> forall|k: int|
            0 <= k < s.len() && lt(start, #[trigger] s[k]@) ==> le(event@, s[k]@)),
{
    if first_after(s, start) is None {
        assert forall|k: int| 0 <= k < s.len() implies !lt(start, #[trigger] s[k]@) by {
            if lt(start, s[k]@) {
                lemma_minimal_later_index(s, start, k);
            }
        }
    } else {
        let k = choose|k: int| is_first_after(s, start, k);
        if nondecreasing(s) {
            assert forall|j: int| 0 <= j < s.len() && lt(start, #[trigger] s[j]@) implies le(
                s[k]@,
                s[j]@,
            ) by {
                s[j].lemma_finite();
                s[k].lemma_finite();
                if j < k {
                } else if j > k {
                }
            }
        }
    }
}

/// If some event is later than `start`, a first such event exists.
proof fn lemma_minimal_later_index(s: Seq<Instant>, start: u64, k: int)
    requires
        0 <= k < s.len(),
        lt(start, s[k]@),
    ensures
        exists|m: int| is_first_after(s, start, m),
    decreases k,
{
    if exists|j: int| 0 <= j < k && lt(start, #[trigger] s[j]@) {
        let j = choose|j: int| 0 <= j < k && lt(start, #[trigger] s[j]@);
        lemma_minimal_later_index(s, start, j);
    } else {
        assert(is_first_after(s, start, k));
    }
}

/// Validated nondecreasing borrowed event instants.
///
/// The schedule owns no event storage. Duplicate instants are admitted and
/// skipped together once the simulation reaches them.
#[derive(Clone, Copy, Debug, PartialEq)]
pub struct EventSchedule<'a> {
    events: &'a [Instant],
}

impl<'a> EventSchedule<'a> {
    #[verifier::type_invariant]
    spec fn sorted(self) -> bool {
        nondecreasing(self.events@)
    }

    /// The borrowed instants.
    pub closed spec fn spec_events(self) -> Seq<Instant> {
        if nondecreasing(self.events@) {
            self.events@
        } else {
            Seq::empty()
        }
    }

    /// The instants of every schedule never decrease.
    pub proof fn lemma_sorted(self)
        ensures
            nondecreasing(self.spec_events()),
    {
    }

    /// Validate a borrowed event sequence.
    ///
    /// Returns [`ScheduleError::Unsorted`] at the first decreasing pair.
    pub fn new(events: &'a [Instant]) -> (r: Result<Self, ScheduleError>)
        ensures
            r is Ok <==> nondecreasing(events@),
            r matches Ok(schedule) ==> schedule.spec_events() == events@,
            r matches Err(ScheduleError::Unsorted { index }) ==> {
                &&& 1 <= index < events@.len()
                &&& lt(events@[index as int]@, events@[index - 1]@)
                &&& nondecreasing(events@.take(index as int))
            },
    {
        let length = events.len();
        if length < 2 {
            return Ok(EventSchedule { events });
        }
        let mut index: usize = 1;
        while index < length
            invariant
                1 <= index <= length,
                length == events@.len(),
                nondecreasing(events@.take(index as int)),
            decreases length - index,
        {
            if crate::binary64::less_than(events[index].as_time(), events[index - 1].as_time()) {
                return Err(ScheduleError::Unsorted { index });
            }
            proof {
                let prefix = events@.take(index as int + 1);
                assert forall|i: int, j: int| 0 <= i < j < prefix.len() implies le(
                    #[trigger] prefix[i]@,
                    #[trigger] prefix[j]@,
                ) by {
                    events@[i].lemma_finite();
                    events@[j].lemma_finite();
                    events@[index - 1].lemma_finite();
                    if j < index {
                        assert(events@.take(index as int)[i] == prefix[i]);
                        assert(events@.take(index as int)[j] == prefix[j]);
                    } else if i < index - 1 {
                        assert(events@.take(index as int)[i] == prefix[i]);
                        assert(events@.take(index as int)[index - 1] == events@[index - 1]);
                    }
                }
            }
            index = index + 1;
        }
        assert(events@.take(length as int) =~= events@);
        Ok(EventSchedule { events })
    }

    /// Return the borrowed event storage unchanged.
    pub fn events(&self) -> (r: &'a [Instant])
        ensures
            r@ == self.spec_events(),
    {
        proof {
            use_type_invariant(self);
        }
        self.events
    }

    /// Return the first event strictly later than `start`.
    ///
    /// Equal events are skipped, so duplicate notifications at the current
    /// instant cannot cause a zero-length step or repeatedly re-trigger the
    /// same boundary.
    pub fn next_after(&self, start: Instant) -> (r: Option<Instant>)
        ensures
            r == first_after(self.spec_events(), start@),
    {
        proof {
            use_type_invariant(self);
        }
        let ghost s = self.events@;
        let mut low: usize = 0;
        let mut high: usize = self.events.len();
        while low < high
            invariant
                0 <= low <= high <= s.len(),
                s == self.events@,
                nondecreasing(s),
                forall|j: int| 0 <= j < low ==> !lt(start@, #[trigger] s[j]@),
                forall|j: int| high <= j < s.len() ==> lt(start@, #[trigger] s[j]@),
            decreases high - low,
        {
            let middle = low + (high - low) / 2;
            if crate::binary64::less_equal(self.events[middle].as_time(), start.as_time()) {
                proof {
                    assert forall|j: int| 0 <= j < middle + 1 implies !lt(
                        start@,
                        #[trigger] s[j]@,
                    ) by {
                        s[j].lemma_finite();
                        s[middle as int].lemma_finite();
                        start.lemma_finite();
                        if j < middle {
                            assert(le(s[j]@, s[middle as int]@));
                        }
                    }
                }
                low = middle + 1;
            } else {
                proof {
                    assert forall|j: int| middle <= j < s.len() implies lt(
                        start@,
                        #[trigger] s[j]@,
                    ) by {
                        s[j].lemma_finite();
                        s[middle as int].lemma_finite();
                        start.lemma_finite();
                        if j > middle {
                            assert(le(s[middle as int]@, s[j]@));
                        }
                    }
                }
                high = middle;
            }
        }
        if low < self.events.len() {
            proof {
                assert(is_first_after(s, start@, low as int));
                let k = choose|k: int| is_first_after(s, start@, k);
                if k < low {
                    assert(!lt(start@, s[k]@));
                } else if k > low {
                    assert(!lt(start@, s[low as int]@));
                }
            }
            Some(self.events[low])
        } else {
            proof {
                assert(!exists|k: int| is_first_after(s, start@, k));
            }
            None
        }
    }

    /// Clip `proposed` at the next crossed event boundary.
    ///
    /// The proposed endpoint is `start + proposed` rounded by `arith`. If no
    /// event lies strictly after `start`, or the next one lies after the
    /// endpoint, the proposal is returned unchanged with no event. Otherwise
    /// the event is reported, the step is its distance from `start` (the
    /// difference rounded by `arith`), and the clip counts as shortened only
    /// when the event precedes the endpoint.
    ///
    /// Returns [`TimeError::NonFinite`] when the endpoint is not finite, and
    /// the error of the distance when it is not a valid step; with correctly
    /// rounded arithmetic the distance to an event strictly after `start` is
    /// never zero or negative, so a clip never fails for want of a positive
    /// step, and from a `start` of at least zero the distance is at most the
    /// event, so the only failure is an endpoint that is not finite.
    pub fn clip_step<A: Fn(ScalarOp) -> u64>(
        &self,
        start: Instant,
        proposed: StepSize,
        arith: &A,
    ) -> (r: Result<EventClip, TimeError>)
        requires
            total(*arith),
        ensures
            exists|end: u64|
                {
                    &&& computes(*arith, ScalarOp::Add(start@, proposed@), end)
                    &&& !is_finite(end) ==> r == Err::<EventClip, TimeError>(TimeError::NonFinite)
                    &&& is_finite(end) ==> match first_after(self.spec_events(), start@) {
                        None => r matches Ok(clip) && clip.spec_step() == proposed
                            && clip.spec_event() is None && !clip.spec_shortened(),
                        Some(event) => if lt(end, event@) {
                            r matches Ok(clip) && clip.spec_step() == proposed
                                && clip.spec_event() is None && !clip.spec_shortened()
                        } else {
                            exists|distance: u64|
                                {
                                    &&& computes(*arith, ScalarOp::Sub(event@, start@), distance)
                                    &&& match r {
                                        Ok(clip) => step_outcome(Ok(clip.spec_step()), distance)
                                            && clip.spec_event() == Some(event)
                                            && clip.spec_shortened() == lt(event@, end),
                                        Err(error) => step_outcome(Err(error), distance),
                                    }
                                }
                        },
                    }
                },
            r matches Ok(clip) ==> (clip.spec_event() matches Some(event) ==> lt(start@, event@)
                && exists|end: u64|
                computes(*arith, ScalarOp::Add(start@, proposed@), end) && le(event@, end)),
            rounds_monotonically(*arith) ==> r != Err::<EventClip, TimeError>(
                TimeError::NonPositiveStep,
            ),
            rounds_monotonically(*arith) && le(ZERO_BITS, start@) ==> (r matches Err(error) ==> error
                == TimeError::NonFinite && exists|end: u64|
                computes(*arith, ScalarOp::Add(start@, proposed@), end) && !is_finite(end)),
    {
        proof {
            lemma_first_after(self.spec_events(), start@);
        }
        let end = match start.advance(proposed, arith) {
            Ok(end) => end,
            Err(error) => return Err(error),
        };
        let next = self.next_after(start);
        let event = match next {
            None => return Ok(EventClip::new(proposed, None, false)),
            Some(event) => event,
        };
        if crate::binary64::less_than(end.as_time(), event.as_time()) {
            return Ok(EventClip::new(proposed, None, false));
        }
        let shortened = crate::binary64::less_than(event.as_time(), end.as_time());
        proof {
            end.lemma_finite();
            event.lemma_finite();
            assert(le(event@, end@));
            assert(computes(*arith, ScalarOp::Add(start@, proposed@), end@));
        }
        proof {
            if rounds_monotonically(*arith) && le(ZERO_BITS, start@) {
                start.lemma_finite();
                assert(lt(start@, event@));
                assert forall|difference: u64|
                    computes(*arith, ScalarOp::Sub(event@, start@), difference) implies is_positive_finite(
                        difference,
                    ) by {
                    assert(le(difference, event@));
                    assert(lt(ZERO_BITS, difference));
                }
            }
        }
        match event.duration_since(start, arith) {
            Ok(step) => Ok(EventClip::new(step, Some(event), shortened)),
            Err(error) => Err(error),
        }
    }
}

} // verus!
