use vstd::prelude::*;
use vstd::string::StringExecFns;

use crate::text::{decimal, push_decimal};

verus! {

/// Invalid ordering in a borrowed event schedule.
#[derive(Clone, Copy, Debug, PartialEq, Eq, Structural)]
#[non_exhaustive]
pub enum ScheduleError {
    /// An event precedes its immediate predecessor.
    Unsorted {
        /// Index of the first event that violates nondecreasing order.
        index: usize,
    },
}

impl ScheduleError {
    /// The diagnostic text of the error.
    pub open spec fn spec_message(self) -> Seq<char> {
        match self {
            ScheduleError::Unsorted { index } => "event schedule is unsorted at index "@ + decimal(
                index as nat,
            ),
        }
    }

    /// The diagnostic text of the error.
    pub fn message(&self) -> (r: String)
        ensures
            r@ == self.spec_message(),
    {
        match self {
            ScheduleError::Unsorted { index } => {
                let mut text = String::from_str("event schedule is unsorted at index ");
                push_decimal(&mut text, *index);
                text
            },
        }
    }
}

} // verus!
