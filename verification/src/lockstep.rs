//! Comparing two exports slice by slice, the first of one with the first of
//! the other.
//!
//! The library decides what each pair and each answer leads to. Whoever
//! drives it fetches the slices, shows the differences and asks.

use crate::clinical_data::PatientSlice;
use crate::compare_slices::slice_differences;
use crate::diff::Diff;
use crate::differences::PatientSliceDifference;
use crate::prompt::Response;
use vstd::prelude::*;

verus! {

/// One export has slices left where the other has none.
#[derive(Clone, Copy, Debug, PartialEq, Eq, Structural)]
pub enum LockstepError {
    /// The new export ran out of slices.
    NewRanOut,
    /// The old export ran out of slices.
    OldRanOut,
}

impl LockstepError {
    pub open spec fn text(self) -> Seq<char> {
        match self {
            LockstepError::NewRanOut => "New ran out of slices!"@,
            LockstepError::OldRanOut => "Old ran out of slices!"@,
        }
    }

    /// The message of the error.
    pub fn message(&self) -> (r: &'static str)
        ensures
            r@ == self.text(),
    {
        match self {
            LockstepError::NewRanOut => "New ran out of slices!",
            LockstepError::OldRanOut => "Old ran out of slices!",
        }
    }
}

/// What the comparison of one pair of slices leads to.
#[derive(Debug)]
pub enum Step<'a> {
    /// Both exports are at their end.
    Finished,
    /// The two slices do not differ.
    Identical,
    /// The two slices differ. `ask` says whether to ask before going on.
    Different { differences: Vec<PatientSliceDifference<'a>>, ask: bool },
}

/// What an answer leads to.
#[derive(Clone, Copy, Debug, PartialEq, Eq, Structural)]
pub enum Action {
    Continue,
    Stop,
}

/// The state of a comparison: whether to go on without asking, and the
/// number of differences so far.
#[derive(Clone, Copy, Debug)]
pub struct Lockstep {
    pub skip_input: bool,
    pub total: usize,
}

/// A count with more added to it, which stops at the largest number that it
/// can hold.
pub open spec fn counted(total: usize, more: nat) -> usize {
    if total + more > usize::MAX {
        usize::MAX
    } else {
        (total + more) as usize
    }
}

impl Lockstep {
    /// The state before the first pair: nothing counted, every difference
    /// asked about.
    pub fn new() -> (r: Lockstep)
        ensures
            r == (Lockstep { skip_input: false, total: 0 }),
    {
        Lockstep { skip_input: false, total: 0 }
    }

    /// Compares the next slice of the old export with the next slice of the
    /// new one. Where only one export has a slice left, that is an error;
    /// where the slices differ, their differences are counted.
    pub fn compare<'a>(
        &mut self,
        old_slice: Option<&'a PatientSlice>,
        new_slice: Option<&'a PatientSlice>,
    ) -> (r: Result<Step<'a>, LockstepError>)
        ensures
            final(self).skip_input == old(self).skip_input,
            match (old_slice, new_slice) {
                (None, None) => r matches Ok(Step::Finished) && final(self).total == old(
                    self,
                ).total,
                (Some(_), None) => r == Err::<Step<'a>, LockstepError>(LockstepError::NewRanOut)
                    && final(self).total == old(self).total,
                (None, Some(_)) => r == Err::<Step<'a>, LockstepError>(LockstepError::OldRanOut)
                    && final(self).total == old(self).total,
                (Some(a), Some(b)) => if slice_differences(a@, b@).len() == 0 {
                    r matches Ok(Step::Identical) && final(self).total == old(self).total
                } else {
                    &&& r matches Ok(Step::Different { differences, ask })
                    &&& differences.deep_view() == slice_differences(a@, b@)
                    &&& ask == !old(self).skip_input
                    &&& final(self).total == counted(
                        old(self).total,
                        slice_differences(a@, b@).len(),
                    )
                },
            },
    {
        match (old_slice, new_slice) {
            (None, None) => Ok(Step::Finished),
            (Some(_), None) => Err(LockstepError::NewRanOut),
            (None, Some(_)) => Err(LockstepError::OldRanOut),
            (Some(a), Some(b)) => match a.diff(b) {
                None => Ok(Step::Identical),
                Some(differences) => {
                    let more = differences.len();
                    if self.total > usize::MAX - more {
                        self.total = usize::MAX;
                    } else {
                        self.total = self.total + more;
                    }
                    Ok(Step::Different { differences, ask: !self.skip_input })
                },
            },
        }
    }

    /// Takes in the answer to the question whether to go on.
    pub fn answer(&mut self, response: Response) -> (r: Action)
        ensures
            final(self).total == old(self).total,
            final(self).skip_input == (old(self).skip_input || response == Response::All),
            r == if response == Response::No {
                Action::Stop
            } else {
                Action::Continue
            },
    {
        match response {
            Response::All => {
                self.skip_input = true;
                Action::Continue
            },
            Response::Yes => Action::Continue,
            Response::No => Action::Stop,
        }
    }
}

} // verus!
