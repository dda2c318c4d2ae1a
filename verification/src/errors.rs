//! The errors that the library reports.

use crate::time::Epoch;
use vstd::prelude::*;

verus! {

/// What can go wrong with a trajectory.
#[derive(Clone, Debug)]
pub enum TrajError {
    /// No event of this name was found between the two epochs.
    EventNotFound { start: Epoch, end: Epoch, event: String },
    /// The trajectory holds nothing from which the state at this epoch could be built.
    NoInterpolationData(Epoch),
    /// The trajectory could not be built.
    CreationError(String),
}

/// The errors of the library.
#[derive(Clone, Debug)]
pub enum NyxError {
    /// An error of a trajectory.
    Trajectory(TrajError),
    /// An iteration went through all of its rounds without meeting its tolerance.
    MaxIterReached(String),
    /// The state has no such parameter.
    ParameterUnavailableForType,
    /// The state carries no state transition matrix.
    StateTransitionMatrixUnset,
    /// A text that was to name something names nothing that is known.
    LoadingError(String),
    /// What was to be written could not be written.
    ExportError(String),
    /// A computation left the numbers: the value is no number, or is infinite.
    MathDomain(String),
}

/// The error of a query at an epoch for which the trajectory has no data.
pub open spec fn no_interpolation_data(epoch: Epoch) -> NyxError {
    NyxError::Trajectory(TrajError::NoInterpolationData(epoch))
}

/// Whether `error` says that the event `event` was not found between `start` and `end`.
pub open spec fn is_event_not_found(
    error: NyxError,
    start: Epoch,
    end: Epoch,
    event: Seq<char>,
) -> bool {
    &&& error matches NyxError::Trajectory(TrajError::EventNotFound { start: s, end: e, event: name })
    &&& s == start
    &&& e == end
    &&& name@ == event
}

/// Whether `error` says that a trajectory could not be built, for the reason `reason`.
pub open spec fn is_creation_error(error: NyxError, reason: Seq<char>) -> bool {
    &&& error matches NyxError::Trajectory(TrajError::CreationError(why))
    &&& why@ == reason
}

impl NyxError {
    /// Whether the caller may try again with other arguments: every error of a
    /// search or of a query is of that kind.
    pub fn is_recoverable(&self) -> (r: bool)
        ensures
            r == (*self is Trajectory || *self is MaxIterReached),
    {
        match self {
            NyxError::Trajectory(_) => true,
            NyxError::MaxIterReached(_) => true,
            _ => false,
        }
    }
}

} // verus!
