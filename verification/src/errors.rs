//! The error taxonomy of the coordinator.
//!
//! Every variant is recoverable at the request boundary; validation errors
//! are reported before any state has changed, while `ActionFailed` is
//! reported only after the arming record has already been written.

use vstd::prelude::*;

verus! {

/// An error returned by the two public workflows of the coordinator.
#[derive(Debug, Clone, PartialEq, Eq)]
pub enum BootError {
    /// The machine identifier is not present in the registry.
    UnknownMachine,
    /// The payload name is not present in the registry.
    UnknownPayload,
    /// The queried MAC address is not armed to boot anything.
    NotArmed,
    /// A pre-boot action failed.  `index` is the position of the failed
    /// action in the machine's ordered action list; `reason` describes the
    /// failure so an operator can intervene manually.  The machine stays
    /// armed: the arming record is written before any action runs.
    ActionFailed { index: usize, reason: String },
    /// A payload was armed and later disappeared from the registry: a
    /// configuration inconsistency, not a client error.
    ConfigurationInconsistency,
}

/// The mathematical shape of a [`BootError`].
pub enum BootErrorV {
    UnknownMachine,
    UnknownPayload,
    NotArmed,
    ActionFailed { index: int, reason: Seq<char> },
    ConfigurationInconsistency,
}

impl View for BootError {
    type V = BootErrorV;

    open spec fn view(&self) -> BootErrorV {
        match self {
            BootError::UnknownMachine => BootErrorV::UnknownMachine,
            BootError::UnknownPayload => BootErrorV::UnknownPayload,
            BootError::NotArmed => BootErrorV::NotArmed,
            BootError::ActionFailed { index, reason } => BootErrorV::ActionFailed {
                index: *index as int,
                reason: reason@,
            },
            BootError::ConfigurationInconsistency => BootErrorV::ConfigurationInconsistency,
        }
    }
}

impl DeepView for BootError {
    type V = BootErrorV;

    open spec fn deep_view(&self) -> BootErrorV {
        self.view()
    }
}

} // verus!
