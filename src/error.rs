use vstd::prelude::*;

verus! {

/// The ways a privileged call can fail. Every failure leaves all state as
/// it was before the call.
#[derive(Clone, Copy, Debug, PartialEq, Eq, Structural)]
pub enum GateError {
    /// The caller is not one of the configured signers.
    Unauthorized,
    /// A target record is not linked to the expected configuration.
    AccountMismatch,
    /// The target record has not been created yet.
    Uninitialized,
}

} // verus!
