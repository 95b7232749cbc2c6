//! Why an operation was refused.
use vstd::prelude::*;

verus! {

/// The ways an operation on the ledger, the proof codec or an account can fail.
#[derive(Clone, Copy, Debug, PartialEq, Eq, Structural)]
pub enum PrivacyError {
    /// The call data is shorter than the operation's fixed layout.
    PayloadTooShort,
    /// A fixed-width field, such as an encoded proof, has the wrong shape.
    FormatError,
    /// The proof system rejected the proof.
    ProofVerificationFailed,
    /// The nullifier has already been spent.
    DoubleSpend,
    /// The coin id has already been registered.
    DuplicateCommitment,
    /// A debit would take the known shielded value below zero.
    BalanceUnderflow,
    /// A credit would take the known shielded value past its width.
    BalanceOverflow,
}

} // verus!
