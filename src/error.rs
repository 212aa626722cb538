use vstd::prelude::*;

verus! {

/// Every failure an operation of the engine can report.
#[derive(Debug)]
pub enum CanisterError {
    /// Catch-all error carrying a message.
    GeneralError(String),
    /// The operational flag is set: user-facing operations are disabled.
    CanisterKilled,
    /// The code is not part of the referral tree.
    CodeNotFound,
    /// The code was already redeemed.
    CodeAlreadyRedeemed,
    /// The identity already redeemed a code.
    CannotRegisterMultipleTimes,
    /// The code has no children.
    NoChildrenForCode,
    /// The identity has no code.
    NoCodeForII,
    /// The maximum depth of the tree was reached.
    MaximumDepthReached,
    /// The pool of unissued codes cannot serve the request.
    NoMoreCodes,
    /// The payment address of the identity could not be resolved.
    UnknownOisyWalletAddress,
    /// A ledger index is out of range.
    TransactionUnkown,
    /// The key is already present.
    DuplicateKey(String),
    /// Managers cannot redeem codes.
    ManagersCannotParticipateInTheAirdrop,
    /// The token budget is exhausted.
    NoTokensLeft,
    /// The identity is not registered in the airdrop.
    PrincipalNotParticipatingInAirdrop,
}

} // verus!
