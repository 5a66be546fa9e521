use vstd::prelude::*;

verus! {

/// The vault's own failure taxonomy. Every failure is terminal and
/// deterministic: the caller must correct state and resubmit.
#[derive(Clone, Copy, PartialEq, Eq, Structural, Debug)]
pub enum VaultErrors {
    /// The caller's identity does not match the vault record's admin.
    NotAdmin,
    /// The clock reading is behind the record's creation timestamp.
    VaultNotInitialized,
    /// The clock reading is behind the record's mint-step timestamp.
    MintNotInitialized,
}

/// Failures raised by the token facility itself. The vault passes them
/// through unmodified and attaches no context.
#[derive(Clone, Copy, PartialEq, Eq, Structural, Debug)]
pub enum TokenError {
    /// No mint with the given id exists.
    UnknownMint,
    /// The asserted authority is not the mint's issuance authority.
    AuthorityMismatch,
    /// No holding account exists for the given owner and mint.
    UnknownAccount,
    /// A holding account for the given owner and mint already exists.
    AccountExists,
    /// The holding account's balance would exceed the largest representable
    /// value.
    BalanceOverflow,
    /// The source holding account's balance is below the requested amount.
    InsufficientFunds,
}

/// What an operation can report: one of the vault's own gate failures, or a
/// token-facility failure passed through unmodified.
#[derive(Clone, Copy, PartialEq, Eq, Structural, Debug)]
pub enum OpError {
    Vault(VaultErrors),
    Token(TokenError),
}

} // verus!
