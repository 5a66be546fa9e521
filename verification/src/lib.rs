//! An authorization-gated token-issuance vault.
//!
//! A single persistent vault record holds an admin identity and two
//! sequencing timestamps. Mint creation, holding-account creation and token
//! issuance are gated on the admin identity and on the setup steps having
//! completed, in a fixed check order. The external fungible-token facility is
//! modelled by an in-memory ledger with exact contracts; a host around this
//! library supplies the clock reading and performs the real token calls.

pub mod errors;
pub mod identity;
pub mod laws;
pub mod ledger;
pub mod ops;

pub use errors::OpError;
pub use errors::TokenError;
pub use errors::VaultErrors;
pub use identity::PrincipalId;
pub use ledger::TokenLedger;
pub use ops::VaultAdmin;
pub use ops::deposit_tokens;
pub use ops::initialize;
pub use ops::initialize_account;
pub use ops::initialize_mint;
pub use ops::mint_token;
