//! A verified model of a one-shot escrow-and-settlement protocol.
//!
//! A client locks funds for an order into an escrow record; a single
//! settlement authority later either releases them to the designated
//! executor (minus a basis-point platform fee paid to the treasury) or
//! refunds them in full to the client. Every escrow is a one-shot state
//! machine: once it leaves `Locked` it is terminal.

pub mod fee;
pub mod laws;
pub mod ledger;
pub mod market;
pub mod state;

pub use fee::compute_fee;
pub use ledger::Wallet;
pub use market::Market;
pub use state::CreateEscrow;
pub use state::EscrowAccount;
pub use state::EscrowStatus;
pub use state::InitializeTreasury;
pub use state::RefundEscrow;
pub use state::ReleaseEscrow;
pub use state::ShillMarketError;
pub use state::Treasury;
