//! A two-player NFT wager escrow: deposits are bound to the sides of a named
//! match, and the winner of a finished match receives the loser's token.

pub mod account;
pub mod escrow;
pub mod laws;
pub mod message;
pub mod registry;

pub use escrow::{Escrow, EscrowError, MatchView, NftTransfer};
pub use message::TransferCallMsg;
pub use registry::{Deposit, MatchState, Registry};
