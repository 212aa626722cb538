//! Airdrop referral engine: single-use referral codes organised in a
//! depth-bounded tree, one-time redemption into a reward program, and an
//! append-only reward ledger drained by an external transfer worker.

pub mod error;
pub mod types;
pub mod model;
pub mod state;
pub mod redeem;
pub mod ledger;
pub mod engine;
pub mod roles;
pub mod upkeep;
pub mod cell;
pub mod laws;

pub use cell::{mutate_state, read_state};
pub use error::CanisterError;
pub use ledger::Stats;
pub use state::State;
pub use types::{
    AirdropAmount, Code, CodeInfo, CodeState, EthereumAddress, EthereumTransaction, Identity,
    Index, Info, PrincipalState, RewardType,
};
