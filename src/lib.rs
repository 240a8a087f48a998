//! A quiz-room escrow and payout engine: rooms collect entry fees from
//! players and, when the host ends them, split the pool between platform,
//! charity, host and winners, to the last unit.
//!
//! The library decides; the caller carries out token transfers and hands back
//! what the token service showed (see [`transfer`]).

pub mod address;
pub mod admin;
pub mod consistency;
pub mod contract;
pub mod distribution;
pub mod error;
pub mod lifecycle;
pub mod math;
pub mod play;
pub mod room;
pub mod transfer;
pub mod types;

pub use address::Address;
pub use contract::{ContractView, QuizRoomContract};
pub use error::QuizError;
pub use math::MAX_AMOUNT;
pub use transfer::{Transfer, TransferReceipt};
pub use types::{
    AccessControl, AccessView, AdminConfig, ApprovedTokens, EconomicConfig, PlayerEntry, PrizeAsset,
    PrizeMode, Role, RoleGrant, RoomConfig, RoomView, TokenInfo, TokensView,
};
