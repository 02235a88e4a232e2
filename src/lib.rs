//! Accounting core of a lending market: fixed-point arithmetic, the byte
//! layout of its records, and the interest, collateral and liquidation rules.

pub mod error;
pub mod math;
pub mod pubkey;
pub mod state;
pub mod codec;
pub mod last_update;
pub mod lending_market;
pub mod reserve;
pub mod obligation;
pub mod unpack_util;
pub mod instruction;
pub mod operations;
