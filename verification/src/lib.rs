//! An append-only, tamper-evident chain of hash-linked blocks with a
//! longest-chain rule for resolving forks.

pub mod block;
pub mod bytes;
pub mod chain;
pub mod clock;
pub mod digest;
pub mod hash;
pub mod hexcode;
pub mod text;

pub use block::Block;
pub use chain::{Chain, MiningError, ValidationError};
