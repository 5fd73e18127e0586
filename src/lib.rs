//! Two-way mapping between native 32-byte accounts and 20-byte EVM addresses.
//!
//! A user proves control of an EVM address by signing their native account id
//! with the address's secp256k1 key; a successful claim binds the two, folding
//! the account that was implicitly derived from the address into the claimant.

pub mod claim;
pub mod mapping;
pub mod signing;
pub mod types;

pub use claim::{AccountState, Error, Event};
pub use mapping::{EvmAccountMapping, EvmAddressMapping, Module, OnKillAccount};
pub use signing::to_ascii_hex;
pub use types::{AccountId32, EcdsaSignature, EvmAddress};
