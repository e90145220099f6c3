//! A verified economic engine for a tokenized creator economy.
//!
//! The crate has two independent subsystems built over a shared
//! multi-currency ledger model:
//!
//! - an issuance engine (`issuance`) that prices creation, purchase and
//!   redemption of creator tokens along a bonding curve (`curves`), and
//! - a content ledger (`content`) that pays fixed incentives to creators
//!   and viewers while preventing double claiming.
//!
//! All currency movement goes through the `bank` model, which plays the
//! role of the surrounding runtime's atomic multi-asset currency
//! primitive, and both engines keep their tables in the verified
//! key-value `store`.

pub mod bank;
pub mod content;
pub mod curves;
pub mod issuance;
pub mod store;
