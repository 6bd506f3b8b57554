//! A funds-transfer engine for independently lockable accounts.
//!
//! The engine never waits for a lock while it holds one: it asks for the two
//! locks of a transfer in one global order, gives back what it took when the
//! second is busy, and abandons the call once a fixed waiting budget is
//! spent. Funds move only while both locks are held, so the sum of the
//! balances is the same before and after every call.
//!
//! `account` holds the accounts and the movement of funds, `engine` the
//! decisions of one call, `world` the model of many calls on one row of
//! accounts with what holds of every interleaving, and `bank` a registry that
//! plays such interleavings through. `upper` is the byte transform of a
//! separate pipe between two processes.

pub mod account;
pub mod bank;
pub mod engine;
pub mod ledger;
pub mod upper;
pub mod world;

pub use crate::account::move_funds;
pub use crate::account::Account;
pub use crate::bank::Bank;
pub use crate::engine::lock_order;
pub use crate::engine::Action;
pub use crate::engine::Event;
pub use crate::engine::Phase;
pub use crate::engine::Side;
pub use crate::engine::Transfer;
pub use crate::engine::BACKOFF_MS;
pub use crate::engine::TIMEOUT_MS;
pub use crate::world::Tick;
