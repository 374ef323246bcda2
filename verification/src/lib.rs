//! Group-buy coordination engine: a versioned session store with optimistic
//! locking, a two-state session lifecycle, dialog form parsing, decimal-exact
//! aggregation, and an append-only audit log.

pub mod aggregate;
pub mod appcall;
pub mod auth;
pub mod config;
pub mod dialog;
pub mod dialogs;
pub mod errors;
mod ids;
pub mod json;
pub mod laws;
pub mod model;
pub mod money;
pub mod platform;
pub mod render;
pub mod router;
pub mod sticker;
pub mod store;
pub mod yaml;

pub use money::Money;
