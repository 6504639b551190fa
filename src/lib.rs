//! A capacity-limited registry of unique, individually identified assets.
//!
//! The registry tracks which account owns each live asset, enforces a global
//! limit and a per-account limit on the number of live assets, and never hands
//! out an asset identifier twice, even after the asset has been burned.

pub mod error;
pub mod registry;
pub mod traits;
