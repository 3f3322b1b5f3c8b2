//! A small market-data backend core: a TTL disk cache (key sanitization,
//! entry envelope codec, expiry and eviction rules, store semantics) together
//! with the league filtering and gem classification rules that its callers use.

pub mod cache;
pub mod digits;
pub mod envelope;
pub mod leagues;
pub mod models;
pub mod skill_gems;
pub mod store;
pub mod strutil;
pub mod time;
