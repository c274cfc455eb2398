//! Payment intake and summary logic of a payments backend: the rules that
//! decode query strings, convert amounts to cents, keep per-processor
//! totals, filter recorded payments by date and decide delivery retries.
pub mod text;
pub mod query;
pub mod amount;
pub mod instant;
pub mod shared_mem;
pub mod models;
pub mod processor;
pub mod services;
pub mod server;
pub mod handlers;
