//! Client-side honouring of the `Retry-After` response header.
//!
//! The library keeps, for each request target, the wall-clock instant until
//! which further requests to it should be held back, decides how long a
//! request must wait before it is dispatched, and updates that state from the
//! `Retry-After` header of each response.
pub mod clock;
pub mod header;
pub mod ledger;
pub mod middleware;
pub mod laws;

pub use clock::WallTime;
pub use header::{parse_delay_seconds, parse_retry_value, retry_value_from};
pub use ledger::Ledger;
pub use middleware::{observe, Observation, RetryAfterMiddleware, Scope};
