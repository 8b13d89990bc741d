//! A word-translation client: token-bucket rate limiting, ordered batch
//! dispatch, retry policy and language resolution, as verified logic.

pub mod text;
pub mod lang;
pub mod rate_limit;
pub mod error;
pub mod retry;
pub mod api;
pub mod resolve;
pub mod batch;
pub mod color;
pub mod output;
pub mod credentials;
pub mod mode;
