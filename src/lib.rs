//! A download queue for media jobs run by an external extractor: admission
//! under a concurrency cap, the job lifecycle, parsing of the extractor's
//! progress lines, a progress throttle, a time-boxed metadata cache, retry
//! with backoff, and the rules around them, each with its contract.

pub mod bignum;
pub mod cache;
pub mod checksums;
pub mod clock;
pub mod error;
pub mod error_handler;
pub mod executables;
pub mod metadata;
pub mod progress;
pub mod provider;
pub mod queue;
pub mod retry;
pub mod storage;
pub mod task;
pub mod text;
pub mod throttle;
pub mod url;
