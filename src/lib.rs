//! Download orchestration for a periodic disclosure archive: deciding which
//! records need fetching, classifying each fetch attempt, driving the bounded
//! retry policy, bounding concurrency, and tallying outcomes into a report.
pub mod record;
pub mod dedup;
pub mod retry;
pub mod fetch;
pub mod pool;
pub mod report;
pub mod run;
pub mod index;
pub mod dispatch;
pub mod paths;
