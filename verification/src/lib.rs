//! Verified core of the Soroban event service: validation and construction
//! of aggregation queries, paging and outcomes of stored queries, and the
//! decisions and texts of SMS alerts.

pub mod aggregation;
pub mod error;
pub mod saved_queries;
pub mod sms;
pub mod text;
