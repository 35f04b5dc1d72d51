//! Schedule management core for recurring push notifications.
//!
//! The library validates cron-style recurrence patterns, computes the next
//! qualifying execution instant, enforces ownership derived from a verified
//! bearer identity, and carries out the create/list/update/delete state
//! transitions over schedule records.

pub mod clock;
pub mod cron;
pub mod identity;
pub mod payload;
pub mod service;
pub mod store;
pub mod time;
