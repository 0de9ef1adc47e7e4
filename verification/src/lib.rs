//! A quotation-management service core, verified with Verus.
//!
//! The crate holds the service layer of a quote backend: request
//! validation, a denylist-based content moderation filter, and a quote
//! repository with pagination, case-insensitive search, lookup by id and
//! random selection, together with the connection-pool lifecycle rules.
//! An HTTP front end is expected to sit on top of it and only shuttle
//! plain values in and out.

pub mod moderation;
pub mod pool;
pub mod quote;
pub mod service;
pub mod store;
pub mod text;
