//! Core logic of a school meal-rating service: a session store with a
//! single-session-per-user rule, role-based authorization, calendar-day
//! windowing of timestamps, rating aggregation, and a daily attendance
//! application registry.

pub mod api;
pub mod apply;
pub mod auth;
pub mod clock;
pub mod error;
pub mod laws;
pub mod rating;
pub mod store;
pub mod token;
