//! Core of a small always-on meal daemon: a rotating, weekday-dependent
//! serving-order state per floor, minute-aligned reminder dispatching, and a
//! fallback-capable two-generation snapshot of an externally sourced daily
//! menu dataset.
//!
//! Everything here is pure state and decision logic, verified with Verus.
//! The surrounding process (network fetches, persistence, the chat transport,
//! and the long-running loops) lives outside and hands this library plain
//! values.

pub mod clock;
pub mod menu;
pub mod reservation;
pub mod rotation;
pub mod schedule;
pub mod snapshot;
pub mod text;
