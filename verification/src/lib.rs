//! Session scheduling and real-time synchronization for a venue backend.
//!
//! The library models a document store of screening sessions, enforces the
//! temporal invariant that two sessions in one hall never overlap, and fans
//! mutation results out to every registered subscriber of a broadcast hub.
//! Every function is verified against its stated contract.

pub mod codec;
pub mod dispatch;
pub mod errors;
pub mod hub;
pub mod ids;
pub mod models;
pub mod pipeline;
pub mod store;
pub mod timefmt;
