//! Deterministic execution core of a tick-driven show runtime.
//!
//! The crate is organised leaf-first: error and tick values, text helpers,
//! the message model, the transport contract, the component world, the
//! runtime loop, and the small collaborators that feed data into a world
//! before a tick or observe it afterwards.

pub mod ecs;
pub mod error;
pub mod osc;
pub mod runtime;
pub mod scripting;
pub mod shell;
pub mod store;
pub mod text;
pub mod tick;
pub mod timeline;
pub mod tmd;
pub mod transport;
pub mod web_admin;
