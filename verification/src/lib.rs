//! The bridge between a simulation of many entities and the one
//! presentation surface that shows a mirrored view of it.
//!
//! The bridge mirrors the plan documents of the simulation by their known
//! states, works out from a plan result and its actions the geometry that
//! previews a proposal, gathers the instances that the lanes report, and
//! keeps a keyed entry on the surface for everything that was built. It
//! neither sends nor draws: each event handler of [`bridge::BrowserUI`] hands
//! back the requests to send and the commands to carry out.

pub mod actions;
pub mod aggregate;
pub mod bridge;
pub mod history;
pub mod ident;
pub mod key;
pub mod keyed;
pub mod mesh;
pub mod mirror;
pub mod patch;
pub mod permanent;
pub mod preview;
pub mod proposal;
pub mod prototype;
pub mod request;
pub mod result;
pub mod view_state;

pub use bridge::{BrowserUI, Outbox};
pub use mesh::to_js_mesh;
