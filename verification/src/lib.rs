//! Core of a small 2D structure editor: a tool-mode state machine
//! (building vs. erasing), a placement engine that turns a held-pointer
//! signal into at-most-one spawn per press while suppressing spawns under
//! UI chrome, a topmost-wins erasure resolver over paired erase markers,
//! and a line-oriented text export of the placed items.
//!
//! Screen coordinates and stacking depths are carried as fixed-point
//! integers (thousandths of a pixel), so that geometry, ordering and the
//! truncating export arithmetic are all exact.

pub mod geom;
pub mod mode;
pub mod numfmt;
pub mod placement;
pub mod erasure;
mod rng;
pub mod session;
pub mod weight;
pub mod export;
