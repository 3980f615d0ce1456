//! Core state engine of a terminal system monitor: fixed-depth time-series
//! buffers, rate computation from cumulative counters, per-identity stat
//! histories, inventory-listing parsers, a selection state machine, and the
//! session that ties a sampling tick together.
//!
//! Everything here is pure with respect to the outside world: reading the
//! host counters, invoking the listing tools and drawing the screen live in
//! the surrounding binary, which hands this crate plain values and acts on
//! the requests it returns.

pub mod dialog;
pub mod history;
pub mod inventory;
pub mod rate;
pub mod ring;
pub mod select;
pub mod session;
pub mod text;
