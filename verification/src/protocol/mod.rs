//! Client/server protocol: metadata snapshot deltas and pane surface deltas.

pub mod field;
pub mod keyed;
pub mod tokens;
pub mod entity;
pub mod wire;
pub mod snapshot;
pub mod surface_wire;
pub mod surface;
pub mod codec;
