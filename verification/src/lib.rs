//! A verified decoder for a compact binary vector-animation tag stream,
//! flattening a timeline into per-frame display-list snapshots behind a
//! narrow, bounds-checked query layer for a resource-constrained host.

pub mod bits;
pub mod dlist;
pub mod host;
pub mod laws;
pub mod parse;
pub mod player;
pub mod replay;
pub mod tags;
