//! A verified core for a map-tile server.
//!
//! Tiles live in read-only archives of two kinds: a ZIP container addressed
//! by internal entry path, and a SQLite-backed "pak" container addressed by
//! `(zoom, x, y)` coordinates, sharded over several tables at high zoom
//! levels.  This crate holds the coordinate codec, the tile-path parser, the
//! two backends, and the registry that maps a tile-set name to its backend.

pub mod archive;
pub mod coords;
pub mod database;
pub mod names;
pub mod paths;
pub mod registry;
pub mod shard;

use vstd::prelude::*;

verus! {

/// Failure of a tile read, as surfaced to the dispatch layer.
#[derive(Clone, Copy, Debug, PartialEq, Eq, Structural)]
pub enum TileError {
    /// The requested tile set, archive entry, or database row does not exist,
    /// or the request path could not be parsed.
    NotFound,
    /// The backend failed to read: archive decompression, connection
    /// checkout, or query execution went wrong.
    IOError,
    /// Startup-time failure: an archive file name that is not valid text.
    ConfigError,
}

} // verus!
