//! The SQLite-backed "pak" backend: reads a tile blob by `(x, y, z)` from a
//! sharded table, and the capabilities document from a fixed metadata table.
//!
//! Queries run through `rusqlite` on connections checked out of an `r2d2`
//! pool, behind trusted wrappers; every query outcome depends on the
//! database file's contents, which this layer does not model.  Table names
//! are built by verified code from already-parsed integers only.

use vstd::prelude::*;
use crate::TileError;
use crate::coords::pow2;
use crate::coords::pow2_exec;
use crate::coords::tms_row;
use crate::names::derive_name;
use crate::names::stem_spec;
use crate::paths::TileRequest;
use crate::paths::TileScheme;
use crate::paths::parse_spec;
use crate::paths::parse_tile_path;
use crate::shard::table_name;
use vstd::string::StringSliceAdditionalSpecFns;

verus! {

/// A pool of connections to one SQLite file, held opaquely: Verus cannot
/// declare `r2d2::Pool`'s trait-bounded type parameter, so the pool lives
/// behind this struct and is touched only by the trusted wrappers below.
#[verifier::external_body]
struct PakPool {
    inner: r2d2::Pool<r2d2_sqlite::SqliteConnectionManager>,
}

/// Relies on `std::path::Path::exists`: whether `path` names an existing
/// file or directory on disk right now.
#[verifier::external_body]
fn path_exists(path: &str) -> bool {
    std::path::Path::new(path).exists()
}

/// Relies on `r2d2_sqlite::SqliteConnectionManager::file` and
/// `r2d2::Pool::new`: builds a pool of connections to the SQLite database
/// at `path`; any failure to establish the pool is an I/O error.
#[verifier::external_body]
fn pool_new(path: &str) -> (r: Result<PakPool, TileError>)
    ensures
        r matches Err(e) ==> e == TileError::IOError,
{
    let manager = r2d2_sqlite::SqliteConnectionManager::file(path);
    match r2d2::Pool::new(manager) {
        Ok(pool) => Ok(PakPool { inner: pool }),
        Err(_) => Err(TileError::IOError),
    }
}

/// Relies on `r2d2::Pool::get` and `rusqlite::Connection::query_row`: runs
/// `select tile from <table> where x = ? and y = ? and z = ?` and returns
/// the blob of the single matching row.  No matching row is `NotFound`;
/// checkout failure, a missing table, or any other query failure is
/// `IOError`.
#[verifier::external_body]
fn query_tile_blob(pool: &PakPool, table: &str, x: u32, y: u32, z: u32) -> (r: Result<
    Vec<u8>,
    TileError,
>)
    ensures
        r matches Err(e) ==> e == TileError::NotFound || e == TileError::IOError,
{
    let conn = match pool.inner.get() {
        Ok(c) => c,
        Err(_) => return Err(TileError::IOError),
    };
    let sql = format!("select `tile` from {} where `x` = ? and `y` = ? and `z` = ?", table);
    match conn.query_row(&sql, (x, y, z), |row| row.get::<_, Vec<u8>>(0)) {
        Ok(blob) => Ok(blob),
        Err(rusqlite::Error::QueryReturnedNoRows) => Err(TileError::NotFound),
        Err(_) => Err(TileError::IOError),
    }
}

/// Relies on `r2d2::Pool::get` and `rusqlite::Connection::query_row`: runs
/// `select tmsxml from infos` and returns the single row's blob, the
/// capabilities document.  No row is `NotFound`; any other failure is
/// `IOError`.
#[verifier::external_body]
fn query_capabilities(pool: &PakPool) -> (r: Result<Vec<u8>, TileError>)
    ensures
        r matches Err(e) ==> e == TileError::NotFound || e == TileError::IOError,
{
    let conn = match pool.inner.get() {
        Ok(c) => c,
        Err(_) => return Err(TileError::IOError),
    };
    match conn.query_row("select tmsxml from infos", (), |row| row.get::<_, Vec<u8>>(0)) {
        Ok(blob) => Ok(blob),
        Err(rusqlite::Error::QueryReturnedNoRows) => Err(TileError::NotFound),
        Err(_) => Err(TileError::IOError),
    }
}

/// A tile set backed by one SQLite "pak" file.
///
/// Each read checks out its own connection, so one instance may serve
/// concurrent readers; nothing here takes `&mut self`.
pub struct DatabaseTileSource {
    name: String,
    pool: PakPool,
}

impl DatabaseTileSource {
    /// The derived tile-set name, as a sequence of characters.
    pub closed spec fn spec_name(&self) -> Seq<char> {
        self.name@
    }

    /// Opens the database at `path`, which must already exist; the tile
    /// set's name is the base name of `path` with its extension stripped.
    /// A path with no base name is a configuration error; a missing file is
    /// `NotFound`; a pool that cannot be established is an I/O error.
    pub fn new(path: &str) -> (r: Result<DatabaseTileSource, TileError>)
        ensures
            r matches Ok(s) ==> Some(s.spec_name()) == stem_spec(path@),
            stem_spec(path@) is None <==> r == Err::<DatabaseTileSource, TileError>(
                TileError::ConfigError,
            ),
            stem_spec(path@) is Some ==> (r matches Err(e) ==> e == TileError::NotFound || e
                == TileError::IOError),
    {
        let name = match derive_name(path) {
            Some(n) => n,
            None => {
                return Err(TileError::ConfigError);
            },
        };
        if !path_exists(path) {
            return Err(TileError::NotFound);
        }
        let pool = match pool_new(path) {
            Ok(p) => p,
            Err(e) => {
                return Err(e);
            },
        };
        Ok(DatabaseTileSource { name, pool })
    }

    /// The derived tile-set name.
    pub fn name(&self) -> (r: &String)
        ensures
            r@ == self.spec_name(),
    {
        &self.name
    }

    /// Reads the tile at TMS coordinates `(x, y)` and zoom `z` from the
    /// shard table `table_name_spec(z, x, y)` picks.  Whether a row exists
    /// is decided by the database's contents.
    pub fn read_tms(&self, x: u32, y: u32, z: u32) -> (r: Result<Vec<u8>, TileError>)
        ensures
            r matches Err(e) ==> e == TileError::NotFound || e == TileError::IOError,
    {
        let table = table_name(z, x, y);
        query_tile_blob(&self.pool, table.as_str(), x, y, z)
    }

    /// Reads the tile at XYZ coordinates `(x, y)` and zoom `z` by first
    /// flipping `y` to its TMS row.  A coordinate no grid of zoom `z` can
    /// hold — `z` above 31, or `y` at or past `2^z` — has no tile and is
    /// `NotFound`.
    pub fn read_xyz(&self, x: u32, y: u32, z: u32) -> (r: Result<Vec<u8>, TileError>)
        ensures
            z > 31 || y >= pow2(z as nat) ==> r == Err::<Vec<u8>, TileError>(TileError::NotFound),
            r matches Err(e) ==> e == TileError::NotFound || e == TileError::IOError,
    {
        if z > 31 {
            return Err(TileError::NotFound);
        }
        let rows = pow2_exec(z);
        if y as u64 >= rows {
            return Err(TileError::NotFound);
        }
        let y_tms = tms_row(z, y);
        self.read_tms(x, y_tms, z)
    }

    /// Serves one tail path: the capabilities document when the path names
    /// it, else the tile the path addresses, with XYZ rows flipped to TMS.
    /// A path that does not parse is `NotFound`.
    pub fn read(&self, path: &str) -> (r: Result<Vec<u8>, TileError>)
        ensures
            parse_spec(path.spec_bytes()) is Err ==> r == Err::<Vec<u8>, TileError>(
                TileError::NotFound,
            ),
            (match parse_spec(path.spec_bytes()) {
                Ok(TileRequest::Tile(a)) => a.scheme == TileScheme::Xyz && (a.zoom > 31 || a.y
                    >= pow2(a.zoom as nat)),
                _ => false,
            }) ==> r == Err::<Vec<u8>, TileError>(TileError::NotFound),
            r matches Err(e) ==> e == TileError::NotFound || e == TileError::IOError,
    {
        let req = match parse_tile_path(path) {
            Ok(q) => q,
            Err(_) => {
                return Err(TileError::NotFound);
            },
        };
        match req {
            TileRequest::Capabilities => query_capabilities(&self.pool),
            TileRequest::Tile(addr) => match addr.scheme {
                TileScheme::Tms => self.read_tms(addr.x, addr.y, addr.zoom),
                TileScheme::Xyz => self.read_xyz(addr.x, addr.y, addr.zoom),
            },
        }
    }
}

} // verus!
