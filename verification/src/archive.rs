//! The ZIP-container backend: reads a tile by the exact internal entry name.
//!
//! The container is read through the `zip` crate behind trusted wrappers; the
//! reader `R` is supplied by the caller (a file handle, or an in-memory
//! buffer), so this module performs no file I/O of its own.

use vstd::prelude::*;
use crate::TileError;
use crate::names::derive_name;
use crate::names::stem_spec;

verus! {

#[verifier::external_type_specification]
#[verifier::external_body]
#[verifier::reject_recursive_types(R)]
pub struct ExZipArchive<R>(zip::ZipArchive<R>);

/// Relies on `zip::ZipArchive::new`: parses the container's central
/// directory from the reader; any failure means the container is unusable.
#[verifier::external_body]
fn zip_archive_new<R: std::io::Read + std::io::Seek>(reader: R) -> (r: Result<
    zip::ZipArchive<R>,
    TileError,
>)
    ensures
        r matches Err(e) ==> e == TileError::IOError,
{
    match zip::ZipArchive::new(reader) {
        Ok(a) => Ok(a),
        Err(_) => Err(TileError::IOError),
    }
}

/// Relies on `zip::ZipArchive::by_name` and `std::io::Read::read_to_end`:
/// finds the entry whose name equals `name` exactly, decompresses it, and
/// returns its full contents; `ZipError::FileNotFound` means no such entry.
#[verifier::external_body]
fn zip_read_entry<R: std::io::Read + std::io::Seek>(
    archive: &mut zip::ZipArchive<R>,
    name: &str,
) -> (r: Result<Vec<u8>, TileError>)
    ensures
        r matches Err(e) ==> e == TileError::NotFound || e == TileError::IOError,
{
    let mut entry = match archive.by_name(name) {
        Ok(e) => e,
        Err(zip::result::ZipError::FileNotFound) => return Err(TileError::NotFound),
        Err(_) => return Err(TileError::IOError),
    };
    let mut buffer = Vec::new();
    match std::io::Read::read_to_end(&mut entry, &mut buffer) {
        Ok(_) => Ok(buffer),
        Err(_) => Err(TileError::IOError),
    }
}

/// A tile set backed by one open ZIP container.
///
/// Reading moves the container's internal cursor, so `read` takes `&mut
/// self`: one instance must not be read from two threads at once.
#[verifier::reject_recursive_types(R)]
pub struct ArchiveTileSource<R> {
    name: String,
    archive: zip::ZipArchive<R>,
}

impl<R> ArchiveTileSource<R> {
    /// The derived tile-set name, as a sequence of characters.
    pub closed spec fn spec_name(&self) -> Seq<char> {
        self.name@
    }
}

impl<R: std::io::Read + std::io::Seek> ArchiveTileSource<R> {
    /// Opens the container held by `reader`; the tile set's name is the base
    /// name of `path` with its extension stripped.
    pub fn new(path: &str, reader: R) -> (r: Result<ArchiveTileSource<R>, TileError>)
        ensures
            r matches Ok(s) ==> Some(s.spec_name()) == stem_spec(path@),
            stem_spec(path@) is None <==> r == Err::<ArchiveTileSource<R>, TileError>(
                TileError::ConfigError,
            ),
            r matches Err(e) ==> e == TileError::ConfigError || e == TileError::IOError,
    {
        let name = match derive_name(path) {
            Some(n) => n,
            None => {
                return Err(TileError::ConfigError);
            },
        };
        let archive = match zip_archive_new(reader) {
            Ok(a) => a,
            Err(e) => {
                return Err(e);
            },
        };
        Ok(ArchiveTileSource { name, archive })
    }

    /// The derived tile-set name.
    pub fn name(&self) -> (r: &String)
        ensures
            r@ == self.spec_name(),
    {
        &self.name
    }

    /// Returns the stored bytes of the entry named exactly `path`;
    /// `NotFound` when no entry has that name.  The outcome is decided by
    /// the container's contents, which this layer does not model.
    pub fn read(&mut self, path: &str) -> (r: Result<Vec<u8>, TileError>)
        ensures
            final(self).spec_name() == old(self).spec_name(),
            r matches Err(e) ==> e == TileError::NotFound || e == TileError::IOError,
    {
        zip_read_entry(&mut self.archive, path)
    }
}

} // verus!
