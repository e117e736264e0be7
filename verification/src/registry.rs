//! The registry: a mapping from tile-set name to backend, and the dispatch
//! step that serves one request from it.
//!
//! Names are unique; registering a name again replaces its backend (last
//! writer wins).  Dispatch looks the name up, delegates to the backend's
//! read, and classifies the content type of the response from the tail
//! path's suffix.  Every backend failure is flattened to "no tile here":
//! callers cannot tell a missing tile set from a missing tile.

use vstd::prelude::*;
use vstd::string::StringSliceAdditionalSpecFns;
use crate::TileError;
use crate::archive::ArchiveTileSource;
use crate::database::DatabaseTileSource;
use crate::names::str_eq;
use crate::paths::parse_spec;
use crate::paths::slice_matches_at;
use crate::paths::matches_at;

verus! {

/// One registered backend: a ZIP container or a SQLite "pak" database.
#[verifier::reject_recursive_types(R)]
pub enum TileSource<R> {
    Archive(ArchiveTileSource<R>),
    Database(DatabaseTileSource),
}

impl<R> TileSource<R> {
    /// The tile-set name this backend was registered under.
    pub open spec fn spec_name(&self) -> Seq<char> {
        match self {
            TileSource::Archive(a) => a.spec_name(),
            TileSource::Database(d) => d.spec_name(),
        }
    }
}

impl<R: std::io::Read + std::io::Seek> TileSource<R> {
    /// Serves one tail path from this backend.  A database backend rejects
    /// a path that does not parse with `NotFound`; an archive backend
    /// looks the path up verbatim.
    pub fn read(&mut self, path: &str) -> (r: Result<Vec<u8>, TileError>)
        ensures
            final(self).spec_name() == old(self).spec_name(),
            old(self) matches TileSource::Database(_) && parse_spec(path.spec_bytes()) is Err
                ==> r == Err::<Vec<u8>, TileError>(TileError::NotFound),
            old(self) matches TileSource::Database(_) ==> *final(self) == *old(self),
            r matches Err(e) ==> e == TileError::NotFound || e == TileError::IOError,
    {
        match self {
            TileSource::Archive(a) => a.read(path),
            TileSource::Database(d) => d.read(path),
        }
    }
}

/// `suffix` ends `s`.
pub open spec fn ends_with(s: Seq<u8>, suffix: Seq<u8>) -> bool {
    suffix.len() <= s.len() && s.subrange(s.len() - suffix.len(), s.len() as int) == suffix
}

/// The content type served for a tail path, by its suffix: `.json`, `.xml`,
/// `.jpg` and `.png` map to their types, anything else to a byte stream.
pub open spec fn content_type_spec(path: Seq<u8>) -> Seq<char> {
    if ends_with(path, ".json".spec_bytes()) {
        "application/json"@
    } else if ends_with(path, ".xml".spec_bytes()) {
        "application/xml"@
    } else if ends_with(path, ".jpg".spec_bytes()) {
        "image/jpg"@
    } else if ends_with(path, ".png".spec_bytes()) {
        "image/png"@
    } else {
        "application/octet-stream"@
    }
}

/// Whether `suffix` ends `s`.
fn bytes_end_with(s: &[u8], suffix: &[u8]) -> (r: bool)
    ensures
        r == ends_with(s@, suffix@),
{
    let n = suffix.len();
    let m = s.len();
    if n > m {
        return false;
    }
    let r = slice_matches_at(s, suffix, m - n);
    proof {
        assert(matches_at(s@, suffix@, m - n) == ends_with(s@, suffix@));
    }
    r
}

/// The content type for a tail path, from its suffix.
pub fn content_type_of(path: &str) -> (r: &'static str)
    ensures
        r@ == content_type_spec(path.spec_bytes()),
{
    let b = path.as_bytes();
    if bytes_end_with(b, ".json".as_bytes()) {
        "application/json"
    } else if bytes_end_with(b, ".xml".as_bytes()) {
        "application/xml"
    } else if bytes_end_with(b, ".jpg".as_bytes()) {
        "image/jpg"
    } else if bytes_end_with(b, ".png".as_bytes()) {
        "image/png"
    } else {
        "application/octet-stream"
    }
}

/// The tile-set registry: tile-set names, each with its backend.
///
/// Populated once at startup and read on every request; names are unique.
#[verifier::reject_recursive_types(R)]
pub struct Registry<R> {
    entries: Vec<(String, TileSource<R>)>,
}

impl<R> Registry<R> {
    /// The registered names, in registration order.
    pub closed spec fn names(self) -> Seq<Seq<char>> {
        self.entries@.map_values(|e: (String, TileSource<R>)| e.0@)
    }

    /// `n` is a registered name.
    pub open spec fn contains_name(self, n: Seq<char>) -> bool {
        self.names().contains(n)
    }

    /// Registered names are unique.
    pub closed spec fn wf(self) -> bool {
        forall|i: int, j: int|
            0 <= i < j < self.names().len() ==> #[trigger] self.names()[i]
                != #[trigger] self.names()[j]
    }

    /// The position of name `n`.
    pub closed spec fn index_of_name(self, n: Seq<char>) -> int {
        choose|i: int| 0 <= i < self.names().len() && self.names()[i] == n
    }

    /// The backend registered under name `n`.
    pub closed spec fn source_of(self, n: Seq<char>) -> TileSource<R> {
        self.entries@[self.index_of_name(n)].1
    }

    /// An empty registry.
    pub fn new() -> (r: Registry<R>)
        ensures
            r.wf(),
            r.names() == Seq::<Seq<char>>::empty(),
    {
        let r = Registry { entries: Vec::new() };
        proof {
            assert(r.names() =~= Seq::<Seq<char>>::empty());
        }
        r
    }

    /// Finds the position of `name`, if registered.
    fn find(&self, name: &str) -> (r: Option<usize>)
        requires
            self.wf(),
        ensures
            match r {
                Some(i) => i < self.entries@.len() && self.names()[i as int] == name@,
                None => !self.contains_name(name@),
            },
    {
        let n = self.entries.len();
        let mut i: usize = 0;
        while i < n
            invariant
                i <= n == self.entries@.len(),
                forall|j: int| 0 <= j < i ==> self.names()[j] != name@,
            decreases n - i,
        {
            let e = &self.entries[i];
            if str_eq(e.0.as_str(), name) {
                proof {
                    assert(self.names()[i as int] == e.0@);
                }
                return Some(i);
            }
            proof {
                assert(self.names()[i as int] == e.0@);
            }
            i = i + 1;
        }
        proof {
            assert(forall|j: int| 0 <= j < self.names().len() ==> self.names()[j] != name@);
        }
        None
    }

    /// Registers `source` under `name`; a backend already registered under
    /// the same name is replaced, silently: the last writer wins.
    pub fn register(&mut self, name: String, source: TileSource<R>)
        requires
            old(self).wf(),
        ensures
            final(self).wf(),
            final(self).contains_name(name@),
            final(self).source_of(name@) == source,
            forall|m: Seq<char>|
                m != name@ ==> (final(self).contains_name(m) <==> old(self).contains_name(m)),
            forall|m: Seq<char>|
                m != name@ && old(self).contains_name(m) ==> final(self).source_of(m) == old(
                    self,
                ).source_of(m),
    {
        let found = self.find(name.as_str());
        match found {
            Some(i) => {
                self.entries[i] = (name, source);
                proof {
                    assert(self.names() =~= old(self).names().update(i as int, name@));
                    assert(old(self).names()[i as int] == name@);
                    assert(self.names() =~= old(self).names());
                    lemma_unique_index(*self, name@, i as int);
                    assert(forall|m: Seq<char>| #![auto]
                        self.contains_name(m) <==> old(self).contains_name(m));
                    assert forall|m: Seq<char>| m != name@ && old(self).contains_name(m)
                        implies self.source_of(m) == old(self).source_of(m) by {
                        let k = choose|k: int|
                            0 <= k < old(self).names().len() && old(self).names()[k] == m;
                        lemma_unique_index(*old(self), m, k);
                        lemma_unique_index(*self, m, k);
                        assert(self.entries@[k].1 == old(self).entries@[k].1);
                    }
                }
            },
            None => {
                let ghost pre = *self;
                self.entries.push((name, source));
                proof {
                    assert(self.names() =~= pre.names().push(name@));
                    assert(forall|j: int|
                        0 <= j < pre.names().len() ==> #[trigger] self.names()[j] == pre.names()[j]);
                    assert(self.names().last() == name@);
                    lemma_unique_index(*self, name@, pre.names().len() as int);
                    assert forall|m: Seq<char>| m != name@ && pre.contains_name(m)
                        implies self.source_of(m) == pre.source_of(m) by {
                        let k = choose|k: int|
                            0 <= k < pre.names().len() && pre.names()[k] == m;
                        lemma_unique_index(pre, m, k);
                        assert(self.names()[k] == m);
                        lemma_unique_index(*self, m, k);
                        assert(self.entries@[k].1 == pre.entries@[k].1);
                    }
                    assert forall|m: Seq<char>| m != name@ implies (self.contains_name(m)
                        <==> pre.contains_name(m)) by {
                        if self.contains_name(m) {
                            let k = choose|k: int|
                                0 <= k < self.names().len() && self.names()[k] == m;
                            if k < pre.names().len() {
                                assert(pre.names()[k] == m);
                            } else {
                                assert(self.names()[k] == name@);
                            }
                        }
                        if pre.contains_name(m) {
                            let k = choose|k: int|
                                0 <= k < pre.names().len() && pre.names()[k] == m;
                            assert(self.names()[k] == m);
                        }
                    }
                }
            },
        }
    }

}

impl<R: std::io::Read + std::io::Seek> Registry<R> {
    /// Serves one request: looks `name` up, reads `path` from its backend,
    /// and tags the body with the content type for `path`.  An unregistered
    /// name, and every backend failure, is `None` — "no such tile".  The
    /// mapping itself never changes: no name appears or disappears, no other
    /// name's backend is touched, and the dispatched backend keeps its name
    /// (a database backend is left entirely as it was; only an archive
    /// backend's read cursor may move).
    pub fn dispatch(&mut self, name: &str, path: &str) -> (r: Option<(Vec<u8>, &'static str)>)
        requires
            old(self).wf(),
        ensures
            final(self).wf(),
            final(self).names() == old(self).names(),
            !old(self).contains_name(name@) ==> r is None && *final(self) == *old(self),
            r matches Some(p) ==> p.1@ == content_type_spec(path.spec_bytes()),
            old(self).contains_name(name@) && (old(self).source_of(name@) matches
                TileSource::Database(_)) && parse_spec(path.spec_bytes()) is Err ==> r is None,
            forall|m: Seq<char>|
                m != name@ && old(self).contains_name(m) ==> final(self).source_of(m) == old(
                    self,
                ).source_of(m),
            old(self).contains_name(name@) ==> final(self).source_of(name@).spec_name() == old(
                self,
            ).source_of(name@).spec_name(),
            old(self).contains_name(name@) && (old(self).source_of(name@) matches
                TileSource::Database(_)) ==> final(self).source_of(name@) == old(self).source_of(
                name@,
            ),
    {
        let found = self.find(name);
        let i = match found {
            Some(i) => i,
            None => {
                return None;
            },
        };
        proof {
            lemma_unique_index(*old(self), name@, i as int);
        }
        let (set_name, mut source) = self.entries.remove(i);
        proof {
            assert(source == old(self).source_of(name@));
        }
        let res = source.read(path);
        self.entries.insert(i, (set_name, source));
        proof {
            assert forall|k: int|
                0 <= k < self.entries@.len() && k != i implies #[trigger] self.entries@[k] == old(
                self,
            ).entries@[k] by {
                if k < i {
                    assert(self.entries@[k] == old(self).entries@.remove(i as int)[k]);
                } else {
                    assert(self.entries@[k] == old(self).entries@.remove(i as int)[k - 1]);
                }
            }
            assert(self.names() =~= old(self).names());
            assert(self.entries@[i as int].1 == source);
            lemma_unique_index(*self, name@, i as int);
            assert forall|m: Seq<char>| m != name@ && old(self).contains_name(m)
                implies self.source_of(m) == old(self).source_of(m) by {
                let k = choose|k: int|
                    0 <= k < old(self).names().len() && old(self).names()[k] == m;
                lemma_unique_index(*old(self), m, k);
                lemma_unique_index(*self, m, k);
            }
        }
        match res {
            Ok(body) => Some((body, content_type_of(path))),
            Err(_) => None,
        }
    }
}

/// With unique names, any index holding `n` is the index `index_of_name`
/// picks.
proof fn lemma_unique_index<R>(r: Registry<R>, n: Seq<char>, i: int)
    requires
        r.wf(),
        0 <= i < r.names().len(),
        r.names()[i] == n,
    ensures
        r.index_of_name(n) == i,
        r.contains_name(n),
{
    assert(r.names()[i] == n);
    let j = r.index_of_name(n);
    if j != i {
        assert(0 <= j < r.names().len() && r.names()[j] == n);
    }
}

} // verus!
