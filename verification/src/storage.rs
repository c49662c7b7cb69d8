//! Stores of rendered tiles: the file system store of meta tiles, which keeps
//! the meta tiles it read, and a memcached store that holds no tiles yet.

use vstd::prelude::*;
use crate::handler::context::HandleContext;
use crate::meta_tile::{
    entry_offset, entry_size, magic_encoding, meta_tile_error, meta_tile_path, meta_tile_valid, tile_offset, MetaTile,
    TileOffsetOutOfBoundsError, TilePath, META_TILE_COUNT,
};
use crate::slippy::TileReadError;
use crate::tile::{MediaType, TileIdentity, TileRef};

verus! {

/// A store that tiles are read from. A store keeps the reads it answered:
/// the tile asked for and the answer, in order.
pub trait TileStorage {
    /// The reads the store answered, in order.
    spec fn reads(&self) -> Seq<(TileIdentity, Result<TileRef, TileReadError>)>;

    /// Reads the tile `id`.
    fn read_tile(&mut self, context: &HandleContext, id: &TileIdentity) -> (r: Result<TileRef, TileReadError>)
        ensures
            final(self).reads() == old(self).reads().push((*id, r)),
    ;

    /// Releases what the store no longer needs.
    fn clean_up(&mut self)
        ensures
            final(self).reads() == old(self).reads(),
    ;
}

/// A memcached store; it holds no tiles yet.
pub struct Memcached {
    reads: Ghost<Seq<(TileIdentity, Result<TileRef, TileReadError>)>>,
}

impl Memcached {
    /// A store that answered no read yet.
    pub fn new() -> (m: Memcached)
        ensures
            m.reads() == Seq::<(TileIdentity, Result<TileRef, TileReadError>)>::empty(),
    {
        Memcached { reads: Ghost(Seq::empty()) }
    }

    /// The answer of the store to a read of the tile `id`: not found, at the
    /// path the tile would have in the configured store.
    pub fn lookup(&self, context: &HandleContext, id: &TileIdentity) -> (r: Result<TileRef, TileReadError>)
        ensures
            r matches Err(TileReadError::NotFound(path))
                && path@ == meta_tile_path(context.module_config.renderd.store_uri@, *id),
    {
        let path = MetaTile::identity_to_path(context.module_config, id);
        Err(TileReadError::NotFound(path.meta_tile_path))
    }
}

impl TileStorage for Memcached {
    closed spec fn reads(&self) -> Seq<(TileIdentity, Result<TileRef, TileReadError>)> {
        self.reads@
    }

    fn read_tile(&mut self, context: &HandleContext, id: &TileIdentity) -> (r: Result<TileRef, TileReadError>)
        ensures
            r matches Err(TileReadError::NotFound(path))
                && path@ == meta_tile_path(context.module_config.renderd.store_uri@, *id),
    {
        let r = self.lookup(context, id);
        self.reads = Ghost(self.reads@.push((*id, r)));
        r
    }

    fn clean_up(&mut self) {
    }
}

/// Why a file could not be read.
#[derive(Clone, Debug, PartialEq, Eq)]
pub enum FileReadError {
    /// There is no file at the path.
    NotFound,
    /// The file could not be read, with what the system said.
    Io(String),
}

/// Where the bytes of meta tile files come from.
pub trait MetaTileFiles {
    /// The bytes of the file at `path`.
    fn read_file(&mut self, path: &str) -> Result<Vec<u8>, FileReadError>;
}

/// Meta tiles kept beyond this many are released by `clean_up`.
pub const MAX_CACHE_SIZE: usize = 1024;

/// The file system store: every read reads the meta tile file of the tile,
/// checks it, keeps it under its path, and picks the tile out of it.
pub struct FileSystem<F: MetaTileFiles> {
    files: F,
    cache: Vec<(String, MetaTile)>,
    file_reads: Ghost<Seq<(Seq<char>, Result<Seq<u8>, FileReadError>)>>,
    reads: Ghost<Seq<(TileIdentity, Result<TileRef, TileReadError>)>>,
}

/// The kept meta tiles, each as its path and the bytes of its file.
pub open spec fn kept_view(cache: Seq<(String, MetaTile)>) -> Seq<(Seq<char>, Seq<u8>)> {
    cache.map_values(|e: (String, MetaTile)| (e.0@, e.1.bytes()))
}

/// `i` is the first position of `kept` that holds the path `path`.
pub open spec fn first_with(kept: Seq<(Seq<char>, Seq<u8>)>, path: Seq<char>, i: int) -> bool {
    &&& 0 <= i < kept.len()
    &&& kept[i].0 == path
    &&& forall|j: int| 0 <= j < i ==> kept[j].0 != path
}

/// The kept meta tiles once the meta tile file `bytes` is kept under `path`:
/// it takes the place of the one kept under the same path, or comes last.
pub open spec fn kept_with(kept: Seq<(Seq<char>, Seq<u8>)>, path: Seq<char>, bytes: Seq<u8>) -> Seq<(Seq<char>, Seq<u8>)> {
    if exists|i: int| first_with(kept, path, i) {
        kept.update(choose|i: int| first_with(kept, path, i), (path, bytes))
    } else {
        kept.push((path, bytes))
    }
}

/// The tile at `offset` of the meta tile file `bytes`: its bytes, the range
/// its index entry gives, PNG and the encoding the magic names.
pub open spec fn tile_of_file(t: TileRef, bytes: Seq<u8>, offset: int) -> bool {
    &&& t.bytes() == bytes
    &&& t.begin == entry_offset(bytes, offset) as usize
    &&& t.end == (entry_offset(bytes, offset) + entry_size(bytes, offset)) as usize
    &&& t.media_type == MediaType::ImagePng
    &&& magic_encoding(bytes) == Some(t.encoding)
}

/// The answer to the read of the tile at `offset` of the meta tile file at
/// `path`, given what reading the file gave: a missing file is not found at
/// its path; a failed read passes on its message; a file that is no meta
/// tile is refused as `meta_tile_error` says; else the tile at the offset,
/// when the meta tile has one.
pub open spec fn answered(
    read: Result<Seq<u8>, FileReadError>,
    path: Seq<char>,
    offset: int,
    r: Result<TileRef, TileReadError>,
) -> bool {
    match read {
        Err(FileReadError::NotFound) => r matches Err(TileReadError::NotFound(p)) && p@ == path,
        Err(FileReadError::Io(message)) => r == Err::<TileRef, TileReadError>(TileReadError::Io(message)),
        Ok(bytes) => if !meta_tile_valid(bytes) {
            r matches Err(TileReadError::InvalidMetaTile(e)) && meta_tile_error(bytes, e)
        } else if offset < META_TILE_COUNT {
            r matches Ok(t) && tile_of_file(t, bytes, offset)
        } else {
            r == Err::<TileRef, TileReadError>(
                TileReadError::TileOffsetOutOfBounds(TileOffsetOutOfBoundsError { tile_offset: offset as u32 }),
            )
        },
    }
}

/// The kept meta tiles once reading the file at `path` gave `read`: a meta
/// tile file is kept under its path, anything else changes nothing.
pub open spec fn kept_after(
    kept: Seq<(Seq<char>, Seq<u8>)>,
    read: Result<Seq<u8>, FileReadError>,
    path: Seq<char>,
) -> Seq<(Seq<char>, Seq<u8>)> {
    match read {
        Ok(bytes) => if meta_tile_valid(bytes) {
            kept_with(kept, path, bytes)
        } else {
            kept
        },
        Err(_) => kept,
    }
}

/// What a read of a file gave, as values.
pub open spec fn read_view(read: Result<Vec<u8>, FileReadError>) -> Result<Seq<u8>, FileReadError> {
    match read {
        Ok(bytes) => Ok(bytes@),
        Err(e) => Err(e),
    }
}

impl<F: MetaTileFiles> FileSystem<F> {
    /// Where the store reads its files from.
    pub closed spec fn source(&self) -> F {
        self.files
    }

    /// The meta tiles kept, each as its path and the bytes of its file, in
    /// the order they were first kept.
    pub closed spec fn kept(&self) -> Seq<(Seq<char>, Seq<u8>)> {
        kept_view(self.cache@)
    }

    /// The files the store read, in order: each path handed to the source,
    /// with what the source gave back.
    pub closed spec fn file_reads(&self) -> Seq<(Seq<char>, Result<Seq<u8>, FileReadError>)> {
        self.file_reads@
    }

    /// A store reading its files from `files`, keeping nothing yet.
    pub fn new(files: F) -> (s: FileSystem<F>)
        ensures
            s.source() == files,
            s.kept() == Seq::<(Seq<char>, Seq<u8>)>::empty(),
            s.file_reads() == Seq::<(Seq<char>, Result<Seq<u8>, FileReadError>)>::empty(),
            s.reads() == Seq::<(TileIdentity, Result<TileRef, TileReadError>)>::empty(),
    {
        let s = FileSystem { files, cache: Vec::new(), file_reads: Ghost(Seq::empty()), reads: Ghost(Seq::empty()) };
        assert(s.kept() =~= Seq::<(Seq<char>, Seq<u8>)>::empty());
        s
    }

    /// Where the store reads its files from.
    pub fn files(&self) -> (f: &F)
        ensures
            *f == self.source(),
    {
        &self.files
    }

    /// The number of meta tiles kept.
    pub fn cache_len(&self) -> (n: usize)
        ensures
            n == self.kept().len(),
    {
        self.cache.len()
    }

    /// Reads the file at `path` from the source, and records the read.
    fn read_file(&mut self, path: &str) -> (r: Result<Vec<u8>, FileReadError>)
        ensures
            final(self).file_reads() == old(self).file_reads().push((path@, read_view(r))),
            final(self).kept() == old(self).kept(),
            final(self).reads() == old(self).reads(),
    {
        let r = self.files.read_file(path);
        self.file_reads = Ghost(self.file_reads@.push((path@, read_view(r))));
        r
    }

    /// Keeps `meta_tile` under `path`, in place of one kept under the same
    /// path, and gives its position.
    fn keep(&mut self, path: String, meta_tile: MetaTile) -> (i: usize)
        ensures
            i < final(self).cache@.len(),
            final(self).cache@[i as int].1 == meta_tile,
            final(self).reads == old(self).reads,
            final(self).file_reads == old(self).file_reads,
            final(self).files == old(self).files,
            kept_view(final(self).cache@) == kept_with(kept_view(old(self).cache@), path@, meta_tile.bytes()),
    {
        let ghost before = kept_view(self.cache@);
        let ghost entry = (path@, meta_tile.bytes());
        let mut k: usize = 0;
        while k < self.cache.len()
            invariant
                k <= self.cache@.len(),
                before == kept_view(self.cache@),
                before == kept_view(old(self).cache@),
                entry == (path@, meta_tile.bytes()),
                forall|j: int| 0 <= j < k ==> self.cache@[j].0@ != path@,
                self.reads == old(self).reads,
                self.file_reads == old(self).file_reads,
                self.files == old(self).files,
            decreases self.cache@.len() - k,
        {
            if self.cache[k].0 == path {
                let ghost p = path@;
                self.cache.set(k, (path, meta_tile));
                proof {
                    assert(first_with(before, p, k as int));
                    assert forall|i: int| first_with(before, p, i) implies i == k by {
                        if i < k {
                            assert(before[i].0 == self.cache@[i].0@);
                        } else if i > k {
                            assert(before[k as int].0 == p);
                        }
                    }
                    assert(kept_view(self.cache@) =~= before.update(k as int, entry));
                }
                return k;
            }
            k = k + 1;
        }
        self.cache.push((path, meta_tile));
        proof {
            assert forall|i: int| !first_with(before, entry.0, i) by {
                if 0 <= i < before.len() {
                    assert(before[i].0 == old(self).cache@[i].0@);
                }
            }
            assert(kept_view(self.cache@) =~= before.push(entry));
        }
        self.cache.len() - 1
    }

    /// Answers the read of the tile at `path` given what reading its meta
    /// tile file gave, as `answered` says, and keeps the meta tile it read,
    /// as `kept_after` says.
    pub fn tile_from_file(&mut self, read: Result<Vec<u8>, FileReadError>, path: TilePath) -> (r: Result<TileRef, TileReadError>)
        ensures
            answered(read_view(read), path.meta_tile_path@, path.tile_offset as int, r),
            final(self).kept() == kept_after(old(self).kept(), read_view(read), path.meta_tile_path@),
            final(self).file_reads() == old(self).file_reads(),
            final(self).reads() == old(self).reads(),
            final(self).source() == old(self).source(),
    {
        match read {
            Err(FileReadError::NotFound) => Err(TileReadError::NotFound(path.meta_tile_path)),
            Err(FileReadError::Io(message)) => Err(TileReadError::Io(message)),
            Ok(bytes) => {
                let ghost raw = bytes@;
                match MetaTile::from_bytes(bytes) {
                    Err(e) => Err(TileReadError::InvalidMetaTile(e)),
                    Ok(meta_tile) => {
                        let i = self.keep(path.meta_tile_path, meta_tile);
                        match self.cache[i].1.select(path.tile_offset) {
                            Ok(t) => Ok(t),
                            Err(e) => Err(TileReadError::TileOffsetOutOfBounds(e)),
                        }
                    },
                }
            },
        }
    }
}

impl<F: MetaTileFiles> TileStorage for FileSystem<F> {
    closed spec fn reads(&self) -> Seq<(TileIdentity, Result<TileRef, TileReadError>)> {
        self.reads@
    }

    /// Reads the meta tile file of the tile `id`, once, at its path in the
    /// configured store, and answers with what it held, as `tile_from_file` does.
    fn read_tile(&mut self, context: &HandleContext, id: &TileIdentity) -> (r: Result<TileRef, TileReadError>)
        ensures
            final(self).file_reads().len() == old(self).file_reads().len() + 1,
            final(self).file_reads().drop_last() == old(self).file_reads(),
            final(self).file_reads().last().0 == meta_tile_path(context.module_config.renderd.store_uri@, *id),
            answered(final(self).file_reads().last().1, meta_tile_path(context.module_config.renderd.store_uri@, *id),
                tile_offset(id.x, id.y), r),
            final(self).kept() == kept_after(old(self).kept(), final(self).file_reads().last().1,
                meta_tile_path(context.module_config.renderd.store_uri@, *id)),
    {
        let path = MetaTile::identity_to_path(context.module_config, id);
        let read = self.read_file(path.meta_tile_path.as_str());
        let r = self.tile_from_file(read, path);
        self.reads = Ghost(self.reads@.push((*id, r)));
        r
    }

    /// Keeps the last `MAX_CACHE_SIZE` meta tiles read, releasing the earlier ones.
    fn clean_up(&mut self)
        ensures
            final(self).kept().len() <= MAX_CACHE_SIZE,
            final(self).kept() == if old(self).kept().len() > MAX_CACHE_SIZE {
                old(self).kept().subrange(old(self).kept().len() - MAX_CACHE_SIZE, old(self).kept().len() as int)
            } else {
                old(self).kept()
            },
            final(self).file_reads() == old(self).file_reads(),
    {
        let len = self.cache.len();
        if len > MAX_CACHE_SIZE {
            let excess_count = len - MAX_CACHE_SIZE;
            let ghost before = self.cache@;
            let kept = self.cache.split_off(excess_count);
            self.cache = kept;
            proof {
                assert(self.cache@ =~= before.subrange(excess_count as int, len as int));
                assert(kept_view(self.cache@) =~= kept_view(before).subrange(excess_count as int, len as int));
            }
        }
    }
}

} // verus!
