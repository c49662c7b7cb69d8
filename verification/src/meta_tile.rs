//! The meta tile store: where the meta tile holding a tile lives, how a meta
//! tile file is laid out, and how one tile is picked out of it.
//!
//! A meta tile file starts with a header of 20 bytes: the four magic bytes
//! `META` (plain tiles) or `METZ` (gzip compressed tiles), then the tile count,
//! and the `x`, `y` and `z` of the meta tile, each a little-endian 32-bit
//! integer. An index of one entry per tile follows, each entry the offset and
//! the size of the tile as little-endian 32-bit integers; the tiles follow.

use vstd::prelude::*;
use vstd::utf8::{decode_utf8, valid_utf8};
use vstd::string::*;
use std::rc::Rc;
use crate::config::ModuleConfig;
use crate::text::{decimal, path_push, push_decimal, push_path};
use crate::tile::{share_bytes, ContentEncoding, MediaType, TileIdentity, TileRef};

verus! {

/// Tiles along each side of a meta tile.
pub const META_TILE_WIDTH: i32 = 8;

/// Mask of the position of a tile inside its meta tile.
pub const META_TILE_MASK: i32 = 7;

/// Tiles in a meta tile.
pub const META_TILE_COUNT: i32 = 64;

/// Length of the meta tile header.
pub const META_HEADER_LEN: usize = 20;

/// Length of one index entry.
pub const META_ENTRY_LEN: usize = 8;

/// Length of the header and the full index together.
pub const META_INDEX_END: usize = 532;

// ---------------------------------------------------------------------------
// Where a tile is stored
// ---------------------------------------------------------------------------

/// The four bits of `v`'s meta tile coordinate (`v` with its low three bits
/// cleared) that start at bit `4 * i`.
pub open spec fn coordinate_nibble(v: i32, i: int) -> i32 {
    ((v & !7i32) >> ((4 * i) as u32)) & 15i32
}

/// Part `i` of the directory hash of the tile at `x`, `y`: a byte whose high
/// nibble comes from `x` and whose low nibble comes from `y`.
pub open spec fn hash_part(x: i32, y: i32, i: int) -> i32 {
    (coordinate_nibble(x, i) << 4u32) | coordinate_nibble(y, i)
}

/// The position of the tile at `x`, `y` inside its meta tile.
pub open spec fn tile_offset(x: i32, y: i32) -> int {
    (x & 7i32) * 8 + (y & 7i32)
}

/// The path of the meta tile file holding the tile `id` in the store at `store`:
/// `store/layer/z/h4/h3/h2/h1/h0.meta`, the `h` being the directory hash parts.
pub open spec fn meta_tile_path(store: Seq<char>, id: TileIdentity) -> Seq<char> {
    let p0 = path_push(Seq::empty(), store);
    let p1 = path_push(p0, id.layer@);
    let p2 = path_push(p1, decimal(id.z as nat));
    let p3 = path_push(p2, decimal(hash_part(id.x, id.y, 4) as nat));
    let p4 = path_push(p3, decimal(hash_part(id.x, id.y, 3) as nat));
    let p5 = path_push(p4, decimal(hash_part(id.x, id.y, 2) as nat));
    let p6 = path_push(p5, decimal(hash_part(id.x, id.y, 1) as nat));
    path_push(p6, decimal(hash_part(id.x, id.y, 0) as nat) + ".meta"@)
}

/// Where a tile is stored: the meta tile file and the tile's position in it.
#[derive(Clone, Debug, PartialEq, Eq)]
pub struct TilePath {
    pub meta_tile_path: String,
    pub tile_offset: u32,
}

proof fn lemma_hash_part_byte(x: i32, y: i32, s: u32)
    requires
        0 <= s <= 16,
    ensures
        0 <= ((((x & !7i32) >> s) & 15i32) << 4u32) | (((y & !7i32) >> s) & 15i32) <= 255,
{
    assert(0 <= ((((x & !7i32) >> s) & 15i32) << 4u32) | (((y & !7i32) >> s) & 15i32) <= 255)
        by (bit_vector)
        requires
            0 <= s <= 16,
    ;
}

proof fn lemma_offset_parts(x: i32, y: i32)
    ensures
        0 <= x & 7i32 <= 7,
        0 <= y & 7i32 <= 7,
{
    assert(0 <= x & 7i32 <= 7) by (bit_vector);
    assert(0 <= y & 7i32 <= 7) by (bit_vector);
}

impl MetaTile {
    /// The directory hash of a tile: five bytes, part `i` made of the nibbles at
    /// bit `4 * i` of the tile's meta tile column and row.
    pub fn calc_directory_hash(id: &TileIdentity) -> (hash: [i32; 5])
        ensures
            hash[0] == hash_part(id.x, id.y, 0),
            hash[1] == hash_part(id.x, id.y, 1),
            hash[2] == hash_part(id.x, id.y, 2),
            hash[3] == hash_part(id.x, id.y, 3),
            hash[4] == hash_part(id.x, id.y, 4),
            forall|i: int| 0 <= i < 5 ==> 0 <= #[trigger] hash[i] <= 255,
    {
        let x_dir = id.x & !META_TILE_MASK;
        let y_dir = id.y & !META_TILE_MASK;
        proof {
            lemma_hash_part_byte(id.x, id.y, 0);
            lemma_hash_part_byte(id.x, id.y, 4);
            lemma_hash_part_byte(id.x, id.y, 8);
            lemma_hash_part_byte(id.x, id.y, 12);
            lemma_hash_part_byte(id.x, id.y, 16);
        }
        let h0 = (((x_dir >> 0u32) & 0x0f) << 4u32) | ((y_dir >> 0u32) & 0x0f);
        let h1 = (((x_dir >> 4u32) & 0x0f) << 4u32) | ((y_dir >> 4u32) & 0x0f);
        let h2 = (((x_dir >> 8u32) & 0x0f) << 4u32) | ((y_dir >> 8u32) & 0x0f);
        let h3 = (((x_dir >> 12u32) & 0x0f) << 4u32) | ((y_dir >> 12u32) & 0x0f);
        let h4 = (((x_dir >> 16u32) & 0x0f) << 4u32) | ((y_dir >> 16u32) & 0x0f);
        let hash = [h0, h1, h2, h3, h4];
        assert(hash[0] == h0 && hash[1] == h1 && hash[2] == h2 && hash[3] == h3 && hash[4] == h4);
        hash
    }

    /// The position of a tile inside its meta tile: eight times its column inside
    /// the meta tile plus its row inside the meta tile.
    pub fn calc_offset(id: &TileIdentity) -> (offset: u32)
        ensures
            offset == tile_offset(id.x, id.y),
            offset < 64,
    {
        proof {
            lemma_offset_parts(id.x, id.y);
        }
        ((id.x & META_TILE_MASK) * META_TILE_WIDTH + (id.y & META_TILE_MASK)) as u32
    }

    /// Where the tile `id` is stored under the configured tile store.
    pub fn identity_to_path(config: &ModuleConfig, id: &TileIdentity) -> (path: TilePath)
        ensures
            path.meta_tile_path@ == meta_tile_path(config.renderd.store_uri@, *id),
            path.tile_offset == tile_offset(id.x, id.y),
    {
        let hash = MetaTile::calc_directory_hash(id);
        let mut path_buf = String::new();
        push_path(&mut path_buf, config.renderd.store_uri.as_str());
        push_path(&mut path_buf, id.layer.as_str());
        let mut part = String::new();
        push_decimal(&mut part, id.z as u64);
        push_path(&mut path_buf, part.as_str());
        let mut k: usize = 4;
        while k > 0
            invariant
                0 <= k <= 4,
                hash[0] == hash_part(id.x, id.y, 0),
                hash[1] == hash_part(id.x, id.y, 1),
                hash[2] == hash_part(id.x, id.y, 2),
                hash[3] == hash_part(id.x, id.y, 3),
                hash[4] == hash_part(id.x, id.y, 4),
                forall|i: int| 0 <= i < 5 ==> 0 <= #[trigger] hash[i] <= 255,
                path_buf@ == meta_tile_prefix(config.renderd.store_uri@, *id, 4 - k),
            decreases k,
        {
            let mut part = String::new();
            push_decimal(&mut part, hash[k] as u64);
            push_path(&mut path_buf, part.as_str());
            k = k - 1;
        }
        proof {
            reveal_with_fuel(meta_tile_prefix, 5);
        }
        let mut last = String::new();
        push_decimal(&mut last, hash[0] as u64);
        last.append(".meta");
        push_path(&mut path_buf, last.as_str());
        TilePath { meta_tile_path: path_buf, tile_offset: MetaTile::calc_offset(id) }
    }
}

/// The path of the meta tile's directories, down to the `n`th hash directory.
pub open spec fn meta_tile_prefix(store: Seq<char>, id: TileIdentity, n: int) -> Seq<char>
    decreases n,
{
    if n <= 0 {
        path_push(path_push(path_push(Seq::empty(), store), id.layer@), decimal(id.z as nat))
    } else {
        path_push(meta_tile_prefix(store, id, n - 1), decimal(hash_part(id.x, id.y, 5 - n) as nat))
    }
}

// ---------------------------------------------------------------------------
// The meta tile file
// ---------------------------------------------------------------------------

/// The little-endian 32-bit signed integer at `pos`.
pub open spec fn le_i32_at(b: Seq<u8>, pos: int) -> int {
    let u = b[pos] + 256 * b[pos + 1] + 65536 * b[pos + 2] + 16777216 * b[pos + 3];
    if u >= 0x8000_0000 { u - 0x1_0000_0000 } else { u }
}

/// The tile count in the header.
pub open spec fn header_count(b: Seq<u8>) -> int {
    le_i32_at(b, 4)
}

/// The offset recorded for tile `i`.
pub open spec fn entry_offset(b: Seq<u8>, i: int) -> int {
    le_i32_at(b, META_HEADER_LEN + META_ENTRY_LEN * i)
}

/// The size recorded for tile `i`.
pub open spec fn entry_size(b: Seq<u8>, i: int) -> int {
    le_i32_at(b, META_HEADER_LEN + META_ENTRY_LEN * i + 4)
}

/// The encoding named by the magic tag, a C string that must be UTF-8:
/// `META` at its start for plain tiles, `METZ` for gzip compressed tiles.
pub open spec fn magic_encoding(b: Seq<u8>) -> Option<ContentEncoding> {
    let tag = magic_tag(b);
    if !valid_utf8(tag) {
        None
    } else if tag.len() >= 4 && tag[0] == 77 && tag[1] == 69 && tag[2] == 84 && tag[3] == 65 {
        Some(ContentEncoding::NotCompressed)
    } else if tag.len() >= 4 && tag[0] == 77 && tag[1] == 69 && tag[2] == 84 && tag[3] == 90 {
        Some(ContentEncoding::Gzip)
    } else {
        None
    }
}

/// The position of the first zero byte at or after `from`, or the length when there is none.
pub open spec fn nul_position(b: Seq<u8>, from: int) -> int
    decreases b.len() - from,
{
    if from >= b.len() || from < 0 || b[from] == 0 {
        from
    } else {
        nul_position(b, from + 1)
    }
}

/// The magic tag as a C string: the bytes before the first zero byte.
pub open spec fn magic_tag(b: Seq<u8>) -> Seq<u8> {
    b.subrange(0, nul_position(b, 0))
}

/// The last byte of tile `i` lies in the file: its position, `offset + size - 1`,
/// is neither negative nor past the length of the file.
pub open spec fn entry_fits(b: Seq<u8>, i: int) -> bool {
    0 <= entry_offset(b, i) + entry_size(b, i) - 1 <= b.len()
}

/// A well-formed meta tile file: a known magic, 64 tiles, a full index, and
/// each tile's last byte inside the file.
pub open spec fn meta_tile_valid(b: Seq<u8>) -> bool {
    &&& b.len() >= META_INDEX_END
    &&& magic_encoding(b) is Some
    &&& header_count(b) == META_TILE_COUNT
    &&& forall|i: int| 0 <= i < META_TILE_COUNT ==> #[trigger] entry_fits(b, i)
}

/// Why a meta tile file's magic is not accepted.
#[derive(Clone, Debug, PartialEq, Eq)]
pub enum InvalidCompressionError {
    /// The magic tag, as a C string, starts with neither `META` nor `METZ`;
    /// its text.
    InvalidTag(String),
    /// The magic tag, as a C string, is not UTF-8.
    InvalidUtf8Tag,
}

/// Why a meta tile file is not accepted.
#[derive(Clone, Debug, PartialEq, Eq)]
pub enum InvalidMetaTileError {
    /// The file, of the given length, ends inside the header or the index.
    Truncated(usize),
    InvalidCompression(InvalidCompressionError),
    /// The header records this tile count, not 64.
    InvalidTileCount(i32),
    /// The first tile whose last byte lies outside the file.
    InvalidTileLength(u32),
}

/// The error that a meta tile file is refused with, as `err` names it.
pub open spec fn meta_tile_error(b: Seq<u8>, err: InvalidMetaTileError) -> bool {
    match err {
        InvalidMetaTileError::Truncated(n) => {
            &&& n == b.len()
            &&& (b.len() < META_HEADER_LEN || (magic_encoding(b) is Some && header_count(b)
                == META_TILE_COUNT && b.len() < META_INDEX_END))
        },
        InvalidMetaTileError::InvalidCompression(InvalidCompressionError::InvalidTag(text)) => {
            &&& b.len() >= META_HEADER_LEN
            &&& magic_encoding(b) is None
            &&& valid_utf8(magic_tag(b))
            &&& text@ == decode_utf8(magic_tag(b))
        },
        InvalidMetaTileError::InvalidCompression(InvalidCompressionError::InvalidUtf8Tag) => {
            &&& b.len() >= META_HEADER_LEN
            &&& !valid_utf8(magic_tag(b))
        },
        InvalidMetaTileError::InvalidTileCount(count) => {
            &&& b.len() >= META_HEADER_LEN
            &&& magic_encoding(b) is Some
            &&& count == header_count(b)
            &&& count != META_TILE_COUNT
        },
        InvalidMetaTileError::InvalidTileLength(i) => {
            &&& b.len() >= META_INDEX_END
            &&& magic_encoding(b) is Some
            &&& header_count(b) == META_TILE_COUNT
            &&& i < META_TILE_COUNT
            &&& !entry_fits(b, i as int)
            &&& forall|j: int| 0 <= j < i ==> #[trigger] entry_fits(b, j)
        },
    }
}

/// The position and size of one tile, as the index records them.
#[derive(Clone, Copy, Debug, PartialEq, Eq, Structural)]
pub struct Entry {
    pub offset: i32,
    pub size: i32,
}

/// A tile position past the last tile of a meta tile.
#[derive(Clone, Copy, Debug, PartialEq, Eq, Structural)]
pub struct TileOffsetOutOfBoundsError {
    pub tile_offset: u32,
}

/// Reads the little-endian 32-bit signed integer at `pos`.
pub fn read_i32_le(bytes: &Vec<u8>, pos: usize) -> (v: i32)
    requires
        pos + 4 <= bytes@.len(),
    ensures
        v == le_i32_at(bytes@, pos as int),
{
    let _length = bytes.len();
    let u: u64 = bytes[pos] as u64 + (bytes[pos + 1] as u64) * 256 + (bytes[pos + 2] as u64)
        * 65536 + (bytes[pos + 3] as u64) * 16777216;
    let w: i64 = if u >= 0x8000_0000 {
        (u as i64) - 0x1_0000_0000
    } else {
        u as i64
    };
    w as i32
}

/// `std::str::from_utf8`: the text that `bytes` encode, when they are valid
/// UTF-8, as an owned string. The standard library accepts exactly the valid
/// UTF-8 byte strings, and the text is what they encode.
#[verifier::external_body]
fn utf8_text(bytes: &[u8]) -> (r: Option<String>)
    ensures
        r is Some <==> valid_utf8(bytes@),
        r matches Some(text) ==> text@ == decode_utf8(bytes@),
{
    match std::str::from_utf8(bytes) {
        Ok(text) => Some(String::from(text)),
        Err(_) => None,
    }
}

/// The encoding named by the magic tag, if it is known: the tag is read as
/// a C string, which must be UTF-8, and names the encoding by its start.
pub fn detect_compression(bytes: &Vec<u8>) -> (r: Result<ContentEncoding, InvalidCompressionError>)
    ensures
        match r {
            Ok(encoding) => magic_encoding(bytes@) == Some(encoding),
            Err(InvalidCompressionError::InvalidTag(text)) => {
                &&& magic_encoding(bytes@) is None
                &&& valid_utf8(magic_tag(bytes@))
                &&& text@ == decode_utf8(magic_tag(bytes@))
            },
            Err(InvalidCompressionError::InvalidUtf8Tag) => !valid_utf8(magic_tag(bytes@)),
        },
{
    let mut end: usize = 0;
    while end < bytes.len() && bytes[end] != 0
        invariant
            end <= bytes@.len(),
            nul_position(bytes@, 0) == nul_position(bytes@, end as int),
        decreases bytes@.len() - end,
    {
        end = end + 1;
    }
    let tag = &bytes.as_slice()[0..end];
    assert(tag@ =~= magic_tag(bytes@));
    match utf8_text(tag) {
        None => Err(InvalidCompressionError::InvalidUtf8Tag),
        Some(text) => {
            if end >= 4 && tag[0] == 77 && tag[1] == 69 && tag[2] == 84 && tag[3] == 65 {
                Ok(ContentEncoding::NotCompressed)
            } else if end >= 4 && tag[0] == 77 && tag[1] == 69 && tag[2] == 84 && tag[3] == 90 {
                Ok(ContentEncoding::Gzip)
            } else {
                Err(InvalidCompressionError::InvalidTag(text))
            }
        },
    }
}

/// The tile count recorded in the header, if it is the 64 tiles of a meta tile.
pub fn detect_tile_count(bytes: &Vec<u8>) -> (r: Result<u32, InvalidMetaTileError>)
    requires
        bytes@.len() >= META_HEADER_LEN,
    ensures
        match r {
            Ok(count) => count == META_TILE_COUNT && header_count(bytes@) == META_TILE_COUNT,
            Err(InvalidMetaTileError::InvalidTileCount(count)) => count == header_count(bytes@)
                && count != META_TILE_COUNT,
            Err(_) => false,
        },
{
    let expected_tile_count = META_TILE_WIDTH * META_TILE_WIDTH;
    let actual_tile_count = read_i32_le(bytes, 4);
    if actual_tile_count > 0 && actual_tile_count == expected_tile_count {
        Ok(actual_tile_count as u32)
    } else {
        Err(InvalidMetaTileError::InvalidTileCount(actual_tile_count))
    }
}

/// Reads index entry `i`.
pub fn read_entry(bytes: &Vec<u8>, i: usize) -> (e: Entry)
    requires
        i < META_TILE_COUNT,
        bytes@.len() >= META_INDEX_END,
    ensures
        e.offset == entry_offset(bytes@, i as int),
        e.size == entry_size(bytes@, i as int),
{
    let pos = META_HEADER_LEN + META_ENTRY_LEN * i;
    Entry { offset: read_i32_le(bytes, pos), size: read_i32_le(bytes, pos + 4) }
}

/// The first tile whose last byte lies outside the file, if there is one.
pub fn verify_tile_lengths(bytes: &Vec<u8>) -> (r: Result<(), InvalidMetaTileError>)
    requires
        bytes@.len() >= META_INDEX_END,
    ensures
        match r {
            Ok(()) => forall|i: int| 0 <= i < META_TILE_COUNT ==> #[trigger] entry_fits(bytes@, i),
            Err(InvalidMetaTileError::InvalidTileLength(i)) => i < META_TILE_COUNT && !entry_fits(
                bytes@,
                i as int,
            ) && forall|j: int| 0 <= j < i ==> #[trigger] entry_fits(bytes@, j),
            Err(_) => false,
        },
{
    let file_size = bytes.len();
    let mut tile_offset: u32 = 0;
    while tile_offset < 64
        invariant
            tile_offset <= 64,
            file_size == bytes@.len(),
            bytes@.len() >= META_INDEX_END,
            forall|j: int| 0 <= j < tile_offset ==> #[trigger] entry_fits(bytes@, j),
        decreases 64 - tile_offset,
    {
        let entry = read_entry(bytes, tile_offset as usize);
        let end_of_tile_position: i64 = entry.offset as i64 + entry.size as i64 - 1;
        if end_of_tile_position < 0 || end_of_tile_position as u64 > file_size as u64 {
            return Err(InvalidMetaTileError::InvalidTileLength(tile_offset));
        }
        tile_offset = tile_offset + 1;
    }
    Ok(())
}

/// A meta tile read from the store: its bytes, shared with the tiles picked out of it.
pub struct MetaTile {
    raw_bytes: Rc<Vec<u8>>,
    tile_count: u32,
    media_type: MediaType,
    encoding: ContentEncoding,
}

impl MetaTile {
    #[verifier::type_invariant]
    spec fn well_formed(self) -> bool {
        &&& meta_tile_valid((*self.raw_bytes)@)
        &&& self.tile_count == META_TILE_COUNT
        &&& self.media_type == MediaType::ImagePng
        &&& magic_encoding((*self.raw_bytes)@) == Some(self.encoding)
    }

    /// The bytes of the meta tile file.
    pub closed spec fn bytes(self) -> Seq<u8> {
        (*self.raw_bytes)@
    }

    /// The encoding of the meta tile's tiles.
    pub closed spec fn spec_encoding(self) -> ContentEncoding {
        self.encoding
    }

    /// Checks the bytes of a meta tile file: its magic names the encoding,
    /// its header records 64 tiles, and every tile's last byte lies in the file.
    pub fn from_bytes(raw: Vec<u8>) -> (r: Result<MetaTile, InvalidMetaTileError>)
        ensures
            match r {
                Ok(meta) => meta_tile_valid(raw@) && meta.bytes() == raw@ && magic_encoding(raw@)
                    == Some(meta.spec_encoding()),
                Err(err) => !meta_tile_valid(raw@) && meta_tile_error(raw@, err),
            },
    {
        let length = raw.len();
        if length < META_HEADER_LEN {
            return Err(InvalidMetaTileError::Truncated(length));
        }
        let encoding = match detect_compression(&raw) {
            Ok(encoding) => encoding,
            Err(err) => {
                return Err(InvalidMetaTileError::InvalidCompression(err));
            },
        };
        let tile_count = match detect_tile_count(&raw) {
            Ok(count) => count,
            Err(err) => {
                return Err(err);
            },
        };
        if length < META_INDEX_END {
            return Err(InvalidMetaTileError::Truncated(length));
        }
        match verify_tile_lengths(&raw) {
            Ok(()) => {},
            Err(err) => {
                return Err(err);
            },
        }
        Ok(MetaTile { raw_bytes: Rc::new(raw), tile_count, media_type: MediaType::ImagePng, encoding })
    }

    /// The number of tiles in the meta tile: always 64.
    pub fn tile_count(&self) -> (n: u32)
        ensures
            n == META_TILE_COUNT,
    {
        proof {
            use_type_invariant(self);
        }
        self.tile_count
    }

    /// The encoding of the meta tile's tiles.
    pub fn encoding(&self) -> (e: ContentEncoding)
        ensures
            e == self.spec_encoding(),
            magic_encoding(self.bytes()) == Some(e),
    {
        proof {
            use_type_invariant(self);
        }
        self.encoding
    }

    /// The index entry of the tile at `tile_offset`, if the meta tile has such a tile.
    pub fn get_entry(&self, tile_offset: u32) -> (r: Result<Entry, TileOffsetOutOfBoundsError>)
        ensures
            meta_tile_valid(self.bytes()),
            r is Ok <==> tile_offset < META_TILE_COUNT,
            r matches Ok(e) ==> e.offset == entry_offset(self.bytes(), tile_offset as int)
                && e.size == entry_size(self.bytes(), tile_offset as int),
            r matches Err(e) ==> e.tile_offset == tile_offset,
    {
        proof {
            use_type_invariant(self);
        }
        if tile_offset >= self.tile_count {
            return Err(TileOffsetOutOfBoundsError { tile_offset });
        }
        let bytes: &Vec<u8> = &self.raw_bytes;
        Ok(read_entry(bytes, tile_offset as usize))
    }

    /// The tile at `tile_offset`, sharing the meta tile's bytes.
    pub fn select(&self, tile_offset: u32) -> (r: Result<TileRef, TileOffsetOutOfBoundsError>)
        ensures
            meta_tile_valid(self.bytes()),
            r is Ok <==> tile_offset < META_TILE_COUNT,
            r matches Ok(tile) ==> {
                &&& tile.bytes() == self.bytes()
                &&& tile.begin == entry_offset(self.bytes(), tile_offset as int) as usize
                &&& tile.end == (entry_offset(self.bytes(), tile_offset as int) + entry_size(
                    self.bytes(),
                    tile_offset as int,
                )) as usize
                &&& tile.media_type == MediaType::ImagePng
                &&& tile.encoding == self.spec_encoding()
            },
            r matches Err(e) ==> e.tile_offset == tile_offset,
    {
        proof {
            use_type_invariant(self);
        }
        let entry = match self.get_entry(tile_offset) {
            Ok(entry) => entry,
            Err(err) => {
                return Err(err);
            },
        };
        let selected_tile_start = entry.offset as usize;
        let next_tile_start = (entry.offset as i64 + entry.size as i64) as usize;
        Ok(
            TileRef {
                raw_bytes: share_bytes(&self.raw_bytes),
                begin: selected_tile_start,
                end: next_tile_start,
                media_type: self.media_type.duplicate(),
                encoding: self.encoding,
            },
        )
    }
}

// ---------------------------------------------------------------------------
// Laws of the store layout
// ---------------------------------------------------------------------------

/// All tiles of one meta tile, the tiles of a layer and zoom level whose
/// column and row agree but for their three lowest bits, are stored in the
/// same meta tile file.
pub proof fn law_tiles_of_a_meta_tile_share_its_file(store: Seq<char>, a: TileIdentity, b: TileIdentity)
    requires
        a.layer@ == b.layer@,
        a.z == b.z,
        a.x & !7i32 == b.x & !7i32,
        a.y & !7i32 == b.y & !7i32,
    ensures
        meta_tile_path(store, a) == meta_tile_path(store, b),
{
}

/// Two different tiles of one meta tile have different positions in it.
pub proof fn law_tiles_of_a_meta_tile_have_distinct_offsets(a: TileIdentity, b: TileIdentity)
    requires
        a.x & !7i32 == b.x & !7i32,
        a.y & !7i32 == b.y & !7i32,
        a.x != b.x || a.y != b.y,
    ensures
        tile_offset(a.x, a.y) != tile_offset(b.x, b.y),
{
    let (ax, ay, bx, by) = (a.x, a.y, b.x, b.y);
    assert(0 <= ax & 7i32 <= 7 && 0 <= ay & 7i32 <= 7 && 0 <= bx & 7i32 <= 7 && 0 <= by & 7i32
        <= 7) by (bit_vector);
    assert((ax & !7i32) == (bx & !7i32) && (ax & 7i32) == (bx & 7i32) ==> ax == bx) by (bit_vector);
    assert((ay & !7i32) == (by & !7i32) && (ay & 7i32) == (by & 7i32) ==> ay == by) by (bit_vector);
}

/// The position of a tile in its meta tile gives back its column and row inside the meta tile.
pub proof fn law_offset_gives_position_in_meta_tile(x: i32, y: i32)
    ensures
        tile_offset(x, y) / 8 == x & 7i32,
        tile_offset(x, y) % 8 == y & 7i32,
        0 <= tile_offset(x, y) < META_TILE_COUNT,
{
    assert(0 <= x & 7i32 <= 7 && 0 <= y & 7i32 <= 7) by (bit_vector);
}

/// For columns and rows below 2^20, the ones of the highest zoom level the
/// server handles, the directory hash tells meta tiles apart: tiles with the
/// same directory hash lie in the same meta tile.
pub proof fn law_directory_hash_identifies_meta_tile(x: i32, y: i32, x2: i32, y2: i32)
    requires
        0 <= x < 0x10_0000,
        0 <= y < 0x10_0000,
        0 <= x2 < 0x10_0000,
        0 <= y2 < 0x10_0000,
        hash_part(x, y, 0) == hash_part(x2, y2, 0),
        hash_part(x, y, 1) == hash_part(x2, y2, 1),
        hash_part(x, y, 2) == hash_part(x2, y2, 2),
        hash_part(x, y, 3) == hash_part(x2, y2, 3),
        hash_part(x, y, 4) == hash_part(x2, y2, 4),
    ensures
        x & !7i32 == x2 & !7i32,
        y & !7i32 == y2 & !7i32,
{
    lemma_byte_splits(x, y, x2, y2, 0);
    lemma_byte_splits(x, y, x2, y2, 4);
    lemma_byte_splits(x, y, x2, y2, 8);
    lemma_byte_splits(x, y, x2, y2, 12);
    lemma_byte_splits(x, y, x2, y2, 16);
    lemma_nibbles_identify(x, x2);
    lemma_nibbles_identify(y, y2);
}

proof fn lemma_byte_splits(a: i32, b: i32, c: i32, d: i32, s: u32)
    requires
        s <= 16,
        ((((a & !7i32) >> s) & 15i32) << 4u32) | (((b & !7i32) >> s) & 15i32) == ((((c & !7i32) >> s)
            & 15i32) << 4u32) | (((d & !7i32) >> s) & 15i32),
    ensures
        ((a & !7i32) >> s) & 15i32 == ((c & !7i32) >> s) & 15i32,
        ((b & !7i32) >> s) & 15i32 == ((d & !7i32) >> s) & 15i32,
{
    assert(((a & !7i32) >> s) & 15i32 == ((c & !7i32) >> s) & 15i32 && ((b & !7i32) >> s) & 15i32
        == ((d & !7i32) >> s) & 15i32) by (bit_vector)
        requires
            s <= 16,
            ((((a & !7i32) >> s) & 15i32) << 4u32) | (((b & !7i32) >> s) & 15i32) == ((((c & !7i32)
                >> s) & 15i32) << 4u32) | (((d & !7i32) >> s) & 15i32),
    ;
}

proof fn lemma_nibbles_identify(x: i32, x2: i32)
    requires
        0 <= x < 0x10_0000,
        0 <= x2 < 0x10_0000,
        ((x & !7i32) >> 0u32) & 15i32 == ((x2 & !7i32) >> 0u32) & 15i32,
        ((x & !7i32) >> 4u32) & 15i32 == ((x2 & !7i32) >> 4u32) & 15i32,
        ((x & !7i32) >> 8u32) & 15i32 == ((x2 & !7i32) >> 8u32) & 15i32,
        ((x & !7i32) >> 12u32) & 15i32 == ((x2 & !7i32) >> 12u32) & 15i32,
        ((x & !7i32) >> 16u32) & 15i32 == ((x2 & !7i32) >> 16u32) & 15i32,
    ensures
        x & !7i32 == x2 & !7i32,
{
    assert(x & !7i32 == x2 & !7i32) by (bit_vector)
        requires
            0 <= x < 0x10_0000,
            0 <= x2 < 0x10_0000,
            ((x & !7i32) >> 0u32) & 15i32 == ((x2 & !7i32) >> 0u32) & 15i32,
            ((x & !7i32) >> 4u32) & 15i32 == ((x2 & !7i32) >> 4u32) & 15i32,
            ((x & !7i32) >> 8u32) & 15i32 == ((x2 & !7i32) >> 8u32) & 15i32,
            ((x & !7i32) >> 12u32) & 15i32 == ((x2 & !7i32) >> 12u32) & 15i32,
            ((x & !7i32) >> 16u32) & 15i32 == ((x2 & !7i32) >> 16u32) & 15i32,
    ;
}

} // verus!
