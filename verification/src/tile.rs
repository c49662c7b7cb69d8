//! Tiles: their identity, where they come from, how old they are and how
//! their bytes are shared.

use vstd::prelude::*;
use std::rc::Rc;

verus! {

/// How fresh a served tile is.
#[derive(Clone, Copy, Debug, PartialEq, Eq, Structural)]
pub enum TileAge {
    Fresh,
    Old,
    VeryOld,
}

/// Where a served tile came from.
#[derive(Clone, Copy, Debug, PartialEq, Eq, Structural)]
pub enum TileSource {
    Render,
    Cache,
}

/// Number of tile ages.
pub const TILE_AGE_COUNT: usize = 3;

/// Number of tile sources.
pub const TILE_SOURCE_COUNT: usize = 2;

/// The position of an age in the order `Fresh`, `Old`, `VeryOld`.
pub open spec fn age_rank(age: TileAge) -> int {
    match age {
        TileAge::Fresh => 0,
        TileAge::Old => 1,
        TileAge::VeryOld => 2,
    }
}

/// The position of a source in the order `Render`, `Cache`.
pub open spec fn source_rank(source: TileSource) -> int {
    match source {
        TileSource::Render => 0,
        TileSource::Cache => 1,
    }
}

/// Every tile age, in order.
pub fn all_tile_ages() -> (ages: Vec<TileAge>)
    ensures
        ages@ == seq![TileAge::Fresh, TileAge::Old, TileAge::VeryOld],
{
    let mut ages = Vec::new();
    ages.push(TileAge::Fresh);
    ages.push(TileAge::Old);
    ages.push(TileAge::VeryOld);
    ages
}

/// How the bytes of a tile are encoded.
#[derive(Clone, Copy, Debug, PartialEq, Eq, Structural)]
pub enum ContentEncoding {
    NotCompressed,
    Gzip,
}

/// The media types that responses are written in.
#[derive(Clone, Debug, PartialEq, Eq)]
pub enum MediaType {
    /// `application/json`
    ApplicationJson,
    /// `text/plain`
    TextPlain,
    /// `image/png`
    ImagePng,
    /// Any other type, by its essence (`type/subtype`).
    Other(String),
}

impl MediaType {
    /// A copy of the media type.
    pub fn duplicate(&self) -> (r: MediaType)
        ensures
            r == *self,
    {
        match self {
            MediaType::ApplicationJson => MediaType::ApplicationJson,
            MediaType::TextPlain => MediaType::TextPlain,
            MediaType::ImagePng => MediaType::ImagePng,
            MediaType::Other(essence) => MediaType::Other(essence.clone()),
        }
    }
}

/// A tile of a layer, by its column `x`, row `y` and zoom level `z`.
#[derive(Clone, Debug, PartialEq, Eq)]
pub struct TileIdentity {
    pub x: i32,
    pub y: i32,
    pub z: u32,
    pub layer: String,
}

impl TileIdentity {
    /// A copy of the identity.
    pub fn duplicate(&self) -> (r: TileIdentity)
        ensures
            r == *self,
    {
        TileIdentity { x: self.x, y: self.y, z: self.z, layer: self.layer.clone() }
    }
}

/// `Rc::clone`: another handle on the same shared value.
#[verifier::external_body]
pub(crate) fn share_bytes(bytes: &Rc<Vec<u8>>) -> (r: Rc<Vec<u8>>)
    ensures
        (*r)@ == (**bytes)@,
{
    Rc::clone(bytes)
}

/// A tile inside the shared bytes of the meta tile that holds it: the bytes
/// from `begin` up to, not including, `end`.
#[derive(Debug)]
pub struct TileRef {
    pub raw_bytes: Rc<Vec<u8>>,
    pub begin: usize,
    pub end: usize,
    pub media_type: MediaType,
    pub encoding: ContentEncoding,
}

impl TileRef {
    /// The shared bytes the tile lies in.
    pub open spec fn bytes(&self) -> Seq<u8> {
        (*self.raw_bytes)@
    }

    /// The tile's range lies inside the shared bytes.
    pub open spec fn in_bounds(&self) -> bool {
        self.begin <= self.end <= self.bytes().len()
    }

    /// Whether the tile's range lies inside the shared bytes.
    pub fn is_in_bounds(&self) -> (b: bool)
        ensures
            b == self.in_bounds(),
    {
        self.begin <= self.end && self.end <= self.raw_bytes.len()
    }

    /// The bytes of the tile.
    pub fn tile_bytes(&self) -> (r: &[u8])
        requires
            self.in_bounds(),
        ensures
            r@ == self.bytes().subrange(self.begin as int, self.end as int),
    {
        let all: &Vec<u8> = &self.raw_bytes;
        let slice = all.as_slice();
        &slice[self.begin..self.end]
    }

    /// A second reference to the same tile.
    pub fn duplicate(&self) -> (r: TileRef)
        ensures
            r.bytes() == self.bytes(),
            r.begin == self.begin,
            r.end == self.end,
            r.media_type == self.media_type,
            r.encoding == self.encoding,
    {
        TileRef {
            raw_bytes: share_bytes(&self.raw_bytes),
            begin: self.begin,
            end: self.end,
            media_type: self.media_type.duplicate(),
            encoding: self.encoding,
        }
    }
}

} // verus!
