//! Hierarchical, fixed-depth LOD store for terrain.
//!
//! Terrain is kept at multiple fixed resolutions without a pointer-based
//! tree: each populated level owns a flat, growable arena of nodes, and a
//! node refers to its block of children purely by an integer index into the
//! next populated level's arena. Of the 16 ordinal levels, this
//! configuration populates level 13 (`Region9`, the anchor), level 9
//! (`Chunk5`), level 4 (`Block0`) and level 0 (`SubBlock_4`); the others
//! are absent and skipped transparently.
//!
//! Node extents are measured in sixteenths of a voxel per axis, so that the
//! sub-voxel bottom level still has an integer volume: a `SubBlock_4` spans
//! 1 unit, a `Block0` 16 (one voxel), a `Chunk5` 512 (32 voxels) and a
//! `Region9` 8192 (512 voxels).

use crate::math::Vec3u;
use vstd::prelude::*;

verus! {

/// Number of children a `Region9` node addresses in the `Chunk5` arena.
pub const REGION9_CHILD_LEN: usize = 4096;

/// Number of children a `Chunk5` node addresses in the `Block0` arena.
pub const CHUNK5_CHILD_LEN: usize = 32768;

/// Number of children a `Block0` node addresses in the `SubBlock_4` arena.
pub const BLOCK0_CHILD_LEN: usize = 4096;

/// Ordinal level of the anchor (`Region9`) layer.
pub const ANCHOR_LAYER_ID: u8 = 13;

/// Per-axis extent of one node of a populated layer, in sixteenths of a
/// voxel.
#[derive(Clone, Copy, Debug, PartialEq, Eq, Structural)]
pub struct LodIndex {
    pub data: Vec3u,
}

/// What a populated layer's nodes know of themselves: their child link, the
/// ordinal of the next populated layer down, their spatial extent and how
/// many children one node addresses.
pub trait LayerInfo: Sized {
    /// The child block index recorded in this node, if it has one.
    spec fn spec_child_index(&self) -> Option<usize>;

    /// Read the node's child block index: a non-owning relational
    /// reference into the next populated layer's arena, or `None` if the
    /// node is a leaf at this layer's resolution.
    fn get_child_index(&self) -> (r: Option<usize>)
        ensures
            r == self.spec_child_index(),
    ;

    /// Ordinal of the next populated layer down, or `None` at the bottom.
    fn child_layer_id() -> (r: Option<u8>);

    /// Per-axis extent of one node of this layer, in sixteenths of a voxel.
    fn layer_volume() -> (r: LodIndex);

    /// How many consecutive child arena slots one node addresses.
    fn child_len() -> (r: usize);
}

/// Anchor-level node: aggregate material fractions over a 512-voxel cube,
/// in thousandths, plus an optional child block index into the `Chunk5`
/// arena.
#[derive(Debug, Clone, Copy, PartialEq, Eq, Structural)]
pub struct Region9 {
    pub percent_air: u16,
    pub percent_forest: u16,
    pub percent_lava: u16,
    pub percent_water: u16,
    pub child_id: Option<u32>,
}

/// Mid-level node: aggregate material fractions over a 32-voxel cube, in
/// thousandths, plus an optional child block index into the `Block0` arena.
#[derive(Debug, Clone, Copy, PartialEq, Eq, Structural)]
pub struct Chunk5 {
    pub percent_air: u16,
    pub percent_forest: u16,
    pub percent_lava: u16,
    pub percent_water: u16,
    pub child_id: Option<u32>,
}

/// Single-voxel node: a material value plus an optional child block index
/// into the `SubBlock_4` arena.
#[derive(Debug, Clone, Copy, PartialEq, Eq, Structural)]
pub struct Block0 {
    pub material: u32,
    pub child_id: Option<u32>,
}

/// Bottom-level node: a material value for one sixteenth-voxel cell.
#[derive(Debug, Clone, Copy, PartialEq, Eq, Structural)]
#[allow(non_camel_case_types)]
pub struct SubBlock_4 {
    pub material: u32,
}

impl Region9 {
    pub fn new(percent_air: u16, percent_forest: u16, percent_lava: u16, percent_water: u16, child_id: Option<u32>) -> (r: Region9)
        ensures
            r == (Region9 { percent_air, percent_forest, percent_lava, percent_water, child_id }),
    {
        Region9 { percent_air, percent_forest, percent_lava, percent_water, child_id }
    }
}

impl Chunk5 {
    pub fn new(percent_air: u16, percent_forest: u16, percent_lava: u16, percent_water: u16, child_id: Option<u32>) -> (r: Chunk5)
        ensures
            r == (Chunk5 { percent_air, percent_forest, percent_lava, percent_water, child_id }),
    {
        Chunk5 { percent_air, percent_forest, percent_lava, percent_water, child_id }
    }
}

impl Block0 {
    pub fn new(material: u32, child_id: Option<u32>) -> (r: Block0)
        ensures
            r == (Block0 { material, child_id }),
    {
        Block0 { material, child_id }
    }
}

impl SubBlock_4 {
    pub fn new(material: u32) -> (r: SubBlock_4)
        ensures
            r == (SubBlock_4 { material }),
    {
        SubBlock_4 { material }
    }
}

impl LayerInfo for Region9 {
    open spec fn spec_child_index(&self) -> Option<usize> {
        match self.child_id {
            Some(n) => Some(n as usize),
            None => None,
        }
    }

    fn get_child_index(&self) -> (r: Option<usize>)
    {
        match self.child_id {
            Some(n) => Some(n as usize),
            None => None,
        }
    }

    fn child_layer_id() -> (r: Option<u8>)
        ensures
            r == Some(9u8),
    {
        Some(9)
    }

    fn layer_volume() -> (r: LodIndex)
        ensures
            r.data == (Vec3u { x: 8192, y: 8192, z: 8192 }),
    {
        LodIndex { data: Vec3u { x: 8192, y: 8192, z: 8192 } }
    }

    fn child_len() -> (r: usize)
        ensures
            r == REGION9_CHILD_LEN,
    {
        REGION9_CHILD_LEN
    }
}

impl LayerInfo for Chunk5 {
    open spec fn spec_child_index(&self) -> Option<usize> {
        match self.child_id {
            Some(n) => Some(n as usize),
            None => None,
        }
    }

    fn get_child_index(&self) -> (r: Option<usize>)
    {
        match self.child_id {
            Some(n) => Some(n as usize),
            None => None,
        }
    }

    fn child_layer_id() -> (r: Option<u8>)
        ensures
            r == Some(4u8),
    {
        Some(4)
    }

    fn layer_volume() -> (r: LodIndex)
        ensures
            r.data == (Vec3u { x: 512, y: 512, z: 512 }),
    {
        LodIndex { data: Vec3u { x: 512, y: 512, z: 512 } }
    }

    fn child_len() -> (r: usize)
        ensures
            r == CHUNK5_CHILD_LEN,
    {
        CHUNK5_CHILD_LEN
    }
}

impl LayerInfo for Block0 {
    open spec fn spec_child_index(&self) -> Option<usize> {
        match self.child_id {
            Some(n) => Some(n as usize),
            None => None,
        }
    }

    fn get_child_index(&self) -> (r: Option<usize>)
    {
        match self.child_id {
            Some(n) => Some(n as usize),
            None => None,
        }
    }

    fn child_layer_id() -> (r: Option<u8>)
        ensures
            r == Some(0u8),
    {
        Some(0)
    }

    fn layer_volume() -> (r: LodIndex)
        ensures
            r.data == (Vec3u { x: 16, y: 16, z: 16 }),
    {
        LodIndex { data: Vec3u { x: 16, y: 16, z: 16 } }
    }

    fn child_len() -> (r: usize)
        ensures
            r == BLOCK0_CHILD_LEN,
    {
        BLOCK0_CHILD_LEN
    }
}

impl LayerInfo for SubBlock_4 {
    open spec fn spec_child_index(&self) -> Option<usize> {
        None
    }

    fn get_child_index(&self) -> (r: Option<usize>)
    {
        None
    }

    fn child_layer_id() -> (r: Option<u8>)
        ensures
            r == None::<u8>,
    {
        None
    }

    fn layer_volume() -> (r: LodIndex)
        ensures
            r.data == (Vec3u { x: 1, y: 1, z: 1 }),
    {
        LodIndex { data: Vec3u { x: 1, y: 1, z: 1 } }
    }

    fn child_len() -> (r: usize)
        ensures
            r == 0,
    {
        0
    }
}

/// Static configuration of the 16-level terrain store: which levels are
/// populated and which level anchors traversal.
#[derive(Debug, Clone, Copy, PartialEq, Eq, Structural)]
pub struct TerrainLodConfig {}

impl TerrainLodConfig {
    /// Whether the given ordinal level is populated by a concrete node
    /// type.
    pub open spec fn spec_layer_populated(layer: u8) -> bool {
        layer == 13 || layer == 9 || layer == 4 || layer == 0
    }

    /// Ordinal of the anchor layer: the coarsest level traversal starts
    /// from.
    pub fn anchor_layer_id() -> (r: u8)
        ensures
            r == ANCHOR_LAYER_ID,
            Self::spec_layer_populated(r),
    {
        ANCHOR_LAYER_ID
    }

    pub fn setup(&mut self)
        ensures
            *final(self) == *old(self),
    {
    }
}

/// Why an LOD traversal step failed.
#[derive(Debug, Clone, Copy, PartialEq, Eq, Structural)]
pub enum LodError {
    /// A recorded child block index does not fit inside the child level's
    /// arena: stale references after an unsupported mutation. Failing
    /// loudly here is the design's answer to silent corruption.
    ChildOutOfBounds,
}

/// The multi-resolution terrain store: one flat arena of nodes per
/// populated level. The arena owns all nodes; a node's child index is a
/// non-owning relational reference, valid only while the child arena slots
/// are alive.
pub struct LodData {
    region9: Vec<Region9>,
    chunk5: Vec<Chunk5>,
    block0: Vec<Block0>,
    subblock_4: Vec<SubBlock_4>,
}

impl LodData {
    pub closed spec fn region9_nodes(self) -> Seq<Region9> {
        self.region9@
    }

    pub closed spec fn chunk5_nodes(self) -> Seq<Chunk5> {
        self.chunk5@
    }

    pub closed spec fn block0_nodes(self) -> Seq<Block0> {
        self.block0@
    }

    pub closed spec fn subblock_4_nodes(self) -> Seq<SubBlock_4> {
        self.subblock_4@
    }

    /// A child block index is valid if its whole block of consecutive
    /// child slots lies inside the child arena.
    pub open spec fn spec_child_block_ok(child: Option<u32>, block_len: int, arena_len: int) -> bool {
        match child {
            Some(c) => c + block_len <= arena_len,
            None => true,
        }
    }

    /// Well-formedness: every recorded child block lies inside the child
    /// level's arena. All mutating operations preserve this; it can only
    /// be broken by compacting an arena without a full re-link pass, which
    /// no operation here does.
    pub open spec fn wf(self) -> bool {
        &&& forall|i: int|
            0 <= i < self.region9_nodes().len() ==> Self::spec_child_block_ok(
                self.region9_nodes()[i].child_id,
                REGION9_CHILD_LEN as int,
                self.chunk5_nodes().len() as int,
            )
        &&& forall|i: int|
            0 <= i < self.chunk5_nodes().len() ==> Self::spec_child_block_ok(
                self.chunk5_nodes()[i].child_id,
                CHUNK5_CHILD_LEN as int,
                self.block0_nodes().len() as int,
            )
        &&& forall|i: int|
            0 <= i < self.block0_nodes().len() ==> Self::spec_child_block_ok(
                self.block0_nodes()[i].child_id,
                BLOCK0_CHILD_LEN as int,
                self.subblock_4_nodes().len() as int,
            )
    }

    /// An empty store, trivially well-formed.
    pub fn new() -> (r: LodData)
        ensures
            r.wf(),
            r.region9_nodes().len() == 0,
            r.chunk5_nodes().len() == 0,
            r.block0_nodes().len() == 0,
            r.subblock_4_nodes().len() == 0,
    {
        LodData { region9: Vec::new(), chunk5: Vec::new(), block0: Vec::new(), subblock_4: Vec::new() }
    }

    /// Append an anchor-level node; its child block, if any, must already
    /// lie inside the `Chunk5` arena.
    pub fn push_region9(&mut self, node: Region9) -> (idx: usize)
        requires
            old(self).wf(),
            Self::spec_child_block_ok(
                node.child_id,
                REGION9_CHILD_LEN as int,
                old(self).chunk5_nodes().len() as int,
            ),
            old(self).region9_nodes().len() < usize::MAX,
        ensures
            final(self).wf(),
            idx == old(self).region9_nodes().len(),
            final(self).region9_nodes() == old(self).region9_nodes().push(node),
            final(self).chunk5_nodes() == old(self).chunk5_nodes(),
            final(self).block0_nodes() == old(self).block0_nodes(),
            final(self).subblock_4_nodes() == old(self).subblock_4_nodes(),
    {
        let idx = self.region9.len();
        self.region9.push(node);
        idx
    }

    /// Append a `Chunk5` node; its child block, if any, must already lie
    /// inside the `Block0` arena.
    pub fn push_chunk5(&mut self, node: Chunk5) -> (idx: usize)
        requires
            old(self).wf(),
            Self::spec_child_block_ok(
                node.child_id,
                CHUNK5_CHILD_LEN as int,
                old(self).block0_nodes().len() as int,
            ),
            old(self).chunk5_nodes().len() < usize::MAX,
        ensures
            final(self).wf(),
            idx == old(self).chunk5_nodes().len(),
            final(self).chunk5_nodes() == old(self).chunk5_nodes().push(node),
            final(self).region9_nodes() == old(self).region9_nodes(),
            final(self).block0_nodes() == old(self).block0_nodes(),
            final(self).subblock_4_nodes() == old(self).subblock_4_nodes(),
    {
        let idx = self.chunk5.len();
        self.chunk5.push(node);
        idx
    }

    /// Append a `Block0` node; its child block, if any, must already lie
    /// inside the `SubBlock_4` arena.
    pub fn push_block0(&mut self, node: Block0) -> (idx: usize)
        requires
            old(self).wf(),
            Self::spec_child_block_ok(
                node.child_id,
                BLOCK0_CHILD_LEN as int,
                old(self).subblock_4_nodes().len() as int,
            ),
            old(self).block0_nodes().len() < usize::MAX,
        ensures
            final(self).wf(),
            idx == old(self).block0_nodes().len(),
            final(self).block0_nodes() == old(self).block0_nodes().push(node),
            final(self).region9_nodes() == old(self).region9_nodes(),
            final(self).chunk5_nodes() == old(self).chunk5_nodes(),
            final(self).subblock_4_nodes() == old(self).subblock_4_nodes(),
    {
        let idx = self.block0.len();
        self.block0.push(node);
        idx
    }

    /// Append a bottom-level node.
    pub fn push_subblock_4(&mut self, node: SubBlock_4) -> (idx: usize)
        requires
            old(self).wf(),
            old(self).subblock_4_nodes().len() < usize::MAX,
        ensures
            final(self).wf(),
            idx == old(self).subblock_4_nodes().len(),
            final(self).subblock_4_nodes() == old(self).subblock_4_nodes().push(node),
            final(self).region9_nodes() == old(self).region9_nodes(),
            final(self).chunk5_nodes() == old(self).chunk5_nodes(),
            final(self).block0_nodes() == old(self).block0_nodes(),
    {
        let idx = self.subblock_4.len();
        self.subblock_4.push(node);
        idx
    }

    pub fn region9(&self, idx: usize) -> (node: &Region9)
        requires
            idx < self.region9_nodes().len(),
        ensures
            *node == self.region9_nodes()[idx as int],
    {
        &self.region9[idx]
    }

    pub fn chunk5(&self, idx: usize) -> (node: &Chunk5)
        requires
            idx < self.chunk5_nodes().len(),
        ensures
            *node == self.chunk5_nodes()[idx as int],
    {
        &self.chunk5[idx]
    }

    pub fn block0(&self, idx: usize) -> (node: &Block0)
        requires
            idx < self.block0_nodes().len(),
        ensures
            *node == self.block0_nodes()[idx as int],
    {
        &self.block0[idx]
    }

    pub fn subblock_4(&self, idx: usize) -> (node: &SubBlock_4)
        requires
            idx < self.subblock_4_nodes().len(),
        ensures
            *node == self.subblock_4_nodes()[idx as int],
    {
        &self.subblock_4[idx]
    }

    /// What one traversal step from a node yields: the node is a leaf
    /// (`Ok(None)`), the child slot's arena index (`Ok(Some(_))`), or the
    /// recorded index is out of the child arena's bounds (`Err`).
    pub open spec fn spec_step(
        child: Option<u32>,
        offset: int,
        block_len: int,
        arena_len: int,
    ) -> Result<Option<usize>, LodError> {
        match child {
            None => Ok(None),
            Some(c) => if c + offset < arena_len {
                Ok(Some((c + offset) as usize))
            } else {
                Err(LodError::ChildOutOfBounds)
            },
        }
    }

    /// Resolve the `offset`-th child of an anchor-level node to its index
    /// in the `Chunk5` arena. Fails, rather than returning wrong data, if
    /// the recorded child block index no longer fits the child arena; on a
    /// well-formed store it never fails.
    pub fn region9_child(&self, idx: usize, offset: usize) -> (r: Result<Option<usize>, LodError>)
        requires
            idx < self.region9_nodes().len(),
            offset < REGION9_CHILD_LEN,
        ensures
            r == Self::spec_step(
                self.region9_nodes()[idx as int].child_id,
                offset as int,
                REGION9_CHILD_LEN as int,
                self.chunk5_nodes().len() as int,
            ),
            self.wf() ==> !(r is Err),
    {
        match self.region9[idx].child_id {
            None => Ok(None),
            Some(c) => {
                let base = c as usize;
                if offset < self.chunk5.len() && base < self.chunk5.len() - offset {
                    Ok(Some(base + offset))
                } else {
                    Err(LodError::ChildOutOfBounds)
                }
            },
        }
    }

    /// Resolve the `offset`-th child of a `Chunk5` node to its index in
    /// the `Block0` arena; fails on a stale child block index.
    pub fn chunk5_child(&self, idx: usize, offset: usize) -> (r: Result<Option<usize>, LodError>)
        requires
            idx < self.chunk5_nodes().len(),
            offset < CHUNK5_CHILD_LEN,
        ensures
            r == Self::spec_step(
                self.chunk5_nodes()[idx as int].child_id,
                offset as int,
                CHUNK5_CHILD_LEN as int,
                self.block0_nodes().len() as int,
            ),
            self.wf() ==> !(r is Err),
    {
        match self.chunk5[idx].child_id {
            None => Ok(None),
            Some(c) => {
                let base = c as usize;
                if offset < self.block0.len() && base < self.block0.len() - offset {
                    Ok(Some(base + offset))
                } else {
                    Err(LodError::ChildOutOfBounds)
                }
            },
        }
    }

    /// Resolve the `offset`-th child of a `Block0` node to its index in
    /// the `SubBlock_4` arena; fails on a stale child block index.
    pub fn block0_child(&self, idx: usize, offset: usize) -> (r: Result<Option<usize>, LodError>)
        requires
            idx < self.block0_nodes().len(),
            offset < BLOCK0_CHILD_LEN,
        ensures
            r == Self::spec_step(
                self.block0_nodes()[idx as int].child_id,
                offset as int,
                BLOCK0_CHILD_LEN as int,
                self.subblock_4_nodes().len() as int,
            ),
            self.wf() ==> !(r is Err),
    {
        match self.block0[idx].child_id {
            None => Ok(None),
            Some(c) => {
                let base = c as usize;
                if offset < self.subblock_4.len() && base < self.subblock_4.len() - offset {
                    Ok(Some(base + offset))
                } else {
                    Err(LodError::ChildOutOfBounds)
                }
            },
        }
    }

    /// Descend from an anchor node to the material of one sixteenth-voxel
    /// cell, following one child offset per populated level. Returns the
    /// material of the deepest populated node on the path: a node without
    /// a child block is a leaf at its configured resolution.
    pub fn sample_material(
        &self,
        anchor: usize,
        chunk5_offset: usize,
        block0_offset: usize,
        subblock_offset: usize,
    ) -> (r: Result<Option<u32>, LodError>)
        requires
            anchor < self.region9_nodes().len(),
            chunk5_offset < REGION9_CHILD_LEN,
            block0_offset < CHUNK5_CHILD_LEN,
            subblock_offset < BLOCK0_CHILD_LEN,
        ensures
            self.wf() ==> !(r is Err),
            r == self.spec_sample_material(anchor, chunk5_offset, block0_offset, subblock_offset),
    {
        let c5 = match self.region9_child(anchor, chunk5_offset)? {
            None => {
                return Ok(None);
            },
            Some(i) => i,
        };
        let b0 = match self.chunk5_child(c5, block0_offset)? {
            None => {
                return Ok(None);
            },
            Some(i) => i,
        };
        let sb = match self.block0_child(b0, subblock_offset)? {
            None => {
                return Ok(Some(self.block0[b0].material));
            },
            Some(i) => i,
        };
        Ok(Some(self.subblock_4[sb].material))
    }

    /// The value `sample_material` returns: each step either stops at a
    /// leaf, resolves one level down, or fails on a stale child index.
    pub open spec fn spec_sample_material(
        self,
        anchor: usize,
        chunk5_offset: usize,
        block0_offset: usize,
        subblock_offset: usize,
    ) -> Result<Option<u32>, LodError> {
        match Self::spec_step(
            self.region9_nodes()[anchor as int].child_id,
            chunk5_offset as int,
            REGION9_CHILD_LEN as int,
            self.chunk5_nodes().len() as int,
        ) {
            Err(e) => Err(e),
            Ok(None) => Ok(None),
            Ok(Some(c5)) => match Self::spec_step(
                self.chunk5_nodes()[c5 as int].child_id,
                block0_offset as int,
                CHUNK5_CHILD_LEN as int,
                self.block0_nodes().len() as int,
            ) {
                Err(e) => Err(e),
                Ok(None) => Ok(None),
                Ok(Some(b0)) => match Self::spec_step(
                    self.block0_nodes()[b0 as int].child_id,
                    subblock_offset as int,
                    BLOCK0_CHILD_LEN as int,
                    self.subblock_4_nodes().len() as int,
                ) {
                    Err(e) => Err(e),
                    Ok(None) => Ok(Some(self.block0_nodes()[b0 as int].material)),
                    Ok(Some(sb)) => Ok(Some(self.subblock_4_nodes()[sb as int].material)),
                },
            },
        }
    }
}

} // verus!
