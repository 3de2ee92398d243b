use voxygen::lod::{
    Block0, Chunk5, LayerInfo, LodData, Region9, SubBlock_4, TerrainLodConfig, ANCHOR_LAYER_ID,
    BLOCK0_CHILD_LEN, CHUNK5_CHILD_LEN, REGION9_CHILD_LEN,
};

/// Each populated layer reports the next populated layer down, and the
/// bottom layer none.
#[test]
fn child_layer_chain() {
    assert_eq!(Region9::child_layer_id(), Some(9));
    assert_eq!(Chunk5::child_layer_id(), Some(4));
    assert_eq!(Block0::child_layer_id(), Some(0));
    assert_eq!(SubBlock_4::child_layer_id(), None);
    assert_eq!(TerrainLodConfig::anchor_layer_id(), ANCHOR_LAYER_ID);
}

/// Layer volumes shrink strictly from the anchor down, and child counts
/// are the cube of the per-axis ratio between consecutive layers.
#[test]
fn layer_volumes_and_child_counts() {
    let r = Region9::layer_volume().data;
    let c = Chunk5::layer_volume().data;
    let b = Block0::layer_volume().data;
    let s = SubBlock_4::layer_volume().data;
    assert!(r.x > c.x && c.x > b.x && b.x > s.x);
    assert_eq!(Region9::child_len(), REGION9_CHILD_LEN);
    assert_eq!(Chunk5::child_len(), CHUNK5_CHILD_LEN);
    assert_eq!(Block0::child_len(), BLOCK0_CHILD_LEN);
    assert_eq!((r.x / c.x).pow(3), REGION9_CHILD_LEN as u32);
    assert_eq!((c.x / b.x).pow(3), CHUNK5_CHILD_LEN as u32);
    assert_eq!((b.x / s.x).pow(3), BLOCK0_CHILD_LEN as u32);
}

/// A node without a child block is a leaf; one with a child block reports
/// its arena index.
#[test]
fn get_child_index_reads_node() {
    assert_eq!(Region9::new(1000, 0, 0, 0, None).get_child_index(), None);
    assert_eq!(Region9::new(1000, 0, 0, 0, Some(17)).get_child_index(), Some(17));
    assert_eq!(Chunk5::new(0, 0, 0, 1000, Some(3)).get_child_index(), Some(3));
    assert_eq!(Block0::new(7, None).get_child_index(), None);
    assert_eq!(SubBlock_4::new(7).get_child_index(), None);
}

/// Build a store with one full path from the anchor to a sub-block and
/// sample a material through it; leaves on the way answer with their own
/// material.
#[test]
fn sample_material_descends() {
    let mut store = LodData::new();
    // Bottom-up: a full child block per level, so child indices are valid
    // when their parents are pushed.
    for i in 0..BLOCK0_CHILD_LEN {
        store.push_subblock_4(SubBlock_4::new(if i == 5 { 42 } else { 1 }));
    }
    for i in 0..CHUNK5_CHILD_LEN {
        let node = if i == 2 { Block0::new(7, Some(0)) } else { Block0::new(7, None) };
        store.push_block0(node);
    }
    for i in 0..REGION9_CHILD_LEN {
        let node = if i == 1 { Chunk5::new(0, 0, 0, 0, Some(0)) } else {
            Chunk5::new(0, 0, 0, 0, None)
        };
        store.push_chunk5(node);
    }
    let anchor = store.push_region9(Region9::new(0, 0, 0, 0, Some(0)));

    // Anchor -> chunk 1 -> block 2 -> sub-block 5.
    assert_eq!(store.sample_material(anchor, 1, 2, 5), Ok(Some(42)));
    // Block 3 of chunk 1 is a leaf: its own material answers.
    assert_eq!(store.sample_material(anchor, 1, 3, 5), Ok(Some(7)));
    // Chunk 0 is a leaf above the material layers: no material.
    assert_eq!(store.sample_material(anchor, 0, 2, 5), Ok(None));
}

/// A leaf anchor stops traversal at once.
#[test]
fn leaf_anchor() {
    let mut store = LodData::new();
    let anchor = store.push_region9(Region9::new(250, 250, 250, 250, None));
    assert_eq!(store.region9_child(anchor, 0), Ok(None));
    assert_eq!(store.sample_material(anchor, 0, 0, 0), Ok(None));
}
