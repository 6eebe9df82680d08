use voxel_world::registry::{BlockDef, BlockRegistry, Palette, PaletteError};
use voxel_world::{BlockKind, AIR_BLOCK};

#[test]
fn test_block_registry() {
    let registry = BlockRegistry::new();

    // Default blocks
    assert!(registry.get(AIR_BLOCK).is_some());
    assert_eq!(registry.get(AIR_BLOCK).unwrap().name, "air");
    assert_eq!(registry.get_kind(AIR_BLOCK), BlockKind::Air);
    assert!(registry.is_air(AIR_BLOCK));
    assert!(!registry.is_solid(AIR_BLOCK));

    let stone = registry.get_by_name("stone").unwrap();
    assert_eq!(stone.id, 1);
    assert_eq!(stone.kind, BlockKind::Solid);
    let stone_id = stone.id;
    assert!(registry.is_solid(stone_id));
    assert!(!registry.is_air(stone_id));

    // Unknown block
    assert!(registry.get(999).is_none());
    assert_eq!(registry.get_kind(999), BlockKind::Air); // Default to air
}

#[test]
fn test_palette() {
    let mut palette = Palette::new();

    // Air should be index 0
    assert_eq!(palette.get_block(0), AIR_BLOCK);
    assert_eq!(palette.get_palette_id(AIR_BLOCK), Some(0));
    assert_eq!(palette.len(), 1);

    // Add stone
    let stone_id = 1;
    let stone_palette_id = palette.add_block(stone_id).unwrap();
    assert_eq!(stone_palette_id, 1);
    assert_eq!(palette.get_block(1), stone_id);
    assert_eq!(palette.get_palette_id(stone_id), Some(1));
    assert_eq!(palette.len(), 2);

    // Adding same block should return same palette ID
    let stone_palette_id2 = palette.add_block(stone_id).unwrap();
    assert_eq!(stone_palette_id, stone_palette_id2);
    assert_eq!(palette.len(), 2);

    // Iteration
    let blocks: Vec<_> = palette.iter();
    assert_eq!(blocks, vec![(0, AIR_BLOCK), (1, stone_id)]);
}

#[test]
fn test_palette_exhaustion() {
    // A palette takes 255 distinct ids (air included); the 256th fails.
    let mut palette = Palette::new();
    for id in 1..=254u16 {
        palette.add_block(id).unwrap();
    }
    assert_eq!(palette.len(), 255);
    // An id already present still resolves fine.
    assert_eq!(palette.add_block(17).unwrap(), 17);
    assert_eq!(palette.len(), 255);
    // One more distinct id exhausts the palette.
    assert_eq!(palette.add_block(999), Err(PaletteError::Exhausted));
    assert_eq!(palette.len(), 255);
}

#[test]
fn test_palette_out_of_range_resolves_air() {
    let mut palette = Palette::new();
    palette.add_block(7).unwrap();
    assert_eq!(palette.get_block(1), 7);
    assert_eq!(palette.get_block(2), AIR_BLOCK);
    assert_eq!(palette.get_block(255), AIR_BLOCK);
    assert_eq!(palette.get_palette_id(42), None);
    assert!(!palette.is_empty());
}

#[test]
fn test_registry_register_overwrites_by_id() {
    let mut registry = BlockRegistry::new();
    registry.register(BlockDef::new(1, "basalt", BlockKind::Solid, 9));
    let basalt = registry.get(1).unwrap();
    assert_eq!(basalt.name, "basalt");
    assert_eq!(basalt.texture_id, 9);
    // The old name no longer resolves; the new one does.
    assert!(registry.get_by_name("stone").is_none());
    assert_eq!(registry.get_by_name("basalt").unwrap().id, 1);
}

#[test]
fn test_air_id_always_resolves_air() {
    // Id 0 is reserved: even after a solid definition is registered under
    // it, the kind queries keep resolving it as air.
    let mut registry = BlockRegistry::new();
    registry.register(BlockDef::new(0, "bogus", BlockKind::Solid, 5));
    assert_eq!(registry.get_kind(0), BlockKind::Air);
    assert!(registry.is_air(0));
    assert!(!registry.is_solid(0));
    // The definition itself is stored and retrievable by lookup.
    assert_eq!(registry.get(0).unwrap().name, "bogus");
}

#[test]
fn test_registry_register_new_id() {
    let mut registry = BlockRegistry::new();
    registry.register(BlockDef::new(42, "sand", BlockKind::Solid, 12));
    assert_eq!(registry.get(42).unwrap().name, "sand");
    assert_eq!(registry.get_by_name("sand").unwrap().id, 42);
    assert!(registry.is_solid(42));
    assert_eq!(registry.iter().len(), 6);
}

#[test]
fn test_block_def_builtins() {
    assert_eq!(BlockDef::air().id, AIR_BLOCK);
    assert_eq!(BlockDef::air().kind, BlockKind::Air);
    assert_eq!(BlockDef::stone().id, 1);
    assert_eq!(BlockDef::dirt().id, 2);
    assert_eq!(BlockDef::grass().id, 3);
    assert_eq!(BlockDef::wood().id, 4);
    assert!(BlockDef::wood().kind.is_solid());
    assert!(!BlockDef::air().kind.is_solid());
    assert!(BlockDef::air().kind.is_air());
}
