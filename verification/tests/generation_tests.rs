use voxel_world::chunk::ChunkManager;
use voxel_world::generation::{Biome, TerrainConfig, TerrainGenerator};
use voxel_world::math::{IVec3, CHUNK_HEIGHT};
use voxel_world::registry::BlockRegistry;

#[test]
fn test_terrain_config() {
    let config = TerrainConfig::default();
    assert_eq!(config.seed, 12345);
    assert_eq!(config.sea_level, 64);
    assert!(config.height_scale > 0);
    assert!(config.height_cell > 0);
}

#[test]
fn test_terrain_generator() {
    let config = TerrainConfig::default();
    let generator = TerrainGenerator::new(config);

    // Height generation
    let height1 = generator.get_height(0, 0);
    let height2 = generator.get_height(100, 100);

    // Heights should be within bounds
    assert!(height1 >= 0);
    assert!(height1 <= generator.config().max_height);
    assert!(height2 >= 0);
    assert!(height2 <= generator.config().max_height);

    // Same coordinates should give same height
    assert_eq!(height1, generator.get_height(0, 0));

    // Block generation
    let surface_pos = IVec3::new(0, height1, 0);
    let surface_block = generator.get_block_at(surface_pos);
    assert_eq!(
        surface_block,
        generator.registry().get_by_name("grass").unwrap().id
    );

    let above_surface = IVec3::new(0, height1 + 10, 0);
    let air_block = generator.get_block_at(above_surface);
    assert_eq!(
        air_block,
        generator.registry().get_by_name("air").unwrap().id
    );

    let bedrock_pos = IVec3::new(0, 0, 0);
    let bedrock_block = generator.get_block_at(bedrock_pos);
    assert_eq!(
        bedrock_block,
        generator.registry().get_by_name("stone").unwrap().id
    );
}

#[test]
fn test_chunk_generation() {
    let config = TerrainConfig::default();
    let generator = TerrainGenerator::new(config);
    let chunk_pos = IVec3::new(0, 0, 0);

    let chunk = generator.generate_chunk(chunk_pos);
    assert_eq!(chunk.position, chunk_pos);
    assert!(!chunk.is_dirty()); // Newly generated chunks are clean
    assert!(!chunk.is_empty()); // Should have terrain

    // Should have some solid blocks (terrain)
    assert!(chunk.count_solid_blocks() > 0);

    // Blocks are properly set
    let mut found_surface = false;
    let mut found_air = false;

    let grass_id = generator.registry().get_by_name("grass").unwrap().id;
    for (_local_pos, block_id) in chunk.iter_blocks() {
        if block_id == grass_id {
            found_surface = true;
        }
    }

    // Air blocks above terrain
    let air_id = generator.registry().get_by_name("air").unwrap().id;
    for y in 200..CHUNK_HEIGHT {
        let pos = IVec3::new(8, y, 8);
        if chunk.get_block(pos) == air_id {
            found_air = true;
            break;
        }
    }

    assert!(found_surface, "Should have surface blocks");
    assert!(found_air, "Should have air blocks above terrain");
}

#[test]
fn test_biome_properties() {
    let registry = BlockRegistry::new();

    let plains = Biome::Plains;
    let mountains = Biome::Mountains;

    assert_eq!(
        plains.get_surface_block(&registry),
        registry.get_by_name("grass").unwrap().id
    );
    assert_eq!(
        mountains.get_surface_block(&registry),
        registry.get_by_name("stone").unwrap().id
    );

    assert!(mountains.get_height_scale() > plains.get_height_scale());
}

#[test]
fn test_generation_deterministic() {
    // Two generators built from identical configurations produce
    // byte-identical chunks at the same coordinate.
    let g1 = TerrainGenerator::new(TerrainConfig::default());
    let g2 = TerrainGenerator::new(TerrainConfig::default());
    for pos in [IVec3::new(0, 0, 0), IVec3::new(3, 0, -2), IVec3::new(-7, 0, 11)] {
        let c1 = g1.generate_chunk(pos);
        let c2 = g2.generate_chunk(pos);
        assert_eq!(c1.voxels, c2.voxels);
        assert_eq!(c1.palette.iter(), c2.palette.iter());
        assert_eq!(c1.position, c2.position);
        assert_eq!(c1.is_dirty(), c2.is_dirty());
    }
}

#[test]
fn test_height_bounds_everywhere() {
    let generator = TerrainGenerator::new(TerrainConfig::default());
    let max = generator.config().max_height;
    let coords = [-100000, -257, -31, -1, 0, 1, 99, 4096, 100000];
    for &x in coords.iter() {
        for &z in coords.iter() {
            let h = generator.get_height(x, z);
            assert!(h >= 0 && h <= max);
        }
    }
}

#[test]
fn test_surface_scenario() {
    // Stock config {seed 12345, sea level 64, max height 128}: the surface
    // block of the origin column is grass, ground zero is stone bedrock,
    // and well above the surface there is air.
    let generator = TerrainGenerator::new(TerrainConfig::default());
    let grass_id = generator.registry().get_by_name("grass").unwrap().id;
    let stone_id = generator.registry().get_by_name("stone").unwrap().id;
    let air_id = generator.registry().get_by_name("air").unwrap().id;

    let h = generator.get_height(0, 0);
    assert_eq!(generator.get_block_at(IVec3::new(0, h, 0)), grass_id);
    assert_eq!(generator.get_block_at(IVec3::new(0, 0, 0)), stone_id);
    assert_eq!(generator.get_block_at(IVec3::new(0, h + 10, 0)), air_id);
}

#[test]
fn test_generate_chunks_around() {
    // Generation around a center fills the whole square but never touches
    // chunks that are already loaded.
    let generator = TerrainGenerator::new(TerrainConfig::default());
    let mut manager = ChunkManager::new();

    // Pre-load one edited chunk inside the square.
    manager.set_block(IVec3::new(0, 200, 0), 4).unwrap();
    assert_eq!(manager.chunk_count(), 1);

    generator.generate_chunks_around(IVec3::new(0, 0, 0), 1, &mut manager);
    assert_eq!(manager.chunk_count(), 9);

    // The edited chunk kept its edit.
    assert_eq!(manager.get_block(IVec3::new(0, 200, 0)), 4);

    // A freshly generated neighbour is clean and holds terrain.
    let neighbour = manager.get_chunk(IVec3::new(1, 0, 1)).unwrap();
    assert!(!neighbour.is_dirty());
    assert!(neighbour.count_solid_blocks() > 0);
}

#[test]
fn test_cave_suppression_near_bedrock_and_cap() {
    // Caves never occur within 5 blocks of bedrock or of the height cap.
    let generator = TerrainGenerator::new(TerrainConfig::default());
    let max = generator.config().max_height;
    for xz in [-50, 0, 50] {
        for y in [-3, 0, 1, 5] {
            assert!(!generator.is_cave(xz, y, xz));
        }
        for y in [max - 5, max - 1, max, max + 40] {
            assert!(!generator.is_cave(xz, y, xz));
        }
    }
}
