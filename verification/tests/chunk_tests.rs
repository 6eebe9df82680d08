use voxel_world::chunk::{Chunk, ChunkManager};
use voxel_world::math::{IVec3, CHUNK_HEIGHT, CHUNK_SIZE, CHUNK_VOLUME};
use voxel_world::AIR_BLOCK;

#[test]
fn test_chunk_creation() {
    let pos = IVec3::new(1, 0, 2);
    let chunk = Chunk::new(pos);

    assert_eq!(chunk.position, pos);
    assert!(chunk.is_empty());
    assert_eq!(chunk.count_solid_blocks(), 0);
    assert!(!chunk.is_dirty());

    // All blocks should be air
    for x in 0..CHUNK_SIZE {
        for y in 0..CHUNK_HEIGHT {
            for z in 0..CHUNK_SIZE {
                let local_pos = IVec3::new(x, y, z);
                assert_eq!(chunk.get_block(local_pos), AIR_BLOCK);
            }
        }
    }
}

#[test]
fn test_fresh_chunk_at_origin_is_air() {
    // A fresh chunk at (0,0,0) is entirely air.
    let chunk = Chunk::new(IVec3::new(0, 0, 0));
    assert!(chunk.is_empty());
    assert_eq!(chunk.count_solid_blocks(), 0);
    assert!(chunk.iter_blocks().is_empty());
}

#[test]
fn test_chunk_block_operations() {
    let mut chunk = Chunk::new(IVec3::new(0, 0, 0));
    let pos = IVec3::new(5, 10, 7);
    let stone_id = 1;

    // Set a block
    chunk.set_block(pos, stone_id).unwrap();
    assert_eq!(chunk.get_block(pos), stone_id);
    assert!(chunk.is_dirty());
    assert_eq!(chunk.count_solid_blocks(), 1);
    assert!(!chunk.is_empty());

    // Set back to air
    chunk.set_block(pos, AIR_BLOCK).unwrap();
    assert_eq!(chunk.get_block(pos), AIR_BLOCK);
    assert_eq!(chunk.count_solid_blocks(), 0);

    // Out of bounds
    let oob_pos = IVec3::new(-1, 0, 0);
    chunk.set_block(oob_pos, stone_id).unwrap(); // Should be ignored
    assert_eq!(chunk.get_block(oob_pos), AIR_BLOCK);
}

#[test]
fn test_chunk_fill() {
    let mut chunk = Chunk::new(IVec3::new(0, 0, 0));
    let stone_id = 1;

    chunk.fill(stone_id);
    assert!(chunk.is_dirty());
    assert!(!chunk.is_empty());
    assert_eq!(chunk.count_solid_blocks(), CHUNK_VOLUME);

    // Check a few positions
    assert_eq!(chunk.get_block(IVec3::new(0, 0, 0)), stone_id);
    assert_eq!(chunk.get_block(IVec3::new(8, 64, 12)), stone_id);
    assert_eq!(chunk.get_block(IVec3::new(15, 255, 15)), stone_id);
}

#[test]
fn test_chunk_manager() {
    let mut manager = ChunkManager::new();
    let chunk_pos = IVec3::new(1, 0, 2);
    let world_pos = IVec3::new(20, 50, 35); // Should be in chunk (1, 0, 2)
    let stone_id = 1;

    // Initially no chunks
    assert_eq!(manager.chunk_count(), 0);
    assert_eq!(manager.get_block(world_pos), AIR_BLOCK);

    // Set a block (should create chunk)
    manager.set_block(world_pos, stone_id).unwrap();
    assert_eq!(manager.chunk_count(), 1);
    assert_eq!(manager.get_block(world_pos), stone_id);

    // Chunk created at correct position
    assert!(manager.get_chunk(chunk_pos).is_some());

    // Unloading distant chunks
    let far_pos = IVec3::new(10, 0, 10);
    manager.get_or_create_chunk(far_pos);
    assert_eq!(manager.chunk_count(), 2);

    manager.unload_distant_chunks(IVec3::new(0, 0, 0), 5);
    assert_eq!(manager.chunk_count(), 1); // Far chunk should be unloaded
    assert!(manager.get_chunk(chunk_pos).is_some()); // Near chunk should remain
    assert!(manager.get_chunk(far_pos).is_none()); // Far chunk should be gone
}

#[test]
fn test_unload_distant_chunks_scenario() {
    // A manager holding chunks at (1,0,2) and (10,0,10): unloading around
    // the origin with radius 5 removes only (10,0,10).
    let mut manager = ChunkManager::new();
    let near = IVec3::new(1, 0, 2);
    let far = IVec3::new(10, 0, 10);
    manager.get_or_create_chunk(near);
    manager.get_or_create_chunk(far);
    assert_eq!(manager.chunk_count(), 2);

    manager.unload_distant_chunks(IVec3::new(0, 0, 0), 5);
    assert_eq!(manager.chunk_count(), 1);
    assert!(manager.get_chunk(near).is_some());
    assert!(manager.get_chunk(far).is_none());
}

#[test]
fn test_empty_manager_reads_air() {
    // A manager with no chunks: reads return air and never create a chunk.
    let manager = ChunkManager::new();
    for w in [
        IVec3::new(0, 0, 0),
        IVec3::new(-1, 64, -1),
        IVec3::new(1000, 255, -1000),
        IVec3::new(5, -3, 5),
    ] {
        assert_eq!(manager.get_block(w), AIR_BLOCK);
    }
    assert_eq!(manager.chunk_count(), 0);
    assert!(manager.loaded_chunks().is_empty());
}

#[test]
fn test_manager_insert_remove() {
    let mut manager = ChunkManager::new();
    let pos = IVec3::new(3, 0, -4);
    let mut chunk = Chunk::new(pos);
    chunk.set_block(IVec3::new(0, 0, 0), 2).unwrap();
    manager.insert_chunk(chunk);
    assert_eq!(manager.chunk_count(), 1);
    assert_eq!(manager.get_block(IVec3::new(48, 0, -64)), 2);

    // Overwrite at the same coordinate.
    manager.insert_chunk(Chunk::new(pos));
    assert_eq!(manager.chunk_count(), 1);
    assert_eq!(manager.get_block(IVec3::new(48, 0, -64)), AIR_BLOCK);

    let removed = manager.remove_chunk(pos).unwrap();
    assert_eq!(removed.position, pos);
    assert_eq!(manager.chunk_count(), 0);
    assert!(manager.remove_chunk(pos).is_none());
}

#[test]
fn test_dirty_tracking() {
    let mut manager = ChunkManager::new();
    manager.set_block(IVec3::new(0, 10, 0), 1).unwrap();
    manager.get_or_create_chunk(IVec3::new(7, 0, 7));

    // Only the written chunk is dirty.
    let dirty = manager.dirty_chunks();
    assert_eq!(dirty, vec![IVec3::new(0, 0, 0)]);

    // Marking it clean empties the dirty set.
    let chunk = manager.get_chunk_mut(IVec3::new(0, 0, 0)).unwrap();
    chunk.mark_clean();
    assert!(manager.dirty_chunks().is_empty());
    assert_eq!(manager.chunk_count(), 2);
}

#[test]
fn test_iter_blocks_ascending_non_air() {
    let mut chunk = Chunk::new(IVec3::new(0, 0, 0));
    chunk.set_block(IVec3::new(2, 0, 0), 4).unwrap();
    chunk.set_block(IVec3::new(1, 3, 5), 2).unwrap();
    chunk.set_block(IVec3::new(0, 0, 0), AIR_BLOCK).unwrap();

    let blocks = chunk.iter_blocks();
    // Non-air voxels only, in ascending voxel-index order (y major).
    assert_eq!(
        blocks,
        vec![(IVec3::new(2, 0, 0), 4), (IVec3::new(1, 3, 5), 2)]
    );
}
