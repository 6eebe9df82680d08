use voxel_world::math::{
    chunk_local_to_world, index_to_local, local_to_index, world_to_chunk, world_to_local,
    IVec3, CHUNK_HEIGHT, CHUNK_SIZE, CHUNK_VOLUME,
};

#[test]
fn test_ivec3_operations() {
    let a = IVec3::new(1, 2, 3);
    let b = IVec3::new(4, 5, 6);

    assert_eq!(a.add(b), IVec3::new(5, 7, 9));
    assert_eq!(b.sub(a), IVec3::new(3, 3, 3));
    assert_eq!(a.mul(2), IVec3::new(2, 4, 6));
    assert_eq!(a.div(2), IVec3::new(0, 1, 1)); // Integer division

    assert_eq!(a.dot(b), 32); // 1*4 + 2*5 + 3*6
    assert_eq!(a.length_squared(), 14); // 1 + 4 + 9
}

#[test]
fn test_coordinate_conversions() {
    // World to chunk conversion
    assert_eq!(world_to_chunk(IVec3::new(0, 0, 0)), IVec3::new(0, 0, 0));
    assert_eq!(world_to_chunk(IVec3::new(15, 100, 15)), IVec3::new(0, 0, 0));
    assert_eq!(world_to_chunk(IVec3::new(16, 50, 16)), IVec3::new(1, 0, 1));
    assert_eq!(world_to_chunk(IVec3::new(-1, 0, -1)), IVec3::new(-1, 0, -1));
    assert_eq!(world_to_chunk(IVec3::new(-16, 0, -16)), IVec3::new(-1, 0, -1));
    assert_eq!(world_to_chunk(IVec3::new(-17, 0, -17)), IVec3::new(-2, 0, -2));

    // World to local conversion
    assert_eq!(world_to_local(IVec3::new(0, 100, 0)), IVec3::new(0, 100, 0));
    assert_eq!(world_to_local(IVec3::new(15, 50, 15)), IVec3::new(15, 50, 15));
    assert_eq!(world_to_local(IVec3::new(16, 25, 16)), IVec3::new(0, 25, 0));
    assert_eq!(world_to_local(IVec3::new(-1, 10, -1)), IVec3::new(15, 10, 15));

    // Round-trip conversion
    let world_pos = IVec3::new(123, 45, -67);
    let chunk_pos = world_to_chunk(world_pos);
    let local_pos = world_to_local(world_pos);
    let reconstructed = chunk_local_to_world(chunk_pos, local_pos);
    assert_eq!(world_pos, reconstructed);
}

#[test]
fn test_index_conversions() {
    // Valid coordinates
    let pos = IVec3::new(5, 10, 7);
    let index = local_to_index(pos).unwrap();
    let reconstructed = index_to_local(index).unwrap();
    assert_eq!(pos, reconstructed);

    // Bounds checking
    assert!(local_to_index(IVec3::new(-1, 0, 0)).is_none());
    assert!(local_to_index(IVec3::new(CHUNK_SIZE, 0, 0)).is_none());
    assert!(local_to_index(IVec3::new(0, -1, 0)).is_none());
    assert!(local_to_index(IVec3::new(0, CHUNK_HEIGHT, 0)).is_none());
    assert!(local_to_index(IVec3::new(0, 0, CHUNK_SIZE)).is_none());

    // Index bounds
    assert!(index_to_local(CHUNK_VOLUME).is_none());
    assert!(index_to_local(CHUNK_VOLUME + 1).is_none());

    // Corner cases
    assert_eq!(local_to_index(IVec3::new(0, 0, 0)).unwrap(), 0);
    assert_eq!(index_to_local(0).unwrap(), IVec3::new(0, 0, 0));

    let max_pos = IVec3::new(CHUNK_SIZE - 1, CHUNK_HEIGHT - 1, CHUNK_SIZE - 1);
    let max_index = local_to_index(max_pos).unwrap();
    assert_eq!(max_index, CHUNK_VOLUME - 1);
    assert_eq!(index_to_local(max_index).unwrap(), max_pos);
}

#[test]
fn test_round_trip_many_world_positions() {
    // The round-trip law on a spread of positive and negative coordinates.
    let xs = [-1000, -17, -16, -1, 0, 1, 15, 16, 31, 1000];
    for &x in xs.iter() {
        for &z in xs.iter() {
            let w = IVec3::new(x, 77, z);
            let back = chunk_local_to_world(world_to_chunk(w), world_to_local(w));
            assert_eq!(back, w);
        }
    }
}

#[test]
fn test_index_round_trip_all_axes() {
    // Both index round-trip directions on a spread of in-bounds coordinates.
    for x in 0..CHUNK_SIZE {
        for z in 0..CHUNK_SIZE {
            let l = IVec3::new(x, 200, z);
            let i = local_to_index(l).unwrap();
            assert_eq!(index_to_local(i).unwrap(), l);
        }
    }
    for i in [0usize, 1, 255, 256, 4095, 4096, 65535] {
        let l = index_to_local(i).unwrap();
        assert_eq!(local_to_index(l).unwrap(), i);
    }
}

#[test]
fn test_vector_min_max_clamp() {
    let a = IVec3::new(-5, 10, 3);
    let lo = IVec3::new(0, 0, 0);
    let hi = IVec3::new(4, 4, 4);
    assert_eq!(a.min(hi), IVec3::new(-5, 4, 3));
    assert_eq!(a.max(lo), IVec3::new(0, 10, 3));
    assert_eq!(a.clamp(lo, hi), IVec3::new(0, 4, 3));
    assert_eq!(IVec3::new(-1, -2, -3).abs(), IVec3::new(1, 2, 3));
}
