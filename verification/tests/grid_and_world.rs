use voxel_engine::renderer::BufferElement;
use voxel_engine::renderer::BufferElementType;
use voxel_engine::renderer::BufferLayout;

use voxel_engine::Chunk;
use voxel_engine::ChunkStatus;
use voxel_engine::ENTITIES;
use voxel_engine::Face;
use voxel_engine::VOXELS;
use voxel_engine::World;

#[test]
fn set_then_get_round_trips() {
    let mut chunk = Chunk::new(0, 0, 0);
    chunk.set_voxel(1, 2, 3, VOXELS::GRASS).unwrap();
    chunk.set_voxel(31, 31, 31, VOXELS::SNOW).unwrap();
    chunk.set_voxel(0, 0, 0, VOXELS::DIRT).unwrap();
    assert_eq!(chunk.get_voxel(1, 2, 3), VOXELS::GRASS);
    assert_eq!(chunk.get_voxel(31, 31, 31), VOXELS::SNOW);
    assert_eq!(chunk.get_voxel(0, 0, 0), VOXELS::DIRT);
    // distinct coordinates landed in distinct cells
    assert_eq!(chunk.get_voxel(3, 2, 1), VOXELS::EMPTY);
    assert_eq!(chunk.get_voxel(2, 1, 3), VOXELS::EMPTY);
}

#[test]
fn out_of_range_set_fails_but_dirties() {
    let mut chunk = Chunk::new(0, 0, 0);
    assert!(chunk.set_voxel(32, 0, 0, VOXELS::SAND).is_err());
    assert!(chunk.set_voxel(0, -1, 0, VOXELS::SAND).is_err());
    assert_eq!(chunk.status, ChunkStatus::Dirty);
    assert_eq!(chunk.get_voxel(0, 0, 0), VOXELS::EMPTY);
}

#[test]
fn cluster_reads_across_the_boundary() {
    let mut left = Chunk::new(-1, 0, 0);
    left.set_voxel(31, 4, 5, VOXELS::WOOD).unwrap();
    let mut center = Chunk::new(0, 0, 0);
    center.set_voxel(0, 4, 5, VOXELS::GRASS).unwrap();
    let mut world = World::new();
    world.insert_chunk(left);
    world.insert_chunk(center);

    let cluster = voxel_engine::ChunkCluster::new(&world, 0, 0, 0);
    // one step out along -x lands on the neighbor's far column
    assert_eq!(cluster.get_voxel(-1, 4, 5), VOXELS::WOOD);
    assert_eq!(cluster.get_voxel(0, 4, 5), VOXELS::GRASS);
    // an absent neighbor reads as empty
    assert_eq!(cluster.get_voxel(32, 4, 5), VOXELS::EMPTY);
    // a diagonal or two-step overhang reads as empty, never panics
    assert_eq!(cluster.get_voxel(-1, -1, 5), VOXELS::EMPTY);
    assert_eq!(cluster.get_voxel(-33, 4, 5), VOXELS::EMPTY);
    assert!(!cluster.is_face_visible(0, 4, 5, Face::Left));
    assert!(cluster.is_face_visible(0, 4, 5, Face::Top));
}

#[test]
fn world_setter_resolves_the_owning_chunk() {
    let mut world = World::new();
    world.insert_chunk(Chunk::new(0, 0, 0));
    world.insert_chunk(Chunk::new(-1, 0, 0));

    world.set_voxel(5, 6, 7, VOXELS::SAND).unwrap();
    world.set_voxel(-3, 6, 7, VOXELS::WOOD).unwrap();
    assert_eq!(world.get_voxel(5, 6, 7), VOXELS::SAND);
    assert_eq!(world.get_voxel(-3, 6, 7), VOXELS::WOOD);
    assert_eq!(world.get_chunk(-1, 0, 0).unwrap().get_voxel(29, 6, 7), VOXELS::WOOD);
    // a write outside every resident chunk is refused
    assert!(world.set_voxel(5, 40, 7, VOXELS::SAND).is_err());
    assert_eq!(world.get_voxel(5, 40, 7), VOXELS::EMPTY);
}

#[test]
fn compress_data_packs_the_wire_format() {
    let chunk = Chunk::new(0, 0, 0);
    let w = chunk.compress_data(1, 2, 3, Face::Top, VOXELS::SAND);
    assert_eq!(w, (1 << 16) | (2 << 10) | (3 << 4) | 1);
    let w = chunk.compress_data(32, 32, 32, Face::Back, VOXELS::WATER);
    assert_eq!(w, (5 << 22) | (32 << 16) | (32 << 10) | (32 << 4) | 7);
    assert_eq!(Face::Front.id(), 4);
    assert_eq!(Face::Front.offset(), (0, 0, 1));
}

#[test]
fn terrain_build_fills_elevation_bands() {
    let world = World::new();
    let heights = vec![12i32; 1024];
    let chunk = world.chunk_build_task(0, 0, 0, &heights);
    assert_eq!(chunk.status, ChunkStatus::Terrain);
    // the column tops out at global height 11: grass on top, dirt in the
    // 7..10 band, sand below
    assert_eq!(chunk.get_voxel(4, 11, 4), VOXELS::GRASS);
    assert_eq!(chunk.get_voxel(4, 9, 4), VOXELS::DIRT);
    assert_eq!(chunk.get_voxel(4, 3, 4), VOXELS::SAND);
    assert_eq!(chunk.get_voxel(4, 12, 4), VOXELS::EMPTY);
}

#[test]
fn sea_level_sand_top_gets_water_stacked() {
    let world = World::new();
    let heights = vec![-2i32; 1024];
    let chunk = world.chunk_build_task(0, 0, 0, &heights);
    // a clamped column of height one: sand at sea level, water above it
    assert_eq!(chunk.get_voxel(8, 0, 8), VOXELS::SAND);
    for y in 1..=4 {
        assert_eq!(chunk.get_voxel(8, y, 8), VOXELS::WATER);
    }
    assert_eq!(chunk.get_voxel(8, 5, 8), VOXELS::EMPTY);
}

#[test]
fn high_chunks_get_snow_and_cobblestone() {
    let world = World::new();
    let heights = vec![90i32; 1024];
    let chunk = world.chunk_build_task(0, 2, 0, &heights);
    // chunk base is 64: the snow band needs a base at 50 or above and a
    // local height above 5
    assert_eq!(chunk.get_voxel(0, 9, 0), VOXELS::SNOW);
    // below the local snow cutoff the global 35..50 band does not apply at 64+3
    assert_eq!(chunk.get_voxel(0, 3, 0), VOXELS::SAND);
}

#[test]
fn empty_heights_leave_chunk_empty() {
    let world = World::new();
    let heights = vec![5i32; 1024];
    // a chunk far above the terrain stays empty
    let chunk = world.chunk_build_task(0, 3, 0, &heights);
    assert_eq!(chunk.status, ChunkStatus::Empty);
}

#[test]
fn entity_scan_is_deterministic() {
    let world = World::new();
    let heights = vec![30i32; 1024];
    let a = world.chunk_build_task(0, 0, 0, &heights);
    let b = world.chunk_build_task(0, 0, 0, &heights);
    let ea = a.generate_entities();
    let eb = b.generate_entities();
    assert_eq!(ea, eb);
    assert!(!ea.is_empty(), "a full grass layer yields some seeds");
    for (x, y, z, e) in &ea {
        assert_eq!(*e, ENTITIES::SEED);
        // every seed sits on the grass layer at global height 29
        assert_eq!(*y, 29);
        assert!(*x >= 0 && *x < 32 && *z >= 0 && *z < 32);
        assert_eq!(a.get_voxel(*x, *y, *z), VOXELS::GRASS);
    }
}

#[test]
fn decoration_is_deterministic_and_dirties() {
    let heights = vec![30i32; 1024];
    let mut w1 = World::new();
    let mut w2 = World::new();
    for w in [&mut w1, &mut w2] {
        let c = w.chunk_build_task(0, 0, 0, &heights);
        w.insert_chunk(c);
    }
    w1.decorate_chunk(0, 0, 0);
    w2.decorate_chunk(0, 0, 0);
    assert_eq!(w1.get_chunk(0, 0, 0).unwrap().status, ChunkStatus::Dirty);
    let c1 = w1.get_chunk(0, 0, 0).unwrap();
    let c2 = w2.get_chunk(0, 0, 0).unwrap();
    for x in 0..32 {
        for y in 0..32 {
            for z in 0..32 {
                assert_eq!(c1.get_voxel(x, y, z), c2.get_voxel(x, y, z));
            }
        }
    }
    // some tree grew: wood above a seeded grass cell
    let seeds = c1.generate_entities();
    assert!(!seeds.is_empty());
}

#[test]
fn build_tree_at_writes_trunk_and_canopy() {
    let mut world = World::new();
    world.insert_chunk(Chunk::new(0, 0, 0));
    world.build_tree_at(10, 2, 10);
    for y in 3..=5 {
        assert_eq!(world.get_voxel(10, y, 10), VOXELS::WOOD);
    }
    for dx in -1..=1 {
        for dz in -1..=1 {
            assert_eq!(world.get_voxel(10 + dx, 6, 10 + dz), VOXELS::LEAVES);
        }
    }
    assert_eq!(world.get_voxel(10, 7, 10), VOXELS::LEAVES);
    assert_eq!(world.get_voxel(10, 8, 10), VOXELS::EMPTY);
}

#[test]
fn canopy_spills_into_the_neighbor_chunk() {
    let mut world = World::new();
    world.insert_chunk(Chunk::new(0, 0, 0));
    world.insert_chunk(Chunk::new(1, 0, 0));
    // a seed against the +x boundary: part of the canopy lands next door
    world.build_tree_at(31, 2, 10);
    assert_eq!(world.get_voxel(32, 6, 10), VOXELS::LEAVES);
    assert_eq!(world.get_chunk(1, 0, 0).unwrap().get_voxel(0, 6, 10), VOXELS::LEAVES);
    assert_eq!(world.get_chunk(1, 0, 0).unwrap().status, ChunkStatus::Dirty);
}

#[test]
fn promote_partitions_the_render_range() {
    let mut world = World::new();
    let (build, decorate, remesh) = world.promote_chunks(0, 0, 0);
    // nothing is resident: the whole 7x7x7 box needs terrain
    assert_eq!(build.len(), 343);
    assert!(build.contains(&(0, 0, 0)));
    assert!(build.contains(&(3, -3, 3)));
    assert!(!build.contains(&(4, 0, 0)));
    assert_eq!(decorate.len(), 0);
    assert_eq!(remesh.len(), 0);

    let heights = vec![20i32; 1024];
    let c = world.chunk_build_task(0, 0, 0, &heights);
    world.insert_chunk(c);
    let (build, decorate, remesh) = world.promote_chunks(0, 0, 0);
    assert_eq!(build.len(), 342);
    assert_eq!(decorate, vec![(0, 0, 0)]);
    assert_eq!(remesh.len(), 0);

    world.decorate_chunk(0, 0, 0);
    let (_, decorate, remesh) = world.promote_chunks(0, 0, 0);
    assert_eq!(decorate.len(), 0);
    assert_eq!(remesh, vec![(0, 0, 0)]);
}

#[test]
fn buffer_layout_accumulates_stride() {
    let mut layout = BufferLayout::new();
    assert_eq!(layout.size(), 0);
    layout.add(BufferElement { element_type: BufferElementType::U32, quantity: 1, normalized: false });
    layout.add(BufferElement { element_type: BufferElementType::F32, quantity: 3, normalized: false });
    assert_eq!(layout.size(), 16);
    assert!(BufferElementType::I32.is_integral());
    assert!(!BufferElementType::F32.is_integral());
    assert_eq!(BufferElementType::F32.size(), 4);
}
