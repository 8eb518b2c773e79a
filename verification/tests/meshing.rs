use voxel_engine::Chunk;
use voxel_engine::ChunkStatus;
use voxel_engine::VOXELS;
use voxel_engine::World;

fn face_of(w: u32) -> u32 {
    w >> 22
}

fn x_of(w: u32) -> u32 {
    (w >> 16) & 0x3F
}

fn y_of(w: u32) -> u32 {
    (w >> 10) & 0x3F
}

fn z_of(w: u32) -> u32 {
    (w >> 4) & 0x3F
}

fn voxel_of(w: u32) -> u32 {
    w & 0xF
}

fn world_with(chunks: Vec<Chunk>) -> World {
    let mut world = World::new();
    for c in chunks {
        world.insert_chunk(c);
    }
    world
}

#[test]
fn single_voxel_emits_six_unit_quads() {
    let mut chunk = Chunk::new(0, 0, 0);
    chunk.set_voxel(5, 6, 7, VOXELS::GRASS).unwrap();
    let world = world_with(vec![chunk]);
    let mesh = world.mesh_build_task(0, 0, 0);

    assert_eq!(mesh.vertices.len(), 36);
    for face in 0..6u32 {
        let count = mesh.vertices.iter().filter(|w| face_of(**w) == face).count();
        assert_eq!(count, 6, "one quad per face");
    }
    for w in &mesh.vertices {
        assert_eq!(voxel_of(*w), 3, "grass id on every vertex");
        assert!(x_of(*w) == 5 || x_of(*w) == 6);
        assert!(y_of(*w) == 6 || y_of(*w) == 7);
        assert!(z_of(*w) == 7 || z_of(*w) == 8);
    }
    // the top face lies one unit above the voxel
    for w in mesh.vertices.iter().filter(|w| face_of(**w) == 0) {
        assert_eq!(y_of(*w), 7);
    }
    // the bottom face lies at the voxel's base
    for w in mesh.vertices.iter().filter(|w| face_of(**w) == 1) {
        assert_eq!(y_of(*w), 6);
    }
}

#[test]
fn flat_slab_top_merges_to_one_quad_n8() {
    let mut chunk = Chunk::new(0, 0, 0);
    for x in 0..8 {
        for z in 0..8 {
            chunk.set_voxel(x, 0, z, VOXELS::SAND).unwrap();
        }
    }
    let world = world_with(vec![chunk]);
    let mesh = world.mesh_build_task(0, 0, 0);

    let top: Vec<u32> = mesh.vertices.iter().copied().filter(|w| face_of(*w) == 0).collect();
    assert_eq!(top.len(), 6, "a single merged quad covers the 8x8 top");
    for w in &top {
        assert_eq!(y_of(*w), 1);
        assert!(x_of(*w) == 0 || x_of(*w) == 8);
        assert!(z_of(*w) == 0 || z_of(*w) == 8);
    }
}

#[test]
fn flat_slab_top_merges_to_one_quad_n32() {
    let mut chunk = Chunk::new(0, 0, 0);
    for x in 0..32 {
        for z in 0..32 {
            chunk.set_voxel(x, 0, z, VOXELS::SAND).unwrap();
        }
    }
    let world = world_with(vec![chunk]);
    let mesh = world.mesh_build_task(0, 0, 0);

    let top: Vec<u32> = mesh.vertices.iter().copied().filter(|w| face_of(*w) == 0).collect();
    assert_eq!(top.len(), 6, "a single merged quad covers the whole 32x32 top");
    for w in &top {
        assert_eq!(y_of(*w), 1);
        assert!(x_of(*w) == 0 || x_of(*w) == 32);
        assert!(z_of(*w) == 0 || z_of(*w) == 32);
    }
    // every other face of the slab merges too: one quad each
    assert_eq!(mesh.vertices.len(), 36);
}

fn solid_chunk(x: i32, y: i32, z: i32) -> Chunk {
    let mut chunk = Chunk::new(x, y, z);
    for cx in 0..32 {
        for cy in 0..32 {
            for cz in 0..32 {
                chunk.set_voxel(cx, cy, cz, VOXELS::COBBLESTONE).unwrap();
            }
        }
    }
    chunk
}

#[test]
fn shared_face_of_adjacent_solid_chunks_is_culled() {
    let world = world_with(vec![solid_chunk(0, 0, 0), solid_chunk(1, 0, 0)]);

    let mesh_a = world.mesh_build_task(0, 0, 0);
    let mesh_b = world.mesh_build_task(1, 0, 0);

    // the +x face of the left chunk and the -x face of the right chunk
    // meet at the shared boundary and must both vanish
    assert_eq!(mesh_a.vertices.iter().filter(|w| face_of(**w) == 2).count(), 0);
    assert_eq!(mesh_b.vertices.iter().filter(|w| face_of(**w) == 3).count(), 0);
    // the other five faces of each cube merge to one quad apiece
    assert_eq!(mesh_a.vertices.len(), 30);
    assert_eq!(mesh_b.vertices.len(), 30);
}

#[test]
fn water_pass_is_isolated_and_last() {
    let mut chunk = Chunk::new(0, 0, 0);
    chunk.set_voxel(0, 0, 0, VOXELS::SAND).unwrap();
    chunk.set_voxel(10, 5, 10, VOXELS::WATER).unwrap();
    let world = world_with(vec![chunk]);
    let mesh = world.mesh_build_task(0, 0, 0);

    // the sand cube: six quads; the water cell: one upward quad
    assert_eq!(mesh.vertices.len(), 42);
    let (opaque, water) = mesh.vertices.split_at(36);
    for w in opaque {
        assert_ne!(voxel_of(*w), 7, "no water in the opaque pass");
        assert_ne!(voxel_of(*w), 0, "no empty cells in the opaque pass");
    }
    for w in water {
        assert_eq!(voxel_of(*w), 7, "only water in the water pass");
        assert_eq!(face_of(*w), 0, "water is meshed single-sided, upward");
        assert_eq!(y_of(*w), 6);
    }
}

#[test]
fn water_is_invisible_to_the_opaque_pass() {
    // a lone water cell produces no opaque geometry at all
    let mut chunk = Chunk::new(0, 0, 0);
    chunk.set_voxel(3, 3, 3, VOXELS::WATER).unwrap();
    let world = world_with(vec![chunk]);
    let mesh = world.mesh_build_task(0, 0, 0);
    assert_eq!(mesh.vertices.len(), 6);
    assert!(mesh.vertices.iter().all(|w| voxel_of(*w) == 7 && face_of(*w) == 0));
}

#[test]
fn remeshing_unchanged_chunk_is_byte_identical() {
    let mut chunk = Chunk::new(0, 0, 0);
    for x in 0..5 {
        for z in 0..9 {
            chunk.set_voxel(x, 3, z, VOXELS::DIRT).unwrap();
        }
    }
    chunk.set_voxel(2, 4, 2, VOXELS::GRASS).unwrap();
    let mut world = world_with(vec![chunk]);

    let first = world.mesh_build_task(0, 0, 0);
    let first_vertices = first.vertices.clone();
    let n = world.finish_mesh(0, 0, 0, first, 17);
    assert!(n > 0);
    // the chunk is now Clean and carries a GPU handle; its voxels are
    // untouched, so a second build must reproduce the stream exactly
    let second = world.mesh_build_task(0, 0, 0);
    assert_eq!(first_vertices, second.vertices);
}

#[test]
fn adjacent_cells_merge_into_one_quad() {
    // two cells side by side along x: their top faces merge across columns
    let mut chunk = Chunk::new(0, 0, 0);
    chunk.set_voxel(0, 0, 0, VOXELS::DIRT).unwrap();
    chunk.set_voxel(1, 0, 0, VOXELS::DIRT).unwrap();
    let world = world_with(vec![chunk]);
    let mesh = world.mesh_build_task(0, 0, 0);
    let top: Vec<u32> = mesh.vertices.iter().copied().filter(|w| face_of(*w) == 0).collect();
    assert_eq!(top.len(), 6);
    assert!(top.iter().any(|w| x_of(*w) == 2), "the quad spans both cells");

    // two cells in a row along z: their top faces merge within one column
    let mut chunk = Chunk::new(0, 0, 0);
    chunk.set_voxel(0, 0, 0, VOXELS::DIRT).unwrap();
    chunk.set_voxel(0, 0, 1, VOXELS::DIRT).unwrap();
    let world = world_with(vec![chunk]);
    let mesh = world.mesh_build_task(0, 0, 0);
    let top: Vec<u32> = mesh.vertices.iter().copied().filter(|w| face_of(*w) == 0).collect();
    assert_eq!(top.len(), 6);
    assert!(top.iter().any(|w| z_of(*w) == 2), "the run covers both cells");
}

#[test]
fn different_types_do_not_merge() {
    // equal exposure but different voxel types: one quad each
    let mut chunk = Chunk::new(0, 0, 0);
    chunk.set_voxel(0, 0, 0, VOXELS::DIRT).unwrap();
    chunk.set_voxel(1, 0, 0, VOXELS::SAND).unwrap();
    let world = world_with(vec![chunk]);
    let mesh = world.mesh_build_task(0, 0, 0);
    let top: Vec<u32> = mesh.vertices.iter().copied().filter(|w| face_of(*w) == 0).collect();
    assert_eq!(top.len(), 12, "two unmerged top quads");
    // the faces the two cells share are still culled: each cube shows only
    // five faces
    assert_eq!(mesh.vertices.len(), 60);
}

#[test]
fn empty_chunk_yields_no_vertices() {
    let world = world_with(vec![Chunk::new(0, 0, 0)]);
    let mesh = world.mesh_build_task(0, 0, 0);
    assert_eq!(mesh.vertices.len(), 0);
}

#[test]
fn mesh_status_transitions() {
    let mut chunk = Chunk::new(0, 0, 0);
    assert_eq!(chunk.status, ChunkStatus::Empty);
    chunk.set_voxel(1, 1, 1, VOXELS::WOOD).unwrap();
    assert_eq!(chunk.status, ChunkStatus::Dirty);
    let mut world = world_with(vec![chunk]);
    let mesh = world.mesh_build_task(0, 0, 0);
    world.finish_mesh(0, 0, 0, mesh, 3);
    assert_eq!(world.get_chunk(0, 0, 0).unwrap().status, ChunkStatus::Clean);
    assert_eq!(world.get_chunk(0, 0, 0).unwrap().vao, Some(3));
    // a later edit invalidates the mesh again
    world.set_voxel(2, 2, 2, VOXELS::SAND).unwrap();
    assert_eq!(world.get_chunk(0, 0, 0).unwrap().status, ChunkStatus::Dirty);
}
