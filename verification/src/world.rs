//! The world: a map from 3D chunk coordinates to chunks, the face directions
//! of a voxel cube, and the read-only neighbor cluster that a mesh build
//! borrows for seamless cross-chunk face culling.

use vstd::prelude::*;

use std::collections::HashMap;

use crate::chunk::Chunk;
use crate::chunk::ChunkMeshData;
use crate::chunk::ChunkStatus;
use crate::chunk::ENTITIES;
use crate::chunk::all_empty;
use crate::chunk::clamp_height;
use crate::chunk::in_grid;
use crate::chunk::lemma_entities_bounds;
use crate::chunk::spec_entities;
use crate::chunk::spec_terrain_voxel;
use crate::mesh::spec_chunk_mesh;
use crate::settings::CHUNK_SIZE;
use crate::settings::MAX_CHUNK_COORD;
use crate::settings::RENDER_DISTANCE;
use crate::settings::VOXELS;

verus! {

broadcast use vstd::std_specs::hash::group_hash_axioms;

/// The map key of chunk coordinate `(x, y, z)`: the three coordinates,
/// shifted to non-negative, as the base-2³² digits of one integer.
pub open spec fn key_of(x: int, y: int, z: int) -> u128 {
    ((x + 0x80000000) + (y + 0x80000000) * 0x100000000 + (z + 0x80000000)
        * 0x10000000000000000) as u128
}

/// Distinct chunk coordinates get distinct map keys.
pub proof fn lemma_key_injective(x1: int, y1: int, z1: int, x2: int, y2: int, z2: int)
    requires
        -0x80000000 <= x1 < 0x80000000,
        -0x80000000 <= y1 < 0x80000000,
        -0x80000000 <= z1 < 0x80000000,
        -0x80000000 <= x2 < 0x80000000,
        -0x80000000 <= y2 < 0x80000000,
        -0x80000000 <= z2 < 0x80000000,
        key_of(x1, y1, z1) == key_of(x2, y2, z2),
    ensures
        x1 == x2 && y1 == y2 && z1 == z2,
{
    let a1 = x1 + 0x80000000;
    let b1 = y1 + 0x80000000;
    let c1 = z1 + 0x80000000;
    let a2 = x2 + 0x80000000;
    let b2 = y2 + 0x80000000;
    let c2 = z2 + 0x80000000;
    assert(a1 + b1 * 0x100000000 + c1 * 0x10000000000000000 == a2 + b2 * 0x100000000 + c2
        * 0x10000000000000000);
    let d = (b2 - b1) + 0x100000000 * (c2 - c1);
    assert(a1 - a2 == 0x100000000 * d);
    assert(d == 0 && a1 == a2);
    assert(b1 == b2 && c1 == c2);
}

/// Computes the map key of a chunk coordinate.
fn chunk_key(x: i32, y: i32, z: i32) -> (k: u128)
    ensures
        k == key_of(x as int, y as int, z as int),
{
    let ux = (x as i64 + 0x80000000) as u128;
    let uy = (y as i64 + 0x80000000) as u128;
    let uz = (z as i64 + 0x80000000) as u128;
    ux + uy * 0x100000000 + uz * 0x10000000000000000
}

/// One of the six axis-aligned face directions of a voxel cube.
#[derive(Clone, Copy, PartialEq, Eq, Structural, Debug)]
pub enum Face {
    Top,
    Bottom,
    Right,
    Left,
    Front,
    Back,
}

impl Face {
    pub open spec fn spec_id(self) -> i32 {
        match self {
            Face::Top => 0,
            Face::Bottom => 1,
            Face::Right => 2,
            Face::Left => 3,
            Face::Front => 4,
            Face::Back => 5,
        }
    }

    /// Numeric id packed into the high bits of a mesh vertex.
    pub fn id(&self) -> (r: i32)
        ensures
            r == self.spec_id(),
    {
        match self {
            Face::Top => 0,
            Face::Bottom => 1,
            Face::Right => 2,
            Face::Left => 3,
            Face::Front => 4,
            Face::Back => 5,
        }
    }

    pub open spec fn spec_offset(self) -> (i32, i32, i32) {
        match self {
            Face::Top => (0i32, 1i32, 0i32),
            Face::Bottom => (0i32, -1i32, 0i32),
            Face::Right => (1i32, 0i32, 0i32),
            Face::Left => (-1i32, 0i32, 0i32),
            Face::Front => (0i32, 0i32, 1i32),
            Face::Back => (0i32, 0i32, -1i32),
        }
    }

    /// The unit step from a voxel to the neighbor that this face looks at.
    pub fn offset(&self) -> (r: (i32, i32, i32))
        ensures
            r == self.spec_offset(),
    {
        match self {
            Face::Top => (0, 1, 0),
            Face::Bottom => (0, -1, 0),
            Face::Right => (1, 0, 0),
            Face::Left => (-1, 0, 0),
            Face::Front => (0, 0, 1),
            Face::Back => (0, 0, -1),
        }
    }

    /// All six faces, in emission order.
    pub fn iter() -> (r: [Face; 6])
        ensures
            r@ == seq![Face::Top, Face::Bottom, Face::Right, Face::Left, Face::Front, Face::Back],
    {
        [Face::Top, Face::Bottom, Face::Right, Face::Left, Face::Front, Face::Back]
    }

    pub open spec fn spec_coords(self) -> Seq<[i32; 3]> {
        match self {
            Face::Top => seq![
                [0i32, 1, 1],
                [1i32, 1, 1],
                [1i32, 1, 0],
                [1i32, 1, 0],
                [0i32, 1, 0],
                [0i32, 1, 1],
            ],
            Face::Bottom => seq![
                [0i32, 0, 0],
                [1i32, 0, 0],
                [1i32, 0, 1],
                [1i32, 0, 1],
                [0i32, 0, 1],
                [0i32, 0, 0],
            ],
            Face::Right => seq![
                [1i32, 0, 1],
                [1i32, 0, 0],
                [1i32, 1, 0],
                [1i32, 1, 0],
                [1i32, 1, 1],
                [1i32, 0, 1],
            ],
            Face::Left => seq![
                [0i32, 0, 0],
                [0i32, 0, 1],
                [0i32, 1, 1],
                [0i32, 1, 1],
                [0i32, 1, 0],
                [0i32, 0, 0],
            ],
            Face::Front => seq![
                [0i32, 0, 1],
                [1i32, 0, 1],
                [1i32, 1, 1],
                [1i32, 1, 1],
                [0i32, 1, 1],
                [0i32, 0, 1],
            ],
            Face::Back => seq![
                [1i32, 0, 0],
                [0i32, 0, 0],
                [0i32, 1, 0],
                [0i32, 1, 0],
                [1i32, 1, 0],
                [1i32, 0, 0],
            ],
        }
    }

    /// The six unit-cube corners of this face's quad, two triangles in
    /// counter-clockwise winding as seen from outside the cube.
    pub fn coords(&self) -> (r: [[i32; 3]; 6])
        ensures
            r@ == self.spec_coords(),
    {
        match self {
            Face::Top => [[0, 1, 1], [1, 1, 1], [1, 1, 0], [1, 1, 0], [0, 1, 0], [0, 1, 1]],
            Face::Bottom => [[0, 0, 0], [1, 0, 0], [1, 0, 1], [1, 0, 1], [0, 0, 1], [0, 0, 0]],
            Face::Right => [[1, 0, 1], [1, 0, 0], [1, 1, 0], [1, 1, 0], [1, 1, 1], [1, 0, 1]],
            Face::Left => [[0, 0, 0], [0, 0, 1], [0, 1, 1], [0, 1, 1], [0, 1, 0], [0, 0, 0]],
            Face::Front => [[0, 0, 1], [1, 0, 1], [1, 1, 1], [1, 1, 1], [0, 1, 1], [0, 0, 1]],
            Face::Back => [[1, 0, 0], [0, 0, 0], [0, 1, 0], [0, 1, 0], [1, 1, 0], [1, 0, 0]],
        }
    }
}

/// The world: the exclusive owner of every resident chunk, keyed by chunk
/// coordinate.
pub struct World {
    chunks: HashMap<u128, Chunk>,
}

impl World {
    pub closed spec fn spec_map(self) -> Map<u128, Chunk> {
        self.chunks@
    }

    /// Every resident chunk has a fully allocated grid, an in-range
    /// coordinate, and sits under the key of its own coordinate.
    pub open spec fn wf(self) -> bool {
        forall|k: u128|
            self.spec_map().contains_key(k) ==> {
                let c = #[trigger] self.spec_map()[k];
                &&& c.wf()
                &&& -MAX_CHUNK_COORD <= c.pos.0 <= MAX_CHUNK_COORD
                &&& -MAX_CHUNK_COORD <= c.pos.1 <= MAX_CHUNK_COORD
                &&& -MAX_CHUNK_COORD <= c.pos.2 <= MAX_CHUNK_COORD
                &&& key_of(c.pos.0 as int, c.pos.1 as int, c.pos.2 as int) == k
            }
    }

    pub open spec fn spec_has(self, x: int, y: int, z: int) -> bool {
        self.spec_map().contains_key(key_of(x, y, z))
    }

    pub open spec fn spec_chunk(self, x: int, y: int, z: int) -> Chunk {
        self.spec_map()[key_of(x, y, z)]
    }

    /// An empty world with no resident chunks.
    pub fn new() -> (w: World)
        ensures
            w.wf(),
            w.spec_map() == Map::<u128, Chunk>::empty(),
    {
        World { chunks: HashMap::new() }
    }

    /// Makes a chunk resident under its own coordinate, replacing any chunk
    /// already there.
    pub fn insert_chunk(&mut self, chunk: Chunk)
        requires
            old(self).wf(),
            chunk.wf(),
            -MAX_CHUNK_COORD <= chunk.pos.0 <= MAX_CHUNK_COORD,
            -MAX_CHUNK_COORD <= chunk.pos.1 <= MAX_CHUNK_COORD,
            -MAX_CHUNK_COORD <= chunk.pos.2 <= MAX_CHUNK_COORD,
        ensures
            final(self).wf(),
            final(self).spec_map() == old(self).spec_map().insert(
                key_of(chunk.pos.0 as int, chunk.pos.1 as int, chunk.pos.2 as int),
                chunk,
            ),
    {
        let k = chunk_key(chunk.pos.0, chunk.pos.1, chunk.pos.2);
        self.chunks.insert(k, chunk);
    }

    /// The resident chunk at a coordinate, if any.
    pub fn get_chunk(&self, x: i32, y: i32, z: i32) -> (r: Option<&Chunk>)
        requires
            self.wf(),
        ensures
            match r {
                Some(c) => self.spec_has(x as int, y as int, z as int) && *c == self.spec_chunk(
                    x as int,
                    y as int,
                    z as int,
                ),
                None => !self.spec_has(x as int, y as int, z as int),
            },
    {
        let k = chunk_key(x, y, z);
        self.chunks.get(&k)
    }
}

/// The voxel grids of every resident chunk, by map key.
pub open spec fn grid_of(m: Map<u128, Chunk>) -> Map<u128, Seq<VOXELS>> {
    Map::new(|k: u128| m.contains_key(k), |k: u128| m[k].voxels@)
}

/// One world-space voxel write, seen on the grids: the owning chunk's cell
/// is updated if that chunk is resident, and nothing happens otherwise.
pub open spec fn spec_set_grids(
    g: Map<u128, Seq<VOXELS>>,
    x: int,
    y: int,
    z: int,
    v: VOXELS,
) -> Map<u128, Seq<VOXELS>> {
    let k = key_of(x / 32, y / 32, z / 32);
    if g.contains_key(k) {
        g.insert(k, g[k].update(crate::chunk::spec_index(x % 32, y % 32, z % 32), v))
    } else {
        g
    }
}

/// Splits a world-space coordinate into its chunk coordinate (flooring
/// division) and its local coordinate within that chunk.
fn split_coord(g: i32) -> (r: (i32, i32))
    requires
        -0x4000000 <= g <= 0x4000000,
    ensures
        r.0 == g as int / 32,
        r.1 == g as int % 32,
{
    let t = g + 0x40000000;
    let tu = t as u32;
    let q = (tu / 32) as i32 - 0x2000000;
    let l = (tu % 32) as i32;
    proof {
        assert(g as int == 32 * (q as int) + l as int);
        assert(0 <= l < 32);
    }
    (q, l)
}

impl World {
    /// The voxel seen anywhere in the world: the owning chunk's cell, or
    /// `EMPTY` where no chunk is resident.
    pub open spec fn spec_world_voxel(self, x: int, y: int, z: int) -> VOXELS {
        if self.spec_has(x / 32, y / 32, z / 32) {
            self.spec_chunk(x / 32, y / 32, z / 32).spec_voxel(x % 32, y % 32, z % 32)
        } else {
            VOXELS::EMPTY
        }
    }

    /// Reads one voxel at a world-space coordinate.
    pub fn get_voxel(&self, x: i32, y: i32, z: i32) -> (v: VOXELS)
        requires
            self.wf(),
            -0x4000000 <= x <= 0x4000000,
            -0x4000000 <= y <= 0x4000000,
            -0x4000000 <= z <= 0x4000000,
        ensures
            v == self.spec_world_voxel(x as int, y as int, z as int),
    {
        let (cx, lx) = split_coord(x);
        let (cy, ly) = split_coord(y);
        let (cz, lz) = split_coord(z);
        match self.get_chunk(cx, cy, cz) {
            Some(c) => c.get_voxel(lx, ly, lz),
            None => VOXELS::EMPTY,
        }
    }

    /// Writes one voxel at a world-space coordinate, resolving the owning
    /// chunk — the route every decoration write takes, so a tree canopy may
    /// spill past its own chunk's edge. The write lands and dirties the
    /// owning chunk if one is resident; `Err(())` otherwise.
    pub fn set_voxel(&mut self, x: i32, y: i32, z: i32, voxel: VOXELS) -> (r: Result<(), ()>)
        requires
            old(self).wf(),
            -0x4000000 <= x <= 0x4000000,
            -0x4000000 <= y <= 0x4000000,
            -0x4000000 <= z <= 0x4000000,
        ensures
            final(self).wf(),
            final(self).spec_map().dom() == old(self).spec_map().dom(),
            grid_of(final(self).spec_map()) == spec_set_grids(
                grid_of(old(self).spec_map()),
                x as int,
                y as int,
                z as int,
                voxel,
            ),
            r is Ok <==> old(self).spec_has(x as int / 32, y as int / 32, z as int / 32),
            forall|k: u128|
                old(self).spec_map().contains_key(k) ==> {
                    let c0 = old(self).spec_map()[k];
                    let c1 = #[trigger] final(self).spec_map()[k];
                    &&& c1.pos == c0.pos
                    &&& c1.vao == c0.vao
                    &&& c1.vertex_count == c0.vertex_count
                    &&& c1.status == (if r is Ok && k == key_of(
                        x as int / 32,
                        y as int / 32,
                        z as int / 32,
                    ) {
                        crate::chunk::ChunkStatus::Dirty
                    } else {
                        c0.status
                    })
                },
    {
        let (cx, lx) = split_coord(x);
        let (cy, ly) = split_coord(y);
        let (cz, lz) = split_coord(z);
        let k = chunk_key(cx, cy, cz);
        match self.chunks.remove(&k) {
            Some(mut c) => {
                let _ = c.set_voxel(lx, ly, lz, voxel);
                self.chunks.insert(k, c);
                proof {
                    assert(self.chunks@ =~= old(self).spec_map().insert(k, c));
                    assert(grid_of(self.chunks@) =~= spec_set_grids(
                        grid_of(old(self).spec_map()),
                        x as int,
                        y as int,
                        z as int,
                        voxel,
                    ));
                    assert(self.chunks@.dom() =~= old(self).spec_map().dom());
                }
                Ok(())
            },
            None => {
                proof {
                    assert(self.chunks@ =~= old(self).spec_map());
                    assert(grid_of(self.chunks@) =~= spec_set_grids(
                        grid_of(old(self).spec_map()),
                        x as int,
                        y as int,
                        z as int,
                        voxel,
                    ));
                }
                Err(())
            },
        }
    }
}

/// A world-space write list applied in order, seen on the grids.
pub open spec fn apply_grid_writes(
    g: Map<u128, Seq<VOXELS>>,
    ws: Seq<(i32, i32, i32, VOXELS)>,
) -> Map<u128, Seq<VOXELS>>
    decreases ws.len(),
{
    if ws.len() == 0 {
        g
    } else {
        let w = ws.last();
        spec_set_grids(
            apply_grid_writes(g, ws.drop_last()),
            w.0 as int,
            w.1 as int,
            w.2 as int,
            w.3,
        )
    }
}

/// Whether some write of the list lands in the chunk under key `k`.
pub open spec fn writes_touch(ws: Seq<(i32, i32, i32, VOXELS)>, k: u128) -> bool {
    exists|i: int|
        0 <= i < ws.len() && key_of(
            #[trigger] ws[i].0 as int / 32,
            ws[i].1 as int / 32,
            ws[i].2 as int / 32,
        ) == k
}

/// The writes that grow one tree from a seed at world position `(x, y, z)`:
/// a three-voxel wood trunk above the seed, a three-by-three leaf canopy on
/// top of it, and a leaf cap above the canopy's center.
pub open spec fn tree_writes(x: int, y: int, z: int) -> Seq<(i32, i32, i32, VOXELS)> {
    seq![
        (x as i32, (y + 1) as i32, z as i32, VOXELS::WOOD),
        (x as i32, (y + 2) as i32, z as i32, VOXELS::WOOD),
        (x as i32, (y + 3) as i32, z as i32, VOXELS::WOOD),
        ((x - 1) as i32, (y + 4) as i32, (z - 1) as i32, VOXELS::LEAVES),
        (x as i32, (y + 4) as i32, (z - 1) as i32, VOXELS::LEAVES),
        ((x + 1) as i32, (y + 4) as i32, (z - 1) as i32, VOXELS::LEAVES),
        ((x - 1) as i32, (y + 4) as i32, z as i32, VOXELS::LEAVES),
        (x as i32, (y + 4) as i32, z as i32, VOXELS::LEAVES),
        ((x + 1) as i32, (y + 4) as i32, z as i32, VOXELS::LEAVES),
        ((x - 1) as i32, (y + 4) as i32, (z + 1) as i32, VOXELS::LEAVES),
        (x as i32, (y + 4) as i32, (z + 1) as i32, VOXELS::LEAVES),
        ((x + 1) as i32, (y + 4) as i32, (z + 1) as i32, VOXELS::LEAVES),
        (x as i32, (y + 5) as i32, z as i32, VOXELS::LEAVES),
    ]
}

/// The writes of a whole decoration batch: each seed's tree, seeds in scan
/// order.
pub open spec fn decoration_writes(seeds: Seq<(i32, i32, i32, crate::chunk::ENTITIES)>) -> Seq<
    (i32, i32, i32, VOXELS),
>
    decreases seeds.len(),
{
    if seeds.len() == 0 {
        Seq::empty()
    } else {
        let s = seeds.last();
        decoration_writes(seeds.drop_last()) + tree_writes(s.0 as int, s.1 as int, s.2 as int)
    }
}

impl World {
    /// Applies a world-space write list in order, ignoring writes that land
    /// outside every resident chunk.
    fn apply_writes(&mut self, writes: &Vec<(i32, i32, i32, VOXELS)>)
        requires
            old(self).wf(),
            forall|i: int|
                0 <= i < writes@.len() ==> {
                    let w = #[trigger] writes@[i];
                    &&& -0x4000000 <= w.0 <= 0x4000000
                    &&& -0x4000000 <= w.1 <= 0x4000000
                    &&& -0x4000000 <= w.2 <= 0x4000000
                },
        ensures
            final(self).wf(),
            final(self).spec_map().dom() == old(self).spec_map().dom(),
            grid_of(final(self).spec_map()) == apply_grid_writes(
                grid_of(old(self).spec_map()),
                writes@,
            ),
            forall|k: u128|
                old(self).spec_map().contains_key(k) ==> {
                    let c0 = old(self).spec_map()[k];
                    let c1 = #[trigger] final(self).spec_map()[k];
                    &&& c1.pos == c0.pos
                    &&& c1.vao == c0.vao
                    &&& c1.vertex_count == c0.vertex_count
                    &&& c1.status == (if writes_touch(writes@, k) {
                        crate::chunk::ChunkStatus::Dirty
                    } else {
                        c0.status
                    })
                },
    {
        let mut i: usize = 0;
        while i < writes.len()
            invariant
                self.wf(),
                forall|j: int|
                    0 <= j < writes@.len() ==> {
                        let w = #[trigger] writes@[j];
                        &&& -0x4000000 <= w.0 <= 0x4000000
                        &&& -0x4000000 <= w.1 <= 0x4000000
                        &&& -0x4000000 <= w.2 <= 0x4000000
                    },
                i <= writes@.len(),
                self.spec_map().dom() == old(self).spec_map().dom(),
                grid_of(self.spec_map()) == apply_grid_writes(
                    grid_of(old(self).spec_map()),
                    writes@.take(i as int),
                ),
                forall|k: u128|
                    old(self).spec_map().contains_key(k) ==> {
                        let c0 = old(self).spec_map()[k];
                        let c1 = #[trigger] self.spec_map()[k];
                        &&& c1.pos == c0.pos
                        &&& c1.vao == c0.vao
                        &&& c1.vertex_count == c0.vertex_count
                        &&& c1.status == (if writes_touch(writes@.take(i as int), k) {
                            crate::chunk::ChunkStatus::Dirty
                        } else {
                            c0.status
                        })
                    },
            decreases writes@.len() - i,
        {
            let w = writes[i];
            let ghost pre = self.spec_map();
            let r = self.set_voxel(w.0, w.1, w.2, w.3);
            proof {
                let t0 = writes@.take(i as int);
                let t1 = writes@.take(i as int + 1);
                assert(t1.drop_last() =~= t0);
                assert(t1.last() == writes@[i as int]);
                assert(grid_of(self.spec_map()) == apply_grid_writes(
                    grid_of(old(self).spec_map()),
                    t1,
                ));
                let wk = key_of(w.0 as int / 32, w.1 as int / 32, w.2 as int / 32);
                assert forall|k: u128| old(self).spec_map().contains_key(k) implies {
                    let c0 = old(self).spec_map()[k];
                    let c1 = #[trigger] self.spec_map()[k];
                    &&& c1.pos == c0.pos
                    &&& c1.vao == c0.vao
                    &&& c1.vertex_count == c0.vertex_count
                    &&& c1.status == (if writes_touch(t1, k) {
                        crate::chunk::ChunkStatus::Dirty
                    } else {
                        c0.status
                    })
                } by {
                    if writes_touch(t1, k) {
                        let wit = choose|j: int|
                            0 <= j < t1.len() && key_of(
                                #[trigger] t1[j].0 as int / 32,
                                t1[j].1 as int / 32,
                                t1[j].2 as int / 32,
                            ) == k;
                        if wit < i as int {
                            assert(writes_touch(t0, k));
                        } else {
                            assert(k == wk);
                        }
                    } else {
                        assert(!writes_touch(t0, k)) by {
                            if writes_touch(t0, k) {
                                let wit = choose|j: int|
                                    0 <= j < t0.len() && key_of(
                                        #[trigger] t0[j].0 as int / 32,
                                        t0[j].1 as int / 32,
                                        t0[j].2 as int / 32,
                                    ) == k;
                                assert(t1[wit] == t0[wit]);
                            }
                        }
                        assert(k != wk || !pre.contains_key(k)) by {
                            if k == wk && pre.contains_key(k) {
                                assert(t1[i as int] == writes@[i as int]);
                            }
                        }
                    }
                }
            }
            i += 1;
        }
        proof {
            assert(writes@.take(writes@.len() as int) =~= writes@);
        }
    }
}

/// The chunk coordinate visited at step `n` of a promotion scan centred on
/// `(px, py, pz)`: steps cover the render-range box plus its one-chunk
/// border shell, x-outermost, then y, then z.
pub open spec fn promote_cell(px: int, py: int, pz: int, n: int) -> (int, int, int) {
    (px + n / 49 - 3, py + (n / 7) % 7 - 3, pz + n % 7 - 3)
}

/// The coordinates of the first `n` scan steps with no resident chunk:
/// they need terrain built.
pub open spec fn build_bucket(w: World, px: int, py: int, pz: int, n: int) -> Seq<(i32, i32, i32)>
    decreases n,
{
    if n <= 0 {
        Seq::empty()
    } else {
        let c = promote_cell(px, py, pz, n - 1);
        build_bucket(w, px, py, pz, n - 1) + (if !w.spec_has(c.0, c.1, c.2) {
            seq![(c.0 as i32, c.1 as i32, c.2 as i32)]
        } else {
            Seq::empty()
        })
    }
}

/// The coordinates of the first `n` scan steps whose chunk awaits
/// decoration.
pub open spec fn decorate_bucket(
    w: World,
    px: int,
    py: int,
    pz: int,
    n: int,
) -> Seq<(i32, i32, i32)>
    decreases n,
{
    if n <= 0 {
        Seq::empty()
    } else {
        let c = promote_cell(px, py, pz, n - 1);
        decorate_bucket(w, px, py, pz, n - 1) + (if w.spec_has(c.0, c.1, c.2) && w.spec_chunk(
            c.0,
            c.1,
            c.2,
        ).status == crate::chunk::ChunkStatus::Terrain {
            seq![(c.0 as i32, c.1 as i32, c.2 as i32)]
        } else {
            Seq::empty()
        })
    }
}

/// The coordinates of the first `n` scan steps whose chunk needs a new
/// mesh; only the render range proper is remeshed, not the border shell.
pub open spec fn remesh_bucket(w: World, px: int, py: int, pz: int, n: int) -> Seq<(i32, i32, i32)>
    decreases n,
{
    if n <= 0 {
        Seq::empty()
    } else {
        let c = promote_cell(px, py, pz, n - 1);
        remesh_bucket(w, px, py, pz, n - 1) + (if w.spec_has(c.0, c.1, c.2) && w.spec_chunk(
            c.0,
            c.1,
            c.2,
        ).status == crate::chunk::ChunkStatus::Dirty && -RENDER_DISTANCE <= c.0 - px
            <= RENDER_DISTANCE && -RENDER_DISTANCE <= c.1 - py <= RENDER_DISTANCE
            && -RENDER_DISTANCE <= c.2 - pz <= RENDER_DISTANCE {
            seq![(c.0 as i32, c.1 as i32, c.2 as i32)]
        } else {
            Seq::empty()
        })
    }
}

proof fn lemma_promote_decode(dx: int, dy: int, dz: int)
    requires
        -3 <= dx <= 3,
        -3 <= dy <= 3,
        -3 <= dz <= 3,
    ensures
        ({
            let n = (dx + 3) * 49 + (dy + 3) * 7 + (dz + 3);
            &&& n / 49 - 3 == dx
            &&& (n / 7) % 7 - 3 == dy
            &&& n % 7 - 3 == dz
            &&& 0 <= n < 343
        }),
{
    let n = (dx + 3) * 49 + (dy + 3) * 7 + (dz + 3);
    assert(n / 49 - 3 == dx && (n / 7) % 7 - 3 == dy && n % 7 - 3 == dz && 0 <= n < 343)
        by (nonlinear_arith)
        requires
            -3 <= dx <= 3,
            -3 <= dy <= 3,
            -3 <= dz <= 3,
            n == (dx + 3) * 49 + (dy + 3) * 7 + (dz + 3),
    ;
}

/// Appends the writes of one tree grown from a seed at `(x, y, z)`.
fn push_tree_writes(out: &mut Vec<(i32, i32, i32, VOXELS)>, x: i32, y: i32, z: i32)
    requires
        -0x3000000 <= x <= 0x3000000,
        -0x3000000 <= y <= 0x3000000,
        -0x3000000 <= z <= 0x3000000,
    ensures
        final(out)@ == old(out)@ + tree_writes(x as int, y as int, z as int),
{
    out.push((x, y + 1, z, VOXELS::WOOD));
    out.push((x, y + 2, z, VOXELS::WOOD));
    out.push((x, y + 3, z, VOXELS::WOOD));
    out.push((x - 1, y + 4, z - 1, VOXELS::LEAVES));
    out.push((x, y + 4, z - 1, VOXELS::LEAVES));
    out.push((x + 1, y + 4, z - 1, VOXELS::LEAVES));
    out.push((x - 1, y + 4, z, VOXELS::LEAVES));
    out.push((x, y + 4, z, VOXELS::LEAVES));
    out.push((x + 1, y + 4, z, VOXELS::LEAVES));
    out.push((x - 1, y + 4, z + 1, VOXELS::LEAVES));
    out.push((x, y + 4, z + 1, VOXELS::LEAVES));
    out.push((x + 1, y + 4, z + 1, VOXELS::LEAVES));
    out.push((x, y + 5, z, VOXELS::LEAVES));
    proof {
        assert(out@ =~= old(out)@ + tree_writes(x as int, y as int, z as int));
    }
}

impl World {
    /// Grows one tree from a seed at world position `(x, y, z)`, routing
    /// every write through the world-level setter so the canopy may spill
    /// into neighboring chunks; writes into absent chunks are dropped, and
    /// every chunk written to becomes `Dirty`.
    pub fn build_tree_at(&mut self, x: i32, y: i32, z: i32)
        requires
            old(self).wf(),
            -0x3000000 <= x <= 0x3000000,
            -0x3000000 <= y <= 0x3000000,
            -0x3000000 <= z <= 0x3000000,
        ensures
            final(self).wf(),
            final(self).spec_map().dom() == old(self).spec_map().dom(),
            grid_of(final(self).spec_map()) == apply_grid_writes(
                grid_of(old(self).spec_map()),
                tree_writes(x as int, y as int, z as int),
            ),
            forall|k: u128|
                old(self).spec_map().contains_key(k) ==> {
                    let c0 = old(self).spec_map()[k];
                    let c1 = #[trigger] final(self).spec_map()[k];
                    &&& c1.pos == c0.pos
                    &&& c1.vao == c0.vao
                    &&& c1.vertex_count == c0.vertex_count
                    &&& c1.status == (if writes_touch(
                        tree_writes(x as int, y as int, z as int),
                        k,
                    ) {
                        ChunkStatus::Dirty
                    } else {
                        c0.status
                    })
                },
    {
        let mut writes: Vec<(i32, i32, i32, VOXELS)> = Vec::new();
        push_tree_writes(&mut writes, x, y, z);
        proof {
            assert(Seq::<(i32, i32, i32, VOXELS)>::empty() + tree_writes(
                x as int,
                y as int,
                z as int,
            ) =~= tree_writes(x as int, y as int, z as int));
        }
        self.apply_writes(&writes);
    }

    /// Runs the decoration pass of the chunk at chunk coordinate
    /// `(x, y, z)`: scans it for seeds, grows each seed's tree through the
    /// world-level setter in scan order, and leaves the chunk `Dirty` so its
    /// mesh is rebuilt with the decoration in place.
    pub fn decorate_chunk(&mut self, x: i32, y: i32, z: i32)
        requires
            old(self).wf(),
            old(self).spec_has(x as int, y as int, z as int),
            -MAX_CHUNK_COORD <= x <= MAX_CHUNK_COORD,
            -MAX_CHUNK_COORD <= y <= MAX_CHUNK_COORD,
            -MAX_CHUNK_COORD <= z <= MAX_CHUNK_COORD,
        ensures
            final(self).wf(),
            final(self).spec_map().dom() == old(self).spec_map().dom(),
            grid_of(final(self).spec_map()) == apply_grid_writes(
                grid_of(old(self).spec_map()),
                decoration_writes(
                    spec_entities(
                        old(self).spec_chunk(x as int, y as int, z as int),
                        crate::settings::CHUNK_VOL as int,
                    ),
                ),
            ),
            forall|k: u128|
                old(self).spec_map().contains_key(k) ==> {
                    let c0 = old(self).spec_map()[k];
                    let c1 = #[trigger] final(self).spec_map()[k];
                    &&& c1.pos == c0.pos
                    &&& c1.vao == c0.vao
                    &&& c1.vertex_count == c0.vertex_count
                    &&& c1.status == (if k == key_of(x as int, y as int, z as int)
                        || writes_touch(
                        decoration_writes(
                            spec_entities(
                                old(self).spec_chunk(x as int, y as int, z as int),
                                crate::settings::CHUNK_VOL as int,
                            ),
                        ),
                        k,
                    ) {
                        ChunkStatus::Dirty
                    } else {
                        c0.status
                    })
                },
    {
        let ghost c0 = self.spec_chunk(x as int, y as int, z as int);
        let ghost seeds = spec_entities(c0, crate::settings::CHUNK_VOL as int);
        let entities = self.get_chunk(x, y, z).unwrap().generate_entities();
        proof {
            lemma_entities_bounds(c0, crate::settings::CHUNK_VOL as int);
        }
        let mut writes: Vec<(i32, i32, i32, VOXELS)> = Vec::new();
        let mut i: usize = 0;
        while i < entities.len()
            invariant
                entities@ == seeds,
                forall|j: int|
                    0 <= j < seeds.len() ==> {
                        let e = #[trigger] seeds[j];
                        &&& -0x3000000 <= e.0 <= 0x3000000
                        &&& -0x3000000 <= e.1 <= 0x3000000
                        &&& -0x3000000 <= e.2 <= 0x3000000
                    },
                i <= seeds.len(),
                writes@ == decoration_writes(seeds.take(i as int)),
            decreases seeds.len() - i,
        {
            let e = entities[i];
            push_tree_writes(&mut writes, e.0, e.1, e.2);
            proof {
                let t1 = seeds.take(i as int + 1);
                assert(t1.drop_last() =~= seeds.take(i as int));
                assert(t1.last() == seeds[i as int]);
            }
            i += 1;
        }
        proof {
            assert(seeds.take(seeds.len() as int) =~= seeds);
            assert forall|j: int| 0 <= j < writes@.len() implies {
                let w = #[trigger] writes@[j];
                &&& -0x4000000 <= w.0 <= 0x4000000
                &&& -0x4000000 <= w.1 <= 0x4000000
                &&& -0x4000000 <= w.2 <= 0x4000000
            } by {
                lemma_decoration_writes_bounds(seeds);
            }
        }
        self.apply_writes(&writes);
        let ghost mid = self.spec_map();
        let k = chunk_key(x, y, z);
        match self.chunks.remove(&k) {
            Some(mut c) => {
                c.status = ChunkStatus::Dirty;
                self.chunks.insert(k, c);
                proof {
                    assert(self.chunks@ =~= mid.insert(k, c));
                    assert(self.chunks@.dom() =~= mid.dom());
                    assert(grid_of(self.chunks@) =~= grid_of(mid));
                }
            },
            None => {
                proof {
                    assert(false);
                }
            },
        }
    }
}

/// Every coordinate a bounded write list touches stays within the range the
/// world-level setter accepts.
proof fn lemma_decoration_writes_bounds(seeds: Seq<(i32, i32, i32, ENTITIES)>)
    requires
        forall|j: int|
            0 <= j < seeds.len() ==> {
                let e = #[trigger] seeds[j];
                &&& -0x3000000 <= e.0 <= 0x3000000
                &&& -0x3000000 <= e.1 <= 0x3000000
                &&& -0x3000000 <= e.2 <= 0x3000000
            },
    ensures
        forall|j: int|
            0 <= j < decoration_writes(seeds).len() ==> {
                let w = #[trigger] decoration_writes(seeds)[j];
                &&& -0x4000000 <= w.0 <= 0x4000000
                &&& -0x4000000 <= w.1 <= 0x4000000
                &&& -0x4000000 <= w.2 <= 0x4000000
            },
    decreases seeds.len(),
{
    if seeds.len() > 0 {
        lemma_decoration_writes_bounds(seeds.drop_last());
        let s = seeds.last();
        let pre = decoration_writes(seeds.drop_last());
        let tail = tree_writes(s.0 as int, s.1 as int, s.2 as int);
        assert(decoration_writes(seeds) == pre + tail);
        assert forall|j: int| 0 <= j < decoration_writes(seeds).len() implies {
            let w = #[trigger] decoration_writes(seeds)[j];
            &&& -0x4000000 <= w.0 <= 0x4000000
            &&& -0x4000000 <= w.1 <= 0x4000000
            &&& -0x4000000 <= w.2 <= 0x4000000
        } by {
            if j < pre.len() {
                assert(decoration_writes(seeds)[j] == pre[j]);
            } else {
                assert(decoration_writes(seeds)[j] == tail[j - pre.len()]);
            }
        }
    }
}

impl World {
    /// Partitions the render range around the observer's chunk — plus a
    /// one-chunk border shell, whose chunks face culling at the range edge
    /// needs — into the coordinates that need terrain built (no chunk yet),
    /// decoration run (`Terrain`), and a new mesh (`Dirty`, render range
    /// only); one coordinate may appear in more than one bucket over
    /// successive passes, never in the same one.
    pub fn promote_chunks(&self, px: i32, py: i32, pz: i32) -> (r: (
        Vec<(i32, i32, i32)>,
        Vec<(i32, i32, i32)>,
        Vec<(i32, i32, i32)>,
    ))
        requires
            self.wf(),
            -MAX_CHUNK_COORD + RENDER_DISTANCE + 1 <= px <= MAX_CHUNK_COORD - RENDER_DISTANCE - 1,
            -MAX_CHUNK_COORD + RENDER_DISTANCE + 1 <= py <= MAX_CHUNK_COORD - RENDER_DISTANCE - 1,
            -MAX_CHUNK_COORD + RENDER_DISTANCE + 1 <= pz <= MAX_CHUNK_COORD - RENDER_DISTANCE - 1,
        ensures
            r.0@ == build_bucket(*self, px as int, py as int, pz as int, 343),
            r.1@ == decorate_bucket(*self, px as int, py as int, pz as int, 343),
            r.2@ == remesh_bucket(*self, px as int, py as int, pz as int, 343),
    {
        let mut to_build: Vec<(i32, i32, i32)> = Vec::new();
        let mut to_decorate: Vec<(i32, i32, i32)> = Vec::new();
        let mut to_remesh: Vec<(i32, i32, i32)> = Vec::new();
        proof {
            assert(to_build@ =~= build_bucket(*self, px as int, py as int, pz as int, 0));
            assert(to_decorate@ =~= decorate_bucket(*self, px as int, py as int, pz as int, 0));
            assert(to_remesh@ =~= remesh_bucket(*self, px as int, py as int, pz as int, 0));
        }
        let mut dx: i32 = -RENDER_DISTANCE - 1;
        while dx <= RENDER_DISTANCE + 1
            invariant
                self.wf(),
                -MAX_CHUNK_COORD + RENDER_DISTANCE + 1 <= px <= MAX_CHUNK_COORD - RENDER_DISTANCE
                    - 1,
                -MAX_CHUNK_COORD + RENDER_DISTANCE + 1 <= py <= MAX_CHUNK_COORD - RENDER_DISTANCE
                    - 1,
                -MAX_CHUNK_COORD + RENDER_DISTANCE + 1 <= pz <= MAX_CHUNK_COORD - RENDER_DISTANCE
                    - 1,
                -RENDER_DISTANCE - 1 <= dx <= RENDER_DISTANCE + 2,
                to_build@ == build_bucket(*self, px as int, py as int, pz as int, (dx + 3) * 49),
                to_decorate@ == decorate_bucket(
                    *self,
                    px as int,
                    py as int,
                    pz as int,
                    (dx + 3) * 49,
                ),
                to_remesh@ == remesh_bucket(
                    *self,
                    px as int,
                    py as int,
                    pz as int,
                    (dx + 3) * 49,
                ),
            decreases RENDER_DISTANCE + 2 - dx,
        {
            let mut dy: i32 = -RENDER_DISTANCE - 1;
            while dy <= RENDER_DISTANCE + 1
                invariant
                    self.wf(),
                    -MAX_CHUNK_COORD + RENDER_DISTANCE + 1 <= px <= MAX_CHUNK_COORD
                        - RENDER_DISTANCE - 1,
                    -MAX_CHUNK_COORD + RENDER_DISTANCE + 1 <= py <= MAX_CHUNK_COORD
                        - RENDER_DISTANCE - 1,
                    -MAX_CHUNK_COORD + RENDER_DISTANCE + 1 <= pz <= MAX_CHUNK_COORD
                        - RENDER_DISTANCE - 1,
                    -RENDER_DISTANCE - 1 <= dx <= RENDER_DISTANCE + 1,
                    -RENDER_DISTANCE - 1 <= dy <= RENDER_DISTANCE + 2,
                    to_build@ == build_bucket(
                        *self,
                        px as int,
                        py as int,
                        pz as int,
                        (dx + 3) * 49 + (dy + 3) * 7,
                    ),
                    to_decorate@ == decorate_bucket(
                        *self,
                        px as int,
                        py as int,
                        pz as int,
                        (dx + 3) * 49 + (dy + 3) * 7,
                    ),
                    to_remesh@ == remesh_bucket(
                        *self,
                        px as int,
                        py as int,
                        pz as int,
                        (dx + 3) * 49 + (dy + 3) * 7,
                    ),
                decreases RENDER_DISTANCE + 2 - dy,
            {
                let mut dz: i32 = -RENDER_DISTANCE - 1;
                while dz <= RENDER_DISTANCE + 1
                    invariant
                        self.wf(),
                        -MAX_CHUNK_COORD + RENDER_DISTANCE + 1 <= px <= MAX_CHUNK_COORD
                            - RENDER_DISTANCE - 1,
                        -MAX_CHUNK_COORD + RENDER_DISTANCE + 1 <= py <= MAX_CHUNK_COORD
                            - RENDER_DISTANCE - 1,
                        -MAX_CHUNK_COORD + RENDER_DISTANCE + 1 <= pz <= MAX_CHUNK_COORD
                            - RENDER_DISTANCE - 1,
                            -RENDER_DISTANCE - 1 <= dx <= RENDER_DISTANCE + 1,
                        -RENDER_DISTANCE - 1 <= dy <= RENDER_DISTANCE + 1,
                        -RENDER_DISTANCE - 1 <= dz <= RENDER_DISTANCE + 2,
                        to_build@ == build_bucket(
                            *self,
                            px as int,
                            py as int,
                            pz as int,
                            (dx + 3) * 49 + (dy + 3) * 7 + (dz + 3),
                        ),
                        to_decorate@ == decorate_bucket(
                            *self,
                            px as int,
                            py as int,
                            pz as int,
                            (dx + 3) * 49 + (dy + 3) * 7 + (dz + 3),
                        ),
                        to_remesh@ == remesh_bucket(
                            *self,
                            px as int,
                            py as int,
                            pz as int,
                            (dx + 3) * 49 + (dy + 3) * 7 + (dz + 3),
                        ),
                    decreases RENDER_DISTANCE + 2 - dz,
                {
                    let cx = px + dx;
                    let cy = py + dy;
                    let cz = pz + dz;
                    proof {
                        lemma_promote_decode(dx as int, dy as int, dz as int);
                    }
                    let ghost n = (dx + 3) * 49 + (dy + 3) * 7 + (dz + 3);
                    let ghost b0 = to_build@;
                    let ghost d0 = to_decorate@;
                    let ghost m0 = to_remesh@;
                    match self.get_chunk(cx, cy, cz) {
                        None => {
                            to_build.push((cx, cy, cz));
                        },
                        Some(c) => {
                            if c.status == ChunkStatus::Terrain {
                                to_decorate.push((cx, cy, cz));
                            }
                            if c.status == ChunkStatus::Dirty && dx >= -RENDER_DISTANCE && dx
                                <= RENDER_DISTANCE && dy >= -RENDER_DISTANCE && dy
                                <= RENDER_DISTANCE && dz >= -RENDER_DISTANCE && dz
                                <= RENDER_DISTANCE {
                                to_remesh.push((cx, cy, cz));
                            }
                        },
                    }
                    proof {
                        assert(promote_cell(px as int, py as int, pz as int, n) == (
                            cx as int,
                            cy as int,
                            cz as int,
                        ));
                        assert(to_build@ =~= build_bucket(
                            *self,
                            px as int,
                            py as int,
                            pz as int,
                            n + 1,
                        ));
                        assert(to_decorate@ =~= decorate_bucket(
                            *self,
                            px as int,
                            py as int,
                            pz as int,
                            n + 1,
                        ));
                        assert(to_remesh@ =~= remesh_bucket(
                            *self,
                            px as int,
                            py as int,
                            pz as int,
                            n + 1,
                        ));
                    }
                    dz += 1;
                }
                proof {
                    assert((dx + 3) * 49 + (dy + 3) * 7 + (dz + 3) == (dx + 3) * 49 + (dy + 1 + 3)
                        * 7);
                }
                dy += 1;
            }
            proof {
                assert((dx + 3) * 49 + (dy + 3) * 7 == (dx + 1 + 3) * 49);
            }
            dx += 1;
        }
        proof {
            assert((dx + 3) * 49 == 343);
        }
        (to_build, to_decorate, to_remesh)
    }

    /// Builds a fresh chunk at chunk coordinate `(x, y, z)` from the
    /// column heights: a terrain-build task's whole job. The new chunk is
    /// `Empty` if nothing solid was generated and `Terrain` — awaiting
    /// decoration — otherwise.
    pub fn chunk_build_task(&self, x: i32, y: i32, z: i32, heights: &Vec<i32>) -> (c: Chunk)
        requires
            heights@.len() == crate::settings::CHUNK_AREA,
            forall|i: int|
                0 <= i < crate::settings::CHUNK_AREA ==> -crate::settings::MAX_HEIGHT
                    <= #[trigger] heights@[i] <= crate::settings::MAX_HEIGHT,
            -MAX_CHUNK_COORD <= x <= MAX_CHUNK_COORD,
            -MAX_CHUNK_COORD <= y <= MAX_CHUNK_COORD,
            -MAX_CHUNK_COORD <= z <= MAX_CHUNK_COORD,
        ensures
            c.wf(),
            c.pos == (x, y, z),
            c.vao is None,
            c.vertex_count == 0,
            forall|xx: int, yy: int, zz: int|
                in_grid(xx, yy, zz) ==> c.voxels@[#[trigger] crate::chunk::spec_index(xx, yy, zz)]
                    == spec_terrain_voxel(
                    VOXELS::EMPTY,
                    y * CHUNK_SIZE,
                    clamp_height(heights@[xx + zz * CHUNK_SIZE]) as int,
                    yy,
                ),
            c.status == (if all_empty(c.voxels@) {
                ChunkStatus::Empty
            } else {
                ChunkStatus::Terrain
            }),
    {
        let mut chunk = Chunk::new(x, y, z);
        chunk.build_voxels(heights);
        if chunk.status == ChunkStatus::Dirty {
            chunk.status = ChunkStatus::Terrain;
        }
        chunk
    }

    /// Builds the mesh of the chunk at chunk coordinate `(x, y, z)`, which
    /// must be resident, from a neighbor cluster captured here: a mesh-build
    /// task's whole job. The output is pinned by the world's state: any
    /// cluster matching this world at this coordinate yields it.
    pub fn mesh_build_task(&self, x: i32, y: i32, z: i32) -> (r: ChunkMeshData)
        requires
            self.wf(),
            self.spec_has(x as int, y as int, z as int),
            -MAX_CHUNK_COORD <= x <= MAX_CHUNK_COORD,
            -MAX_CHUNK_COORD <= y <= MAX_CHUNK_COORD,
            -MAX_CHUNK_COORD <= z <= MAX_CHUNK_COORD,
        ensures
            r.pos == self.spec_chunk(x as int, y as int, z as int).pos,
            self.spec_chunk(x as int, y as int, z as int).status == ChunkStatus::Empty
                ==> r.vertices@ == Seq::<u32>::empty(),
            self.spec_chunk(x as int, y as int, z as int).status != ChunkStatus::Empty
                ==> forall|cl: ChunkCluster|
                cluster_matches(cl, *self, x as int, y as int, z as int)
                    ==> r.vertices@ == spec_chunk_mesh(cl),
    {
        let chunk_cluster = ChunkCluster::new(self, x, y, z);
        let chunk = self.get_chunk(x, y, z).unwrap();
        let r = chunk.get_vertex_data(chunk_cluster);
        proof {
            assert forall|cl: ChunkCluster|
                cluster_matches(cl, *self, x as int, y as int, z as int) implies cl
                == chunk_cluster by {
            }
        }
        r
    }

    /// Records a completed mesh for the chunk at chunk coordinate
    /// `(x, y, z)`: the vertex count, the GPU handle its vertices were
    /// uploaded to, and the `Clean` status (or `Empty` for a mesh with no
    /// vertices). Returns the vertex count.
    pub fn finish_mesh(&mut self, x: i32, y: i32, z: i32, chunk_mesh_data: ChunkMeshData, vao: u32) -> (r: usize)
        requires
            old(self).wf(),
            old(self).spec_has(x as int, y as int, z as int),
            -MAX_CHUNK_COORD <= x <= MAX_CHUNK_COORD,
            -MAX_CHUNK_COORD <= y <= MAX_CHUNK_COORD,
            -MAX_CHUNK_COORD <= z <= MAX_CHUNK_COORD,
        ensures
            final(self).wf(),
            r == chunk_mesh_data.vertices@.len(),
            final(self).spec_map().dom() == old(self).spec_map().dom(),
            forall|k: u128|
                old(self).spec_map().contains_key(k) && k != key_of(
                    x as int,
                    y as int,
                    z as int,
                ) ==> #[trigger] final(self).spec_map()[k] == old(self).spec_map()[k],
            ({
                let c0 = old(self).spec_chunk(x as int, y as int, z as int);
                let c1 = final(self).spec_chunk(x as int, y as int, z as int);
                &&& c1.pos == c0.pos
                &&& c1.voxels@ == c0.voxels@
                &&& c1.vertex_count == r
                &&& c1.vao == Some(vao)
                &&& c1.status == (if r > 0 {
                    ChunkStatus::Clean
                } else {
                    ChunkStatus::Empty
                })
            }),
    {
        let k = chunk_key(x, y, z);
        match self.chunks.remove(&k) {
            Some(mut c) => {
                let n = c.build_mesh(chunk_mesh_data, vao);
                self.chunks.insert(k, c);
                proof {
                    assert(self.chunks@ =~= old(self).spec_map().insert(k, c));
                    assert(self.chunks@.dom() =~= old(self).spec_map().dom());
                }
                n
            },
            None => {
                proof {
                    assert(false);
                }
                0
            },
        }
    }
}

/// Whether a cluster is the view of the world at center coordinate
/// `(x, y, z)`: its center holds the chunk there and each neighbor slot
/// holds the face-adjacent chunk exactly when one is resident.
pub open spec fn cluster_matches(cl: ChunkCluster, w: World, x: int, y: int, z: int) -> bool {
    &&& *cl.center == w.spec_chunk(x, y, z)
    &&& (match cl.top {
        Some(c) => w.spec_has(x, y + 1, z) && *c == w.spec_chunk(x, y + 1, z),
        None => !w.spec_has(x, y + 1, z),
    })
    &&& (match cl.bottom {
        Some(c) => w.spec_has(x, y - 1, z) && *c == w.spec_chunk(x, y - 1, z),
        None => !w.spec_has(x, y - 1, z),
    })
    &&& (match cl.right {
        Some(c) => w.spec_has(x + 1, y, z) && *c == w.spec_chunk(x + 1, y, z),
        None => !w.spec_has(x + 1, y, z),
    })
    &&& (match cl.left {
        Some(c) => w.spec_has(x - 1, y, z) && *c == w.spec_chunk(x - 1, y, z),
        None => !w.spec_has(x - 1, y, z),
    })
    &&& (match cl.front {
        Some(c) => w.spec_has(x, y, z + 1) && *c == w.spec_chunk(x, y, z + 1),
        None => !w.spec_has(x, y, z + 1),
    })
    &&& (match cl.back {
        Some(c) => w.spec_has(x, y, z - 1) && *c == w.spec_chunk(x, y, z - 1),
        None => !w.spec_has(x, y, z - 1),
    })
}

/// A transient read-only bundle of one chunk and its six face-adjacent
/// neighbors, built fresh per mesh build. A missing neighbor is treated as
/// all-`EMPTY`; the center chunk must exist.
pub struct ChunkCluster<'a> {
    pub center: &'a Chunk,
    pub top: Option<&'a Chunk>,
    pub bottom: Option<&'a Chunk>,
    pub right: Option<&'a Chunk>,
    pub left: Option<&'a Chunk>,
    pub front: Option<&'a Chunk>,
    pub back: Option<&'a Chunk>,
}

impl<'a> ChunkCluster<'a> {
    /// Borrows the chunk at `(x, y, z)` — which must be resident, since a
    /// mesh build is only ever requested for an existing chunk — together
    /// with its six face-adjacent neighbors, absent ones left empty.
    pub fn new(world: &'a World, x: i32, y: i32, z: i32) -> (r: Self)
        requires
            world.wf(),
            world.spec_has(x as int, y as int, z as int),
            -MAX_CHUNK_COORD <= x <= MAX_CHUNK_COORD,
            -MAX_CHUNK_COORD <= y <= MAX_CHUNK_COORD,
            -MAX_CHUNK_COORD <= z <= MAX_CHUNK_COORD,
        ensures
            r.wf(),
            cluster_matches(r, *world, x as int, y as int, z as int),
    {
        let center = world.get_chunk(x, y, z).unwrap();
        ChunkCluster {
            center,
            top: world.get_chunk(x, y + 1, z),
            bottom: world.get_chunk(x, y - 1, z),
            right: world.get_chunk(x + 1, y, z),
            left: world.get_chunk(x - 1, y, z),
            front: world.get_chunk(x, y, z + 1),
            back: world.get_chunk(x, y, z - 1),
        }
    }

    /// Every chunk in the bundle has a fully allocated grid.
    pub open spec fn wf(self) -> bool {
        &&& self.center.wf()
        &&& (self.top matches Some(c) ==> c.wf())
        &&& (self.bottom matches Some(c) ==> c.wf())
        &&& (self.right matches Some(c) ==> c.wf())
        &&& (self.left matches Some(c) ==> c.wf())
        &&& (self.front matches Some(c) ==> c.wf())
        &&& (self.back matches Some(c) ==> c.wf())
    }

    /// The neighbor that owns a local coordinate one step out of range along
    /// exactly one axis, or the center for an in-range coordinate.
    pub open spec fn spec_chunk_of(self, x: int, y: int, z: int) -> Option<&'a Chunk> {
        let dx = if 0 <= x < CHUNK_SIZE {
            0int
        } else if -CHUNK_SIZE <= x < 0 {
            -1int
        } else if CHUNK_SIZE <= x < 2 * CHUNK_SIZE {
            1int
        } else {
            2int
        };
        let dy = if 0 <= y < CHUNK_SIZE {
            0int
        } else if -CHUNK_SIZE <= y < 0 {
            -1int
        } else if CHUNK_SIZE <= y < 2 * CHUNK_SIZE {
            1int
        } else {
            2int
        };
        let dz = if 0 <= z < CHUNK_SIZE {
            0int
        } else if -CHUNK_SIZE <= z < 0 {
            -1int
        } else if CHUNK_SIZE <= z < 2 * CHUNK_SIZE {
            1int
        } else {
            2int
        };
        if dx == 0 && dy == 0 && dz == 0 {
            Some(self.center)
        } else if dx == 0 && dy == 1 && dz == 0 {
            self.top
        } else if dx == 0 && dy == -1 && dz == 0 {
            self.bottom
        } else if dx == 1 && dy == 0 && dz == 0 {
            self.right
        } else if dx == -1 && dy == 0 && dz == 0 {
            self.left
        } else if dx == 0 && dy == 0 && dz == 1 {
            self.front
        } else if dx == 0 && dy == 0 && dz == -1 {
            self.back
        } else {
            None
        }
    }

    /// The voxel seen at a local coordinate of the center chunk, following a
    /// single-step overhang into the owning neighbor (re-wrapped by Euclidean
    /// modulo); `EMPTY` for an absent neighbor, a diagonal overhang, or a
    /// coordinate more than one step out of range.
    pub open spec fn spec_voxel(self, x: int, y: int, z: int) -> VOXELS {
        match self.spec_chunk_of(x, y, z) {
            Some(c) => {
                let lx = if x < 0 {
                    x + CHUNK_SIZE
                } else if x >= CHUNK_SIZE {
                    x - CHUNK_SIZE
                } else {
                    x
                };
                let ly = if y < 0 {
                    y + CHUNK_SIZE
                } else if y >= CHUNK_SIZE {
                    y - CHUNK_SIZE
                } else {
                    y
                };
                let lz = if z < 0 {
                    z + CHUNK_SIZE
                } else if z >= CHUNK_SIZE {
                    z - CHUNK_SIZE
                } else {
                    z
                };
                c.spec_voxel(lx, ly, lz)
            },
            None => VOXELS::EMPTY,
        }
    }

    /// Cross-boundary point lookup, the only legitimate way to read a voxel
    /// just outside the center chunk's grid.
    pub fn get_voxel(&self, local_x: i32, local_y: i32, local_z: i32) -> (v: VOXELS)
        requires
            self.wf(),
        ensures
            v == self.spec_voxel(local_x as int, local_y as int, local_z as int),
    {
        let in_x = 0 <= local_x && local_x < CHUNK_SIZE;
        let in_y = 0 <= local_y && local_y < CHUNK_SIZE;
        let in_z = 0 <= local_z && local_z < CHUNK_SIZE;
        let lo_x = -CHUNK_SIZE <= local_x && local_x < 0;
        let lo_y = -CHUNK_SIZE <= local_y && local_y < 0;
        let lo_z = -CHUNK_SIZE <= local_z && local_z < 0;
        let hi_x = CHUNK_SIZE <= local_x && local_x < 2 * CHUNK_SIZE;
        let hi_y = CHUNK_SIZE <= local_y && local_y < 2 * CHUNK_SIZE;
        let hi_z = CHUNK_SIZE <= local_z && local_z < 2 * CHUNK_SIZE;

        let chunk: Option<&Chunk> = if in_x && in_y && in_z {
            Some(self.center)
        } else if in_x && hi_y && in_z {
            self.top
        } else if in_x && lo_y && in_z {
            self.bottom
        } else if hi_x && in_y && in_z {
            self.right
        } else if lo_x && in_y && in_z {
            self.left
        } else if in_x && in_y && hi_z {
            self.front
        } else if in_x && in_y && lo_z {
            self.back
        } else {
            None
        };

        if let Some(c) = chunk {
            let cx = if local_x < 0 {
                local_x + CHUNK_SIZE
            } else if local_x >= CHUNK_SIZE {
                local_x - CHUNK_SIZE
            } else {
                local_x
            };
            let cy = if local_y < 0 {
                local_y + CHUNK_SIZE
            } else if local_y >= CHUNK_SIZE {
                local_y - CHUNK_SIZE
            } else {
                local_y
            };
            let cz = if local_z < 0 {
                local_z + CHUNK_SIZE
            } else if local_z >= CHUNK_SIZE {
                local_z - CHUNK_SIZE
            } else {
                local_z
            };
            c.get_voxel(cx, cy, cz)
        } else {
            VOXELS::EMPTY
        }
    }

    /// A face of the voxel at an in-range coordinate is visible when the cell
    /// it looks at, possibly in a neighbor chunk, is `EMPTY`.
    pub fn is_face_visible(&self, x: i32, y: i32, z: i32, face: Face) -> (r: bool)
        requires
            self.wf(),
            in_grid(x as int, y as int, z as int),
        ensures
            r == (self.spec_voxel(
                x + face.spec_offset().0,
                y + face.spec_offset().1,
                z + face.spec_offset().2,
            ) == VOXELS::EMPTY),
    {
        let (dx, dy, dz) = face.offset();
        self.get_voxel(x + dx, y + dy, z + dz) == VOXELS::EMPTY
    }
}

} // verus!
