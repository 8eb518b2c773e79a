//! A chunk: one `CHUNK_SIZE³` voxel grid, its chunk-space coordinate, its
//! mesh-staleness status, and (once meshed) the vertex count and an opaque
//! GPU vertex-array handle.

use vstd::prelude::*;

use crate::mesh::MeshPass;
use crate::mesh::mesh_face;
use crate::mesh::opaque_type_order;
use crate::mesh::spec_chunk_mesh;
use crate::settings::CHUNK_AREA;
use crate::settings::CHUNK_SIZE;
use crate::settings::CHUNK_VOL;
use crate::settings::VOXELS;
use crate::world::ChunkCluster;
use crate::world::Face;

verus! {

/// Mesh-staleness of a chunk relative to its voxel contents.
///
/// `Empty`: no geometry to draw. `Terrain`: voxels generated, decoration not
/// yet applied. `Dirty`: voxel data changed since the last mesh build.
/// `Clean`: a mesh exists and matches the current voxel state.
#[derive(Clone, Copy, PartialEq, Eq, Structural, Debug)]
pub enum ChunkStatus {
    Empty,
    Terrain,
    Dirty,
    Clean,
}

/// The linear index of local grid coordinate `(x, y, z)`: z is the
/// middle-order dimension, y the outermost. Mask plane indexing relies on
/// this exact layout.
pub open spec fn spec_index(x: int, y: int, z: int) -> int {
    x + z * CHUNK_SIZE + y * CHUNK_SIZE * CHUNK_SIZE
}

pub open spec fn in_grid(x: int, y: int, z: int) -> bool {
    0 <= x < CHUNK_SIZE && 0 <= y < CHUNK_SIZE && 0 <= z < CHUNK_SIZE
}

/// Distinct in-range coordinates map to distinct linear indices, and every
/// index stays inside the grid: the linearization is a bijection between
/// `[0, CHUNK_SIZE)³` and `[0, CHUNK_VOL)`.
pub proof fn lemma_index_bijective(x1: int, y1: int, z1: int, x2: int, y2: int, z2: int)
    requires
        in_grid(x1, y1, z1),
        in_grid(x2, y2, z2),
    ensures
        0 <= spec_index(x1, y1, z1) < CHUNK_VOL,
        spec_index(x1, y1, z1) == spec_index(x2, y2, z2) ==> x1 == x2 && y1 == y2 && z1 == z2,
{
}

pub struct Chunk {
    /// Chunk-space coordinate: world position is `pos * CHUNK_SIZE`.
    pub pos: (i32, i32, i32),
    /// The dense grid, always exactly `CHUNK_VOL` cells, linearized by
    /// [`spec_index`].
    pub voxels: Vec<VOXELS>,
    /// Opaque GPU vertex-array handle, present once a mesh was uploaded.
    pub vao: Option<u32>,
    /// Number of vertices in the most recently built mesh.
    pub vertex_count: usize,
    pub status: ChunkStatus,
}

impl Chunk {
    /// The grid is fully allocated.
    pub open spec fn wf(self) -> bool {
        self.voxels@.len() == CHUNK_VOL
    }

    /// The voxel stored at in-range local coordinate `(x, y, z)`.
    pub open spec fn spec_voxel(self, x: int, y: int, z: int) -> VOXELS {
        self.voxels@[spec_index(x, y, z)]
    }

    /// A fresh all-`EMPTY` chunk at chunk coordinate `(x, y, z)`.
    pub fn new(x: i32, y: i32, z: i32) -> (c: Chunk)
        ensures
            c.wf(),
            c.pos == (x, y, z),
            forall|i: int| 0 <= i < CHUNK_VOL ==> c.voxels@[i] == VOXELS::EMPTY,
            c.vao is None,
            c.vertex_count == 0,
            c.status == ChunkStatus::Empty,
    {
        let mut voxels: Vec<VOXELS> = Vec::new();
        let mut i: usize = 0;
        while i < CHUNK_VOL as usize
            invariant
                i <= CHUNK_VOL,
                voxels@.len() == i,
                forall|j: int| 0 <= j < i ==> voxels@[j] == VOXELS::EMPTY,
            decreases CHUNK_VOL - i,
        {
            voxels.push(VOXELS::EMPTY);
            i += 1;
        }
        Chunk { pos: (x, y, z), voxels, vao: None, vertex_count: 0, status: ChunkStatus::Empty }
    }

    /// Point lookup. Callers must stay inside the grid; the
    /// `ChunkCluster` is the only legitimate way to query across a boundary.
    pub fn get_voxel(&self, x: i32, y: i32, z: i32) -> (v: VOXELS)
        requires
            self.wf(),
            in_grid(x as int, y as int, z as int),
        ensures
            v == self.spec_voxel(x as int, y as int, z as int),
    {
        self.voxels[(x + z * CHUNK_SIZE + y * CHUNK_SIZE * CHUNK_SIZE) as usize]
    }

    /// Stores `voxel` at `(x, y, z)` if the coordinate is in range, and
    /// returns `Err(())` without touching the grid otherwise. Either way the
    /// chunk is marked `Dirty`: any edit invalidates the mesh.
    pub fn set_voxel(&mut self, x: i32, y: i32, z: i32, voxel: VOXELS) -> (r: Result<(), ()>)
        requires
            old(self).wf(),
        ensures
            final(self).wf(),
            final(self).status == ChunkStatus::Dirty,
            final(self).pos == old(self).pos,
            final(self).vao == old(self).vao,
            final(self).vertex_count == old(self).vertex_count,
            r is Ok <==> in_grid(x as int, y as int, z as int),
            r is Ok ==> final(self).voxels@ == old(self).voxels@.update(
                spec_index(x as int, y as int, z as int),
                voxel,
            ),
            r is Err ==> final(self).voxels@ == old(self).voxels@,
    {
        self.status = ChunkStatus::Dirty;
        if x >= 0 && x < CHUNK_SIZE && y >= 0 && y < CHUNK_SIZE && z >= 0 && z < CHUNK_SIZE {
            let idx = (x + z * CHUNK_SIZE + y * CHUNK_SIZE * CHUNK_SIZE) as usize;
            self.voxels.set(idx, voxel);
            Ok(())
        } else {
            Err(())
        }
    }

    /// Fills one cell from the elevation bands: the cell at local `xyz` gets
    /// its band voxel for global base `c` and column height `global_height`,
    /// and a sand cell at global sea level whose column tops out there gets
    /// a short column of water stacked above it first. A water write that
    /// runs past the top of the grid fails there, skipping the writes after
    /// it; every attempt marks the chunk `Dirty`.
    pub fn generate_terrain(
        &mut self,
        xyz: (i32, i32, i32),
        c: (i32, i32, i32),
        global_height: i32,
    ) -> (r: Result<(), ()>)
        requires
            old(self).wf(),
            in_grid(xyz.0 as int, xyz.1 as int, xyz.2 as int),
            -0x4000000 <= c.1 <= 0x4000000,
            1 <= global_height,
        ensures
            final(self).wf(),
            final(self).status == ChunkStatus::Dirty,
            final(self).pos == old(self).pos,
            final(self).vao == old(self).vao,
            final(self).vertex_count == old(self).vertex_count,
            ({
                let x = xyz.0 as int;
                let y = xyz.1 as int;
                let z = xyz.2 as int;
                let cy = c.1 as int;
                let gy = cy + y;
                let h = global_height as int;
                let v = band_voxel(cy, y, gy, h);
                if v == VOXELS::SAND && gy == 0 && gy == h - 1 {
                    if y + 4 < CHUNK_SIZE {
                        r is Ok && final(self).voxels@ == water_stacked(
                            old(self).voxels@,
                            x,
                            y,
                            z,
                            4,
                        ).update(spec_index(x, y, z), v)
                    } else {
                        r is Err && final(self).voxels@ == water_stacked(
                            old(self).voxels@,
                            x,
                            y,
                            z,
                            31 - y,
                        )
                    }
                } else {
                    r is Ok && final(self).voxels@ == old(self).voxels@.update(
                        spec_index(x, y, z),
                        v,
                    )
                }
            }),
    {
        let (x, y, z) = xyz;
        let (_cx, cy, _cz) = c;
        let gy = cy + y;

        let voxel = if cy >= 50 && y > 5 {
            VOXELS::SNOW
        } else if gy >= 35 && gy < 50 {
            VOXELS::COBBLESTONE
        } else if gy >= 10 && gy < 35 && gy == global_height - 1 {
            VOXELS::GRASS
        } else if gy >= 7 && gy < 10 {
            VOXELS::DIRT
        } else {
            VOXELS::SAND
        };

        if voxel == VOXELS::SAND && gy == 0 && gy == global_height - 1 {
            let ghost s0 = self.voxels@;
            assert(water_stacked(s0, x as int, y as int, z as int, 0) == s0);
            match self.set_voxel(x, y + 1, z, VOXELS::WATER) {
                Ok(_) => {},
                Err(e) => {
                    assert(self.voxels@ == water_stacked(s0, x as int, y as int, z as int, 0));
                    return Err(e);
                },
            }
            assert(self.voxels@ =~= water_stacked(s0, x as int, y as int, z as int, 1));
            match self.set_voxel(x, y + 2, z, VOXELS::WATER) {
                Ok(_) => {},
                Err(e) => {
                    return Err(e);
                },
            }
            assert(self.voxels@ =~= water_stacked(s0, x as int, y as int, z as int, 2));
            match self.set_voxel(x, y + 3, z, VOXELS::WATER) {
                Ok(_) => {},
                Err(e) => {
                    return Err(e);
                },
            }
            assert(self.voxels@ =~= water_stacked(s0, x as int, y as int, z as int, 3));
            match self.set_voxel(x, y + 4, z, VOXELS::WATER) {
                Ok(_) => {},
                Err(e) => {
                    return Err(e);
                },
            }
            assert(self.voxels@ =~= water_stacked(s0, x as int, y as int, z as int, 4));
        }

        match self.set_voxel(x, y, z, voxel) {
            Ok(_) => Ok(()),
            Err(e) => Err(e),
        }
    }

    /// Fills one `(x, z)` column of the grid from the elevation bands, for a
    /// chunk whose world-space base is `c` and whose column has terrain
    /// height `gh`: every cell whose world height lies in `[0, gh)` as
    /// [`spec_terrain_voxel`] says, every other cell and column untouched.
    fn fill_column(&mut self, x: i32, z: i32, c: (i32, i32, i32), gh: i32)
        requires
            old(self).wf(),
            0 <= x < CHUNK_SIZE,
            0 <= z < CHUNK_SIZE,
            -0x4000000 <= c.1 <= 0x4000000,
            1 <= gh <= 0x1000000,
        ensures
            final(self).wf(),
            final(self).pos == old(self).pos,
            final(self).vao == old(self).vao,
            final(self).vertex_count == old(self).vertex_count,
            forall|yy: int|
                0 <= yy < CHUNK_SIZE ==> final(self).voxels@[spec_index(x as int, yy, z as int)]
                    == spec_terrain_voxel(
                    old(self).voxels@[spec_index(x as int, yy, z as int)],
                    c.1 as int,
                    gh as int,
                    yy,
                ),
            forall|x2: int, yy: int, z2: int|
                in_grid(x2, yy, z2) && !(x2 == x && z2 == z) ==> final(self).voxels@[
                    #[trigger] spec_index(x2, yy, z2)] == old(self).voxels@[spec_index(x2, yy, z2)],
    {
        let ghost s_old = self.voxels@;
        let cy = c.1;
        let y_lo: i32 = if 0 - cy > 0 {
            0 - cy
        } else {
            0
        };
        let y_hi: i32 = if gh - cy < CHUNK_SIZE {
            gh - cy
        } else {
            CHUNK_SIZE
        };
        let mut y = y_lo;
        proof {
            lemma_index_inj_all();
        }
        while y < y_hi
            invariant
                self.wf(),
                self.pos == old(self).pos,
                self.vao == old(self).vao,
                self.vertex_count == old(self).vertex_count,
                0 <= x < CHUNK_SIZE,
                0 <= z < CHUNK_SIZE,
                -0x4000000 <= cy <= 0x4000000,
                cy == c.1,
                1 <= gh <= 0x1000000,
                y_lo == (if -cy > 0 {
                    -cy as int
                } else {
                    0int
                }),
                y_hi == (if gh - cy < CHUNK_SIZE {
                    gh - cy
                } else {
                    CHUNK_SIZE as int
                }),
                y_lo <= y,
                y <= y_hi || y == y_lo,
                s_old == old(self).voxels@,
                forall|yy: int|
                    0 <= yy < CHUNK_SIZE ==> self.voxels@[spec_index(x as int, yy, z as int)] == (
                    if y_lo <= yy < y {
                        spec_terrain_voxel(
                            s_old[spec_index(x as int, yy, z as int)],
                            cy as int,
                            gh as int,
                            yy,
                        )
                    } else if gh == 1 && 1 <= cy + yy <= 4 && -cy >= y_lo && -cy < y {
                        VOXELS::WATER
                    } else {
                        s_old[spec_index(x as int, yy, z as int)]
                    }),
                forall|x2: int, yy: int, z2: int|
                    in_grid(x2, yy, z2) && !(x2 == x && z2 == z) ==> self.voxels@[
                        #[trigger] spec_index(x2, yy, z2)] == s_old[spec_index(x2, yy, z2)],
            decreases y_hi - y,
        {
            let ghost s_pre = self.voxels@;
            let gy = cy + y;
            let _ = self.generate_terrain((x, y, z), c, gh);
            proof {
                lemma_index_inj_all();
                let xi = x as int;
                let yi = y as int;
                let zi = z as int;
                let v = band_voxel(cy as int, yi, cy + yi, gh as int);
                if v == VOXELS::SAND && cy + yi == 0 && cy + yi == gh - 1 {
                    if yi + 4 < CHUNK_SIZE {
                        lemma_water_stacked(s_pre, xi, yi, zi, 4);
                        assert(self.voxels@ == water_stacked(s_pre, xi, yi, zi, 4).update(
                            spec_index(xi, yi, zi),
                            v,
                        ));
                    } else {
                        lemma_water_stacked(s_pre, xi, yi, zi, 31 - yi);
                    }
                }
            }
            y += 1;
        }
        proof {
            assert forall|yy: int| 0 <= yy < CHUNK_SIZE implies self.voxels@[spec_index(
                x as int,
                yy,
                z as int,
            )] == spec_terrain_voxel(
                s_old[spec_index(x as int, yy, z as int)],
                c.1 as int,
                gh as int,
                yy,
            ) by {
                assert(0 <= cy + yy < gh ==> y_lo <= yy < y_hi);
            }
        }
    }

    /// Fills the whole grid from the per-column terrain heights, one entry
    /// per `(x, z)` column indexed `x + z * CHUNK_SIZE`, clamped below to 1.
    /// Afterwards the chunk is `Empty` if no cell was left solid, `Dirty`
    /// otherwise.
    pub fn build_voxels(&mut self, heights: &Vec<i32>)
        requires
            old(self).wf(),
            heights@.len() == CHUNK_AREA,
            forall|i: int|
                0 <= i < CHUNK_AREA ==> -crate::settings::MAX_HEIGHT <= #[trigger] heights@[i]
                    <= crate::settings::MAX_HEIGHT,
            -crate::settings::MAX_CHUNK_COORD <= old(self).pos.0
                <= crate::settings::MAX_CHUNK_COORD,
            -crate::settings::MAX_CHUNK_COORD <= old(self).pos.1
                <= crate::settings::MAX_CHUNK_COORD,
            -crate::settings::MAX_CHUNK_COORD <= old(self).pos.2
                <= crate::settings::MAX_CHUNK_COORD,
        ensures
            final(self).wf(),
            final(self).pos == old(self).pos,
            final(self).vao == old(self).vao,
            final(self).vertex_count == old(self).vertex_count,
            forall|x: int, y: int, z: int|
                in_grid(x, y, z) ==> final(self).voxels@[#[trigger] spec_index(x, y, z)]
                    == spec_terrain_voxel(
                    old(self).voxels@[spec_index(x, y, z)],
                    old(self).pos.1 * CHUNK_SIZE,
                    clamp_height(heights@[x + z * CHUNK_SIZE]) as int,
                    y,
                ),
            final(self).status == (if all_empty(final(self).voxels@) {
                ChunkStatus::Empty
            } else {
                ChunkStatus::Dirty
            }),
    {
        let ghost s_old = self.voxels@;
        let global_pos = (
            self.pos.0 * CHUNK_SIZE,
            self.pos.1 * CHUNK_SIZE,
            self.pos.2 * CHUNK_SIZE,
        );
        let mut x: i32 = 0;
        while x < CHUNK_SIZE
            invariant
                self.wf(),
                self.pos == old(self).pos,
                self.vao == old(self).vao,
                self.vertex_count == old(self).vertex_count,
                s_old == old(self).voxels@,
                global_pos.1 == old(self).pos.1 * CHUNK_SIZE,
                -0x4000000 <= global_pos.1 <= 0x4000000,
                heights@.len() == CHUNK_AREA,
                forall|i: int|
                    0 <= i < CHUNK_AREA ==> -crate::settings::MAX_HEIGHT <= #[trigger] heights@[i]
                        <= crate::settings::MAX_HEIGHT,
                0 <= x <= CHUNK_SIZE,
                forall|x2: int, yy: int, z2: int|
                    in_grid(x2, yy, z2) ==> self.voxels@[#[trigger] spec_index(x2, yy, z2)] == (
                    if x2 < x {
                        spec_terrain_voxel(
                            s_old[spec_index(x2, yy, z2)],
                            global_pos.1 as int,
                            clamp_height(heights@[x2 + z2 * CHUNK_SIZE]) as int,
                            yy,
                        )
                    } else {
                        s_old[spec_index(x2, yy, z2)]
                    }),
            decreases CHUNK_SIZE - x,
        {
            let mut z: i32 = 0;
            while z < CHUNK_SIZE
                invariant
                    self.wf(),
                    self.pos == old(self).pos,
                    self.vao == old(self).vao,
                    self.vertex_count == old(self).vertex_count,
                    s_old == old(self).voxels@,
                    global_pos.1 == old(self).pos.1 * CHUNK_SIZE,
                    -0x4000000 <= global_pos.1 <= 0x4000000,
                    heights@.len() == CHUNK_AREA,
                    forall|i: int|
                        0 <= i < CHUNK_AREA ==> -crate::settings::MAX_HEIGHT
                            <= #[trigger] heights@[i] <= crate::settings::MAX_HEIGHT,
                    0 <= x < CHUNK_SIZE,
                    0 <= z <= CHUNK_SIZE,
                    forall|x2: int, yy: int, z2: int|
                        in_grid(x2, yy, z2) ==> self.voxels@[#[trigger] spec_index(x2, yy, z2)]
                            == (if x2 < x || (x2 == x && z2 < z) {
                            spec_terrain_voxel(
                                s_old[spec_index(x2, yy, z2)],
                                global_pos.1 as int,
                                clamp_height(heights@[x2 + z2 * CHUNK_SIZE]) as int,
                                yy,
                            )
                        } else {
                            s_old[spec_index(x2, yy, z2)]
                        }),
                decreases CHUNK_SIZE - z,
            {
                let h0 = heights[(x + z * CHUNK_SIZE) as usize];
                let gh = if h0 > 0 {
                    h0
                } else {
                    1
                };
                self.fill_column(x, z, global_pos, gh);
                z += 1;
            }
            x += 1;
        }
        let mut empty = true;
        let mut i: usize = 0;
        while i < CHUNK_VOL as usize
            invariant
                self.wf(),
                i <= CHUNK_VOL,
                empty == (forall|j: int| 0 <= j < i ==> self.voxels@[j] == VOXELS::EMPTY),
            decreases CHUNK_VOL - i,
        {
            if self.voxels[i] != VOXELS::EMPTY {
                empty = false;
            }
            i += 1;
        }
        self.status = if empty {
            ChunkStatus::Empty
        } else {
            ChunkStatus::Dirty
        };
    }

    /// Appends a seed entity for a grass voxel whose world column the fixed
    /// hash table picks; every other voxel adds nothing. `xyz` is the
    /// voxel's world-space position.
    pub fn add_entity(
        &self,
        xyz: (i32, i32, i32),
        voxel: VOXELS,
        entities: &mut Vec<(i32, i32, i32, ENTITIES)>,
    )
        requires
            -0x8000000 <= xyz.0 <= 0x8000000,
            -0x8000000 <= xyz.2 <= 0x8000000,
        ensures
            final(entities)@ == old(entities)@ + (if voxel == VOXELS::GRASS
                && crate::settings::spec_seed_at(xyz.0 as int, xyz.2 as int) {
                seq![(xyz.0, xyz.1, xyz.2, ENTITIES::SEED)]
            } else {
                Seq::<(i32, i32, i32, ENTITIES)>::empty()
            }),
    {
        let (x, y, z) = xyz;
        match voxel {
            VOXELS::GRASS => {
                if crate::settings::seed_at(x, z) {
                    entities.push((x, y, z, ENTITIES::SEED));
                } else {
                    proof {
                        assert(entities@ =~= entities@ + Seq::<(i32, i32, i32, ENTITIES)>::empty());
                    }
                }
            },
            _ => {
                proof {
                    assert(entities@ =~= entities@ + Seq::<(i32, i32, i32, ENTITIES)>::empty());
                }
            },
        }
    }

    /// Scans the grid in a fixed order and collects the decoration seeds the
    /// hash table plants on grass: a pure, deterministic function of the
    /// chunk's position and contents.
    pub fn generate_entities(&self) -> (r: Vec<(i32, i32, i32, ENTITIES)>)
        requires
            self.wf(),
            -crate::settings::MAX_CHUNK_COORD <= self.pos.0 <= crate::settings::MAX_CHUNK_COORD,
            -crate::settings::MAX_CHUNK_COORD <= self.pos.1 <= crate::settings::MAX_CHUNK_COORD,
            -crate::settings::MAX_CHUNK_COORD <= self.pos.2 <= crate::settings::MAX_CHUNK_COORD,
        ensures
            r@ == spec_entities(*self, CHUNK_VOL as int),
    {
        let mut entities: Vec<(i32, i32, i32, ENTITIES)> = Vec::new();
        let cx = self.pos.0 * CHUNK_SIZE;
        let cy = self.pos.1 * CHUNK_SIZE;
        let cz = self.pos.2 * CHUNK_SIZE;
        let mut x: i32 = 0;
        while x < CHUNK_SIZE
            invariant
                self.wf(),
                -crate::settings::MAX_CHUNK_COORD <= self.pos.0 <= crate::settings::MAX_CHUNK_COORD,
                -crate::settings::MAX_CHUNK_COORD <= self.pos.1 <= crate::settings::MAX_CHUNK_COORD,
                -crate::settings::MAX_CHUNK_COORD <= self.pos.2 <= crate::settings::MAX_CHUNK_COORD,
                cx == self.pos.0 * CHUNK_SIZE,
                cy == self.pos.1 * CHUNK_SIZE,
                cz == self.pos.2 * CHUNK_SIZE,
                0 <= x <= CHUNK_SIZE,
                entities@ == spec_entities(*self, x * 1024),
            decreases CHUNK_SIZE - x,
        {
            let mut y: i32 = 0;
            while y < CHUNK_SIZE
                invariant
                    self.wf(),
                    -crate::settings::MAX_CHUNK_COORD <= self.pos.0
                        <= crate::settings::MAX_CHUNK_COORD,
                    -crate::settings::MAX_CHUNK_COORD <= self.pos.1
                        <= crate::settings::MAX_CHUNK_COORD,
                    -crate::settings::MAX_CHUNK_COORD <= self.pos.2
                        <= crate::settings::MAX_CHUNK_COORD,
                    cx == self.pos.0 * CHUNK_SIZE,
                    cy == self.pos.1 * CHUNK_SIZE,
                    cz == self.pos.2 * CHUNK_SIZE,
                    0 <= x < CHUNK_SIZE,
                    0 <= y <= CHUNK_SIZE,
                    entities@ == spec_entities(*self, x * 1024 + y * 32),
                decreases CHUNK_SIZE - y,
            {
                let mut z: i32 = 0;
                while z < CHUNK_SIZE
                    invariant
                        self.wf(),
                        -crate::settings::MAX_CHUNK_COORD <= self.pos.0
                            <= crate::settings::MAX_CHUNK_COORD,
                        -crate::settings::MAX_CHUNK_COORD <= self.pos.1
                            <= crate::settings::MAX_CHUNK_COORD,
                        -crate::settings::MAX_CHUNK_COORD <= self.pos.2
                            <= crate::settings::MAX_CHUNK_COORD,
                        cx == self.pos.0 * CHUNK_SIZE,
                        cy == self.pos.1 * CHUNK_SIZE,
                        cz == self.pos.2 * CHUNK_SIZE,
                        0 <= x < CHUNK_SIZE,
                        0 <= y < CHUNK_SIZE,
                        0 <= z <= CHUNK_SIZE,
                        entities@ == spec_entities(*self, x * 1024 + y * 32 + z),
                    decreases CHUNK_SIZE - z,
                {
                    let voxel_global_pos = (cx + x, cy + y, cz + z);
                    let voxel = self.voxels[(x + z * CHUNK_SIZE + y * CHUNK_AREA) as usize];
                    self.add_entity(voxel_global_pos, voxel, &mut entities);
                    proof {
                        lemma_scan_decode(x as int, y as int, z as int);
                        let k = x * 1024 + y * 32 + z;
                        assert(spec_entities(*self, k + 1) == spec_entities(*self, k as int)
                            + entity_at(*self, k as int));
                    }
                    z += 1;
                }
                y += 1;
            }
            x += 1;
        }
        entities
    }

    /// Packs one vertex: this chunk's wire format for the shader, from
    /// corner coordinates in `[0, CHUNK_SIZE]`, a face and a voxel type.
    pub fn compress_data(&self, x: i32, y: i32, z: i32, face: Face, voxel_id: VOXELS) -> (r: u32)
        requires
            0 <= x <= CHUNK_SIZE,
            0 <= y <= CHUNK_SIZE,
            0 <= z <= CHUNK_SIZE,
        ensures
            r == crate::vertex::spec_pack(
                face.spec_id() as u32,
                x as u32,
                y as u32,
                z as u32,
                voxel_id.spec_id(),
            ),
    {
        crate::vertex::pack_vertex(face.id() as u32, x as u32, y as u32, z as u32, voxel_id.id())
    }

    /// Takes a completed mesh and the GPU handle its vertices were uploaded
    /// to: records the vertex count, stores the handle, and moves the chunk
    /// to `Clean` — or to `Empty` when the mesh has no vertices.
    pub fn build_mesh(&mut self, chunk_mesh_data: ChunkMeshData, vao: u32) -> (r: usize)
        requires
            old(self).wf(),
        ensures
            final(self).wf(),
            final(self).pos == old(self).pos,
            final(self).voxels@ == old(self).voxels@,
            r == chunk_mesh_data.vertices@.len(),
            final(self).vertex_count == r,
            final(self).vao == Some(vao),
            final(self).status == (if r > 0 {
                ChunkStatus::Clean
            } else {
                ChunkStatus::Empty
            }),
    {
        let len = chunk_mesh_data.vertices.len();
        self.vertex_count = len;
        self.status = if len > 0 {
            ChunkStatus::Clean
        } else {
            ChunkStatus::Empty
        };
        self.vao = Some(vao);
        len
    }

    /// Builds this chunk's mesh from the given neighbor cluster, which must
    /// be centred on this chunk: the opaque pass over all six faces, then
    /// the water pass, exactly as [`spec_chunk_mesh`] lays the vertices out.
    /// An `Empty` chunk is skipped and yields no vertices.
    pub fn get_vertex_data(&self, chunk_cluster: ChunkCluster) -> (r: ChunkMeshData)
        requires
            self.wf(),
            chunk_cluster.wf(),
            chunk_cluster.center.voxels@ == self.voxels@,
        ensures
            r.pos == self.pos,
            self.status == ChunkStatus::Empty ==> r.vertices@ == Seq::<u32>::empty(),
            self.status != ChunkStatus::Empty ==> r.vertices@ == spec_chunk_mesh(chunk_cluster),
    {
        let mut vertex_data: Vec<u32> = Vec::new();
        if self.status == ChunkStatus::Empty {
            return ChunkMeshData::new(self.pos, vertex_data);
        }
        let opaque_types: Vec<VOXELS> = vec![
            VOXELS::SAND,
            VOXELS::DIRT,
            VOXELS::GRASS,
            VOXELS::COBBLESTONE,
            VOXELS::SNOW,
            VOXELS::WOOD,
            VOXELS::LEAVES,
        ];
        proof {
            assert(opaque_types@ =~= opaque_type_order());
        }
        mesh_face(&chunk_cluster, Face::Top, MeshPass::Opaque, &opaque_types, &mut vertex_data);
        mesh_face(&chunk_cluster, Face::Bottom, MeshPass::Opaque, &opaque_types, &mut vertex_data);
        mesh_face(&chunk_cluster, Face::Right, MeshPass::Opaque, &opaque_types, &mut vertex_data);
        mesh_face(&chunk_cluster, Face::Left, MeshPass::Opaque, &opaque_types, &mut vertex_data);
        mesh_face(&chunk_cluster, Face::Front, MeshPass::Opaque, &opaque_types, &mut vertex_data);
        mesh_face(&chunk_cluster, Face::Back, MeshPass::Opaque, &opaque_types, &mut vertex_data);
        let water_types: Vec<VOXELS> = vec![VOXELS::WATER];
        proof {
            assert(water_types@ =~= seq![VOXELS::WATER]);
        }
        mesh_face(&chunk_cluster, Face::Top, MeshPass::Water, &water_types, &mut vertex_data);
        proof {
            assert(vertex_data@ =~= spec_chunk_mesh(chunk_cluster));
        }
        ChunkMeshData::new(self.pos, vertex_data)
    }
}

/// The voxel the elevation bands choose for a cell: snow high up in tall
/// chunks, cobblestone in the mid band, grass as the single topmost soil
/// layer of mid-elevation columns, dirt just below, sand elsewhere.
/// `cy` is the chunk's world-space base height, `y` the local height,
/// `gy == cy + y` the world-space height, and `h` the column's terrain
/// height.
pub open spec fn band_voxel(cy: int, y: int, gy: int, h: int) -> VOXELS {
    if cy >= 50 && y > 5 {
        VOXELS::SNOW
    } else if 35 <= gy < 50 {
        VOXELS::COBBLESTONE
    } else if 10 <= gy < 35 && gy == h - 1 {
        VOXELS::GRASS
    } else if 7 <= gy < 10 {
        VOXELS::DIRT
    } else {
        VOXELS::SAND
    }
}

/// Terrain heights are clamped below to one voxel of ground.
pub open spec fn clamp_height(h: i32) -> i32 {
    if h > 0 {
        h
    } else {
        1i32
    }
}

/// No cell of the grid holds geometry.
pub open spec fn all_empty(s: Seq<VOXELS>) -> bool {
    forall|i: int| 0 <= i < s.len() ==> s[i] == VOXELS::EMPTY
}

/// Index injectivity, quantified for use at any pair of cells.
pub proof fn lemma_index_inj_all()
    ensures
        forall|x1: int, y1: int, z1: int, x2: int, y2: int, z2: int|
            in_grid(x1, y1, z1) && in_grid(x2, y2, z2) && #[trigger] spec_index(x1, y1, z1)
                == #[trigger] spec_index(x2, y2, z2) ==> x1 == x2 && y1 == y2 && z1 == z2,
{
}

/// The grid after water was stacked on cells `(x, y + 1 ..= y + m, z)`.
pub open spec fn water_stacked(s: Seq<VOXELS>, x: int, y: int, z: int, m: int) -> Seq<VOXELS>
    decreases m,
{
    if m <= 0 {
        s
    } else {
        water_stacked(s, x, y, z, m - 1).update(spec_index(x, y + m, z), VOXELS::WATER)
    }
}

/// What stacking water does, cell by cell: the column's cells
/// `y + 1 ..= y + m` become water and every other cell keeps its value.
pub proof fn lemma_water_stacked(s: Seq<VOXELS>, x: int, y: int, z: int, m: int)
    requires
        s.len() == CHUNK_VOL,
        0 <= x < CHUNK_SIZE,
        0 <= z < CHUNK_SIZE,
        0 <= y,
        0 <= m,
        y + m < CHUNK_SIZE,
    ensures
        water_stacked(s, x, y, z, m).len() == s.len(),
        forall|yy: int|
            0 <= yy < CHUNK_SIZE ==> water_stacked(s, x, y, z, m)[spec_index(x, yy, z)] == (if y + 1
                <= yy <= y + m {
                VOXELS::WATER
            } else {
                s[spec_index(x, yy, z)]
            }),
        forall|x2: int, yy: int, z2: int|
            in_grid(x2, yy, z2) && !(x2 == x && z2 == z) ==> water_stacked(s, x, y, z, m)[
                #[trigger] spec_index(x2, yy, z2)] == s[spec_index(x2, yy, z2)],
    decreases m,
{
    lemma_index_inj_all();
    if m > 0 {
        lemma_water_stacked(s, x, y, z, m - 1);
        assert(in_grid(x, y + m, z));
    }
}

/// What one column cell holds after the column with terrain height `h` was
/// generated: its band voxel inside `[0, h)`, water stacked on a sea-level
/// sand top, and the old value elsewhere. The band voxel of a sea-level top
/// is skipped when its water column would run past the grid, since the
/// writes above it fail first.
pub open spec fn spec_terrain_voxel(old_v: VOXELS, cy: int, h: int, y: int) -> VOXELS {
    let gy = cy + y;
    if 0 <= gy < h {
        if h == 1 && gy == 0 && y + 4 >= CHUNK_SIZE {
            old_v
        } else {
            band_voxel(cy, y, gy, h)
        }
    } else if h == 1 && 1 <= gy <= 4 && y >= gy {
        VOXELS::WATER
    } else {
        old_v
    }
}

/// A decoration marker emitted by the entity scan; a seed grows into a tree
/// during the decoration pass.
#[derive(Clone, Copy, PartialEq, Eq, Structural, Debug)]
pub enum ENTITIES {
    SEED,
}

/// The entity the scan emits at scan step `k` of a chunk: steps visit the
/// grid x-outermost, then y, then z, and a grass cell whose world column the
/// fixed hash table picks yields one seed at its world position.
pub open spec fn entity_at(c: Chunk, k: int) -> Seq<(i32, i32, i32, ENTITIES)> {
    let x = k / 1024;
    let y = (k / 32) % 32;
    let z = k % 32;
    let gx = c.pos.0 * CHUNK_SIZE + x;
    let gy = c.pos.1 * CHUNK_SIZE + y;
    let gz = c.pos.2 * CHUNK_SIZE + z;
    if c.spec_voxel(x, y, z) == VOXELS::GRASS && crate::settings::spec_seed_at(gx, gz) {
        seq![(gx as i32, gy as i32, gz as i32, ENTITIES::SEED)]
    } else {
        Seq::empty()
    }
}

/// All entities of the first `n` scan steps, in scan order.
pub open spec fn spec_entities(c: Chunk, n: int) -> Seq<(i32, i32, i32, ENTITIES)>
    decreases n,
{
    if n <= 0 {
        Seq::empty()
    } else {
        spec_entities(c, n - 1) + entity_at(c, n - 1)
    }
}

proof fn lemma_scan_decode(x: int, y: int, z: int)
    requires
        in_grid(x, y, z),
    ensures
        (x * 1024 + y * 32 + z) / 1024 == x,
        ((x * 1024 + y * 32 + z) / 32) % 32 == y,
        (x * 1024 + y * 32 + z) % 32 == z,
{
    let k = x * 1024 + y * 32 + z;
    assert(k / 1024 == x && (k / 32) % 32 == y && k % 32 == z) by (nonlinear_arith)
        requires
            0 <= x < 32 && 0 <= y < 32 && 0 <= z < 32 && k == x * 1024 + y * 32 + z,
    ;
}

/// Every entity of the scan sits inside the chunk's world-space box, so its
/// coordinates stay far from the `i32` limits.
pub proof fn lemma_entities_bounds(c: Chunk, n: int)
    requires
        -crate::settings::MAX_CHUNK_COORD <= c.pos.0 <= crate::settings::MAX_CHUNK_COORD,
        -crate::settings::MAX_CHUNK_COORD <= c.pos.1 <= crate::settings::MAX_CHUNK_COORD,
        -crate::settings::MAX_CHUNK_COORD <= c.pos.2 <= crate::settings::MAX_CHUNK_COORD,
        n <= CHUNK_VOL,
    ensures
        forall|i: int|
            0 <= i < spec_entities(c, n).len() ==> {
                let e = #[trigger] spec_entities(c, n)[i];
                &&& -0x3000000 <= e.0 <= 0x3000000
                &&& -0x3000000 <= e.1 <= 0x3000000
                &&& -0x3000000 <= e.2 <= 0x3000000
            },
    decreases n,
{
    if n > 0 {
        lemma_entities_bounds(c, n - 1);
        let k = n - 1;
        assert(0 <= k % 32 < 32 && 0 <= (k / 32) % 32 < 32) by (nonlinear_arith);
        assert(n <= CHUNK_VOL ==> k / 1024 < 32) by (nonlinear_arith)
            requires
                k == n - 1 && n <= CHUNK_VOL,
        ;
        assert(k >= 0 ==> k / 1024 >= 0) by (nonlinear_arith);
        let pre = spec_entities(c, n - 1);
        let tail = entity_at(c, n - 1);
        assert(spec_entities(c, n) == pre + tail);
        assert forall|i: int| 0 <= i < spec_entities(c, n).len() implies {
            let e = #[trigger] spec_entities(c, n)[i];
            &&& -0x3000000 <= e.0 <= 0x3000000
            &&& -0x3000000 <= e.1 <= 0x3000000
            &&& -0x3000000 <= e.2 <= 0x3000000
        } by {
            if i < pre.len() {
                assert(spec_entities(c, n)[i] == pre[i]);
            } else {
                assert(spec_entities(c, n)[i] == tail[i - pre.len()]);
            }
        }
    }
}

/// A chunk's mesh output: the packed vertex stream, tagged with the chunk
/// coordinate it was built for.
pub struct ChunkMeshData {
    pub pos: (i32, i32, i32),
    pub vertices: Vec<u32>,
}

impl ChunkMeshData {
    pub fn new(pos: (i32, i32, i32), vertices: Vec<u32>) -> (r: Self)
        ensures
            r.pos == pos,
            r.vertices == vertices,
    {
        ChunkMeshData { pos, vertices }
    }
}

} // verus!
