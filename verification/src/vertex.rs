//! Packed mesh vertices: one 32-bit word per vertex, holding, from the least
//! significant bits upward, the voxel-type id (4 bits), then the z, y and x
//! corner coordinates (6 bits each, values in `[0, CHUNK_SIZE]`), then the
//! face id. This layout is the wire contract with the shader.

use vstd::prelude::*;

verus! {

/// The packed word for one vertex: face id, corner position, voxel-type id.
pub open spec fn spec_pack(face_id: u32, x: u32, y: u32, z: u32, voxel_id: u32) -> u32 {
    ((((((face_id << 6) | x) << 6) | y) << 6) | z) << 4 | voxel_id
}

pub open spec fn spec_voxel_of(w: u32) -> u32 {
    w & 0xF
}

pub open spec fn spec_z_of(w: u32) -> u32 {
    (w >> 4) & 0x3F
}

pub open spec fn spec_y_of(w: u32) -> u32 {
    (w >> 10) & 0x3F
}

pub open spec fn spec_x_of(w: u32) -> u32 {
    (w >> 16) & 0x3F
}

pub open spec fn spec_face_of(w: u32) -> u32 {
    w >> 22
}

/// Within the fields' ranges the packing loses nothing: each field of the
/// word decodes back to the value that was packed.
pub proof fn lemma_pack_decodes(face_id: u32, x: u32, y: u32, z: u32, voxel_id: u32)
    requires
        face_id < 6,
        x <= 32,
        y <= 32,
        z <= 32,
        voxel_id < 16,
    ensures
        spec_face_of(spec_pack(face_id, x, y, z, voxel_id)) == face_id,
        spec_x_of(spec_pack(face_id, x, y, z, voxel_id)) == x,
        spec_y_of(spec_pack(face_id, x, y, z, voxel_id)) == y,
        spec_z_of(spec_pack(face_id, x, y, z, voxel_id)) == z,
        spec_voxel_of(spec_pack(face_id, x, y, z, voxel_id)) == voxel_id,
{
    assert(face_id < 6 && x <= 32 && y <= 32 && z <= 32 && voxel_id < 16 ==> {
        let w = ((((((face_id << 6) | x) << 6) | y) << 6) | z) << 4 | voxel_id;
        &&& w >> 22 == face_id
        &&& (w >> 16) & 0x3F == x
        &&& (w >> 10) & 0x3F == y
        &&& (w >> 4) & 0x3F == z
        &&& w & 0xF == voxel_id
    }) by (bit_vector);
}

/// Two packed words built from in-range fields are equal only when every
/// field agrees: the packing is injective on its domain.
pub proof fn lemma_pack_injective(
    f1: u32,
    x1: u32,
    y1: u32,
    z1: u32,
    v1: u32,
    f2: u32,
    x2: u32,
    y2: u32,
    z2: u32,
    v2: u32,
)
    requires
        f1 < 6 && x1 <= 32 && y1 <= 32 && z1 <= 32 && v1 < 16,
        f2 < 6 && x2 <= 32 && y2 <= 32 && z2 <= 32 && v2 < 16,
        spec_pack(f1, x1, y1, z1, v1) == spec_pack(f2, x2, y2, z2, v2),
    ensures
        f1 == f2 && x1 == x2 && y1 == y2 && z1 == z2 && v1 == v2,
{
    lemma_pack_decodes(f1, x1, y1, z1, v1);
    lemma_pack_decodes(f2, x2, y2, z2, v2);
}

/// The decode facts of [`lemma_pack_decodes`], quantified over every
/// in-range field combination.
pub proof fn lemma_pack_decodes_all()
    by (bit_vector)
    ensures
        forall|f: u32, x: u32, y: u32, z: u32, v: u32|
            f < 6 && x <= 32 && y <= 32 && z <= 32 && v < 16 ==> {
                &&& spec_face_of(#[trigger] spec_pack(f, x, y, z, v)) == f
                &&& spec_x_of(spec_pack(f, x, y, z, v)) == x
                &&& spec_y_of(spec_pack(f, x, y, z, v)) == y
                &&& spec_z_of(spec_pack(f, x, y, z, v)) == z
                &&& spec_voxel_of(spec_pack(f, x, y, z, v)) == v
            },
{
}

/// Builds the packed word; the executable twin of [`spec_pack`].
pub fn pack_vertex(face_id: u32, x: u32, y: u32, z: u32, voxel_id: u32) -> (r: u32)
    requires
        face_id < 6,
        x <= 32,
        y <= 32,
        z <= 32,
        voxel_id < 16,
    ensures
        r == spec_pack(face_id, x, y, z, voxel_id),
{
    let mut res: u32 = face_id;
    res <<= 6;
    res |= x;
    res <<= 6;
    res |= y;
    res <<= 6;
    res |= z;
    res <<= 4;
    res |= voxel_id;
    res
}

} // verus!
