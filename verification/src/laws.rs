//! The library's cross-cutting guarantees, stated and proved over the same
//! specification functions its contracts use: which status moves the chunk
//! lifecycle may make, that the two meshing passes stay disjoint with the
//! opaque pass first, that a mesh depends on voxel data alone, and that
//! decoration placement is a pure function of position and contents.

use vstd::prelude::*;

use crate::chunk::Chunk;
use crate::chunk::ChunkStatus;
use crate::chunk::entity_at;
use crate::chunk::spec_entities;
use crate::mesh::MeshPass;
use crate::mesh::MeshQuad;
use crate::mesh::spec_column_word;
use crate::mesh::spec_column_word_upto;
use crate::mesh::spec_face_mask;
use crate::mesh::spec_plane_word_upto;
use crate::mesh::greedy_from;
use crate::mesh::lemma_greedy_bounds;
use crate::mesh::opaque_type_order;
use crate::mesh::spec_chunk_mesh;
use crate::mesh::spec_emit_quads;
use crate::mesh::spec_face_depth_mesh;
use crate::mesh::spec_face_mesh;
use crate::mesh::spec_face_mesh_upto;
use crate::mesh::spec_opaque_mesh;
use crate::mesh::spec_plane;
use crate::mesh::spec_quad_vertices;
use crate::mesh::spec_water_mesh;
use crate::settings::VOXELS;
use crate::vertex::lemma_pack_decodes_all;
use crate::vertex::spec_face_of;
use crate::vertex::spec_voxel_of;
use crate::world::ChunkCluster;
use crate::world::Face;

verus! {

/// The legal status moves of the chunk lifecycle: any edit — a voxel write
/// or a decoration — leaves a chunk `Dirty`; completing a mesh moves a
/// `Dirty` chunk to `Clean`, or to `Empty` when nothing is drawn; and a
/// terrain build moves a fresh `Empty` chunk to `Terrain` (or leaves it
/// `Empty`), where it stays only until decoration runs.
pub open spec fn legal_status_step(from: ChunkStatus, to: ChunkStatus) -> bool {
    ||| to == ChunkStatus::Dirty
    ||| (from == ChunkStatus::Dirty && (to == ChunkStatus::Clean || to == ChunkStatus::Empty))
    ||| (from == ChunkStatus::Empty && (to == ChunkStatus::Terrain || to == ChunkStatus::Empty))
}

/// The status moves the library's operations make — `Dirty` after any edit
/// (`Chunk::set_voxel`, `World::set_voxel`, decoration), `Clean` or `Empty`
/// after a mesh build of a `Dirty` chunk, `Terrain` or `Empty` after a
/// terrain build — are legal, and they are the only legal moves.
pub proof fn lemma_status_machine()
    ensures
        forall|s: ChunkStatus| #[trigger] legal_status_step(s, ChunkStatus::Dirty),
        legal_status_step(ChunkStatus::Dirty, ChunkStatus::Clean),
        legal_status_step(ChunkStatus::Dirty, ChunkStatus::Empty),
        legal_status_step(ChunkStatus::Empty, ChunkStatus::Terrain),
        !legal_status_step(ChunkStatus::Clean, ChunkStatus::Terrain),
        !legal_status_step(ChunkStatus::Terrain, ChunkStatus::Clean),
        !legal_status_step(ChunkStatus::Clean, ChunkStatus::Empty),
        forall|s1: ChunkStatus, s2: ChunkStatus|
            #[trigger] legal_status_step(s1, s2) ==> s2 == ChunkStatus::Dirty || (s1
                == ChunkStatus::Dirty && (s2 == ChunkStatus::Clean || s2 == ChunkStatus::Empty))
                || (s1 == ChunkStatus::Empty && (s2 == ChunkStatus::Terrain || s2
                == ChunkStatus::Empty)),
{
}

/// Decoration placement is deterministic: two chunks at the same coordinate
/// with the same voxel contents yield the same seeds, in the same order,
/// whatever their status or mesh state. The writes grown from a seed are a
/// pure function of its position, so the whole decoration pass is
/// reproducible.
pub proof fn lemma_decoration_deterministic(c1: Chunk, c2: Chunk, n: int)
    requires
        c1.pos == c2.pos,
        c1.voxels@ == c2.voxels@,
    ensures
        spec_entities(c1, n) == spec_entities(c2, n),
    decreases n,
{
    if n > 0 {
        lemma_decoration_deterministic(c1, c2, n - 1);
        assert(entity_at(c1, n - 1) == entity_at(c2, n - 1));
    }
}

/// Every vertex of one merged quad carries the face's id and the voxel
/// type's id.
proof fn lemma_quad_vertex_ids(q: MeshQuad, face: Face, t: int, v: VOXELS)
    requires
        0 <= t < 32,
        q.a0 < q.a1 <= 32,
        q.b0 < q.b1 <= 32,
    ensures
        forall|i: int|
            0 <= i < spec_quad_vertices(q, face, t, v).len() ==> {
                &&& spec_face_of(#[trigger] spec_quad_vertices(q, face, t, v)[i])
                    == face.spec_id() as u32
                &&& spec_voxel_of(spec_quad_vertices(q, face, t, v)[i]) == v.spec_id()
            },
{
    lemma_pack_decodes_all();
}

/// Every vertex an emitted quad list carries the face's id and the voxel
/// type's id.
proof fn lemma_emit_ids(quads: Seq<MeshQuad>, face: Face, t: int, v: VOXELS)
    requires
        0 <= t < 32,
        forall|i: int|
            0 <= i < quads.len() ==> {
                let q = #[trigger] quads[i];
                &&& q.a0 < q.a1 <= 32
                &&& q.b0 < q.b1 <= 32
            },
    ensures
        forall|i: int|
            0 <= i < spec_emit_quads(quads, face, t, v).len() ==> {
                &&& spec_face_of(#[trigger] spec_emit_quads(quads, face, t, v)[i])
                    == face.spec_id() as u32
                &&& spec_voxel_of(spec_emit_quads(quads, face, t, v)[i]) == v.spec_id()
            },
    decreases quads.len(),
{
    if quads.len() > 0 {
        assert forall|i: int| 0 <= i < quads.drop_last().len() implies {
            let q = #[trigger] quads.drop_last()[i];
            &&& q.a0 < q.a1 <= 32
            &&& q.b0 < q.b1 <= 32
        } by {
            assert(quads.drop_last()[i] == quads[i]);
        }
        lemma_emit_ids(quads.drop_last(), face, t, v);
        lemma_quad_vertex_ids(quads.last(), face, t, v);
        let pre = spec_emit_quads(quads.drop_last(), face, t, v);
        let tail = spec_quad_vertices(quads.last(), face, t, v);
        assert(spec_emit_quads(quads, face, t, v) == pre + tail);
        assert forall|i: int| 0 <= i < spec_emit_quads(quads, face, t, v).len() implies {
            &&& spec_face_of(#[trigger] spec_emit_quads(quads, face, t, v)[i])
                == face.spec_id() as u32
            &&& spec_voxel_of(spec_emit_quads(quads, face, t, v)[i]) == v.spec_id()
        } by {
            if i < pre.len() {
                assert(spec_emit_quads(quads, face, t, v)[i] == pre[i]);
            } else {
                assert(spec_emit_quads(quads, face, t, v)[i] == tail[i - pre.len()]);
            }
        }
    }
}

/// Every vertex of one face at one depth carries the face's id and the id
/// of one of the pass's voxel types.
proof fn lemma_face_depth_ids(
    cl: ChunkCluster,
    mask: Seq<u64>,
    face: Face,
    t: int,
    types: Seq<VOXELS>,
    k: int,
)
    requires
        0 <= t < 32,
        k <= types.len(),
    ensures
        forall|i: int|
            0 <= i < spec_face_depth_mesh(cl, mask, face, t, types, k).len() ==> {
                &&& spec_face_of(#[trigger] spec_face_depth_mesh(cl, mask, face, t, types, k)[i])
                    == face.spec_id() as u32
                &&& exists|j: int|
                    0 <= j < k && spec_voxel_of(spec_face_depth_mesh(cl, mask, face, t, types, k)[i])
                        == #[trigger] types[j].spec_id()
            },
    decreases k,
{
    if k > 0 {
        lemma_face_depth_ids(cl, mask, face, t, types, k - 1);
        let v = types[k - 1];
        let quads = greedy_from(spec_plane(cl, mask, face, t, v), 0);
        lemma_greedy_bounds(spec_plane(cl, mask, face, t, v), 0);
        lemma_emit_ids(quads, face, t, v);
        let pre = spec_face_depth_mesh(cl, mask, face, t, types, k - 1);
        let tail = spec_emit_quads(quads, face, t, v);
        assert(spec_face_depth_mesh(cl, mask, face, t, types, k) == pre + tail);
        assert forall|i: int|
            0 <= i < spec_face_depth_mesh(cl, mask, face, t, types, k).len() implies {
            &&& spec_face_of(#[trigger] spec_face_depth_mesh(cl, mask, face, t, types, k)[i])
                == face.spec_id() as u32
            &&& exists|j: int|
                0 <= j < k && spec_voxel_of(spec_face_depth_mesh(cl, mask, face, t, types, k)[i])
                    == #[trigger] types[j].spec_id()
        } by {
            if i < pre.len() {
                assert(spec_face_depth_mesh(cl, mask, face, t, types, k)[i] == pre[i]);
                let j = choose|j: int|
                    0 <= j < k - 1 && spec_voxel_of(pre[i]) == #[trigger] types[j].spec_id();
                assert(0 <= j < k && spec_voxel_of(
                    spec_face_depth_mesh(cl, mask, face, t, types, k)[i],
                ) == types[j].spec_id());
            } else {
                assert(spec_face_depth_mesh(cl, mask, face, t, types, k)[i] == tail[i - pre.len()]);
                assert(0 <= k - 1 < k && spec_voxel_of(
                    spec_face_depth_mesh(cl, mask, face, t, types, k)[i],
                ) == types[k - 1].spec_id());
            }
        }
    }
}

/// Every vertex of one face direction carries the face's id and the id of
/// one of the pass's voxel types.
proof fn lemma_face_mesh_ids(cl: ChunkCluster, mask: Seq<u64>, face: Face, types: Seq<VOXELS>, n: int)
    requires
        n <= 32,
    ensures
        forall|i: int|
            0 <= i < spec_face_mesh_upto(cl, mask, face, types, n).len() ==> {
                &&& spec_face_of(#[trigger] spec_face_mesh_upto(cl, mask, face, types, n)[i])
                    == face.spec_id() as u32
                &&& exists|j: int|
                    0 <= j < types.len() && spec_voxel_of(
                        spec_face_mesh_upto(cl, mask, face, types, n)[i],
                    ) == #[trigger] types[j].spec_id()
            },
    decreases n,
{
    if n > 0 {
        lemma_face_mesh_ids(cl, mask, face, types, n - 1);
        lemma_face_depth_ids(cl, mask, face, n - 1, types, types.len() as int);
        let pre = spec_face_mesh_upto(cl, mask, face, types, n - 1);
        let tail = spec_face_depth_mesh(cl, mask, face, n - 1, types, types.len() as int);
        assert(spec_face_mesh_upto(cl, mask, face, types, n) == pre + tail);
        assert forall|i: int| 0 <= i < spec_face_mesh_upto(cl, mask, face, types, n).len() implies {
            &&& spec_face_of(#[trigger] spec_face_mesh_upto(cl, mask, face, types, n)[i])
                == face.spec_id() as u32
            &&& exists|j: int|
                0 <= j < types.len() && spec_voxel_of(spec_face_mesh_upto(cl, mask, face, types, n)[i])
                    == #[trigger] types[j].spec_id()
        } by {
            if i < pre.len() {
                assert(spec_face_mesh_upto(cl, mask, face, types, n)[i] == pre[i]);
            } else {
                assert(spec_face_mesh_upto(cl, mask, face, types, n)[i] == tail[i - pre.len()]);
            }
        }
    }
}

/// Whether two optional chunk borrows hold the same voxel data: both
/// absent, or both present with equal grids.
pub open spec fn opt_chunk_equiv(a: Option<&Chunk>, b: Option<&Chunk>) -> bool {
    match (a, b) {
        (Some(c1), Some(c2)) => c1.voxels@ == c2.voxels@,
        (None, None) => true,
        _ => false,
    }
}

/// Whether two clusters present the same voxel data in every slot, whatever
/// their chunks' statuses, positions or mesh handles.
pub open spec fn cluster_equiv(c1: ChunkCluster, c2: ChunkCluster) -> bool {
    &&& c1.center.voxels@ == c2.center.voxels@
    &&& opt_chunk_equiv(c1.top, c2.top)
    &&& opt_chunk_equiv(c1.bottom, c2.bottom)
    &&& opt_chunk_equiv(c1.right, c2.right)
    &&& opt_chunk_equiv(c1.left, c2.left)
    &&& opt_chunk_equiv(c1.front, c2.front)
    &&& opt_chunk_equiv(c1.back, c2.back)
}

proof fn lemma_equiv_voxel(c1: ChunkCluster, c2: ChunkCluster)
    requires
        cluster_equiv(c1, c2),
    ensures
        forall|x: int, y: int, z: int|
            #[trigger] c1.spec_voxel(x, y, z) == c2.spec_voxel(x, y, z),
{
    assert forall|x: int, y: int, z: int|
        #[trigger] c1.spec_voxel(x, y, z) == c2.spec_voxel(x, y, z) by {
        match (c1.spec_chunk_of(x, y, z), c2.spec_chunk_of(x, y, z)) {
            (Some(a), Some(b)) => {
                assert(a.voxels@ == b.voxels@);
            },
            _ => {},
        }
    }
}

proof fn lemma_equiv_column_word_full(
    c1: ChunkCluster,
    c2: ChunkCluster,
    pass: MeshPass,
    face: Face,
    a: int,
    b: int,
)
    requires
        cluster_equiv(c1, c2),
    ensures
        spec_column_word(c1, pass, face, a, b) == spec_column_word(c2, pass, face, a, b),
{
    lemma_equiv_voxel(c1, c2);
    lemma_equiv_column_word_upto_only(c1, c2, pass, face, a, b, 32);
}

proof fn lemma_equiv_column_word_upto_only(
    c1: ChunkCluster,
    c2: ChunkCluster,
    pass: MeshPass,
    face: Face,
    a: int,
    b: int,
    n: int,
)
    requires
        cluster_equiv(c1, c2),
    ensures
        spec_column_word_upto(c1, pass, face, a, b, n) == spec_column_word_upto(
            c2,
            pass,
            face,
            a,
            b,
            n,
        ),
    decreases n,
{
    lemma_equiv_voxel(c1, c2);
    if n > 0 {
        lemma_equiv_column_word_upto_only(c1, c2, pass, face, a, b, n - 1);
    }
}

proof fn lemma_equiv_face_mask(c1: ChunkCluster, c2: ChunkCluster, face: Face, pass: MeshPass)
    requires
        cluster_equiv(c1, c2),
    ensures
        spec_face_mask(c1, face, pass) == spec_face_mask(c2, face, pass),
{
    assert forall|i: int| 0 <= i < 1024 implies #[trigger] spec_face_mask(c1, face, pass)[i]
        == spec_face_mask(c2, face, pass)[i] by {
        lemma_equiv_column_word_upto_only(c1, c2, pass, face, i % 32, i / 32, 32);
        lemma_equiv_column_word_full(c1, c2, pass, face, i % 32, i / 32);
    }
    assert(spec_face_mask(c1, face, pass) =~= spec_face_mask(c2, face, pass));
}

proof fn lemma_equiv_plane(
    c1: ChunkCluster,
    c2: ChunkCluster,
    mask: Seq<u64>,
    face: Face,
    t: int,
    v: VOXELS,
)
    requires
        cluster_equiv(c1, c2),
    ensures
        spec_plane(c1, mask, face, t, v) == spec_plane(c2, mask, face, t, v),
{
    lemma_equiv_voxel(c1, c2);
    assert forall|u: int, n: int| n >= 0 implies #[trigger] spec_plane_word_upto(
        c1,
        mask,
        face,
        t,
        v,
        u,
        n,
    ) == spec_plane_word_upto(c2, mask, face, t, v, u, n) by {
        lemma_equiv_plane_word(c1, c2, mask, face, t, v, u, n);
    }
    assert(spec_plane(c1, mask, face, t, v) =~= spec_plane(c2, mask, face, t, v));
}

proof fn lemma_equiv_plane_word(
    c1: ChunkCluster,
    c2: ChunkCluster,
    mask: Seq<u64>,
    face: Face,
    t: int,
    v: VOXELS,
    u: int,
    n: int,
)
    requires
        cluster_equiv(c1, c2),
    ensures
        spec_plane_word_upto(c1, mask, face, t, v, u, n) == spec_plane_word_upto(
            c2,
            mask,
            face,
            t,
            v,
            u,
            n,
        ),
    decreases n,
{
    lemma_equiv_voxel(c1, c2);
    if n > 0 {
        lemma_equiv_plane_word(c1, c2, mask, face, t, v, u, n - 1);
    }
}

proof fn lemma_equiv_face_depth_mesh(
    c1: ChunkCluster,
    c2: ChunkCluster,
    mask: Seq<u64>,
    face: Face,
    t: int,
    types: Seq<VOXELS>,
    k: int,
)
    requires
        cluster_equiv(c1, c2),
    ensures
        spec_face_depth_mesh(c1, mask, face, t, types, k) == spec_face_depth_mesh(
            c2,
            mask,
            face,
            t,
            types,
            k,
        ),
    decreases k,
{
    if k > 0 {
        lemma_equiv_face_depth_mesh(c1, c2, mask, face, t, types, k - 1);
        lemma_equiv_plane(c1, c2, mask, face, t, types[k - 1]);
    }
}

proof fn lemma_equiv_face_mesh(
    c1: ChunkCluster,
    c2: ChunkCluster,
    mask: Seq<u64>,
    face: Face,
    types: Seq<VOXELS>,
    n: int,
)
    requires
        cluster_equiv(c1, c2),
    ensures
        spec_face_mesh_upto(c1, mask, face, types, n) == spec_face_mesh_upto(
            c2,
            mask,
            face,
            types,
            n,
        ),
    decreases n,
{
    if n > 0 {
        lemma_equiv_face_mesh(c1, c2, mask, face, types, n - 1);
        lemma_equiv_face_depth_mesh(c1, c2, mask, face, n - 1, types, types.len() as int);
    }
}

proof fn lemma_equiv_one_face(c1: ChunkCluster, c2: ChunkCluster, face: Face, pass: MeshPass, types: Seq<VOXELS>)
    requires
        cluster_equiv(c1, c2),
    ensures
        spec_face_mesh(c1, face, pass, types) == spec_face_mesh(c2, face, pass, types),
{
    lemma_equiv_face_mask(c1, c2, face, pass);
    lemma_equiv_face_mesh(c1, c2, spec_face_mask(c1, face, pass), face, types, 32);
}

/// Remeshing is idempotent: the mesh is a function of the voxel data alone.
/// Two clusters that present the same grids — however their chunks' status,
/// position or GPU handles differ, as they do between one mesh build and
/// the next of an unchanged chunk — produce identical vertex streams.
pub proof fn lemma_mesh_deterministic(c1: ChunkCluster, c2: ChunkCluster)
    requires
        cluster_equiv(c1, c2),
    ensures
        spec_chunk_mesh(c1) == spec_chunk_mesh(c2),
{
    let types = opaque_type_order();
    lemma_equiv_one_face(c1, c2, Face::Top, MeshPass::Opaque, types);
    lemma_equiv_one_face(c1, c2, Face::Bottom, MeshPass::Opaque, types);
    lemma_equiv_one_face(c1, c2, Face::Right, MeshPass::Opaque, types);
    lemma_equiv_one_face(c1, c2, Face::Left, MeshPass::Opaque, types);
    lemma_equiv_one_face(c1, c2, Face::Front, MeshPass::Opaque, types);
    lemma_equiv_one_face(c1, c2, Face::Back, MeshPass::Opaque, types);
    lemma_equiv_one_face(c1, c2, Face::Top, MeshPass::Water, seq![VOXELS::WATER]);
}

/// Water isolation: a chunk's mesh is the opaque vertices followed by the
/// water vertices; no opaque vertex carries the water id (nor the empty
/// id), and every water vertex carries the water id and the upward face id.
/// The two passes can never emit the same cell into both streams.
pub proof fn lemma_water_isolation(cl: ChunkCluster)
    ensures
        spec_chunk_mesh(cl) == spec_opaque_mesh(cl) + spec_water_mesh(cl),
        forall|i: int|
            0 <= i < spec_opaque_mesh(cl).len() ==> spec_voxel_of(#[trigger] spec_opaque_mesh(cl)[i])
                != VOXELS::WATER.spec_id() && spec_voxel_of(spec_opaque_mesh(cl)[i])
                != VOXELS::EMPTY.spec_id(),
        forall|i: int|
            0 <= i < spec_water_mesh(cl).len() ==> spec_voxel_of(#[trigger] spec_water_mesh(cl)[i])
                == VOXELS::WATER.spec_id() && spec_face_of(spec_water_mesh(cl)[i])
                == Face::Top.spec_id() as u32,
{
    let types = opaque_type_order();
    let f1 = spec_face_mesh(cl, Face::Top, crate::mesh::MeshPass::Opaque, types);
    let f2 = spec_face_mesh(cl, Face::Bottom, crate::mesh::MeshPass::Opaque, types);
    let f3 = spec_face_mesh(cl, Face::Right, crate::mesh::MeshPass::Opaque, types);
    let f4 = spec_face_mesh(cl, Face::Left, crate::mesh::MeshPass::Opaque, types);
    let f5 = spec_face_mesh(cl, Face::Front, crate::mesh::MeshPass::Opaque, types);
    let f6 = spec_face_mesh(cl, Face::Back, crate::mesh::MeshPass::Opaque, types);
    lemma_face_mesh_ids(
        cl,
        crate::mesh::spec_face_mask(cl, Face::Top, crate::mesh::MeshPass::Opaque),
        Face::Top,
        types,
        32,
    );
    lemma_face_mesh_ids(
        cl,
        crate::mesh::spec_face_mask(cl, Face::Bottom, crate::mesh::MeshPass::Opaque),
        Face::Bottom,
        types,
        32,
    );
    lemma_face_mesh_ids(
        cl,
        crate::mesh::spec_face_mask(cl, Face::Right, crate::mesh::MeshPass::Opaque),
        Face::Right,
        types,
        32,
    );
    lemma_face_mesh_ids(
        cl,
        crate::mesh::spec_face_mask(cl, Face::Left, crate::mesh::MeshPass::Opaque),
        Face::Left,
        types,
        32,
    );
    lemma_face_mesh_ids(
        cl,
        crate::mesh::spec_face_mask(cl, Face::Front, crate::mesh::MeshPass::Opaque),
        Face::Front,
        types,
        32,
    );
    lemma_face_mesh_ids(
        cl,
        crate::mesh::spec_face_mask(cl, Face::Back, crate::mesh::MeshPass::Opaque),
        Face::Back,
        types,
        32,
    );
    assert(spec_opaque_mesh(cl) == f1 + f2 + f3 + f4 + f5 + f6);
    assert forall|i: int|
        0 <= i < spec_opaque_mesh(cl).len() implies spec_voxel_of(
        #[trigger] spec_opaque_mesh(cl)[i],
    ) != VOXELS::WATER.spec_id() && spec_voxel_of(spec_opaque_mesh(cl)[i])
        != VOXELS::EMPTY.spec_id() by {
        let w = spec_opaque_mesh(cl)[i];
        let l1 = f1.len() as int;
        let l2 = l1 + f2.len();
        let l3 = l2 + f3.len();
        let l4 = l3 + f4.len();
        let l5 = l4 + f5.len();
        if i < l1 {
            assert(w == f1[i]);
        } else if i < l2 {
            assert(w == f2[i - l1]);
        } else if i < l3 {
            assert(w == f3[i - l2]);
        } else if i < l4 {
            assert(w == f4[i - l3]);
        } else if i < l5 {
            assert(w == f5[i - l4]);
        } else {
            assert(w == f6[i - l5]);
        }
        let j = choose|j: int|
            0 <= j < types.len() && spec_voxel_of(w) == #[trigger] types[j].spec_id();
        assert(types[j].spec_id() != 7 && types[j].spec_id() != 0);
    }
    lemma_face_mesh_ids(
        cl,
        crate::mesh::spec_face_mask(cl, Face::Top, crate::mesh::MeshPass::Water),
        Face::Top,
        seq![VOXELS::WATER],
        32,
    );
    assert forall|i: int|
        0 <= i < spec_water_mesh(cl).len() implies spec_voxel_of(#[trigger] spec_water_mesh(cl)[i])
        == VOXELS::WATER.spec_id() && spec_face_of(spec_water_mesh(cl)[i]) == Face::Top.spec_id()
        as u32 by {
        let j = choose|j: int|
            0 <= j < seq![VOXELS::WATER].len() && spec_voxel_of(spec_water_mesh(cl)[i])
                == #[trigger] seq![VOXELS::WATER][j].spec_id();
        assert(seq![VOXELS::WATER][j] == VOXELS::WATER);
    }
}

} // verus!
