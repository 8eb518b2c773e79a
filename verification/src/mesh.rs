//! The meshing pipeline: per-column bitmasks of solid cells, a bitwise
//! plane-sweep that extracts exposed faces, greedy merging of exposed cells
//! into maximal rectangles, and emission of packed vertices.
//!
//! A column along a face's sweep axis is held in one `u64`: bit `t + 1` tells
//! whether the cell at sweep position `t` satisfies the pass's predicate, and
//! bits `0` and `33` hold the same for the cells one step outside the chunk,
//! read from the neighbor cluster. One shift and one bitwise step then find
//! every solid-to-empty transition of the whole column at once.

use vstd::prelude::*;

use vstd::std_specs::bits::axiom_u32_trailing_ones;
use vstd::std_specs::bits::axiom_u32_trailing_zeros;
use vstd::std_specs::bits::u32_trailing_ones;
use vstd::std_specs::bits::u32_trailing_zeros;

use crate::settings::VOXELS;
use crate::world::ChunkCluster;
use crate::world::Face;

verus! {

pub open spec fn bit64(w: u64, k: u64) -> bool {
    (w >> k) & 1 == 1
}

/// Which voxels a meshing pass draws: the opaque pass takes every solid
/// non-water voxel; the water pass takes water alone.
#[derive(Clone, Copy, PartialEq, Eq, Structural, Debug)]
pub enum MeshPass {
    Opaque,
    Water,
}

pub open spec fn pass_pred(pass: MeshPass, v: VOXELS) -> bool {
    match pass {
        MeshPass::Opaque => v.spec_is_opaque(),
        MeshPass::Water => v == VOXELS::WATER,
    }
}

fn pass_test(pass: MeshPass, v: VOXELS) -> (r: bool)
    ensures
        r == pass_pred(pass, v),
{
    match pass {
        MeshPass::Opaque => v.is_opaque(),
        MeshPass::Water => v == VOXELS::WATER,
    }
}

/// Whether the face looks toward increasing sweep coordinate.
pub open spec fn face_positive(face: Face) -> bool {
    face == Face::Top || face == Face::Right || face == Face::Front
}

fn is_face_positive(face: Face) -> (r: bool)
    ensures
        r == face_positive(face),
{
    match face {
        Face::Top | Face::Right | Face::Front => true,
        Face::Bottom | Face::Left | Face::Back => false,
    }
}

/// The local grid cell of plane coordinate `(a, b)` at sweep position `t`.
/// `Top`/`Bottom` sweep along y, `Right`/`Left` along x, `Front`/`Back`
/// along z; `(a, b)` ranges over the two remaining axes in grid order.
pub open spec fn face_cell(face: Face, a: int, b: int, t: int) -> (int, int, int) {
    match face {
        Face::Top | Face::Bottom => (a, t, b),
        Face::Right | Face::Left => (t, a, b),
        Face::Front | Face::Back => (a, b, t),
    }
}

fn face_cell_exec(face: Face, a: i32, b: i32, t: i32) -> (r: (i32, i32, i32))
    ensures
        (r.0 as int, r.1 as int, r.2 as int) == face_cell(face, a as int, b as int, t as int),
{
    match face {
        Face::Top | Face::Bottom => (a, t, b),
        Face::Right | Face::Left => (t, a, b),
        Face::Front | Face::Back => (a, b, t),
    }
}

/// Whether the cell at sweep position `t` (`-1..=CHUNK_SIZE`) of plane
/// column `(a, b)` satisfies the pass's predicate.
pub open spec fn col_pred(
    cl: ChunkCluster,
    pass: MeshPass,
    face: Face,
    a: int,
    b: int,
    t: int,
) -> bool {
    pass_pred(pass, cl.spec_voxel(face_cell(face, a, b, t).0, face_cell(face, a, b, t).1, face_cell(face, a, b, t).2))
}

/// The column word restricted to sweep positions below `n`: bit `0` is the
/// low outside cell, bit `t + 1` the cell at sweep position `t < n`.
pub open spec fn spec_column_word_upto(
    cl: ChunkCluster,
    pass: MeshPass,
    face: Face,
    a: int,
    b: int,
    n: int,
) -> u64
    decreases n,
{
    if n <= 0 {
        if col_pred(cl, pass, face, a, b, -1) {
            1u64
        } else {
            0u64
        }
    } else {
        spec_column_word_upto(cl, pass, face, a, b, n - 1) | ((if col_pred(
            cl,
            pass,
            face,
            a,
            b,
            n - 1,
        ) {
            1u64
        } else {
            0u64
        }) << n as u64)
    }
}

/// The full 34-bit column word, sentinel bits included.
pub open spec fn spec_column_word(
    cl: ChunkCluster,
    pass: MeshPass,
    face: Face,
    a: int,
    b: int,
) -> u64 {
    spec_column_word_upto(cl, pass, face, a, b, 32) | ((if col_pred(cl, pass, face, a, b, 32) {
        1u64
    } else {
        0u64
    }) << 33u64)
}

/// Plane-sweep face extraction: keep the falling edges (`w & !(w >> 1)`) for
/// a positive face or the rising edges (`w & !(w << 1)`) for a negative one,
/// then shift out the low sentinel bit and drop the high one, realigning bit
/// `t` to sweep position `t`.
pub open spec fn spec_edge(w: u64, positive: bool) -> u64 {
    ((if positive {
        w & !(w >> 1)
    } else {
        w & !(w << 1)
    }) >> 1) & 0xFFFF_FFFF
}

/// The exposed-face mask of plane column `(a, b)`.
pub open spec fn spec_edge_mask_at(
    cl: ChunkCluster,
    face: Face,
    pass: MeshPass,
    a: int,
    b: int,
) -> u64 {
    spec_edge(spec_column_word(cl, pass, face, a, b), face_positive(face))
}

/// One exposed-face mask per plane column, indexed `a + b * 32`.
pub open spec fn spec_face_mask(cl: ChunkCluster, face: Face, pass: MeshPass) -> Seq<u64> {
    Seq::new(1024, |i: int| spec_edge_mask_at(cl, face, pass, i % 32, i / 32))
}

/// Bits of `w | (c << s)` for a one-bit payload `c`.
proof fn lemma_or_shift_bit()
    by (bit_vector)
    ensures
        forall|w: u64, c: u64, s: u64, k: u64|
            c <= 1 && s < 64 && k < 64 ==> (#[trigger] bit64(w | (c << s), k) == (bit64(w, k) || (k
                == s && c == 1))),
        forall|c: u64, k: u64| c <= 1 && k < 64 ==> (#[trigger] bit64(c, k) == (k == 0 && c == 1)),
{
}

/// Bit `k` of the truncated column word is the predicate at sweep position
/// `k - 1`, for `k <= n`; higher bits are clear.
proof fn lemma_column_word_upto_bits(
    cl: ChunkCluster,
    pass: MeshPass,
    face: Face,
    a: int,
    b: int,
    n: int,
)
    requires
        0 <= n <= 32,
    ensures
        forall|k: u64|
            k < 64 ==> (#[trigger] bit64(spec_column_word_upto(cl, pass, face, a, b, n), k) == (k
                <= n && col_pred(cl, pass, face, a, b, k - 1))),
    decreases n,
{
    lemma_or_shift_bit();
    if n == 0 {
        let c = if col_pred(cl, pass, face, a, b, -1) {
            1u64
        } else {
            0u64
        };
        assert(spec_column_word_upto(cl, pass, face, a, b, 0) == c);
    } else {
        lemma_column_word_upto_bits(cl, pass, face, a, b, n - 1);
        let prev = spec_column_word_upto(cl, pass, face, a, b, n - 1);
        let c = if col_pred(cl, pass, face, a, b, n - 1) {
            1u64
        } else {
            0u64
        };
        assert(spec_column_word_upto(cl, pass, face, a, b, n) == (prev | (c << n as u64)));
        assert forall|k: u64|
            k < 64 implies #[trigger] bit64(spec_column_word_upto(cl, pass, face, a, b, n), k) == (
        k <= n && col_pred(cl, pass, face, a, b, k - 1)) by {
            assert(bit64(prev | (c << n as u64), k) == (bit64(prev, k) || (k == n as u64 && c
                == 1)));
        }
    }
}

/// Bit `k` of the full column word is the predicate at sweep position
/// `k - 1`, for `k <= 33`; higher bits are clear.
proof fn lemma_column_word_bits(cl: ChunkCluster, pass: MeshPass, face: Face, a: int, b: int)
    ensures
        forall|k: u64|
            k < 64 ==> (#[trigger] bit64(spec_column_word(cl, pass, face, a, b), k) == ((k <= 32
                || k == 33) && col_pred(cl, pass, face, a, b, k - 1))),
{
    lemma_or_shift_bit();
    lemma_column_word_upto_bits(cl, pass, face, a, b, 32);
}

/// Bits of the edge word: an exposed face at sweep position `t` is a cell
/// that satisfies the predicate while its sweep-direction neighbor does not.
proof fn lemma_edge_bits()
    by (bit_vector)
    ensures
        forall|w: u64, t: u64|
            t < 32 ==> (#[trigger] bit64(spec_edge(w, true), t) == (bit64(w, (t + 1) as u64)
                && !bit64(w, (t + 2) as u64))),
        forall|w: u64, t: u64|
            t < 32 ==> (#[trigger] bit64(spec_edge(w, false), t) == (bit64(w, (t + 1) as u64)
                && !bit64(w, t))),
        forall|w: u64, p: bool, t: u64| t >= 32 ==> !(#[trigger] bit64(spec_edge(w, p), t)),
{
}

/// The central face-culling fact: bit `t` of a column's exposed-face mask is
/// set exactly when the cell at sweep position `t` satisfies the pass's
/// predicate and the cell it looks at — one step along the face's outward
/// direction, possibly in a neighbor chunk — does not.
pub proof fn lemma_edge_mask_bit(
    cl: ChunkCluster,
    face: Face,
    pass: MeshPass,
    a: int,
    b: int,
    t: u64,
)
    requires
        t < 32,
    ensures
        bit64(spec_edge_mask_at(cl, face, pass, a, b), t) == (col_pred(cl, pass, face, a, b, t as int)
            && !col_pred(
            cl,
            pass,
            face,
            a,
            b,
            t + (if face_positive(face) {
                1int
            } else {
                -1int
            }),
        )),
{
    lemma_column_word_bits(cl, pass, face, a, b);
    lemma_edge_bits();
}

/// Builds the exposed-face masks of every plane column of one face
/// direction, reading boundary cells through the neighbor cluster.
pub fn build_face_mask(cl: &ChunkCluster, face: Face, pass: MeshPass) -> (m: Vec<u64>)
    requires
        cl.wf(),
    ensures
        m@ == spec_face_mask(*cl, face, pass),
{
    let positive = is_face_positive(face);
    let mut m: Vec<u64> = Vec::new();
    let mut i: usize = 0;
    while i < 1024
        invariant
            cl.wf(),
            i <= 1024,
            m@.len() == i,
            positive == face_positive(face),
            forall|j: int|
                0 <= j < i ==> m@[j] == spec_edge_mask_at(*cl, face, pass, j % 32, j / 32),
        decreases 1024 - i,
    {
        let a = (i % 32) as i32;
        let b = (i / 32) as i32;
        let cell = face_cell_exec(face, a, b, -1);
        let mut w: u64 = if pass_test(pass, cl.get_voxel(cell.0, cell.1, cell.2)) {
            1
        } else {
            0
        };
        let mut t: usize = 0;
        while t < 32
            invariant
                cl.wf(),
                t <= 32,
                w == spec_column_word_upto(*cl, pass, face, a as int, b as int, t as int),
            decreases 32 - t,
        {
            let cell = face_cell_exec(face, a, b, t as i32);
            if pass_test(pass, cl.get_voxel(cell.0, cell.1, cell.2)) {
                w = w | (1u64 << ((t + 1) as u64));
            } else {
                proof {
                    assert(w | (0u64 << ((t + 1) as u64)) == w) by (bit_vector);
                }
            }
            t += 1;
        }
        let cell = face_cell_exec(face, a, b, 32);
        if pass_test(pass, cl.get_voxel(cell.0, cell.1, cell.2)) {
            w = w | (1u64 << 33u64);
        } else {
            proof {
                assert(w | (0u64 << 33u64) == w) by (bit_vector);
            }
        }
        assert(w == spec_column_word(*cl, pass, face, a as int, b as int));
        let e = if positive {
            w & !(w >> 1u64)
        } else {
            w & !(w << 1u64)
        };
        let e = (e >> 1u64) & 0xFFFF_FFFF;
        m.push(e);
        i += 1;
    }
    proof {
        assert(m@ =~= spec_face_mask(*cl, face, pass));
    }
    m
}

/// One merged rectangle of exposed cells in a plane: plane columns
/// `[a0, a1)` by in-column positions `[b0, b1)`.
#[derive(Clone, Copy, PartialEq, Eq, Structural, Debug)]
pub struct MeshQuad {
    pub a0: usize,
    pub a1: usize,
    pub b0: usize,
    pub b1: usize,
}

/// The `h` lowest bits, set.
pub open spec fn low_bits(h: u32) -> u32 {
    if h >= 32 {
        0xffff_ffffu32
    } else {
        ((1u32 << h) - 1) as u32
    }
}

/// A contiguous run of `h` set bits starting at bit `b0`.
pub open spec fn run_mask(b0: u32, h: u32) -> u32 {
    low_bits(h) << b0
}

/// The lowest run of set bits of a nonzero word — found by
/// `trailing_zeros` and `trailing_ones` — is a nonempty in-range run whose
/// mask is covered by the word, and clearing it strictly shrinks the word.
pub proof fn lemma_first_run(w: u32)
    requires
        w != 0,
    ensures
        ({
            let b0 = u32_trailing_zeros(w);
            let h = u32_trailing_ones(w >> b0);
            let mask = run_mask(b0, h);
            &&& b0 < 32
            &&& 1 <= h <= 32
            &&& b0 + h <= 32
            &&& w & mask == mask
            &&& mask != 0
            &&& (w & !mask) < w
        }),
{
    axiom_u32_trailing_zeros(w);
    let b0 = u32_trailing_zeros(w);
    let v = w >> b0;
    axiom_u32_trailing_ones(v);
    let h = u32_trailing_ones(v);
    let s0: u32 = (32 - b0) as u32;
    let s1: u32 = (32 - h) as u32;
    assert(w << s0 == 0);
    assert((!v) << s1 == 0);
    assert({
        let mask = run_mask(b0, h);
        &&& 1 <= h
        &&& b0 + h <= 32
        &&& w & mask == mask
        &&& mask != 0
        &&& (w & !mask) < w
    }) by (bit_vector)
        requires
            w != 0,
            b0 < 32,
            h <= 32,
            v == w >> b0,
            (w >> b0) & 1u32 == 1u32,
            s0 == 32 - b0,
            s1 == 32 - h,
            w << s0 == 0,
            (!v) << s1 == 0,
            h < 32 ==> (v >> h) & 1u32 == 0u32,
    ;
}

/// The first plane column at or after `j` whose word does not cover `mask`,
/// or 32 if every remaining column covers it.
pub open spec fn fit_end(cols: Seq<u32>, j: int, mask: u32) -> int
    decreases 32 - j,
{
    if !(0 <= j < 32) {
        32
    } else if cols[j] & mask != mask {
        j
    } else {
        fit_end(cols, j + 1, mask)
    }
}

proof fn lemma_fit_end(cols: Seq<u32>, j: int, mask: u32)
    requires
        0 <= j <= 32,
    ensures
        j <= fit_end(cols, j, mask) <= 32,
        forall|i: int| j <= i < fit_end(cols, j, mask) ==> cols[i] & mask == mask,
        fit_end(cols, j, mask) < 32 ==> cols[fit_end(cols, j, mask)] & mask != mask,
    decreases 32 - j,
{
    if j < 32 && cols[j] & mask == mask {
        lemma_fit_end(cols, j + 1, mask);
    }
}

/// `fit_end` is pinned by what a linear scan saw: every column in `[j, e)`
/// covers the mask and column `e` (if any) does not.
proof fn lemma_fit_end_eq(cols: Seq<u32>, j: int, e: int, mask: u32)
    requires
        0 <= j <= e <= 32,
        forall|i: int| j <= i < e ==> cols[i] & mask == mask,
        e < 32 ==> cols[e] & mask != mask,
    ensures
        fit_end(cols, j, mask) == e,
    decreases e - j,
{
    if j < e {
        lemma_fit_end_eq(cols, j + 1, e, mask);
    }
}

/// The plane after the run `mask` is cleared from columns `[a, end)`.
pub open spec fn clear_run(cols: Seq<u32>, a: int, end: int, mask: u32) -> Seq<u32> {
    Seq::new(
        cols.len(),
        |j: int|
            if a <= j < end {
                cols[j] & !mask
            } else {
                cols[j]
            },
    )
}

/// The quads of the greedy mesher on a 32-column plane, scanning from column
/// `a`: take the lowest unclaimed run of the current column, extend it over
/// the following columns for as long as they cover the identical run, clear
/// the claimed bits, and repeat until the plane is empty.
pub open spec fn greedy_from(cols: Seq<u32>, a: int) -> Seq<MeshQuad>
    decreases
            32 - a,
            (if 0 <= a < 32 && cols.len() == 32 {
                cols[a] as int
            } else {
                0
            }),
        via greedy_from_dec
{
    if !(0 <= a < 32) || cols.len() != 32 {
        Seq::empty()
    } else if cols[a] == 0 {
        greedy_from(cols, a + 1)
    } else {
        let w = cols[a];
        let b0 = u32_trailing_zeros(w);
        let h = u32_trailing_ones(w >> b0);
        let mask = run_mask(b0, h);
        let end = fit_end(cols, a + 1, mask);
        let cleared = clear_run(cols, a, end, mask);
        seq![
            MeshQuad { a0: a as usize, a1: end as usize, b0: b0 as usize, b1: (b0 + h) as usize },
        ] + greedy_from(cleared, a)
    }
}

#[via_fn]
proof fn greedy_from_dec(cols: Seq<u32>, a: int) {
    if 0 <= a < 32 && cols.len() == 32 && cols[a] != 0 {
        let w = cols[a];
        lemma_first_run(w);
        let mask = run_mask(u32_trailing_zeros(w), u32_trailing_ones(w >> u32_trailing_zeros(w)));
        let end = fit_end(cols, a + 1, mask);
        lemma_fit_end(cols, a + 1, mask);
        assert(clear_run(cols, a, end, mask)[a] == (w & !mask));
    }
}

/// Every quad the greedy mesher emits lies inside the 32-by-32 plane and has
/// positive extent on both axes.
pub proof fn lemma_greedy_bounds(cols: Seq<u32>, a: int)
    ensures
        forall|i: int|
            0 <= i < greedy_from(cols, a).len() ==> {
                let q = #[trigger] greedy_from(cols, a)[i];
                &&& q.a0 < q.a1 <= 32
                &&& q.b0 < q.b1 <= 32
            },
    decreases
            32 - a,
            (if 0 <= a < 32 && cols.len() == 32 {
                cols[a] as int
            } else {
                0
            }),
{
    if !(0 <= a < 32) || cols.len() != 32 {
        assert(greedy_from(cols, a).len() == 0);
    } else if cols[a] == 0 {
        lemma_greedy_bounds(cols, a + 1);
        assert(greedy_from(cols, a) == greedy_from(cols, a + 1));
    } else {
        let w = cols[a];
        lemma_first_run(w);
        let b0 = u32_trailing_zeros(w);
        let h = u32_trailing_ones(w >> b0);
        let mask = run_mask(b0, h);
        let end = fit_end(cols, a + 1, mask);
        lemma_fit_end(cols, a + 1, mask);
        let cleared = clear_run(cols, a, end, mask);
        assert(cleared[a] == (w & !mask));
        lemma_greedy_bounds(cleared, a);
        let q = MeshQuad {
            a0: a as usize,
            a1: end as usize,
            b0: b0 as usize,
            b1: (b0 + h) as usize,
        };
        let rest = greedy_from(cleared, a);
        assert(greedy_from(cols, a) == seq![q] + rest);
        assert forall|i: int| 0 <= i < greedy_from(cols, a).len() implies {
            let qi = #[trigger] greedy_from(cols, a)[i];
            &&& qi.a0 < qi.a1 <= 32
            &&& qi.b0 < qi.b1 <= 32
        } by {
            if i > 0 {
                assert(greedy_from(cols, a)[i] == rest[i - 1]);
            }
        }
    }
}

/// Greedy-merges one exposed-face plane into maximal rectangles, exactly as
/// [`greedy_from`] describes.
pub fn greedy_mesh(cols: Vec<u32>) -> (quads: Vec<MeshQuad>)
    requires
        cols@.len() == 32,
    ensures
        quads@ == greedy_from(cols@, 0),
{
    let ghost orig = cols@;
    let mut cols = cols;
    let mut quads: Vec<MeshQuad> = Vec::new();
    let mut a: usize = 0;
    while a < 32
        invariant
            cols@.len() == 32,
            a <= 32,
            quads@ + greedy_from(cols@, a as int) == greedy_from(orig, 0),
        decreases
                32 - a,
                (if a < 32 {
                    cols@[a as int] as int
                } else {
                    0
                }),
    {
        let w = cols[a];
        if w == 0 {
            assert(greedy_from(cols@, a as int) == greedy_from(cols@, a as int + 1));
            a += 1;
        } else {
            proof {
                lemma_first_run(w);
            }
            let b0: u32 = w.trailing_zeros();
            let h: u32 = (w >> b0).trailing_ones();
            proof {
                assert(h < 32 ==> (1u32 << h) >= 1) by (bit_vector);
                assert(0xffff_ffffu32 << 0u32 == 0xffff_ffffu32) by (bit_vector);
            }
            let mask: u32 = if h >= 32 {
                0xffff_ffff
            } else {
                ((1u32 << h) - 1) << b0
            };
            assert(mask == run_mask(b0, h));
            let ghost pre = cols@;
            let mut end: usize = a + 1;
            while end < 32 && cols[end] & mask == mask
                invariant
                    a + 1 <= end <= 32,
                    cols@.len() == 32,
                    cols@ == pre,
                    forall|i: int| a + 1 <= i < end ==> cols@[i] & mask == mask,
                decreases 32 - end,
            {
                end += 1;
            }
            proof {
                lemma_fit_end_eq(pre, a as int + 1, end as int, mask);
            }
            let mut j: usize = a;
            while j < end
                invariant
                    a <= j <= end <= 32,
                    cols@.len() == 32,
                    pre.len() == 32,
                    forall|i: int| 0 <= i < 32 && !(a <= i < j) ==> cols@[i] == pre[i],
                    forall|i: int| a <= i < j ==> cols@[i] == (pre[i] & !mask),
                decreases end - j,
            {
                let wj = cols[j];
                cols.set(j, wj & !mask);
                j += 1;
            }
            proof {
                assert(cols@ =~= clear_run(pre, a as int, end as int, mask));
            }
            let ghost quads_pre = quads@;
            quads.push(MeshQuad { a0: a, a1: end, b0: b0 as usize, b1: (b0 + h) as usize });
            proof {
                let q = MeshQuad { a0: a, a1: end, b0: b0 as usize, b1: (b0 + h) as usize };
                assert(greedy_from(pre, a as int) == seq![q] + greedy_from(cols@, a as int));
                assert(quads@ + greedy_from(cols@, a as int) =~= quads_pre + (seq![q]
                    + greedy_from(cols@, a as int)));
            }
        }
    }
    proof {
        assert(quads@ =~= greedy_from(orig, 0));
    }
    quads
}

pub open spec fn bit32(w: u32, k: u32) -> bool {
    (w >> k) & 1 == 1
}

/// Whether a quad claims plane cell `(u, w)`.
pub open spec fn quad_covers(q: MeshQuad, u: int, w: int) -> bool {
    q.a0 <= u < q.a1 && q.b0 <= w < q.b1
}

/// Whether some quad of a list claims plane cell `(u, w)`.
pub open spec fn quads_cover(quads: Seq<MeshQuad>, u: int, w: int) -> bool {
    exists|i: int| 0 <= i < quads.len() && quad_covers(#[trigger] quads[i], u, w)
}

/// Bit-level facts about run masks and clearing, quantified.
proof fn lemma_run_mask_bits()
    by (bit_vector)
    ensures
        forall|b0: u32, h: u32, w: u32|
            1 <= h && b0 + h <= 32 && w < 32 ==> (#[trigger] bit32(run_mask(b0, h), w) == (b0 <= w
                < b0 + h)),
        forall|x: u32, m: u32, w: u32|
            w < 32 ==> (#[trigger] bit32(x & !m, w) == (bit32(x, w) && !bit32(m, w))),
        forall|x: u32, m: u32, w: u32|
            x & m == m && w < 32 && #[trigger] bit32(m, w) ==> #[trigger] bit32(x, w),
        forall|x: u32, w: u32| x == 0 && w < 32 ==> !(#[trigger] bit32(x, w)),
{
}

/// The first run of a nonzero word is exactly its mask's bits: the bits
/// `b0 <= w < b0 + h` are set in the word, and the bit just above the run
/// (if any) is clear.
proof fn lemma_first_run_bits(x: u32)
    requires
        x != 0,
    ensures
        ({
            let b0 = u32_trailing_zeros(x);
            let h = u32_trailing_ones(x >> b0);
            forall|w: u32|
                w < 32 ==> (#[trigger] bit32(x, w) ==> b0 <= w) && (b0 <= w < b0 + h ==> bit32(
                    x,
                    w,
                ))
        }),
{
    lemma_first_run(x);
    lemma_run_mask_bits();
    axiom_u32_trailing_zeros(x);
    let b0 = u32_trailing_zeros(x);
    let h = u32_trailing_ones(x >> b0);
    let mask = run_mask(b0, h);
    assert forall|w: u32| w < 32 implies (#[trigger] bit32(x, w) ==> b0 <= w) && (b0 <= w < b0 + h
        ==> bit32(x, w)) by {
        if w < b0 {
            assert((x >> w) & 1u32 == 0u32);
            assert(!bit32(x, w));
        }
        if b0 <= w < b0 + h {
            assert(bit32(mask, w));
        }
    }
}

/// The greedy mesher tiles the plane: a cell is claimed by some emitted
/// quad exactly when its bit is set in a column at or right of the scan
/// start, and no two quads claim the same cell.
pub proof fn lemma_greedy_covers_exactly(cols: Seq<u32>, a: int)
    requires
        cols.len() == 32,
        0 <= a <= 32,
    ensures
        forall|u: int, w: int|
            0 <= u < 32 && 0 <= w < 32 ==> (#[trigger] quads_cover(greedy_from(cols, a), u, w) == (
            a <= u && bit32(cols[u], w as u32))),
        forall|i: int, j: int, u: int, w: int|
            0 <= i < j < greedy_from(cols, a).len() ==> !(#[trigger] quad_covers(
                greedy_from(cols, a)[i],
                u,
                w,
            ) && #[trigger] quad_covers(greedy_from(cols, a)[j], u, w)),
    decreases
            32 - a,
            (if 0 <= a < 32 && cols.len() == 32 {
                cols[a] as int
            } else {
                0
            }),
{
    lemma_run_mask_bits();
    if a == 32 {
        assert forall|u: int, w: int| 0 <= u < 32 && 0 <= w < 32 implies (#[trigger] quads_cover(
            greedy_from(cols, a),
            u,
            w,
        ) == (a <= u && bit32(cols[u], w as u32))) by {
            assert(greedy_from(cols, a).len() == 0);
        }
    } else if cols[a] == 0 {
        lemma_greedy_covers_exactly(cols, a + 1);
        assert(greedy_from(cols, a) == greedy_from(cols, a + 1));
        assert forall|u: int, w: int| 0 <= u < 32 && 0 <= w < 32 implies (#[trigger] quads_cover(
            greedy_from(cols, a),
            u,
            w,
        ) == (a <= u && bit32(cols[u], w as u32))) by {
            if u == a {
                assert(!bit32(cols[u], w as u32));
            }
        }
    } else {
        let x = cols[a];
        lemma_first_run(x);
        lemma_first_run_bits(x);
        let b0 = u32_trailing_zeros(x);
        let h = u32_trailing_ones(x >> b0);
        let mask = run_mask(b0, h);
        let end = fit_end(cols, a + 1, mask);
        lemma_fit_end(cols, a + 1, mask);
        let cleared = clear_run(cols, a, end, mask);
        let q = MeshQuad {
            a0: a as usize,
            a1: end as usize,
            b0: b0 as usize,
            b1: (b0 + h) as usize,
        };
        let rest = greedy_from(cleared, a);
        assert(greedy_from(cols, a) == seq![q] + rest);
        assert(cleared[a] == (x & !mask));
        lemma_greedy_covers_exactly(cleared, a);

        // a quad cell is a set bit of its column
        assert forall|u: int, w: int|
            0 <= u < 32 && 0 <= w < 32 && quad_covers(q, u, w) implies bit32(
            cols[u],
            w as u32,
        ) by {
            assert(cols[u] & mask == mask);
            assert(bit32(mask, w as u32));
        }
        // the cleared plane keeps exactly the bits outside the quad
        assert forall|u: int, w: int| 0 <= u < 32 && 0 <= w < 32 implies #[trigger] bit32(
            cleared[u],
            w as u32,
        ) == (bit32(cols[u], w as u32) && !quad_covers(q, u, w)) by {
            if a <= u < end {
                assert(cleared[u] == (cols[u] & !mask));
                assert(bit32(mask, w as u32) == (b0 <= w < b0 + h));
            } else {
                assert(cleared[u] == cols[u]);
            }
        }
        assert forall|u: int, w: int| 0 <= u < 32 && 0 <= w < 32 implies (#[trigger] quads_cover(
            greedy_from(cols, a),
            u,
            w,
        ) == (a <= u && bit32(cols[u], w as u32))) by {
            if quads_cover(greedy_from(cols, a), u, w) {
                let i = choose|i: int|
                    0 <= i < greedy_from(cols, a).len() && quad_covers(
                        #[trigger] greedy_from(cols, a)[i],
                        u,
                        w,
                    );
                if i == 0 {
                    assert(greedy_from(cols, a)[0] == q);
                    assert(a <= u && bit32(cols[u], w as u32));
                } else {
                    assert(greedy_from(cols, a)[i] == rest[i - 1]);
                    assert(quads_cover(rest, u, w));
                }
            }
            if a <= u && bit32(cols[u], w as u32) {
                if quad_covers(q, u, w) {
                    assert(greedy_from(cols, a)[0] == q);
                    assert(quads_cover(greedy_from(cols, a), u, w));
                } else {
                    assert(bit32(cleared[u], w as u32));
                    assert(quads_cover(rest, u, w));
                    let i = choose|i: int|
                        0 <= i < rest.len() && quad_covers(#[trigger] rest[i], u, w);
                    assert(greedy_from(cols, a)[i + 1] == rest[i]);
                    assert(quads_cover(greedy_from(cols, a), u, w));
                }
            }
        }
        // disjointness: the head quad's cells are cleared before recursing
        assert forall|i: int, j: int, u: int, w: int|
            0 <= i < j < greedy_from(cols, a).len() implies !(#[trigger] quad_covers(
            greedy_from(cols, a)[i],
            u,
            w,
        ) && #[trigger] quad_covers(greedy_from(cols, a)[j], u, w)) by {
            if quad_covers(greedy_from(cols, a)[i], u, w) && quad_covers(
                greedy_from(cols, a)[j],
                u,
                w,
            ) {
                assert(0 <= u < 32 && 0 <= w < 32);
                if i == 0 {
                    assert(greedy_from(cols, a)[0] == q);
                    assert(greedy_from(cols, a)[j] == rest[j - 1]);
                    assert(quads_cover(rest, u, w));
                    assert(bit32(cleared[u], w as u32));
                } else {
                    assert(greedy_from(cols, a)[i] == rest[i - 1]);
                    assert(greedy_from(cols, a)[j] == rest[j - 1]);
                }
            }
        }
    }
}

/// Whether plane cell `(u, w)` of `face` at sweep depth `t` is an exposed
/// face of a voxel of type `v`.
pub open spec fn plane_bit(
    cl: ChunkCluster,
    mask: Seq<u64>,
    face: Face,
    t: int,
    v: VOXELS,
    u: int,
    w: int,
) -> bool {
    &&& bit64(mask[u + w * 32], t as u64)
    &&& cl.spec_voxel(
        face_cell(face, u, w, t).0,
        face_cell(face, u, w, t).1,
        face_cell(face, u, w, t).2,
    ) == v
}

/// Column `u` of the greedy plane, restricted to cells below `n`.
pub open spec fn spec_plane_word_upto(
    cl: ChunkCluster,
    mask: Seq<u64>,
    face: Face,
    t: int,
    v: VOXELS,
    u: int,
    n: int,
) -> u32
    decreases n,
{
    if n <= 0 {
        0u32
    } else {
        spec_plane_word_upto(cl, mask, face, t, v, u, n - 1) | ((if plane_bit(
            cl,
            mask,
            face,
            t,
            v,
            u,
            n - 1,
        ) {
            1u32
        } else {
            0u32
        }) << (n - 1) as u32)
    }
}

/// The 32-column bit plane handed to the greedy mesher for one
/// (face, depth, voxel type) combination.
pub open spec fn spec_plane(
    cl: ChunkCluster,
    mask: Seq<u64>,
    face: Face,
    t: int,
    v: VOXELS,
) -> Seq<u32> {
    Seq::new(32, |u: int| spec_plane_word_upto(cl, mask, face, t, v, u, 32))
}

proof fn lemma_or_shift_bit32()
    by (bit_vector)
    ensures
        forall|x: u32, c: u32, s: u32, k: u32|
            c <= 1 && s < 32 && k < 32 ==> (#[trigger] bit32(x | (c << s), k) == (bit32(x, k) || (k
                == s && c == 1))),
        forall|k: u32| k < 32 ==> !(#[trigger] bit32(0u32, k)),
{
}

/// Bit `w` of a greedy-plane column is the plane predicate at cell `(u, w)`.
proof fn lemma_plane_word_bits(
    cl: ChunkCluster,
    mask: Seq<u64>,
    face: Face,
    t: int,
    v: VOXELS,
    u: int,
    n: int,
)
    requires
        0 <= n <= 32,
    ensures
        forall|w: u32|
            w < 32 ==> (#[trigger] bit32(spec_plane_word_upto(cl, mask, face, t, v, u, n), w) == (w
                < n && plane_bit(cl, mask, face, t, v, u, w as int))),
    decreases n,
{
    lemma_or_shift_bit32();
    if n > 0 {
        lemma_plane_word_bits(cl, mask, face, t, v, u, n - 1);
        let prev = spec_plane_word_upto(cl, mask, face, t, v, u, n - 1);
        let c = if plane_bit(cl, mask, face, t, v, u, n - 1) {
            1u32
        } else {
            0u32
        };
        assert(spec_plane_word_upto(cl, mask, face, t, v, u, n) == (prev | (c << (n - 1) as u32)));
        assert forall|w: u32|
            w < 32 implies #[trigger] bit32(spec_plane_word_upto(cl, mask, face, t, v, u, n), w)
            == (w < n && plane_bit(cl, mask, face, t, v, u, w as int)) by {
            assert(bit32(prev | (c << (n - 1) as u32), w) == (bit32(prev, w) || (w == (n - 1) as u32
                && c == 1)));
        }
    }
}

/// Face-count conservation, in its general form: for any face direction,
/// sweep depth and voxel type, the greedy mesher claims plane cell `(u, w)`
/// — and therefore emits a quad over it — exactly when the voxel there has
/// that type, satisfies the pass's predicate, and the cell its face looks
/// at, possibly in a neighbor chunk, does not. Together with
/// [`lemma_greedy_covers_exactly`]'s disjointness, every visible face is
/// drawn by exactly one quad and no hidden face is drawn at all.
pub proof fn lemma_mesh_covers_visible_faces(
    cl: ChunkCluster,
    face: Face,
    pass: MeshPass,
    t: int,
    v: VOXELS,
    u: int,
    w: int,
)
    requires
        0 <= t < 32,
        0 <= u < 32,
        0 <= w < 32,
    ensures
        quads_cover(
            greedy_from(spec_plane(cl, spec_face_mask(cl, face, pass), face, t, v), 0),
            u,
            w,
        ) == {
            let cell = face_cell(face, u, w, t);
            let outward = face_cell(
                face,
                u,
                w,
                t + (if face_positive(face) {
                    1int
                } else {
                    -1int
                }),
            );
            &&& cl.spec_voxel(cell.0, cell.1, cell.2) == v
            &&& pass_pred(pass, v)
            &&& !pass_pred(pass, cl.spec_voxel(outward.0, outward.1, outward.2))
        },
{
    let mask = spec_face_mask(cl, face, pass);
    let plane = spec_plane(cl, mask, face, t, v);
    lemma_greedy_covers_exactly(plane, 0);
    lemma_plane_word_bits(cl, mask, face, t, v, u, 32);
    assert(plane[u] == spec_plane_word_upto(cl, mask, face, t, v, u, 32));
    assert((u + w * 32) % 32 == u && (u + w * 32) / 32 == w) by (nonlinear_arith)
        requires
            0 <= u < 32 && 0 <= w < 32,
    ;
    assert(mask[u + w * 32] == spec_edge_mask_at(cl, face, pass, u, w));
    lemma_edge_mask_bit(cl, face, pass, u, w, t as u64);
}

/// Builds the greedy plane of `face` at depth `t` for voxel type `v` from
/// the face's exposed-face masks.
pub fn build_plane(cl: &ChunkCluster, mask: &Vec<u64>, face: Face, t: usize, v: VOXELS) -> (p: Vec<
    u32,
>)
    requires
        cl.wf(),
        mask@.len() == 1024,
        t < 32,
    ensures
        p@ == spec_plane(*cl, mask@, face, t as int, v),
{
    let mut p: Vec<u32> = Vec::new();
    let mut u: usize = 0;
    while u < 32
        invariant
            cl.wf(),
            mask@.len() == 1024,
            t < 32,
            u <= 32,
            p@.len() == u,
            forall|i: int|
                0 <= i < u ==> p@[i] == spec_plane_word_upto(*cl, mask@, face, t as int, v, i, 32),
        decreases 32 - u,
    {
        let mut word: u32 = 0;
        let mut w: usize = 0;
        while w < 32
            invariant
                cl.wf(),
                mask@.len() == 1024,
                t < 32,
                u < 32,
                w <= 32,
                word == spec_plane_word_upto(*cl, mask@, face, t as int, v, u as int, w as int),
            decreases 32 - w,
        {
            let mw = mask[u + w * 32];
            let exposed = (mw >> (t as u64)) & 1 == 1;
            let cell = face_cell_exec(face, u as i32, w as i32, t as i32);
            if exposed && cl.get_voxel(cell.0, cell.1, cell.2) == v {
                word = word | (1u32 << (w as u32));
            } else {
                proof {
                    assert(word | (0u32 << (w as u32)) == word) by (bit_vector);
                }
            }
            w += 1;
        }
        p.push(word);
        u += 1;
    }
    proof {
        assert(p@ =~= spec_plane(*cl, mask@, face, t as int, v));
    }
    p
}

/// The six packed vertices of one merged quad: two triangles wound
/// counter-clockwise as seen along the face's outward normal, with corners at
/// the quad's extents in the plane axes and on the far (`t + 1`) cell
/// boundary for a positive face or the near (`t`) boundary for a negative
/// one.
pub open spec fn spec_quad_vertices(q: MeshQuad, face: Face, t: int, v: VOXELS) -> Seq<u32> {
    let fid = face.spec_id() as u32;
    let vid = v.spec_id();
    let a0 = q.a0 as u32;
    let a1 = q.a1 as u32;
    let b0 = q.b0 as u32;
    let b1 = q.b1 as u32;
    let tn = t as u32;
    let tf = (t + 1) as u32;
    match face {
        Face::Top => seq![
            crate::vertex::spec_pack(fid, a0, tf, b1, vid),
            crate::vertex::spec_pack(fid, a1, tf, b1, vid),
            crate::vertex::spec_pack(fid, a1, tf, b0, vid),
            crate::vertex::spec_pack(fid, a1, tf, b0, vid),
            crate::vertex::spec_pack(fid, a0, tf, b0, vid),
            crate::vertex::spec_pack(fid, a0, tf, b1, vid),
        ],
        Face::Bottom => seq![
            crate::vertex::spec_pack(fid, a0, tn, b0, vid),
            crate::vertex::spec_pack(fid, a1, tn, b0, vid),
            crate::vertex::spec_pack(fid, a1, tn, b1, vid),
            crate::vertex::spec_pack(fid, a1, tn, b1, vid),
            crate::vertex::spec_pack(fid, a0, tn, b1, vid),
            crate::vertex::spec_pack(fid, a0, tn, b0, vid),
        ],
        Face::Right => seq![
            crate::vertex::spec_pack(fid, tf, a0, b1, vid),
            crate::vertex::spec_pack(fid, tf, a0, b0, vid),
            crate::vertex::spec_pack(fid, tf, a1, b0, vid),
            crate::vertex::spec_pack(fid, tf, a1, b0, vid),
            crate::vertex::spec_pack(fid, tf, a1, b1, vid),
            crate::vertex::spec_pack(fid, tf, a0, b1, vid),
        ],
        Face::Left => seq![
            crate::vertex::spec_pack(fid, tn, a0, b0, vid),
            crate::vertex::spec_pack(fid, tn, a0, b1, vid),
            crate::vertex::spec_pack(fid, tn, a1, b1, vid),
            crate::vertex::spec_pack(fid, tn, a1, b1, vid),
            crate::vertex::spec_pack(fid, tn, a1, b0, vid),
            crate::vertex::spec_pack(fid, tn, a0, b0, vid),
        ],
        Face::Front => seq![
            crate::vertex::spec_pack(fid, a0, b0, tf, vid),
            crate::vertex::spec_pack(fid, a1, b0, tf, vid),
            crate::vertex::spec_pack(fid, a1, b1, tf, vid),
            crate::vertex::spec_pack(fid, a1, b1, tf, vid),
            crate::vertex::spec_pack(fid, a0, b1, tf, vid),
            crate::vertex::spec_pack(fid, a0, b0, tf, vid),
        ],
        Face::Back => seq![
            crate::vertex::spec_pack(fid, a1, b0, tn, vid),
            crate::vertex::spec_pack(fid, a0, b0, tn, vid),
            crate::vertex::spec_pack(fid, a0, b1, tn, vid),
            crate::vertex::spec_pack(fid, a0, b1, tn, vid),
            crate::vertex::spec_pack(fid, a1, b1, tn, vid),
            crate::vertex::spec_pack(fid, a1, b0, tn, vid),
        ],
    }
}

/// The vertex stream of a quad list, quads in order, six vertices each.
pub open spec fn spec_emit_quads(quads: Seq<MeshQuad>, face: Face, t: int, v: VOXELS) -> Seq<u32>
    decreases quads.len(),
{
    if quads.len() == 0 {
        Seq::empty()
    } else {
        spec_emit_quads(quads.drop_last(), face, t, v) + spec_quad_vertices(
            quads.last(),
            face,
            t,
            v,
        )
    }
}

/// Appends the packed vertices of every quad, in quad order.
#[verifier::rlimit(100)]
pub fn emit_quads(quads: &Vec<MeshQuad>, face: Face, t: usize, v: VOXELS, out: &mut Vec<u32>)
    requires
        t < 32,
        forall|i: int|
            0 <= i < quads@.len() ==> {
                let q = #[trigger] quads@[i];
                &&& q.a0 < q.a1 <= 32
                &&& q.b0 < q.b1 <= 32
            },
    ensures
        final(out)@ == old(out)@ + spec_emit_quads(quads@, face, t as int, v),
{
    let fid = face.id() as u32;
    let vid = v.id();
    assert(vid < 16);
    let mut k: usize = 0;
    while k < quads.len()
        invariant
            t < 32,
            fid == face.spec_id() as u32,
            vid == v.spec_id(),
            vid < 16,
            fid < 6,
            k <= quads@.len(),
            forall|i: int|
                0 <= i < quads@.len() ==> {
                    let q = #[trigger] quads@[i];
                    &&& q.a0 < q.a1 <= 32
                    &&& q.b0 < q.b1 <= 32
                },
            out@ == old(out)@ + spec_emit_quads(quads@.take(k as int), face, t as int, v),
        decreases quads@.len() - k,
    {
        let q = quads[k];
        let a0 = q.a0 as u32;
        let a1 = q.a1 as u32;
        let b0 = q.b0 as u32;
        let b1 = q.b1 as u32;
        let tn = t as u32;
        let tf = t as u32 + 1;
        match face {
            Face::Top => {
                out.push(crate::vertex::pack_vertex(fid, a0, tf, b1, vid));
                out.push(crate::vertex::pack_vertex(fid, a1, tf, b1, vid));
                out.push(crate::vertex::pack_vertex(fid, a1, tf, b0, vid));
                out.push(crate::vertex::pack_vertex(fid, a1, tf, b0, vid));
                out.push(crate::vertex::pack_vertex(fid, a0, tf, b0, vid));
                out.push(crate::vertex::pack_vertex(fid, a0, tf, b1, vid));
            },
            Face::Bottom => {
                out.push(crate::vertex::pack_vertex(fid, a0, tn, b0, vid));
                out.push(crate::vertex::pack_vertex(fid, a1, tn, b0, vid));
                out.push(crate::vertex::pack_vertex(fid, a1, tn, b1, vid));
                out.push(crate::vertex::pack_vertex(fid, a1, tn, b1, vid));
                out.push(crate::vertex::pack_vertex(fid, a0, tn, b1, vid));
                out.push(crate::vertex::pack_vertex(fid, a0, tn, b0, vid));
            },
            Face::Right => {
                out.push(crate::vertex::pack_vertex(fid, tf, a0, b1, vid));
                out.push(crate::vertex::pack_vertex(fid, tf, a0, b0, vid));
                out.push(crate::vertex::pack_vertex(fid, tf, a1, b0, vid));
                out.push(crate::vertex::pack_vertex(fid, tf, a1, b0, vid));
                out.push(crate::vertex::pack_vertex(fid, tf, a1, b1, vid));
                out.push(crate::vertex::pack_vertex(fid, tf, a0, b1, vid));
            },
            Face::Left => {
                out.push(crate::vertex::pack_vertex(fid, tn, a0, b0, vid));
                out.push(crate::vertex::pack_vertex(fid, tn, a0, b1, vid));
                out.push(crate::vertex::pack_vertex(fid, tn, a1, b1, vid));
                out.push(crate::vertex::pack_vertex(fid, tn, a1, b1, vid));
                out.push(crate::vertex::pack_vertex(fid, tn, a1, b0, vid));
                out.push(crate::vertex::pack_vertex(fid, tn, a0, b0, vid));
            },
            Face::Front => {
                out.push(crate::vertex::pack_vertex(fid, a0, b0, tf, vid));
                out.push(crate::vertex::pack_vertex(fid, a1, b0, tf, vid));
                out.push(crate::vertex::pack_vertex(fid, a1, b1, tf, vid));
                out.push(crate::vertex::pack_vertex(fid, a1, b1, tf, vid));
                out.push(crate::vertex::pack_vertex(fid, a0, b1, tf, vid));
                out.push(crate::vertex::pack_vertex(fid, a0, b0, tf, vid));
            },
            Face::Back => {
                out.push(crate::vertex::pack_vertex(fid, a1, b0, tn, vid));
                out.push(crate::vertex::pack_vertex(fid, a0, b0, tn, vid));
                out.push(crate::vertex::pack_vertex(fid, a0, b1, tn, vid));
                out.push(crate::vertex::pack_vertex(fid, a0, b1, tn, vid));
                out.push(crate::vertex::pack_vertex(fid, a1, b1, tn, vid));
                out.push(crate::vertex::pack_vertex(fid, a1, b0, tn, vid));
            },
        }
        proof {
            let taken = quads@.take(k as int + 1);
            assert(taken.drop_last() =~= quads@.take(k as int));
            assert(taken.last() == quads@[k as int]);
            assert(out@ =~= old(out)@ + spec_emit_quads(taken, face, t as int, v));
        }
        k += 1;
    }
    proof {
        assert(quads@.take(quads@.len() as int) =~= quads@);
    }
}

/// The order in which the opaque pass visits voxel types.
pub open spec fn opaque_type_order() -> Seq<VOXELS> {
    seq![
        VOXELS::SAND,
        VOXELS::DIRT,
        VOXELS::GRASS,
        VOXELS::COBBLESTONE,
        VOXELS::SNOW,
        VOXELS::WOOD,
        VOXELS::LEAVES,
    ]
}

/// The vertices of one face at one depth, for the first `k` voxel types:
/// each type's plane is greedy-merged and emitted in type order.
pub open spec fn spec_face_depth_mesh(
    cl: ChunkCluster,
    mask: Seq<u64>,
    face: Face,
    t: int,
    types: Seq<VOXELS>,
    k: int,
) -> Seq<u32>
    decreases k,
{
    if k <= 0 {
        Seq::empty()
    } else {
        spec_face_depth_mesh(cl, mask, face, t, types, k - 1) + spec_emit_quads(
            greedy_from(spec_plane(cl, mask, face, t, types[k - 1]), 0),
            face,
            t,
            types[k - 1],
        )
    }
}

/// The vertices of one face for every depth below `n`, depths ascending.
pub open spec fn spec_face_mesh_upto(
    cl: ChunkCluster,
    mask: Seq<u64>,
    face: Face,
    types: Seq<VOXELS>,
    n: int,
) -> Seq<u32>
    decreases n,
{
    if n <= 0 {
        Seq::empty()
    } else {
        spec_face_mesh_upto(cl, mask, face, types, n - 1) + spec_face_depth_mesh(
            cl,
            mask,
            face,
            n - 1,
            types,
            types.len() as int,
        )
    }
}

/// The whole vertex stream of one face direction of one pass.
pub open spec fn spec_face_mesh(
    cl: ChunkCluster,
    face: Face,
    pass: MeshPass,
    types: Seq<VOXELS>,
) -> Seq<u32> {
    spec_face_mesh_upto(cl, spec_face_mask(cl, face, pass), face, types, 32)
}

/// The opaque pass: all six faces in id order, water excluded.
pub open spec fn spec_opaque_mesh(cl: ChunkCluster) -> Seq<u32> {
    spec_face_mesh(cl, Face::Top, MeshPass::Opaque, opaque_type_order()) + spec_face_mesh(
        cl,
        Face::Bottom,
        MeshPass::Opaque,
        opaque_type_order(),
    ) + spec_face_mesh(cl, Face::Right, MeshPass::Opaque, opaque_type_order()) + spec_face_mesh(
        cl,
        Face::Left,
        MeshPass::Opaque,
        opaque_type_order(),
    ) + spec_face_mesh(cl, Face::Front, MeshPass::Opaque, opaque_type_order()) + spec_face_mesh(
        cl,
        Face::Back,
        MeshPass::Opaque,
        opaque_type_order(),
    )
}

/// The water pass: top faces of water cells only, a single-sided surface.
pub open spec fn spec_water_mesh(cl: ChunkCluster) -> Seq<u32> {
    spec_face_mesh(cl, Face::Top, MeshPass::Water, seq![VOXELS::WATER])
}

/// The whole mesh of a non-empty chunk: the opaque vertices first, then the
/// water vertices.
pub open spec fn spec_chunk_mesh(cl: ChunkCluster) -> Seq<u32> {
    spec_opaque_mesh(cl) + spec_water_mesh(cl)
}

/// Meshes one face direction of one pass and appends its vertices.
pub fn mesh_face(
    cl: &ChunkCluster,
    face: Face,
    pass: MeshPass,
    types: &Vec<VOXELS>,
    out: &mut Vec<u32>,
)
    requires
        cl.wf(),
    ensures
        final(out)@ == old(out)@ + spec_face_mesh(*cl, face, pass, types@),
{
    let mask = build_face_mask(cl, face, pass);
    let mut t: usize = 0;
    while t < 32
        invariant
            cl.wf(),
            mask@ == spec_face_mask(*cl, face, pass),
            t <= 32,
            out@ == old(out)@ + spec_face_mesh_upto(*cl, mask@, face, types@, t as int),
        decreases 32 - t,
    {
        let ghost depth_base = out@;
        let mut ti: usize = 0;
        while ti < types.len()
            invariant
                cl.wf(),
                mask@ == spec_face_mask(*cl, face, pass),
                t < 32,
                ti <= types@.len(),
                out@ == depth_base + spec_face_depth_mesh(
                    *cl,
                    mask@,
                    face,
                    t as int,
                    types@,
                    ti as int,
                ),
            decreases types@.len() - ti,
        {
            let v = types[ti];
            let plane = build_plane(cl, &mask, face, t, v);
            proof {
                lemma_greedy_bounds(plane@, 0);
            }
            let quads = greedy_mesh(plane);
            emit_quads(&quads, face, t, v, out);
            ti += 1;
        }
        t += 1;
    }
}

} // verus!
