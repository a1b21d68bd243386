//! Draw-order index buffers from an object's stored polygons.
//!
//! Stored polygon indices are 1-based, as the file gives them.  The draw
//! buffer is 0-based, and winding is reversed relative to file order for
//! the target rendering convention: a triangle (a, b, c) becomes
//! [c-1, b-1, a-1], and a quad (a, b, c, d) becomes the two triangles
//! [c-1, b-1, a-1] and [d-1, c-1, a-1], which share the diagonal a-c in
//! opposite directions.

use vstd::prelude::*;

use crate::scene::sp_obj_indices_ok;
use crate::scene::sp_quad_ok;
use crate::scene::sp_tri_ok;
use crate::scene::ObjV;
use crate::scene::Quad;
use crate::scene::SimpleSceneObject;
use crate::scene::Tri;

verus! {

/// Draw indices of one stored triangle: 0-based, winding reversed.
pub open spec fn sp_tri_draw(t: Tri) -> Seq<u16> {
    seq![(t.c - 1) as u16, (t.b - 1) as u16, (t.a - 1) as u16]
}

/// Draw indices of one stored quad: two 0-based triangles covering it.
pub open spec fn sp_quad_draw(q: Quad) -> Seq<u16> {
    seq![
        (q.c - 1) as u16,
        (q.b - 1) as u16,
        (q.a - 1) as u16,
        (q.d - 1) as u16,
        (q.c - 1) as u16,
        (q.a - 1) as u16,
    ]
}

/// Draw indices of the first `k` stored triangles, in order.
pub open spec fn sp_tris_draw(tris: Seq<Tri>, k: int) -> Seq<u16>
    decreases k,
{
    if k <= 0 {
        Seq::empty()
    } else {
        sp_tris_draw(tris, k - 1) + sp_tri_draw(tris[k - 1])
    }
}

/// Draw indices of the first `k` stored quads, in order.
pub open spec fn sp_quads_draw(quads: Seq<Quad>, k: int) -> Seq<u16>
    decreases k,
{
    if k <= 0 {
        Seq::empty()
    } else {
        sp_quads_draw(quads, k - 1) + sp_quad_draw(quads[k - 1])
    }
}

/// The whole draw buffer of an object: all triangles, then all quads.
pub open spec fn sp_draw_indices(o: ObjV) -> Seq<u16> {
    sp_tris_draw(o.triangles, o.triangles.len() as int) + sp_quads_draw(
        o.quads,
        o.quads.len() as int,
    )
}

/// The triangle buffer is three entries per triangle, and triangle `k`
/// occupies entries 3k .. 3k+3 as [c-1, b-1, a-1].
pub proof fn lemma_tris_draw_shape(tris: Seq<Tri>, k: int)
    requires
        0 <= k <= tris.len(),
    ensures
        sp_tris_draw(tris, k).len() == 3 * k,
        forall|j: int|
            0 <= j < k ==> sp_tris_draw(tris, k).subrange(3 * j, 3 * j + 3) == sp_tri_draw(
                #[trigger] tris[j],
            ),
    decreases k,
{
    if k > 0 {
        lemma_tris_draw_shape(tris, k - 1);
        let whole = sp_tris_draw(tris, k);
        let prefix = sp_tris_draw(tris, k - 1);
        assert forall|j: int|
            0 <= j < k implies whole.subrange(3 * j, 3 * j + 3) == sp_tri_draw(
            #[trigger] tris[j],
        ) by {
            if j < k - 1 {
                assert(whole.subrange(3 * j, 3 * j + 3) =~= prefix.subrange(3 * j, 3 * j + 3));
            } else {
                assert(whole.subrange(3 * j, 3 * j + 3) =~= sp_tri_draw(tris[j]));
            }
        }
    }
}

/// The quad buffer is six entries per quad, and quad `k` occupies entries
/// 6k .. 6k+6 as [c-1, b-1, a-1, d-1, c-1, a-1].
pub proof fn lemma_quads_draw_shape(quads: Seq<Quad>, k: int)
    requires
        0 <= k <= quads.len(),
    ensures
        sp_quads_draw(quads, k).len() == 6 * k,
        forall|j: int|
            0 <= j < k ==> sp_quads_draw(quads, k).subrange(6 * j, 6 * j + 6) == sp_quad_draw(
                #[trigger] quads[j],
            ),
    decreases k,
{
    if k > 0 {
        lemma_quads_draw_shape(quads, k - 1);
        let whole = sp_quads_draw(quads, k);
        let prefix = sp_quads_draw(quads, k - 1);
        assert forall|j: int|
            0 <= j < k implies whole.subrange(6 * j, 6 * j + 6) == sp_quad_draw(
            #[trigger] quads[j],
        ) by {
            if j < k - 1 {
                assert(whole.subrange(6 * j, 6 * j + 6) =~= prefix.subrange(6 * j, 6 * j + 6));
            } else {
                assert(whole.subrange(6 * j, 6 * j + 6) =~= sp_quad_draw(quads[j]));
            }
        }
    }
}

/// A stored triangle (a, b, c) reaches the draw buffer 0-based with its
/// winding reversed: its three entries are exactly [c-1, b-1, a-1], so a
/// triangle written `1 2 3` in the file draws the vertices {0, 1, 2}.
pub proof fn lemma_triangle_zero_based(o: ObjV, j: int)
    requires
        0 <= j < o.triangles.len(),
    ensures
        sp_draw_indices(o).subrange(3 * j, 3 * j + 3) == seq![
            (o.triangles[j].c - 1) as u16,
            (o.triangles[j].b - 1) as u16,
            (o.triangles[j].a - 1) as u16,
        ],
        sp_tri_ok(o.triangles[j], o.vertices.len()) ==> sp_tri_draw(o.triangles[j]).to_set()
            =~= set![
            (o.triangles[j].a - 1) as u16,
            (o.triangles[j].b - 1) as u16,
            (o.triangles[j].c - 1) as u16,
        ],
{
    let tlen = o.triangles.len() as int;
    lemma_tris_draw_shape(o.triangles, tlen);
    assert(sp_draw_indices(o).subrange(3 * j, 3 * j + 3) =~= sp_tris_draw(
        o.triangles,
        tlen,
    ).subrange(3 * j, 3 * j + 3));
    let t = o.triangles[j];
    assert(sp_tri_draw(t).to_set() =~= set![(t.a - 1) as u16, (t.b - 1) as u16, (t.c - 1) as u16])
        by {
        assert(sp_tri_draw(t)[0] == (t.c - 1) as u16);
        assert(sp_tri_draw(t)[1] == (t.b - 1) as u16);
        assert(sp_tri_draw(t)[2] == (t.a - 1) as u16);
    }
}

/// A quad (a, b, c, d) expands to exactly two draw triangles that together
/// cover all four of its vertices and no others, and the diagonal a-c they
/// share runs in opposite directions in the two triangles, so the winding
/// stays consistent.
pub proof fn lemma_quad_expansion(q: Quad)
    ensures
        sp_quad_draw(q).len() == 6,
        sp_quad_draw(q).subrange(0, 3) == sp_tri_draw(Tri { a: q.a, b: q.b, c: q.c }),
        sp_quad_draw(q).subrange(3, 6) == sp_tri_draw(Tri { a: q.a, b: q.c, c: q.d }),
        sp_quad_draw(q).to_set() =~= set![
            (q.a - 1) as u16,
            (q.b - 1) as u16,
            (q.c - 1) as u16,
            (q.d - 1) as u16,
        ],
        // the shared diagonal: first triangle walks c-1 .. a-1, second walks a-1 .. c-1
        sp_quad_draw(q)[0] == (q.c - 1) as u16 && sp_quad_draw(q)[2] == (q.a - 1) as u16,
        sp_quad_draw(q)[5] == (q.a - 1) as u16 && sp_quad_draw(q)[4] == (q.c - 1) as u16,
{
    assert(sp_quad_draw(q).subrange(0, 3) =~= sp_tri_draw(Tri { a: q.a, b: q.b, c: q.c }));
    assert(sp_quad_draw(q).subrange(3, 6) =~= sp_tri_draw(Tri { a: q.a, b: q.c, c: q.d }));
    assert(sp_quad_draw(q).to_set() =~= set![
        (q.a - 1) as u16,
        (q.b - 1) as u16,
        (q.c - 1) as u16,
        (q.d - 1) as u16,
    ]) by {
        assert(sp_quad_draw(q)[0] == (q.c - 1) as u16);
        assert(sp_quad_draw(q)[1] == (q.b - 1) as u16);
        assert(sp_quad_draw(q)[2] == (q.a - 1) as u16);
        assert(sp_quad_draw(q)[3] == (q.d - 1) as u16);
        assert(sp_quad_draw(q)[4] == (q.c - 1) as u16);
        assert(sp_quad_draw(q)[5] == (q.a - 1) as u16);
    }
}

/// Build the 0-based, winding-reversed draw index buffer of an object.
/// Every stored index must address one of the object's vertices, which
/// holds of every object of a loaded scene.
pub fn draw_indices(obj: &SimpleSceneObject) -> (r: Vec<u16>)
    requires
        sp_obj_indices_ok(obj@),
    ensures
        r@ == sp_draw_indices(obj@),
{
    let mut out: Vec<u16> = Vec::new();
    let tlen = obj.triangles.len();
    let mut k: usize = 0;
    while k < tlen
        invariant
            k <= tlen,
            tlen == obj@.triangles.len(),
            sp_obj_indices_ok(obj@),
            out@ == sp_tris_draw(obj@.triangles, k as int),
        decreases tlen - k,
    {
        let t = obj.triangles[k];
        proof {
            assert(sp_tri_ok(obj@.triangles[k as int], obj@.vertices.len()));
        }
        out.push(t.c - 1);
        out.push(t.b - 1);
        out.push(t.a - 1);
        proof {
            assert(out@ =~= sp_tris_draw(obj@.triangles, k as int + 1));
        }
        k = k + 1;
    }
    let qlen = obj.quads.len();
    proof {
        assert(out@ =~= sp_tris_draw(obj@.triangles, obj@.triangles.len() as int) + sp_quads_draw(
            obj@.quads,
            0,
        ));
    }
    let mut k2: usize = 0;
    while k2 < qlen
        invariant
            k2 <= qlen,
            qlen == obj@.quads.len(),
            sp_obj_indices_ok(obj@),
            out@ == sp_tris_draw(obj@.triangles, obj@.triangles.len() as int) + sp_quads_draw(
                obj@.quads,
                k2 as int,
            ),
        decreases qlen - k2,
    {
        let q = obj.quads[k2];
        proof {
            assert(sp_quad_ok(obj@.quads[k2 as int], obj@.vertices.len()));
        }
        out.push(q.c - 1);
        out.push(q.b - 1);
        out.push(q.a - 1);
        out.push(q.d - 1);
        out.push(q.c - 1);
        out.push(q.a - 1);
        proof {
            assert(out@ =~= sp_tris_draw(obj@.triangles, obj@.triangles.len() as int)
                + sp_quads_draw(obj@.quads, k2 as int + 1));
        }
        k2 = k2 + 1;
    }
    proof {
        assert(out@ =~= sp_draw_indices(obj@));
    }
    out
}

} // verus!
