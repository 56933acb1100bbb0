//! The library's global laws, stated and proved once.

use vstd::prelude::*;

use crate::face::Face;
use crate::half_edge::{
    edge_in_range, edge_is_boundary, face_closes_at, face_cycle, face_loop_exists, face_walk,
    lemma_face_cycle_of, lemma_vertex_cycle_of, pair_index, vertex_closes_at, vertex_cycle,
    vertex_loop_exists, vertex_step, vertex_walk, HalfEdge, HalfEdgeIndex, CIRCULATOR_LIMIT,
};
use crate::face::face_unused;
use crate::half_edge::half_edge_unused;
use crate::mesh::{
    add_face_model, af_alloc_sweep, af_edge_slot, af_link_sweep, af_next_pos, af_rejected,
    af_vertex_blocked, compact_model, face_compact_model, fresh_polygon, fresh_side_shape,
    half_edge_compact_model, lemma_alloc_sweep_locations, lemma_face_sweep_identity,
    lemma_fresh_link, lemma_fresh_new_count, lemma_he_sweep_identity, lemma_link_sweep_locations,
    lemma_vertex_sweep_identity, vertex_compact_model, MeshModel,
};
use crate::vertex::{vertex_unused, Vertex};
use crate::UNSET_VALUE;

verus! {

/// Pairing is an involution: flipping the low bit twice, with the unset
/// index fixed, returns every index to itself.  The one index left out is
/// the sentinel's even neighbour, whose pair would be the sentinel itself;
/// no arena of paired half-edges allocates it as one of a pair.
pub proof fn lemma_edge_pair_involution(e: u32)
    requires
        e != UNSET_VALUE - 1,
    ensures
        pair_index(pair_index(e)) == e,
{
    if e != UNSET_VALUE {
        if e % 2 == 0 {
            assert((e + 1) as u32 != UNSET_VALUE);
            assert(((e + 1) as u32) % 2 == 1);
        } else {
            assert((e - 1) as u32 != UNSET_VALUE);
            assert(((e - 1) as u32) % 2 == 0);
        }
    }
}

/// Boundary is a property of the undirected edge: a half-edge borders the
/// boundary exactly when its pair does.
pub proof fn lemma_boundary_symmetry(es: Seq<HalfEdge>, e: u32)
    requires
        e != UNSET_VALUE - 1,
    ensures
        edge_is_boundary(es, e) == edge_is_boundary(es, pair_index(e)),
{
    lemma_edge_pair_involution(e);
}

/// A face loop is well formed when it closes within the circulator's step
/// bound and every half-edge on it carries the face.
pub open spec fn face_loop_wf(es: Seq<HalfEdge>, f: u32, first: u32) -> bool {
    exists|n: nat|
        1 <= n <= CIRCULATOR_LIMIT && face_closes_at(es, first, n) && (forall|k: nat|
            k < n ==> es[#[trigger] face_walk(es, first, k) as int].adjacent_face.index == f)
}

/// Face-loop closure: around a well-formed face the circulator's walk
/// returns to its start within the step bound, and every half-edge it
/// visits has the face as its adjacent face.
pub proof fn lemma_face_loop_closure(es: Seq<HalfEdge>, f: u32, first: u32)
    requires
        first != UNSET_VALUE,
        (first as int) < es.len(),
        face_loop_wf(es, f, first),
    ensures
        face_loop_exists(es, first),
        face_cycle(es, first).len() >= 1,
        forall|j: int|
            0 <= j < face_cycle(es, first).len() ==> es[#[trigger] face_cycle(es, first)[j] as int].adjacent_face.index
                == f,
{
    let n = choose|n: nat|
        1 <= n <= CIRCULATOR_LIMIT && face_closes_at(es, first, n) && (forall|k: nat|
            k < n ==> es[#[trigger] face_walk(es, first, k) as int].adjacent_face.index == f);
    lemma_face_cycle_of(es, first, n);
    assert forall|j: int| 0 <= j < face_cycle(es, first).len() implies es[#[trigger] face_cycle(
        es,
        first,
    )[j] as int].adjacent_face.index == f by {
        assert(face_cycle(es, first)[j] == face_walk(es, first, j as nat));
    }
}

/// After inserting a face over a fresh polygon, the face-loop walk visits
/// its sides' face-side slots in order, wrapping back to the first.
proof fn lemma_fresh_face_walk(es: Seq<HalfEdge>, vis: Seq<u32>, base: int, k: int)
    requires
        0 <= base,
        3 <= vis.len(),
        base + 2 * vis.len() <= UNSET_VALUE,
        es.len() == base + 2 * vis.len(),
        0 <= k <= vis.len(),
        forall|j: int|
            0 <= j < vis.len() ==> es[base + 2 * j].next_edge.index == (base + 2 * af_next_pos(
                vis.len() as int,
                j,
            )) as u32,
    ensures
        face_walk(es, base as u32, k as nat) == (base + 2 * (if k == vis.len() {
            0int
        } else {
            k
        })) as u32,
    decreases k,
{
    if k > 0 {
        lemma_fresh_face_walk(es, vis, base, k - 1);
        assert(face_walk(es, base as u32, k as nat) == es[base + 2 * (k - 1)].next_edge.index);
        let np = af_next_pos(vis.len() as int, k - 1);
        assert(es[base + 2 * (k - 1)].next_edge.index == (base + 2 * np) as u32);
    }
}

/// The face-loop half of the fresh-insertion law: the new face's loop is
/// well formed in the produced mesh.
#[verifier::rlimit(60)]
proof fn lemma_fresh_insertion_loop(
    vs0: Seq<Vertex>,
    es0: Seq<HalfEdge>,
    fs0: Seq<Face>,
    vis: Seq<u32>,
)
    requires
        fresh_polygon(vs0, vis),
        vis.len() <= CIRCULATOR_LIMIT,
        es0.len() % 2 == 0,
        es0.len() + 2 * vis.len() <= UNSET_VALUE,
    ensures
        face_loop_wf(
            add_face_model(vs0, es0, fs0, vis).edges,
            fs0.len() as u32,
            es0.len() as u32,
        ),
{
    let base = es0.len() as int;
    let n = vis.len() as int;
    let fidx = fs0.len() as u32;
    lemma_fresh_new_count(vs0, es0, vis, n);
    let m = add_face_model(vs0, es0, fs0, vis);
    let a = af_alloc_sweep(vs0, es0, vis, fidx, vis.len());
    let l = af_link_sweep(vs0, es0, vis, base, a.0, a.1, vis.len());
    lemma_fresh_link(vs0, es0, vis, fidx, n);
    assert(m.edges == l.1);
    assert forall|k: nat| k < n implies #[trigger] face_walk(m.edges, base as u32, k) == (base + 2
        * k) as u32 && edge_in_range(m.edges, (base + 2 * k) as u32) by {
        lemma_fresh_face_walk(m.edges, vis, base, k as int);
    }
    lemma_fresh_face_walk(m.edges, vis, base, n);
    assert(face_walk(m.edges, base as u32, n as nat) == base as u32);
    assert forall|k: nat| 1 <= k < n implies #[trigger] face_walk(m.edges, base as u32, k)
        != base as u32 by {
        assert(face_walk(m.edges, base as u32, k) == (base + 2 * k) as u32);
        assert(base + 2 * k <= UNSET_VALUE && base <= UNSET_VALUE);
    }
    assert(face_closes_at(m.edges, base as u32, n as nat));
    assert forall|k: nat| k < n implies m.edges[#[trigger] face_walk(
        m.edges,
        base as u32,
        k,
    ) as int].adjacent_face.index == fidx by {
        assert(fresh_side_shape(m.edges, vis, base, fidx, k as int));
    }
}

/// The vertex-fan half of the fresh-insertion law, for one polygon
/// position: its vertex's fan in the produced mesh is the boundary side
/// entering it plus the face side leaving it, a well-formed two-edge fan.
#[verifier::rlimit(60)]
proof fn lemma_fresh_insertion_fan_at(
    vs0: Seq<Vertex>,
    es0: Seq<HalfEdge>,
    fs0: Seq<Face>,
    vis: Seq<u32>,
    ii: int,
)
    requires
        fresh_polygon(vs0, vis),
        vis.len() <= CIRCULATOR_LIMIT,
        es0.len() % 2 == 0,
        es0.len() + 2 * vis.len() <= UNSET_VALUE,
        0 <= ii < vis.len(),
    ensures
        ({
            let m = add_face_model(vs0, es0, fs0, vis);
            vertex_fan_wf(
                m.edges,
                vis[ii],
                m.vertices[vis[ii] as int].outgoing_half_edge.index,
            )
        }),
{
    let base = es0.len() as int;
    let n = vis.len() as int;
    let fidx = fs0.len() as u32;
    lemma_fresh_new_count(vs0, es0, vis, n);
    let m = add_face_model(vs0, es0, fs0, vis);
    let a = af_alloc_sweep(vs0, es0, vis, fidx, vis.len());
    let l = af_link_sweep(vs0, es0, vis, base, a.0, a.1, vis.len());
    lemma_fresh_link(vs0, es0, vis, fidx, n);
    assert(m.edges == l.1 && m.vertices == l.0);
    let j = if ii == 0 {
        n - 1
    } else {
        ii - 1
    };
    assert(af_next_pos(n, j) == ii);
    let out = (base + 2 * j + 1) as u32;
    assert(m.vertices[vis[ii] as int].outgoing_half_edge.index == out);
    assert(fresh_side_shape(m.edges, vis, base, fidx, j));
    assert(fresh_side_shape(m.edges, vis, base, fidx, ii));
    assert((base + 2 * j + 1) % 2 == 1);
    assert(pair_index(out) == (base + 2 * j) as u32);
    assert((pair_index(out) as int) == base + 2 * j);
    assert(vertex_walk(m.edges, out, 0) == out);
    assert(vertex_walk(m.edges, out, 1) == vertex_step(m.edges, out));
    assert(vertex_step(m.edges, out) == m.edges[base + 2 * j].next_edge.index);
    let mid = (base + 2 * ii) as u32;
    assert(vertex_walk(m.edges, out, 1) == mid);
    assert((base + 2 * ii) % 2 == 0);
    assert(pair_index(mid) == (base + 2 * ii + 1) as u32);
    assert((pair_index(mid) as int) == base + 2 * ii + 1);
    assert(vertex_walk(m.edges, out, 2) == vertex_step(m.edges, vertex_walk(m.edges, out, 1)));
    assert(vertex_step(m.edges, mid) == m.edges[base + 2 * ii + 1].next_edge.index);
    assert(vertex_walk(m.edges, out, 2) == out);
    assert(mid != out);
    assert forall|k: nat| k < 2 implies edge_in_range(m.edges, #[trigger] vertex_walk(m.edges, out, k))
        && edge_in_range(m.edges, pair_index(vertex_walk(m.edges, out, k))) by {
        if k == 0 {
            assert(vertex_walk(m.edges, out, 0) == out);
        } else {
            assert(vertex_walk(m.edges, out, 1) == mid);
        }
    }
    assert forall|k: nat| 1 <= k < 2 implies #[trigger] vertex_walk(m.edges, out, k) != out by {
        assert(vertex_walk(m.edges, out, 1) == mid);
    }
    assert(vertex_closes_at(m.edges, out, 2));
    assert(m.edges[out as int].start_vertex.index == vis[ii]);
    assert(m.edges[(base + 2 * ii) as int].start_vertex.index == vis[ii]);
    assert forall|k: nat| k < 2 implies m.edges[#[trigger] vertex_walk(
        m.edges,
        out,
        k,
    ) as int].start_vertex.index == vis[ii] by {
        if k == 0 {
            assert(vertex_walk(m.edges, out, 0) == out);
        } else {
            assert(vertex_walk(m.edges, out, 1) == mid);
        }
    }
    assert(vertex_fan_wf(m.edges, vis[ii], out));
}

/// Inserting a face over a fresh polygon (at least three distinct
/// vertices, none yet attached to a half-edge) is accepted, and the mesh
/// it produces gives the new face a well-formed bounding loop and every
/// polygon vertex a well-formed two-edge fan: the hypotheses of the two
/// closure laws hold of the result, not merely of an assumed mesh.
pub proof fn lemma_fresh_face_insertion(
    vs0: Seq<Vertex>,
    es0: Seq<HalfEdge>,
    fs0: Seq<Face>,
    vis: Seq<u32>,
)
    requires
        fresh_polygon(vs0, vis),
        vis.len() <= CIRCULATOR_LIMIT,
        es0.len() % 2 == 0,
        es0.len() + 2 * vis.len() <= UNSET_VALUE,
    ensures
        !af_rejected(vs0, es0, vis),
        ({
            let m = add_face_model(vs0, es0, fs0, vis);
            let base = es0.len() as int;
            let fidx = fs0.len() as u32;
            &&& m.faces == fs0.push(
                Face { first_half_edge: HalfEdgeIndex { index: base as u32 } },
            )
            &&& face_loop_wf(m.edges, fidx, base as u32)
            &&& forall|ii: int|
                0 <= ii < vis.len() ==> vertex_fan_wf(
                    m.edges,
                    #[trigger] vis[ii],
                    m.vertices[vis[ii] as int].outgoing_half_edge.index,
                )
        }),
{
    let base = es0.len() as int;
    let n = vis.len() as int;
    let fidx = fs0.len() as u32;
    lemma_fresh_new_count(vs0, es0, vis, n);
    // No vertex blocks the insertion and no side has an existing
    // half-edge, so no rejection clause applies.
    assert forall|i: int| 0 <= i < n implies !af_vertex_blocked(vs0, es0, #[trigger] vis[i]) by {
        assert(!edge_in_range(es0, UNSET_VALUE));
    }
    assert(!af_rejected(vs0, es0, vis));
    assert(af_edge_slot(vs0, es0, vis, base, 0) == base as u32);
    lemma_fresh_insertion_loop(vs0, es0, fs0, vis);
    let m = add_face_model(vs0, es0, fs0, vis);
    assert forall|ii: int| 0 <= ii < vis.len() implies vertex_fan_wf(
        m.edges,
        #[trigger] vis[ii],
        m.vertices[vis[ii] as int].outgoing_half_edge.index,
    ) by {
        lemma_fresh_insertion_fan_at(vs0, es0, fs0, vis, ii);
    }
}

/// Face insertion touches topology only: the mesh it produces holds every
/// vertex's stored position unchanged, in place.
pub proof fn lemma_add_face_preserves_locations(
    vs0: Seq<Vertex>,
    es0: Seq<HalfEdge>,
    fs0: Seq<Face>,
    vis: Seq<u32>,
)
    requires
        forall|j: int| 0 <= j < vis.len() ==> ((#[trigger] vis[j]) as int) < vs0.len(),
    ensures
        add_face_model(vs0, es0, fs0, vis).vertices.len() == vs0.len(),
        forall|v: int|
            0 <= v < vs0.len() ==> #[trigger] add_face_model(
                vs0,
                es0,
                fs0,
                vis,
            ).vertices[v].location == vs0[v].location,
{
    let fidx = fs0.len() as u32;
    let base = es0.len() as int;
    lemma_alloc_sweep_locations(vs0, es0, vis, fidx, vis.len());
    let a = af_alloc_sweep(vs0, es0, vis, fidx, vis.len());
    lemma_link_sweep_locations(vs0, es0, vis, base, a.0, a.1, vis.len());
}

/// Compaction is idempotent: a mesh without tombstones — exactly what
/// `compact` guarantees it leaves behind — is a fixed point of the whole
/// compaction pipeline, so compacting twice is compacting once.
pub proof fn lemma_compact_idempotent(m: MeshModel)
    requires
        forall|j: int| 0 <= j < m.vertices.len() ==> !vertex_unused(#[trigger] m.vertices[j]),
        forall|j: int| 0 <= j < m.faces.len() ==> !face_unused(#[trigger] m.faces[j]),
        forall|j: int| 0 <= j < m.edges.len() ==> !half_edge_unused(#[trigger] m.edges[j]),
    ensures
        compact_model(m) == m,
{
    lemma_vertex_sweep_identity(m.vertices, m.edges, m.vertices.len() as int);
    assert(m.vertices.subrange(0, m.vertices.len() as int) =~= m.vertices);
    assert(vertex_compact_model(m) == m);
    lemma_face_sweep_identity(m.edges, m.faces, m.faces.len() as int);
    assert(m.faces.subrange(0, m.faces.len() as int) =~= m.faces);
    assert(face_compact_model(m) == m);
    lemma_he_sweep_identity(m.vertices, m.edges, m.faces, m.edges.len() as int);
    assert(m.edges.subrange(0, m.edges.len() as int) =~= m.edges);
    assert(half_edge_compact_model(m) == m);
}

/// A vertex fan is well formed when it closes within the circulator's step
/// bound and every half-edge on it leaves the vertex.
pub open spec fn vertex_fan_wf(es: Seq<HalfEdge>, v: u32, out: u32) -> bool {
    exists|n: nat|
        1 <= n <= CIRCULATOR_LIMIT && vertex_closes_at(es, out, n) && (forall|k: nat|
            k < n ==> es[#[trigger] vertex_walk(es, out, k) as int].start_vertex.index == v)
}

/// Vertex-fan closure: around a well-formed vertex the circulator's walk
/// returns to its start within the step bound, and every half-edge it
/// visits starts at the vertex.
pub proof fn lemma_vertex_fan_closure(es: Seq<HalfEdge>, v: u32, out: u32)
    requires
        out != UNSET_VALUE,
        (out as int) < es.len(),
        vertex_fan_wf(es, v, out),
    ensures
        vertex_loop_exists(es, out),
        vertex_cycle(es, out).len() >= 1,
        forall|j: int|
            0 <= j < vertex_cycle(es, out).len() ==> es[#[trigger] vertex_cycle(es, out)[j] as int].start_vertex.index
                == v,
{
    let n = choose|n: nat|
        1 <= n <= CIRCULATOR_LIMIT && vertex_closes_at(es, out, n) && (forall|k: nat|
            k < n ==> es[#[trigger] vertex_walk(es, out, k) as int].start_vertex.index == v);
    lemma_vertex_cycle_of(es, out, n);
    assert forall|j: int| 0 <= j < vertex_cycle(es, out).len() implies es[#[trigger] vertex_cycle(
        es,
        out,
    )[j] as int].start_vertex.index == v by {
        assert(vertex_cycle(es, out)[j] == vertex_walk(es, out, j as nat));
    }
}

} // verus!
