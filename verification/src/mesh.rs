//! The mesh: the three entity arenas and every topology algorithm.
//!
//! All mutation happens through the operations here; the arenas themselves
//! hold no cross-entity knowledge.  Rejected operations (degenerate or
//! non-manifold face insertions) return the unset index and leave the mesh
//! unchanged; queries that miss return no result.

use vstd::prelude::*;

use crate::face::{face_unused, Face, FaceCollection, FaceIndex};
use crate::half_edge::{
    edge_in_range, edge_is_boundary, end_vertex_of, face_closes_at, face_cycle, face_loop_exists,
    face_walk, half_edge_unused, lemma_vertex_cycle_of, linked, pair_index, unset_half_edge,
    vertex_closes_at, vertex_cycle, vertex_loop_exists, vertex_walk, HalfEdge, HalfEdgeCollection,
    HalfEdgeIndex, CIRCULATOR_LIMIT,
};
use crate::point::Point;
use crate::traits::{MeshPartCollection, UnsetValue};
use crate::vertex::{vertex_unused, Vertex, VertexCollection, VertexIndex};
use crate::UNSET_VALUE;

verus! {

/// The mathematical content of a mesh: the three arenas as sequences.
pub struct MeshModel {
    pub vertices: Seq<Vertex>,
    pub edges: Seq<HalfEdge>,
    pub faces: Seq<Face>,
}

/// The mesh: vertex, half-edge and face arenas plus all topology algorithms.
#[derive(Debug)]
pub struct Mesh {
    vertices: VertexCollection,
    edges: HalfEdgeCollection,
    faces: FaceCollection,
}

impl View for Mesh {
    type V = MeshModel;

    closed spec fn view(&self) -> MeshModel {
        MeshModel { vertices: self.vertices@, edges: self.edges@, faces: self.faces@ }
    }
}

/// Searching a vertex fan `c` from position `i` on: the first listed
/// half-edge whose head is `end`.
pub open spec fn first_fan_hit(es: Seq<HalfEdge>, c: Seq<u32>, end: u32, i: nat) -> Option<u32>
    decreases c.len() - i,
{
    if i >= c.len() {
        None
    } else if end_vertex_of(es, c[i as int]) == end {
        Some(c[i as int])
    } else {
        first_fan_hit(es, c, end, i + 1)
    }
}

/// The half-edge from vertex `start` to vertex `end`, found by walking
/// `start`'s outgoing fan; none when `start` has no (walkable) fan or no
/// fan edge heads at `end`.
pub open spec fn fan_find(vs: Seq<Vertex>, es: Seq<HalfEdge>, start: u32, end: u32) -> Option<u32> {
    let out = vs[start as int].outgoing_half_edge.index;
    if edge_in_range(es, out) && vertex_loop_exists(es, out) {
        first_fan_hit(es, vertex_cycle(es, out), end, 0)
    } else {
        None
    }
}

/// Every index the pair-removal splice dereferences addresses a slot: the
/// edge, its pair, their four neighbour links, and their two start vertices.
pub open spec fn pair_removal_ok(vs: Seq<Vertex>, es: Seq<HalfEdge>, i: u32) -> bool {
    let p = pair_index(i);
    &&& edge_in_range(es, i)
    &&& edge_in_range(es, p)
    &&& edge_in_range(es, es[p as int].previous_edge.index)
    &&& edge_in_range(es, es[i as int].next_edge.index)
    &&& edge_in_range(es, es[i as int].previous_edge.index)
    &&& edge_in_range(es, es[p as int].next_edge.index)
    &&& (es[i as int].start_vertex.index as int) < vs.len()
    &&& (es[p as int].start_vertex.index as int) < vs.len()
}

/// The edge arena after splicing edge `i` and its pair out of their cycles:
/// the pair's predecessor is linked to `i`'s successor, then `i`'s
/// predecessor to the pair's successor.
pub open spec fn splice_out_pair(es: Seq<HalfEdge>, i: u32) -> Seq<HalfEdge> {
    let p = pair_index(i);
    let es1 = linked(es, es[p as int].previous_edge.index, es[i as int].next_edge.index);
    linked(es1, es1[i as int].previous_edge.index, es1[p as int].next_edge.index)
}

/// The edge arena after removing the pair at `i`: spliced out, then both
/// slots tombstoned.
pub open spec fn removed_pair_edges(es: Seq<HalfEdge>, i: u32) -> Seq<HalfEdge> {
    splice_out_pair(es, i).update(i as int, unset_half_edge()).update(
        pair_index(i) as int,
        unset_half_edge(),
    )
}

/// The vertex arena after removing the pair at `i`: each endpoint whose
/// outgoing half-edge was the removed one falls back to the next half-edge
/// of its remaining fan, or becomes unused if that edge was its last.
pub open spec fn removed_pair_vertices(vs: Seq<Vertex>, es: Seq<HalfEdge>, i: u32) -> Seq<Vertex> {
    let p = pair_index(i);
    let es2 = splice_out_pair(es, i);
    let v1 = es2[i as int].start_vertex.index;
    let v2 = es2[p as int].start_vertex.index;
    let vs1 = if vs[v1 as int].outgoing_half_edge.index == i {
        vs.update(
            v1 as int,
            Vertex {
                outgoing_half_edge: HalfEdgeIndex {
                    index: if es2[p as int].next_edge.index == i {
                        UNSET_VALUE
                    } else {
                        es2[p as int].next_edge.index
                    },
                },
                ..vs[v1 as int]
            },
        )
    } else {
        vs
    };
    if vs1[v2 as int].outgoing_half_edge.index == p {
        vs1.update(
            v2 as int,
            Vertex {
                outgoing_half_edge: HalfEdgeIndex {
                    index: if es2[i as int].next_edge.index == p {
                        UNSET_VALUE
                    } else {
                        es2[i as int].next_edge.index
                    },
                },
                ..vs1[v2 as int]
            },
        )
    } else {
        vs1
    }
}

/// One step of face removal at loop edge `e`: skip an edge whose pair
/// cannot be addressed, fully remove a boundary pair (when the splice is
/// addressable), and demote an interior edge to boundary, repointing its
/// start vertex's outgoing half-edge at it.
pub open spec fn remove_face_edge_step(vs: Seq<Vertex>, es: Seq<HalfEdge>, e: u32) -> (
    Seq<Vertex>,
    Seq<HalfEdge>,
) {
    if !(edge_in_range(es, e) && edge_in_range(es, pair_index(e))) {
        (vs, es)
    } else if edge_is_boundary(es, e) {
        if pair_removal_ok(vs, es, e) {
            (removed_pair_vertices(vs, es, e), removed_pair_edges(es, e))
        } else {
            (vs, es)
        }
    } else {
        let es1 = es.update(
            e as int,
            HalfEdge { adjacent_face: FaceIndex { index: UNSET_VALUE }, ..es[e as int] },
        );
        let sv = es[e as int].start_vertex.index;
        let vs1 = if (sv as int) < vs.len() {
            vs.update(
                sv as int,
                Vertex { outgoing_half_edge: HalfEdgeIndex { index: e }, ..vs[sv as int] },
            )
        } else {
            vs
        };
        (vs1, es1)
    }
}

/// Face removal applied to the first `i` edges of the face loop.
pub open spec fn remove_face_sweep(
    vs: Seq<Vertex>,
    es: Seq<HalfEdge>,
    loop_edges: Seq<u32>,
    i: nat,
) -> (Seq<Vertex>, Seq<HalfEdge>)
    decreases i,
{
    if i == 0 {
        (vs, es)
    } else {
        let prev = remove_face_sweep(vs, es, loop_edges, (i - 1) as nat);
        remove_face_edge_step(prev.0, prev.1, loop_edges[i - 1])
    }
}

/// The used (non-tombstone) vertices of `vs`, in order.
pub open spec fn live_vertices(vs: Seq<Vertex>) -> Seq<Vertex> {
    vs.filter(|v: Vertex| !vertex_unused(v))
}

/// The used (non-tombstone) faces of `fs`, in order.
pub open spec fn live_faces(fs: Seq<Face>) -> Seq<Face> {
    fs.filter(|f: Face| !face_unused(f))
}

/// Filtering a sequence extended by one element keeps the element exactly
/// when the predicate holds of it.
proof fn lemma_filter_push<A>(s: Seq<A>, pred: spec_fn(A) -> bool, x: A)
    ensures
        s.push(x).filter(pred) == (if pred(x) {
            s.filter(pred).push(x)
        } else {
            s.filter(pred)
        }),
{
    reveal(Seq::filter);
    assert(s.push(x).drop_last() =~= s);
    assert(s.push(x).last() == x);
}

/// The edge arena after rewriting the start vertex of the first `i` fan
/// edges listed in `c` to `m`.
pub open spec fn set_fan_starts(es: Seq<HalfEdge>, c: Seq<u32>, m: u32, i: nat) -> Seq<HalfEdge>
    decreases i,
{
    if i == 0 {
        es
    } else {
        let prev = set_fan_starts(es, c, m, (i - 1) as nat);
        prev.update(
            c[i - 1] as int,
            HalfEdge { start_vertex: VertexIndex { index: m }, ..prev[c[i - 1] as int] },
        )
    }
}

/// Vertex compaction applied to the first `i` arena slots: the compacted
/// prefix so far, the edge arena with rewritten fans, and the write marker.
pub open spec fn vertex_compact_sweep(vs: Seq<Vertex>, es: Seq<HalfEdge>, i: nat) -> (
    Seq<Vertex>,
    Seq<HalfEdge>,
    nat,
)
    decreases i,
{
    if i == 0 {
        (vs, es, 0)
    } else {
        let prev = vertex_compact_sweep(vs, es, (i - 1) as nat);
        let idx = i - 1;
        if !vertex_unused(prev.0[idx]) {
            if prev.2 < idx {
                let moved = prev.0[idx];
                let vs2 = prev.0.update(prev.2 as int, moved);
                let out = moved.outgoing_half_edge.index;
                let es2 = if edge_in_range(prev.1, out) && vertex_loop_exists(prev.1, out) {
                    let c = vertex_cycle(prev.1, out);
                    set_fan_starts(prev.1, c, prev.2 as u32, c.len() as nat)
                } else {
                    prev.1
                };
                (vs2, es2, prev.2 + 1)
            } else {
                (prev.0, prev.1, prev.2 + 1)
            }
        } else {
            (prev.0, prev.1, prev.2)
        }
    }
}

/// The whole-mesh effect of the vertex-compaction stage.
pub open spec fn vertex_compact_model(m: MeshModel) -> MeshModel {
    let swept = vertex_compact_sweep(m.vertices, m.edges, m.vertices.len() as nat);
    MeshModel { vertices: swept.0.subrange(0, swept.2 as int), edges: swept.1, faces: m.faces }
}

/// The edge arena after rewriting the adjacent face of the first `i` loop
/// edges listed in `c` to `m`.
pub open spec fn set_loop_faces(es: Seq<HalfEdge>, c: Seq<u32>, m: u32, i: nat) -> Seq<HalfEdge>
    decreases i,
{
    if i == 0 {
        es
    } else {
        let prev = set_loop_faces(es, c, m, (i - 1) as nat);
        prev.update(
            c[i - 1] as int,
            HalfEdge { adjacent_face: FaceIndex { index: m }, ..prev[c[i - 1] as int] },
        )
    }
}

/// Face compaction applied to the first `i` arena slots: the edge arena
/// with rewritten adjacent faces, the compacted face prefix so far, and the
/// write marker.
pub open spec fn face_compact_sweep(es: Seq<HalfEdge>, fs: Seq<Face>, i: nat) -> (
    Seq<HalfEdge>,
    Seq<Face>,
    nat,
)
    decreases i,
{
    if i == 0 {
        (es, fs, 0)
    } else {
        let prev = face_compact_sweep(es, fs, (i - 1) as nat);
        let idx = i - 1;
        if !face_unused(prev.1[idx]) {
            if prev.2 < idx {
                let moved = prev.1[idx];
                let fs2 = prev.1.update(prev.2 as int, moved);
                let first = moved.first_half_edge.index;
                let es2 = if edge_in_range(prev.0, first) && face_loop_exists(prev.0, first) {
                    let c = face_cycle(prev.0, first);
                    set_loop_faces(prev.0, c, prev.2 as u32, c.len() as nat)
                } else {
                    prev.0
                };
                (es2, fs2, prev.2 + 1)
            } else {
                (prev.0, prev.1, prev.2 + 1)
            }
        } else {
            (prev.0, prev.1, prev.2)
        }
    }
}

/// The whole-mesh effect of the face-compaction stage.
pub open spec fn face_compact_model(m: MeshModel) -> MeshModel {
    let swept = face_compact_sweep(m.edges, m.faces, m.faces.len() as nat);
    MeshModel { vertices: m.vertices, edges: swept.0, faces: swept.1.subrange(0, swept.2 as int) }
}

/// One half-edge-compaction move: copy the live edge at `old_pos` down to
/// `m`, repoint its start vertex's outgoing half-edge and its face's first
/// half-edge if they named `old_pos`, and repair its two neighbour links.
pub open spec fn he_compact_move(
    vs: Seq<Vertex>,
    es: Seq<HalfEdge>,
    fs: Seq<Face>,
    old_pos: u32,
    m: u32,
) -> (Seq<Vertex>, Seq<HalfEdge>, Seq<Face>) {
    let es1 = es.update(m as int, es[old_pos as int]);
    let e = es1[m as int];
    let v = e.start_vertex.index;
    let vs1 = if (v as int) < vs.len() && vs[v as int].outgoing_half_edge.index == old_pos {
        vs.update(
            v as int,
            Vertex { outgoing_half_edge: HalfEdgeIndex { index: m }, ..vs[v as int] },
        )
    } else {
        vs
    };
    let f = e.adjacent_face.index;
    let fs1 = if f != UNSET_VALUE && (f as int) < fs.len() && fs[f as int].first_half_edge.index
        == old_pos {
        fs.update(f as int, Face { first_half_edge: HalfEdgeIndex { index: m } })
    } else {
        fs
    };
    let nx = es1[m as int].next_edge.index;
    let es2 = if edge_in_range(es1, nx) {
        es1.update(
            nx as int,
            HalfEdge { previous_edge: HalfEdgeIndex { index: m }, ..es1[nx as int] },
        )
    } else {
        es1
    };
    let pv = es2[m as int].previous_edge.index;
    let es3 = if edge_in_range(es2, pv) {
        es2.update(pv as int, HalfEdge { next_edge: HalfEdgeIndex { index: m }, ..es2[pv as int] })
    } else {
        es2
    };
    (vs1, es3, fs1)
}

/// Half-edge compaction applied to the first `i` arena slots.
pub open spec fn he_compact_sweep(vs: Seq<Vertex>, es: Seq<HalfEdge>, fs: Seq<Face>, i: nat) -> (
    Seq<Vertex>,
    Seq<HalfEdge>,
    Seq<Face>,
    nat,
)
    decreases i,
{
    if i == 0 {
        (vs, es, fs, 0)
    } else {
        let prev = he_compact_sweep(vs, es, fs, (i - 1) as nat);
        let idx = i - 1;
        if !half_edge_unused(prev.1[idx]) {
            if prev.3 < idx {
                let moved = he_compact_move(prev.0, prev.1, prev.2, idx as u32, prev.3 as u32);
                (moved.0, moved.1, moved.2, prev.3 + 1)
            } else {
                (prev.0, prev.1, prev.2, prev.3 + 1)
            }
        } else {
            (prev.0, prev.1, prev.2, prev.3)
        }
    }
}

/// The whole-mesh effect of the half-edge-compaction stage.
pub open spec fn half_edge_compact_model(m: MeshModel) -> MeshModel {
    let swept = he_compact_sweep(m.vertices, m.edges, m.faces, m.edges.len() as nat);
    MeshModel { vertices: swept.0, edges: swept.1.subrange(0, swept.3 as int), faces: swept.2 }
}

/// The whole-mesh effect of `compact`: vertex, then face, then half-edge
/// compaction, in the order each stage's fix-ups assume.
pub open spec fn compact_model(m: MeshModel) -> MeshModel {
    half_edge_compact_model(face_compact_model(vertex_compact_model(m)))
}

/// Pair removal rewrites outgoing half-edges only: every stored location
/// survives in place.
pub proof fn lemma_removed_pair_vertices_locations(vs: Seq<Vertex>, es: Seq<HalfEdge>, i: u32)
    requires
        pair_removal_ok(vs, es, i),
    ensures
        removed_pair_vertices(vs, es, i).len() == vs.len(),
        removed_pair_edges(es, i).len() == es.len(),
        forall|v: int|
            0 <= v < vs.len() ==> #[trigger] removed_pair_vertices(vs, es, i)[v].location
                == vs[v].location,
{
}

/// Face removal rewrites faces and outgoing half-edges only: every stored
/// location survives in place.
pub proof fn lemma_remove_face_sweep_locations(
    vs: Seq<Vertex>,
    es: Seq<HalfEdge>,
    loop_edges: Seq<u32>,
    i: nat,
)
    ensures
        remove_face_sweep(vs, es, loop_edges, i).0.len() == vs.len(),
        remove_face_sweep(vs, es, loop_edges, i).1.len() == es.len(),
        forall|v: int|
            0 <= v < vs.len() ==> #[trigger] remove_face_sweep(vs, es, loop_edges, i).0[v].location
                == vs[v].location,
    decreases i,
{
    if i > 0 {
        lemma_remove_face_sweep_locations(vs, es, loop_edges, (i - 1) as nat);
        let prev = remove_face_sweep(vs, es, loop_edges, (i - 1) as nat);
        let e = loop_edges[i - 1];
        if edge_in_range(prev.1, e) && edge_in_range(prev.1, pair_index(e)) && edge_is_boundary(
            prev.1,
            e,
        ) && pair_removal_ok(prev.0, prev.1, e) {
            lemma_removed_pair_vertices_locations(prev.0, prev.1, e);
        }
    }
}

/// Face-insertion allocation sets outgoing half-edges only: every stored
/// location survives in place.
pub proof fn lemma_alloc_sweep_locations(
    vs0: Seq<Vertex>,
    es0: Seq<HalfEdge>,
    vis: Seq<u32>,
    fidx: u32,
    i: nat,
)
    requires
        forall|j: int| 0 <= j < vis.len() ==> ((#[trigger] vis[j]) as int) < vs0.len(),
        i <= vis.len(),
    ensures
        af_alloc_sweep(vs0, es0, vis, fidx, i).0.len() == vs0.len(),
        forall|v: int|
            0 <= v < vs0.len() ==> #[trigger] af_alloc_sweep(vs0, es0, vis, fidx, i).0[v].location
                == vs0[v].location,
    decreases i,
{
    if i > 0 {
        lemma_alloc_sweep_locations(vs0, es0, vis, fidx, (i - 1) as nat);
    }
}

/// Face-insertion linking repoints outgoing half-edges only: every stored
/// location survives in place.
pub proof fn lemma_link_sweep_locations(
    vs0: Seq<Vertex>,
    es0: Seq<HalfEdge>,
    vis: Seq<u32>,
    base: int,
    vs: Seq<Vertex>,
    es: Seq<HalfEdge>,
    i: nat,
)
    requires
        forall|j: int| 0 <= j < vis.len() ==> ((#[trigger] vis[j]) as int) < vs.len(),
        i <= vis.len(),
    ensures
        af_link_sweep(vs0, es0, vis, base, vs, es, i).0.len() == vs.len(),
        forall|v: int|
            0 <= v < vs.len() ==> #[trigger] af_link_sweep(
                vs0,
                es0,
                vis,
                base,
                vs,
                es,
                i,
            ).0[v].location == vs[v].location,
    decreases i,
{
    if i > 0 {
        lemma_link_sweep_locations(vs0, es0, vis, base, vs, es, (i - 1) as nat);
    }
}

/// On an arena without tombstones the vertex sweep moves nothing: the
/// marker simply tracks the read position.
pub proof fn lemma_vertex_sweep_identity(vs: Seq<Vertex>, es: Seq<HalfEdge>, i: int)
    requires
        forall|j: int| 0 <= j < vs.len() ==> !vertex_unused(#[trigger] vs[j]),
        0 <= i <= vs.len(),
    ensures
        vertex_compact_sweep(vs, es, i as nat) == (vs, es, i as nat),
    decreases i,
{
    if i > 0 {
        lemma_vertex_sweep_identity(vs, es, i - 1);
    }
}

/// On an arena without tombstones the face sweep moves nothing.
pub proof fn lemma_face_sweep_identity(es: Seq<HalfEdge>, fs: Seq<Face>, i: int)
    requires
        forall|j: int| 0 <= j < fs.len() ==> !face_unused(#[trigger] fs[j]),
        0 <= i <= fs.len(),
    ensures
        face_compact_sweep(es, fs, i as nat) == (es, fs, i as nat),
    decreases i,
{
    if i > 0 {
        lemma_face_sweep_identity(es, fs, i - 1);
    }
}

/// On an arena without tombstones the half-edge sweep moves nothing.
pub proof fn lemma_he_sweep_identity(vs: Seq<Vertex>, es: Seq<HalfEdge>, fs: Seq<Face>, i: int)
    requires
        forall|j: int| 0 <= j < es.len() ==> !half_edge_unused(#[trigger] es[j]),
        0 <= i <= es.len(),
    ensures
        he_compact_sweep(vs, es, fs, i as nat) == (vs, es, fs, i as nat),
    decreases i,
{
    if i > 0 {
        lemma_he_sweep_identity(vs, es, fs, i - 1);
    }
}

/// The polygon position after `i`, wrapping around.
pub open spec fn af_next_pos(n: int, i: int) -> int {
    if i + 1 == n {
        0
    } else {
        i + 1
    }
}

/// The pre-existing half-edge found for polygon side `i` (from the vertex
/// at position `i` to the one after it), if any; over the pre-insertion
/// arenas.
pub open spec fn af_found(vs: Seq<Vertex>, es: Seq<HalfEdge>, vis: Seq<u32>, i: int) -> Option<
    u32,
> {
    fan_find(vs, es, vis[i], vis[af_next_pos(vis.len() as int, i)])
}

/// Whether the vertex `v` blocks face insertion: it has an outgoing
/// half-edge that can be examined and that is not a boundary edge, so the
/// vertex is already interior on that side.
pub open spec fn af_vertex_blocked(vs: Seq<Vertex>, es: Seq<HalfEdge>, v: u32) -> bool {
    let out = vs[v as int].outgoing_half_edge.index;
    &&& edge_in_range(es, out)
    &&& edge_in_range(es, pair_index(out))
    &&& !edge_is_boundary(es, out)
}

/// Whether `add_face_by_indices` rejects the polygon `vis` on the
/// pre-insertion arenas: fewer than three vertices, a vertex already
/// interior, a side whose existing half-edge no longer borders the
/// boundary, or two consecutive sides both pre-existing (a relinking case
/// this engine does not support).
pub open spec fn af_rejected(vs: Seq<Vertex>, es: Seq<HalfEdge>, vis: Seq<u32>) -> bool {
    let n = vis.len() as int;
    ||| n < 3
    ||| exists|i: int| 0 <= i < n && af_vertex_blocked(vs, es, #[trigger] vis[i])
    ||| exists|i: int|
        0 <= i < n && ((#[trigger] af_found(vs, es, vis, i)) matches Some(h) && !edge_is_boundary(
            es,
            h,
        ))
    ||| exists|i: int|
        0 <= i < n && (#[trigger] af_found(vs, es, vis, i)) is Some && af_found(
            vs,
            es,
            vis,
            af_next_pos(n, i),
        ) is Some
}

/// How many of the first `i` polygon sides need a fresh edge pair.
pub open spec fn af_new_count(vs: Seq<Vertex>, es: Seq<HalfEdge>, vis: Seq<u32>, i: int) -> int
    decreases i,
{
    if i <= 0 {
        0
    } else {
        af_new_count(vs, es, vis, i - 1) + (if af_found(vs, es, vis, i - 1) is None {
            1int
        } else {
            0int
        })
    }
}

/// The arena slot that holds polygon side `i`'s face-side half-edge: the
/// found edge, or the freshly allocated slot after `base`.
pub open spec fn af_edge_slot(
    vs: Seq<Vertex>,
    es: Seq<HalfEdge>,
    vis: Seq<u32>,
    base: int,
    i: int,
) -> u32 {
    match af_found(vs, es, vis, i) {
        Some(h) => h,
        None => (base + 2 * af_new_count(vs, es, vis, i)) as u32,
    }
}

/// Allocation applied to the first `i` polygon sides: each side without an
/// existing half-edge gets a fresh pair (face side carrying `fidx`), each
/// found half-edge has `fidx` attached.
pub open spec fn af_alloc_sweep(
    vs0: Seq<Vertex>,
    es0: Seq<HalfEdge>,
    vis: Seq<u32>,
    fidx: u32,
    i: nat,
) -> (Seq<Vertex>, Seq<HalfEdge>)
    decreases i,
{
    if i == 0 {
        (vs0, es0)
    } else {
        let prev = af_alloc_sweep(vs0, es0, vis, fidx, (i - 1) as nat);
        let vs = prev.0;
        let es = prev.1;
        let p = i - 1;
        let cur = vis[p];
        let nxt = vis[af_next_pos(vis.len() as int, p)];
        match af_found(vs0, es0, vis, p) {
            Some(h) => {
                let es1 = es.update(
                    h as int,
                    HalfEdge { adjacent_face: FaceIndex { index: fidx }, ..es[h as int] },
                );
                (vs, es1)
            },
            None => {
                let es1 = es.push(
                    HalfEdge {
                        start_vertex: VertexIndex { index: cur },
                        adjacent_face: FaceIndex { index: fidx },
                        next_edge: HalfEdgeIndex { index: (es.len() + 1) as u32 },
                        previous_edge: HalfEdgeIndex { index: UNSET_VALUE },
                    },
                ).push(
                    HalfEdge {
                        start_vertex: VertexIndex { index: nxt },
                        adjacent_face: FaceIndex { index: UNSET_VALUE },
                        next_edge: HalfEdgeIndex { index: es.len() as u32 },
                        previous_edge: HalfEdgeIndex { index: UNSET_VALUE },
                    },
                );
                let vs1 = if vs[cur as int].outgoing_half_edge.index == UNSET_VALUE {
                    vs.update(
                        cur as int,
                        Vertex {
                            outgoing_half_edge: HalfEdgeIndex { index: es.len() as u32 },
                            ..vs[cur as int]
                        },
                    )
                } else {
                    vs
                };
                (vs1, es1)
            },
        }
    }
}

/// One linking step for polygon side `i`: store the outer (boundary-side)
/// links chosen by the four new/pre-existing cases, splice into an existing
/// fan at a non-manifold shared vertex, link the two inner loop edges, and
/// repoint the shared vertex's outgoing half-edge at the new boundary side.
pub open spec fn af_link_step(
    vs0: Seq<Vertex>,
    es0: Seq<HalfEdge>,
    vis: Seq<u32>,
    base: int,
    vs: Seq<Vertex>,
    es: Seq<HalfEdge>,
    i: int,
) -> (Seq<Vertex>, Seq<HalfEdge>) {
    let n = vis.len() as int;
    let ni = af_next_pos(n, i);
    let ei = af_edge_slot(vs0, es0, vis, base, i);
    let eii = af_edge_slot(vs0, es0, vis, base, ni);
    let new_i = af_found(vs0, es0, vis, i) is None;
    let new_ii = af_found(vs0, es0, vis, ni) is None;
    let v2 = vis[ni];
    let had_fan = vs0[v2 as int].outgoing_half_edge.index != UNSET_VALUE;
    if !new_i && !new_ii {
        (vs, es)
    } else {
        let step1 = if new_i && !new_ii {
            (es, es[eii as int].previous_edge.index, pair_index(ei))
        } else if !new_i && new_ii {
            (es, pair_index(eii), es[ei as int].next_edge.index)
        } else if !had_fan {
            (es, pair_index(eii), pair_index(ei))
        } else {
            let out_v2 = vs[v2 as int].outgoing_half_edge.index;
            let es_s = if edge_in_range(es, out_v2) {
                let op1 = es[out_v2 as int].previous_edge.index;
                let on1 = pair_index(ei);
                if edge_in_range(es, op1) && edge_in_range(es, on1) {
                    linked(es, op1, on1)
                } else {
                    es
                }
            } else {
                es
            };
            (es_s, pair_index(eii), out_v2)
        };
        let es_a = step1.0;
        let op = step1.1;
        let on = step1.2;
        let es_b = if edge_in_range(es_a, op) && edge_in_range(es_a, on) {
            linked(es_a, op, on)
        } else {
            es_a
        };
        let es_c = linked(es_b, ei, eii);
        let vs_c = if new_i {
            vs.update(
                v2 as int,
                Vertex {
                    outgoing_half_edge: HalfEdgeIndex { index: (ei + 1) as u32 },
                    ..vs[v2 as int]
                },
            )
        } else {
            vs
        };
        (vs_c, es_c)
    }
}

/// Linking applied to the first `i` polygon sides.
pub open spec fn af_link_sweep(
    vs0: Seq<Vertex>,
    es0: Seq<HalfEdge>,
    vis: Seq<u32>,
    base: int,
    vs: Seq<Vertex>,
    es: Seq<HalfEdge>,
    i: nat,
) -> (Seq<Vertex>, Seq<HalfEdge>)
    decreases i,
{
    if i == 0 {
        (vs, es)
    } else {
        let prev = af_link_sweep(vs0, es0, vis, base, vs, es, (i - 1) as nat);
        af_link_step(vs0, es0, vis, base, prev.0, prev.1, i - 1)
    }
}

/// The whole-mesh effect of an accepted `add_face_by_indices` call:
/// allocation, then linking, then the face record naming side 0's edge.
pub open spec fn add_face_model(
    vs0: Seq<Vertex>,
    es0: Seq<HalfEdge>,
    fs0: Seq<Face>,
    vis: Seq<u32>,
) -> MeshModel {
    let base = es0.len() as int;
    let fidx = fs0.len() as u32;
    let n = vis.len() as nat;
    let alloc = af_alloc_sweep(vs0, es0, vis, fidx, n);
    let linkd = af_link_sweep(vs0, es0, vis, base, alloc.0, alloc.1, n);
    MeshModel {
        vertices: linkd.0,
        edges: linkd.1,
        faces: fs0.push(
            Face {
                first_half_edge: HalfEdgeIndex { index: af_edge_slot(vs0, es0, vis, base, 0) },
            },
        ),
    }
}

/// What a fan search that returns a hit guarantees of the hit, and what a
/// miss guarantees of every listed edge.
proof fn lemma_first_fan_hit_props(es: Seq<HalfEdge>, c: Seq<u32>, end: u32, i: nat)
    ensures
        match first_fan_hit(es, c, end, i) {
            Some(h) => exists|k: int|
                i <= k < c.len() && c[k] == h && end_vertex_of(es, #[trigger] c[k]) == end,
            None => forall|k: int|
                i <= k < c.len() ==> end_vertex_of(es, #[trigger] c[k]) != end,
        },
    decreases c.len() - i,
{
    if i < c.len() {
        if end_vertex_of(es, c[i as int]) == end {
        } else {
            lemma_first_fan_hit_props(es, c, end, i + 1);
            match first_fan_hit(es, c, end, i) {
                Some(h) => {
                    let k = choose|k: int|
                        i + 1 <= k < c.len() && c[k] == h && end_vertex_of(es, #[trigger] c[k])
                            == end;
                    assert(i <= k < c.len() && c[k] == h && end_vertex_of(es, c[k]) == end);
                },
                None => {},
            }
        }
    }
}

/// A found half-edge and its pair address arena slots, and its head is the
/// sought vertex.
pub proof fn lemma_fan_find_props(vs: Seq<Vertex>, es: Seq<HalfEdge>, start: u32, end: u32)
    ensures
        fan_find(vs, es, start, end) matches Some(h) ==> edge_in_range(es, h) && edge_in_range(
            es,
            pair_index(h),
        ) && end_vertex_of(es, h) == end,
{
    let out = vs[start as int].outgoing_half_edge.index;
    if edge_in_range(es, out) && vertex_loop_exists(es, out) {
        let n = choose|n: nat| 1 <= n <= CIRCULATOR_LIMIT && vertex_closes_at(es, out, n);
        lemma_vertex_cycle_of(es, out, n);
        let c = vertex_cycle(es, out);
        lemma_first_fan_hit_props(es, c, end, 0);
        match first_fan_hit(es, c, end, 0) {
            Some(h) => {
                let k = choose|k: int|
                    0 <= k < c.len() && c[k] == h && end_vertex_of(es, #[trigger] c[k]) == end;
                assert(c[k] == vertex_walk(es, out, k as nat));
                assert(edge_in_range(es, vertex_walk(es, out, k as nat)));
                assert(edge_in_range(es, pair_index(vertex_walk(es, out, k as nat))));
            },
            None => {},
        }
    }
}

/// A polygon of three or more vertices, none blocked, every found side
/// still boundary, and no two consecutive found sides, is not rejected.
proof fn lemma_af_not_rejected(vs: Seq<Vertex>, es: Seq<HalfEdge>, vis: Seq<u32>)
    requires
        vis.len() >= 3,
        forall|j: int| 0 <= j < vis.len() ==> !af_vertex_blocked(vs, es, #[trigger] vis[j]),
        forall|j: int|
            0 <= j < vis.len() ==> !((#[trigger] af_found(vs, es, vis, j)) matches Some(h)
                && !edge_is_boundary(es, h)),
        forall|j: int|
            0 <= j < vis.len() ==> !((#[trigger] af_found(vs, es, vis, j)) is Some && af_found(
                vs,
                es,
                vis,
                af_next_pos(vis.len() as int, j),
            ) is Some),
    ensures
        !af_rejected(vs, es, vis),
{
}

/// A polygon is fresh when it has at least three distinct vertices, each
/// in range and none yet attached to a half-edge.
pub open spec fn fresh_polygon(vs: Seq<Vertex>, vis: Seq<u32>) -> bool {
    &&& vis.len() >= 3
    &&& forall|i: int| 0 <= i < vis.len() ==> ((#[trigger] vis[i]) as int) < vs.len()
    &&& forall|i: int|
        0 <= i < vis.len() ==> vs[(#[trigger] vis[i]) as int].outgoing_half_edge.index
            == UNSET_VALUE
    &&& forall|i: int, j: int|
        0 <= i < j < vis.len() ==> #[trigger] vis[i] != #[trigger] vis[j]
}

/// No side of a fresh polygon has an existing half-edge: its start vertex
/// has no fan to search.
pub proof fn lemma_fresh_found_none(vs: Seq<Vertex>, es: Seq<HalfEdge>, vis: Seq<u32>, j: int)
    requires
        0 <= j < vis.len(),
        vs[vis[j] as int].outgoing_half_edge.index == UNSET_VALUE,
    ensures
        af_found(vs, es, vis, j) is None,
{
    assert(!edge_in_range(es, UNSET_VALUE));
}

/// Every side of a fresh polygon needs a fresh pair, so side `j` gets the
/// `j`-th allocated slot.
pub proof fn lemma_fresh_new_count(vs: Seq<Vertex>, es: Seq<HalfEdge>, vis: Seq<u32>, i: int)
    requires
        fresh_polygon(vs, vis),
        0 <= i <= vis.len(),
    ensures
        af_new_count(vs, es, vis, i) == i,
        forall|j: int| 0 <= j < i ==> #[trigger] af_found(vs, es, vis, j) is None,
    decreases i,
{
    if i > 0 {
        lemma_fresh_new_count(vs, es, vis, i - 1);
        lemma_fresh_found_none(vs, es, vis, i - 1);
    }
}

/// What allocation builds for a fresh polygon: side `j` owns the pair at
/// `base + 2j`, the face side first, and each polygon vertex's outgoing
/// half-edge is its side's face-side slot.
pub proof fn lemma_fresh_alloc(
    vs0: Seq<Vertex>,
    es0: Seq<HalfEdge>,
    vis: Seq<u32>,
    fidx: u32,
    i: int,
)
    requires
        fresh_polygon(vs0, vis),
        es0.len() + 2 * vis.len() <= UNSET_VALUE,
        0 <= i <= vis.len(),
    ensures
        ({
            let a = af_alloc_sweep(vs0, es0, vis, fidx, i as nat);
            let base = es0.len() as int;
            let n = vis.len() as int;
            &&& a.1.len() == base + 2 * i
            &&& forall|k: int| 0 <= k < base ==> a.1[k] == es0[k]
            &&& forall|j: int|
                0 <= j < i ==> a.1[base + 2 * j] == (HalfEdge {
                    start_vertex: VertexIndex { index: vis[j] },
                    adjacent_face: FaceIndex { index: fidx },
                    next_edge: HalfEdgeIndex { index: (base + 2 * j + 1) as u32 },
                    previous_edge: HalfEdgeIndex { index: UNSET_VALUE },
                })
            &&& forall|j: int|
                0 <= j < i ==> a.1[base + 2 * j + 1] == (HalfEdge {
                    start_vertex: VertexIndex { index: vis[af_next_pos(n, j)] },
                    adjacent_face: FaceIndex { index: UNSET_VALUE },
                    next_edge: HalfEdgeIndex { index: (base + 2 * j) as u32 },
                    previous_edge: HalfEdgeIndex { index: UNSET_VALUE },
                })
            &&& a.0.len() == vs0.len()
            &&& forall|j: int|
                0 <= j < i ==> a.0[(#[trigger] vis[j]) as int].outgoing_half_edge.index == (base + 2
                    * j) as u32
            &&& forall|j: int|
                i <= j < n ==> a.0[(#[trigger] vis[j]) as int].outgoing_half_edge.index
                    == UNSET_VALUE
        }),
    decreases i,
{
    if i > 0 {
        lemma_fresh_alloc(vs0, es0, vis, fidx, i - 1);
        lemma_fresh_new_count(vs0, es0, vis, i - 1);
        lemma_fresh_found_none(vs0, es0, vis, i - 1);
    }
}

/// The stable shape of a fresh polygon's side `j` in the edge arena: the
/// face side at `base + 2j` starts at the side's tail and carries the
/// face, its boundary partner starts at the side's head and carries none.
pub open spec fn fresh_side_shape(
    es: Seq<HalfEdge>,
    vis: Seq<u32>,
    base: int,
    fidx: u32,
    j: int,
) -> bool {
    &&& es[base + 2 * j].start_vertex.index == vis[j]
    &&& es[base + 2 * j].adjacent_face.index == fidx
    &&& es[base + 2 * j + 1].start_vertex.index == vis[af_next_pos(vis.len() as int, j)]
    &&& es[base + 2 * j + 1].adjacent_face.index == UNSET_VALUE
}

/// What linking builds for a fresh polygon, after allocation: the face
/// sides chain forward around the polygon, the boundary sides chain
/// backward, and each polygon vertex's outgoing half-edge is the boundary
/// side of the side entering it.
#[verifier::rlimit(100)]
pub proof fn lemma_fresh_link(vs0: Seq<Vertex>, es0: Seq<HalfEdge>, vis: Seq<u32>, fidx: u32, i: int)
    requires
        fresh_polygon(vs0, vis),
        es0.len() % 2 == 0,
        es0.len() + 2 * vis.len() <= UNSET_VALUE,
        0 <= i <= vis.len(),
    ensures
        ({
            let base = es0.len() as int;
            let n = vis.len() as int;
            let a = af_alloc_sweep(vs0, es0, vis, fidx, vis.len());
            let l = af_link_sweep(vs0, es0, vis, base, a.0, a.1, i as nat);
            &&& l.1.len() == base + 2 * n
            &&& l.0.len() == vs0.len()
            &&& forall|k: int| 0 <= k < base ==> l.1[k] == es0[k]
            &&& forall|j: int| 0 <= j < n ==> #[trigger] fresh_side_shape(l.1, vis, base, fidx, j)
            &&& forall|j: int|
                0 <= j < i ==> l.1[base + 2 * j].next_edge.index == (base + 2 * af_next_pos(
                    n,
                    j,
                )) as u32
            &&& forall|j: int|
                0 <= j < i ==> l.1[base + 2 * af_next_pos(n, j)].previous_edge.index == (base + 2
                    * j) as u32
            &&& forall|j: int|
                0 <= j < i ==> l.1[base + 2 * af_next_pos(n, j) + 1].next_edge.index == (base + 2
                    * j + 1) as u32
            &&& forall|j: int|
                0 <= j < i ==> l.1[base + 2 * j + 1].previous_edge.index == (base + 2 * af_next_pos(
                    n,
                    j,
                ) + 1) as u32
            &&& forall|j: int|
                0 <= j < i ==> l.0[vis[af_next_pos(n, j)] as int].outgoing_half_edge.index == (base
                    + 2 * j + 1) as u32
        }),
    decreases i,
{
    let base = es0.len() as int;
    let n = vis.len() as int;
    let a = af_alloc_sweep(vs0, es0, vis, fidx, vis.len());
    lemma_fresh_alloc(vs0, es0, vis, fidx, n);
    if i == 0 {
        let l = af_link_sweep(vs0, es0, vis, base, a.0, a.1, 0);
        assert(l.1 == a.1);
        assert forall|j: int| 0 <= j < n implies #[trigger] fresh_side_shape(
            l.1,
            vis,
            base,
            fidx,
            j,
        ) by {}
    } else {
        lemma_fresh_link(vs0, es0, vis, fidx, i - 1);
        let p = i - 1;
        let np = af_next_pos(n, p);
        let prev = af_link_sweep(vs0, es0, vis, base, a.0, a.1, (i - 1) as nat);
        let l = af_link_sweep(vs0, es0, vis, base, a.0, a.1, i as nat);
        assert(l == af_link_step(vs0, es0, vis, base, prev.0, prev.1, p));
        lemma_fresh_new_count(vs0, es0, vis, n);
        lemma_fresh_new_count(vs0, es0, vis, p);
        lemma_fresh_new_count(vs0, es0, vis, np);
        lemma_fresh_found_none(vs0, es0, vis, p);
        lemma_fresh_found_none(vs0, es0, vis, np);
        let ei = af_edge_slot(vs0, es0, vis, base, p);
        let eii = af_edge_slot(vs0, es0, vis, base, np);
        assert(ei == (base + 2 * p) as u32);
        assert(eii == (base + 2 * np) as u32);
        assert((base + 2 * p) % 2 == 0 && (base + 2 * np) % 2 == 0);
        assert(pair_index(ei) == (base + 2 * p + 1) as u32);
        assert(pair_index(eii) == (base + 2 * np + 1) as u32);
        // A fresh polygon's sides are all new and no shared vertex has an
        // existing fan, so every side links by the plain both-new case.
        assert(vs0[vis[np] as int].outgoing_half_edge.index == UNSET_VALUE);
        let op = pair_index(eii);
        let on = pair_index(ei);
        assert(edge_in_range(prev.1, op) && edge_in_range(prev.1, on));
        let es_b = linked(prev.1, op, on);
        let es_c = linked(es_b, ei, eii);
        assert(l.1 == es_c);
        assert(l.0 == prev.0.update(
            vis[np] as int,
            Vertex {
                outgoing_half_edge: HalfEdgeIndex { index: (ei + 1) as u32 },
                ..prev.0[vis[np] as int]
            },
        ));
        // Positions this step writes are its own side's four slots; every
        // earlier side's links sit elsewhere, so they survive.
        assert forall|j: int, k: int| 0 <= j < n && 0 <= k < n && j != k implies af_next_pos(n, j)
            != af_next_pos(n, k) by {}
        assert(l.1.len() == base + 2 * n);
        assert forall|k: int| 0 <= k < base implies l.1[k] == es0[k] by {
            assert((op as int) >= base && (on as int) >= base && (ei as int) >= base && (
            eii as int) >= base);
        }
        assert forall|k: int| 0 <= k < base + 2 * n implies l.1[k].start_vertex
            == prev.1[k].start_vertex && l.1[k].adjacent_face == prev.1[k].adjacent_face by {}
        assert forall|j: int| 0 <= j < i implies l.1[base + 2 * j].next_edge.index == (base + 2
            * af_next_pos(n, j)) as u32 by {
            if j == p {
                assert(l.1[base + 2 * p].next_edge.index == eii);
            }
        }
        assert forall|j: int| 0 <= j < i implies l.1[base + 2 * af_next_pos(n, j)].previous_edge.index
            == (base + 2 * j) as u32 by {
            if j == p {
                assert(l.1[base + 2 * np].previous_edge.index == ei);
            } else {
                assert(af_next_pos(n, j) != np);
            }
        }
        assert forall|j: int| 0 <= j < i implies l.1[base + 2 * af_next_pos(n, j)
            + 1].next_edge.index == (base + 2 * j + 1) as u32 by {
            if j == p {
                assert(l.1[op as int].next_edge.index == on);
            } else {
                assert(af_next_pos(n, j) != np);
            }
        }
        assert forall|j: int| 0 <= j < i implies l.1[base + 2 * j + 1].previous_edge.index == (base
            + 2 * af_next_pos(n, j) + 1) as u32 by {
            if j == p {
                assert(l.1[on as int].previous_edge.index == op);
            }
        }
        assert forall|j: int| 0 <= j < i implies l.0[vis[af_next_pos(n, j)] as int].outgoing_half_edge.index
            == (base + 2 * j + 1) as u32 by {
            if j != p {
                assert(af_next_pos(n, j) != np);
                assert(vis[af_next_pos(n, j)] != vis[np]);
            }
        }
        assert(l.0.len() == vs0.len());
        assert forall|j: int| 0 <= j < n implies #[trigger] fresh_side_shape(
            l.1,
            vis,
            base,
            fidx,
            j,
        ) by {
            assert(fresh_side_shape(prev.1, vis, base, fidx, j));
            assert(l.1[base + 2 * j].start_vertex == prev.1[base + 2 * j].start_vertex);
            assert(l.1[base + 2 * j].adjacent_face == prev.1[base + 2 * j].adjacent_face);
            assert(l.1[base + 2 * j + 1].start_vertex == prev.1[base + 2 * j + 1].start_vertex);
            assert(l.1[base + 2 * j + 1].adjacent_face == prev.1[base + 2 * j + 1].adjacent_face);
        }
    }
}

/// Each side needs at most one fresh pair, and later prefixes never need
/// fewer.
proof fn lemma_af_new_count_bounds(vs: Seq<Vertex>, es: Seq<HalfEdge>, vis: Seq<u32>, i: int)
    requires
        0 <= i,
    ensures
        0 <= af_new_count(vs, es, vis, i) <= i,
        forall|j: int|
            0 <= j <= i ==> #[trigger] af_new_count(vs, es, vis, j) <= af_new_count(vs, es, vis, i),
    decreases i,
{
    if i > 0 {
        lemma_af_new_count_bounds(vs, es, vis, i - 1);
    }
}

// General methods.
impl Mesh {
    /// The empty mesh.
    pub fn new() -> (r: Mesh)
        ensures
            r@.vertices == Seq::<Vertex>::empty(),
            r@.edges == Seq::<HalfEdge>::empty(),
            r@.faces == Seq::<Face>::empty(),
    {
        Mesh {
            vertices: MeshPartCollection::new(),
            edges: MeshPartCollection::new(),
            faces: FaceCollection::new(),
        }
    }

    /// Physically reclaim every tombstoned slot and renumber all
    /// cross-references, in the fixed order vertex, face, half-edge: each
    /// stage's fix-ups assume the other two arenas still use their
    /// pre-compaction addressing.  Afterwards no unused entity remains; any
    /// index held across this call must be re-derived.
    pub fn compact(&mut self)
        requires
            old(self)@.vertices.len() <= UNSET_VALUE,
            old(self)@.edges.len() <= UNSET_VALUE,
            old(self)@.faces.len() <= UNSET_VALUE,
        ensures
            final(self)@ == compact_model(old(self)@),
            forall|j: int|
                0 <= j < final(self)@.vertices.len() ==> !vertex_unused(final(self)@.vertices[j]),
            forall|j: int|
                0 <= j < final(self)@.faces.len() ==> !face_unused(final(self)@.faces[j]),
            forall|j: int|
                0 <= j < final(self)@.edges.len() ==> !half_edge_unused(final(self)@.edges[j]),
            final(self)@.vertices.len() == live_vertices(old(self)@.vertices).len(),
            forall|j: int|
                0 <= j < final(self)@.vertices.len() ==> final(self)@.vertices[j].location
                    == live_vertices(old(self)@.vertices)[j].location,
    {
        self.vertex_compact();
        self.face_compact();
        self.half_edge_compact();
    }
}

// Vertex operations.
impl Mesh {
    pub fn vertex_count(&self) -> (n: usize)
        ensures
            n == self@.vertices.len(),
    {
        self.vertices.len()
    }

    /// Append a vertex; no topology side effects.
    pub fn add_vertex(&mut self, v: Vertex) -> (r: VertexIndex)
        requires
            old(self)@.vertices.len() < UNSET_VALUE,
        ensures
            r.index == old(self)@.vertices.len(),
            final(self)@.vertices == old(self)@.vertices.push(v),
            final(self)@.edges == old(self)@.edges,
            final(self)@.faces == old(self)@.faces,
    {
        self.vertices.add(v)
    }

    /// Append a fresh vertex holding `position`, not yet attached to any
    /// half-edge.
    pub fn add_vertex_position(&mut self, position: Point) -> (r: VertexIndex)
        requires
            old(self)@.vertices.len() < UNSET_VALUE,
        ensures
            r.index == old(self)@.vertices.len(),
            final(self)@.vertices == old(self)@.vertices.push(
                Vertex {
                    outgoing_half_edge: HalfEdgeIndex { index: UNSET_VALUE },
                    location: position,
                },
            ),
            final(self)@.edges == old(self)@.edges,
            final(self)@.faces == old(self)@.faces,
    {
        self.vertices.add(Vertex::new(position))
    }

    /// The fan of half-edges leaving the vertex at `index`, walked from its
    /// recorded outgoing half-edge.
    pub fn get_vertex_circulator(&self, index: VertexIndex) -> (r: Option<Vec<HalfEdgeIndex>>)
        requires
            (index.index as int) < self@.vertices.len(),
        ensures
            ({
                let out = self@.vertices[index.index as int].outgoing_half_edge.index;
                &&& (r.is_some() <==> edge_in_range(self@.edges, out) && vertex_loop_exists(
                    self@.edges,
                    out,
                ))
                &&& (r matches Some(v) ==> {
                    &&& v@.map_values(|h: HalfEdgeIndex| h.index) == vertex_cycle(self@.edges, out)
                    &&& vertex_closes_at(self@.edges, out, v@.len() as nat)
                    &&& 1 <= v@.len() <= CIRCULATOR_LIMIT
                })
            }),
    {
        self.edges.vertex_circulator(self.vertices.get(index).outgoing_half_edge)
    }

    /// Sweep the vertex arena left-to-right with a write marker: copy each
    /// used vertex down to the marker, rewrite the start vertex of every
    /// half-edge in its fan to the new index, and trim the tail.  Runs
    /// before half-edge compaction, which it leaves pre-compaction edge
    /// indices for.
    #[verifier::loop_isolation(false)]
    fn vertex_compact(&mut self)
        requires
            old(self)@.vertices.len() <= UNSET_VALUE,
        ensures
            final(self)@ == vertex_compact_model(old(self)@),
            final(self)@.vertices == live_vertices(old(self)@.vertices),
            final(self)@.edges.len() == old(self)@.edges.len(),
            final(self)@.faces == old(self)@.faces,
            forall|j: int|
                0 <= j < final(self)@.vertices.len() ==> !vertex_unused(final(self)@.vertices[j]),
    {
        let ghost vs0 = self@.vertices;
        let ghost es0 = self@.edges;
        let ghost used = |v: Vertex| !vertex_unused(v);
        let count = self.vertices.len();
        let mut marker = VertexIndex::new(0);
        let mut i: usize = 0;
        proof {
            assert(vs0.subrange(0, 0) =~= Seq::<Vertex>::empty());
            assert(Seq::<Vertex>::empty().filter(used) =~= Seq::<Vertex>::empty()) by {
                reveal(Seq::filter);
            }
        }
        while i < count
            invariant
                i <= count,
                marker.index <= i,
                marker.index as nat == vertex_compact_sweep(vs0, es0, i as nat).2,
                self@.vertices == vertex_compact_sweep(vs0, es0, i as nat).0,
                self@.edges == vertex_compact_sweep(vs0, es0, i as nat).1,
                self@.faces == old(self)@.faces,
                self@.vertices.len() == vs0.len(),
                self@.edges.len() == es0.len(),
                self@.vertices.subrange(0, marker.index as int) == vs0.subrange(
                    0,
                    i as int,
                ).filter(used),
                forall|j: int| marker.index <= j < vs0.len() ==> self@.vertices[j] == vs0[j],
            decreases count - i,
        {
            let ghost sweep_pre = vertex_compact_sweep(vs0, es0, i as nat);
            let iter = VertexIndex::new(i as u32);
            let ghost pre_sub = self@.vertices.subrange(0, marker.index as int);
            if !self.vertices.get(iter).is_unused() {
                if marker.index < iter.index {
                    let moved = *self.vertices.get(iter);
                    self.vertices.set(marker, moved);
                    let ghost es1 = self@.edges;
                    let first = moved.outgoing_half_edge;
                    match self.edges.vertex_circulator(first) {
                        None => {},
                        Some(fan) => {
                            let ghost c = vertex_cycle(es1, first.index);
                            proof {
                                assert(fan@.map_values(|h: HalfEdgeIndex| h.index) == c);
                                assert forall|j: int| 0 <= j < c.len() implies c[j] == (
                                #[trigger] fan@[j]).index by {
                                    assert(c[j] == fan@.map_values(|h: HalfEdgeIndex| h.index)[j]);
                                }
                                assert(vertex_closes_at(es1, first.index, fan@.len() as nat));
                            }
                            let ghost vs_mid = self@.vertices;
                            let mut k: usize = 0;
                            while k < fan.len()
                                invariant
                                    k <= fan@.len(),
                                    self@.edges == set_fan_starts(es1, c, marker.index, k as nat),
                                    self@.edges.len() == es1.len(),
                                    self@.vertices == vs_mid,
                                    self@.faces == old(self)@.faces,
                                decreases fan@.len() - k,
                            {
                                let e = fan[k];
                                proof {
                                    assert(e.index == vertex_walk(es1, first.index, k as nat));
                                    assert(edge_in_range(es1, e.index));
                                }
                                let mut he = *self.edges.get(e);
                                he.start_vertex = marker;
                                self.edges.set(e, he);
                                k = k + 1;
                            }
                            proof {
                                assert(self@.edges == set_fan_starts(
                                    es1,
                                    c,
                                    marker.index,
                                    c.len() as nat,
                                ));
                            }
                        },
                    }
                } else {
                    proof {
                        assert(self@.vertices.subrange(0, marker.index as int + 1) =~= pre_sub.push(
                            vs0[i as int],
                        ));
                    }
                }
                marker.increment();
            }
            i = i + 1;
            proof {
                let swept = vertex_compact_sweep(vs0, es0, i as nat);
                assert(swept.0 == (if !vertex_unused(sweep_pre.0[i - 1]) {
                    if sweep_pre.2 < i - 1 {
                        sweep_pre.0.update(sweep_pre.2 as int, sweep_pre.0[i - 1])
                    } else {
                        sweep_pre.0
                    }
                } else {
                    sweep_pre.0
                }));
                lemma_filter_push(vs0.subrange(0, i - 1), used, vs0[i - 1]);
                assert(vs0.subrange(0, i as int) =~= vs0.subrange(0, i - 1).push(vs0[i - 1]));
                if used(vs0[i - 1]) {
                    assert(self@.vertices.subrange(0, marker.index as int) =~= pre_sub.push(
                        vs0[i - 1],
                    ));
                }
            }
        }
        proof {
            assert(vs0.subrange(0, count as int) =~= vs0);
        }
        let ghost swept = vertex_compact_sweep(vs0, es0, count as nat);
        let ghost vs_swept = self@.vertices;
        if (marker.index as usize) < count {
            let trim = count - marker.index as usize;
            self.vertices.remove_range(marker, trim);
            proof {
                assert(self@.vertices =~= vs_swept.subrange(0, marker.index as int));
            }
        } else {
            proof {
                assert(self@.vertices =~= vs_swept.subrange(0, marker.index as int));
            }
        }
        proof {
            assert(self@.vertices == swept.0.subrange(0, swept.2 as int));
        }
    }
}

// Half-edge operations.
impl Mesh {
    pub fn half_edge_count(&self) -> (n: usize)
        ensures
            n == self@.edges.len(),
    {
        self.edges.len()
    }

    /// Append a single half-edge; callers are responsible for keeping the
    /// paired layout intact (`add_edge_pair` does).
    pub fn add_half_edge(&mut self, e: HalfEdge) -> (r: HalfEdgeIndex)
        requires
            old(self)@.edges.len() < UNSET_VALUE,
        ensures
            r.index == old(self)@.edges.len(),
            final(self)@.edges == old(self)@.edges.push(e),
            final(self)@.vertices == old(self)@.vertices,
            final(self)@.faces == old(self)@.faces,
    {
        self.edges.add(e)
    }

    /// Allocate a fresh half-edge pair from `start` to `end`, the face side
    /// carrying `face` and the opposite side left as boundary.  The two
    /// half-edges point at each other through `next_edge` until face
    /// insertion links them into loops.  If `start` had no outgoing
    /// half-edge, the new face-side edge becomes it.
    pub fn add_edge_pair(&mut self, start: VertexIndex, end: VertexIndex, face: FaceIndex) -> (r:
        HalfEdgeIndex)
        requires
            (start.index as int) < old(self)@.vertices.len(),
            old(self)@.edges.len() + 2 <= UNSET_VALUE,
        ensures
            r.index == old(self)@.edges.len(),
            final(self)@.edges == old(self)@.edges.push(
                HalfEdge {
                    start_vertex: start,
                    adjacent_face: face,
                    next_edge: HalfEdgeIndex { index: (old(self)@.edges.len() + 1) as u32 },
                    previous_edge: HalfEdgeIndex { index: UNSET_VALUE },
                },
            ).push(
                HalfEdge {
                    start_vertex: end,
                    adjacent_face: FaceIndex { index: UNSET_VALUE },
                    next_edge: HalfEdgeIndex { index: old(self)@.edges.len() as u32 },
                    previous_edge: HalfEdgeIndex { index: UNSET_VALUE },
                },
            ),
            final(self)@.vertices == (if old(self)@.vertices[start.index as int].outgoing_half_edge.index
                == UNSET_VALUE {
                old(self)@.vertices.update(
                    start.index as int,
                    Vertex {
                        outgoing_half_edge: HalfEdgeIndex {
                            index: old(self)@.edges.len() as u32,
                        },
                        ..old(self)@.vertices[start.index as int]
                    },
                )
            } else {
                old(self)@.vertices
            }),
            final(self)@.faces == old(self)@.faces,
    {
        let edge_count = self.edges.len();
        let edge_index = HalfEdgeIndex { index: edge_count as u32 };
        let next_edge_index = HalfEdgeIndex { index: (edge_count + 1) as u32 };
        let e1 = HalfEdge::new(start, face, next_edge_index);
        let e2 = HalfEdge::new(end, FaceIndex { index: UNSET_VALUE }, edge_index);

        let index1 = self.edges.add(e1);
        let _index2 = self.edges.add(e2);

        if self.vertices.get(start).outgoing_half_edge.index == UNSET_VALUE {
            let mut v = *self.vertices.get(start);
            v.outgoing_half_edge = index1;
            self.vertices.set(start, v);
        }

        index1
    }

    /// Whether edge `index` borders the boundary, or no result when `index`
    /// or its pair does not address an arena slot.
    pub fn is_boundary_index(&self, index: HalfEdgeIndex) -> (r: Option<bool>)
        ensures
            r.is_some() <==> edge_in_range(self@.edges, index.index) && edge_in_range(
                self@.edges,
                pair_index(index.index),
            ),
            r matches Some(b) ==> b == edge_is_boundary(self@.edges, index.index),
    {
        self.edges.is_boundary_index(index)
    }

    /// The start vertex of `index`'s pair: the logical head of edge `index`.
    pub fn find_end_vertex_index(&self, index: HalfEdgeIndex) -> (r: VertexIndex)
        requires
            edge_in_range(self@.edges, pair_index(index.index)),
        ensures
            r.index == end_vertex_of(self@.edges, index.index),
    {
        let p = HalfEdgeCollection::edge_pair_index(index);
        self.edges.get(p).start_vertex
    }

    /// Whether every index the pair-removal splice would dereference
    /// addresses a slot of the current arenas.
    fn pair_removal_check(&self, e: HalfEdgeIndex) -> (r: bool)
        requires
            edge_in_range(self@.edges, e.index),
            edge_in_range(self@.edges, pair_index(e.index)),
        ensures
            r == pair_removal_ok(self@.vertices, self@.edges, e.index),
    {
        let p = HalfEdgeCollection::edge_pair_index(e);
        let ei = *self.edges.get(e);
        let ep = *self.edges.get(p);
        let el = self.edges.len();
        let vl = self.vertices.len();
        ep.previous_edge.index != UNSET_VALUE && (ep.previous_edge.index as usize) < el
            && ei.next_edge.index != UNSET_VALUE && (ei.next_edge.index as usize) < el
            && ei.previous_edge.index != UNSET_VALUE && (ei.previous_edge.index as usize) < el
            && ep.next_edge.index != UNSET_VALUE && (ep.next_edge.index as usize) < el && (
        ei.start_vertex.index as usize) < vl && (ep.start_vertex.index as usize) < vl
    }

    /// Splice edge `index` and its pair out of their cycles, repair each
    /// endpoint vertex's outgoing half-edge, and tombstone both half-edges.
    /// Meant for pairs that currently border the boundary; callers ensure
    /// that (face removal demotes interior edges first).
    pub fn remove_half_edge_pair(&mut self, index: HalfEdgeIndex)
        requires
            pair_removal_ok(old(self)@.vertices, old(self)@.edges, index.index),
        ensures
            final(self)@.edges == removed_pair_edges(old(self)@.edges, index.index),
            final(self)@.vertices == removed_pair_vertices(
                old(self)@.vertices,
                old(self)@.edges,
                index.index,
            ),
            final(self)@.faces == old(self)@.faces,
    {
        let pair = HalfEdgeCollection::edge_pair_index(index);

        // Reconnect the adjacent half-edges around the removed pair.
        let a1 = self.edges.get(pair).previous_edge;
        let b1 = self.edges.get(index).next_edge;
        self.edges.make_consecutive(a1, b1);
        let a2 = self.edges.get(index).previous_edge;
        let b2 = self.edges.get(pair).next_edge;
        self.edges.make_consecutive(a2, b2);

        // Repair the endpoint vertices' outgoing half-edges: fall back to
        // the next half-edge around the vertex, or mark the vertex unused
        // when the removed edge was its last.
        let v_index = self.edges.get(index).start_vertex;
        let v_pair = self.edges.get(pair).start_vertex;

        if self.vertices.get(v_index).outgoing_half_edge.index == index.index {
            let next = self.edges.get(pair).next_edge;
            let mut v = *self.vertices.get(v_index);
            if next.index == index.index {
                v.outgoing_half_edge = HalfEdgeIndex { index: UNSET_VALUE };
            } else {
                v.outgoing_half_edge = next;
            }
            self.vertices.set(v_index, v);
        }
        if self.vertices.get(v_pair).outgoing_half_edge.index == pair.index {
            let next = self.edges.get(index).next_edge;
            let mut v = *self.vertices.get(v_pair);
            if next.index == pair.index {
                v.outgoing_half_edge = HalfEdgeIndex { index: UNSET_VALUE };
            } else {
                v.outgoing_half_edge = next;
            }
            self.vertices.set(v_pair, v);
        }

        // Tombstone both half-edges.
        self.edges.set(index, HalfEdge::unset());
        self.edges.set(pair, HalfEdge::unset());
    }

    /// Sweep the half-edge arena left-to-right with a write marker: copy
    /// each live half-edge down to the marker, repoint the references its
    /// start vertex and adjacent face held to its old slot, repair its two
    /// neighbour links, and trim the tail.  Half-edges are removed in pairs,
    /// so a sound mesh leaves an even number of survivors.
    #[verifier::loop_isolation(false)]
    fn half_edge_compact(&mut self)
        requires
            old(self)@.edges.len() <= UNSET_VALUE,
        ensures
            final(self)@ == half_edge_compact_model(old(self)@),
            final(self)@.vertices.len() == old(self)@.vertices.len(),
            final(self)@.faces.len() == old(self)@.faces.len(),
            forall|j: int|
                0 <= j < final(self)@.edges.len() ==> !half_edge_unused(final(self)@.edges[j]),
            forall|j: int|
                0 <= j < old(self)@.vertices.len() && !vertex_unused(old(self)@.vertices[j])
                    ==> !vertex_unused(final(self)@.vertices[j]),
            forall|j: int|
                0 <= j < old(self)@.faces.len() && !face_unused(old(self)@.faces[j])
                    ==> !face_unused(final(self)@.faces[j]),
            forall|j: int|
                0 <= j < old(self)@.vertices.len() ==> final(self)@.vertices[j].location == old(
                    self,
                )@.vertices[j].location,
    {
        let ghost vs0 = self@.vertices;
        let ghost es0 = self@.edges;
        let ghost fs0 = self@.faces;
        let count = self.edges.len();
        let mut marker = HalfEdgeIndex::new(0);
        let mut i: usize = 0;
        while i < count
            invariant
                i <= count,
                marker.index <= i,
                marker.index as nat == he_compact_sweep(vs0, es0, fs0, i as nat).3,
                self@.vertices == he_compact_sweep(vs0, es0, fs0, i as nat).0,
                self@.edges == he_compact_sweep(vs0, es0, fs0, i as nat).1,
                self@.faces == he_compact_sweep(vs0, es0, fs0, i as nat).2,
                self@.vertices.len() == vs0.len(),
                self@.edges.len() == es0.len(),
                self@.faces.len() == fs0.len(),
                forall|j: int| 0 <= j < marker.index ==> !half_edge_unused(self@.edges[j]),
                forall|j: int|
                    0 <= j < vs0.len() && !vertex_unused(vs0[j]) ==> !vertex_unused(
                        self@.vertices[j],
                    ),
                forall|j: int|
                    0 <= j < fs0.len() && !face_unused(fs0[j]) ==> !face_unused(self@.faces[j]),
                forall|j: int|
                    0 <= j < vs0.len() ==> self@.vertices[j].location == vs0[j].location,
            decreases count - i,
        {
            let iter = HalfEdgeIndex::new(i as u32);
            if !self.edges.get(iter).is_unused() {
                if marker.index < iter.index {
                    let moved = *self.edges.get(iter);
                    self.edges.set(marker, moved);

                    // Repoint the start vertex's outgoing half-edge if it
                    // named the old slot.
                    let v = moved.start_vertex;
                    if (v.index as usize) < self.vertices.len()
                        && self.vertices.get(v).outgoing_half_edge.index == iter.index {
                        let mut vv = *self.vertices.get(v);
                        vv.outgoing_half_edge = marker;
                        self.vertices.set(v, vv);
                    }
                    // Repoint the adjacent face's first half-edge if it
                    // named the old slot.
                    let f = moved.adjacent_face;
                    if f.index != UNSET_VALUE && (f.index as usize) < self.faces.len()
                        && self.faces.get(f).first_half_edge.index == iter.index {
                        self.faces.set(f, Face { first_half_edge: marker });
                    }
                    // Repair the neighbour links to name the new slot.
                    let nx = self.edges.get(marker).next_edge;
                    if nx.index != UNSET_VALUE && (nx.index as usize) < self.edges.len() {
                        let mut en = *self.edges.get(nx);
                        en.previous_edge = marker;
                        self.edges.set(nx, en);
                    }
                    let pv = self.edges.get(marker).previous_edge;
                    if pv.index != UNSET_VALUE && (pv.index as usize) < self.edges.len() {
                        let mut ep = *self.edges.get(pv);
                        ep.next_edge = marker;
                        self.edges.set(pv, ep);
                    }
                }
                marker.increment();
            }
            i = i + 1;
        }
        let ghost swept = he_compact_sweep(vs0, es0, fs0, count as nat);
        let ghost es_swept = self@.edges;
        if (marker.index as usize) < count {
            let trim = count - marker.index as usize;
            self.edges.remove_range(marker, trim);
            proof {
                assert(self@.edges =~= es_swept.subrange(0, marker.index as int));
            }
        } else {
            proof {
                assert(self@.edges =~= es_swept.subrange(0, marker.index as int));
            }
        }
        proof {
            assert(self@.edges == swept.1.subrange(0, swept.3 as int));
        }
    }

    /// The half-edge from vertex `start` to vertex `end`, found by walking
    /// `start`'s outgoing fan; none when `start` has no outgoing half-edge,
    /// the fan does not close, or no fan edge heads at `end`.
    #[verifier::loop_isolation(false)]
    pub fn find_half_edge_index(&self, start: VertexIndex, end: VertexIndex) -> (r: Option<
        HalfEdgeIndex,
    >)
        requires
            (start.index as int) < self@.vertices.len(),
        ensures
            r matches Some(h) ==> fan_find(self@.vertices, self@.edges, start.index, end.index)
                == Some(h.index),
            r is None ==> fan_find(self@.vertices, self@.edges, start.index, end.index) is None,
    {
        let ghost es = self@.edges;
        let outgoing = self.vertices.get(start).outgoing_half_edge;
        let result = self.edges.vertex_circulator(outgoing);
        match result {
            None => None,
            Some(circulator) => {
                let ghost c = vertex_cycle(es, outgoing.index);
                let ghost n = circulator@.len() as nat;
                proof {
                    assert(circulator@.map_values(|h: HalfEdgeIndex| h.index) == c);
                    assert(c.len() == n);
                    assert forall|j: int| 0 <= j < n implies c[j] == (#[trigger] circulator@[j]).index by {
                        assert(c[j] == circulator@.map_values(|h: HalfEdgeIndex| h.index)[j]);
                    }
                }
                let mut i: usize = 0;
                while i < circulator.len()
                    invariant
                        i <= circulator@.len(),
                        first_fan_hit(es, c, end.index, 0) == first_fan_hit(es, c, end.index, i as nat),
                    decreases circulator@.len() - i,
                {
                    let h = circulator[i];
                    proof {
                        assert(h.index == vertex_walk(es, outgoing.index, i as nat));
                        assert(edge_in_range(es, pair_index(h.index)));
                    }
                    let ev = self.find_end_vertex_index(h);
                    if ev.index == end.index {
                        proof {
                            assert(first_fan_hit(es, c, end.index, i as nat) == Some(h.index));
                        }
                        return Some(h);
                    }
                    proof {
                        assert(first_fan_hit(es, c, end.index, i as nat) == first_fan_hit(
                            es,
                            c,
                            end.index,
                            (i + 1) as nat,
                        ));
                    }
                    i = i + 1;
                }
                proof {
                    assert(first_fan_hit(es, c, end.index, i as nat) is None);
                }
                None
            },
        }
    }
}

// Face operations.
impl Mesh {
    pub fn face_count(&self) -> (n: usize)
        ensures
            n == self@.faces.len(),
    {
        self.faces.len()
    }

    /// Append a face record; callers are responsible for the loop it names.
    pub fn add_face(&mut self, face: Face) -> (r: FaceIndex)
        requires
            old(self)@.faces.len() < UNSET_VALUE,
        ensures
            r.index == old(self)@.faces.len(),
            final(self)@.faces == old(self)@.faces.push(face),
            final(self)@.vertices == old(self)@.vertices,
            final(self)@.edges == old(self)@.edges,
    {
        self.faces.add(face)
    }

    /// Perform the linking step for one polygon side, as `af_link_step`
    /// describes: outer boundary-side links by case, the non-manifold fan
    /// splice, the inner loop links, and the outgoing repoint.
    fn link_side(
        &mut self,
        e_i: HalfEdgeIndex,
        e_ii: HalfEdgeIndex,
        v2: VertexIndex,
        new_i: bool,
        new_ii: bool,
        had_fan_ii: bool,
        Ghost(vs0): Ghost<Seq<Vertex>>,
        Ghost(es0): Ghost<Seq<HalfEdge>>,
        Ghost(vis): Ghost<Seq<u32>>,
        Ghost(base): Ghost<int>,
        Ghost(pos): Ghost<int>,
    )
        requires
            0 <= pos < vis.len(),
            e_i.index == af_edge_slot(vs0, es0, vis, base, pos),
            e_ii.index == af_edge_slot(vs0, es0, vis, base, af_next_pos(vis.len() as int, pos)),
            new_i == (af_found(vs0, es0, vis, pos) is None),
            new_ii == (af_found(vs0, es0, vis, af_next_pos(vis.len() as int, pos)) is None),
            v2.index == vis[af_next_pos(vis.len() as int, pos)],
            (v2.index as int) < old(self)@.vertices.len(),
            had_fan_ii == (vs0[vis[af_next_pos(vis.len() as int, pos)] as int].outgoing_half_edge.index
                != UNSET_VALUE),
            edge_in_range(old(self)@.edges, e_i.index),
            edge_in_range(old(self)@.edges, e_ii.index),
            new_i ==> (e_i.index as int) + 1 < old(self)@.edges.len(),
        ensures
            final(self)@.vertices == af_link_step(
                vs0,
                es0,
                vis,
                base,
                old(self)@.vertices,
                old(self)@.edges,
                pos,
            ).0,
            final(self)@.edges == af_link_step(
                vs0,
                es0,
                vis,
                base,
                old(self)@.vertices,
                old(self)@.edges,
                pos,
            ).1,
            final(self)@.faces == old(self)@.faces,
            final(self)@.edges.len() == old(self)@.edges.len(),
            final(self)@.vertices.len() == old(self)@.vertices.len(),
    {
        if new_i || new_ii {
            let outer_prev: HalfEdgeIndex;
            let outer_next: HalfEdgeIndex;
            if new_i && !new_ii {
                // Fresh side before a reused one: the fresh boundary side
                // continues where the reused edge's cycle came in.
                outer_prev = self.edges.get(e_ii).previous_edge;
                outer_next = HalfEdgeCollection::edge_pair_index(e_i);
            } else if !new_i && new_ii {
                // Reused side before a fresh one.
                outer_prev = HalfEdgeCollection::edge_pair_index(e_ii);
                outer_next = self.edges.get(e_i).next_edge;
            } else if !had_fan_ii {
                // Both sides fresh at a vertex that had no fan: chain the
                // two boundary sides directly.
                outer_prev = HalfEdgeCollection::edge_pair_index(e_ii);
                outer_next = HalfEdgeCollection::edge_pair_index(e_i);
            } else {
                // Both sides fresh at a vertex that already owns a
                // disconnected fan: splice the new boundary sides into that
                // fan instead of chaining them, preserving the vertex's
                // full circular edge list.
                let out_v2 = self.vertices.get(v2).outgoing_half_edge;
                if out_v2.index != UNSET_VALUE && (out_v2.index as usize) < self.edges.len() {
                    let op1 = self.edges.get(out_v2).previous_edge;
                    let on1 = HalfEdgeCollection::edge_pair_index(e_i);
                    if op1.index != UNSET_VALUE && (op1.index as usize) < self.edges.len()
                        && on1.index != UNSET_VALUE && (on1.index as usize) < self.edges.len() {
                        self.edges.make_consecutive(op1, on1);
                    }
                }
                outer_prev = HalfEdgeCollection::edge_pair_index(e_ii);
                outer_next = out_v2;
            }
            if outer_prev.index != UNSET_VALUE && (outer_prev.index as usize) < self.edges.len()
                && outer_next.index != UNSET_VALUE && (outer_next.index as usize)
                < self.edges.len() {
                self.edges.make_consecutive(outer_prev, outer_next);
            }
            // The loop's inner links.
            self.edges.make_consecutive(e_i, e_ii);
            // A fresh pair's boundary side becomes the shared vertex's
            // outgoing half-edge, keeping the boundary invariant.
            if new_i {
                let mut vv = *self.vertices.get(v2);
                vv.outgoing_half_edge = HalfEdgeIndex { index: e_i.index + 1 };
                self.vertices.set(v2, vv);
            }
        }
    }

    /// Check that no polygon vertex is already interior, and record which
    /// already own a fan.
    #[verifier::loop_isolation(false)]
    fn validate_face_vertices(&self, indices: &Vec<VertexIndex>) -> (r: Option<Vec<bool>>)
        requires
            forall|i: int|
                0 <= i < indices@.len() ==> ((#[trigger] indices@[i]).index as int)
                    < self@.vertices.len(),
        ensures
            ({
                let vis = indices@.map_values(|v: VertexIndex| v.index);
                match r {
                    Some(flags) => {
                        &&& flags@.len() == vis.len()
                        &&& forall|j: int|
                            0 <= j < vis.len() ==> flags@[j] == (self@.vertices[(
                            #[trigger] vis[j]) as int].outgoing_half_edge.index != UNSET_VALUE)
                        &&& forall|j: int|
                            0 <= j < vis.len() ==> !af_vertex_blocked(
                                self@.vertices,
                                self@.edges,
                                #[trigger] vis[j],
                            )
                    },
                    None => exists|j: int|
                        0 <= j < vis.len() && af_vertex_blocked(
                            self@.vertices,
                            self@.edges,
                            #[trigger] vis[j],
                        ),
                }
            }),
    {
        let ghost vis = indices@.map_values(|v: VertexIndex| v.index);
        proof {
            assert forall|j: int| 0 <= j < vis.len() implies vis[j] == (
            #[trigger] indices@[j]).index by {
                assert(vis[j] == indices@.map_values(|v: VertexIndex| v.index)[j]);
            }
        }
        let n = indices.len();
        let mut had_fan_flags: Vec<bool> = Vec::new();
        let mut i: usize = 0;
        while i < n
            invariant
                i <= n,
                had_fan_flags@.len() == i,
                forall|j: int| 0 <= j < i ==> !af_vertex_blocked(self@.vertices, self@.edges, #[trigger] vis[j]),
                forall|j: int|
                    0 <= j < i ==> had_fan_flags@[j] == (self@.vertices[(
                    #[trigger] vis[j]) as int].outgoing_half_edge.index != UNSET_VALUE),
            decreases n - i,
        {
            let v = indices[i];
            let out = self.vertices.get(v).outgoing_half_edge;
            had_fan_flags.push(out.index != UNSET_VALUE);
            match self.edges.is_boundary_index(out) {
                None => {},
                Some(b) => {
                    if !b {
                        proof {
                            assert(af_vertex_blocked(self@.vertices, self@.edges, vis[i as int]));
                        }
                        return None;
                    }
                },
            }
            i = i + 1;
        }
        Some(had_fan_flags)
    }

    /// Look up an existing half-edge for every polygon side; a found one
    /// must still border the boundary.  Returns the found slots and the
    /// per-side "needs a fresh pair" flags.
    #[verifier::loop_isolation(false)]
    fn search_face_sides(&self, indices: &Vec<VertexIndex>) -> (r: Option<
        (Vec<HalfEdgeIndex>, Vec<bool>),
    >)
        requires
            indices@.len() >= 1,
            forall|i: int|
                0 <= i < indices@.len() ==> ((#[trigger] indices@[i]).index as int)
                    < self@.vertices.len(),
        ensures
            ({
                let vis = indices@.map_values(|v: VertexIndex| v.index);
                let vs = self@.vertices;
                let es = self@.edges;
                match r {
                    Some(fe) => {
                        &&& fe.0@.len() == vis.len()
                        &&& fe.1@.len() == vis.len()
                        &&& forall|j: int|
                            0 <= j < vis.len() ==> (#[trigger] fe.1@[j]) == (af_found(
                                vs,
                                es,
                                vis,
                                j,
                            ) is None)
                        &&& forall|j: int|
                            0 <= j < vis.len() && !fe.1@[j] ==> af_found(vs, es, vis, j) == Some(
                                (#[trigger] fe.0@[j]).index,
                            ) && edge_in_range(es, fe.0@[j].index) && edge_in_range(
                                es,
                                pair_index(fe.0@[j].index),
                            )
                        &&& forall|j: int|
                            0 <= j < vis.len() ==> !((#[trigger] af_found(vs, es, vis, j))
                                matches Some(h) && !edge_is_boundary(es, h))
                    },
                    None => exists|j: int|
                        0 <= j < vis.len() && ((#[trigger] af_found(vs, es, vis, j)) matches Some(
                            h,
                        ) && !edge_is_boundary(es, h)),
                }
            }),
    {
        let ghost vis = indices@.map_values(|v: VertexIndex| v.index);
        proof {
            assert forall|j: int| 0 <= j < vis.len() implies vis[j] == (
            #[trigger] indices@[j]).index by {
                assert(vis[j] == indices@.map_values(|v: VertexIndex| v.index)[j]);
            }
        }
        let n = indices.len();
        let mut found_edges: Vec<HalfEdgeIndex> = Vec::new();
        let mut is_new_flags: Vec<bool> = Vec::new();
        let mut i: usize = 0;
        while i < n
            invariant
                i <= n,
                found_edges@.len() == i,
                is_new_flags@.len() == i,
                forall|j: int|
                    0 <= j < i ==> (#[trigger] is_new_flags@[j]) == (af_found(
                        self@.vertices,
                        self@.edges,
                        vis,
                        j,
                    ) is None),
                forall|j: int|
                    0 <= j < i && !is_new_flags@[j] ==> af_found(self@.vertices, self@.edges, vis, j)
                        == Some((#[trigger] found_edges@[j]).index) && edge_in_range(
                        self@.edges,
                        found_edges@[j].index,
                    ) && edge_in_range(self@.edges, pair_index(found_edges@[j].index)),
                forall|j: int|
                    0 <= j < i ==> !((#[trigger] af_found(self@.vertices, self@.edges, vis, j))
                        matches Some(h) && !edge_is_boundary(self@.edges, h)),
            decreases n - i,
        {
            let cur = indices[i];
            let nxt = if i + 1 == n {
                indices[0]
            } else {
                indices[i + 1]
            };
            proof {
                assert(nxt.index == vis[af_next_pos(n as int, i as int)]);
            }
            let fr = self.find_half_edge_index(cur, nxt);
            match fr {
                None => {
                    is_new_flags.push(true);
                    found_edges.push(HalfEdgeIndex { index: UNSET_VALUE });
                },
                Some(h) => {
                    proof {
                        lemma_fan_find_props(self@.vertices, self@.edges, cur.index, nxt.index);
                    }
                    match self.edges.is_boundary_index(h) {
                        None => {
                            proof {
                                assert(false);
                            }
                            return None;
                        },
                        Some(b) => {
                            if !b {
                                proof {
                                    assert((af_found(self@.vertices, self@.edges, vis, i as int))
                                        matches Some(hh) && !edge_is_boundary(self@.edges, hh));
                                }
                                return None;
                            }
                            is_new_flags.push(false);
                            found_edges.push(h);
                        },
                    }
                },
            }
            i = i + 1;
        }
        Some((found_edges, is_new_flags))
    }

    /// Allocate a fresh pair for every side that needs one and attach the
    /// new face to the reused half-edges, as `af_alloc_sweep` describes.
    /// Returns each side's loop half-edge slot.
    #[verifier::loop_isolation(false)]
    fn allocate_face_sides(
        &mut self,
        indices: &Vec<VertexIndex>,
        found_edges: &Vec<HalfEdgeIndex>,
        is_new_flags: &Vec<bool>,
        face_index: FaceIndex,
    ) -> (r: Vec<HalfEdgeIndex>)
        requires
            ({
                let vis = indices@.map_values(|v: VertexIndex| v.index);
                let vs = old(self)@.vertices;
                let es = old(self)@.edges;
                &&& forall|i: int|
                    0 <= i < indices@.len() ==> ((#[trigger] indices@[i]).index as int) < vs.len()
                &&& old(self)@.edges.len() + 2 * indices@.len() <= UNSET_VALUE
                &&& found_edges@.len() == vis.len()
                &&& is_new_flags@.len() == vis.len()
                &&& forall|j: int|
                    0 <= j < vis.len() ==> (#[trigger] is_new_flags@[j]) == (af_found(
                        vs,
                        es,
                        vis,
                        j,
                    ) is None)
                &&& forall|j: int|
                    0 <= j < vis.len() && !is_new_flags@[j] ==> af_found(vs, es, vis, j) == Some(
                        (#[trigger] found_edges@[j]).index,
                    ) && edge_in_range(es, found_edges@[j].index)
            }),
        ensures
            ({
                let vis = indices@.map_values(|v: VertexIndex| v.index);
                let vs0 = old(self)@.vertices;
                let es0 = old(self)@.edges;
                let n = vis.len() as int;
                let base = es0.len() as int;
                &&& r@.len() == vis.len()
                &&& forall|j: int|
                    0 <= j < n ==> (#[trigger] r@[j]).index == af_edge_slot(vs0, es0, vis, base, j)
                &&& forall|j: int|
                    0 <= j < n ==> edge_in_range(
                        final(self)@.edges,
                        #[trigger] af_edge_slot(vs0, es0, vis, base, j),
                    ) && (af_found(vs0, es0, vis, j) is None ==> (af_edge_slot(
                        vs0,
                        es0,
                        vis,
                        base,
                        j,
                    ) as int) + 1 < final(self)@.edges.len())
                &&& final(self)@.vertices == af_alloc_sweep(vs0, es0, vis, face_index.index, n as nat).0
                &&& final(self)@.edges == af_alloc_sweep(vs0, es0, vis, face_index.index, n as nat).1
                &&& final(self)@.faces == old(self)@.faces
                &&& final(self)@.vertices.len() == vs0.len()
                &&& final(self)@.edges.len() == base + 2 * af_new_count(vs0, es0, vis, n)
            }),
    {
        let ghost vis = indices@.map_values(|v: VertexIndex| v.index);
        let ghost vs0 = self@.vertices;
        let ghost es0 = self@.edges;
        let ghost fs0 = self@.faces;
        let ghost base = es0.len() as int;
        let ghost fidx = face_index.index;
        proof {
            assert forall|j: int| 0 <= j < vis.len() implies vis[j] == (
            #[trigger] indices@[j]).index by {
                assert(vis[j] == indices@.map_values(|v: VertexIndex| v.index)[j]);
            }
        }
        let n = indices.len();
        let mut edge_slots: Vec<HalfEdgeIndex> = Vec::new();
        let mut i: usize = 0;
        while i < n
            invariant
                i <= n,
                self@.vertices == af_alloc_sweep(vs0, es0, vis, fidx, i as nat).0,
                self@.edges == af_alloc_sweep(vs0, es0, vis, fidx, i as nat).1,
                self@.faces == fs0,
                self@.vertices.len() == vs0.len(),
                self@.edges.len() == base + 2 * af_new_count(vs0, es0, vis, i as int),
                edge_slots@.len() == i,
                forall|j: int|
                    0 <= j < i ==> (#[trigger] edge_slots@[j]).index == af_edge_slot(
                        vs0,
                        es0,
                        vis,
                        base,
                        j,
                    ),
            decreases n - i,
        {
            proof {
                lemma_af_new_count_bounds(vs0, es0, vis, i as int);
            }
            let cur = indices[i];
            let nxt = if i + 1 == n {
                indices[0]
            } else {
                indices[i + 1]
            };
            if is_new_flags[i] {
                let h = self.add_edge_pair(cur, nxt, face_index);
                edge_slots.push(h);
            } else {
                let h = found_edges[i];
                let mut he = *self.edges.get(h);
                he.adjacent_face = face_index;
                self.edges.set(h, he);
                edge_slots.push(h);
            }
            i = i + 1;
        }
        // Every loop slot, and the boundary partner of every fresh one,
        // addresses the enlarged arena.
        proof {
            lemma_af_new_count_bounds(vs0, es0, vis, n as int);
            assert forall|j: int| 0 <= j < n implies {
                let slot = #[trigger] af_edge_slot(vs0, es0, vis, base, j);
                &&& edge_in_range(self@.edges, slot)
                &&& (af_found(vs0, es0, vis, j) is None ==> (slot as int) + 1 < self@.edges.len())
            } by {
                assert(self@.edges.len() == base + 2 * af_new_count(vs0, es0, vis, n as int));
                match af_found(vs0, es0, vis, j) {
                    Some(h) => {
                        assert(!is_new_flags@[j]);
                        assert(af_found(vs0, es0, vis, j) == Some(found_edges@[j].index));
                        assert(h == found_edges@[j].index);
                        assert(edge_in_range(es0, h));
                        assert((h as int) < base);
                        assert(base <= self@.edges.len());
                    },
                    None => {
                        lemma_af_new_count_bounds(vs0, es0, vis, j);
                        let c = af_new_count(vs0, es0, vis, j);
                        assert(0 <= c);
                        assert(af_new_count(vs0, es0, vis, j + 1) == c + 1);
                        assert(af_new_count(vs0, es0, vis, j + 1) <= af_new_count(
                            vs0,
                            es0,
                            vis,
                            n as int,
                        ));
                        assert(base + 2 * c + 2 <= self@.edges.len());
                        assert(self@.edges.len() <= UNSET_VALUE);
                        assert(0 <= base + 2 * c < UNSET_VALUE);
                        assert(af_edge_slot(vs0, es0, vis, base, j) as int == base + 2 * c);
                    },
                }
            }
        }
        edge_slots
    }

    /// Whether two consecutive polygon sides both have pre-existing
    /// half-edges, a relinking case this engine does not support.
    #[verifier::loop_isolation(false)]
    fn has_adjacent_found_sides(&self, indices: &Vec<VertexIndex>, is_new_flags: &Vec<bool>) -> (r:
        bool)
        requires
            ({
                let vis = indices@.map_values(|v: VertexIndex| v.index);
                &&& vis.len() >= 1
                &&& is_new_flags@.len() == vis.len()
                &&& forall|j: int|
                    0 <= j < vis.len() ==> (#[trigger] is_new_flags@[j]) == (af_found(
                        self@.vertices,
                        self@.edges,
                        vis,
                        j,
                    ) is None)
            }),
        ensures
            ({
                let vis = indices@.map_values(|v: VertexIndex| v.index);
                r == exists|i: int|
                    0 <= i < vis.len() && (#[trigger] af_found(self@.vertices, self@.edges, vis, i))
                        is Some && af_found(
                        self@.vertices,
                        self@.edges,
                        vis,
                        af_next_pos(vis.len() as int, i),
                    ) is Some
            }),
    {
        let ghost vis = indices@.map_values(|v: VertexIndex| v.index);
        let n = indices.len();
        let mut i: usize = 0;
        while i < n
            invariant
                i <= n,
                forall|j: int|
                    0 <= j < i ==> !((#[trigger] af_found(self@.vertices, self@.edges, vis, j))
                        is Some && af_found(
                        self@.vertices,
                        self@.edges,
                        vis,
                        af_next_pos(n as int, j),
                    ) is Some),
            decreases n - i,
        {
            let ni = if i + 1 == n {
                0
            } else {
                i + 1
            };
            if !is_new_flags[i] && !is_new_flags[ni] {
                return true;
            }
            i = i + 1;
        }
        false
    }

    /// Link the whole face loop, side by side, as `af_link_sweep`
    /// describes.
    #[verifier::loop_isolation(false)]
    fn link_face_sides(
        &mut self,
        indices: &Vec<VertexIndex>,
        edge_slots: &Vec<HalfEdgeIndex>,
        is_new_flags: &Vec<bool>,
        had_fan_flags: &Vec<bool>,
        Ghost(vs0): Ghost<Seq<Vertex>>,
        Ghost(es0): Ghost<Seq<HalfEdge>>,
        Ghost(base): Ghost<int>,
    )
        requires
            ({
                let vis = indices@.map_values(|v: VertexIndex| v.index);
                let n = vis.len() as int;
                &&& n >= 1
                &&& edge_slots@.len() == n
                &&& is_new_flags@.len() == n
                &&& had_fan_flags@.len() == n
                &&& forall|i: int|
                    0 <= i < n ==> ((#[trigger] indices@[i]).index as int) < old(
                        self,
                    )@.vertices.len()
                &&& forall|j: int|
                    0 <= j < n ==> (#[trigger] edge_slots@[j]).index == af_edge_slot(
                        vs0,
                        es0,
                        vis,
                        base,
                        j,
                    )
                &&& forall|j: int|
                    0 <= j < n ==> (#[trigger] is_new_flags@[j]) == (af_found(vs0, es0, vis, j)
                        is None)
                &&& forall|j: int|
                    0 <= j < n ==> (#[trigger] had_fan_flags@[j]) == (vs0[vis[j] as int].outgoing_half_edge.index
                        != UNSET_VALUE)
                &&& forall|j: int|
                    0 <= j < n ==> edge_in_range(
                        old(self)@.edges,
                        #[trigger] af_edge_slot(vs0, es0, vis, base, j),
                    ) && (af_found(vs0, es0, vis, j) is None ==> (af_edge_slot(
                        vs0,
                        es0,
                        vis,
                        base,
                        j,
                    ) as int) + 1 < old(self)@.edges.len())
            }),
        ensures
            ({
                let vis = indices@.map_values(|v: VertexIndex| v.index);
                let n = vis.len() as nat;
                &&& final(self)@.vertices == af_link_sweep(
                    vs0,
                    es0,
                    vis,
                    base,
                    old(self)@.vertices,
                    old(self)@.edges,
                    n,
                ).0
                &&& final(self)@.edges == af_link_sweep(
                    vs0,
                    es0,
                    vis,
                    base,
                    old(self)@.vertices,
                    old(self)@.edges,
                    n,
                ).1
                &&& final(self)@.faces == old(self)@.faces
                &&& final(self)@.edges.len() == old(self)@.edges.len()
                &&& final(self)@.vertices.len() == old(self)@.vertices.len()
            }),
    {
        let ghost vis = indices@.map_values(|v: VertexIndex| v.index);
        let ghost avs = self@.vertices;
        let ghost aes = self@.edges;
        proof {
            assert forall|j: int| 0 <= j < vis.len() implies vis[j] == (
            #[trigger] indices@[j]).index by {
                assert(vis[j] == indices@.map_values(|v: VertexIndex| v.index)[j]);
            }
        }
        let n = indices.len();
        let mut i: usize = 0;
        while i < n
            invariant
                i <= n,
                self@.vertices == af_link_sweep(vs0, es0, vis, base, avs, aes, i as nat).0,
                self@.edges == af_link_sweep(vs0, es0, vis, base, avs, aes, i as nat).1,
                self@.faces == old(self)@.faces,
                self@.vertices.len() == avs.len(),
                self@.edges.len() == aes.len(),
            decreases n - i,
        {
            let ni = if i + 1 == n {
                0
            } else {
                i + 1
            };
            let e_i = edge_slots[i];
            let e_ii = edge_slots[ni];
            let v2 = indices[ni];
            let new_i = is_new_flags[i];
            let new_ii = is_new_flags[ni];
            proof {
                assert(v2.index == vis[af_next_pos(n as int, i as int)]);
                assert(af_next_pos(n as int, i as int) == ni as int);
            }
            self.link_side(
                e_i,
                e_ii,
                v2,
                new_i,
                new_ii,
                had_fan_flags[ni],
                Ghost(vs0),
                Ghost(es0),
                Ghost(vis),
                Ghost(base),
                Ghost(i as int),
            );
            i = i + 1;
        }
    }

    /// Insert a face over the polygon `indices`, reusing each side's
    /// existing boundary half-edge and allocating fresh pairs for the rest,
    /// then linking the loop.  Rejections (fewer than three vertices, a
    /// vertex already interior, a side whose existing half-edge is no
    /// longer boundary, or two consecutive pre-existing sides) return the
    /// unset face index and leave the mesh unchanged: every check runs
    /// before any mutation.
    #[verifier::loop_isolation(false)]
    #[verifier::rlimit(100)]
    pub fn add_face_by_indices(&mut self, indices: Vec<VertexIndex>) -> (r: FaceIndex)
        requires
            forall|i: int|
                0 <= i < indices@.len() ==> ((#[trigger] indices@[i]).index as int) < old(
                    self,
                )@.vertices.len(),
            old(self)@.edges.len() + 2 * indices@.len() <= UNSET_VALUE,
            old(self)@.faces.len() < UNSET_VALUE,
        ensures
            ({
                let vis = indices@.map_values(|v: VertexIndex| v.index);
                if af_rejected(old(self)@.vertices, old(self)@.edges, vis) {
                    &&& r.index == UNSET_VALUE
                    &&& final(self)@.vertices == old(self)@.vertices
                    &&& final(self)@.edges == old(self)@.edges
                    &&& final(self)@.faces == old(self)@.faces
                } else {
                    let m = add_face_model(
                        old(self)@.vertices,
                        old(self)@.edges,
                        old(self)@.faces,
                        vis,
                    );
                    &&& r.index == old(self)@.faces.len()
                    &&& final(self)@.vertices == m.vertices
                    &&& final(self)@.edges == m.edges
                    &&& final(self)@.faces == m.faces
                    &&& final(self)@.edges.len() == old(self)@.edges.len() + 2 * af_new_count(
                        old(self)@.vertices,
                        old(self)@.edges,
                        vis,
                        vis.len() as int,
                    )
                    &&& final(self)@.vertices.len() == old(self)@.vertices.len()
                }
            }),
    {
        let ghost vs0 = self@.vertices;
        let ghost es0 = self@.edges;
        let ghost fs0 = self@.faces;
        let ghost vis = indices@.map_values(|v: VertexIndex| v.index);
        proof {
            assert(vis.len() == indices@.len());
        }
        let n = indices.len();

        // Reject degenerate polygons before touching anything.
        if n < 3 {
            return FaceIndex { index: UNSET_VALUE };
        }
        // Validation pass: every vertex that already has an outgoing
        // half-edge must sit on the boundary there, else the new face would
        // make it non-manifold.  Also record which vertices already own a
        // fan, for the linking pass.
        let had_fan_flags = match self.validate_face_vertices(&indices) {
            None => {
                return FaceIndex { index: UNSET_VALUE };
            },
            Some(flags) => flags,
        };
        // Search pass: look up an existing half-edge for every polygon
        // side; a found side must still border the boundary, else the edge
        // already carries two faces.
        let (found_edges, is_new_flags) = match self.search_face_sides(&indices) {
            None => {
                return FaceIndex { index: UNSET_VALUE };
            },
            Some(fe) => fe,
        };
        // Two consecutive pre-existing sides would need a relinking case
        // this engine does not support; reject rather than corrupt.
        if self.has_adjacent_found_sides(&indices, &is_new_flags) {
            return FaceIndex { index: UNSET_VALUE };
        }
        proof {
            lemma_af_not_rejected(vs0, es0, vis);
        }
        let ghost base = es0.len() as int;
        let face_index = FaceIndex { index: self.faces.len() as u32 };

        // Allocation pass: create the missing pairs and attach the new face
        // to the reused half-edges.
        let edge_slots = self.allocate_face_sides(
            &indices,
            &found_edges,
            &is_new_flags,
            face_index,
        );
        // Linking pass: wire the loop's inner links and the boundary-side
        // outer links, case by case.
        self.link_face_sides(
            &indices,
            &edge_slots,
            &is_new_flags,
            &had_fan_flags,
            Ghost(vs0),
            Ghost(es0),
            Ghost(base),
        );
        // The face record, naming the loop's first half-edge.
        let first_edge = edge_slots[0];
        self.add_face(Face::new(first_edge))
    }

    /// Remove the face at `index`: walk its bounding loop once; fully erase
    /// each pair that already borders the boundary, demote every other
    /// bounding edge to a boundary edge (repointing its start vertex's
    /// outgoing half-edge at it), then tombstone the face.  A face whose
    /// loop cannot be walked is left untouched.
    #[verifier::loop_isolation(false)]
    pub fn remove_face(&mut self, index: FaceIndex)
        requires
            (index.index as int) < old(self)@.faces.len(),
        ensures
            ({
                let first = old(self)@.faces[index.index as int].first_half_edge.index;
                if edge_in_range(old(self)@.edges, first) && face_loop_exists(
                    old(self)@.edges,
                    first,
                ) {
                    let c = face_cycle(old(self)@.edges, first);
                    let swept = remove_face_sweep(
                        old(self)@.vertices,
                        old(self)@.edges,
                        c,
                        c.len() as nat,
                    );
                    &&& final(self)@.vertices == swept.0
                    &&& final(self)@.edges == swept.1
                    &&& final(self)@.faces == old(self)@.faces.update(
                        index.index as int,
                        Face { first_half_edge: HalfEdgeIndex { index: UNSET_VALUE } },
                    )
                } else {
                    &&& final(self)@.vertices == old(self)@.vertices
                    &&& final(self)@.edges == old(self)@.edges
                    &&& final(self)@.faces == old(self)@.faces
                }
            }),
    {
        let ghost first = self@.faces[index.index as int].first_half_edge.index;
        let ghost vs0 = self@.vertices;
        let ghost es0 = self@.edges;
        match self.face_half_edge_indices(index) {
            None => {},
            Some(loop_edges) => {
                let ghost c = face_cycle(es0, first);
                proof {
                    assert(loop_edges@.map_values(|h: HalfEdgeIndex| h.index) == c);
                    assert forall|j: int| 0 <= j < c.len() implies c[j] == (#[trigger] loop_edges@[j]).index by {
                        assert(c[j] == loop_edges@.map_values(|h: HalfEdgeIndex| h.index)[j]);
                    }
                }
                let mut i: usize = 0;
                while i < loop_edges.len()
                    invariant
                        i <= loop_edges@.len(),
                        self@.vertices == remove_face_sweep(vs0, es0, c, i as nat).0,
                        self@.edges == remove_face_sweep(vs0, es0, c, i as nat).1,
                        self@.faces == old(self)@.faces,
                    decreases loop_edges@.len() - i,
                {
                    let e = loop_edges[i];
                    let p = HalfEdgeCollection::edge_pair_index(e);
                    if e.index != UNSET_VALUE && (e.index as usize) < self.edges.len()
                        && p.index != UNSET_VALUE && (p.index as usize) < self.edges.len() {
                        let own_face = self.edges.get(e).adjacent_face;
                        let pair_face = self.edges.get(p).adjacent_face;
                        if own_face.index == UNSET_VALUE || pair_face.index == UNSET_VALUE {
                            if self.pair_removal_check(e) {
                                self.remove_half_edge_pair(e);
                            }
                        } else {
                            let mut he = *self.edges.get(e);
                            let sv = he.start_vertex;
                            he.adjacent_face = FaceIndex { index: UNSET_VALUE };
                            self.edges.set(e, he);
                            if (sv.index as usize) < self.vertices.len() {
                                let mut v = *self.vertices.get(sv);
                                v.outgoing_half_edge = e;
                                self.vertices.set(sv, v);
                            }
                        }
                    }
                    i = i + 1;
                    proof {
                        let prev = remove_face_sweep(vs0, es0, c, (i - 1) as nat);
                        assert(remove_face_sweep(vs0, es0, c, i as nat) == remove_face_edge_step(
                            prev.0,
                            prev.1,
                            c[i - 1],
                        ));
                    }
                }
                self.faces.set(index, Face::unset());
            },
        }
    }

    /// All half-edges bounding the face at `index`, in loop order from its
    /// first half-edge; none when the face is unused or its loop does not
    /// close (a topology fault).
    pub fn face_half_edge_indices(&self, index: FaceIndex) -> (r: Option<Vec<HalfEdgeIndex>>)
        requires
            (index.index as int) < self@.faces.len(),
        ensures
            ({
                let first = self@.faces[index.index as int].first_half_edge.index;
                &&& (r.is_some() <==> edge_in_range(self@.edges, first) && face_loop_exists(
                    self@.edges,
                    first,
                ))
                &&& (r matches Some(v) ==> {
                    &&& v@.map_values(|h: HalfEdgeIndex| h.index) == face_cycle(self@.edges, first)
                    &&& face_closes_at(self@.edges, first, v@.len() as nat)
                    &&& 1 <= v@.len() <= CIRCULATOR_LIMIT
                })
            }),
    {
        self.edges.face_circulator(self.faces.get(index).first_half_edge)
    }

    /// Sweep the face arena left-to-right with a write marker: copy each
    /// used face down to the marker, rewrite the adjacent face of every
    /// half-edge in its loop to the new index, and trim the tail.
    #[verifier::loop_isolation(false)]
    pub fn face_compact(&mut self)
        requires
            old(self)@.faces.len() <= UNSET_VALUE,
        ensures
            final(self)@ == face_compact_model(old(self)@),
            final(self)@.faces == live_faces(old(self)@.faces),
            final(self)@.edges.len() == old(self)@.edges.len(),
            final(self)@.vertices == old(self)@.vertices,
            forall|j: int|
                0 <= j < final(self)@.faces.len() ==> !face_unused(final(self)@.faces[j]),
    {
        let ghost es0 = self@.edges;
        let ghost fs0 = self@.faces;
        let ghost used = |f: Face| !face_unused(f);
        let count = self.faces.len();
        let mut marker = FaceIndex::new(0);
        let mut i: usize = 0;
        proof {
            assert(fs0.subrange(0, 0) =~= Seq::<Face>::empty());
            assert(Seq::<Face>::empty().filter(used) =~= Seq::<Face>::empty()) by {
                reveal(Seq::filter);
            }
        }
        while i < count
            invariant
                i <= count,
                marker.index <= i,
                marker.index as nat == face_compact_sweep(es0, fs0, i as nat).2,
                self@.edges == face_compact_sweep(es0, fs0, i as nat).0,
                self@.faces == face_compact_sweep(es0, fs0, i as nat).1,
                self@.vertices == old(self)@.vertices,
                self@.faces.len() == fs0.len(),
                self@.edges.len() == es0.len(),
                self@.faces.subrange(0, marker.index as int) == fs0.subrange(0, i as int).filter(
                    used,
                ),
                forall|j: int| marker.index <= j < fs0.len() ==> self@.faces[j] == fs0[j],
            decreases count - i,
        {
            let ghost sweep_pre = face_compact_sweep(es0, fs0, i as nat);
            let iter = FaceIndex::new(i as u32);
            let ghost pre_sub = self@.faces.subrange(0, marker.index as int);
            if !self.faces.get(iter).is_unused() {
                if marker.index < iter.index {
                    let moved = *self.faces.get(iter);
                    self.faces.set(marker, moved);
                    let ghost es1 = self@.edges;
                    let first = moved.first_half_edge;
                    match self.edges.face_circulator(first) {
                        None => {},
                        Some(loop_edges) => {
                            let ghost c = face_cycle(es1, first.index);
                            proof {
                                assert(loop_edges@.map_values(|h: HalfEdgeIndex| h.index) == c);
                                assert forall|j: int| 0 <= j < c.len() implies c[j] == (
                                #[trigger] loop_edges@[j]).index by {
                                    assert(c[j] == loop_edges@.map_values(
                                        |h: HalfEdgeIndex| h.index,
                                    )[j]);
                                }
                                assert(face_closes_at(es1, first.index, loop_edges@.len() as nat));
                            }
                            let ghost fs_mid = self@.faces;
                            let mut k: usize = 0;
                            while k < loop_edges.len()
                                invariant
                                    k <= loop_edges@.len(),
                                    self@.edges == set_loop_faces(es1, c, marker.index, k as nat),
                                    self@.edges.len() == es1.len(),
                                    self@.faces == fs_mid,
                                    self@.vertices == old(self)@.vertices,
                                decreases loop_edges@.len() - k,
                            {
                                let e = loop_edges[k];
                                proof {
                                    assert(e.index == face_walk(es1, first.index, k as nat));
                                    assert(edge_in_range(es1, e.index));
                                }
                                let mut he = *self.edges.get(e);
                                he.adjacent_face = marker;
                                self.edges.set(e, he);
                                k = k + 1;
                            }
                            proof {
                                assert(self@.edges == set_loop_faces(
                                    es1,
                                    c,
                                    marker.index,
                                    c.len() as nat,
                                ));
                            }
                        },
                    }
                } else {
                    proof {
                        assert(self@.faces.subrange(0, marker.index as int + 1) =~= pre_sub.push(
                            fs0[i as int],
                        ));
                    }
                }
                marker.increment();
            }
            i = i + 1;
            proof {
                lemma_filter_push(fs0.subrange(0, i - 1), used, fs0[i - 1]);
                assert(fs0.subrange(0, i as int) =~= fs0.subrange(0, i - 1).push(fs0[i - 1]));
                if used(fs0[i - 1]) {
                    assert(self@.faces.subrange(0, marker.index as int) =~= pre_sub.push(
                        fs0[i - 1],
                    ));
                }
            }
        }
        proof {
            assert(fs0.subrange(0, count as int) =~= fs0);
        }
        let ghost swept = face_compact_sweep(es0, fs0, count as nat);
        let ghost fs_swept = self@.faces;
        if (marker.index as usize) < count {
            let trim = count - marker.index as usize;
            self.faces.remove_range(marker, trim);
            proof {
                assert(self@.faces =~= fs_swept.subrange(0, marker.index as int));
            }
        } else {
            proof {
                assert(self@.faces =~= fs_swept.subrange(0, marker.index as int));
            }
        }
        proof {
            assert(self@.faces == swept.1.subrange(0, swept.2 as int));
        }
    }
}

} // verus!
