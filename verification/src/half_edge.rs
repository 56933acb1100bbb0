//! Half-edges, their arena, pairing, and the two bounded circulators.
//!
//! Half-edges are allocated in adjacent pairs: the half-edge at even arena
//! position `2k` and its opposite at `2k + 1`.  Pairing is therefore a pure
//! function of the index (flip the low bit) and can never fall out of sync
//! with the arena.  A half-edge is "unused" (a removal tombstone) exactly
//! when its `start_vertex` is unset; it is a boundary edge when it or its
//! pair has no adjacent face.

use vstd::prelude::*;

use crate::face::FaceIndex;
use crate::traits::{MeshPartCollection, UnsetValue};
use crate::vertex::VertexIndex;
use crate::UNSET_VALUE;

verus! {

/// The step bound of both circulators: a walk that has not closed after this
/// many steps is treated as a topology fault, not followed further.
pub const CIRCULATOR_LIMIT: u32 = 100;

/// An opaque 32-bit handle addressing a half-edge arena slot.
#[derive(PartialEq, Eq, Structural, Clone, Copy, Debug)]
pub struct HalfEdgeIndex {
    pub index: u32,
}

impl UnsetValue for HalfEdgeIndex {
    open spec fn spec_unset() -> HalfEdgeIndex {
        HalfEdgeIndex { index: UNSET_VALUE }
    }

    open spec fn spec_is_unset(&self) -> bool {
        self.index == UNSET_VALUE
    }

    fn unset() -> (r: HalfEdgeIndex) {
        HalfEdgeIndex { index: UNSET_VALUE }
    }

    fn is_unset(&self) -> (r: bool) {
        self.index == UNSET_VALUE
    }
}

impl HalfEdgeIndex {
    pub fn new(index: u32) -> (r: HalfEdgeIndex)
        ensures
            r.index == index,
    {
        HalfEdgeIndex { index }
    }

    pub fn increment(&mut self)
        requires
            old(self).index < UNSET_VALUE,
        ensures
            final(self).index == old(self).index + 1,
    {
        self.index = self.index + 1;
    }
}

/// The fully-unset half-edge, used as the removal tombstone.
pub open spec fn unset_half_edge() -> HalfEdge {
    HalfEdge {
        start_vertex: VertexIndex { index: UNSET_VALUE },
        adjacent_face: FaceIndex { index: UNSET_VALUE },
        next_edge: HalfEdgeIndex { index: UNSET_VALUE },
        previous_edge: HalfEdgeIndex { index: UNSET_VALUE },
    }
}

/// Whether a half-edge slot is a tombstone: no start vertex.
pub open spec fn half_edge_unused(e: HalfEdge) -> bool {
    e.start_vertex.index == UNSET_VALUE
}

/// One directed side of an undirected edge.
#[derive(PartialEq, Eq, Structural, Clone, Copy, Debug)]
pub struct HalfEdge {
    pub start_vertex: VertexIndex,
    pub adjacent_face: FaceIndex,
    pub next_edge: HalfEdgeIndex,
    pub previous_edge: HalfEdgeIndex,
}

impl HalfEdge {
    /// The removal tombstone: every field unset.
    pub fn unset() -> (r: HalfEdge)
        ensures
            r == unset_half_edge(),
    {
        HalfEdge {
            start_vertex: VertexIndex { index: UNSET_VALUE },
            adjacent_face: FaceIndex { index: UNSET_VALUE },
            next_edge: HalfEdgeIndex { index: UNSET_VALUE },
            previous_edge: HalfEdgeIndex { index: UNSET_VALUE },
        }
    }

    /// A fresh half-edge with no predecessor link yet.
    pub fn new(start_vertex: VertexIndex, adjacent_face: FaceIndex, next_edge: HalfEdgeIndex) -> (r:
        HalfEdge)
        ensures
            r == (HalfEdge {
                start_vertex,
                adjacent_face,
                next_edge,
                previous_edge: HalfEdgeIndex { index: UNSET_VALUE },
            }),
    {
        HalfEdge {
            start_vertex,
            adjacent_face,
            next_edge,
            previous_edge: HalfEdgeIndex { index: UNSET_VALUE },
        }
    }

    pub fn is_unused(&self) -> (r: bool)
        ensures
            r == half_edge_unused(*self),
    {
        self.start_vertex.index == UNSET_VALUE
    }
}

/// The arena position of the other half of `i`'s edge pair: flip the low
/// bit; the unset index is its own pair.
pub open spec fn pair_index(i: u32) -> u32 {
    if i == UNSET_VALUE {
        UNSET_VALUE
    } else if i % 2 == 0 {
        (i + 1) as u32
    } else {
        (i - 1) as u32
    }
}

/// Whether `i` addresses a slot of `es`: set, and within the arena.
pub open spec fn edge_in_range(es: Seq<HalfEdge>, i: u32) -> bool {
    i != UNSET_VALUE && (i as int) < es.len()
}

/// One step of a face-loop walk: follow `next_edge`.
pub open spec fn face_step(es: Seq<HalfEdge>, i: u32) -> u32 {
    es[i as int].next_edge.index
}

/// One step of a vertex-fan walk: follow the pair's `next_edge`, which is
/// the next half-edge out of the same start vertex.
pub open spec fn vertex_step(es: Seq<HalfEdge>, i: u32) -> u32 {
    es[pair_index(i) as int].next_edge.index
}

/// The half-edge reached from `start` after `k` face-loop steps.
pub open spec fn face_walk(es: Seq<HalfEdge>, start: u32, k: nat) -> u32
    decreases k,
{
    if k == 0 {
        start
    } else {
        face_step(es, face_walk(es, start, (k - 1) as nat))
    }
}

/// The half-edge reached from `start` after `k` vertex-fan steps.
pub open spec fn vertex_walk(es: Seq<HalfEdge>, start: u32, k: nat) -> u32
    decreases k,
{
    if k == 0 {
        start
    } else {
        vertex_step(es, vertex_walk(es, start, (k - 1) as nat))
    }
}

/// The first `n` stations of the face-loop walk all address arena slots.
pub open spec fn face_walk_ok(es: Seq<HalfEdge>, start: u32, n: nat) -> bool {
    forall|k: nat| k < n ==> edge_in_range(es, #[trigger] face_walk(es, start, k))
}

/// The first `n` stations of the vertex-fan walk, and their pairs, all
/// address arena slots.
pub open spec fn vertex_walk_ok(es: Seq<HalfEdge>, start: u32, n: nat) -> bool {
    forall|k: nat|
        k < n ==> edge_in_range(es, #[trigger] vertex_walk(es, start, k)) && edge_in_range(
            es,
            pair_index(vertex_walk(es, start, k)),
        )
}

/// The face-loop walk from `start` first returns to `start` after exactly
/// `n` steps, staying on arena slots the whole way.
pub open spec fn face_closes_at(es: Seq<HalfEdge>, start: u32, n: nat) -> bool {
    &&& 1 <= n
    &&& face_walk_ok(es, start, n)
    &&& face_walk(es, start, n) == start
    &&& forall|k: nat| 1 <= k < n ==> #[trigger] face_walk(es, start, k) != start
}

/// The vertex-fan walk from `start` first returns to `start` after exactly
/// `n` steps, staying on arena slots (with their pairs) the whole way.
pub open spec fn vertex_closes_at(es: Seq<HalfEdge>, start: u32, n: nat) -> bool {
    &&& 1 <= n
    &&& vertex_walk_ok(es, start, n)
    &&& vertex_walk(es, start, n) == start
    &&& forall|k: nat| 1 <= k < n ==> #[trigger] vertex_walk(es, start, k) != start
}

/// The face loop through `start` closes within the circulator's step bound.
pub open spec fn face_loop_exists(es: Seq<HalfEdge>, start: u32) -> bool {
    exists|n: nat| 1 <= n <= CIRCULATOR_LIMIT && face_closes_at(es, start, n)
}

/// The vertex fan through `start` closes within the circulator's step bound.
pub open spec fn vertex_loop_exists(es: Seq<HalfEdge>, start: u32) -> bool {
    exists|n: nat| 1 <= n <= CIRCULATOR_LIMIT && vertex_closes_at(es, start, n)
}

/// The face loop through `start`, as the sequence of half-edge positions the
/// circulator reports: `start` first, then each successive `next_edge`.
pub open spec fn face_cycle(es: Seq<HalfEdge>, start: u32) -> Seq<u32> {
    let n = choose|n: nat| 1 <= n <= CIRCULATOR_LIMIT && face_closes_at(es, start, n);
    Seq::new(n, |k: int| face_walk(es, start, k as nat))
}

/// The vertex fan through `start`, as the sequence of half-edge positions
/// the circulator reports.
pub open spec fn vertex_cycle(es: Seq<HalfEdge>, start: u32) -> Seq<u32> {
    let n = choose|n: nat| 1 <= n <= CIRCULATOR_LIMIT && vertex_closes_at(es, start, n);
    Seq::new(n, |k: int| vertex_walk(es, start, k as nat))
}

/// A face loop first closes after a unique number of steps.
pub proof fn lemma_face_closes_unique(es: Seq<HalfEdge>, start: u32, n1: nat, n2: nat)
    requires
        face_closes_at(es, start, n1),
        face_closes_at(es, start, n2),
    ensures
        n1 == n2,
{
    if n1 < n2 {
        assert(face_walk(es, start, n1) == start);
        assert(face_walk(es, start, n1) != start);
    }
    if n2 < n1 {
        assert(face_walk(es, start, n2) == start);
        assert(face_walk(es, start, n2) != start);
    }
}

/// A vertex fan first closes after a unique number of steps.
pub proof fn lemma_vertex_closes_unique(es: Seq<HalfEdge>, start: u32, n1: nat, n2: nat)
    requires
        vertex_closes_at(es, start, n1),
        vertex_closes_at(es, start, n2),
    ensures
        n1 == n2,
{
    if n1 < n2 {
        assert(vertex_walk(es, start, n1) == start);
        assert(vertex_walk(es, start, n1) != start);
    }
    if n2 < n1 {
        assert(vertex_walk(es, start, n2) == start);
        assert(vertex_walk(es, start, n2) != start);
    }
}

/// When the face loop closes after `n` steps, `face_cycle` is exactly the
/// `n` stations of the walk.
pub proof fn lemma_face_cycle_of(es: Seq<HalfEdge>, start: u32, n: nat)
    requires
        1 <= n <= CIRCULATOR_LIMIT,
        face_closes_at(es, start, n),
    ensures
        face_loop_exists(es, start),
        face_cycle(es, start).len() == n,
        forall|k: int| 0 <= k < n ==> face_cycle(es, start)[k] == face_walk(es, start, k as nat),
{
    assert(face_loop_exists(es, start));
    let m = choose|m: nat| 1 <= m <= CIRCULATOR_LIMIT && face_closes_at(es, start, m);
    lemma_face_closes_unique(es, start, n, m);
}

/// When the vertex fan closes after `n` steps, `vertex_cycle` is exactly the
/// `n` stations of the walk.
pub proof fn lemma_vertex_cycle_of(es: Seq<HalfEdge>, start: u32, n: nat)
    requires
        1 <= n <= CIRCULATOR_LIMIT,
        vertex_closes_at(es, start, n),
    ensures
        vertex_loop_exists(es, start),
        vertex_cycle(es, start).len() == n,
        forall|k: int| 0 <= k < n ==> vertex_cycle(es, start)[k] == vertex_walk(es, start, k as nat),
{
    assert(vertex_loop_exists(es, start));
    let m = choose|m: nat| 1 <= m <= CIRCULATOR_LIMIT && vertex_closes_at(es, start, m);
    lemma_vertex_closes_unique(es, start, n, m);
}

/// `e` with its `next_edge` link replaced.
pub open spec fn with_next(e: HalfEdge, n: u32) -> HalfEdge {
    HalfEdge { next_edge: HalfEdgeIndex { index: n }, ..e }
}

/// `e` with its `previous_edge` link replaced.
pub open spec fn with_prev(e: HalfEdge, p: u32) -> HalfEdge {
    HalfEdge { previous_edge: HalfEdgeIndex { index: p }, ..e }
}

/// The arena after linking `a` before `b`: `a.next_edge = b`, then
/// `b.previous_edge = a`.
pub open spec fn linked(es: Seq<HalfEdge>, a: u32, b: u32) -> Seq<HalfEdge> {
    let es1 = es.update(a as int, with_next(es[a as int], b));
    es1.update(b as int, with_prev(es1[b as int], a))
}

/// The start vertex of `i`'s pair: the logical head of edge `i`.
pub open spec fn end_vertex_of(es: Seq<HalfEdge>, i: u32) -> u32 {
    es[pair_index(i) as int].start_vertex.index
}

/// Whether the undirected edge at `i` borders the mesh boundary: it or its
/// pair has no adjacent face.
pub open spec fn edge_is_boundary(es: Seq<HalfEdge>, i: u32) -> bool {
    es[i as int].adjacent_face.index == UNSET_VALUE || es[pair_index(
        i,
    ) as int].adjacent_face.index == UNSET_VALUE
}

/// The half-edge arena.
#[derive(Debug)]
pub struct HalfEdgeCollection {
    edges: Vec<HalfEdge>,
}

impl View for HalfEdgeCollection {
    type V = Seq<HalfEdge>;

    closed spec fn view(&self) -> Seq<HalfEdge> {
        self.edges@
    }
}

impl MeshPartCollection<HalfEdge, HalfEdgeIndex> for HalfEdgeCollection {
    open spec fn model(&self) -> Seq<HalfEdge> {
        self@
    }

    open spec fn index_at(n: int) -> HalfEdgeIndex {
        HalfEdgeIndex { index: n as u32 }
    }

    fn new() -> (c: Self) {
        HalfEdgeCollection { edges: Vec::new() }
    }

    fn len(&self) -> (n: usize) {
        self.edges.len()
    }

    fn add(&mut self, element: HalfEdge) -> (i: HalfEdgeIndex) {
        self.edges.push(element);
        HalfEdgeIndex { index: (self.edges.len() - 1) as u32 }
    }
}

impl HalfEdgeCollection {
    /// Read the half-edge at `index`.
    pub fn get(&self, index: HalfEdgeIndex) -> (r: &HalfEdge)
        requires
            (index.index as int) < self@.len(),
        ensures
            *r == self@[index.index as int],
    {
        &self.edges[index.index as usize]
    }

    /// Overwrite the half-edge at `index`.
    pub fn set(&mut self, index: HalfEdgeIndex, e: HalfEdge)
        requires
            (index.index as int) < old(self)@.len(),
        ensures
            final(self)@ == old(self)@.update(index.index as int, e),
    {
        self.edges[index.index as usize] = e;
    }

    /// Physically delete the `count` slots starting at `start`; used by
    /// compaction after survivors have been moved to the front.
    pub fn remove_range(&mut self, start: HalfEdgeIndex, count: usize)
        requires
            (start.index as int) + count <= old(self)@.len(),
        ensures
            final(self)@ == old(self)@.subrange(0, start.index as int) + old(self)@.subrange(
                start.index as int + count,
                old(self)@.len() as int,
            ),
    {
        let ghost orig = self.edges@;
        let s = start.index as usize;
        let mut removed: usize = 0;
        while removed < count
            invariant
                removed <= count,
                s == start.index as usize,
                (s + count) as int <= orig.len(),
                self.edges@ == orig.subrange(0, s as int) + orig.subrange(
                    s as int + removed,
                    orig.len() as int,
                ),
            decreases count - removed,
        {
            self.edges.remove(s);
            removed = removed + 1;
            proof {
                assert(self.edges@ =~= orig.subrange(0, s as int) + orig.subrange(
                    s as int + removed,
                    orig.len() as int,
                ));
            }
        }
        proof {
            assert(self.edges@ =~= orig.subrange(0, s as int) + orig.subrange(
                s as int + count,
                orig.len() as int,
            ));
        }
    }

    /// Link `a` directly before `b` in the doubly-linked edge cycle.
    pub fn make_consecutive(&mut self, a: HalfEdgeIndex, b: HalfEdgeIndex)
        requires
            (a.index as int) < old(self)@.len(),
            (b.index as int) < old(self)@.len(),
        ensures
            final(self)@ == linked(old(self)@, a.index, b.index),
    {
        let mut ea = *self.get(a);
        ea.next_edge = b;
        self.set(a, ea);
        let mut eb = *self.get(b);
        eb.previous_edge = a;
        self.set(b, eb);
    }

    /// The index of `index`'s pair: flip the low bit, unset stays unset.
    pub fn edge_pair_index(index: HalfEdgeIndex) -> (r: HalfEdgeIndex)
        ensures
            r.index == pair_index(index.index),
    {
        if index.index == UNSET_VALUE {
            HalfEdgeIndex { index: UNSET_VALUE }
        } else if index.index % 2 == 0 {
            HalfEdgeIndex { index: index.index + 1 }
        } else {
            HalfEdgeIndex { index: index.index - 1 }
        }
    }

    /// The pair of the half-edge at `index`, or no result when `index` or
    /// its pair does not address an arena slot.
    pub fn edge_pair(&self, index: HalfEdgeIndex) -> (r: Option<&HalfEdge>)
        ensures
            r.is_some() <==> edge_in_range(self@, index.index) && edge_in_range(
                self@,
                pair_index(index.index),
            ),
            r matches Some(e) ==> *e == self@[pair_index(index.index) as int],
    {
        if index.index == UNSET_VALUE {
            return None;
        }
        if !((index.index as usize) < self.edges.len()) {
            return None;
        }
        let p = Self::edge_pair_index(index);
        if p.index == UNSET_VALUE {
            return None;
        }
        if !((p.index as usize) < self.edges.len()) {
            return None;
        }
        Some(self.get(p))
    }

    /// The logical head of edge `index`: the start vertex of its pair.
    pub fn end_vertex_index(&self, index: HalfEdgeIndex) -> (r: Option<VertexIndex>)
        ensures
            r.is_some() <==> edge_in_range(self@, index.index) && edge_in_range(
                self@,
                pair_index(index.index),
            ),
            r matches Some(v) ==> v == self@[pair_index(index.index) as int].start_vertex,
    {
        match self.edge_pair(index) {
            None => None,
            Some(edge) => Some(edge.start_vertex),
        }
    }

    /// All half-edges bounding the face (or boundary loop) that `index`'s
    /// loop belongs to, in walk order starting at `index`; no result when
    /// `index` does not address an arena slot or the loop fails to close
    /// within the step bound (a topology fault).
    #[verifier::loop_isolation(false)]
    pub fn face_circulator(&self, index: HalfEdgeIndex) -> (r: Option<Vec<HalfEdgeIndex>>)
        ensures
            r.is_some() <==> edge_in_range(self@, index.index) && face_loop_exists(
                self@,
                index.index,
            ),
            r matches Some(v) ==> {
                &&& v@.map_values(|h: HalfEdgeIndex| h.index) == face_cycle(self@, index.index)
                &&& face_closes_at(self@, index.index, v@.len() as nat)
                &&& 1 <= v@.len() <= CIRCULATOR_LIMIT
                &&& forall|j: int|
                    0 <= j < v@.len() ==> (#[trigger] v@[j]).index == face_walk(
                        self@,
                        index.index,
                        j as nat,
                    )
            },
    {
        let ghost es = self@;
        if index.index == UNSET_VALUE || !((index.index as usize) < self.edges.len()) {
            return None;
        }
        let mut cur: HalfEdgeIndex = index;
        let mut trail: Vec<HalfEdgeIndex> = Vec::new();
        trail.push(index);
        let mut steps: usize = 0;
        while steps < CIRCULATOR_LIMIT as usize
            invariant
                steps + 1 == trail@.len(),
                cur == trail@[trail@.len() - 1],
                cur.index == face_walk(es, index.index, steps as nat),
                edge_in_range(es, cur.index),
                forall|j: int|
                    0 <= j < trail@.len() ==> (#[trigger] trail@[j]).index == face_walk(
                        es,
                        index.index,
                        j as nat,
                    ),
                forall|k: nat| k < steps ==> edge_in_range(es, #[trigger] face_walk(es, index.index, k)),
                forall|k: nat| 1 <= k <= steps ==> #[trigger] face_walk(es, index.index, k) != index.index,
            decreases CIRCULATOR_LIMIT as usize - steps,
        {
            let next = self.get(cur).next_edge;
            proof {
                assert(next.index == face_walk(es, index.index, (steps + 1) as nat));
            }
            if next.index == index.index {
                proof {
                    let n = (steps + 1) as nat;
                    assert forall|k: nat| k < n implies edge_in_range(
                        es,
                        #[trigger] face_walk(es, index.index, k),
                    ) by {
                        if k == steps {
                            assert(face_walk(es, index.index, k) == cur.index);
                        }
                    }
                    assert(face_closes_at(es, index.index, n));
                    lemma_face_cycle_of(es, index.index, n);
                    assert(trail@.map_values(|h: HalfEdgeIndex| h.index) =~= face_cycle(
                        es,
                        index.index,
                    ));
                }
                return Some(trail);
            }
            if next.index == UNSET_VALUE || !((next.index as usize) < self.edges.len()) {
                proof {
                    if face_loop_exists(es, index.index) {
                        let n = choose|n: nat|
                            1 <= n <= CIRCULATOR_LIMIT && face_closes_at(es, index.index, n);
                        if n <= steps {
                            assert(face_walk(es, index.index, n) == index.index);
                            assert(face_walk(es, index.index, n) != index.index);
                        } else if n == steps + 1 {
                            assert(face_walk(es, index.index, n) == index.index);
                        } else {
                            assert(edge_in_range(
                                es,
                                face_walk(es, index.index, (steps + 1) as nat),
                            ));
                        }
                        assert(false);
                    }
                }
                return None;
            }
            cur = next;
            trail.push(cur);
            steps = steps + 1;
        }
        proof {
            if face_loop_exists(es, index.index) {
                let n = choose|n: nat|
                    1 <= n <= CIRCULATOR_LIMIT && face_closes_at(es, index.index, n);
                assert(face_walk(es, index.index, n) == index.index);
                assert(face_walk(es, index.index, n) != index.index);
            }
        }
        None
    }

    /// All half-edges that share edge `index`'s start vertex as their
    /// origin, in fan order starting at `index`; no result when `index` does
    /// not address an arena slot or the fan fails to close within the step
    /// bound (a topology fault).
    #[verifier::loop_isolation(false)]
    pub fn vertex_circulator(&self, index: HalfEdgeIndex) -> (r: Option<Vec<HalfEdgeIndex>>)
        ensures
            r.is_some() <==> edge_in_range(self@, index.index) && vertex_loop_exists(
                self@,
                index.index,
            ),
            r matches Some(v) ==> {
                &&& v@.map_values(|h: HalfEdgeIndex| h.index) == vertex_cycle(self@, index.index)
                &&& vertex_closes_at(self@, index.index, v@.len() as nat)
                &&& 1 <= v@.len() <= CIRCULATOR_LIMIT
                &&& forall|j: int|
                    0 <= j < v@.len() ==> (#[trigger] v@[j]).index == vertex_walk(
                        self@,
                        index.index,
                        j as nat,
                    )
            },
    {
        let ghost es = self@;
        if index.index == UNSET_VALUE || !((index.index as usize) < self.edges.len()) {
            return None;
        }
        let mut cur: HalfEdgeIndex = index;
        let mut trail: Vec<HalfEdgeIndex> = Vec::new();
        trail.push(index);
        let mut steps: usize = 0;
        while steps < CIRCULATOR_LIMIT as usize
            invariant
                steps + 1 == trail@.len(),
                cur == trail@[trail@.len() - 1],
                cur.index == vertex_walk(es, index.index, steps as nat),
                edge_in_range(es, cur.index),
                forall|j: int|
                    0 <= j < trail@.len() ==> (#[trigger] trail@[j]).index == vertex_walk(
                        es,
                        index.index,
                        j as nat,
                    ),
                forall|k: nat|
                    k < steps ==> edge_in_range(es, #[trigger] vertex_walk(es, index.index, k))
                        && edge_in_range(es, pair_index(vertex_walk(es, index.index, k))),
                forall|k: nat|
                    1 <= k <= steps ==> #[trigger] vertex_walk(es, index.index, k) != index.index,
            decreases CIRCULATOR_LIMIT as usize - steps,
        {
            let p = Self::edge_pair_index(cur);
            if p.index == UNSET_VALUE || !((p.index as usize) < self.edges.len()) {
                proof {
                    if vertex_loop_exists(es, index.index) {
                        let n = choose|n: nat|
                            1 <= n <= CIRCULATOR_LIMIT && vertex_closes_at(es, index.index, n);
                        if n <= steps {
                            assert(vertex_walk(es, index.index, n) == index.index);
                            assert(vertex_walk(es, index.index, n) != index.index);
                        } else {
                            assert(edge_in_range(
                                es,
                                pair_index(vertex_walk(es, index.index, steps as nat)),
                            ));
                        }
                        assert(false);
                    }
                }
                return None;
            }
            let next = self.get(p).next_edge;
            proof {
                assert(next.index == vertex_walk(es, index.index, (steps + 1) as nat));
            }
            if next.index == index.index {
                proof {
                    let n = (steps + 1) as nat;
                    assert forall|k: nat| k < n implies edge_in_range(
                        es,
                        #[trigger] vertex_walk(es, index.index, k),
                    ) && edge_in_range(es, pair_index(vertex_walk(es, index.index, k))) by {
                        if k == steps {
                            assert(vertex_walk(es, index.index, k) == cur.index);
                        }
                    }
                    assert(vertex_closes_at(es, index.index, n));
                    lemma_vertex_cycle_of(es, index.index, n);
                    assert(trail@.map_values(|h: HalfEdgeIndex| h.index) =~= vertex_cycle(
                        es,
                        index.index,
                    ));
                }
                return Some(trail);
            }
            if next.index == UNSET_VALUE || !((next.index as usize) < self.edges.len()) {
                proof {
                    if vertex_loop_exists(es, index.index) {
                        let n = choose|n: nat|
                            1 <= n <= CIRCULATOR_LIMIT && vertex_closes_at(es, index.index, n);
                        if n <= steps {
                            assert(vertex_walk(es, index.index, n) == index.index);
                            assert(vertex_walk(es, index.index, n) != index.index);
                        } else if n == steps + 1 {
                            assert(vertex_walk(es, index.index, n) == index.index);
                        } else {
                            assert(edge_in_range(
                                es,
                                vertex_walk(es, index.index, (steps + 1) as nat),
                            ));
                        }
                        assert(false);
                    }
                }
                return None;
            }
            cur = next;
            trail.push(cur);
            steps = steps + 1;
        }
        proof {
            if vertex_loop_exists(es, index.index) {
                let n = choose|n: nat|
                    1 <= n <= CIRCULATOR_LIMIT && vertex_closes_at(es, index.index, n);
                assert(vertex_walk(es, index.index, n) == index.index);
                assert(vertex_walk(es, index.index, n) != index.index);
            }
        }
        None
    }

    /// Whether edge `index` borders the boundary, or no result when `index`
    /// or its pair does not address an arena slot.
    pub fn is_boundary_index(&self, index: HalfEdgeIndex) -> (r: Option<bool>)
        ensures
            r.is_some() <==> edge_in_range(self@, index.index) && edge_in_range(
                self@,
                pair_index(index.index),
            ),
            r matches Some(b) ==> b == edge_is_boundary(self@, index.index),
    {
        match self.edge_pair(index) {
            None => None,
            Some(pair) => {
                let own_face = self.get(index).adjacent_face;
                Some(own_face.index == UNSET_VALUE || pair.adjacent_face.index == UNSET_VALUE)
            },
        }
    }
}

} // verus!
