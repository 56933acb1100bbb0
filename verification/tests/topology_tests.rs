use half_mesh::face::FaceIndex;
use half_mesh::half_edge::{HalfEdgeCollection, HalfEdgeIndex};
use half_mesh::mesh::Mesh;
use half_mesh::point::Point;
use half_mesh::traits::UnsetValue;
use half_mesh::vertex::VertexIndex;

fn triangle_mesh() -> (Mesh, VertexIndex, VertexIndex, VertexIndex) {
    let mut mesh = Mesh::new();
    let v0 = mesh.add_vertex_position(Point::new());
    let v1 = mesh.add_vertex_position(Point::from_values((2.0f64).to_bits(), 0, 0));
    let v2 = mesh.add_vertex_position(Point::from_values((2.0f64).to_bits(), (2.0f64).to_bits(), 0));
    mesh.add_face_by_indices(vec![v0, v1, v2]);
    (mesh, v0, v1, v2)
}

#[test]
fn pairing_involution_values() {
    assert_eq!(HalfEdgeCollection::edge_pair_index(HalfEdgeIndex::new(0)), HalfEdgeIndex::new(1));
    assert_eq!(HalfEdgeCollection::edge_pair_index(HalfEdgeIndex::new(1)), HalfEdgeIndex::new(0));
    assert_eq!(HalfEdgeCollection::edge_pair_index(HalfEdgeIndex::new(7)), HalfEdgeIndex::new(6));
    assert!(HalfEdgeCollection::edge_pair_index(HalfEdgeIndex::unset()).is_unset());
    for e in 0u32..20u32 {
        let once = HalfEdgeCollection::edge_pair_index(HalfEdgeIndex::new(e));
        let twice = HalfEdgeCollection::edge_pair_index(once);
        assert_eq!(twice, HalfEdgeIndex::new(e));
    }
}

#[test]
fn boundary_symmetry_values() {
    let (mesh, _, _, _) = triangle_mesh();
    for e in 0u32..6u32 {
        let here = mesh.is_boundary_index(HalfEdgeIndex::new(e));
        let there =
            mesh.is_boundary_index(HalfEdgeCollection::edge_pair_index(HalfEdgeIndex::new(e)));
        assert_eq!(here, there);
        assert_eq!(here, Some(true));
    }
}

#[test]
fn triangle_scenario_counts() {
    let (mesh, v0, v1, v2) = triangle_mesh();
    assert_eq!(mesh.vertex_count(), 3);
    assert_eq!(mesh.half_edge_count(), 6);
    assert_eq!(mesh.face_count(), 1);
    assert_eq!(mesh.find_half_edge_index(v0, v1), Some(HalfEdgeIndex::new(0)));
    assert_eq!(mesh.find_half_edge_index(v1, v2), Some(HalfEdgeIndex::new(2)));
    assert_eq!(mesh.find_half_edge_index(v2, v0), Some(HalfEdgeIndex::new(4)));
}

#[test]
fn triangle_remove_then_compact_empties() {
    let (mut mesh, _, _, _) = triangle_mesh();
    mesh.remove_face(FaceIndex::new(0));
    mesh.compact();
    assert_eq!(mesh.vertex_count(), 0);
    assert_eq!(mesh.half_edge_count(), 0);
    assert_eq!(mesh.face_count(), 0);
}

#[test]
fn face_loop_of_triangle() {
    let (mesh, _, _, _) = triangle_mesh();
    let loop_edges = mesh.face_half_edge_indices(FaceIndex::new(0)).unwrap();
    assert_eq!(
        loop_edges,
        vec![HalfEdgeIndex::new(0), HalfEdgeIndex::new(2), HalfEdgeIndex::new(4)]
    );
}

#[test]
fn vertex_fan_of_triangle() {
    let (mesh, v0, v1, v2) = triangle_mesh();
    // Each corner of a lone triangle has exactly two outgoing half-edges.
    assert_eq!(mesh.get_vertex_circulator(v0).unwrap().len(), 2);
    assert_eq!(mesh.get_vertex_circulator(v1).unwrap().len(), 2);
    assert_eq!(mesh.get_vertex_circulator(v2).unwrap().len(), 2);
}

#[test]
fn shared_edge_is_reused() {
    // Two triangles sharing the edge between v0 and v2, inserted with
    // consistent winding: the second face claims the boundary side of the
    // shared pair and allocates pairs only for its two new sides.
    let mut mesh = Mesh::new();
    let v0 = mesh.add_vertex_position(Point::new());
    let v1 = mesh.add_vertex_position(Point::from_values((2.0f64).to_bits(), 0, 0));
    let v2 = mesh.add_vertex_position(Point::from_values((2.0f64).to_bits(), (2.0f64).to_bits(), 0));
    let v3 = mesh.add_vertex_position(Point::from_values(0, (2.0f64).to_bits(), 0));
    let f0 = mesh.add_face_by_indices(vec![v0, v1, v2]);
    let f1 = mesh.add_face_by_indices(vec![v0, v2, v3]);
    assert_eq!(f0, FaceIndex::new(0));
    assert_eq!(f1, FaceIndex::new(1));
    assert_eq!(mesh.face_count(), 2);
    assert_eq!(mesh.half_edge_count(), 10);
    assert_eq!(mesh.find_half_edge_index(v0, v2), Some(HalfEdgeIndex::new(5)));
    // The shared pair now carries a face on each side.
    assert_eq!(mesh.is_boundary_index(HalfEdgeIndex::new(4)), Some(false));
    assert_eq!(mesh.is_boundary_index(HalfEdgeIndex::new(5)), Some(false));
}

#[test]
fn degenerate_polygon_is_rejected() {
    let mut mesh = Mesh::new();
    let v0 = mesh.add_vertex_position(Point::new());
    let v1 = mesh.add_vertex_position(Point::from_values((1.0f64).to_bits(), 0, 0));
    let f = mesh.add_face_by_indices(vec![v0, v1]);
    assert!(f.is_unset());
    assert_eq!(mesh.face_count(), 0);
    assert_eq!(mesh.half_edge_count(), 0);
    assert_eq!(mesh.vertex_count(), 2);
}

#[test]
fn doubly_claimed_edge_is_rejected() {
    // After both sides of the v0-v2 pair carry faces, a third face over
    // that edge would be non-manifold and is rejected without mutation.
    let mut mesh = Mesh::new();
    let v0 = mesh.add_vertex_position(Point::new());
    let v1 = mesh.add_vertex_position(Point::from_values((2.0f64).to_bits(), 0, 0));
    let v2 = mesh.add_vertex_position(Point::from_values((2.0f64).to_bits(), (2.0f64).to_bits(), 0));
    let v3 = mesh.add_vertex_position(Point::from_values(0, (2.0f64).to_bits(), 0));
    mesh.add_face_by_indices(vec![v0, v1, v2]);
    mesh.add_face_by_indices(vec![v0, v2, v3]);
    let v4 = mesh.add_vertex_position(Point::from_values((3.0f64).to_bits(), (3.0f64).to_bits(), 0));
    let f = mesh.add_face_by_indices(vec![v0, v2, v4]);
    assert!(f.is_unset());
    assert_eq!(mesh.face_count(), 2);
    assert_eq!(mesh.half_edge_count(), 10);
}

#[test]
fn hole_refill_is_rejected() {
    // Filling the back of an existing triangle would reuse all three
    // half-edges at once; consecutive pre-existing sides are rejected.
    let (mut mesh, v0, v1, v2) = triangle_mesh();
    let f = mesh.add_face_by_indices(vec![v2, v1, v0]);
    assert!(f.is_unset());
    assert_eq!(mesh.face_count(), 1);
    assert_eq!(mesh.half_edge_count(), 6);
}

#[test]
fn fan_splice_at_shared_vertex() {
    // Two triangles sharing only the centre vertex: the second face's new
    // boundary sides are spliced into the centre's existing fan, which
    // stays a single closed cycle of four outgoing half-edges.
    let mut mesh = Mesh::new();
    let c = mesh.add_vertex_position(Point::new());
    let v0 = mesh.add_vertex_position(Point::from_values((1.0f64).to_bits(), 0, 0));
    let v1 = mesh.add_vertex_position(Point::from_values(0, (1.0f64).to_bits(), 0));
    let v2 = mesh.add_vertex_position(Point::from_values((-1.0f64).to_bits(), 0, 0));
    let v3 = mesh.add_vertex_position(Point::from_values(0, (-1.0f64).to_bits(), 0));
    let f0 = mesh.add_face_by_indices(vec![c, v0, v1]);
    let f1 = mesh.add_face_by_indices(vec![c, v2, v3]);
    assert_eq!(f0, FaceIndex::new(0));
    assert_eq!(f1, FaceIndex::new(1));
    assert_eq!(mesh.vertex_count(), 5);
    assert_eq!(mesh.half_edge_count(), 12);
    assert_eq!(mesh.face_count(), 2);
    let fan = mesh.get_vertex_circulator(c).unwrap();
    assert_eq!(fan.len(), 4);
    assert_eq!(mesh.find_half_edge_index(c, v0), Some(HalfEdgeIndex::new(0)));
    assert_eq!(mesh.find_half_edge_index(c, v1), Some(HalfEdgeIndex::new(5)));
    assert_eq!(mesh.find_half_edge_index(c, v2), Some(HalfEdgeIndex::new(6)));
    assert_eq!(mesh.find_half_edge_index(c, v3), Some(HalfEdgeIndex::new(11)));
}

#[test]
fn compact_across_interior_tombstones() {
    // A fan of three triangles around v0; removing the middle one leaves
    // tombstoned half-edges between survivors, so compaction must shift
    // later edges down and renumber every reference they carry.
    let mut mesh = Mesh::new();
    let v0 = mesh.add_vertex_position(Point::new());
    let v1 = mesh.add_vertex_position(Point::from_values((2.0f64).to_bits(), 0, 0));
    let v2 = mesh.add_vertex_position(Point::from_values((2.0f64).to_bits(), (1.0f64).to_bits(), 0));
    let v3 = mesh.add_vertex_position(Point::from_values((1.0f64).to_bits(), (2.0f64).to_bits(), 0));
    let v4 = mesh.add_vertex_position(Point::from_values(0, (2.0f64).to_bits(), 0));
    mesh.add_face_by_indices(vec![v0, v1, v2]);
    mesh.add_face_by_indices(vec![v0, v2, v3]);
    mesh.add_face_by_indices(vec![v0, v3, v4]);
    assert_eq!(mesh.half_edge_count(), 14);
    assert_eq!(mesh.face_count(), 3);

    mesh.remove_face(FaceIndex::new(1));
    mesh.compact();

    assert_eq!(mesh.vertex_count(), 5);
    assert_eq!(mesh.half_edge_count(), 12);
    assert_eq!(mesh.face_count(), 2);
    // The edges past the reclaimed pair moved down two slots; the demoted
    // shared edges and every reference to the moved ones follow suit.
    assert_eq!(mesh.find_half_edge_index(v0, v3), Some(HalfEdgeIndex::new(7)));
    assert_eq!(mesh.find_half_edge_index(v3, v0), Some(HalfEdgeIndex::new(6)));
    assert_eq!(mesh.get_vertex_circulator(v0).unwrap().len(), 4);
    assert_eq!(mesh.face_half_edge_indices(FaceIndex::new(0)).unwrap().len(), 3);
    assert_eq!(mesh.face_half_edge_indices(FaceIndex::new(1)).unwrap().len(), 3);
    for v in [v0, v1, v2, v3, v4] {
        assert!(mesh.get_vertex_circulator(v).is_some());
    }
}

#[test]
fn compact_twice_is_compact_once() {
    // A compacted mesh has no tombstones left, so compacting it again
    // changes nothing.
    let mut mesh = Mesh::new();
    let v0 = mesh.add_vertex_position(Point::new());
    let v1 = mesh.add_vertex_position(Point::from_values((2.0f64).to_bits(), 0, 0));
    let v2 = mesh.add_vertex_position(Point::from_values((2.0f64).to_bits(), (2.0f64).to_bits(), 0));
    let v3 = mesh.add_vertex_position(Point::from_values(0, (2.0f64).to_bits(), 0));
    mesh.add_face_by_indices(vec![v0, v1, v2]);
    mesh.add_face_by_indices(vec![v0, v2, v3]);
    mesh.remove_face(FaceIndex::new(0));
    mesh.compact();
    let vertex_count = mesh.vertex_count();
    let half_edge_count = mesh.half_edge_count();
    let face_count = mesh.face_count();
    let found = mesh.find_half_edge_index(VertexIndex::new(1), VertexIndex::new(0));
    let loop_edges = mesh.face_half_edge_indices(FaceIndex::new(0)).unwrap();
    mesh.compact();
    assert_eq!(mesh.vertex_count(), vertex_count);
    assert_eq!(mesh.half_edge_count(), half_edge_count);
    assert_eq!(mesh.face_count(), face_count);
    assert_eq!(mesh.find_half_edge_index(VertexIndex::new(1), VertexIndex::new(0)), found);
    assert_eq!(mesh.face_half_edge_indices(FaceIndex::new(0)).unwrap(), loop_edges);
}

#[test]
fn compact_renumbers_survivors() {
    // Remove one of two triangles, compact, and check that the survivors
    // were renumbered consistently: the remaining face's loop still
    // closes and the demoted shared edge is still reachable by search.
    let mut mesh = Mesh::new();
    let v0 = mesh.add_vertex_position(Point::new());
    let v1 = mesh.add_vertex_position(Point::from_values((2.0f64).to_bits(), 0, 0));
    let v2 = mesh.add_vertex_position(Point::from_values((2.0f64).to_bits(), (2.0f64).to_bits(), 0));
    let v3 = mesh.add_vertex_position(Point::from_values(0, (2.0f64).to_bits(), 0));
    mesh.add_face_by_indices(vec![v0, v1, v2]);
    mesh.add_face_by_indices(vec![v0, v2, v3]);
    mesh.remove_face(FaceIndex::new(0));
    mesh.compact();
    // v1 lost its last edge and is reclaimed; the rest survive.
    assert_eq!(mesh.vertex_count(), 3);
    assert_eq!(mesh.face_count(), 1);
    assert_eq!(mesh.half_edge_count(), 6);
    let loop_edges = mesh.face_half_edge_indices(FaceIndex::new(0)).unwrap();
    assert_eq!(loop_edges.len(), 3);
    // Old vertices v0, v2, v3 are now 0, 1, 2; the demoted shared edge
    // (once half-edge 4, from v2 to v0) is now half-edge 0.
    assert_eq!(
        mesh.find_half_edge_index(VertexIndex::new(1), VertexIndex::new(0)),
        Some(HalfEdgeIndex::new(0))
    );
}
