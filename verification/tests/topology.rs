use saddle_procgen_mesh_ops::{FaceKind, HalfEdgeMesh, MeshError, MeshSnapshot, PolygonFace, VertexId};

type Mesh = HalfEdgeMesh<[f32; 3], ()>;

fn cube_positions() -> Vec<[f32; 3]> {
    vec![
        [-0.5, -0.5, 0.5],
        [0.5, -0.5, 0.5],
        [0.5, 0.5, 0.5],
        [-0.5, 0.5, 0.5],
        [-0.5, -0.5, -0.5],
        [0.5, -0.5, -0.5],
        [0.5, 0.5, -0.5],
        [-0.5, 0.5, -0.5],
    ]
}

fn unit_cube() -> Mesh {
    HalfEdgeMesh::unit_cube_with(cube_positions()).expect("cube")
}

fn unit_triangle() -> Mesh {
    HalfEdgeMesh::unit_triangle_with(vec![[-0.5, 0.0, 0.0], [0.5, 0.0, 0.0], [0.0, 0.75, 0.0]]).expect("triangle")
}

fn unit_quad() -> Mesh {
    HalfEdgeMesh::unit_quad_with(vec![[-0.5, -0.5, 0.0], [0.5, -0.5, 0.0], [0.5, 0.5, 0.0], [-0.5, 0.5, 0.0]])
        .expect("quad")
}

fn unit_tetrahedron() -> Mesh {
    HalfEdgeMesh::unit_tetrahedron_with(vec![
        [0.0, 0.75, 0.0],
        [-0.6, -0.35, 0.5],
        [0.6, -0.35, 0.5],
        [0.0, -0.35, -0.65],
    ])
    .expect("tetrahedron")
}

#[test]
fn triangle_build_has_boundary_loop() {
    let mesh = unit_triangle();
    assert_eq!(mesh.face_count(), 1);
    assert_eq!(mesh.boundary_face_count(), 1);
    assert_eq!(mesh.boundary_loops().len(), 1);
    assert!(!mesh.is_closed());
    assert!(mesh.is_manifold());
}

#[test]
fn cube_is_closed_manifold_and_connected() {
    let mesh = unit_cube();
    assert_eq!(mesh.face_count(), 6);
    assert!(mesh.is_closed());
    assert!(mesh.is_manifold());
    assert_eq!(mesh.connected_components().len(), 1);
}

#[test]
fn disconnected_quads_report_two_components() {
    let vertices = vec![
        [-2.0, -0.5, 0.0],
        [-1.0, -0.5, 0.0],
        [-1.0, 0.5, 0.0],
        [-2.0, 0.5, 0.0],
        [1.0, -0.5, 0.0],
        [2.0, -0.5, 0.0],
        [2.0, 0.5, 0.0],
        [1.0, 0.5, 0.0],
    ];
    let mesh: Mesh = HalfEdgeMesh::from_polygon_faces(
        vertices,
        vec![PolygonFace::new(vec![0, 1, 2, 3]), PolygonFace::new(vec![4, 5, 6, 7])],
    )
    .expect("disconnected quads");

    assert_eq!(mesh.connected_components().len(), 2);
    assert_eq!(mesh.boundary_loops().len(), 2);
}

#[test]
fn duplicate_directed_edge_is_rejected() {
    let vertices = vec![[0.0, 0.0, 0.0], [1.0, 0.0, 0.0], [0.0, 1.0, 0.0], [0.0, 0.0, 1.0]];
    let error = Mesh::from_polygon_faces(
        vertices,
        vec![PolygonFace::new(vec![0, 1, 2]), PolygonFace::new(vec![0, 1, 3])],
    )
    .expect_err("duplicate directed edge should fail");

    assert!(matches!(error, MeshError::DuplicateDirectedEdge { .. }));
    assert_eq!(error, MeshError::DuplicateDirectedEdge { from: VertexId(0), to: VertexId(1) });
}

#[test]
fn quad_face_vertices_follow_face_order() {
    let mesh = unit_quad();
    let face = mesh.face_ids()[0];
    let vertices = mesh.face_vertices(face).expect("vertices");
    assert_eq!(vertices, vec![VertexId(0), VertexId(1), VertexId(2), VertexId(3)]);
}

#[test]
fn cube_vertex_one_ring_visits_three_halfedges() {
    let mesh = unit_cube();
    let ring = mesh.vertex_outgoing_halfedges(VertexId(0)).expect("one ring");
    assert_eq!(ring.len(), 3);
}

#[test]
fn rebuild_reports_the_first_broken_rule() {
    let vertices = vec![[0.0, 0.0, 0.0], [1.0, 0.0, 0.0], [0.0, 1.0, 0.0]];
    let too_small = Mesh::from_polygon_faces(vertices.clone(), vec![PolygonFace::new(vec![0, 1])]);
    assert_eq!(too_small.expect_err("two corners"), MeshError::FaceTooSmall { count: 2 });

    let repeated = Mesh::from_polygon_faces(vertices.clone(), vec![PolygonFace::new(vec![0, 1, 1])]);
    assert_eq!(repeated.expect_err("repeated corner"), MeshError::DuplicateConsecutiveVertex { corner: 1 });

    let out_of_range = Mesh::from_polygon_faces(vertices.clone(), vec![PolygonFace::new(vec![0, 1, 7])]);
    assert!(matches!(out_of_range.expect_err("missing vertex"), MeshError::Validation(_)));

    let mut face = PolygonFace::new(vec![0, 1, 2]);
    face.loops = vec![(), ()];
    let mismatch = Mesh::from_polygon_faces(vertices, vec![face]);
    assert!(matches!(mismatch.expect_err("loop count"), MeshError::Validation(_)));
}

#[test]
fn snapshot_roundtrip_keeps_every_polygon() {
    let mesh = unit_cube();
    let snapshot = mesh.to_snapshot();
    assert_eq!(snapshot.vertices, cube_positions());
    let corners: Vec<Vec<usize>> = snapshot.faces.iter().map(|f| f.vertices.clone()).collect();
    assert_eq!(
        corners,
        vec![
            vec![0, 1, 2, 3],
            vec![5, 4, 7, 6],
            vec![4, 0, 3, 7],
            vec![1, 5, 6, 2],
            vec![3, 2, 6, 7],
            vec![4, 5, 1, 0],
        ]
    );
    let rebuilt = Mesh::from_snapshot(snapshot).expect("rebuild");
    let again: Vec<Vec<usize>> = rebuilt.to_snapshot().faces.iter().map(|f| f.vertices.clone()).collect();
    assert_eq!(again, corners);
    assert_eq!(rebuilt.edge_count(), 12);
    assert_eq!(rebuilt.halfedge_count(), 24);
}

#[test]
fn every_mesh_validates_and_twins_pair_up() {
    for mesh in [unit_cube(), unit_quad(), unit_triangle(), unit_tetrahedron()] {
        assert!(mesh.validate().is_ok());
        for h in mesh.halfedge_ids() {
            let twin = mesh.halfedge_twin(h).expect("twin");
            assert_eq!(mesh.halfedge_twin(twin).expect("twin of twin"), h);
            let next = mesh.halfedge_next(h).expect("next");
            assert_eq!(mesh.halfedge_prev(next).expect("prev of next"), h);
        }
    }
}

#[test]
fn boundary_faces_follow_interior_faces() {
    let mesh = unit_quad();
    assert_eq!(mesh.face_count(), 1);
    assert_eq!(mesh.total_face_count(), 2);
    let boundary = mesh.boundary_face_ids();
    assert_eq!(boundary.len(), 1);
    assert_eq!(mesh.face_kind(boundary[0]), Ok(FaceKind::Boundary));
    assert_eq!(mesh.face_kind(mesh.face_ids()[0]), Ok(FaceKind::Interior));
    let edges = mesh.edge_ids();
    assert_eq!(edges.len(), 4);
    assert!(edges.iter().all(|e| mesh.edge_is_boundary(*e) == Ok(true)));
}

#[test]
fn compacting_a_snapshot_drops_unused_vertices() {
    let mut snapshot: MeshSnapshot<u32, ()> =
        MeshSnapshot { vertices: vec![10, 11, 12, 13, 14], faces: vec![PolygonFace::new(vec![4, 1, 3])] };
    let remap = snapshot.compact_with_map();
    assert_eq!(remap, vec![None, Some(0), None, Some(1), Some(2)]);
    assert_eq!(snapshot.vertices, vec![11, 13, 14]);
    assert_eq!(snapshot.faces[0].vertices, vec![2, 0, 1]);
}

#[test]
fn out_of_range_ids_are_reported() {
    let mesh = unit_quad();
    assert_eq!(mesh.vertex_payload(VertexId(9)).err(), Some(MeshError::InvalidVertex(VertexId(9))));
    assert!(matches!(mesh.face_vertices(saddle_procgen_mesh_ops::FaceId(5)), Err(MeshError::InvalidFace(_))));
    assert!(matches!(mesh.edge_endpoints(saddle_procgen_mesh_ops::EdgeId(40)), Err(MeshError::InvalidEdge(_))));
    assert!(matches!(
        mesh.halfedge_origin(saddle_procgen_mesh_ops::HalfEdgeId(40)),
        Err(MeshError::InvalidHalfEdge(_))
    ));
}

#[test]
fn own_snapshot_rebuilds_after_payload_edits() {
    let mut mesh = unit_triangle();
    let extra = mesh.add_vertex_with_payload([2.0, 2.0, 0.0]);
    assert_eq!(extra, VertexId(3));
    let boundary = saddle_procgen_mesh_ops::FaceId(1);
    let payload = saddle_procgen_mesh_ops::FacePayload { material: Some(7), region: None };
    mesh.set_face_payload(boundary, payload).expect("boundary face payload");
    let rebuilt = Mesh::from_snapshot(mesh.to_snapshot()).expect("own snapshot rebuilds");
    assert_eq!(rebuilt.vertex_count(), 4);
    assert_eq!(rebuilt.face_count(), 1);
    assert_eq!(rebuilt.halfedge_count(), mesh.halfedge_count());
    assert_eq!(rebuilt.edge_count(), mesh.edge_count());
    assert_eq!(rebuilt.boundary_face_count(), 1);
}
