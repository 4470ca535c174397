use saddle_procgen_mesh_ops::{
    edge_adjacency, EdgeId, FaceId, HalfEdgeMesh, MeshBridgeConfig, MeshError, PolygonFace, VertexId,
};

type P = [f32; 3];
type Mesh = HalfEdgeMesh<P, ()>;

fn sub(a: P, b: P) -> P {
    [a[0] - b[0], a[1] - b[1], a[2] - b[2]]
}

fn add(a: P, b: P) -> P {
    [a[0] + b[0], a[1] + b[1], a[2] + b[2]]
}

fn scale(a: P, s: f32) -> P {
    [a[0] * s, a[1] * s, a[2] * s]
}

fn dot(a: P, b: P) -> f32 {
    a[0] * b[0] + a[1] * b[1] + a[2] * b[2]
}

fn lerp(a: P, b: P, t: f32) -> P {
    add(a, scale(sub(b, a), t))
}

fn length(a: P) -> f32 {
    dot(a, a).sqrt()
}

/// Newell normal of a polygon, normalised (zero when degenerate).
fn polygon_normal(points: &[P]) -> P {
    let mut n = [0.0f32; 3];
    for i in 0..points.len() {
        let c = points[i];
        let d = points[(i + 1) % points.len()];
        n[0] += (c[1] - d[1]) * (c[2] + d[2]);
        n[1] += (c[2] - d[2]) * (c[0] + d[0]);
        n[2] += (c[0] - d[0]) * (c[1] + d[1]);
    }
    let l = length(n);
    if l <= 1.0e-12 {
        [0.0; 3]
    } else {
        scale(n, 1.0 / l)
    }
}

fn centroid(points: &[P]) -> P {
    let mut c = [0.0f32; 3];
    for p in points {
        c = add(c, *p);
    }
    scale(c, 1.0 / points.len() as f32)
}

fn positions(mesh: &Mesh) -> Vec<P> {
    mesh.to_snapshot().vertices
}

fn unit_quad() -> Mesh {
    HalfEdgeMesh::unit_quad_with(vec![[-0.5, -0.5, 0.0], [0.5, -0.5, 0.0], [0.5, 0.5, 0.0], [-0.5, 0.5, 0.0]])
        .expect("quad")
}

fn unit_cube() -> Mesh {
    HalfEdgeMesh::unit_cube_with(vec![
        [-0.5, -0.5, 0.5],
        [0.5, -0.5, 0.5],
        [0.5, 0.5, 0.5],
        [-0.5, 0.5, 0.5],
        [-0.5, -0.5, -0.5],
        [0.5, -0.5, -0.5],
        [0.5, 0.5, -0.5],
        [-0.5, 0.5, -0.5],
    ])
    .expect("cube")
}

fn unit_tetrahedron() -> Mesh {
    HalfEdgeMesh::unit_tetrahedron_with(vec![
        [0.0, 0.75, 0.0],
        [-0.6, -0.35, 0.5],
        [0.6, -0.35, 0.5],
        [0.0, -0.35, -0.65],
    ])
    .expect("tetrahedron")
}

fn diamond_strip() -> Mesh {
    HalfEdgeMesh::from_polygon_faces(
        vec![[0.0, 1.0, 0.0], [-1.0, 0.0, 0.0], [1.0, 0.0, 0.0], [0.0, -1.0, 0.0]],
        vec![PolygonFace::new(vec![1, 2, 0]), PolygonFace::new(vec![2, 1, 3])],
    )
    .expect("diamond strip")
}

fn separated_quads() -> Mesh {
    HalfEdgeMesh::from_polygon_faces(
        vec![
            [-1.0, -1.0, 0.0],
            [1.0, -1.0, 0.0],
            [1.0, 1.0, 0.0],
            [-1.0, 1.0, 0.0],
            [-1.0, -1.0, 1.0],
            [1.0, -1.0, 1.0],
            [1.0, 1.0, 1.0],
            [-1.0, 1.0, 1.0],
        ],
        vec![PolygonFace::new(vec![0, 1, 2, 3]), PolygonFace::new(vec![7, 6, 5, 4])],
    )
    .expect("separated quads")
}

fn edge_between<V: Copy, L: Copy>(mesh: &HalfEdgeMesh<V, L>, a: usize, b: usize) -> EdgeId {
    *mesh
        .edge_ids()
        .iter()
        .find(|edge| {
            let (left, right) = mesh.edge_endpoints(**edge).expect("edge endpoints");
            (left.index() == a && right.index() == b) || (left.index() == b && right.index() == a)
        })
        .expect("edge between vertices")
}

fn midpoint(a: P, b: P) -> P {
    lerp(a, b, 0.5)
}

/// Flips an edge choosing the winding that keeps both new triangles facing like the old pair.
fn flip(mesh: &mut Mesh, edge: EdgeId) -> Result<(), MeshError> {
    let p = positions(mesh);
    mesh.flip_edge(edge, move |a, b, oa, ob| {
        let avg = add(polygon_normal(&[p[a], p[b], p[oa]]), polygon_normal(&[p[b], p[a], p[ob]]));
        dot(polygon_normal(&[p[oa], p[ob], p[b]]), avg) >= 0.0 && dot(polygon_normal(&[p[ob], p[oa], p[a]]), avg) >= 0.0
    })
}

fn split(mesh: &mut Mesh, edge: EdgeId) -> Result<VertexId, MeshError> {
    mesh.split_edge(edge, midpoint, |_, _| ())
}

fn poke(mesh: &mut Mesh, face: FaceId) -> Result<VertexId, MeshError> {
    let p = positions(mesh);
    let corners = mesh.face_vertices(face)?;
    let points: Vec<P> = corners.iter().map(|v| p[v.index()]).collect();
    mesh.poke_face(face, centroid(&points), ())
}

fn collapse(mesh: &mut Mesh, edge: EdgeId) -> Result<VertexId, MeshError> {
    let p = positions(mesh);
    let (a, b) = mesh.edge_endpoints(edge)?;
    mesh.collapse_edge(edge, midpoint(p[a.index()], p[b.index()]))
}

fn merge(mesh: &mut Mesh, tolerance: f32) -> Result<u32, MeshError> {
    let p = positions(mesh);
    mesh.merge_vertices_by(move |i, j| length(sub(p[i], p[j])) <= tolerance)
}

/// One Catmull-Clark level with the classic point rules (topology is what is checked).
fn catmull_clark(mesh: &mut Mesh) -> Result<(), MeshError> {
    let snapshot = mesh.to_snapshot();
    let (keys, _) = edge_adjacency(&snapshot.faces);
    let face_points: Vec<P> = snapshot
        .faces
        .iter()
        .map(|f| centroid(&f.vertices.iter().map(|v| snapshot.vertices[*v]).collect::<Vec<_>>()))
        .collect();
    let edge_points: Vec<P> = keys.iter().map(|(a, b)| midpoint(snapshot.vertices[*a], snapshot.vertices[*b])).collect();
    let centers = vec![(); snapshot.faces.len()];
    mesh.catmull_clark_step(snapshot.vertices.clone(), edge_points, face_points, centers)
}

fn loop_subdivide(mesh: &mut Mesh) -> Result<(), MeshError> {
    let snapshot = mesh.to_snapshot();
    let (keys, _) = edge_adjacency(&snapshot.faces);
    let edge_points: Vec<P> = keys.iter().map(|(a, b)| midpoint(snapshot.vertices[*a], snapshot.vertices[*b])).collect();
    let centers = vec![(); snapshot.faces.len()];
    mesh.loop_step(snapshot.vertices.clone(), edge_points, centers)
}

fn extrude(mesh: &mut Mesh, faces: &[FaceId], distance: f32) -> Result<(), MeshError> {
    let snapshot = mesh.to_snapshot();
    let p = snapshot.vertices.clone();
    let polys: Vec<Vec<usize>> = snapshot.faces.iter().map(|f| f.vertices.clone()).collect();
    let normal_of = {
        let p = p.clone();
        let polys = polys.clone();
        move |f: usize| polygon_normal(&polys[f].iter().map(|v| p[*v]).collect::<Vec<_>>())
    };
    let n1 = normal_of.clone();
    let n2 = normal_of.clone();
    let p2 = p.clone();
    let polys2 = polys.clone();
    mesh.extrude_faces(
        faces,
        move |f| length(normal_of(f)) > 0.0,
        move |f, k| add(p[polys[f][k]], scale(n1(f), distance)),
        move |f, k| {
            let corners = &polys2[f];
            let count = corners.len();
            let a = p2[corners[k]];
            let b = p2[corners[(k + 1) % count]];
            let lift = scale(n2(f), distance);
            let candidate = [a, b, add(b, lift), add(a, lift)];
            let center = centroid(&corners.iter().map(|v| p2[*v]).collect::<Vec<_>>());
            dot(polygon_normal(&candidate), sub(midpoint(a, b), center)) >= 0.0
        },
    )
}

#[test]
fn flip_edge_changes_the_diagonal() {
    let mut mesh = diamond_strip();
    let shared = edge_between(&mesh, 1, 2);
    flip(&mut mesh, shared).expect("flip");

    assert!(mesh.validate().is_ok());
    assert!(mesh.edge_ids().iter().any(|edge| {
        let (left, right) = mesh.edge_endpoints(*edge).expect("edge");
        (left.index(), right.index()) == (0, 3) || (left.index(), right.index()) == (3, 0)
    }));
}

#[test]
fn boundary_edge_flip_is_rejected() {
    let mut mesh = unit_quad();
    let edge = edge_between(&mesh, 0, 1);
    let error = flip(&mut mesh, edge).expect_err("boundary flip should fail");
    assert!(matches!(error, MeshError::BoundaryOperation { .. }));
}

#[test]
fn split_edge_inserts_a_midpoint_vertex() {
    let mut mesh = unit_quad();
    let edge = edge_between(&mesh, 0, 1);
    let vertex = split(&mut mesh, edge).expect("split edge");
    assert_eq!(mesh.vertex_count(), 5);
    assert!(vertex.index() < mesh.vertex_count());
    assert!(mesh.validate().is_ok());
    assert_eq!(*mesh.vertex_payload(vertex).expect("new vertex"), [0.0, -0.5, 0.0]);
}

#[test]
fn split_interior_edge_keeps_the_mesh_valid() {
    let mut mesh = diamond_strip();
    let edge = edge_between(&mesh, 1, 2);
    let vertex = split(&mut mesh, edge).expect("split shared edge");

    assert_eq!(mesh.vertex_count(), 5);
    assert!(vertex.index() < mesh.vertex_count());
    assert_eq!(mesh.face_count(), 2);
    assert!(mesh.validate().is_ok());
}

#[test]
fn collapse_edge_reduces_tetrahedron_vertex_count() {
    let mut mesh = unit_tetrahedron();
    let edge = edge_between(&mesh, 0, 1);
    collapse(&mut mesh, edge).expect("collapse");
    assert!(mesh.vertex_count() < 4);
    assert!(mesh.validate().is_ok());
}

#[test]
fn poke_face_turns_quad_into_four_triangles() {
    let mut mesh = unit_quad();
    let face = mesh.face_ids()[0];
    let center = poke(&mut mesh, face).expect("poke");
    assert_eq!(mesh.face_count(), 4);
    assert_eq!(mesh.vertex_count(), 5);
    assert_eq!(center, VertexId(4));
    assert_eq!(*mesh.vertex_payload(center).expect("center"), [0.0, 0.0, 0.0]);
}

#[test]
fn catmull_clark_cube_counts_match_expected() {
    let mut mesh = unit_cube();
    catmull_clark(&mut mesh).expect("catmull");
    assert_eq!(mesh.vertex_count(), 26);
    assert_eq!(mesh.edge_count(), 48);
    assert_eq!(mesh.face_count(), 24);
}

#[test]
fn loop_subdivision_tetrahedron_counts_match_expected() {
    let mut mesh = unit_tetrahedron();
    loop_subdivide(&mut mesh).expect("loop");
    assert_eq!(mesh.vertex_count(), 10);
    assert_eq!(mesh.edge_count(), 24);
    assert_eq!(mesh.face_count(), 16);
}

#[test]
fn single_face_extrusion_builds_top_and_side_faces() {
    let mut mesh = unit_quad();
    let face = mesh.face_ids()[0];
    extrude(&mut mesh, &[face], 0.5).expect("extrude");
    assert_eq!(mesh.face_count(), 5);
    assert_eq!(mesh.vertex_count(), 8);
}

#[test]
fn isolated_strip_bevel_replaces_two_triangles_with_three_faces() {
    let mut mesh = diamond_strip();
    let p = positions(&mesh);
    let edge = edge_between(&mesh, 1, 2);
    let width = 0.18f32;
    let toward = move |from: usize, to: usize| {
        let d = sub(p[to], p[from]);
        let l = length(d);
        if l <= 1.0e-6 {
            p[from]
        } else {
            add(p[from], scale(d, (width / l).clamp(0.08, 0.42)))
        }
    };
    mesh.bevel_edges(&[edge], toward, |_| true).expect("bevel");
    assert_eq!(mesh.face_count(), 3);
    assert_eq!(mesh.vertex_count(), 6);
    assert!(mesh.validate().is_ok());
}

#[test]
fn merge_vertices_respects_tolerance() {
    let mut mesh: Mesh = HalfEdgeMesh::from_polygon_faces(
        vec![[0.0, 0.0, 0.0], [1.0, 0.0, 0.0], [0.0, 1.0, 0.0], [0.0, 0.0, 0.001]],
        vec![PolygonFace::new(vec![0, 1, 2]), PolygonFace::new(vec![3, 2, 1])],
    )
    .expect("duplicated vertices");

    let merged = merge(&mut mesh, 0.01).expect("merge");
    assert!(merged > 0);
    assert_eq!(mesh.vertex_count(), 3);
}

#[test]
fn weld_by_position_and_attributes_preserves_uv_seams() {
    type Uv = Option<[u32; 2]>;
    fn uv(x: f32, y: f32) -> Uv {
        Some([x.to_bits(), y.to_bits()])
    }
    let mut face_a: PolygonFace<Uv> = PolygonFace::new(vec![0, 1, 2]);
    face_a.loops = vec![uv(0.0, 0.0), uv(1.0, 0.0), uv(1.0, 1.0)];
    let mut face_b: PolygonFace<Uv> = PolygonFace::new(vec![3, 4, 5]);
    face_b.loops = vec![uv(0.25, 0.0), uv(1.0, 1.0), uv(0.0, 1.0)];

    let mesh: HalfEdgeMesh<P, Uv> = HalfEdgeMesh::from_polygon_faces(
        vec![
            [-1.0, -1.0, 0.0],
            [1.0, -1.0, 0.0],
            [1.0, 1.0, 0.0],
            [-1.0, -1.0, 0.0],
            [1.0, 1.0, 0.0],
            [-1.0, 1.0, 0.0],
        ],
        vec![face_a, face_b],
    )
    .expect("mesh with duplicated seam vertices");

    let snapshot = mesh.to_snapshot();
    let p = snapshot.vertices.clone();
    let mut signatures: Vec<Vec<Uv>> = vec![Vec::new(); p.len()];
    for face in &snapshot.faces {
        for (corner, vertex) in face.vertices.iter().enumerate() {
            signatures[*vertex].push(face.loops[corner]);
        }
    }
    for signature in &mut signatures {
        signature.sort();
    }

    let mut position_only = mesh.duplicate();
    let mut attribute_aware = mesh;

    let p1 = p.clone();
    assert_eq!(
        position_only
            .merge_vertices_by(move |i, j| length(sub(p1[i], p1[j])) <= 0.001)
            .expect("position merge"),
        2
    );
    assert_eq!(position_only.vertex_count(), 4);

    let error = attribute_aware
        .merge_vertices_by(move |i, j| length(sub(p[i], p[j])) <= 0.001 && signatures[i] == signatures[j])
        .expect_err("attribute-aware weld should reject the surviving UV seam");
    assert!(matches!(error, MeshError::Validation(_)));
    assert_eq!(attribute_aware.vertex_count(), 6);
    assert!(attribute_aware.validate().is_ok());
}

#[test]
fn bridging_two_boundary_loops_creates_side_faces() {
    let mut mesh = separated_quads();
    assert_eq!(mesh.boundary_loops().len(), 2);

    mesh.bridge_boundary_loops(0, 1, &MeshBridgeConfig::new()).expect("bridge loops");

    assert_eq!(mesh.face_count(), 6);
    assert!(mesh.is_closed());
    assert!(mesh.validate().is_ok());
}

#[test]
fn successful_edit_sequences_remain_valid() {
    let sequences: Vec<Vec<u8>> = vec![
        vec![0],
        vec![1, 2],
        vec![2, 3, 0],
        vec![0, 0, 1, 4],
        vec![3, 1, 2, 0, 1],
        vec![4, 4, 2, 3, 1, 0, 2],
        vec![1, 1, 1, 0, 3],
    ];
    for ops in sequences {
        let mut mesh = unit_cube();
        for op in ops {
            let result: Result<(), MeshError> = match op {
                0 => {
                    let face = mesh.face_ids().first().copied();
                    face.map_or(Ok(()), |face| poke(&mut mesh, face).map(|_| ()))
                },
                1 => {
                    let edge = mesh.edge_ids().first().copied();
                    edge.map_or(Ok(()), |edge| split(&mut mesh, edge).map(|_| ()))
                },
                2 => mesh.triangulate_faces(),
                3 => merge(&mut mesh, 0.001).map(|_| ()),
                _ => Ok(()),
            };
            if result.is_ok() {
                assert!(mesh.validate().is_ok());
            }
        }
    }
}

#[test]
fn add_and_remove_face_round_trip() {
    let mut mesh = unit_quad();
    let removed = mesh.remove_face(FaceId(0)).expect("remove");
    assert_eq!(removed.vertices, vec![0, 1, 2, 3]);
    assert_eq!(mesh.face_count(), 0);
    let face = mesh.add_face(&[VertexId(0), VertexId(1), VertexId(2), VertexId(3)]).expect("add back");
    assert_eq!(face, FaceId(0));
    assert_eq!(mesh.face_vertex_ids(face).expect("corners"), vec![VertexId(0), VertexId(1), VertexId(2), VertexId(3)]);
    assert_eq!(mesh.remove_face(FaceId(7)).err(), Some(MeshError::InvalidFace(FaceId(7))));
}

#[test]
fn split_face_cuts_a_quad_into_two_triangles() {
    let mut mesh = unit_quad();
    let edge = mesh.split_face(FaceId(0), VertexId(0), VertexId(2)).expect("split face");
    assert_eq!(mesh.face_count(), 2);
    let (a, b) = mesh.edge_endpoints(edge).expect("chord");
    assert!((a.index(), b.index()) == (0, 2) || (a.index(), b.index()) == (2, 0));
    assert_eq!(mesh.face_vertex_ids(FaceId(0)).expect("first"), vec![VertexId(0), VertexId(1), VertexId(2)]);
    assert_eq!(mesh.face_vertex_ids(FaceId(1)).expect("second"), vec![VertexId(2), VertexId(3), VertexId(0)]);

    let mut quad = unit_quad();
    assert!(matches!(quad.split_face(FaceId(0), VertexId(0), VertexId(1)), Err(MeshError::UnsupportedOperation { .. })));
    assert!(matches!(quad.split_face(FaceId(0), VertexId(9), VertexId(1)), Err(MeshError::InvalidTopology(_))));
    assert!(matches!(quad.split_face(FaceId(3), VertexId(0), VertexId(2)), Err(MeshError::InvalidFace(_))));
}

#[test]
fn triangulation_fans_around_the_first_corner() {
    let mut mesh = unit_cube();
    mesh.triangulate_faces().expect("triangulate");
    assert_eq!(mesh.face_count(), 12);
    assert_eq!(mesh.face_vertex_ids(FaceId(0)).expect("t0"), vec![VertexId(0), VertexId(1), VertexId(2)]);
    assert_eq!(mesh.face_vertex_ids(FaceId(1)).expect("t1"), vec![VertexId(0), VertexId(2), VertexId(3)]);
    for face in mesh.face_ids() {
        assert_eq!(mesh.face_vertex_ids(face).expect("triangle").len(), 3);
    }
}

#[test]
fn separating_components_gives_one_mesh_each() {
    let mesh = separated_quads();
    let parts = mesh.separate_connected_components().expect("separate");
    assert_eq!(parts.len(), 2);
    for part in &parts {
        assert_eq!(part.face_count(), 1);
        assert_eq!(part.vertex_count(), 4);
    }
    assert_eq!(*parts[1].vertex_payload(VertexId(0)).expect("first of second"), [-1.0, -1.0, 1.0]);
}

#[test]
fn selection_errors_are_reported() {
    let mut mesh = unit_cube();
    assert_eq!(extrude(&mut mesh, &[], 0.5), Err(MeshError::EmptySelection("extrude_faces")));
    assert!(matches!(extrude(&mut mesh, &[FaceId(0), FaceId(2)], 0.5), Err(MeshError::UnsupportedOperation { .. })));
    assert_eq!(
        mesh.split_edge_ring(&[], midpoint, |_, _| ()),
        Err(MeshError::EmptySelection("split_edge_ring"))
    );
    assert_eq!(mesh.split_edge_ring(&[EdgeId(99)], midpoint, |_, _| ()), Err(MeshError::InvalidEdge(EdgeId(99))));
    assert!(matches!(mesh.bevel_edges(&[], |a, _| [a as f32; 3], |_| true), Err(MeshError::UnsupportedOperation { .. })));
    assert!(matches!(loop_subdivide(&mut mesh), Err(MeshError::RequiresTriangleFaces { .. })));
    let mut quad = unit_quad();
    assert!(matches!(
        quad.bridge_boundary_loops(0, 0, &MeshBridgeConfig::new()),
        Err(MeshError::UnsupportedOperation { .. })
    ));
    let edge = edge_between(&quad, 0, 1);
    assert!(matches!(collapse(&mut quad, edge), Err(MeshError::BoundaryOperation { .. })));
    assert!(matches!(
        quad.extrude_faces(&[FaceId(0)], |_| false, |_, _| [0.0; 3], |_, _| true),
        Err(MeshError::DegenerateFace(FaceId(0)))
    ));
}

#[test]
fn split_edge_ring_adds_one_vertex_per_distinct_edge() {
    let mut mesh = unit_cube();
    let e = edge_between(&mesh, 0, 1);
    let f = edge_between(&mesh, 2, 3);
    let created = mesh.split_edge_ring(&[e, f, e], midpoint, |_, _| ()).expect("ring");
    assert_eq!(created, vec![VertexId(8), VertexId(9)]);
    assert_eq!(mesh.vertex_count(), 10);
    assert!(mesh.validate().is_ok());
}

/// Shortest edge not yet tried (boundary edges skipped when asked), as the decimator wants.
fn shortest_edge(mesh: &Mesh, tried: &Vec<usize>, preserve_boundary: bool, minimum_edge_length: f32) -> Option<EdgeId> {
    let p = positions(mesh);
    let mut best: Option<(f32, EdgeId)> = None;
    for edge in mesh.edge_ids() {
        if tried.contains(&edge.index()) {
            continue;
        }
        if preserve_boundary && mesh.edge_is_boundary(edge).unwrap_or(true) {
            continue;
        }
        let (a, b) = mesh.edge_endpoints(edge).ok()?;
        let l = length(sub(p[a.index()], p[b.index()]));
        if l >= minimum_edge_length.max(0.0) && best.map_or(true, |(bl, _)| l < bl) {
            best = Some((l, edge));
        }
    }
    best.map(|(_, e)| e)
}

fn edge_midpoint(mesh: &Mesh, edge: EdgeId) -> P {
    let p = positions(mesh);
    let (a, b) = mesh.edge_endpoints(edge).expect("edge");
    midpoint(p[a.index()], p[b.index()])
}

#[test]
fn decimate_reduces_tetrahedron_face_count() {
    let mut mesh = unit_tetrahedron();
    let collapses = mesh
        .decimate_by(2, 32, |m: &Mesh, tried: &Vec<usize>| shortest_edge(m, tried, false, 0.0), edge_midpoint)
        .expect("tetrahedron decimation should succeed");

    assert!(collapses > 0);
    assert!(mesh.face_count() < 4);
    assert!(mesh.validate().is_ok());
}

#[test]
fn lod_chain_builds_progressively_smaller_triangle_meshes() {
    let mut mesh = unit_tetrahedron();
    loop_subdivide(&mut mesh).expect("subdivide");
    loop_subdivide(&mut mesh).expect("subdivide");
    assert_eq!(mesh.face_count(), 64);

    let lods = mesh
        .build_lod_chain_by(
            4,
            4,
            64,
            |faces| ((faces as f32) * 0.55).round() as usize,
            |m: &Mesh, tried: &Vec<usize>| shortest_edge(m, tried, false, 0.0),
            edge_midpoint,
        )
        .expect("lod chain should succeed");

    assert!(lods.len() >= 2);
    for pair in lods.windows(2) {
        assert!(pair[1].face_count < pair[0].face_count);
        assert!(pair[1].mesh.validate().is_ok());
    }
    assert_eq!(lods[0].face_count, 64);
}

#[test]
fn lod_levels_never_drop_below_the_minimum_face_count() {
    let mut mesh = unit_tetrahedron();
    loop_subdivide(&mut mesh).expect("subdivide");
    loop_subdivide(&mut mesh).expect("subdivide");
    let lods = mesh
        .build_lod_chain_by(
            6,
            30,
            64,
            |faces| faces / 4,
            |m: &Mesh, tried: &Vec<usize>| shortest_edge(m, tried, false, 0.0),
            edge_midpoint,
        )
        .expect("lod chain should succeed");
    assert!(lods.len() >= 2);
    for level in lods.iter().skip(1) {
        assert!(level.face_count >= 30);
        assert!(level.mesh.validate().is_ok());
    }
}

#[test]
fn small_meshes_are_not_decimated() {
    let mut mesh = unit_tetrahedron();
    assert_eq!(mesh.decimate_by(4, 8, |m: &Mesh, t: &Vec<usize>| shortest_edge(m, t, false, 0.0), edge_midpoint), Ok(0));
    assert_eq!(mesh.face_count(), 4);
    assert_eq!(unit_quad().decimate_by(0, 8, |_m: &Mesh, _t: &Vec<usize>| None, edge_midpoint), Ok(0));
    let mut stuck = unit_tetrahedron();
    let error = stuck
        .decimate_by(2, 8, |_m: &Mesh, _t: &Vec<usize>| None, edge_midpoint)
        .expect_err("no candidate edge");
    assert!(matches!(error, MeshError::UnsupportedOperation { operation: "decimate", .. }));
    assert_eq!(stuck.face_count(), 4);
}

#[test]
fn one_voxel_makes_a_closed_cube() {
    let mesh: Mesh =
        HalfEdgeMesh::build_voxel_surface(1, 1, 1, &vec![true], |x, y, z| [x as f32, y as f32, z as f32]).expect("voxel");
    assert_eq!(mesh.vertex_count(), 8);
    assert_eq!(mesh.face_count(), 6);
    assert!(mesh.is_closed());
    assert!(mesh.validate().is_ok());
}

#[test]
fn two_voxels_share_their_inner_side() {
    let mesh: Mesh = HalfEdgeMesh::build_voxel_surface(2, 1, 1, &vec![true, true], |x, y, z| [x as f32, y as f32, z as f32])
        .expect("voxels");
    assert_eq!(mesh.vertex_count(), 12);
    assert_eq!(mesh.face_count(), 10);
    assert!(mesh.is_closed());
    let empty: Mesh =
        HalfEdgeMesh::build_voxel_surface(2, 2, 1, &vec![false; 4], |x, y, z| [x as f32, y as f32, z as f32]).expect("empty");
    assert!(empty.is_empty());
}

#[test]
fn offsetting_updates_each_listed_vertex_in_order() {
    let mut mesh = unit_quad();
    mesh.update_vertex_payloads(&[VertexId(0), VertexId(0), VertexId(2)], "offset_vertices", |p| add(p, [0.0, 0.0, 1.0]))
        .expect("offset");
    assert_eq!(*mesh.vertex_payload(VertexId(0)).expect("v0"), [-0.5, -0.5, 2.0]);
    assert_eq!(*mesh.vertex_payload(VertexId(2)).expect("v2"), [0.5, 0.5, 1.0]);
    assert_eq!(
        mesh.update_vertex_payloads(&[], "offset_vertices", |p| p),
        Err(MeshError::EmptySelection("offset_vertices"))
    );
    assert_eq!(
        mesh.update_vertex_payloads(&[VertexId(1), VertexId(8)], "paint_vertices", |p| add(p, [1.0, 0.0, 0.0])),
        Err(MeshError::InvalidVertex(VertexId(8)))
    );
    assert_eq!(*mesh.vertex_payload(VertexId(1)).expect("v1"), [1.5, -0.5, 0.0]);
}

#[test]
fn degenerate_faces_are_detected() {
    let mesh = unit_cube();
    assert!(!mesh.has_degenerate_faces_by(|_| false));
    assert!(mesh.has_degenerate_faces_by(|f| f == 3));
}

#[test]
fn catmull_clark_then_loop_counts_follow_the_laws() {
    let mut mesh = unit_tetrahedron();
    catmull_clark(&mut mesh).expect("catmull");
    assert_eq!(mesh.vertex_count(), 4 + 6 + 4);
    assert_eq!(mesh.face_count(), 12);
    mesh.triangulate_faces().expect("triangulate");
    assert_eq!(mesh.face_count(), 24);
    let faces = mesh.face_count();
    loop_subdivide(&mut mesh).expect("loop");
    assert_eq!(mesh.face_count(), 4 * faces);
}

#[test]
fn lod_chain_stops_at_the_base_level_when_nothing_is_asked() {
    let mesh = unit_tetrahedron();
    let one = mesh
        .build_lod_chain_by(1, 1, 8, |faces| faces / 2, |m: &Mesh, t: &Vec<usize>| shortest_edge(m, t, false, 0.0), edge_midpoint)
        .expect("single level");
    assert_eq!(one.len(), 1);
    assert_eq!(one[0].level, 0);
    assert_eq!(one[0].face_count, 4);
    let small = mesh
        .build_lod_chain_by(3, 4, 8, |faces| faces / 2, |m: &Mesh, t: &Vec<usize>| shortest_edge(m, t, false, 0.0), edge_midpoint)
        .expect("already at the floor");
    assert_eq!(small.len(), 1);
}

#[test]
fn lod_chain_reports_a_failing_first_step() {
    let mesh = unit_tetrahedron();
    let error = mesh
        .build_lod_chain_by(3, 1, 8, |faces| faces / 2, |_m: &Mesh, _t: &Vec<usize>| None, edge_midpoint)
        .expect_err("no collapsible edge");
    assert!(matches!(error, MeshError::UnsupportedOperation { operation: "decimate", .. }));
}
