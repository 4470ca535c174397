use saddle_procgen_mesh_ops::{
    edge_adjacency, edge_uses, should_run_async, triangle_opposite, weld_positions, CommandClass, EditableMesh, HalfEdgeMesh, JobOutcome, MeshError,
    MeshOpsConfig, MeshOpsDebugView, SyncState, VertexId,
};

type Mesh = HalfEdgeMesh<[f32; 3], ()>;

fn unit_cube() -> Mesh {
    HalfEdgeMesh::unit_cube_with(vec![
        [-0.5, -0.5, 0.5],
        [0.5, -0.5, 0.5],
        [0.5, 0.5, 0.5],
        [-0.5, 0.5, 0.5],
        [-0.5, -0.5, -0.5],
        [0.5, -0.5, -0.5],
        [0.5, 0.5, -0.5],
        [-0.5, 0.5, -0.5],
    ])
    .expect("cube")
}

fn subdivided(mesh: &Mesh) -> Result<Mesh, MeshError> {
    let mut out = mesh.duplicate();
    let snapshot = out.to_snapshot();
    let (keys, _) = edge_adjacency(&snapshot.faces);
    let edge_points = keys.iter().map(|(a, _)| snapshot.vertices[*a]).collect();
    let face_points = snapshot.faces.iter().map(|f| snapshot.vertices[f.vertices[0]]).collect();
    out.catmull_clark_step(snapshot.vertices.clone(), edge_points, face_points, vec![(); snapshot.faces.len()])?;
    Ok(out)
}

#[test]
fn request_flow_marks_dirty_and_syncs_the_mesh() {
    let config = MeshOpsConfig::default();
    let mut editable = EditableMesh::new(unit_cube());
    let mut target = SyncState::new();

    assert!(!should_run_async(CommandClass::Subdivision, editable.mesh.face_count(), &config, false));
    editable.mesh = subdivided(&editable.mesh).expect("subdivide");
    editable.mark_changed(true);
    assert!(target.needs_sync(editable.revision));
    target.mark_synced(editable.revision);

    assert_eq!(editable.mesh.face_count(), 24);
    assert_eq!(target.synced_revision, editable.revision);
    assert!(!target.dirty);
}

#[test]
fn stale_async_result_does_not_overwrite_newer_revision() {
    let mut editable = EditableMesh::new(unit_cube());
    let base_revision = editable.revision;
    let job = subdivided(&editable.mesh).map(|mesh| (mesh, true));

    editable.mark_changed(false);
    editable.mesh.set_vertex_payload(VertexId(0), [-0.5, -0.3, 0.5]).expect("offset");

    let outcome = editable.finish_job(base_revision, job);
    assert!(matches!(outcome, JobOutcome::Stale));
    assert_eq!(editable.revision, 1);
    assert_eq!(editable.mesh.face_count(), 6);
}

#[test]
fn sync_system_skips_rebuilds_when_nothing_changed() {
    let editable = EditableMesh::new(unit_cube());
    let mut target = SyncState::new();
    assert!(target.needs_sync(editable.revision));
    target.mark_synced(editable.revision);
    let initial = target.synced_revision;

    assert!(!target.needs_sync(editable.revision));
    assert_eq!(target.synced_revision, initial);
    assert!(!target.dirty);
}

#[test]
fn multiple_entities_edit_independently() {
    let mut a = EditableMesh::new(unit_cube());
    let b = EditableMesh::new(unit_cube());
    a.mesh = subdivided(&a.mesh).expect("subdivide a");
    a.mark_changed(true);

    assert_eq!(a.mesh.face_count(), 24);
    assert_eq!(b.mesh.face_count(), 6);
    assert!(a.revision > b.revision);
}

#[test]
fn fresh_async_results_replace_the_mesh() {
    let mut editable = EditableMesh::new(unit_cube());
    let job = subdivided(&editable.mesh).map(|mesh| (mesh, true));
    let outcome = editable.finish_job(0, job);
    assert!(matches!(outcome, JobOutcome::Applied { topology_changed: true }));
    assert_eq!(editable.revision, 1);
    assert_eq!(editable.mesh.face_count(), 24);

    let failed = editable.finish_job(1, Err(MeshError::PendingAsyncJob));
    assert!(matches!(failed, JobOutcome::Failed(MeshError::PendingAsyncJob)));
    assert_eq!(editable.revision, 1);
}

#[test]
fn revisions_saturate_and_dirty_flags_accumulate() {
    let mut editable = EditableMesh::new(unit_cube());
    editable.topology_dirty = false;
    editable.mark_changed(false);
    assert!(!editable.topology_dirty);
    editable.mark_changed(true);
    editable.mark_changed(false);
    assert!(editable.topology_dirty);
    editable.revision = u64::MAX;
    editable.mark_changed(false);
    assert_eq!(editable.revision, u64::MAX);
}

#[test]
fn async_policy_follows_the_config() {
    let config = MeshOpsConfig::default();
    assert!(should_run_async(CommandClass::Subdivision, 24, &config, false));
    assert!(!should_run_async(CommandClass::Subdivision, 23, &config, false));
    assert!(should_run_async(CommandClass::Subdivision, 1, &config, true));
    assert!(should_run_async(CommandClass::Boolean { other_face_count: 40 }, 8, &config, false));
    assert!(!should_run_async(CommandClass::Boolean { other_face_count: 40 }, 7, &config, false));
    assert!(should_run_async(CommandClass::Boolean { other_face_count: usize::MAX }, 1, &config, false));
    assert!(!should_run_async(CommandClass::Inline, 1000, &config, true));
    let off = MeshOpsConfig { allow_async_subdivision: false, ..config };
    assert!(!should_run_async(CommandClass::Subdivision, 1000, &off, true));
    let view = MeshOpsDebugView::default();
    assert!(!view.enabled && view.draw_edges && view.draw_boundary_edges);
}

#[test]
fn welding_merges_equal_positions_in_first_use_order() {
    let keys = vec![(1, 2, 3), (4, 5, 6), (1, 2, 3), (7, 8, 9)];
    let plan = weld_positions(&keys, &vec![0, 1, 3, 2, 3, 1]).expect("weld");
    assert_eq!(plan.sources, vec![0, 1, 3]);
    assert_eq!(plan.corners, vec![0, 1, 2, 0, 2, 1]);

    assert!(matches!(weld_positions(&keys, &vec![0, 1]), Err(MeshError::UnsupportedMesh(_))));
    assert!(matches!(weld_positions(&keys, &vec![0, 1, 9]), Err(MeshError::UnsupportedMesh(_))));
}

#[test]
fn out_of_range_indices_are_rejected() {
    let positions: Vec<[f32; 3]> = vec![[0.0, 0.0, 0.0], [1.0, 0.0, 0.0], [0.0, 1.0, 0.0]];
    let keys: Vec<(u32, u32, u32)> = positions.iter().map(|p| (p[0].to_bits(), p[1].to_bits(), p[2].to_bits())).collect();
    let error = weld_positions(&keys, &vec![0, 1, 3]).err().expect("invalid index should fail");
    assert!(matches!(error, MeshError::UnsupportedMesh(_)));
}

#[test]
fn export_layout_fans_every_face() {
    let mesh = unit_cube();
    let (corners, indices) = mesh.export_layout();
    assert_eq!(corners.len(), 24);
    assert_eq!(indices.len(), 36);
    assert_eq!(&indices[0..6], &[0, 1, 2, 0, 2, 3]);
    assert_eq!(&indices[6..9], &[4, 5, 6]);
}

#[test]
fn triangle_opposite_finds_the_third_corner() {
    let corners = vec![VertexId(4), VertexId(7), VertexId(9)];
    assert_eq!(triangle_opposite(&corners, VertexId(4), VertexId(7)), Some(9));
    assert_eq!(triangle_opposite(&corners, VertexId(9), VertexId(4)), Some(7));
    assert_eq!(triangle_opposite(&corners, VertexId(7), VertexId(4)), None);
}

#[test]
fn edge_uses_list_faces_and_sides_per_edge() {
    let keys = vec![(0, 1), (1, 2), (2, 0), (2, 3)];
    let sides = vec![vec![0, 1, 2], vec![1, 3, 2]];
    let uses = edge_uses(&keys, &sides);
    assert_eq!(uses, vec![vec![(0, 0)], vec![(0, 1), (1, 0)], vec![(0, 2), (1, 2)], vec![(1, 1)]]);
}
