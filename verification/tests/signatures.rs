use saddle_procgen_mesh_ops::{build_vertex_corner_signatures, sort_corner_keys, CornerKey, MeshSnapshot, PolygonFace};

fn uv_key(u: u32, v: u32) -> CornerKey {
    (Some((u, v)), None, None)
}

#[test]
fn corner_keys_sort_with_missing_parts_first() {
    let bare: CornerKey = (None, None, None);
    let normal_only: CornerKey = (None, Some((0, 0, 1)), None);
    let tangent_only: CornerKey = (None, None, Some((1, 2, 3, 4)));
    let mut keys = vec![uv_key(2, 0), bare, uv_key(1, 5), normal_only, tangent_only, uv_key(1, 4)];
    sort_corner_keys(&mut keys);
    assert_eq!(keys, vec![bare, tangent_only, normal_only, uv_key(1, 4), uv_key(1, 5), uv_key(2, 0)]);
}

#[test]
fn corner_key_sort_keeps_every_copy() {
    let mut keys = vec![uv_key(3, 3), uv_key(1, 1), uv_key(3, 3), uv_key(1, 1)];
    sort_corner_keys(&mut keys);
    assert_eq!(keys, vec![uv_key(1, 1), uv_key(1, 1), uv_key(3, 3), uv_key(3, 3)]);
}

#[test]
fn vertex_signatures_gather_the_keys_of_every_corner() {
    let snapshot: MeshSnapshot<u8, u8> = MeshSnapshot {
        vertices: vec![0, 1, 2, 3, 4],
        faces: vec![PolygonFace::new(vec![0, 1, 2]), PolygonFace::new(vec![0, 2, 3])],
    };
    let keys = vec![
        vec![uv_key(9, 9), uv_key(1, 0), uv_key(5, 5)],
        vec![uv_key(2, 2), uv_key(5, 5), uv_key(1, 0)],
    ];
    let signatures = build_vertex_corner_signatures(&snapshot, &keys);
    assert_eq!(signatures.len(), 5);
    assert_eq!(signatures[0], vec![uv_key(2, 2), uv_key(9, 9)]);
    assert_eq!(signatures[1], vec![uv_key(1, 0)]);
    assert_eq!(signatures[2], vec![uv_key(5, 5), uv_key(5, 5)]);
    assert_eq!(signatures[3], vec![uv_key(1, 0)]);
    assert!(signatures[4].is_empty());
    assert_eq!(signatures[1], signatures[3]);
    assert_ne!(signatures[0], signatures[2]);
}

#[test]
fn vertex_signatures_ignore_the_order_of_faces() {
    let forward: MeshSnapshot<u8, u8> = MeshSnapshot {
        vertices: vec![0, 1, 2],
        faces: vec![PolygonFace::new(vec![0, 1, 2]), PolygonFace::new(vec![2, 1, 0])],
    };
    let keys = vec![vec![uv_key(4, 0), uv_key(0, 1), uv_key(7, 7)], vec![uv_key(3, 0), uv_key(0, 2), uv_key(1, 1)]];
    let signatures = build_vertex_corner_signatures(&forward, &keys);
    assert_eq!(signatures[0], vec![uv_key(1, 1), uv_key(4, 0)]);
    assert_eq!(signatures[1], vec![uv_key(0, 1), uv_key(0, 2)]);
    assert_eq!(signatures[2], vec![uv_key(3, 0), uv_key(7, 7)]);
}
