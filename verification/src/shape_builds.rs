use crate::attributes::FacePayload;
use crate::build_spec::{
    boundary_record, builds_manifold, built_topology, close_run, faces_run, first_outgoing, ghosts_run, interior_link,
    interior_links, interior_records, key_index, nexts_run, no_outgoing, pair_run, turn_walk, unmatched_map, unvisited,
    walk_face, walk_successors, walks_found,
};
use crate::ids::{EdgeId, FaceId, HalfEdgeId, VertexId, INVALID_INDEX};
use crate::mesh::{origin_count, topo_of, walk, FaceKind, FaceRecord, HalfEdgeLinks, Topology};
use crate::rebuild::{all_keys, corner_total, face_keys, keys_before, lemma_keys_before_step, reversed};
use crate::snapshot::empty_face_payload;
use crate::topology::{cube_corners, quad_corners, shape_polygons, tetrahedron_corners, triangle_corners};
use vstd::prelude::*;

verus! {

// The unit shapes are shown to build by evaluating the construction on them step by step:
// the interior layout, the pairing of sides, the walks to the next open side, the ghost
// twins with their rings and boundary faces, and then every check of validity.

/// A half-edge record from its six ids.
spec fn hl(origin: u32, twin: u32, next: u32, prev: u32, face: u32, edge: u32) -> HalfEdgeLinks {
    HalfEdgeLinks {
        origin: VertexId(origin),
        twin: HalfEdgeId(twin),
        next: HalfEdgeId(next),
        prev: HalfEdgeId(prev),
        face: FaceId(face),
        edge: EdgeId(edge),
    }
}

spec fn triangle_keys() -> Seq<(usize, usize)> {
    seq![(0usize, 1usize), (1usize, 2usize), (2usize, 0usize)]
}

spec fn triangle_links() -> Seq<HalfEdgeLinks> {
    seq![hl(0u32, INVALID_INDEX, 1u32, 2u32, 0u32, INVALID_INDEX), hl(1u32, INVALID_INDEX, 2u32, 0u32, 0u32, INVALID_INDEX), hl(2u32, INVALID_INDEX, 0u32, 1u32, 0u32, INVALID_INDEX)]
}

spec fn triangle_outgoing() -> Seq<HalfEdgeId> {
    seq![HalfEdgeId(0u32), HalfEdgeId(1u32), HalfEdgeId(2u32)]
}

spec fn triangle_paired() -> Seq<HalfEdgeLinks> {
    seq![hl(0u32, INVALID_INDEX, 1u32, 2u32, 0u32, INVALID_INDEX), hl(1u32, INVALID_INDEX, 2u32, 0u32, 0u32, INVALID_INDEX), hl(2u32, INVALID_INDEX, 0u32, 1u32, 0u32, INVALID_INDEX)]
}

spec fn triangle_pair_edges() -> Seq<HalfEdgeId> {
    Seq::<HalfEdgeId>::empty()
}

spec fn triangle_open_sides() -> Seq<usize> {
    seq![0usize, 1usize, 2usize]
}

spec fn triangle_successors() -> Seq<usize> {
    seq![2usize, 0usize, 1usize]
}

spec fn triangle_topology() -> Topology {
    topo_of(seq![HalfEdgeId(0u32), HalfEdgeId(1u32), HalfEdgeId(2u32)], seq![hl(0u32, 3u32, 1u32, 2u32, 0u32, 0u32), hl(1u32, 4u32, 2u32, 0u32, 0u32, 1u32), hl(2u32, 5u32, 0u32, 1u32, 0u32, 2u32), hl(1u32, 0u32, 5u32, 4u32, 1u32, 0u32), hl(2u32, 1u32, 3u32, 5u32, 1u32, 1u32), hl(0u32, 2u32, 4u32, 3u32, 1u32, 2u32)], seq![HalfEdgeId(0u32), HalfEdgeId(1u32), HalfEdgeId(2u32)], seq![FaceRecord { halfedge: HalfEdgeId(0u32), kind: FaceKind::Interior, data: FacePayload { material: None, region: None } }, boundary_record(3)], 1)
}

#[verifier::spinoff_prover]
#[verifier::rlimit(60)]
proof fn lemma_triangle_layout<L>()
    ensures
        interior_links(shape_polygons::<L>(triangle_corners())) == triangle_links(),
        all_keys(shape_polygons::<L>(triangle_corners())) == triangle_keys(),
        interior_records(shape_polygons::<L>(triangle_corners())) == seq![FaceRecord { halfedge: HalfEdgeId(0u32), kind: FaceKind::Interior, data: FacePayload { material: None, region: None } }],
        first_outgoing(no_outgoing(3), triangle_links(), 3) == triangle_outgoing(),
{
    let fs = shape_polygons::<L>(triangle_corners());
    assert(fs.len() == 1);
    assert(keys_before(fs, 0) =~= Seq::<(usize, usize)>::empty());
    assert(fs[0].corners =~= seq![0usize, 1usize, 2usize]);
    assert(fs[0].data == empty_face_payload());
    assert(face_keys(fs[0]) =~= seq![(0usize, 1usize), (1usize, 2usize), (2usize, 0usize)]);
    lemma_keys_before_step(fs, 0);
    assert(keys_before(fs, 1) =~= seq![(0usize, 1usize), (1usize, 2usize), (2usize, 0usize)]);
    let keys = seq![(0usize, 1usize), (1usize, 2usize), (2usize, 0usize)];
    assert(all_keys(fs) == keys);
    assert(corner_total(fs) == 3);
    assert(interior_link(fs, 0) == hl(0u32, INVALID_INDEX, 1u32, 2u32, 0u32, INVALID_INDEX)) by {
        let w: (int, int) = (0, 0);
        assert(keys_before(fs, 0).len() == 0);
        assert(0 <= w.0 < fs.len() && 0 <= w.1 < fs[w.0].corners.len() && 0 == keys_before(fs, w.0).len() + w.1);
        let p = choose|q: (int, int)| 0 <= q.0 < fs.len() && 0 <= q.1 < fs[q.0].corners.len() && 0 == keys_before(fs, q.0).len() + q.1;
        assert(0 <= p.0 < fs.len());
        assert(keys_before(fs, 0).len() == 0);
    }
    assert(interior_link(fs, 1) == hl(1u32, INVALID_INDEX, 2u32, 0u32, 0u32, INVALID_INDEX)) by {
        let w: (int, int) = (0, 1);
        assert(keys_before(fs, 0).len() == 0);
        assert(0 <= w.0 < fs.len() && 0 <= w.1 < fs[w.0].corners.len() && 1 == keys_before(fs, w.0).len() + w.1);
        let p = choose|q: (int, int)| 0 <= q.0 < fs.len() && 0 <= q.1 < fs[q.0].corners.len() && 1 == keys_before(fs, q.0).len() + q.1;
        assert(0 <= p.0 < fs.len());
        assert(keys_before(fs, 0).len() == 0);
    }
    assert(interior_link(fs, 2) == hl(2u32, INVALID_INDEX, 0u32, 1u32, 0u32, INVALID_INDEX)) by {
        let w: (int, int) = (0, 2);
        assert(keys_before(fs, 0).len() == 0);
        assert(0 <= w.0 < fs.len() && 0 <= w.1 < fs[w.0].corners.len() && 2 == keys_before(fs, w.0).len() + w.1);
        let p = choose|q: (int, int)| 0 <= q.0 < fs.len() && 0 <= q.1 < fs[q.0].corners.len() && 2 == keys_before(fs, q.0).len() + q.1;
        assert(0 <= p.0 < fs.len());
        assert(keys_before(fs, 0).len() == 0);
    }
    let l0 = seq![hl(0u32, INVALID_INDEX, 1u32, 2u32, 0u32, INVALID_INDEX), hl(1u32, INVALID_INDEX, 2u32, 0u32, 0u32, INVALID_INDEX), hl(2u32, INVALID_INDEX, 0u32, 1u32, 0u32, INVALID_INDEX)];
    assert(interior_links(fs) =~= l0);
    assert(interior_records(fs) =~= seq![FaceRecord { halfedge: HalfEdgeId(0u32), kind: FaceKind::Interior, data: FacePayload { material: None, region: None } }]);
    assert(no_outgoing(3) =~= seq![HalfEdgeId(INVALID_INDEX), HalfEdgeId(INVALID_INDEX), HalfEdgeId(INVALID_INDEX)]);
    assert(first_outgoing(no_outgoing(3), l0, 0) == no_outgoing(3));
    assert(first_outgoing(no_outgoing(3), l0, 1) =~= seq![HalfEdgeId(0u32), HalfEdgeId(INVALID_INDEX), HalfEdgeId(INVALID_INDEX)]);
    assert(first_outgoing(no_outgoing(3), l0, 2) =~= seq![HalfEdgeId(0u32), HalfEdgeId(1u32), HalfEdgeId(INVALID_INDEX)]);
    assert(first_outgoing(no_outgoing(3), l0, 3) =~= seq![HalfEdgeId(0u32), HalfEdgeId(1u32), HalfEdgeId(2u32)]);
    assert(keys == triangle_keys());
    assert(l0 == triangle_links());
}

#[verifier::spinoff_prover]
#[verifier::rlimit(60)]
proof fn lemma_triangle_pairs<L>()
    ensures
        pair_run(triangle_links(), triangle_keys(), Seq::<HalfEdgeId>::empty(), Seq::<usize>::empty(), 0) == Some((triangle_paired(), triangle_pair_edges(), triangle_open_sides())),
{
    let fs = shape_polygons::<L>(triangle_corners());
    let keys = seq![(0usize, 1usize), (1usize, 2usize), (2usize, 0usize)];
    let l0 = seq![hl(0u32, INVALID_INDEX, 1u32, 2u32, 0u32, INVALID_INDEX), hl(1u32, INVALID_INDEX, 2u32, 0u32, 0u32, INVALID_INDEX), hl(2u32, INVALID_INDEX, 0u32, 1u32, 0u32, INVALID_INDEX)];
    assert(key_index(keys, (1usize, 0usize), 3) == Option::<int>::None);
    assert(key_index(keys, (1usize, 0usize), 2) == Option::<int>::None);
    assert(key_index(keys, (1usize, 0usize), 1) == Option::<int>::None);
    assert(key_index(keys, (1usize, 0usize), 0) == Option::<int>::None);
    assert(reversed(keys[0]) == (1usize, 0usize));
    assert(key_index(keys, (2usize, 1usize), 3) == Option::<int>::None);
    assert(key_index(keys, (2usize, 1usize), 2) == Option::<int>::None);
    assert(key_index(keys, (2usize, 1usize), 1) == Option::<int>::None);
    assert(key_index(keys, (2usize, 1usize), 0) == Option::<int>::None);
    assert(reversed(keys[1]) == (2usize, 1usize));
    assert(key_index(keys, (0usize, 2usize), 3) == Option::<int>::None);
    assert(key_index(keys, (0usize, 2usize), 2) == Option::<int>::None);
    assert(key_index(keys, (0usize, 2usize), 1) == Option::<int>::None);
    assert(key_index(keys, (0usize, 2usize), 0) == Option::<int>::None);
    assert(reversed(keys[2]) == (0usize, 2usize));
    let pl0 = seq![hl(0u32, INVALID_INDEX, 1u32, 2u32, 0u32, INVALID_INDEX), hl(1u32, INVALID_INDEX, 2u32, 0u32, 0u32, INVALID_INDEX), hl(2u32, INVALID_INDEX, 0u32, 1u32, 0u32, INVALID_INDEX)];
    let pe0 = Seq::<HalfEdgeId>::empty();
    let pb0 = Seq::<usize>::empty();
    let pl1 = seq![hl(0u32, INVALID_INDEX, 1u32, 2u32, 0u32, INVALID_INDEX), hl(1u32, INVALID_INDEX, 2u32, 0u32, 0u32, INVALID_INDEX), hl(2u32, INVALID_INDEX, 0u32, 1u32, 0u32, INVALID_INDEX)];
    let pe1 = Seq::<HalfEdgeId>::empty();
    let pb1 = seq![0usize];
    let pl2 = seq![hl(0u32, INVALID_INDEX, 1u32, 2u32, 0u32, INVALID_INDEX), hl(1u32, INVALID_INDEX, 2u32, 0u32, 0u32, INVALID_INDEX), hl(2u32, INVALID_INDEX, 0u32, 1u32, 0u32, INVALID_INDEX)];
    let pe2 = Seq::<HalfEdgeId>::empty();
    let pb2 = seq![0usize, 1usize];
    let pl3 = seq![hl(0u32, INVALID_INDEX, 1u32, 2u32, 0u32, INVALID_INDEX), hl(1u32, INVALID_INDEX, 2u32, 0u32, 0u32, INVALID_INDEX), hl(2u32, INVALID_INDEX, 0u32, 1u32, 0u32, INVALID_INDEX)];
    let pe3 = Seq::<HalfEdgeId>::empty();
    let pb3 = seq![0usize, 1usize, 2usize];
    assert(pair_run(pl3, keys, pe3, pb3, 3) == Some((pl3, pe3, pb3)));
    assert(pb2.push(2 as usize) =~= pb3);
    assert(pair_run(pl2, keys, pe2, pb2, 2) == pair_run(pl3, keys, pe3, pb3, 3));
    assert(pb1.push(1 as usize) =~= pb2);
    assert(pair_run(pl1, keys, pe1, pb1, 1) == pair_run(pl2, keys, pe2, pb2, 2));
    assert(pb0.push(0 as usize) =~= pb1);
    assert(pair_run(pl0, keys, pe0, pb0, 0) == pair_run(pl1, keys, pe1, pb1, 1));
    assert(pl0 =~= l0);
    assert(pe0 =~= Seq::<HalfEdgeId>::empty());
    assert(pb0 =~= Seq::<usize>::empty());
}

#[verifier::spinoff_prover]
#[verifier::rlimit(60)]
proof fn lemma_triangle_walks<L>()
    ensures
        walks_found(triangle_paired(), triangle_open_sides()),
        walk_successors(triangle_paired(), triangle_open_sides()) == triangle_successors(),
{
    let pl3 = seq![hl(0u32, INVALID_INDEX, 1u32, 2u32, 0u32, INVALID_INDEX), hl(1u32, INVALID_INDEX, 2u32, 0u32, 0u32, INVALID_INDEX), hl(2u32, INVALID_INDEX, 0u32, 1u32, 0u32, INVALID_INDEX)];
    let pb3 = seq![0usize, 1usize, 2usize];
    assert(turn_walk(pl3, 2, 0) == Some(2int));
    assert(turn_walk(pl3, 0, 0) == Some(0int));
    assert(turn_walk(pl3, 1, 0) == Some(1int));
    assert(walks_found(pl3, pb3));
    assert(walk_successors(pl3, pb3) =~= seq![2usize, 0usize, 1usize]);
}

#[verifier::spinoff_prover]
#[verifier::rlimit(60)]
proof fn lemma_triangle_close<L>()
    ensures
        close_run(triangle_outgoing(), triangle_paired(), triangle_pair_edges(), interior_records(shape_polygons::<L>(triangle_corners())), triangle_keys(), triangle_open_sides(), triangle_successors()) == Some((triangle_topology().outgoing, triangle_topology().links, triangle_topology().edges, triangle_topology().faces)),
{
    let fs = shape_polygons::<L>(triangle_corners());
    let keys = seq![(0usize, 1usize), (1usize, 2usize), (2usize, 0usize)];
    let l0 = seq![hl(0u32, INVALID_INDEX, 1u32, 2u32, 0u32, INVALID_INDEX), hl(1u32, INVALID_INDEX, 2u32, 0u32, 0u32, INVALID_INDEX), hl(2u32, INVALID_INDEX, 0u32, 1u32, 0u32, INVALID_INDEX)];
    let pl3 = seq![hl(0u32, INVALID_INDEX, 1u32, 2u32, 0u32, INVALID_INDEX), hl(1u32, INVALID_INDEX, 2u32, 0u32, 0u32, INVALID_INDEX), hl(2u32, INVALID_INDEX, 0u32, 1u32, 0u32, INVALID_INDEX)];
    let pe3 = Seq::<HalfEdgeId>::empty();
    let pb3 = seq![0usize, 1usize, 2usize];
    lemma_triangle_layout::<L>();
    assert(unmatched_map(3, 3) =~= seq![6usize, 6usize, 6usize]);
    let go0 = seq![HalfEdgeId(0u32), HalfEdgeId(1u32), HalfEdgeId(2u32)];
    let gl0 = seq![hl(0u32, INVALID_INDEX, 1u32, 2u32, 0u32, INVALID_INDEX), hl(1u32, INVALID_INDEX, 2u32, 0u32, 0u32, INVALID_INDEX), hl(2u32, INVALID_INDEX, 0u32, 1u32, 0u32, INVALID_INDEX)];
    let ge0 = Seq::<HalfEdgeId>::empty();
    let gm0 = seq![6usize, 6usize, 6usize];
    let go1 = seq![HalfEdgeId(0u32), HalfEdgeId(1u32), HalfEdgeId(2u32)];
    let gl1 = seq![hl(0u32, 3u32, 1u32, 2u32, 0u32, 0u32), hl(1u32, INVALID_INDEX, 2u32, 0u32, 0u32, INVALID_INDEX), hl(2u32, INVALID_INDEX, 0u32, 1u32, 0u32, INVALID_INDEX), hl(1u32, 0u32, INVALID_INDEX, INVALID_INDEX, INVALID_INDEX, 0u32)];
    let ge1 = seq![HalfEdgeId(0u32)];
    let gm1 = seq![3usize, 6usize, 6usize];
    let go2 = seq![HalfEdgeId(0u32), HalfEdgeId(1u32), HalfEdgeId(2u32)];
    let gl2 = seq![hl(0u32, 3u32, 1u32, 2u32, 0u32, 0u32), hl(1u32, 4u32, 2u32, 0u32, 0u32, 1u32), hl(2u32, INVALID_INDEX, 0u32, 1u32, 0u32, INVALID_INDEX), hl(1u32, 0u32, INVALID_INDEX, INVALID_INDEX, INVALID_INDEX, 0u32), hl(2u32, 1u32, INVALID_INDEX, INVALID_INDEX, INVALID_INDEX, 1u32)];
    let ge2 = seq![HalfEdgeId(0u32), HalfEdgeId(1u32)];
    let gm2 = seq![3usize, 4usize, 6usize];
    let go3 = seq![HalfEdgeId(0u32), HalfEdgeId(1u32), HalfEdgeId(2u32)];
    let gl3 = seq![hl(0u32, 3u32, 1u32, 2u32, 0u32, 0u32), hl(1u32, 4u32, 2u32, 0u32, 0u32, 1u32), hl(2u32, 5u32, 0u32, 1u32, 0u32, 2u32), hl(1u32, 0u32, INVALID_INDEX, INVALID_INDEX, INVALID_INDEX, 0u32), hl(2u32, 1u32, INVALID_INDEX, INVALID_INDEX, INVALID_INDEX, 1u32), hl(0u32, 2u32, INVALID_INDEX, INVALID_INDEX, INVALID_INDEX, 2u32)];
    let ge3 = seq![HalfEdgeId(0u32), HalfEdgeId(1u32), HalfEdgeId(2u32)];
    let gm3 = seq![3usize, 4usize, 5usize];
    assert(ghosts_run((go3, gl3, ge3, gm3), keys, pb3, 3) == (go3, gl3, ge3, gm3));
    assert(gl2.update(2, HalfEdgeLinks { twin: HalfEdgeId(5 as u32), edge: EdgeId(2 as u32), ..gl2[2] }).push(HalfEdgeLinks { origin: VertexId(0 as u32), twin: HalfEdgeId(2 as u32), next: HalfEdgeId(INVALID_INDEX), prev: HalfEdgeId(INVALID_INDEX), face: FaceId(INVALID_INDEX), edge: EdgeId(2 as u32) }) =~= gl3);
    assert(ge2.push(HalfEdgeId(2 as u32)) =~= ge3);
    assert(gm2.update(2, 5 as usize) =~= gm3);
    assert(go2 =~= go3);
    assert(ghosts_run((go2, gl2, ge2, gm2), keys, pb3, 2) == ghosts_run((go3, gl3, ge3, gm3), keys, pb3, 3));
    assert(gl1.update(1, HalfEdgeLinks { twin: HalfEdgeId(4 as u32), edge: EdgeId(1 as u32), ..gl1[1] }).push(HalfEdgeLinks { origin: VertexId(2 as u32), twin: HalfEdgeId(1 as u32), next: HalfEdgeId(INVALID_INDEX), prev: HalfEdgeId(INVALID_INDEX), face: FaceId(INVALID_INDEX), edge: EdgeId(1 as u32) }) =~= gl2);
    assert(ge1.push(HalfEdgeId(1 as u32)) =~= ge2);
    assert(gm1.update(1, 4 as usize) =~= gm2);
    assert(go1 =~= go2);
    assert(ghosts_run((go1, gl1, ge1, gm1), keys, pb3, 1) == ghosts_run((go2, gl2, ge2, gm2), keys, pb3, 2));
    assert(gl0.update(0, HalfEdgeLinks { twin: HalfEdgeId(3 as u32), edge: EdgeId(0 as u32), ..gl0[0] }).push(HalfEdgeLinks { origin: VertexId(1 as u32), twin: HalfEdgeId(0 as u32), next: HalfEdgeId(INVALID_INDEX), prev: HalfEdgeId(INVALID_INDEX), face: FaceId(INVALID_INDEX), edge: EdgeId(0 as u32) }) =~= gl1);
    assert(ge0.push(HalfEdgeId(0 as u32)) =~= ge1);
    assert(gm0.update(0, 3 as usize) =~= gm1);
    assert(go0 =~= go1);
    assert(ghosts_run((go0, gl0, ge0, gm0), keys, pb3, 0) == ghosts_run((go1, gl1, ge1, gm1), keys, pb3, 1));
    assert(go0 =~= first_outgoing(no_outgoing(3), l0, 3));
    let nl0 = seq![hl(0u32, 3u32, 1u32, 2u32, 0u32, 0u32), hl(1u32, 4u32, 2u32, 0u32, 0u32, 1u32), hl(2u32, 5u32, 0u32, 1u32, 0u32, 2u32), hl(1u32, 0u32, INVALID_INDEX, INVALID_INDEX, INVALID_INDEX, 0u32), hl(2u32, 1u32, INVALID_INDEX, INVALID_INDEX, INVALID_INDEX, 1u32), hl(0u32, 2u32, INVALID_INDEX, INVALID_INDEX, INVALID_INDEX, 2u32)];
    let nl1 = seq![hl(0u32, 3u32, 1u32, 2u32, 0u32, 0u32), hl(1u32, 4u32, 2u32, 0u32, 0u32, 1u32), hl(2u32, 5u32, 0u32, 1u32, 0u32, 2u32), hl(1u32, 0u32, 5u32, INVALID_INDEX, INVALID_INDEX, 0u32), hl(2u32, 1u32, INVALID_INDEX, INVALID_INDEX, INVALID_INDEX, 1u32), hl(0u32, 2u32, INVALID_INDEX, 3u32, INVALID_INDEX, 2u32)];
    let nl2 = seq![hl(0u32, 3u32, 1u32, 2u32, 0u32, 0u32), hl(1u32, 4u32, 2u32, 0u32, 0u32, 1u32), hl(2u32, 5u32, 0u32, 1u32, 0u32, 2u32), hl(1u32, 0u32, 5u32, 4u32, INVALID_INDEX, 0u32), hl(2u32, 1u32, 3u32, INVALID_INDEX, INVALID_INDEX, 1u32), hl(0u32, 2u32, INVALID_INDEX, 3u32, INVALID_INDEX, 2u32)];
    let nl3 = seq![hl(0u32, 3u32, 1u32, 2u32, 0u32, 0u32), hl(1u32, 4u32, 2u32, 0u32, 0u32, 1u32), hl(2u32, 5u32, 0u32, 1u32, 0u32, 2u32), hl(1u32, 0u32, 5u32, 4u32, INVALID_INDEX, 0u32), hl(2u32, 1u32, 3u32, 5u32, INVALID_INDEX, 1u32), hl(0u32, 2u32, 4u32, 3u32, INVALID_INDEX, 2u32)];
    assert(nexts_run(nl3, gm3, pb3, seq![2usize, 0usize, 1usize], 3) == Some(nl3));
    assert(nl2.update(5, HalfEdgeLinks { next: HalfEdgeId(4 as u32), ..nl2[5] }).update(4, HalfEdgeLinks { prev: HalfEdgeId(5 as u32), ..nl2.update(5, HalfEdgeLinks { next: HalfEdgeId(4 as u32), ..nl2[5] })[4] }) =~= nl3);
    assert(nexts_run(nl2, gm3, pb3, seq![2usize, 0usize, 1usize], 2) == nexts_run(nl3, gm3, pb3, seq![2usize, 0usize, 1usize], 3));
    assert(nl1.update(4, HalfEdgeLinks { next: HalfEdgeId(3 as u32), ..nl1[4] }).update(3, HalfEdgeLinks { prev: HalfEdgeId(4 as u32), ..nl1.update(4, HalfEdgeLinks { next: HalfEdgeId(3 as u32), ..nl1[4] })[3] }) =~= nl2);
    assert(nexts_run(nl1, gm3, pb3, seq![2usize, 0usize, 1usize], 1) == nexts_run(nl2, gm3, pb3, seq![2usize, 0usize, 1usize], 2));
    assert(nl0.update(3, HalfEdgeLinks { next: HalfEdgeId(5 as u32), ..nl0[3] }).update(5, HalfEdgeLinks { prev: HalfEdgeId(3 as u32), ..nl0.update(3, HalfEdgeLinks { next: HalfEdgeId(5 as u32), ..nl0[3] })[5] }) =~= nl1);
    assert(nexts_run(nl0, gm3, pb3, seq![2usize, 0usize, 1usize], 0) == nexts_run(nl1, gm3, pb3, seq![2usize, 0usize, 1usize], 1));
    assert(nl0 =~= gl3);
    let fl0 = seq![hl(0u32, 3u32, 1u32, 2u32, 0u32, 0u32), hl(1u32, 4u32, 2u32, 0u32, 0u32, 1u32), hl(2u32, 5u32, 0u32, 1u32, 0u32, 2u32), hl(1u32, 0u32, 5u32, 4u32, INVALID_INDEX, 0u32), hl(2u32, 1u32, 3u32, 5u32, INVALID_INDEX, 1u32), hl(0u32, 2u32, 4u32, 3u32, INVALID_INDEX, 2u32)];
    let fv0 = seq![false, false, false, false, false, false];
    let fr0 = seq![FaceRecord { halfedge: HalfEdgeId(0u32), kind: FaceKind::Interior, data: FacePayload { material: None, region: None } }];
    let fl1 = seq![hl(0u32, 3u32, 1u32, 2u32, 0u32, 0u32), hl(1u32, 4u32, 2u32, 0u32, 0u32, 1u32), hl(2u32, 5u32, 0u32, 1u32, 0u32, 2u32), hl(1u32, 0u32, 5u32, 4u32, 1u32, 0u32), hl(2u32, 1u32, 3u32, 5u32, 1u32, 1u32), hl(0u32, 2u32, 4u32, 3u32, 1u32, 2u32)];
    let fv1 = seq![false, false, false, true, true, true];
    let fr1 = seq![FaceRecord { halfedge: HalfEdgeId(0u32), kind: FaceKind::Interior, data: FacePayload { material: None, region: None } }, boundary_record(3)];
    let fl2 = seq![hl(0u32, 3u32, 1u32, 2u32, 0u32, 0u32), hl(1u32, 4u32, 2u32, 0u32, 0u32, 1u32), hl(2u32, 5u32, 0u32, 1u32, 0u32, 2u32), hl(1u32, 0u32, 5u32, 4u32, 1u32, 0u32), hl(2u32, 1u32, 3u32, 5u32, 1u32, 1u32), hl(0u32, 2u32, 4u32, 3u32, 1u32, 2u32)];
    let fv2 = seq![false, false, false, true, true, true];
    let fr2 = seq![FaceRecord { halfedge: HalfEdgeId(0u32), kind: FaceKind::Interior, data: FacePayload { material: None, region: None } }, boundary_record(3)];
    let fl3 = seq![hl(0u32, 3u32, 1u32, 2u32, 0u32, 0u32), hl(1u32, 4u32, 2u32, 0u32, 0u32, 1u32), hl(2u32, 5u32, 0u32, 1u32, 0u32, 2u32), hl(1u32, 0u32, 5u32, 4u32, 1u32, 0u32), hl(2u32, 1u32, 3u32, 5u32, 1u32, 1u32), hl(0u32, 2u32, 4u32, 3u32, 1u32, 2u32)];
    let fv3 = seq![false, false, false, true, true, true];
    let fr3 = seq![FaceRecord { halfedge: HalfEdgeId(0u32), kind: FaceKind::Interior, data: FacePayload { material: None, region: None } }, boundary_record(3)];
    assert(faces_run(fl3, fv3, fr3, 3, 3, 3) == Some((fl3, fr3)));
    assert(fl2 =~= fl3 && fv2 =~= fv3 && fr2 =~= fr3);
    assert(faces_run(fl2, fv2, fr2, 2, 3, 3) == faces_run(fl3, fv3, fr3, 3, 3, 3));
    assert(fl1 =~= fl2 && fv1 =~= fv2 && fr1 =~= fr2);
    assert(faces_run(fl1, fv1, fr1, 1, 3, 3) == faces_run(fl2, fv2, fr2, 2, 3, 3));
    let w0l0 = seq![hl(0u32, 3u32, 1u32, 2u32, 0u32, 0u32), hl(1u32, 4u32, 2u32, 0u32, 0u32, 1u32), hl(2u32, 5u32, 0u32, 1u32, 0u32, 2u32), hl(1u32, 0u32, 5u32, 4u32, INVALID_INDEX, 0u32), hl(2u32, 1u32, 3u32, 5u32, INVALID_INDEX, 1u32), hl(0u32, 2u32, 4u32, 3u32, INVALID_INDEX, 2u32)];
    let w0v0 = seq![false, false, false, false, false, false];
    let w0l1 = seq![hl(0u32, 3u32, 1u32, 2u32, 0u32, 0u32), hl(1u32, 4u32, 2u32, 0u32, 0u32, 1u32), hl(2u32, 5u32, 0u32, 1u32, 0u32, 2u32), hl(1u32, 0u32, 5u32, 4u32, 1u32, 0u32), hl(2u32, 1u32, 3u32, 5u32, INVALID_INDEX, 1u32), hl(0u32, 2u32, 4u32, 3u32, INVALID_INDEX, 2u32)];
    let w0v1 = seq![false, false, false, true, false, false];
    let w0l2 = seq![hl(0u32, 3u32, 1u32, 2u32, 0u32, 0u32), hl(1u32, 4u32, 2u32, 0u32, 0u32, 1u32), hl(2u32, 5u32, 0u32, 1u32, 0u32, 2u32), hl(1u32, 0u32, 5u32, 4u32, 1u32, 0u32), hl(2u32, 1u32, 3u32, 5u32, INVALID_INDEX, 1u32), hl(0u32, 2u32, 4u32, 3u32, 1u32, 2u32)];
    let w0v2 = seq![false, false, false, true, false, true];
    let w0l3 = seq![hl(0u32, 3u32, 1u32, 2u32, 0u32, 0u32), hl(1u32, 4u32, 2u32, 0u32, 0u32, 1u32), hl(2u32, 5u32, 0u32, 1u32, 0u32, 2u32), hl(1u32, 0u32, 5u32, 4u32, 1u32, 0u32), hl(2u32, 1u32, 3u32, 5u32, 1u32, 1u32), hl(0u32, 2u32, 4u32, 3u32, 1u32, 2u32)];
    let w0v3 = seq![false, false, false, true, true, true];
    assert(w0l3 =~= fl1 && w0v3 =~= fv1);
    assert(w0v2.update(4, true) =~= w0v3);
    assert(w0l2.update(4, HalfEdgeLinks { face: FaceId(1 as u32), ..w0l2[4] }) =~= w0l3);
    assert(walk_face(w0l2, w0v2, 3, 4, 1, 2, 3, 6) == Some((w0l3, w0v3)));
    assert(w0v1.update(5, true) =~= w0v2);
    assert(w0l1.update(5, HalfEdgeLinks { face: FaceId(1 as u32), ..w0l1[5] }) =~= w0l2);
    assert(walk_face(w0l1, w0v1, 3, 5, 1, 1, 3, 6) == walk_face(w0l2, w0v2, 3, 4, 1, 2, 3, 6));
    assert(w0v0.update(3, true) =~= w0v1);
    assert(w0l0.update(3, HalfEdgeLinks { face: FaceId(1 as u32), ..w0l0[3] }) =~= w0l1);
    assert(walk_face(w0l0, w0v0, 3, 3, 1, 0, 3, 6) == walk_face(w0l1, w0v1, 3, 5, 1, 1, 3, 6));
    assert(w0l0 =~= fl0 && w0v0 =~= fv0);
    assert(fr0.push(boundary_record(3)) =~= fr1);
    assert(fr0.len() == 1);
    assert(faces_run(fl0, fv0, fr0, 0, 3, 3) == faces_run(fl1, fv1, fr1, 1, 3, 3));
    assert(fl0 =~= nl3);
    assert(fv0 =~= unvisited(6));
    assert(fr0 =~= interior_records(fs));
    assert(close_run(go0, pl3, pe3, interior_records(fs), keys, pb3, seq![2usize, 0usize, 1usize]) == Some((go3, fl3, ge3, fr3)));
}

#[verifier::spinoff_prover]
#[verifier::rlimit(60)]
proof fn lemma_triangle_valid<L>()
    ensures
        triangle_topology().valid(),
{
    let t = triangle_topology();
    assert forall|v: int| 0 <= v < 3 && (#[trigger] t.outgoing[v]).valid() implies t.outgoing[v].idx() < t.nh() && t.links[t.outgoing[v].idx()].origin.idx() == v by {
        if v == 0 { assert(t.outgoing[0] == HalfEdgeId(0u32)); }
        if v == 1 { assert(t.outgoing[1] == HalfEdgeId(1u32)); }
        if v == 2 { assert(t.outgoing[2] == HalfEdgeId(2u32)); }
    }
    assert forall|e: int| 0 <= e < 3 implies (#[trigger] t.edges[e]).idx() < t.nh() && t.links[t.edges[e].idx()].edge.idx() == e by {
        if e == 0 { assert(t.edges[0] == HalfEdgeId(0u32)); }
        if e == 1 { assert(t.edges[1] == HalfEdgeId(1u32)); }
        if e == 2 { assert(t.edges[2] == HalfEdgeId(2u32)); }
    }
    assert forall|f: int| 0 <= f < 2 implies (#[trigger] t.faces[f]).halfedge.idx() < t.nh() && t.links[t.faces[f].halfedge.idx()].face.idx() == f by {
        if f == 0 { assert(t.faces[0].halfedge == HalfEdgeId(0u32)); }
        if f == 1 { assert(t.faces[1].halfedge == HalfEdgeId(3u32)); }
    }
    assert forall|h: int| 0 <= h < 6 implies #[trigger] t.link_ok(h) by {
        if h == 0 { assert(t.links[0] == hl(0u32, 3u32, 1u32, 2u32, 0u32, 0u32)); }
        if h == 1 { assert(t.links[1] == hl(1u32, 4u32, 2u32, 0u32, 0u32, 1u32)); }
        if h == 2 { assert(t.links[2] == hl(2u32, 5u32, 0u32, 1u32, 0u32, 2u32)); }
        if h == 3 { assert(t.links[3] == hl(1u32, 0u32, 5u32, 4u32, 1u32, 0u32)); }
        if h == 4 { assert(t.links[4] == hl(2u32, 1u32, 3u32, 5u32, 1u32, 1u32)); }
        if h == 5 { assert(t.links[5] == hl(0u32, 2u32, 4u32, 3u32, 1u32, 2u32)); }
    }
    assert(walk(t.links, HalfEdgeId(0u32), HalfEdgeId(2u32), 4, false) =~= seq![HalfEdgeId(2u32)]);
    assert(walk(t.links, HalfEdgeId(0u32), HalfEdgeId(1u32), 5, false) =~= seq![HalfEdgeId(1u32), HalfEdgeId(2u32)]);
    assert(walk(t.links, HalfEdgeId(0u32), HalfEdgeId(0u32), 6, false) =~= seq![HalfEdgeId(0u32), HalfEdgeId(1u32), HalfEdgeId(2u32)]);
    assert(t.face_loop(0) =~= seq![HalfEdgeId(0u32), HalfEdgeId(1u32), HalfEdgeId(2u32)]);
    assert(walk(t.links, HalfEdgeId(3u32), HalfEdgeId(4u32), 4, false) =~= seq![HalfEdgeId(4u32)]);
    assert(walk(t.links, HalfEdgeId(3u32), HalfEdgeId(5u32), 5, false) =~= seq![HalfEdgeId(5u32), HalfEdgeId(4u32)]);
    assert(walk(t.links, HalfEdgeId(3u32), HalfEdgeId(3u32), 6, false) =~= seq![HalfEdgeId(3u32), HalfEdgeId(5u32), HalfEdgeId(4u32)]);
    assert(t.face_loop(1) =~= seq![HalfEdgeId(3u32), HalfEdgeId(5u32), HalfEdgeId(4u32)]);
    assert forall|f: int| 0 <= f < 2 implies #[trigger] t.loop_ok(f) by {
        if f == 0 { assert(t.face_loop(0) =~= seq![HalfEdgeId(0u32), HalfEdgeId(1u32), HalfEdgeId(2u32)]); }
        if f == 1 { assert(t.face_loop(1) =~= seq![HalfEdgeId(3u32), HalfEdgeId(5u32), HalfEdgeId(4u32)]); }
    }
    assert forall|e: int| 0 <= e < 3 implies #[trigger] t.links[t.edges[e].idx()].face != t.links[t.links[t.edges[e].idx()].twin.idx()].face by {
        if e == 0 { assert(t.edges[0] == HalfEdgeId(0u32)); }
        if e == 1 { assert(t.edges[1] == HalfEdgeId(1u32)); }
        if e == 2 { assert(t.edges[2] == HalfEdgeId(2u32)); }
    }
    let oc0 = Seq::<HalfEdgeLinks>::empty();
    let oc1 = seq![hl(0u32, 3u32, 1u32, 2u32, 0u32, 0u32)];
    let oc2 = seq![hl(0u32, 3u32, 1u32, 2u32, 0u32, 0u32), hl(1u32, 4u32, 2u32, 0u32, 0u32, 1u32)];
    let oc3 = seq![hl(0u32, 3u32, 1u32, 2u32, 0u32, 0u32), hl(1u32, 4u32, 2u32, 0u32, 0u32, 1u32), hl(2u32, 5u32, 0u32, 1u32, 0u32, 2u32)];
    let oc4 = seq![hl(0u32, 3u32, 1u32, 2u32, 0u32, 0u32), hl(1u32, 4u32, 2u32, 0u32, 0u32, 1u32), hl(2u32, 5u32, 0u32, 1u32, 0u32, 2u32), hl(1u32, 0u32, 5u32, 4u32, 1u32, 0u32)];
    let oc5 = seq![hl(0u32, 3u32, 1u32, 2u32, 0u32, 0u32), hl(1u32, 4u32, 2u32, 0u32, 0u32, 1u32), hl(2u32, 5u32, 0u32, 1u32, 0u32, 2u32), hl(1u32, 0u32, 5u32, 4u32, 1u32, 0u32), hl(2u32, 1u32, 3u32, 5u32, 1u32, 1u32)];
    let oc6 = seq![hl(0u32, 3u32, 1u32, 2u32, 0u32, 0u32), hl(1u32, 4u32, 2u32, 0u32, 0u32, 1u32), hl(2u32, 5u32, 0u32, 1u32, 0u32, 2u32), hl(1u32, 0u32, 5u32, 4u32, 1u32, 0u32), hl(2u32, 1u32, 3u32, 5u32, 1u32, 1u32), hl(0u32, 2u32, 4u32, 3u32, 1u32, 2u32)];
    assert(oc1.drop_last() =~= oc0);
    assert(oc2.drop_last() =~= oc1);
    assert(oc3.drop_last() =~= oc2);
    assert(oc4.drop_last() =~= oc3);
    assert(oc5.drop_last() =~= oc4);
    assert(oc6.drop_last() =~= oc5);
    assert(oc6 =~= t.links);
    assert(origin_count(oc0, 0) == 0);
    assert(origin_count(oc1, 0) == 1);
    assert(origin_count(oc2, 0) == 1);
    assert(origin_count(oc3, 0) == 1);
    assert(origin_count(oc4, 0) == 1);
    assert(origin_count(oc5, 0) == 1);
    assert(origin_count(oc6, 0) == 2);
    assert(walk(t.links, HalfEdgeId(0u32), HalfEdgeId(5u32), 5, true) =~= seq![HalfEdgeId(5u32)]);
    assert(walk(t.links, HalfEdgeId(0u32), HalfEdgeId(0u32), 6, true) =~= seq![HalfEdgeId(0u32), HalfEdgeId(5u32)]);
    assert(t.fan(0).len() == 2);
    assert(origin_count(oc0, 1) == 0);
    assert(origin_count(oc1, 1) == 0);
    assert(origin_count(oc2, 1) == 1);
    assert(origin_count(oc3, 1) == 1);
    assert(origin_count(oc4, 1) == 2);
    assert(origin_count(oc5, 1) == 2);
    assert(origin_count(oc6, 1) == 2);
    assert(walk(t.links, HalfEdgeId(1u32), HalfEdgeId(3u32), 5, true) =~= seq![HalfEdgeId(3u32)]);
    assert(walk(t.links, HalfEdgeId(1u32), HalfEdgeId(1u32), 6, true) =~= seq![HalfEdgeId(1u32), HalfEdgeId(3u32)]);
    assert(t.fan(1).len() == 2);
    assert(origin_count(oc0, 2) == 0);
    assert(origin_count(oc1, 2) == 0);
    assert(origin_count(oc2, 2) == 0);
    assert(origin_count(oc3, 2) == 1);
    assert(origin_count(oc4, 2) == 1);
    assert(origin_count(oc5, 2) == 2);
    assert(origin_count(oc6, 2) == 2);
    assert(walk(t.links, HalfEdgeId(2u32), HalfEdgeId(4u32), 5, true) =~= seq![HalfEdgeId(4u32)]);
    assert(walk(t.links, HalfEdgeId(2u32), HalfEdgeId(2u32), 6, true) =~= seq![HalfEdgeId(2u32), HalfEdgeId(4u32)]);
    assert(t.fan(2).len() == 2);
    assert forall|v: int| 0 <= v < 3 implies #[trigger] t.fan_ok(v) by {
        if v == 0 { assert(origin_count(t.links, 0) == origin_count(oc6, 0)); }
        if v == 1 { assert(origin_count(t.links, 1) == origin_count(oc6, 1)); }
        if v == 2 { assert(origin_count(t.links, 2) == origin_count(oc6, 2)); }
    }
    assert(t.valid());
}

/// The triangle closes into a valid mesh over its 3 vertices.
pub proof fn lemma_triangle_builds<L>()
    ensures
        builds_manifold(3, shape_polygons::<L>(triangle_corners())),
        built_topology(3, shape_polygons::<L>(triangle_corners()))->0.nh() == 6,
        built_topology(3, shape_polygons::<L>(triangle_corners()))->0.ne() == 3,
        built_topology(3, shape_polygons::<L>(triangle_corners()))->0.nf() == 2,
        built_topology(3, shape_polygons::<L>(triangle_corners()))->0.interior == 1,
{
    reveal(built_topology);
    assert(shape_polygons::<L>(triangle_corners()).len() == 1);
    lemma_triangle_layout::<L>();
    lemma_triangle_pairs::<L>();
    lemma_triangle_walks::<L>();
    lemma_triangle_close::<L>();
    lemma_triangle_valid::<L>();
    assert(built_topology(3, shape_polygons::<L>(triangle_corners())) == Some(triangle_topology()));
}

spec fn quad_keys() -> Seq<(usize, usize)> {
    seq![(0usize, 1usize), (1usize, 2usize), (2usize, 3usize), (3usize, 0usize)]
}

spec fn quad_links() -> Seq<HalfEdgeLinks> {
    seq![hl(0u32, INVALID_INDEX, 1u32, 3u32, 0u32, INVALID_INDEX), hl(1u32, INVALID_INDEX, 2u32, 0u32, 0u32, INVALID_INDEX), hl(2u32, INVALID_INDEX, 3u32, 1u32, 0u32, INVALID_INDEX), hl(3u32, INVALID_INDEX, 0u32, 2u32, 0u32, INVALID_INDEX)]
}

spec fn quad_outgoing() -> Seq<HalfEdgeId> {
    seq![HalfEdgeId(0u32), HalfEdgeId(1u32), HalfEdgeId(2u32), HalfEdgeId(3u32)]
}

spec fn quad_paired() -> Seq<HalfEdgeLinks> {
    seq![hl(0u32, INVALID_INDEX, 1u32, 3u32, 0u32, INVALID_INDEX), hl(1u32, INVALID_INDEX, 2u32, 0u32, 0u32, INVALID_INDEX), hl(2u32, INVALID_INDEX, 3u32, 1u32, 0u32, INVALID_INDEX), hl(3u32, INVALID_INDEX, 0u32, 2u32, 0u32, INVALID_INDEX)]
}

spec fn quad_pair_edges() -> Seq<HalfEdgeId> {
    Seq::<HalfEdgeId>::empty()
}

spec fn quad_open_sides() -> Seq<usize> {
    seq![0usize, 1usize, 2usize, 3usize]
}

spec fn quad_successors() -> Seq<usize> {
    seq![3usize, 0usize, 1usize, 2usize]
}

spec fn quad_topology() -> Topology {
    topo_of(seq![HalfEdgeId(0u32), HalfEdgeId(1u32), HalfEdgeId(2u32), HalfEdgeId(3u32)], seq![hl(0u32, 4u32, 1u32, 3u32, 0u32, 0u32), hl(1u32, 5u32, 2u32, 0u32, 0u32, 1u32), hl(2u32, 6u32, 3u32, 1u32, 0u32, 2u32), hl(3u32, 7u32, 0u32, 2u32, 0u32, 3u32), hl(1u32, 0u32, 7u32, 5u32, 1u32, 0u32), hl(2u32, 1u32, 4u32, 6u32, 1u32, 1u32), hl(3u32, 2u32, 5u32, 7u32, 1u32, 2u32), hl(0u32, 3u32, 6u32, 4u32, 1u32, 3u32)], seq![HalfEdgeId(0u32), HalfEdgeId(1u32), HalfEdgeId(2u32), HalfEdgeId(3u32)], seq![FaceRecord { halfedge: HalfEdgeId(0u32), kind: FaceKind::Interior, data: FacePayload { material: None, region: None } }, boundary_record(4)], 1)
}

#[verifier::spinoff_prover]
#[verifier::rlimit(60)]
proof fn lemma_quad_layout<L>()
    ensures
        interior_links(shape_polygons::<L>(quad_corners())) == quad_links(),
        all_keys(shape_polygons::<L>(quad_corners())) == quad_keys(),
        interior_records(shape_polygons::<L>(quad_corners())) == seq![FaceRecord { halfedge: HalfEdgeId(0u32), kind: FaceKind::Interior, data: FacePayload { material: None, region: None } }],
        first_outgoing(no_outgoing(4), quad_links(), 4) == quad_outgoing(),
{
    let fs = shape_polygons::<L>(quad_corners());
    assert(fs.len() == 1);
    assert(keys_before(fs, 0) =~= Seq::<(usize, usize)>::empty());
    assert(fs[0].corners =~= seq![0usize, 1usize, 2usize, 3usize]);
    assert(fs[0].data == empty_face_payload());
    assert(face_keys(fs[0]) =~= seq![(0usize, 1usize), (1usize, 2usize), (2usize, 3usize), (3usize, 0usize)]);
    lemma_keys_before_step(fs, 0);
    assert(keys_before(fs, 1) =~= seq![(0usize, 1usize), (1usize, 2usize), (2usize, 3usize), (3usize, 0usize)]);
    let keys = seq![(0usize, 1usize), (1usize, 2usize), (2usize, 3usize), (3usize, 0usize)];
    assert(all_keys(fs) == keys);
    assert(corner_total(fs) == 4);
    assert(interior_link(fs, 0) == hl(0u32, INVALID_INDEX, 1u32, 3u32, 0u32, INVALID_INDEX)) by {
        let w: (int, int) = (0, 0);
        assert(keys_before(fs, 0).len() == 0);
        assert(0 <= w.0 < fs.len() && 0 <= w.1 < fs[w.0].corners.len() && 0 == keys_before(fs, w.0).len() + w.1);
        let p = choose|q: (int, int)| 0 <= q.0 < fs.len() && 0 <= q.1 < fs[q.0].corners.len() && 0 == keys_before(fs, q.0).len() + q.1;
        assert(0 <= p.0 < fs.len());
        assert(keys_before(fs, 0).len() == 0);
    }
    assert(interior_link(fs, 1) == hl(1u32, INVALID_INDEX, 2u32, 0u32, 0u32, INVALID_INDEX)) by {
        let w: (int, int) = (0, 1);
        assert(keys_before(fs, 0).len() == 0);
        assert(0 <= w.0 < fs.len() && 0 <= w.1 < fs[w.0].corners.len() && 1 == keys_before(fs, w.0).len() + w.1);
        let p = choose|q: (int, int)| 0 <= q.0 < fs.len() && 0 <= q.1 < fs[q.0].corners.len() && 1 == keys_before(fs, q.0).len() + q.1;
        assert(0 <= p.0 < fs.len());
        assert(keys_before(fs, 0).len() == 0);
    }
    assert(interior_link(fs, 2) == hl(2u32, INVALID_INDEX, 3u32, 1u32, 0u32, INVALID_INDEX)) by {
        let w: (int, int) = (0, 2);
        assert(keys_before(fs, 0).len() == 0);
        assert(0 <= w.0 < fs.len() && 0 <= w.1 < fs[w.0].corners.len() && 2 == keys_before(fs, w.0).len() + w.1);
        let p = choose|q: (int, int)| 0 <= q.0 < fs.len() && 0 <= q.1 < fs[q.0].corners.len() && 2 == keys_before(fs, q.0).len() + q.1;
        assert(0 <= p.0 < fs.len());
        assert(keys_before(fs, 0).len() == 0);
    }
    assert(interior_link(fs, 3) == hl(3u32, INVALID_INDEX, 0u32, 2u32, 0u32, INVALID_INDEX)) by {
        let w: (int, int) = (0, 3);
        assert(keys_before(fs, 0).len() == 0);
        assert(0 <= w.0 < fs.len() && 0 <= w.1 < fs[w.0].corners.len() && 3 == keys_before(fs, w.0).len() + w.1);
        let p = choose|q: (int, int)| 0 <= q.0 < fs.len() && 0 <= q.1 < fs[q.0].corners.len() && 3 == keys_before(fs, q.0).len() + q.1;
        assert(0 <= p.0 < fs.len());
        assert(keys_before(fs, 0).len() == 0);
    }
    let l0 = seq![hl(0u32, INVALID_INDEX, 1u32, 3u32, 0u32, INVALID_INDEX), hl(1u32, INVALID_INDEX, 2u32, 0u32, 0u32, INVALID_INDEX), hl(2u32, INVALID_INDEX, 3u32, 1u32, 0u32, INVALID_INDEX), hl(3u32, INVALID_INDEX, 0u32, 2u32, 0u32, INVALID_INDEX)];
    assert(interior_links(fs) =~= l0);
    assert(interior_records(fs) =~= seq![FaceRecord { halfedge: HalfEdgeId(0u32), kind: FaceKind::Interior, data: FacePayload { material: None, region: None } }]);
    assert(no_outgoing(4) =~= seq![HalfEdgeId(INVALID_INDEX), HalfEdgeId(INVALID_INDEX), HalfEdgeId(INVALID_INDEX), HalfEdgeId(INVALID_INDEX)]);
    assert(first_outgoing(no_outgoing(4), l0, 0) == no_outgoing(4));
    assert(first_outgoing(no_outgoing(4), l0, 1) =~= seq![HalfEdgeId(0u32), HalfEdgeId(INVALID_INDEX), HalfEdgeId(INVALID_INDEX), HalfEdgeId(INVALID_INDEX)]);
    assert(first_outgoing(no_outgoing(4), l0, 2) =~= seq![HalfEdgeId(0u32), HalfEdgeId(1u32), HalfEdgeId(INVALID_INDEX), HalfEdgeId(INVALID_INDEX)]);
    assert(first_outgoing(no_outgoing(4), l0, 3) =~= seq![HalfEdgeId(0u32), HalfEdgeId(1u32), HalfEdgeId(2u32), HalfEdgeId(INVALID_INDEX)]);
    assert(first_outgoing(no_outgoing(4), l0, 4) =~= seq![HalfEdgeId(0u32), HalfEdgeId(1u32), HalfEdgeId(2u32), HalfEdgeId(3u32)]);
    assert(keys == quad_keys());
    assert(l0 == quad_links());
}

#[verifier::spinoff_prover]
#[verifier::rlimit(60)]
proof fn lemma_quad_pairs<L>()
    ensures
        pair_run(quad_links(), quad_keys(), Seq::<HalfEdgeId>::empty(), Seq::<usize>::empty(), 0) == Some((quad_paired(), quad_pair_edges(), quad_open_sides())),
{
    let fs = shape_polygons::<L>(quad_corners());
    let keys = seq![(0usize, 1usize), (1usize, 2usize), (2usize, 3usize), (3usize, 0usize)];
    let l0 = seq![hl(0u32, INVALID_INDEX, 1u32, 3u32, 0u32, INVALID_INDEX), hl(1u32, INVALID_INDEX, 2u32, 0u32, 0u32, INVALID_INDEX), hl(2u32, INVALID_INDEX, 3u32, 1u32, 0u32, INVALID_INDEX), hl(3u32, INVALID_INDEX, 0u32, 2u32, 0u32, INVALID_INDEX)];
    assert(key_index(keys, (1usize, 0usize), 4) == Option::<int>::None);
    assert(key_index(keys, (1usize, 0usize), 3) == Option::<int>::None);
    assert(key_index(keys, (1usize, 0usize), 2) == Option::<int>::None);
    assert(key_index(keys, (1usize, 0usize), 1) == Option::<int>::None);
    assert(key_index(keys, (1usize, 0usize), 0) == Option::<int>::None);
    assert(reversed(keys[0]) == (1usize, 0usize));
    assert(key_index(keys, (2usize, 1usize), 4) == Option::<int>::None);
    assert(key_index(keys, (2usize, 1usize), 3) == Option::<int>::None);
    assert(key_index(keys, (2usize, 1usize), 2) == Option::<int>::None);
    assert(key_index(keys, (2usize, 1usize), 1) == Option::<int>::None);
    assert(key_index(keys, (2usize, 1usize), 0) == Option::<int>::None);
    assert(reversed(keys[1]) == (2usize, 1usize));
    assert(key_index(keys, (3usize, 2usize), 4) == Option::<int>::None);
    assert(key_index(keys, (3usize, 2usize), 3) == Option::<int>::None);
    assert(key_index(keys, (3usize, 2usize), 2) == Option::<int>::None);
    assert(key_index(keys, (3usize, 2usize), 1) == Option::<int>::None);
    assert(key_index(keys, (3usize, 2usize), 0) == Option::<int>::None);
    assert(reversed(keys[2]) == (3usize, 2usize));
    assert(key_index(keys, (0usize, 3usize), 4) == Option::<int>::None);
    assert(key_index(keys, (0usize, 3usize), 3) == Option::<int>::None);
    assert(key_index(keys, (0usize, 3usize), 2) == Option::<int>::None);
    assert(key_index(keys, (0usize, 3usize), 1) == Option::<int>::None);
    assert(key_index(keys, (0usize, 3usize), 0) == Option::<int>::None);
    assert(reversed(keys[3]) == (0usize, 3usize));
    let pl0 = seq![hl(0u32, INVALID_INDEX, 1u32, 3u32, 0u32, INVALID_INDEX), hl(1u32, INVALID_INDEX, 2u32, 0u32, 0u32, INVALID_INDEX), hl(2u32, INVALID_INDEX, 3u32, 1u32, 0u32, INVALID_INDEX), hl(3u32, INVALID_INDEX, 0u32, 2u32, 0u32, INVALID_INDEX)];
    let pe0 = Seq::<HalfEdgeId>::empty();
    let pb0 = Seq::<usize>::empty();
    let pl1 = seq![hl(0u32, INVALID_INDEX, 1u32, 3u32, 0u32, INVALID_INDEX), hl(1u32, INVALID_INDEX, 2u32, 0u32, 0u32, INVALID_INDEX), hl(2u32, INVALID_INDEX, 3u32, 1u32, 0u32, INVALID_INDEX), hl(3u32, INVALID_INDEX, 0u32, 2u32, 0u32, INVALID_INDEX)];
    let pe1 = Seq::<HalfEdgeId>::empty();
    let pb1 = seq![0usize];
    let pl2 = seq![hl(0u32, INVALID_INDEX, 1u32, 3u32, 0u32, INVALID_INDEX), hl(1u32, INVALID_INDEX, 2u32, 0u32, 0u32, INVALID_INDEX), hl(2u32, INVALID_INDEX, 3u32, 1u32, 0u32, INVALID_INDEX), hl(3u32, INVALID_INDEX, 0u32, 2u32, 0u32, INVALID_INDEX)];
    let pe2 = Seq::<HalfEdgeId>::empty();
    let pb2 = seq![0usize, 1usize];
    let pl3 = seq![hl(0u32, INVALID_INDEX, 1u32, 3u32, 0u32, INVALID_INDEX), hl(1u32, INVALID_INDEX, 2u32, 0u32, 0u32, INVALID_INDEX), hl(2u32, INVALID_INDEX, 3u32, 1u32, 0u32, INVALID_INDEX), hl(3u32, INVALID_INDEX, 0u32, 2u32, 0u32, INVALID_INDEX)];
    let pe3 = Seq::<HalfEdgeId>::empty();
    let pb3 = seq![0usize, 1usize, 2usize];
    let pl4 = seq![hl(0u32, INVALID_INDEX, 1u32, 3u32, 0u32, INVALID_INDEX), hl(1u32, INVALID_INDEX, 2u32, 0u32, 0u32, INVALID_INDEX), hl(2u32, INVALID_INDEX, 3u32, 1u32, 0u32, INVALID_INDEX), hl(3u32, INVALID_INDEX, 0u32, 2u32, 0u32, INVALID_INDEX)];
    let pe4 = Seq::<HalfEdgeId>::empty();
    let pb4 = seq![0usize, 1usize, 2usize, 3usize];
    assert(pair_run(pl4, keys, pe4, pb4, 4) == Some((pl4, pe4, pb4)));
    assert(pb3.push(3 as usize) =~= pb4);
    assert(pair_run(pl3, keys, pe3, pb3, 3) == pair_run(pl4, keys, pe4, pb4, 4));
    assert(pb2.push(2 as usize) =~= pb3);
    assert(pair_run(pl2, keys, pe2, pb2, 2) == pair_run(pl3, keys, pe3, pb3, 3));
    assert(pb1.push(1 as usize) =~= pb2);
    assert(pair_run(pl1, keys, pe1, pb1, 1) == pair_run(pl2, keys, pe2, pb2, 2));
    assert(pb0.push(0 as usize) =~= pb1);
    assert(pair_run(pl0, keys, pe0, pb0, 0) == pair_run(pl1, keys, pe1, pb1, 1));
    assert(pl0 =~= l0);
    assert(pe0 =~= Seq::<HalfEdgeId>::empty());
    assert(pb0 =~= Seq::<usize>::empty());
}

#[verifier::spinoff_prover]
#[verifier::rlimit(60)]
proof fn lemma_quad_walks<L>()
    ensures
        walks_found(quad_paired(), quad_open_sides()),
        walk_successors(quad_paired(), quad_open_sides()) == quad_successors(),
{
    let pl4 = seq![hl(0u32, INVALID_INDEX, 1u32, 3u32, 0u32, INVALID_INDEX), hl(1u32, INVALID_INDEX, 2u32, 0u32, 0u32, INVALID_INDEX), hl(2u32, INVALID_INDEX, 3u32, 1u32, 0u32, INVALID_INDEX), hl(3u32, INVALID_INDEX, 0u32, 2u32, 0u32, INVALID_INDEX)];
    let pb4 = seq![0usize, 1usize, 2usize, 3usize];
    assert(turn_walk(pl4, 3, 0) == Some(3int));
    assert(turn_walk(pl4, 0, 0) == Some(0int));
    assert(turn_walk(pl4, 1, 0) == Some(1int));
    assert(turn_walk(pl4, 2, 0) == Some(2int));
    assert(walks_found(pl4, pb4));
    assert(walk_successors(pl4, pb4) =~= seq![3usize, 0usize, 1usize, 2usize]);
}

#[verifier::spinoff_prover]
#[verifier::rlimit(60)]
proof fn lemma_quad_close<L>()
    ensures
        close_run(quad_outgoing(), quad_paired(), quad_pair_edges(), interior_records(shape_polygons::<L>(quad_corners())), quad_keys(), quad_open_sides(), quad_successors()) == Some((quad_topology().outgoing, quad_topology().links, quad_topology().edges, quad_topology().faces)),
{
    let fs = shape_polygons::<L>(quad_corners());
    let keys = seq![(0usize, 1usize), (1usize, 2usize), (2usize, 3usize), (3usize, 0usize)];
    let l0 = seq![hl(0u32, INVALID_INDEX, 1u32, 3u32, 0u32, INVALID_INDEX), hl(1u32, INVALID_INDEX, 2u32, 0u32, 0u32, INVALID_INDEX), hl(2u32, INVALID_INDEX, 3u32, 1u32, 0u32, INVALID_INDEX), hl(3u32, INVALID_INDEX, 0u32, 2u32, 0u32, INVALID_INDEX)];
    let pl4 = seq![hl(0u32, INVALID_INDEX, 1u32, 3u32, 0u32, INVALID_INDEX), hl(1u32, INVALID_INDEX, 2u32, 0u32, 0u32, INVALID_INDEX), hl(2u32, INVALID_INDEX, 3u32, 1u32, 0u32, INVALID_INDEX), hl(3u32, INVALID_INDEX, 0u32, 2u32, 0u32, INVALID_INDEX)];
    let pe4 = Seq::<HalfEdgeId>::empty();
    let pb4 = seq![0usize, 1usize, 2usize, 3usize];
    lemma_quad_layout::<L>();
    assert(unmatched_map(4, 4) =~= seq![8usize, 8usize, 8usize, 8usize]);
    let go0 = seq![HalfEdgeId(0u32), HalfEdgeId(1u32), HalfEdgeId(2u32), HalfEdgeId(3u32)];
    let gl0 = seq![hl(0u32, INVALID_INDEX, 1u32, 3u32, 0u32, INVALID_INDEX), hl(1u32, INVALID_INDEX, 2u32, 0u32, 0u32, INVALID_INDEX), hl(2u32, INVALID_INDEX, 3u32, 1u32, 0u32, INVALID_INDEX), hl(3u32, INVALID_INDEX, 0u32, 2u32, 0u32, INVALID_INDEX)];
    let ge0 = Seq::<HalfEdgeId>::empty();
    let gm0 = seq![8usize, 8usize, 8usize, 8usize];
    let go1 = seq![HalfEdgeId(0u32), HalfEdgeId(1u32), HalfEdgeId(2u32), HalfEdgeId(3u32)];
    let gl1 = seq![hl(0u32, 4u32, 1u32, 3u32, 0u32, 0u32), hl(1u32, INVALID_INDEX, 2u32, 0u32, 0u32, INVALID_INDEX), hl(2u32, INVALID_INDEX, 3u32, 1u32, 0u32, INVALID_INDEX), hl(3u32, INVALID_INDEX, 0u32, 2u32, 0u32, INVALID_INDEX), hl(1u32, 0u32, INVALID_INDEX, INVALID_INDEX, INVALID_INDEX, 0u32)];
    let ge1 = seq![HalfEdgeId(0u32)];
    let gm1 = seq![4usize, 8usize, 8usize, 8usize];
    let go2 = seq![HalfEdgeId(0u32), HalfEdgeId(1u32), HalfEdgeId(2u32), HalfEdgeId(3u32)];
    let gl2 = seq![hl(0u32, 4u32, 1u32, 3u32, 0u32, 0u32), hl(1u32, 5u32, 2u32, 0u32, 0u32, 1u32), hl(2u32, INVALID_INDEX, 3u32, 1u32, 0u32, INVALID_INDEX), hl(3u32, INVALID_INDEX, 0u32, 2u32, 0u32, INVALID_INDEX), hl(1u32, 0u32, INVALID_INDEX, INVALID_INDEX, INVALID_INDEX, 0u32), hl(2u32, 1u32, INVALID_INDEX, INVALID_INDEX, INVALID_INDEX, 1u32)];
    let ge2 = seq![HalfEdgeId(0u32), HalfEdgeId(1u32)];
    let gm2 = seq![4usize, 5usize, 8usize, 8usize];
    let go3 = seq![HalfEdgeId(0u32), HalfEdgeId(1u32), HalfEdgeId(2u32), HalfEdgeId(3u32)];
    let gl3 = seq![hl(0u32, 4u32, 1u32, 3u32, 0u32, 0u32), hl(1u32, 5u32, 2u32, 0u32, 0u32, 1u32), hl(2u32, 6u32, 3u32, 1u32, 0u32, 2u32), hl(3u32, INVALID_INDEX, 0u32, 2u32, 0u32, INVALID_INDEX), hl(1u32, 0u32, INVALID_INDEX, INVALID_INDEX, INVALID_INDEX, 0u32), hl(2u32, 1u32, INVALID_INDEX, INVALID_INDEX, INVALID_INDEX, 1u32), hl(3u32, 2u32, INVALID_INDEX, INVALID_INDEX, INVALID_INDEX, 2u32)];
    let ge3 = seq![HalfEdgeId(0u32), HalfEdgeId(1u32), HalfEdgeId(2u32)];
    let gm3 = seq![4usize, 5usize, 6usize, 8usize];
    let go4 = seq![HalfEdgeId(0u32), HalfEdgeId(1u32), HalfEdgeId(2u32), HalfEdgeId(3u32)];
    let gl4 = seq![hl(0u32, 4u32, 1u32, 3u32, 0u32, 0u32), hl(1u32, 5u32, 2u32, 0u32, 0u32, 1u32), hl(2u32, 6u32, 3u32, 1u32, 0u32, 2u32), hl(3u32, 7u32, 0u32, 2u32, 0u32, 3u32), hl(1u32, 0u32, INVALID_INDEX, INVALID_INDEX, INVALID_INDEX, 0u32), hl(2u32, 1u32, INVALID_INDEX, INVALID_INDEX, INVALID_INDEX, 1u32), hl(3u32, 2u32, INVALID_INDEX, INVALID_INDEX, INVALID_INDEX, 2u32), hl(0u32, 3u32, INVALID_INDEX, INVALID_INDEX, INVALID_INDEX, 3u32)];
    let ge4 = seq![HalfEdgeId(0u32), HalfEdgeId(1u32), HalfEdgeId(2u32), HalfEdgeId(3u32)];
    let gm4 = seq![4usize, 5usize, 6usize, 7usize];
    assert(ghosts_run((go4, gl4, ge4, gm4), keys, pb4, 4) == (go4, gl4, ge4, gm4));
    assert(gl3.update(3, HalfEdgeLinks { twin: HalfEdgeId(7 as u32), edge: EdgeId(3 as u32), ..gl3[3] }).push(HalfEdgeLinks { origin: VertexId(0 as u32), twin: HalfEdgeId(3 as u32), next: HalfEdgeId(INVALID_INDEX), prev: HalfEdgeId(INVALID_INDEX), face: FaceId(INVALID_INDEX), edge: EdgeId(3 as u32) }) =~= gl4);
    assert(ge3.push(HalfEdgeId(3 as u32)) =~= ge4);
    assert(gm3.update(3, 7 as usize) =~= gm4);
    assert(go3 =~= go4);
    assert(ghosts_run((go3, gl3, ge3, gm3), keys, pb4, 3) == ghosts_run((go4, gl4, ge4, gm4), keys, pb4, 4));
    assert(gl2.update(2, HalfEdgeLinks { twin: HalfEdgeId(6 as u32), edge: EdgeId(2 as u32), ..gl2[2] }).push(HalfEdgeLinks { origin: VertexId(3 as u32), twin: HalfEdgeId(2 as u32), next: HalfEdgeId(INVALID_INDEX), prev: HalfEdgeId(INVALID_INDEX), face: FaceId(INVALID_INDEX), edge: EdgeId(2 as u32) }) =~= gl3);
    assert(ge2.push(HalfEdgeId(2 as u32)) =~= ge3);
    assert(gm2.update(2, 6 as usize) =~= gm3);
    assert(go2 =~= go3);
    assert(ghosts_run((go2, gl2, ge2, gm2), keys, pb4, 2) == ghosts_run((go3, gl3, ge3, gm3), keys, pb4, 3));
    assert(gl1.update(1, HalfEdgeLinks { twin: HalfEdgeId(5 as u32), edge: EdgeId(1 as u32), ..gl1[1] }).push(HalfEdgeLinks { origin: VertexId(2 as u32), twin: HalfEdgeId(1 as u32), next: HalfEdgeId(INVALID_INDEX), prev: HalfEdgeId(INVALID_INDEX), face: FaceId(INVALID_INDEX), edge: EdgeId(1 as u32) }) =~= gl2);
    assert(ge1.push(HalfEdgeId(1 as u32)) =~= ge2);
    assert(gm1.update(1, 5 as usize) =~= gm2);
    assert(go1 =~= go2);
    assert(ghosts_run((go1, gl1, ge1, gm1), keys, pb4, 1) == ghosts_run((go2, gl2, ge2, gm2), keys, pb4, 2));
    assert(gl0.update(0, HalfEdgeLinks { twin: HalfEdgeId(4 as u32), edge: EdgeId(0 as u32), ..gl0[0] }).push(HalfEdgeLinks { origin: VertexId(1 as u32), twin: HalfEdgeId(0 as u32), next: HalfEdgeId(INVALID_INDEX), prev: HalfEdgeId(INVALID_INDEX), face: FaceId(INVALID_INDEX), edge: EdgeId(0 as u32) }) =~= gl1);
    assert(ge0.push(HalfEdgeId(0 as u32)) =~= ge1);
    assert(gm0.update(0, 4 as usize) =~= gm1);
    assert(go0 =~= go1);
    assert(ghosts_run((go0, gl0, ge0, gm0), keys, pb4, 0) == ghosts_run((go1, gl1, ge1, gm1), keys, pb4, 1));
    assert(go0 =~= first_outgoing(no_outgoing(4), l0, 4));
    let nl0 = seq![hl(0u32, 4u32, 1u32, 3u32, 0u32, 0u32), hl(1u32, 5u32, 2u32, 0u32, 0u32, 1u32), hl(2u32, 6u32, 3u32, 1u32, 0u32, 2u32), hl(3u32, 7u32, 0u32, 2u32, 0u32, 3u32), hl(1u32, 0u32, INVALID_INDEX, INVALID_INDEX, INVALID_INDEX, 0u32), hl(2u32, 1u32, INVALID_INDEX, INVALID_INDEX, INVALID_INDEX, 1u32), hl(3u32, 2u32, INVALID_INDEX, INVALID_INDEX, INVALID_INDEX, 2u32), hl(0u32, 3u32, INVALID_INDEX, INVALID_INDEX, INVALID_INDEX, 3u32)];
    let nl1 = seq![hl(0u32, 4u32, 1u32, 3u32, 0u32, 0u32), hl(1u32, 5u32, 2u32, 0u32, 0u32, 1u32), hl(2u32, 6u32, 3u32, 1u32, 0u32, 2u32), hl(3u32, 7u32, 0u32, 2u32, 0u32, 3u32), hl(1u32, 0u32, 7u32, INVALID_INDEX, INVALID_INDEX, 0u32), hl(2u32, 1u32, INVALID_INDEX, INVALID_INDEX, INVALID_INDEX, 1u32), hl(3u32, 2u32, INVALID_INDEX, INVALID_INDEX, INVALID_INDEX, 2u32), hl(0u32, 3u32, INVALID_INDEX, 4u32, INVALID_INDEX, 3u32)];
    let nl2 = seq![hl(0u32, 4u32, 1u32, 3u32, 0u32, 0u32), hl(1u32, 5u32, 2u32, 0u32, 0u32, 1u32), hl(2u32, 6u32, 3u32, 1u32, 0u32, 2u32), hl(3u32, 7u32, 0u32, 2u32, 0u32, 3u32), hl(1u32, 0u32, 7u32, 5u32, INVALID_INDEX, 0u32), hl(2u32, 1u32, 4u32, INVALID_INDEX, INVALID_INDEX, 1u32), hl(3u32, 2u32, INVALID_INDEX, INVALID_INDEX, INVALID_INDEX, 2u32), hl(0u32, 3u32, INVALID_INDEX, 4u32, INVALID_INDEX, 3u32)];
    let nl3 = seq![hl(0u32, 4u32, 1u32, 3u32, 0u32, 0u32), hl(1u32, 5u32, 2u32, 0u32, 0u32, 1u32), hl(2u32, 6u32, 3u32, 1u32, 0u32, 2u32), hl(3u32, 7u32, 0u32, 2u32, 0u32, 3u32), hl(1u32, 0u32, 7u32, 5u32, INVALID_INDEX, 0u32), hl(2u32, 1u32, 4u32, 6u32, INVALID_INDEX, 1u32), hl(3u32, 2u32, 5u32, INVALID_INDEX, INVALID_INDEX, 2u32), hl(0u32, 3u32, INVALID_INDEX, 4u32, INVALID_INDEX, 3u32)];
    let nl4 = seq![hl(0u32, 4u32, 1u32, 3u32, 0u32, 0u32), hl(1u32, 5u32, 2u32, 0u32, 0u32, 1u32), hl(2u32, 6u32, 3u32, 1u32, 0u32, 2u32), hl(3u32, 7u32, 0u32, 2u32, 0u32, 3u32), hl(1u32, 0u32, 7u32, 5u32, INVALID_INDEX, 0u32), hl(2u32, 1u32, 4u32, 6u32, INVALID_INDEX, 1u32), hl(3u32, 2u32, 5u32, 7u32, INVALID_INDEX, 2u32), hl(0u32, 3u32, 6u32, 4u32, INVALID_INDEX, 3u32)];
    assert(nexts_run(nl4, gm4, pb4, seq![3usize, 0usize, 1usize, 2usize], 4) == Some(nl4));
    assert(nl3.update(7, HalfEdgeLinks { next: HalfEdgeId(6 as u32), ..nl3[7] }).update(6, HalfEdgeLinks { prev: HalfEdgeId(7 as u32), ..nl3.update(7, HalfEdgeLinks { next: HalfEdgeId(6 as u32), ..nl3[7] })[6] }) =~= nl4);
    assert(nexts_run(nl3, gm4, pb4, seq![3usize, 0usize, 1usize, 2usize], 3) == nexts_run(nl4, gm4, pb4, seq![3usize, 0usize, 1usize, 2usize], 4));
    assert(nl2.update(6, HalfEdgeLinks { next: HalfEdgeId(5 as u32), ..nl2[6] }).update(5, HalfEdgeLinks { prev: HalfEdgeId(6 as u32), ..nl2.update(6, HalfEdgeLinks { next: HalfEdgeId(5 as u32), ..nl2[6] })[5] }) =~= nl3);
    assert(nexts_run(nl2, gm4, pb4, seq![3usize, 0usize, 1usize, 2usize], 2) == nexts_run(nl3, gm4, pb4, seq![3usize, 0usize, 1usize, 2usize], 3));
    assert(nl1.update(5, HalfEdgeLinks { next: HalfEdgeId(4 as u32), ..nl1[5] }).update(4, HalfEdgeLinks { prev: HalfEdgeId(5 as u32), ..nl1.update(5, HalfEdgeLinks { next: HalfEdgeId(4 as u32), ..nl1[5] })[4] }) =~= nl2);
    assert(nexts_run(nl1, gm4, pb4, seq![3usize, 0usize, 1usize, 2usize], 1) == nexts_run(nl2, gm4, pb4, seq![3usize, 0usize, 1usize, 2usize], 2));
    assert(nl0.update(4, HalfEdgeLinks { next: HalfEdgeId(7 as u32), ..nl0[4] }).update(7, HalfEdgeLinks { prev: HalfEdgeId(4 as u32), ..nl0.update(4, HalfEdgeLinks { next: HalfEdgeId(7 as u32), ..nl0[4] })[7] }) =~= nl1);
    assert(nexts_run(nl0, gm4, pb4, seq![3usize, 0usize, 1usize, 2usize], 0) == nexts_run(nl1, gm4, pb4, seq![3usize, 0usize, 1usize, 2usize], 1));
    assert(nl0 =~= gl4);
    let fl0 = seq![hl(0u32, 4u32, 1u32, 3u32, 0u32, 0u32), hl(1u32, 5u32, 2u32, 0u32, 0u32, 1u32), hl(2u32, 6u32, 3u32, 1u32, 0u32, 2u32), hl(3u32, 7u32, 0u32, 2u32, 0u32, 3u32), hl(1u32, 0u32, 7u32, 5u32, INVALID_INDEX, 0u32), hl(2u32, 1u32, 4u32, 6u32, INVALID_INDEX, 1u32), hl(3u32, 2u32, 5u32, 7u32, INVALID_INDEX, 2u32), hl(0u32, 3u32, 6u32, 4u32, INVALID_INDEX, 3u32)];
    let fv0 = seq![false, false, false, false, false, false, false, false];
    let fr0 = seq![FaceRecord { halfedge: HalfEdgeId(0u32), kind: FaceKind::Interior, data: FacePayload { material: None, region: None } }];
    let fl1 = seq![hl(0u32, 4u32, 1u32, 3u32, 0u32, 0u32), hl(1u32, 5u32, 2u32, 0u32, 0u32, 1u32), hl(2u32, 6u32, 3u32, 1u32, 0u32, 2u32), hl(3u32, 7u32, 0u32, 2u32, 0u32, 3u32), hl(1u32, 0u32, 7u32, 5u32, 1u32, 0u32), hl(2u32, 1u32, 4u32, 6u32, 1u32, 1u32), hl(3u32, 2u32, 5u32, 7u32, 1u32, 2u32), hl(0u32, 3u32, 6u32, 4u32, 1u32, 3u32)];
    let fv1 = seq![false, false, false, false, true, true, true, true];
    let fr1 = seq![FaceRecord { halfedge: HalfEdgeId(0u32), kind: FaceKind::Interior, data: FacePayload { material: None, region: None } }, boundary_record(4)];
    let fl2 = seq![hl(0u32, 4u32, 1u32, 3u32, 0u32, 0u32), hl(1u32, 5u32, 2u32, 0u32, 0u32, 1u32), hl(2u32, 6u32, 3u32, 1u32, 0u32, 2u32), hl(3u32, 7u32, 0u32, 2u32, 0u32, 3u32), hl(1u32, 0u32, 7u32, 5u32, 1u32, 0u32), hl(2u32, 1u32, 4u32, 6u32, 1u32, 1u32), hl(3u32, 2u32, 5u32, 7u32, 1u32, 2u32), hl(0u32, 3u32, 6u32, 4u32, 1u32, 3u32)];
    let fv2 = seq![false, false, false, false, true, true, true, true];
    let fr2 = seq![FaceRecord { halfedge: HalfEdgeId(0u32), kind: FaceKind::Interior, data: FacePayload { material: None, region: None } }, boundary_record(4)];
    let fl3 = seq![hl(0u32, 4u32, 1u32, 3u32, 0u32, 0u32), hl(1u32, 5u32, 2u32, 0u32, 0u32, 1u32), hl(2u32, 6u32, 3u32, 1u32, 0u32, 2u32), hl(3u32, 7u32, 0u32, 2u32, 0u32, 3u32), hl(1u32, 0u32, 7u32, 5u32, 1u32, 0u32), hl(2u32, 1u32, 4u32, 6u32, 1u32, 1u32), hl(3u32, 2u32, 5u32, 7u32, 1u32, 2u32), hl(0u32, 3u32, 6u32, 4u32, 1u32, 3u32)];
    let fv3 = seq![false, false, false, false, true, true, true, true];
    let fr3 = seq![FaceRecord { halfedge: HalfEdgeId(0u32), kind: FaceKind::Interior, data: FacePayload { material: None, region: None } }, boundary_record(4)];
    let fl4 = seq![hl(0u32, 4u32, 1u32, 3u32, 0u32, 0u32), hl(1u32, 5u32, 2u32, 0u32, 0u32, 1u32), hl(2u32, 6u32, 3u32, 1u32, 0u32, 2u32), hl(3u32, 7u32, 0u32, 2u32, 0u32, 3u32), hl(1u32, 0u32, 7u32, 5u32, 1u32, 0u32), hl(2u32, 1u32, 4u32, 6u32, 1u32, 1u32), hl(3u32, 2u32, 5u32, 7u32, 1u32, 2u32), hl(0u32, 3u32, 6u32, 4u32, 1u32, 3u32)];
    let fv4 = seq![false, false, false, false, true, true, true, true];
    let fr4 = seq![FaceRecord { halfedge: HalfEdgeId(0u32), kind: FaceKind::Interior, data: FacePayload { material: None, region: None } }, boundary_record(4)];
    assert(faces_run(fl4, fv4, fr4, 4, 4, 4) == Some((fl4, fr4)));
    assert(fl3 =~= fl4 && fv3 =~= fv4 && fr3 =~= fr4);
    assert(faces_run(fl3, fv3, fr3, 3, 4, 4) == faces_run(fl4, fv4, fr4, 4, 4, 4));
    assert(fl2 =~= fl3 && fv2 =~= fv3 && fr2 =~= fr3);
    assert(faces_run(fl2, fv2, fr2, 2, 4, 4) == faces_run(fl3, fv3, fr3, 3, 4, 4));
    assert(fl1 =~= fl2 && fv1 =~= fv2 && fr1 =~= fr2);
    assert(faces_run(fl1, fv1, fr1, 1, 4, 4) == faces_run(fl2, fv2, fr2, 2, 4, 4));
    let w0l0 = seq![hl(0u32, 4u32, 1u32, 3u32, 0u32, 0u32), hl(1u32, 5u32, 2u32, 0u32, 0u32, 1u32), hl(2u32, 6u32, 3u32, 1u32, 0u32, 2u32), hl(3u32, 7u32, 0u32, 2u32, 0u32, 3u32), hl(1u32, 0u32, 7u32, 5u32, INVALID_INDEX, 0u32), hl(2u32, 1u32, 4u32, 6u32, INVALID_INDEX, 1u32), hl(3u32, 2u32, 5u32, 7u32, INVALID_INDEX, 2u32), hl(0u32, 3u32, 6u32, 4u32, INVALID_INDEX, 3u32)];
    let w0v0 = seq![false, false, false, false, false, false, false, false];
    let w0l1 = seq![hl(0u32, 4u32, 1u32, 3u32, 0u32, 0u32), hl(1u32, 5u32, 2u32, 0u32, 0u32, 1u32), hl(2u32, 6u32, 3u32, 1u32, 0u32, 2u32), hl(3u32, 7u32, 0u32, 2u32, 0u32, 3u32), hl(1u32, 0u32, 7u32, 5u32, 1u32, 0u32), hl(2u32, 1u32, 4u32, 6u32, INVALID_INDEX, 1u32), hl(3u32, 2u32, 5u32, 7u32, INVALID_INDEX, 2u32), hl(0u32, 3u32, 6u32, 4u32, INVALID_INDEX, 3u32)];
    let w0v1 = seq![false, false, false, false, true, false, false, false];
    let w0l2 = seq![hl(0u32, 4u32, 1u32, 3u32, 0u32, 0u32), hl(1u32, 5u32, 2u32, 0u32, 0u32, 1u32), hl(2u32, 6u32, 3u32, 1u32, 0u32, 2u32), hl(3u32, 7u32, 0u32, 2u32, 0u32, 3u32), hl(1u32, 0u32, 7u32, 5u32, 1u32, 0u32), hl(2u32, 1u32, 4u32, 6u32, INVALID_INDEX, 1u32), hl(3u32, 2u32, 5u32, 7u32, INVALID_INDEX, 2u32), hl(0u32, 3u32, 6u32, 4u32, 1u32, 3u32)];
    let w0v2 = seq![false, false, false, false, true, false, false, true];
    let w0l3 = seq![hl(0u32, 4u32, 1u32, 3u32, 0u32, 0u32), hl(1u32, 5u32, 2u32, 0u32, 0u32, 1u32), hl(2u32, 6u32, 3u32, 1u32, 0u32, 2u32), hl(3u32, 7u32, 0u32, 2u32, 0u32, 3u32), hl(1u32, 0u32, 7u32, 5u32, 1u32, 0u32), hl(2u32, 1u32, 4u32, 6u32, INVALID_INDEX, 1u32), hl(3u32, 2u32, 5u32, 7u32, 1u32, 2u32), hl(0u32, 3u32, 6u32, 4u32, 1u32, 3u32)];
    let w0v3 = seq![false, false, false, false, true, false, true, true];
    let w0l4 = seq![hl(0u32, 4u32, 1u32, 3u32, 0u32, 0u32), hl(1u32, 5u32, 2u32, 0u32, 0u32, 1u32), hl(2u32, 6u32, 3u32, 1u32, 0u32, 2u32), hl(3u32, 7u32, 0u32, 2u32, 0u32, 3u32), hl(1u32, 0u32, 7u32, 5u32, 1u32, 0u32), hl(2u32, 1u32, 4u32, 6u32, 1u32, 1u32), hl(3u32, 2u32, 5u32, 7u32, 1u32, 2u32), hl(0u32, 3u32, 6u32, 4u32, 1u32, 3u32)];
    let w0v4 = seq![false, false, false, false, true, true, true, true];
    assert(w0l4 =~= fl1 && w0v4 =~= fv1);
    assert(w0v3.update(5, true) =~= w0v4);
    assert(w0l3.update(5, HalfEdgeLinks { face: FaceId(1 as u32), ..w0l3[5] }) =~= w0l4);
    assert(walk_face(w0l3, w0v3, 4, 5, 1, 3, 4, 8) == Some((w0l4, w0v4)));
    assert(w0v2.update(6, true) =~= w0v3);
    assert(w0l2.update(6, HalfEdgeLinks { face: FaceId(1 as u32), ..w0l2[6] }) =~= w0l3);
    assert(walk_face(w0l2, w0v2, 4, 6, 1, 2, 4, 8) == walk_face(w0l3, w0v3, 4, 5, 1, 3, 4, 8));
    assert(w0v1.update(7, true) =~= w0v2);
    assert(w0l1.update(7, HalfEdgeLinks { face: FaceId(1 as u32), ..w0l1[7] }) =~= w0l2);
    assert(walk_face(w0l1, w0v1, 4, 7, 1, 1, 4, 8) == walk_face(w0l2, w0v2, 4, 6, 1, 2, 4, 8));
    assert(w0v0.update(4, true) =~= w0v1);
    assert(w0l0.update(4, HalfEdgeLinks { face: FaceId(1 as u32), ..w0l0[4] }) =~= w0l1);
    assert(walk_face(w0l0, w0v0, 4, 4, 1, 0, 4, 8) == walk_face(w0l1, w0v1, 4, 7, 1, 1, 4, 8));
    assert(w0l0 =~= fl0 && w0v0 =~= fv0);
    assert(fr0.push(boundary_record(4)) =~= fr1);
    assert(fr0.len() == 1);
    assert(faces_run(fl0, fv0, fr0, 0, 4, 4) == faces_run(fl1, fv1, fr1, 1, 4, 4));
    assert(fl0 =~= nl4);
    assert(fv0 =~= unvisited(8));
    assert(fr0 =~= interior_records(fs));
    assert(close_run(go0, pl4, pe4, interior_records(fs), keys, pb4, seq![3usize, 0usize, 1usize, 2usize]) == Some((go4, fl4, ge4, fr4)));
}

#[verifier::spinoff_prover]
#[verifier::rlimit(60)]
proof fn lemma_quad_valid<L>()
    ensures
        quad_topology().valid(),
{
    let t = quad_topology();
    assert forall|v: int| 0 <= v < 4 && (#[trigger] t.outgoing[v]).valid() implies t.outgoing[v].idx() < t.nh() && t.links[t.outgoing[v].idx()].origin.idx() == v by {
        if v == 0 { assert(t.outgoing[0] == HalfEdgeId(0u32)); }
        if v == 1 { assert(t.outgoing[1] == HalfEdgeId(1u32)); }
        if v == 2 { assert(t.outgoing[2] == HalfEdgeId(2u32)); }
        if v == 3 { assert(t.outgoing[3] == HalfEdgeId(3u32)); }
    }
    assert forall|e: int| 0 <= e < 4 implies (#[trigger] t.edges[e]).idx() < t.nh() && t.links[t.edges[e].idx()].edge.idx() == e by {
        if e == 0 { assert(t.edges[0] == HalfEdgeId(0u32)); }
        if e == 1 { assert(t.edges[1] == HalfEdgeId(1u32)); }
        if e == 2 { assert(t.edges[2] == HalfEdgeId(2u32)); }
        if e == 3 { assert(t.edges[3] == HalfEdgeId(3u32)); }
    }
    assert forall|f: int| 0 <= f < 2 implies (#[trigger] t.faces[f]).halfedge.idx() < t.nh() && t.links[t.faces[f].halfedge.idx()].face.idx() == f by {
        if f == 0 { assert(t.faces[0].halfedge == HalfEdgeId(0u32)); }
        if f == 1 { assert(t.faces[1].halfedge == HalfEdgeId(4u32)); }
    }
    assert forall|h: int| 0 <= h < 8 implies #[trigger] t.link_ok(h) by {
        if h == 0 { assert(t.links[0] == hl(0u32, 4u32, 1u32, 3u32, 0u32, 0u32)); }
        if h == 1 { assert(t.links[1] == hl(1u32, 5u32, 2u32, 0u32, 0u32, 1u32)); }
        if h == 2 { assert(t.links[2] == hl(2u32, 6u32, 3u32, 1u32, 0u32, 2u32)); }
        if h == 3 { assert(t.links[3] == hl(3u32, 7u32, 0u32, 2u32, 0u32, 3u32)); }
        if h == 4 { assert(t.links[4] == hl(1u32, 0u32, 7u32, 5u32, 1u32, 0u32)); }
        if h == 5 { assert(t.links[5] == hl(2u32, 1u32, 4u32, 6u32, 1u32, 1u32)); }
        if h == 6 { assert(t.links[6] == hl(3u32, 2u32, 5u32, 7u32, 1u32, 2u32)); }
        if h == 7 { assert(t.links[7] == hl(0u32, 3u32, 6u32, 4u32, 1u32, 3u32)); }
    }
    assert(walk(t.links, HalfEdgeId(0u32), HalfEdgeId(3u32), 5, false) =~= seq![HalfEdgeId(3u32)]);
    assert(walk(t.links, HalfEdgeId(0u32), HalfEdgeId(2u32), 6, false) =~= seq![HalfEdgeId(2u32), HalfEdgeId(3u32)]);
    assert(walk(t.links, HalfEdgeId(0u32), HalfEdgeId(1u32), 7, false) =~= seq![HalfEdgeId(1u32), HalfEdgeId(2u32), HalfEdgeId(3u32)]);
    assert(walk(t.links, HalfEdgeId(0u32), HalfEdgeId(0u32), 8, false) =~= seq![HalfEdgeId(0u32), HalfEdgeId(1u32), HalfEdgeId(2u32), HalfEdgeId(3u32)]);
    assert(t.face_loop(0) =~= seq![HalfEdgeId(0u32), HalfEdgeId(1u32), HalfEdgeId(2u32), HalfEdgeId(3u32)]);
    assert(walk(t.links, HalfEdgeId(4u32), HalfEdgeId(5u32), 5, false) =~= seq![HalfEdgeId(5u32)]);
    assert(walk(t.links, HalfEdgeId(4u32), HalfEdgeId(6u32), 6, false) =~= seq![HalfEdgeId(6u32), HalfEdgeId(5u32)]);
    assert(walk(t.links, HalfEdgeId(4u32), HalfEdgeId(7u32), 7, false) =~= seq![HalfEdgeId(7u32), HalfEdgeId(6u32), HalfEdgeId(5u32)]);
    assert(walk(t.links, HalfEdgeId(4u32), HalfEdgeId(4u32), 8, false) =~= seq![HalfEdgeId(4u32), HalfEdgeId(7u32), HalfEdgeId(6u32), HalfEdgeId(5u32)]);
    assert(t.face_loop(1) =~= seq![HalfEdgeId(4u32), HalfEdgeId(7u32), HalfEdgeId(6u32), HalfEdgeId(5u32)]);
    assert forall|f: int| 0 <= f < 2 implies #[trigger] t.loop_ok(f) by {
        if f == 0 { assert(t.face_loop(0) =~= seq![HalfEdgeId(0u32), HalfEdgeId(1u32), HalfEdgeId(2u32), HalfEdgeId(3u32)]); }
        if f == 1 { assert(t.face_loop(1) =~= seq![HalfEdgeId(4u32), HalfEdgeId(7u32), HalfEdgeId(6u32), HalfEdgeId(5u32)]); }
    }
    assert forall|e: int| 0 <= e < 4 implies #[trigger] t.links[t.edges[e].idx()].face != t.links[t.links[t.edges[e].idx()].twin.idx()].face by {
        if e == 0 { assert(t.edges[0] == HalfEdgeId(0u32)); }
        if e == 1 { assert(t.edges[1] == HalfEdgeId(1u32)); }
        if e == 2 { assert(t.edges[2] == HalfEdgeId(2u32)); }
        if e == 3 { assert(t.edges[3] == HalfEdgeId(3u32)); }
    }
    let oc0 = Seq::<HalfEdgeLinks>::empty();
    let oc1 = seq![hl(0u32, 4u32, 1u32, 3u32, 0u32, 0u32)];
    let oc2 = seq![hl(0u32, 4u32, 1u32, 3u32, 0u32, 0u32), hl(1u32, 5u32, 2u32, 0u32, 0u32, 1u32)];
    let oc3 = seq![hl(0u32, 4u32, 1u32, 3u32, 0u32, 0u32), hl(1u32, 5u32, 2u32, 0u32, 0u32, 1u32), hl(2u32, 6u32, 3u32, 1u32, 0u32, 2u32)];
    let oc4 = seq![hl(0u32, 4u32, 1u32, 3u32, 0u32, 0u32), hl(1u32, 5u32, 2u32, 0u32, 0u32, 1u32), hl(2u32, 6u32, 3u32, 1u32, 0u32, 2u32), hl(3u32, 7u32, 0u32, 2u32, 0u32, 3u32)];
    let oc5 = seq![hl(0u32, 4u32, 1u32, 3u32, 0u32, 0u32), hl(1u32, 5u32, 2u32, 0u32, 0u32, 1u32), hl(2u32, 6u32, 3u32, 1u32, 0u32, 2u32), hl(3u32, 7u32, 0u32, 2u32, 0u32, 3u32), hl(1u32, 0u32, 7u32, 5u32, 1u32, 0u32)];
    let oc6 = seq![hl(0u32, 4u32, 1u32, 3u32, 0u32, 0u32), hl(1u32, 5u32, 2u32, 0u32, 0u32, 1u32), hl(2u32, 6u32, 3u32, 1u32, 0u32, 2u32), hl(3u32, 7u32, 0u32, 2u32, 0u32, 3u32), hl(1u32, 0u32, 7u32, 5u32, 1u32, 0u32), hl(2u32, 1u32, 4u32, 6u32, 1u32, 1u32)];
    let oc7 = seq![hl(0u32, 4u32, 1u32, 3u32, 0u32, 0u32), hl(1u32, 5u32, 2u32, 0u32, 0u32, 1u32), hl(2u32, 6u32, 3u32, 1u32, 0u32, 2u32), hl(3u32, 7u32, 0u32, 2u32, 0u32, 3u32), hl(1u32, 0u32, 7u32, 5u32, 1u32, 0u32), hl(2u32, 1u32, 4u32, 6u32, 1u32, 1u32), hl(3u32, 2u32, 5u32, 7u32, 1u32, 2u32)];
    let oc8 = seq![hl(0u32, 4u32, 1u32, 3u32, 0u32, 0u32), hl(1u32, 5u32, 2u32, 0u32, 0u32, 1u32), hl(2u32, 6u32, 3u32, 1u32, 0u32, 2u32), hl(3u32, 7u32, 0u32, 2u32, 0u32, 3u32), hl(1u32, 0u32, 7u32, 5u32, 1u32, 0u32), hl(2u32, 1u32, 4u32, 6u32, 1u32, 1u32), hl(3u32, 2u32, 5u32, 7u32, 1u32, 2u32), hl(0u32, 3u32, 6u32, 4u32, 1u32, 3u32)];
    assert(oc1.drop_last() =~= oc0);
    assert(oc2.drop_last() =~= oc1);
    assert(oc3.drop_last() =~= oc2);
    assert(oc4.drop_last() =~= oc3);
    assert(oc5.drop_last() =~= oc4);
    assert(oc6.drop_last() =~= oc5);
    assert(oc7.drop_last() =~= oc6);
    assert(oc8.drop_last() =~= oc7);
    assert(oc8 =~= t.links);
    assert(origin_count(oc0, 0) == 0);
    assert(origin_count(oc1, 0) == 1);
    assert(origin_count(oc2, 0) == 1);
    assert(origin_count(oc3, 0) == 1);
    assert(origin_count(oc4, 0) == 1);
    assert(origin_count(oc5, 0) == 1);
    assert(origin_count(oc6, 0) == 1);
    assert(origin_count(oc7, 0) == 1);
    assert(origin_count(oc8, 0) == 2);
    assert(walk(t.links, HalfEdgeId(0u32), HalfEdgeId(7u32), 7, true) =~= seq![HalfEdgeId(7u32)]);
    assert(walk(t.links, HalfEdgeId(0u32), HalfEdgeId(0u32), 8, true) =~= seq![HalfEdgeId(0u32), HalfEdgeId(7u32)]);
    assert(t.fan(0).len() == 2);
    assert(origin_count(oc0, 1) == 0);
    assert(origin_count(oc1, 1) == 0);
    assert(origin_count(oc2, 1) == 1);
    assert(origin_count(oc3, 1) == 1);
    assert(origin_count(oc4, 1) == 1);
    assert(origin_count(oc5, 1) == 2);
    assert(origin_count(oc6, 1) == 2);
    assert(origin_count(oc7, 1) == 2);
    assert(origin_count(oc8, 1) == 2);
    assert(walk(t.links, HalfEdgeId(1u32), HalfEdgeId(4u32), 7, true) =~= seq![HalfEdgeId(4u32)]);
    assert(walk(t.links, HalfEdgeId(1u32), HalfEdgeId(1u32), 8, true) =~= seq![HalfEdgeId(1u32), HalfEdgeId(4u32)]);
    assert(t.fan(1).len() == 2);
    assert(origin_count(oc0, 2) == 0);
    assert(origin_count(oc1, 2) == 0);
    assert(origin_count(oc2, 2) == 0);
    assert(origin_count(oc3, 2) == 1);
    assert(origin_count(oc4, 2) == 1);
    assert(origin_count(oc5, 2) == 1);
    assert(origin_count(oc6, 2) == 2);
    assert(origin_count(oc7, 2) == 2);
    assert(origin_count(oc8, 2) == 2);
    assert(walk(t.links, HalfEdgeId(2u32), HalfEdgeId(5u32), 7, true) =~= seq![HalfEdgeId(5u32)]);
    assert(walk(t.links, HalfEdgeId(2u32), HalfEdgeId(2u32), 8, true) =~= seq![HalfEdgeId(2u32), HalfEdgeId(5u32)]);
    assert(t.fan(2).len() == 2);
    assert(origin_count(oc0, 3) == 0);
    assert(origin_count(oc1, 3) == 0);
    assert(origin_count(oc2, 3) == 0);
    assert(origin_count(oc3, 3) == 0);
    assert(origin_count(oc4, 3) == 1);
    assert(origin_count(oc5, 3) == 1);
    assert(origin_count(oc6, 3) == 1);
    assert(origin_count(oc7, 3) == 2);
    assert(origin_count(oc8, 3) == 2);
    assert(walk(t.links, HalfEdgeId(3u32), HalfEdgeId(6u32), 7, true) =~= seq![HalfEdgeId(6u32)]);
    assert(walk(t.links, HalfEdgeId(3u32), HalfEdgeId(3u32), 8, true) =~= seq![HalfEdgeId(3u32), HalfEdgeId(6u32)]);
    assert(t.fan(3).len() == 2);
    assert forall|v: int| 0 <= v < 4 implies #[trigger] t.fan_ok(v) by {
        if v == 0 { assert(origin_count(t.links, 0) == origin_count(oc8, 0)); }
        if v == 1 { assert(origin_count(t.links, 1) == origin_count(oc8, 1)); }
        if v == 2 { assert(origin_count(t.links, 2) == origin_count(oc8, 2)); }
        if v == 3 { assert(origin_count(t.links, 3) == origin_count(oc8, 3)); }
    }
    assert(t.valid());
}

/// The quad closes into a valid mesh over its 4 vertices.
pub proof fn lemma_quad_builds<L>()
    ensures
        builds_manifold(4, shape_polygons::<L>(quad_corners())),
        built_topology(4, shape_polygons::<L>(quad_corners()))->0.nh() == 8,
        built_topology(4, shape_polygons::<L>(quad_corners()))->0.ne() == 4,
        built_topology(4, shape_polygons::<L>(quad_corners()))->0.nf() == 2,
        built_topology(4, shape_polygons::<L>(quad_corners()))->0.interior == 1,
{
    reveal(built_topology);
    assert(shape_polygons::<L>(quad_corners()).len() == 1);
    lemma_quad_layout::<L>();
    lemma_quad_pairs::<L>();
    lemma_quad_walks::<L>();
    lemma_quad_close::<L>();
    lemma_quad_valid::<L>();
    assert(built_topology(4, shape_polygons::<L>(quad_corners())) == Some(quad_topology()));
}

spec fn tetrahedron_keys() -> Seq<(usize, usize)> {
    seq![(0usize, 2usize), (2usize, 1usize), (1usize, 0usize), (0usize, 1usize), (1usize, 3usize), (3usize, 0usize), (0usize, 3usize), (3usize, 2usize), (2usize, 0usize), (1usize, 2usize), (2usize, 3usize), (3usize, 1usize)]
}

spec fn tetrahedron_links() -> Seq<HalfEdgeLinks> {
    seq![hl(0u32, INVALID_INDEX, 1u32, 2u32, 0u32, INVALID_INDEX), hl(2u32, INVALID_INDEX, 2u32, 0u32, 0u32, INVALID_INDEX), hl(1u32, INVALID_INDEX, 0u32, 1u32, 0u32, INVALID_INDEX), hl(0u32, INVALID_INDEX, 4u32, 5u32, 1u32, INVALID_INDEX), hl(1u32, INVALID_INDEX, 5u32, 3u32, 1u32, INVALID_INDEX), hl(3u32, INVALID_INDEX, 3u32, 4u32, 1u32, INVALID_INDEX), hl(0u32, INVALID_INDEX, 7u32, 8u32, 2u32, INVALID_INDEX), hl(3u32, INVALID_INDEX, 8u32, 6u32, 2u32, INVALID_INDEX), hl(2u32, INVALID_INDEX, 6u32, 7u32, 2u32, INVALID_INDEX), hl(1u32, INVALID_INDEX, 10u32, 11u32, 3u32, INVALID_INDEX), hl(2u32, INVALID_INDEX, 11u32, 9u32, 3u32, INVALID_INDEX), hl(3u32, INVALID_INDEX, 9u32, 10u32, 3u32, INVALID_INDEX)]
}

spec fn tetrahedron_outgoing() -> Seq<HalfEdgeId> {
    seq![HalfEdgeId(0u32), HalfEdgeId(2u32), HalfEdgeId(1u32), HalfEdgeId(5u32)]
}

spec fn tetrahedron_paired() -> Seq<HalfEdgeLinks> {
    seq![hl(0u32, 8u32, 1u32, 2u32, 0u32, 0u32), hl(2u32, 9u32, 2u32, 0u32, 0u32, 1u32), hl(1u32, 3u32, 0u32, 1u32, 0u32, 2u32), hl(0u32, 2u32, 4u32, 5u32, 1u32, 2u32), hl(1u32, 11u32, 5u32, 3u32, 1u32, 3u32), hl(3u32, 6u32, 3u32, 4u32, 1u32, 4u32), hl(0u32, 5u32, 7u32, 8u32, 2u32, 4u32), hl(3u32, 10u32, 8u32, 6u32, 2u32, 5u32), hl(2u32, 0u32, 6u32, 7u32, 2u32, 0u32), hl(1u32, 1u32, 10u32, 11u32, 3u32, 1u32), hl(2u32, 7u32, 11u32, 9u32, 3u32, 5u32), hl(3u32, 4u32, 9u32, 10u32, 3u32, 3u32)]
}

spec fn tetrahedron_pair_edges() -> Seq<HalfEdgeId> {
    seq![HalfEdgeId(0u32), HalfEdgeId(1u32), HalfEdgeId(2u32), HalfEdgeId(4u32), HalfEdgeId(5u32), HalfEdgeId(7u32)]
}

spec fn tetrahedron_open_sides() -> Seq<usize> {
    Seq::<usize>::empty()
}

spec fn tetrahedron_successors() -> Seq<usize> {
    Seq::<usize>::empty()
}

spec fn tetrahedron_topology() -> Topology {
    topo_of(seq![HalfEdgeId(0u32), HalfEdgeId(2u32), HalfEdgeId(1u32), HalfEdgeId(5u32)], seq![hl(0u32, 8u32, 1u32, 2u32, 0u32, 0u32), hl(2u32, 9u32, 2u32, 0u32, 0u32, 1u32), hl(1u32, 3u32, 0u32, 1u32, 0u32, 2u32), hl(0u32, 2u32, 4u32, 5u32, 1u32, 2u32), hl(1u32, 11u32, 5u32, 3u32, 1u32, 3u32), hl(3u32, 6u32, 3u32, 4u32, 1u32, 4u32), hl(0u32, 5u32, 7u32, 8u32, 2u32, 4u32), hl(3u32, 10u32, 8u32, 6u32, 2u32, 5u32), hl(2u32, 0u32, 6u32, 7u32, 2u32, 0u32), hl(1u32, 1u32, 10u32, 11u32, 3u32, 1u32), hl(2u32, 7u32, 11u32, 9u32, 3u32, 5u32), hl(3u32, 4u32, 9u32, 10u32, 3u32, 3u32)], seq![HalfEdgeId(0u32), HalfEdgeId(1u32), HalfEdgeId(2u32), HalfEdgeId(4u32), HalfEdgeId(5u32), HalfEdgeId(7u32)], seq![FaceRecord { halfedge: HalfEdgeId(0u32), kind: FaceKind::Interior, data: FacePayload { material: None, region: None } }, FaceRecord { halfedge: HalfEdgeId(3u32), kind: FaceKind::Interior, data: FacePayload { material: None, region: None } }, FaceRecord { halfedge: HalfEdgeId(6u32), kind: FaceKind::Interior, data: FacePayload { material: None, region: None } }, FaceRecord { halfedge: HalfEdgeId(9u32), kind: FaceKind::Interior, data: FacePayload { material: None, region: None } }], 4)
}

#[verifier::spinoff_prover]
#[verifier::rlimit(60)]
proof fn lemma_tetrahedron_layout<L>()
    ensures
        interior_links(shape_polygons::<L>(tetrahedron_corners())) == tetrahedron_links(),
        all_keys(shape_polygons::<L>(tetrahedron_corners())) == tetrahedron_keys(),
        interior_records(shape_polygons::<L>(tetrahedron_corners())) == seq![FaceRecord { halfedge: HalfEdgeId(0u32), kind: FaceKind::Interior, data: FacePayload { material: None, region: None } }, FaceRecord { halfedge: HalfEdgeId(3u32), kind: FaceKind::Interior, data: FacePayload { material: None, region: None } }, FaceRecord { halfedge: HalfEdgeId(6u32), kind: FaceKind::Interior, data: FacePayload { material: None, region: None } }, FaceRecord { halfedge: HalfEdgeId(9u32), kind: FaceKind::Interior, data: FacePayload { material: None, region: None } }],
        first_outgoing(no_outgoing(4), tetrahedron_links(), 12) == tetrahedron_outgoing(),
{
    let fs = shape_polygons::<L>(tetrahedron_corners());
    assert(fs.len() == 4);
    assert(keys_before(fs, 0) =~= Seq::<(usize, usize)>::empty());
    assert(fs[0].corners =~= seq![0usize, 2usize, 1usize]);
    assert(fs[0].data == empty_face_payload());
    assert(face_keys(fs[0]) =~= seq![(0usize, 2usize), (2usize, 1usize), (1usize, 0usize)]);
    lemma_keys_before_step(fs, 0);
    assert(keys_before(fs, 1) =~= seq![(0usize, 2usize), (2usize, 1usize), (1usize, 0usize)]);
    assert(fs[1].corners =~= seq![0usize, 1usize, 3usize]);
    assert(fs[1].data == empty_face_payload());
    assert(face_keys(fs[1]) =~= seq![(0usize, 1usize), (1usize, 3usize), (3usize, 0usize)]);
    lemma_keys_before_step(fs, 1);
    assert(keys_before(fs, 2) =~= seq![(0usize, 2usize), (2usize, 1usize), (1usize, 0usize), (0usize, 1usize), (1usize, 3usize), (3usize, 0usize)]);
    assert(fs[2].corners =~= seq![0usize, 3usize, 2usize]);
    assert(fs[2].data == empty_face_payload());
    assert(face_keys(fs[2]) =~= seq![(0usize, 3usize), (3usize, 2usize), (2usize, 0usize)]);
    lemma_keys_before_step(fs, 2);
    assert(keys_before(fs, 3) =~= seq![(0usize, 2usize), (2usize, 1usize), (1usize, 0usize), (0usize, 1usize), (1usize, 3usize), (3usize, 0usize), (0usize, 3usize), (3usize, 2usize), (2usize, 0usize)]);
    assert(fs[3].corners =~= seq![1usize, 2usize, 3usize]);
    assert(fs[3].data == empty_face_payload());
    assert(face_keys(fs[3]) =~= seq![(1usize, 2usize), (2usize, 3usize), (3usize, 1usize)]);
    lemma_keys_before_step(fs, 3);
    assert(keys_before(fs, 4) =~= seq![(0usize, 2usize), (2usize, 1usize), (1usize, 0usize), (0usize, 1usize), (1usize, 3usize), (3usize, 0usize), (0usize, 3usize), (3usize, 2usize), (2usize, 0usize), (1usize, 2usize), (2usize, 3usize), (3usize, 1usize)]);
    let keys = seq![(0usize, 2usize), (2usize, 1usize), (1usize, 0usize), (0usize, 1usize), (1usize, 3usize), (3usize, 0usize), (0usize, 3usize), (3usize, 2usize), (2usize, 0usize), (1usize, 2usize), (2usize, 3usize), (3usize, 1usize)];
    assert(all_keys(fs) == keys);
    assert(corner_total(fs) == 12);
    assert(interior_link(fs, 0) == hl(0u32, INVALID_INDEX, 1u32, 2u32, 0u32, INVALID_INDEX)) by {
        let w: (int, int) = (0, 0);
        assert(keys_before(fs, 0).len() == 0);
        assert(keys_before(fs, 1).len() == 3);
        assert(keys_before(fs, 2).len() == 6);
        assert(keys_before(fs, 3).len() == 9);
        assert(0 <= w.0 < fs.len() && 0 <= w.1 < fs[w.0].corners.len() && 0 == keys_before(fs, w.0).len() + w.1);
        let p = choose|q: (int, int)| 0 <= q.0 < fs.len() && 0 <= q.1 < fs[q.0].corners.len() && 0 == keys_before(fs, q.0).len() + q.1;
        assert(0 <= p.0 < fs.len());
        assert(keys_before(fs, 0).len() == 0);
        assert(keys_before(fs, 1).len() == 3);
        assert(keys_before(fs, 2).len() == 6);
        assert(keys_before(fs, 3).len() == 9);
    }
    assert(interior_link(fs, 1) == hl(2u32, INVALID_INDEX, 2u32, 0u32, 0u32, INVALID_INDEX)) by {
        let w: (int, int) = (0, 1);
        assert(keys_before(fs, 0).len() == 0);
        assert(keys_before(fs, 1).len() == 3);
        assert(keys_before(fs, 2).len() == 6);
        assert(keys_before(fs, 3).len() == 9);
        assert(0 <= w.0 < fs.len() && 0 <= w.1 < fs[w.0].corners.len() && 1 == keys_before(fs, w.0).len() + w.1);
        let p = choose|q: (int, int)| 0 <= q.0 < fs.len() && 0 <= q.1 < fs[q.0].corners.len() && 1 == keys_before(fs, q.0).len() + q.1;
        assert(0 <= p.0 < fs.len());
        assert(keys_before(fs, 0).len() == 0);
        assert(keys_before(fs, 1).len() == 3);
        assert(keys_before(fs, 2).len() == 6);
        assert(keys_before(fs, 3).len() == 9);
    }
    assert(interior_link(fs, 2) == hl(1u32, INVALID_INDEX, 0u32, 1u32, 0u32, INVALID_INDEX)) by {
        let w: (int, int) = (0, 2);
        assert(keys_before(fs, 0).len() == 0);
        assert(keys_before(fs, 1).len() == 3);
        assert(keys_before(fs, 2).len() == 6);
        assert(keys_before(fs, 3).len() == 9);
        assert(0 <= w.0 < fs.len() && 0 <= w.1 < fs[w.0].corners.len() && 2 == keys_before(fs, w.0).len() + w.1);
        let p = choose|q: (int, int)| 0 <= q.0 < fs.len() && 0 <= q.1 < fs[q.0].corners.len() && 2 == keys_before(fs, q.0).len() + q.1;
        assert(0 <= p.0 < fs.len());
        assert(keys_before(fs, 0).len() == 0);
        assert(keys_before(fs, 1).len() == 3);
        assert(keys_before(fs, 2).len() == 6);
        assert(keys_before(fs, 3).len() == 9);
    }
    assert(interior_link(fs, 3) == hl(0u32, INVALID_INDEX, 4u32, 5u32, 1u32, INVALID_INDEX)) by {
        let w: (int, int) = (1, 0);
        assert(keys_before(fs, 0).len() == 0);
        assert(keys_before(fs, 1).len() == 3);
        assert(keys_before(fs, 2).len() == 6);
        assert(keys_before(fs, 3).len() == 9);
        assert(0 <= w.0 < fs.len() && 0 <= w.1 < fs[w.0].corners.len() && 3 == keys_before(fs, w.0).len() + w.1);
        let p = choose|q: (int, int)| 0 <= q.0 < fs.len() && 0 <= q.1 < fs[q.0].corners.len() && 3 == keys_before(fs, q.0).len() + q.1;
        assert(0 <= p.0 < fs.len());
        assert(keys_before(fs, 0).len() == 0);
        assert(keys_before(fs, 1).len() == 3);
        assert(keys_before(fs, 2).len() == 6);
        assert(keys_before(fs, 3).len() == 9);
    }
    assert(interior_link(fs, 4) == hl(1u32, INVALID_INDEX, 5u32, 3u32, 1u32, INVALID_INDEX)) by {
        let w: (int, int) = (1, 1);
        assert(keys_before(fs, 0).len() == 0);
        assert(keys_before(fs, 1).len() == 3);
        assert(keys_before(fs, 2).len() == 6);
        assert(keys_before(fs, 3).len() == 9);
        assert(0 <= w.0 < fs.len() && 0 <= w.1 < fs[w.0].corners.len() && 4 == keys_before(fs, w.0).len() + w.1);
        let p = choose|q: (int, int)| 0 <= q.0 < fs.len() && 0 <= q.1 < fs[q.0].corners.len() && 4 == keys_before(fs, q.0).len() + q.1;
        assert(0 <= p.0 < fs.len());
        assert(keys_before(fs, 0).len() == 0);
        assert(keys_before(fs, 1).len() == 3);
        assert(keys_before(fs, 2).len() == 6);
        assert(keys_before(fs, 3).len() == 9);
    }
    assert(interior_link(fs, 5) == hl(3u32, INVALID_INDEX, 3u32, 4u32, 1u32, INVALID_INDEX)) by {
        let w: (int, int) = (1, 2);
        assert(keys_before(fs, 0).len() == 0);
        assert(keys_before(fs, 1).len() == 3);
        assert(keys_before(fs, 2).len() == 6);
        assert(keys_before(fs, 3).len() == 9);
        assert(0 <= w.0 < fs.len() && 0 <= w.1 < fs[w.0].corners.len() && 5 == keys_before(fs, w.0).len() + w.1);
        let p = choose|q: (int, int)| 0 <= q.0 < fs.len() && 0 <= q.1 < fs[q.0].corners.len() && 5 == keys_before(fs, q.0).len() + q.1;
        assert(0 <= p.0 < fs.len());
        assert(keys_before(fs, 0).len() == 0);
        assert(keys_before(fs, 1).len() == 3);
        assert(keys_before(fs, 2).len() == 6);
        assert(keys_before(fs, 3).len() == 9);
    }
    assert(interior_link(fs, 6) == hl(0u32, INVALID_INDEX, 7u32, 8u32, 2u32, INVALID_INDEX)) by {
        let w: (int, int) = (2, 0);
        assert(keys_before(fs, 0).len() == 0);
        assert(keys_before(fs, 1).len() == 3);
        assert(keys_before(fs, 2).len() == 6);
        assert(keys_before(fs, 3).len() == 9);
        assert(0 <= w.0 < fs.len() && 0 <= w.1 < fs[w.0].corners.len() && 6 == keys_before(fs, w.0).len() + w.1);
        let p = choose|q: (int, int)| 0 <= q.0 < fs.len() && 0 <= q.1 < fs[q.0].corners.len() && 6 == keys_before(fs, q.0).len() + q.1;
        assert(0 <= p.0 < fs.len());
        assert(keys_before(fs, 0).len() == 0);
        assert(keys_before(fs, 1).len() == 3);
        assert(keys_before(fs, 2).len() == 6);
        assert(keys_before(fs, 3).len() == 9);
    }
    assert(interior_link(fs, 7) == hl(3u32, INVALID_INDEX, 8u32, 6u32, 2u32, INVALID_INDEX)) by {
        let w: (int, int) = (2, 1);
        assert(keys_before(fs, 0).len() == 0);
        assert(keys_before(fs, 1).len() == 3);
        assert(keys_before(fs, 2).len() == 6);
        assert(keys_before(fs, 3).len() == 9);
        assert(0 <= w.0 < fs.len() && 0 <= w.1 < fs[w.0].corners.len() && 7 == keys_before(fs, w.0).len() + w.1);
        let p = choose|q: (int, int)| 0 <= q.0 < fs.len() && 0 <= q.1 < fs[q.0].corners.len() && 7 == keys_before(fs, q.0).len() + q.1;
        assert(0 <= p.0 < fs.len());
        assert(keys_before(fs, 0).len() == 0);
        assert(keys_before(fs, 1).len() == 3);
        assert(keys_before(fs, 2).len() == 6);
        assert(keys_before(fs, 3).len() == 9);
    }
    assert(interior_link(fs, 8) == hl(2u32, INVALID_INDEX, 6u32, 7u32, 2u32, INVALID_INDEX)) by {
        let w: (int, int) = (2, 2);
        assert(keys_before(fs, 0).len() == 0);
        assert(keys_before(fs, 1).len() == 3);
        assert(keys_before(fs, 2).len() == 6);
        assert(keys_before(fs, 3).len() == 9);
        assert(0 <= w.0 < fs.len() && 0 <= w.1 < fs[w.0].corners.len() && 8 == keys_before(fs, w.0).len() + w.1);
        let p = choose|q: (int, int)| 0 <= q.0 < fs.len() && 0 <= q.1 < fs[q.0].corners.len() && 8 == keys_before(fs, q.0).len() + q.1;
        assert(0 <= p.0 < fs.len());
        assert(keys_before(fs, 0).len() == 0);
        assert(keys_before(fs, 1).len() == 3);
        assert(keys_before(fs, 2).len() == 6);
        assert(keys_before(fs, 3).len() == 9);
    }
    assert(interior_link(fs, 9) == hl(1u32, INVALID_INDEX, 10u32, 11u32, 3u32, INVALID_INDEX)) by {
        let w: (int, int) = (3, 0);
        assert(keys_before(fs, 0).len() == 0);
        assert(keys_before(fs, 1).len() == 3);
        assert(keys_before(fs, 2).len() == 6);
        assert(keys_before(fs, 3).len() == 9);
        assert(0 <= w.0 < fs.len() && 0 <= w.1 < fs[w.0].corners.len() && 9 == keys_before(fs, w.0).len() + w.1);
        let p = choose|q: (int, int)| 0 <= q.0 < fs.len() && 0 <= q.1 < fs[q.0].corners.len() && 9 == keys_before(fs, q.0).len() + q.1;
        assert(0 <= p.0 < fs.len());
        assert(keys_before(fs, 0).len() == 0);
        assert(keys_before(fs, 1).len() == 3);
        assert(keys_before(fs, 2).len() == 6);
        assert(keys_before(fs, 3).len() == 9);
    }
    assert(interior_link(fs, 10) == hl(2u32, INVALID_INDEX, 11u32, 9u32, 3u32, INVALID_INDEX)) by {
        let w: (int, int) = (3, 1);
        assert(keys_before(fs, 0).len() == 0);
        assert(keys_before(fs, 1).len() == 3);
        assert(keys_before(fs, 2).len() == 6);
        assert(keys_before(fs, 3).len() == 9);
        assert(0 <= w.0 < fs.len() && 0 <= w.1 < fs[w.0].corners.len() && 10 == keys_before(fs, w.0).len() + w.1);
        let p = choose|q: (int, int)| 0 <= q.0 < fs.len() && 0 <= q.1 < fs[q.0].corners.len() && 10 == keys_before(fs, q.0).len() + q.1;
        assert(0 <= p.0 < fs.len());
        assert(keys_before(fs, 0).len() == 0);
        assert(keys_before(fs, 1).len() == 3);
        assert(keys_before(fs, 2).len() == 6);
        assert(keys_before(fs, 3).len() == 9);
    }
    assert(interior_link(fs, 11) == hl(3u32, INVALID_INDEX, 9u32, 10u32, 3u32, INVALID_INDEX)) by {
        let w: (int, int) = (3, 2);
        assert(keys_before(fs, 0).len() == 0);
        assert(keys_before(fs, 1).len() == 3);
        assert(keys_before(fs, 2).len() == 6);
        assert(keys_before(fs, 3).len() == 9);
        assert(0 <= w.0 < fs.len() && 0 <= w.1 < fs[w.0].corners.len() && 11 == keys_before(fs, w.0).len() + w.1);
        let p = choose|q: (int, int)| 0 <= q.0 < fs.len() && 0 <= q.1 < fs[q.0].corners.len() && 11 == keys_before(fs, q.0).len() + q.1;
        assert(0 <= p.0 < fs.len());
        assert(keys_before(fs, 0).len() == 0);
        assert(keys_before(fs, 1).len() == 3);
        assert(keys_before(fs, 2).len() == 6);
        assert(keys_before(fs, 3).len() == 9);
    }
    let l0 = seq![hl(0u32, INVALID_INDEX, 1u32, 2u32, 0u32, INVALID_INDEX), hl(2u32, INVALID_INDEX, 2u32, 0u32, 0u32, INVALID_INDEX), hl(1u32, INVALID_INDEX, 0u32, 1u32, 0u32, INVALID_INDEX), hl(0u32, INVALID_INDEX, 4u32, 5u32, 1u32, INVALID_INDEX), hl(1u32, INVALID_INDEX, 5u32, 3u32, 1u32, INVALID_INDEX), hl(3u32, INVALID_INDEX, 3u32, 4u32, 1u32, INVALID_INDEX), hl(0u32, INVALID_INDEX, 7u32, 8u32, 2u32, INVALID_INDEX), hl(3u32, INVALID_INDEX, 8u32, 6u32, 2u32, INVALID_INDEX), hl(2u32, INVALID_INDEX, 6u32, 7u32, 2u32, INVALID_INDEX), hl(1u32, INVALID_INDEX, 10u32, 11u32, 3u32, INVALID_INDEX), hl(2u32, INVALID_INDEX, 11u32, 9u32, 3u32, INVALID_INDEX), hl(3u32, INVALID_INDEX, 9u32, 10u32, 3u32, INVALID_INDEX)];
    assert(interior_links(fs) =~= l0);
    assert(interior_records(fs) =~= seq![FaceRecord { halfedge: HalfEdgeId(0u32), kind: FaceKind::Interior, data: FacePayload { material: None, region: None } }, FaceRecord { halfedge: HalfEdgeId(3u32), kind: FaceKind::Interior, data: FacePayload { material: None, region: None } }, FaceRecord { halfedge: HalfEdgeId(6u32), kind: FaceKind::Interior, data: FacePayload { material: None, region: None } }, FaceRecord { halfedge: HalfEdgeId(9u32), kind: FaceKind::Interior, data: FacePayload { material: None, region: None } }]);
    assert(no_outgoing(4) =~= seq![HalfEdgeId(INVALID_INDEX), HalfEdgeId(INVALID_INDEX), HalfEdgeId(INVALID_INDEX), HalfEdgeId(INVALID_INDEX)]);
    assert(first_outgoing(no_outgoing(4), l0, 0) == no_outgoing(4));
    assert(first_outgoing(no_outgoing(4), l0, 1) =~= seq![HalfEdgeId(0u32), HalfEdgeId(INVALID_INDEX), HalfEdgeId(INVALID_INDEX), HalfEdgeId(INVALID_INDEX)]);
    assert(first_outgoing(no_outgoing(4), l0, 2) =~= seq![HalfEdgeId(0u32), HalfEdgeId(INVALID_INDEX), HalfEdgeId(1u32), HalfEdgeId(INVALID_INDEX)]);
    assert(first_outgoing(no_outgoing(4), l0, 3) =~= seq![HalfEdgeId(0u32), HalfEdgeId(2u32), HalfEdgeId(1u32), HalfEdgeId(INVALID_INDEX)]);
    assert(first_outgoing(no_outgoing(4), l0, 4) =~= seq![HalfEdgeId(0u32), HalfEdgeId(2u32), HalfEdgeId(1u32), HalfEdgeId(INVALID_INDEX)]);
    assert(first_outgoing(no_outgoing(4), l0, 5) =~= seq![HalfEdgeId(0u32), HalfEdgeId(2u32), HalfEdgeId(1u32), HalfEdgeId(INVALID_INDEX)]);
    assert(first_outgoing(no_outgoing(4), l0, 6) =~= seq![HalfEdgeId(0u32), HalfEdgeId(2u32), HalfEdgeId(1u32), HalfEdgeId(5u32)]);
    assert(first_outgoing(no_outgoing(4), l0, 7) =~= seq![HalfEdgeId(0u32), HalfEdgeId(2u32), HalfEdgeId(1u32), HalfEdgeId(5u32)]);
    assert(first_outgoing(no_outgoing(4), l0, 8) =~= seq![HalfEdgeId(0u32), HalfEdgeId(2u32), HalfEdgeId(1u32), HalfEdgeId(5u32)]);
    assert(first_outgoing(no_outgoing(4), l0, 9) =~= seq![HalfEdgeId(0u32), HalfEdgeId(2u32), HalfEdgeId(1u32), HalfEdgeId(5u32)]);
    assert(first_outgoing(no_outgoing(4), l0, 10) =~= seq![HalfEdgeId(0u32), HalfEdgeId(2u32), HalfEdgeId(1u32), HalfEdgeId(5u32)]);
    assert(first_outgoing(no_outgoing(4), l0, 11) =~= seq![HalfEdgeId(0u32), HalfEdgeId(2u32), HalfEdgeId(1u32), HalfEdgeId(5u32)]);
    assert(first_outgoing(no_outgoing(4), l0, 12) =~= seq![HalfEdgeId(0u32), HalfEdgeId(2u32), HalfEdgeId(1u32), HalfEdgeId(5u32)]);
    assert(keys == tetrahedron_keys());
    assert(l0 == tetrahedron_links());
}

#[verifier::spinoff_prover]
#[verifier::rlimit(60)]
proof fn lemma_tetrahedron_pairs<L>()
    ensures
        pair_run(tetrahedron_links(), tetrahedron_keys(), Seq::<HalfEdgeId>::empty(), Seq::<usize>::empty(), 0) == Some((tetrahedron_paired(), tetrahedron_pair_edges(), tetrahedron_open_sides())),
{
    let fs = shape_polygons::<L>(tetrahedron_corners());
    let keys = seq![(0usize, 2usize), (2usize, 1usize), (1usize, 0usize), (0usize, 1usize), (1usize, 3usize), (3usize, 0usize), (0usize, 3usize), (3usize, 2usize), (2usize, 0usize), (1usize, 2usize), (2usize, 3usize), (3usize, 1usize)];
    let l0 = seq![hl(0u32, INVALID_INDEX, 1u32, 2u32, 0u32, INVALID_INDEX), hl(2u32, INVALID_INDEX, 2u32, 0u32, 0u32, INVALID_INDEX), hl(1u32, INVALID_INDEX, 0u32, 1u32, 0u32, INVALID_INDEX), hl(0u32, INVALID_INDEX, 4u32, 5u32, 1u32, INVALID_INDEX), hl(1u32, INVALID_INDEX, 5u32, 3u32, 1u32, INVALID_INDEX), hl(3u32, INVALID_INDEX, 3u32, 4u32, 1u32, INVALID_INDEX), hl(0u32, INVALID_INDEX, 7u32, 8u32, 2u32, INVALID_INDEX), hl(3u32, INVALID_INDEX, 8u32, 6u32, 2u32, INVALID_INDEX), hl(2u32, INVALID_INDEX, 6u32, 7u32, 2u32, INVALID_INDEX), hl(1u32, INVALID_INDEX, 10u32, 11u32, 3u32, INVALID_INDEX), hl(2u32, INVALID_INDEX, 11u32, 9u32, 3u32, INVALID_INDEX), hl(3u32, INVALID_INDEX, 9u32, 10u32, 3u32, INVALID_INDEX)];
    assert(key_index(keys, (2usize, 0usize), 12) == Option::<int>::None);
    assert(key_index(keys, (2usize, 0usize), 11) == Option::<int>::None);
    assert(key_index(keys, (2usize, 0usize), 10) == Option::<int>::None);
    assert(key_index(keys, (2usize, 0usize), 9) == Option::<int>::None);
    assert(key_index(keys, (2usize, 0usize), 8) == Some(8int));
    assert(key_index(keys, (2usize, 0usize), 7) == Some(8int));
    assert(key_index(keys, (2usize, 0usize), 6) == Some(8int));
    assert(key_index(keys, (2usize, 0usize), 5) == Some(8int));
    assert(key_index(keys, (2usize, 0usize), 4) == Some(8int));
    assert(key_index(keys, (2usize, 0usize), 3) == Some(8int));
    assert(key_index(keys, (2usize, 0usize), 2) == Some(8int));
    assert(key_index(keys, (2usize, 0usize), 1) == Some(8int));
    assert(key_index(keys, (2usize, 0usize), 0) == Some(8int));
    assert(reversed(keys[0]) == (2usize, 0usize));
    assert(key_index(keys, (1usize, 2usize), 12) == Option::<int>::None);
    assert(key_index(keys, (1usize, 2usize), 11) == Option::<int>::None);
    assert(key_index(keys, (1usize, 2usize), 10) == Option::<int>::None);
    assert(key_index(keys, (1usize, 2usize), 9) == Some(9int));
    assert(key_index(keys, (1usize, 2usize), 8) == Some(9int));
    assert(key_index(keys, (1usize, 2usize), 7) == Some(9int));
    assert(key_index(keys, (1usize, 2usize), 6) == Some(9int));
    assert(key_index(keys, (1usize, 2usize), 5) == Some(9int));
    assert(key_index(keys, (1usize, 2usize), 4) == Some(9int));
    assert(key_index(keys, (1usize, 2usize), 3) == Some(9int));
    assert(key_index(keys, (1usize, 2usize), 2) == Some(9int));
    assert(key_index(keys, (1usize, 2usize), 1) == Some(9int));
    assert(key_index(keys, (1usize, 2usize), 0) == Some(9int));
    assert(reversed(keys[1]) == (1usize, 2usize));
    assert(key_index(keys, (0usize, 1usize), 12) == Option::<int>::None);
    assert(key_index(keys, (0usize, 1usize), 11) == Option::<int>::None);
    assert(key_index(keys, (0usize, 1usize), 10) == Option::<int>::None);
    assert(key_index(keys, (0usize, 1usize), 9) == Option::<int>::None);
    assert(key_index(keys, (0usize, 1usize), 8) == Option::<int>::None);
    assert(key_index(keys, (0usize, 1usize), 7) == Option::<int>::None);
    assert(key_index(keys, (0usize, 1usize), 6) == Option::<int>::None);
    assert(key_index(keys, (0usize, 1usize), 5) == Option::<int>::None);
    assert(key_index(keys, (0usize, 1usize), 4) == Option::<int>::None);
    assert(key_index(keys, (0usize, 1usize), 3) == Some(3int));
    assert(key_index(keys, (0usize, 1usize), 2) == Some(3int));
    assert(key_index(keys, (0usize, 1usize), 1) == Some(3int));
    assert(key_index(keys, (0usize, 1usize), 0) == Some(3int));
    assert(reversed(keys[2]) == (0usize, 1usize));
    assert(key_index(keys, (3usize, 1usize), 12) == Option::<int>::None);
    assert(key_index(keys, (3usize, 1usize), 11) == Some(11int));
    assert(key_index(keys, (3usize, 1usize), 10) == Some(11int));
    assert(key_index(keys, (3usize, 1usize), 9) == Some(11int));
    assert(key_index(keys, (3usize, 1usize), 8) == Some(11int));
    assert(key_index(keys, (3usize, 1usize), 7) == Some(11int));
    assert(key_index(keys, (3usize, 1usize), 6) == Some(11int));
    assert(key_index(keys, (3usize, 1usize), 5) == Some(11int));
    assert(key_index(keys, (3usize, 1usize), 4) == Some(11int));
    assert(key_index(keys, (3usize, 1usize), 3) == Some(11int));
    assert(key_index(keys, (3usize, 1usize), 2) == Some(11int));
    assert(key_index(keys, (3usize, 1usize), 1) == Some(11int));
    assert(key_index(keys, (3usize, 1usize), 0) == Some(11int));
    assert(reversed(keys[4]) == (3usize, 1usize));
    assert(key_index(keys, (0usize, 3usize), 12) == Option::<int>::None);
    assert(key_index(keys, (0usize, 3usize), 11) == Option::<int>::None);
    assert(key_index(keys, (0usize, 3usize), 10) == Option::<int>::None);
    assert(key_index(keys, (0usize, 3usize), 9) == Option::<int>::None);
    assert(key_index(keys, (0usize, 3usize), 8) == Option::<int>::None);
    assert(key_index(keys, (0usize, 3usize), 7) == Option::<int>::None);
    assert(key_index(keys, (0usize, 3usize), 6) == Some(6int));
    assert(key_index(keys, (0usize, 3usize), 5) == Some(6int));
    assert(key_index(keys, (0usize, 3usize), 4) == Some(6int));
    assert(key_index(keys, (0usize, 3usize), 3) == Some(6int));
    assert(key_index(keys, (0usize, 3usize), 2) == Some(6int));
    assert(key_index(keys, (0usize, 3usize), 1) == Some(6int));
    assert(key_index(keys, (0usize, 3usize), 0) == Some(6int));
    assert(reversed(keys[5]) == (0usize, 3usize));
    assert(key_index(keys, (2usize, 3usize), 12) == Option::<int>::None);
    assert(key_index(keys, (2usize, 3usize), 11) == Option::<int>::None);
    assert(key_index(keys, (2usize, 3usize), 10) == Some(10int));
    assert(key_index(keys, (2usize, 3usize), 9) == Some(10int));
    assert(key_index(keys, (2usize, 3usize), 8) == Some(10int));
    assert(key_index(keys, (2usize, 3usize), 7) == Some(10int));
    assert(key_index(keys, (2usize, 3usize), 6) == Some(10int));
    assert(key_index(keys, (2usize, 3usize), 5) == Some(10int));
    assert(key_index(keys, (2usize, 3usize), 4) == Some(10int));
    assert(key_index(keys, (2usize, 3usize), 3) == Some(10int));
    assert(key_index(keys, (2usize, 3usize), 2) == Some(10int));
    assert(key_index(keys, (2usize, 3usize), 1) == Some(10int));
    assert(key_index(keys, (2usize, 3usize), 0) == Some(10int));
    assert(reversed(keys[7]) == (2usize, 3usize));
    let pl0 = seq![hl(0u32, INVALID_INDEX, 1u32, 2u32, 0u32, INVALID_INDEX), hl(2u32, INVALID_INDEX, 2u32, 0u32, 0u32, INVALID_INDEX), hl(1u32, INVALID_INDEX, 0u32, 1u32, 0u32, INVALID_INDEX), hl(0u32, INVALID_INDEX, 4u32, 5u32, 1u32, INVALID_INDEX), hl(1u32, INVALID_INDEX, 5u32, 3u32, 1u32, INVALID_INDEX), hl(3u32, INVALID_INDEX, 3u32, 4u32, 1u32, INVALID_INDEX), hl(0u32, INVALID_INDEX, 7u32, 8u32, 2u32, INVALID_INDEX), hl(3u32, INVALID_INDEX, 8u32, 6u32, 2u32, INVALID_INDEX), hl(2u32, INVALID_INDEX, 6u32, 7u32, 2u32, INVALID_INDEX), hl(1u32, INVALID_INDEX, 10u32, 11u32, 3u32, INVALID_INDEX), hl(2u32, INVALID_INDEX, 11u32, 9u32, 3u32, INVALID_INDEX), hl(3u32, INVALID_INDEX, 9u32, 10u32, 3u32, INVALID_INDEX)];
    let pe0 = Seq::<HalfEdgeId>::empty();
    let pb0 = Seq::<usize>::empty();
    let pl1 = seq![hl(0u32, 8u32, 1u32, 2u32, 0u32, 0u32), hl(2u32, INVALID_INDEX, 2u32, 0u32, 0u32, INVALID_INDEX), hl(1u32, INVALID_INDEX, 0u32, 1u32, 0u32, INVALID_INDEX), hl(0u32, INVALID_INDEX, 4u32, 5u32, 1u32, INVALID_INDEX), hl(1u32, INVALID_INDEX, 5u32, 3u32, 1u32, INVALID_INDEX), hl(3u32, INVALID_INDEX, 3u32, 4u32, 1u32, INVALID_INDEX), hl(0u32, INVALID_INDEX, 7u32, 8u32, 2u32, INVALID_INDEX), hl(3u32, INVALID_INDEX, 8u32, 6u32, 2u32, INVALID_INDEX), hl(2u32, 0u32, 6u32, 7u32, 2u32, 0u32), hl(1u32, INVALID_INDEX, 10u32, 11u32, 3u32, INVALID_INDEX), hl(2u32, INVALID_INDEX, 11u32, 9u32, 3u32, INVALID_INDEX), hl(3u32, INVALID_INDEX, 9u32, 10u32, 3u32, INVALID_INDEX)];
    let pe1 = seq![HalfEdgeId(0u32)];
    let pb1 = Seq::<usize>::empty();
    let pl2 = seq![hl(0u32, 8u32, 1u32, 2u32, 0u32, 0u32), hl(2u32, 9u32, 2u32, 0u32, 0u32, 1u32), hl(1u32, INVALID_INDEX, 0u32, 1u32, 0u32, INVALID_INDEX), hl(0u32, INVALID_INDEX, 4u32, 5u32, 1u32, INVALID_INDEX), hl(1u32, INVALID_INDEX, 5u32, 3u32, 1u32, INVALID_INDEX), hl(3u32, INVALID_INDEX, 3u32, 4u32, 1u32, INVALID_INDEX), hl(0u32, INVALID_INDEX, 7u32, 8u32, 2u32, INVALID_INDEX), hl(3u32, INVALID_INDEX, 8u32, 6u32, 2u32, INVALID_INDEX), hl(2u32, 0u32, 6u32, 7u32, 2u32, 0u32), hl(1u32, 1u32, 10u32, 11u32, 3u32, 1u32), hl(2u32, INVALID_INDEX, 11u32, 9u32, 3u32, INVALID_INDEX), hl(3u32, INVALID_INDEX, 9u32, 10u32, 3u32, INVALID_INDEX)];
    let pe2 = seq![HalfEdgeId(0u32), HalfEdgeId(1u32)];
    let pb2 = Seq::<usize>::empty();
    let pl3 = seq![hl(0u32, 8u32, 1u32, 2u32, 0u32, 0u32), hl(2u32, 9u32, 2u32, 0u32, 0u32, 1u32), hl(1u32, 3u32, 0u32, 1u32, 0u32, 2u32), hl(0u32, 2u32, 4u32, 5u32, 1u32, 2u32), hl(1u32, INVALID_INDEX, 5u32, 3u32, 1u32, INVALID_INDEX), hl(3u32, INVALID_INDEX, 3u32, 4u32, 1u32, INVALID_INDEX), hl(0u32, INVALID_INDEX, 7u32, 8u32, 2u32, INVALID_INDEX), hl(3u32, INVALID_INDEX, 8u32, 6u32, 2u32, INVALID_INDEX), hl(2u32, 0u32, 6u32, 7u32, 2u32, 0u32), hl(1u32, 1u32, 10u32, 11u32, 3u32, 1u32), hl(2u32, INVALID_INDEX, 11u32, 9u32, 3u32, INVALID_INDEX), hl(3u32, INVALID_INDEX, 9u32, 10u32, 3u32, INVALID_INDEX)];
    let pe3 = seq![HalfEdgeId(0u32), HalfEdgeId(1u32), HalfEdgeId(2u32)];
    let pb3 = Seq::<usize>::empty();
    let pl4 = seq![hl(0u32, 8u32, 1u32, 2u32, 0u32, 0u32), hl(2u32, 9u32, 2u32, 0u32, 0u32, 1u32), hl(1u32, 3u32, 0u32, 1u32, 0u32, 2u32), hl(0u32, 2u32, 4u32, 5u32, 1u32, 2u32), hl(1u32, INVALID_INDEX, 5u32, 3u32, 1u32, INVALID_INDEX), hl(3u32, INVALID_INDEX, 3u32, 4u32, 1u32, INVALID_INDEX), hl(0u32, INVALID_INDEX, 7u32, 8u32, 2u32, INVALID_INDEX), hl(3u32, INVALID_INDEX, 8u32, 6u32, 2u32, INVALID_INDEX), hl(2u32, 0u32, 6u32, 7u32, 2u32, 0u32), hl(1u32, 1u32, 10u32, 11u32, 3u32, 1u32), hl(2u32, INVALID_INDEX, 11u32, 9u32, 3u32, INVALID_INDEX), hl(3u32, INVALID_INDEX, 9u32, 10u32, 3u32, INVALID_INDEX)];
    let pe4 = seq![HalfEdgeId(0u32), HalfEdgeId(1u32), HalfEdgeId(2u32)];
    let pb4 = Seq::<usize>::empty();
    let pl5 = seq![hl(0u32, 8u32, 1u32, 2u32, 0u32, 0u32), hl(2u32, 9u32, 2u32, 0u32, 0u32, 1u32), hl(1u32, 3u32, 0u32, 1u32, 0u32, 2u32), hl(0u32, 2u32, 4u32, 5u32, 1u32, 2u32), hl(1u32, 11u32, 5u32, 3u32, 1u32, 3u32), hl(3u32, INVALID_INDEX, 3u32, 4u32, 1u32, INVALID_INDEX), hl(0u32, INVALID_INDEX, 7u32, 8u32, 2u32, INVALID_INDEX), hl(3u32, INVALID_INDEX, 8u32, 6u32, 2u32, INVALID_INDEX), hl(2u32, 0u32, 6u32, 7u32, 2u32, 0u32), hl(1u32, 1u32, 10u32, 11u32, 3u32, 1u32), hl(2u32, INVALID_INDEX, 11u32, 9u32, 3u32, INVALID_INDEX), hl(3u32, 4u32, 9u32, 10u32, 3u32, 3u32)];
    let pe5 = seq![HalfEdgeId(0u32), HalfEdgeId(1u32), HalfEdgeId(2u32), HalfEdgeId(4u32)];
    let pb5 = Seq::<usize>::empty();
    let pl6 = seq![hl(0u32, 8u32, 1u32, 2u32, 0u32, 0u32), hl(2u32, 9u32, 2u32, 0u32, 0u32, 1u32), hl(1u32, 3u32, 0u32, 1u32, 0u32, 2u32), hl(0u32, 2u32, 4u32, 5u32, 1u32, 2u32), hl(1u32, 11u32, 5u32, 3u32, 1u32, 3u32), hl(3u32, 6u32, 3u32, 4u32, 1u32, 4u32), hl(0u32, 5u32, 7u32, 8u32, 2u32, 4u32), hl(3u32, INVALID_INDEX, 8u32, 6u32, 2u32, INVALID_INDEX), hl(2u32, 0u32, 6u32, 7u32, 2u32, 0u32), hl(1u32, 1u32, 10u32, 11u32, 3u32, 1u32), hl(2u32, INVALID_INDEX, 11u32, 9u32, 3u32, INVALID_INDEX), hl(3u32, 4u32, 9u32, 10u32, 3u32, 3u32)];
    let pe6 = seq![HalfEdgeId(0u32), HalfEdgeId(1u32), HalfEdgeId(2u32), HalfEdgeId(4u32), HalfEdgeId(5u32)];
    let pb6 = Seq::<usize>::empty();
    let pl7 = seq![hl(0u32, 8u32, 1u32, 2u32, 0u32, 0u32), hl(2u32, 9u32, 2u32, 0u32, 0u32, 1u32), hl(1u32, 3u32, 0u32, 1u32, 0u32, 2u32), hl(0u32, 2u32, 4u32, 5u32, 1u32, 2u32), hl(1u32, 11u32, 5u32, 3u32, 1u32, 3u32), hl(3u32, 6u32, 3u32, 4u32, 1u32, 4u32), hl(0u32, 5u32, 7u32, 8u32, 2u32, 4u32), hl(3u32, INVALID_INDEX, 8u32, 6u32, 2u32, INVALID_INDEX), hl(2u32, 0u32, 6u32, 7u32, 2u32, 0u32), hl(1u32, 1u32, 10u32, 11u32, 3u32, 1u32), hl(2u32, INVALID_INDEX, 11u32, 9u32, 3u32, INVALID_INDEX), hl(3u32, 4u32, 9u32, 10u32, 3u32, 3u32)];
    let pe7 = seq![HalfEdgeId(0u32), HalfEdgeId(1u32), HalfEdgeId(2u32), HalfEdgeId(4u32), HalfEdgeId(5u32)];
    let pb7 = Seq::<usize>::empty();
    let pl8 = seq![hl(0u32, 8u32, 1u32, 2u32, 0u32, 0u32), hl(2u32, 9u32, 2u32, 0u32, 0u32, 1u32), hl(1u32, 3u32, 0u32, 1u32, 0u32, 2u32), hl(0u32, 2u32, 4u32, 5u32, 1u32, 2u32), hl(1u32, 11u32, 5u32, 3u32, 1u32, 3u32), hl(3u32, 6u32, 3u32, 4u32, 1u32, 4u32), hl(0u32, 5u32, 7u32, 8u32, 2u32, 4u32), hl(3u32, 10u32, 8u32, 6u32, 2u32, 5u32), hl(2u32, 0u32, 6u32, 7u32, 2u32, 0u32), hl(1u32, 1u32, 10u32, 11u32, 3u32, 1u32), hl(2u32, 7u32, 11u32, 9u32, 3u32, 5u32), hl(3u32, 4u32, 9u32, 10u32, 3u32, 3u32)];
    let pe8 = seq![HalfEdgeId(0u32), HalfEdgeId(1u32), HalfEdgeId(2u32), HalfEdgeId(4u32), HalfEdgeId(5u32), HalfEdgeId(7u32)];
    let pb8 = Seq::<usize>::empty();
    let pl9 = seq![hl(0u32, 8u32, 1u32, 2u32, 0u32, 0u32), hl(2u32, 9u32, 2u32, 0u32, 0u32, 1u32), hl(1u32, 3u32, 0u32, 1u32, 0u32, 2u32), hl(0u32, 2u32, 4u32, 5u32, 1u32, 2u32), hl(1u32, 11u32, 5u32, 3u32, 1u32, 3u32), hl(3u32, 6u32, 3u32, 4u32, 1u32, 4u32), hl(0u32, 5u32, 7u32, 8u32, 2u32, 4u32), hl(3u32, 10u32, 8u32, 6u32, 2u32, 5u32), hl(2u32, 0u32, 6u32, 7u32, 2u32, 0u32), hl(1u32, 1u32, 10u32, 11u32, 3u32, 1u32), hl(2u32, 7u32, 11u32, 9u32, 3u32, 5u32), hl(3u32, 4u32, 9u32, 10u32, 3u32, 3u32)];
    let pe9 = seq![HalfEdgeId(0u32), HalfEdgeId(1u32), HalfEdgeId(2u32), HalfEdgeId(4u32), HalfEdgeId(5u32), HalfEdgeId(7u32)];
    let pb9 = Seq::<usize>::empty();
    let pl10 = seq![hl(0u32, 8u32, 1u32, 2u32, 0u32, 0u32), hl(2u32, 9u32, 2u32, 0u32, 0u32, 1u32), hl(1u32, 3u32, 0u32, 1u32, 0u32, 2u32), hl(0u32, 2u32, 4u32, 5u32, 1u32, 2u32), hl(1u32, 11u32, 5u32, 3u32, 1u32, 3u32), hl(3u32, 6u32, 3u32, 4u32, 1u32, 4u32), hl(0u32, 5u32, 7u32, 8u32, 2u32, 4u32), hl(3u32, 10u32, 8u32, 6u32, 2u32, 5u32), hl(2u32, 0u32, 6u32, 7u32, 2u32, 0u32), hl(1u32, 1u32, 10u32, 11u32, 3u32, 1u32), hl(2u32, 7u32, 11u32, 9u32, 3u32, 5u32), hl(3u32, 4u32, 9u32, 10u32, 3u32, 3u32)];
    let pe10 = seq![HalfEdgeId(0u32), HalfEdgeId(1u32), HalfEdgeId(2u32), HalfEdgeId(4u32), HalfEdgeId(5u32), HalfEdgeId(7u32)];
    let pb10 = Seq::<usize>::empty();
    let pl11 = seq![hl(0u32, 8u32, 1u32, 2u32, 0u32, 0u32), hl(2u32, 9u32, 2u32, 0u32, 0u32, 1u32), hl(1u32, 3u32, 0u32, 1u32, 0u32, 2u32), hl(0u32, 2u32, 4u32, 5u32, 1u32, 2u32), hl(1u32, 11u32, 5u32, 3u32, 1u32, 3u32), hl(3u32, 6u32, 3u32, 4u32, 1u32, 4u32), hl(0u32, 5u32, 7u32, 8u32, 2u32, 4u32), hl(3u32, 10u32, 8u32, 6u32, 2u32, 5u32), hl(2u32, 0u32, 6u32, 7u32, 2u32, 0u32), hl(1u32, 1u32, 10u32, 11u32, 3u32, 1u32), hl(2u32, 7u32, 11u32, 9u32, 3u32, 5u32), hl(3u32, 4u32, 9u32, 10u32, 3u32, 3u32)];
    let pe11 = seq![HalfEdgeId(0u32), HalfEdgeId(1u32), HalfEdgeId(2u32), HalfEdgeId(4u32), HalfEdgeId(5u32), HalfEdgeId(7u32)];
    let pb11 = Seq::<usize>::empty();
    let pl12 = seq![hl(0u32, 8u32, 1u32, 2u32, 0u32, 0u32), hl(2u32, 9u32, 2u32, 0u32, 0u32, 1u32), hl(1u32, 3u32, 0u32, 1u32, 0u32, 2u32), hl(0u32, 2u32, 4u32, 5u32, 1u32, 2u32), hl(1u32, 11u32, 5u32, 3u32, 1u32, 3u32), hl(3u32, 6u32, 3u32, 4u32, 1u32, 4u32), hl(0u32, 5u32, 7u32, 8u32, 2u32, 4u32), hl(3u32, 10u32, 8u32, 6u32, 2u32, 5u32), hl(2u32, 0u32, 6u32, 7u32, 2u32, 0u32), hl(1u32, 1u32, 10u32, 11u32, 3u32, 1u32), hl(2u32, 7u32, 11u32, 9u32, 3u32, 5u32), hl(3u32, 4u32, 9u32, 10u32, 3u32, 3u32)];
    let pe12 = seq![HalfEdgeId(0u32), HalfEdgeId(1u32), HalfEdgeId(2u32), HalfEdgeId(4u32), HalfEdgeId(5u32), HalfEdgeId(7u32)];
    let pb12 = Seq::<usize>::empty();
    assert(pair_run(pl12, keys, pe12, pb12, 12) == Some((pl12, pe12, pb12)));
    assert(pair_run(pl11, keys, pe11, pb11, 11) == pair_run(pl12, keys, pe12, pb12, 12));
    assert(pair_run(pl10, keys, pe10, pb10, 10) == pair_run(pl11, keys, pe11, pb11, 11));
    assert(pair_run(pl9, keys, pe9, pb9, 9) == pair_run(pl10, keys, pe10, pb10, 10));
    assert(pair_run(pl8, keys, pe8, pb8, 8) == pair_run(pl9, keys, pe9, pb9, 9));
    assert(pl7.update(7, HalfEdgeLinks { twin: HalfEdgeId(10 as u32), edge: EdgeId(5 as u32), ..pl7[7] }).update(10, HalfEdgeLinks { twin: HalfEdgeId(7 as u32), edge: EdgeId(5 as u32), ..pl7.update(7, HalfEdgeLinks { twin: HalfEdgeId(10 as u32), edge: EdgeId(5 as u32), ..pl7[7] })[10] }) =~= pl8);
    assert(pe7.push(HalfEdgeId(7 as u32)) =~= pe8);
    assert(pair_run(pl7, keys, pe7, pb7, 7) == pair_run(pl8, keys, pe8, pb8, 8));
    assert(pair_run(pl6, keys, pe6, pb6, 6) == pair_run(pl7, keys, pe7, pb7, 7));
    assert(pl5.update(5, HalfEdgeLinks { twin: HalfEdgeId(6 as u32), edge: EdgeId(4 as u32), ..pl5[5] }).update(6, HalfEdgeLinks { twin: HalfEdgeId(5 as u32), edge: EdgeId(4 as u32), ..pl5.update(5, HalfEdgeLinks { twin: HalfEdgeId(6 as u32), edge: EdgeId(4 as u32), ..pl5[5] })[6] }) =~= pl6);
    assert(pe5.push(HalfEdgeId(5 as u32)) =~= pe6);
    assert(pair_run(pl5, keys, pe5, pb5, 5) == pair_run(pl6, keys, pe6, pb6, 6));
    assert(pl4.update(4, HalfEdgeLinks { twin: HalfEdgeId(11 as u32), edge: EdgeId(3 as u32), ..pl4[4] }).update(11, HalfEdgeLinks { twin: HalfEdgeId(4 as u32), edge: EdgeId(3 as u32), ..pl4.update(4, HalfEdgeLinks { twin: HalfEdgeId(11 as u32), edge: EdgeId(3 as u32), ..pl4[4] })[11] }) =~= pl5);
    assert(pe4.push(HalfEdgeId(4 as u32)) =~= pe5);
    assert(pair_run(pl4, keys, pe4, pb4, 4) == pair_run(pl5, keys, pe5, pb5, 5));
    assert(pair_run(pl3, keys, pe3, pb3, 3) == pair_run(pl4, keys, pe4, pb4, 4));
    assert(pl2.update(2, HalfEdgeLinks { twin: HalfEdgeId(3 as u32), edge: EdgeId(2 as u32), ..pl2[2] }).update(3, HalfEdgeLinks { twin: HalfEdgeId(2 as u32), edge: EdgeId(2 as u32), ..pl2.update(2, HalfEdgeLinks { twin: HalfEdgeId(3 as u32), edge: EdgeId(2 as u32), ..pl2[2] })[3] }) =~= pl3);
    assert(pe2.push(HalfEdgeId(2 as u32)) =~= pe3);
    assert(pair_run(pl2, keys, pe2, pb2, 2) == pair_run(pl3, keys, pe3, pb3, 3));
    assert(pl1.update(1, HalfEdgeLinks { twin: HalfEdgeId(9 as u32), edge: EdgeId(1 as u32), ..pl1[1] }).update(9, HalfEdgeLinks { twin: HalfEdgeId(1 as u32), edge: EdgeId(1 as u32), ..pl1.update(1, HalfEdgeLinks { twin: HalfEdgeId(9 as u32), edge: EdgeId(1 as u32), ..pl1[1] })[9] }) =~= pl2);
    assert(pe1.push(HalfEdgeId(1 as u32)) =~= pe2);
    assert(pair_run(pl1, keys, pe1, pb1, 1) == pair_run(pl2, keys, pe2, pb2, 2));
    assert(pl0.update(0, HalfEdgeLinks { twin: HalfEdgeId(8 as u32), edge: EdgeId(0 as u32), ..pl0[0] }).update(8, HalfEdgeLinks { twin: HalfEdgeId(0 as u32), edge: EdgeId(0 as u32), ..pl0.update(0, HalfEdgeLinks { twin: HalfEdgeId(8 as u32), edge: EdgeId(0 as u32), ..pl0[0] })[8] }) =~= pl1);
    assert(pe0.push(HalfEdgeId(0 as u32)) =~= pe1);
    assert(pair_run(pl0, keys, pe0, pb0, 0) == pair_run(pl1, keys, pe1, pb1, 1));
    assert(pl0 =~= l0);
    assert(pe0 =~= Seq::<HalfEdgeId>::empty());
    assert(pb0 =~= Seq::<usize>::empty());
}

#[verifier::spinoff_prover]
#[verifier::rlimit(60)]
proof fn lemma_tetrahedron_walks<L>()
    ensures
        walks_found(tetrahedron_paired(), tetrahedron_open_sides()),
        walk_successors(tetrahedron_paired(), tetrahedron_open_sides()) == tetrahedron_successors(),
{
    let pl12 = seq![hl(0u32, 8u32, 1u32, 2u32, 0u32, 0u32), hl(2u32, 9u32, 2u32, 0u32, 0u32, 1u32), hl(1u32, 3u32, 0u32, 1u32, 0u32, 2u32), hl(0u32, 2u32, 4u32, 5u32, 1u32, 2u32), hl(1u32, 11u32, 5u32, 3u32, 1u32, 3u32), hl(3u32, 6u32, 3u32, 4u32, 1u32, 4u32), hl(0u32, 5u32, 7u32, 8u32, 2u32, 4u32), hl(3u32, 10u32, 8u32, 6u32, 2u32, 5u32), hl(2u32, 0u32, 6u32, 7u32, 2u32, 0u32), hl(1u32, 1u32, 10u32, 11u32, 3u32, 1u32), hl(2u32, 7u32, 11u32, 9u32, 3u32, 5u32), hl(3u32, 4u32, 9u32, 10u32, 3u32, 3u32)];
    let pb12 = Seq::<usize>::empty();
    assert(walks_found(pl12, pb12));
    assert(walk_successors(pl12, pb12) =~= Seq::<usize>::empty());
}

#[verifier::spinoff_prover]
#[verifier::rlimit(60)]
proof fn lemma_tetrahedron_close<L>()
    ensures
        close_run(tetrahedron_outgoing(), tetrahedron_paired(), tetrahedron_pair_edges(), interior_records(shape_polygons::<L>(tetrahedron_corners())), tetrahedron_keys(), tetrahedron_open_sides(), tetrahedron_successors()) == Some((tetrahedron_topology().outgoing, tetrahedron_topology().links, tetrahedron_topology().edges, tetrahedron_topology().faces)),
{
    let fs = shape_polygons::<L>(tetrahedron_corners());
    let keys = seq![(0usize, 2usize), (2usize, 1usize), (1usize, 0usize), (0usize, 1usize), (1usize, 3usize), (3usize, 0usize), (0usize, 3usize), (3usize, 2usize), (2usize, 0usize), (1usize, 2usize), (2usize, 3usize), (3usize, 1usize)];
    let l0 = seq![hl(0u32, INVALID_INDEX, 1u32, 2u32, 0u32, INVALID_INDEX), hl(2u32, INVALID_INDEX, 2u32, 0u32, 0u32, INVALID_INDEX), hl(1u32, INVALID_INDEX, 0u32, 1u32, 0u32, INVALID_INDEX), hl(0u32, INVALID_INDEX, 4u32, 5u32, 1u32, INVALID_INDEX), hl(1u32, INVALID_INDEX, 5u32, 3u32, 1u32, INVALID_INDEX), hl(3u32, INVALID_INDEX, 3u32, 4u32, 1u32, INVALID_INDEX), hl(0u32, INVALID_INDEX, 7u32, 8u32, 2u32, INVALID_INDEX), hl(3u32, INVALID_INDEX, 8u32, 6u32, 2u32, INVALID_INDEX), hl(2u32, INVALID_INDEX, 6u32, 7u32, 2u32, INVALID_INDEX), hl(1u32, INVALID_INDEX, 10u32, 11u32, 3u32, INVALID_INDEX), hl(2u32, INVALID_INDEX, 11u32, 9u32, 3u32, INVALID_INDEX), hl(3u32, INVALID_INDEX, 9u32, 10u32, 3u32, INVALID_INDEX)];
    let pl12 = seq![hl(0u32, 8u32, 1u32, 2u32, 0u32, 0u32), hl(2u32, 9u32, 2u32, 0u32, 0u32, 1u32), hl(1u32, 3u32, 0u32, 1u32, 0u32, 2u32), hl(0u32, 2u32, 4u32, 5u32, 1u32, 2u32), hl(1u32, 11u32, 5u32, 3u32, 1u32, 3u32), hl(3u32, 6u32, 3u32, 4u32, 1u32, 4u32), hl(0u32, 5u32, 7u32, 8u32, 2u32, 4u32), hl(3u32, 10u32, 8u32, 6u32, 2u32, 5u32), hl(2u32, 0u32, 6u32, 7u32, 2u32, 0u32), hl(1u32, 1u32, 10u32, 11u32, 3u32, 1u32), hl(2u32, 7u32, 11u32, 9u32, 3u32, 5u32), hl(3u32, 4u32, 9u32, 10u32, 3u32, 3u32)];
    let pe12 = seq![HalfEdgeId(0u32), HalfEdgeId(1u32), HalfEdgeId(2u32), HalfEdgeId(4u32), HalfEdgeId(5u32), HalfEdgeId(7u32)];
    let pb12 = Seq::<usize>::empty();
    lemma_tetrahedron_layout::<L>();
    assert(unmatched_map(12, 0) =~= seq![12usize, 12usize, 12usize, 12usize, 12usize, 12usize, 12usize, 12usize, 12usize, 12usize, 12usize, 12usize]);
    let go0 = seq![HalfEdgeId(0u32), HalfEdgeId(2u32), HalfEdgeId(1u32), HalfEdgeId(5u32)];
    let gl0 = seq![hl(0u32, 8u32, 1u32, 2u32, 0u32, 0u32), hl(2u32, 9u32, 2u32, 0u32, 0u32, 1u32), hl(1u32, 3u32, 0u32, 1u32, 0u32, 2u32), hl(0u32, 2u32, 4u32, 5u32, 1u32, 2u32), hl(1u32, 11u32, 5u32, 3u32, 1u32, 3u32), hl(3u32, 6u32, 3u32, 4u32, 1u32, 4u32), hl(0u32, 5u32, 7u32, 8u32, 2u32, 4u32), hl(3u32, 10u32, 8u32, 6u32, 2u32, 5u32), hl(2u32, 0u32, 6u32, 7u32, 2u32, 0u32), hl(1u32, 1u32, 10u32, 11u32, 3u32, 1u32), hl(2u32, 7u32, 11u32, 9u32, 3u32, 5u32), hl(3u32, 4u32, 9u32, 10u32, 3u32, 3u32)];
    let ge0 = seq![HalfEdgeId(0u32), HalfEdgeId(1u32), HalfEdgeId(2u32), HalfEdgeId(4u32), HalfEdgeId(5u32), HalfEdgeId(7u32)];
    let gm0 = seq![12usize, 12usize, 12usize, 12usize, 12usize, 12usize, 12usize, 12usize, 12usize, 12usize, 12usize, 12usize];
    assert(ghosts_run((go0, gl0, ge0, gm0), keys, pb12, 0) == (go0, gl0, ge0, gm0));
    assert(go0 =~= first_outgoing(no_outgoing(4), l0, 12));
    let nl0 = seq![hl(0u32, 8u32, 1u32, 2u32, 0u32, 0u32), hl(2u32, 9u32, 2u32, 0u32, 0u32, 1u32), hl(1u32, 3u32, 0u32, 1u32, 0u32, 2u32), hl(0u32, 2u32, 4u32, 5u32, 1u32, 2u32), hl(1u32, 11u32, 5u32, 3u32, 1u32, 3u32), hl(3u32, 6u32, 3u32, 4u32, 1u32, 4u32), hl(0u32, 5u32, 7u32, 8u32, 2u32, 4u32), hl(3u32, 10u32, 8u32, 6u32, 2u32, 5u32), hl(2u32, 0u32, 6u32, 7u32, 2u32, 0u32), hl(1u32, 1u32, 10u32, 11u32, 3u32, 1u32), hl(2u32, 7u32, 11u32, 9u32, 3u32, 5u32), hl(3u32, 4u32, 9u32, 10u32, 3u32, 3u32)];
    assert(nexts_run(nl0, gm0, pb12, Seq::<usize>::empty(), 0) == Some(nl0));
    assert(nl0 =~= gl0);
    let fl0 = seq![hl(0u32, 8u32, 1u32, 2u32, 0u32, 0u32), hl(2u32, 9u32, 2u32, 0u32, 0u32, 1u32), hl(1u32, 3u32, 0u32, 1u32, 0u32, 2u32), hl(0u32, 2u32, 4u32, 5u32, 1u32, 2u32), hl(1u32, 11u32, 5u32, 3u32, 1u32, 3u32), hl(3u32, 6u32, 3u32, 4u32, 1u32, 4u32), hl(0u32, 5u32, 7u32, 8u32, 2u32, 4u32), hl(3u32, 10u32, 8u32, 6u32, 2u32, 5u32), hl(2u32, 0u32, 6u32, 7u32, 2u32, 0u32), hl(1u32, 1u32, 10u32, 11u32, 3u32, 1u32), hl(2u32, 7u32, 11u32, 9u32, 3u32, 5u32), hl(3u32, 4u32, 9u32, 10u32, 3u32, 3u32)];
    let fv0 = seq![false, false, false, false, false, false, false, false, false, false, false, false];
    let fr0 = seq![FaceRecord { halfedge: HalfEdgeId(0u32), kind: FaceKind::Interior, data: FacePayload { material: None, region: None } }, FaceRecord { halfedge: HalfEdgeId(3u32), kind: FaceKind::Interior, data: FacePayload { material: None, region: None } }, FaceRecord { halfedge: HalfEdgeId(6u32), kind: FaceKind::Interior, data: FacePayload { material: None, region: None } }, FaceRecord { halfedge: HalfEdgeId(9u32), kind: FaceKind::Interior, data: FacePayload { material: None, region: None } }];
    assert(faces_run(fl0, fv0, fr0, 0, 12, 0) == Some((fl0, fr0)));
    assert(fl0 =~= nl0);
    assert(fv0 =~= unvisited(12));
    assert(fr0 =~= interior_records(fs));
    assert(close_run(go0, pl12, pe12, interior_records(fs), keys, pb12, Seq::<usize>::empty()) == Some((go0, fl0, ge0, fr0)));
}

#[verifier::spinoff_prover]
#[verifier::rlimit(60)]
proof fn lemma_tetrahedron_valid<L>()
    ensures
        tetrahedron_topology().valid(),
{
    let t = tetrahedron_topology();
    assert forall|v: int| 0 <= v < 4 && (#[trigger] t.outgoing[v]).valid() implies t.outgoing[v].idx() < t.nh() && t.links[t.outgoing[v].idx()].origin.idx() == v by {
        if v == 0 { assert(t.outgoing[0] == HalfEdgeId(0u32)); }
        if v == 1 { assert(t.outgoing[1] == HalfEdgeId(2u32)); }
        if v == 2 { assert(t.outgoing[2] == HalfEdgeId(1u32)); }
        if v == 3 { assert(t.outgoing[3] == HalfEdgeId(5u32)); }
    }
    assert forall|e: int| 0 <= e < 6 implies (#[trigger] t.edges[e]).idx() < t.nh() && t.links[t.edges[e].idx()].edge.idx() == e by {
        if e == 0 { assert(t.edges[0] == HalfEdgeId(0u32)); }
        if e == 1 { assert(t.edges[1] == HalfEdgeId(1u32)); }
        if e == 2 { assert(t.edges[2] == HalfEdgeId(2u32)); }
        if e == 3 { assert(t.edges[3] == HalfEdgeId(4u32)); }
        if e == 4 { assert(t.edges[4] == HalfEdgeId(5u32)); }
        if e == 5 { assert(t.edges[5] == HalfEdgeId(7u32)); }
    }
    assert forall|f: int| 0 <= f < 4 implies (#[trigger] t.faces[f]).halfedge.idx() < t.nh() && t.links[t.faces[f].halfedge.idx()].face.idx() == f by {
        if f == 0 { assert(t.faces[0].halfedge == HalfEdgeId(0u32)); }
        if f == 1 { assert(t.faces[1].halfedge == HalfEdgeId(3u32)); }
        if f == 2 { assert(t.faces[2].halfedge == HalfEdgeId(6u32)); }
        if f == 3 { assert(t.faces[3].halfedge == HalfEdgeId(9u32)); }
    }
    assert forall|h: int| 0 <= h < 12 implies #[trigger] t.link_ok(h) by {
        if h == 0 { assert(t.links[0] == hl(0u32, 8u32, 1u32, 2u32, 0u32, 0u32)); }
        if h == 1 { assert(t.links[1] == hl(2u32, 9u32, 2u32, 0u32, 0u32, 1u32)); }
        if h == 2 { assert(t.links[2] == hl(1u32, 3u32, 0u32, 1u32, 0u32, 2u32)); }
        if h == 3 { assert(t.links[3] == hl(0u32, 2u32, 4u32, 5u32, 1u32, 2u32)); }
        if h == 4 { assert(t.links[4] == hl(1u32, 11u32, 5u32, 3u32, 1u32, 3u32)); }
        if h == 5 { assert(t.links[5] == hl(3u32, 6u32, 3u32, 4u32, 1u32, 4u32)); }
        if h == 6 { assert(t.links[6] == hl(0u32, 5u32, 7u32, 8u32, 2u32, 4u32)); }
        if h == 7 { assert(t.links[7] == hl(3u32, 10u32, 8u32, 6u32, 2u32, 5u32)); }
        if h == 8 { assert(t.links[8] == hl(2u32, 0u32, 6u32, 7u32, 2u32, 0u32)); }
        if h == 9 { assert(t.links[9] == hl(1u32, 1u32, 10u32, 11u32, 3u32, 1u32)); }
        if h == 10 { assert(t.links[10] == hl(2u32, 7u32, 11u32, 9u32, 3u32, 5u32)); }
        if h == 11 { assert(t.links[11] == hl(3u32, 4u32, 9u32, 10u32, 3u32, 3u32)); }
    }
    assert(walk(t.links, HalfEdgeId(0u32), HalfEdgeId(2u32), 10, false) =~= seq![HalfEdgeId(2u32)]);
    assert(walk(t.links, HalfEdgeId(0u32), HalfEdgeId(1u32), 11, false) =~= seq![HalfEdgeId(1u32), HalfEdgeId(2u32)]);
    assert(walk(t.links, HalfEdgeId(0u32), HalfEdgeId(0u32), 12, false) =~= seq![HalfEdgeId(0u32), HalfEdgeId(1u32), HalfEdgeId(2u32)]);
    assert(t.face_loop(0) =~= seq![HalfEdgeId(0u32), HalfEdgeId(1u32), HalfEdgeId(2u32)]);
    assert(walk(t.links, HalfEdgeId(3u32), HalfEdgeId(5u32), 10, false) =~= seq![HalfEdgeId(5u32)]);
    assert(walk(t.links, HalfEdgeId(3u32), HalfEdgeId(4u32), 11, false) =~= seq![HalfEdgeId(4u32), HalfEdgeId(5u32)]);
    assert(walk(t.links, HalfEdgeId(3u32), HalfEdgeId(3u32), 12, false) =~= seq![HalfEdgeId(3u32), HalfEdgeId(4u32), HalfEdgeId(5u32)]);
    assert(t.face_loop(1) =~= seq![HalfEdgeId(3u32), HalfEdgeId(4u32), HalfEdgeId(5u32)]);
    assert(walk(t.links, HalfEdgeId(6u32), HalfEdgeId(8u32), 10, false) =~= seq![HalfEdgeId(8u32)]);
    assert(walk(t.links, HalfEdgeId(6u32), HalfEdgeId(7u32), 11, false) =~= seq![HalfEdgeId(7u32), HalfEdgeId(8u32)]);
    assert(walk(t.links, HalfEdgeId(6u32), HalfEdgeId(6u32), 12, false) =~= seq![HalfEdgeId(6u32), HalfEdgeId(7u32), HalfEdgeId(8u32)]);
    assert(t.face_loop(2) =~= seq![HalfEdgeId(6u32), HalfEdgeId(7u32), HalfEdgeId(8u32)]);
    assert(walk(t.links, HalfEdgeId(9u32), HalfEdgeId(11u32), 10, false) =~= seq![HalfEdgeId(11u32)]);
    assert(walk(t.links, HalfEdgeId(9u32), HalfEdgeId(10u32), 11, false) =~= seq![HalfEdgeId(10u32), HalfEdgeId(11u32)]);
    assert(walk(t.links, HalfEdgeId(9u32), HalfEdgeId(9u32), 12, false) =~= seq![HalfEdgeId(9u32), HalfEdgeId(10u32), HalfEdgeId(11u32)]);
    assert(t.face_loop(3) =~= seq![HalfEdgeId(9u32), HalfEdgeId(10u32), HalfEdgeId(11u32)]);
    assert forall|f: int| 0 <= f < 4 implies #[trigger] t.loop_ok(f) by {
        if f == 0 { assert(t.face_loop(0) =~= seq![HalfEdgeId(0u32), HalfEdgeId(1u32), HalfEdgeId(2u32)]); }
        if f == 1 { assert(t.face_loop(1) =~= seq![HalfEdgeId(3u32), HalfEdgeId(4u32), HalfEdgeId(5u32)]); }
        if f == 2 { assert(t.face_loop(2) =~= seq![HalfEdgeId(6u32), HalfEdgeId(7u32), HalfEdgeId(8u32)]); }
        if f == 3 { assert(t.face_loop(3) =~= seq![HalfEdgeId(9u32), HalfEdgeId(10u32), HalfEdgeId(11u32)]); }
    }
    assert forall|e: int| 0 <= e < 6 implies #[trigger] t.links[t.edges[e].idx()].face != t.links[t.links[t.edges[e].idx()].twin.idx()].face by {
        if e == 0 { assert(t.edges[0] == HalfEdgeId(0u32)); }
        if e == 1 { assert(t.edges[1] == HalfEdgeId(1u32)); }
        if e == 2 { assert(t.edges[2] == HalfEdgeId(2u32)); }
        if e == 3 { assert(t.edges[3] == HalfEdgeId(4u32)); }
        if e == 4 { assert(t.edges[4] == HalfEdgeId(5u32)); }
        if e == 5 { assert(t.edges[5] == HalfEdgeId(7u32)); }
    }
    let oc0 = Seq::<HalfEdgeLinks>::empty();
    let oc1 = seq![hl(0u32, 8u32, 1u32, 2u32, 0u32, 0u32)];
    let oc2 = seq![hl(0u32, 8u32, 1u32, 2u32, 0u32, 0u32), hl(2u32, 9u32, 2u32, 0u32, 0u32, 1u32)];
    let oc3 = seq![hl(0u32, 8u32, 1u32, 2u32, 0u32, 0u32), hl(2u32, 9u32, 2u32, 0u32, 0u32, 1u32), hl(1u32, 3u32, 0u32, 1u32, 0u32, 2u32)];
    let oc4 = seq![hl(0u32, 8u32, 1u32, 2u32, 0u32, 0u32), hl(2u32, 9u32, 2u32, 0u32, 0u32, 1u32), hl(1u32, 3u32, 0u32, 1u32, 0u32, 2u32), hl(0u32, 2u32, 4u32, 5u32, 1u32, 2u32)];
    let oc5 = seq![hl(0u32, 8u32, 1u32, 2u32, 0u32, 0u32), hl(2u32, 9u32, 2u32, 0u32, 0u32, 1u32), hl(1u32, 3u32, 0u32, 1u32, 0u32, 2u32), hl(0u32, 2u32, 4u32, 5u32, 1u32, 2u32), hl(1u32, 11u32, 5u32, 3u32, 1u32, 3u32)];
    let oc6 = seq![hl(0u32, 8u32, 1u32, 2u32, 0u32, 0u32), hl(2u32, 9u32, 2u32, 0u32, 0u32, 1u32), hl(1u32, 3u32, 0u32, 1u32, 0u32, 2u32), hl(0u32, 2u32, 4u32, 5u32, 1u32, 2u32), hl(1u32, 11u32, 5u32, 3u32, 1u32, 3u32), hl(3u32, 6u32, 3u32, 4u32, 1u32, 4u32)];
    let oc7 = seq![hl(0u32, 8u32, 1u32, 2u32, 0u32, 0u32), hl(2u32, 9u32, 2u32, 0u32, 0u32, 1u32), hl(1u32, 3u32, 0u32, 1u32, 0u32, 2u32), hl(0u32, 2u32, 4u32, 5u32, 1u32, 2u32), hl(1u32, 11u32, 5u32, 3u32, 1u32, 3u32), hl(3u32, 6u32, 3u32, 4u32, 1u32, 4u32), hl(0u32, 5u32, 7u32, 8u32, 2u32, 4u32)];
    let oc8 = seq![hl(0u32, 8u32, 1u32, 2u32, 0u32, 0u32), hl(2u32, 9u32, 2u32, 0u32, 0u32, 1u32), hl(1u32, 3u32, 0u32, 1u32, 0u32, 2u32), hl(0u32, 2u32, 4u32, 5u32, 1u32, 2u32), hl(1u32, 11u32, 5u32, 3u32, 1u32, 3u32), hl(3u32, 6u32, 3u32, 4u32, 1u32, 4u32), hl(0u32, 5u32, 7u32, 8u32, 2u32, 4u32), hl(3u32, 10u32, 8u32, 6u32, 2u32, 5u32)];
    let oc9 = seq![hl(0u32, 8u32, 1u32, 2u32, 0u32, 0u32), hl(2u32, 9u32, 2u32, 0u32, 0u32, 1u32), hl(1u32, 3u32, 0u32, 1u32, 0u32, 2u32), hl(0u32, 2u32, 4u32, 5u32, 1u32, 2u32), hl(1u32, 11u32, 5u32, 3u32, 1u32, 3u32), hl(3u32, 6u32, 3u32, 4u32, 1u32, 4u32), hl(0u32, 5u32, 7u32, 8u32, 2u32, 4u32), hl(3u32, 10u32, 8u32, 6u32, 2u32, 5u32), hl(2u32, 0u32, 6u32, 7u32, 2u32, 0u32)];
    let oc10 = seq![hl(0u32, 8u32, 1u32, 2u32, 0u32, 0u32), hl(2u32, 9u32, 2u32, 0u32, 0u32, 1u32), hl(1u32, 3u32, 0u32, 1u32, 0u32, 2u32), hl(0u32, 2u32, 4u32, 5u32, 1u32, 2u32), hl(1u32, 11u32, 5u32, 3u32, 1u32, 3u32), hl(3u32, 6u32, 3u32, 4u32, 1u32, 4u32), hl(0u32, 5u32, 7u32, 8u32, 2u32, 4u32), hl(3u32, 10u32, 8u32, 6u32, 2u32, 5u32), hl(2u32, 0u32, 6u32, 7u32, 2u32, 0u32), hl(1u32, 1u32, 10u32, 11u32, 3u32, 1u32)];
    let oc11 = seq![hl(0u32, 8u32, 1u32, 2u32, 0u32, 0u32), hl(2u32, 9u32, 2u32, 0u32, 0u32, 1u32), hl(1u32, 3u32, 0u32, 1u32, 0u32, 2u32), hl(0u32, 2u32, 4u32, 5u32, 1u32, 2u32), hl(1u32, 11u32, 5u32, 3u32, 1u32, 3u32), hl(3u32, 6u32, 3u32, 4u32, 1u32, 4u32), hl(0u32, 5u32, 7u32, 8u32, 2u32, 4u32), hl(3u32, 10u32, 8u32, 6u32, 2u32, 5u32), hl(2u32, 0u32, 6u32, 7u32, 2u32, 0u32), hl(1u32, 1u32, 10u32, 11u32, 3u32, 1u32), hl(2u32, 7u32, 11u32, 9u32, 3u32, 5u32)];
    let oc12 = seq![hl(0u32, 8u32, 1u32, 2u32, 0u32, 0u32), hl(2u32, 9u32, 2u32, 0u32, 0u32, 1u32), hl(1u32, 3u32, 0u32, 1u32, 0u32, 2u32), hl(0u32, 2u32, 4u32, 5u32, 1u32, 2u32), hl(1u32, 11u32, 5u32, 3u32, 1u32, 3u32), hl(3u32, 6u32, 3u32, 4u32, 1u32, 4u32), hl(0u32, 5u32, 7u32, 8u32, 2u32, 4u32), hl(3u32, 10u32, 8u32, 6u32, 2u32, 5u32), hl(2u32, 0u32, 6u32, 7u32, 2u32, 0u32), hl(1u32, 1u32, 10u32, 11u32, 3u32, 1u32), hl(2u32, 7u32, 11u32, 9u32, 3u32, 5u32), hl(3u32, 4u32, 9u32, 10u32, 3u32, 3u32)];
    assert(oc1.drop_last() =~= oc0);
    assert(oc2.drop_last() =~= oc1);
    assert(oc3.drop_last() =~= oc2);
    assert(oc4.drop_last() =~= oc3);
    assert(oc5.drop_last() =~= oc4);
    assert(oc6.drop_last() =~= oc5);
    assert(oc7.drop_last() =~= oc6);
    assert(oc8.drop_last() =~= oc7);
    assert(oc9.drop_last() =~= oc8);
    assert(oc10.drop_last() =~= oc9);
    assert(oc11.drop_last() =~= oc10);
    assert(oc12.drop_last() =~= oc11);
    assert(oc12 =~= t.links);
    assert(origin_count(oc0, 0) == 0);
    assert(origin_count(oc1, 0) == 1);
    assert(origin_count(oc2, 0) == 1);
    assert(origin_count(oc3, 0) == 1);
    assert(origin_count(oc4, 0) == 2);
    assert(origin_count(oc5, 0) == 2);
    assert(origin_count(oc6, 0) == 2);
    assert(origin_count(oc7, 0) == 3);
    assert(origin_count(oc8, 0) == 3);
    assert(origin_count(oc9, 0) == 3);
    assert(origin_count(oc10, 0) == 3);
    assert(origin_count(oc11, 0) == 3);
    assert(origin_count(oc12, 0) == 3);
    assert(walk(t.links, HalfEdgeId(0u32), HalfEdgeId(6u32), 10, true) =~= seq![HalfEdgeId(6u32)]);
    assert(walk(t.links, HalfEdgeId(0u32), HalfEdgeId(3u32), 11, true) =~= seq![HalfEdgeId(3u32), HalfEdgeId(6u32)]);
    assert(walk(t.links, HalfEdgeId(0u32), HalfEdgeId(0u32), 12, true) =~= seq![HalfEdgeId(0u32), HalfEdgeId(3u32), HalfEdgeId(6u32)]);
    assert(t.fan(0).len() == 3);
    assert(origin_count(oc0, 1) == 0);
    assert(origin_count(oc1, 1) == 0);
    assert(origin_count(oc2, 1) == 0);
    assert(origin_count(oc3, 1) == 1);
    assert(origin_count(oc4, 1) == 1);
    assert(origin_count(oc5, 1) == 2);
    assert(origin_count(oc6, 1) == 2);
    assert(origin_count(oc7, 1) == 2);
    assert(origin_count(oc8, 1) == 2);
    assert(origin_count(oc9, 1) == 2);
    assert(origin_count(oc10, 1) == 3);
    assert(origin_count(oc11, 1) == 3);
    assert(origin_count(oc12, 1) == 3);
    assert(walk(t.links, HalfEdgeId(2u32), HalfEdgeId(4u32), 10, true) =~= seq![HalfEdgeId(4u32)]);
    assert(walk(t.links, HalfEdgeId(2u32), HalfEdgeId(9u32), 11, true) =~= seq![HalfEdgeId(9u32), HalfEdgeId(4u32)]);
    assert(walk(t.links, HalfEdgeId(2u32), HalfEdgeId(2u32), 12, true) =~= seq![HalfEdgeId(2u32), HalfEdgeId(9u32), HalfEdgeId(4u32)]);
    assert(t.fan(1).len() == 3);
    assert(origin_count(oc0, 2) == 0);
    assert(origin_count(oc1, 2) == 0);
    assert(origin_count(oc2, 2) == 1);
    assert(origin_count(oc3, 2) == 1);
    assert(origin_count(oc4, 2) == 1);
    assert(origin_count(oc5, 2) == 1);
    assert(origin_count(oc6, 2) == 1);
    assert(origin_count(oc7, 2) == 1);
    assert(origin_count(oc8, 2) == 1);
    assert(origin_count(oc9, 2) == 2);
    assert(origin_count(oc10, 2) == 2);
    assert(origin_count(oc11, 2) == 3);
    assert(origin_count(oc12, 2) == 3);
    assert(walk(t.links, HalfEdgeId(1u32), HalfEdgeId(10u32), 10, true) =~= seq![HalfEdgeId(10u32)]);
    assert(walk(t.links, HalfEdgeId(1u32), HalfEdgeId(8u32), 11, true) =~= seq![HalfEdgeId(8u32), HalfEdgeId(10u32)]);
    assert(walk(t.links, HalfEdgeId(1u32), HalfEdgeId(1u32), 12, true) =~= seq![HalfEdgeId(1u32), HalfEdgeId(8u32), HalfEdgeId(10u32)]);
    assert(t.fan(2).len() == 3);
    assert(origin_count(oc0, 3) == 0);
    assert(origin_count(oc1, 3) == 0);
    assert(origin_count(oc2, 3) == 0);
    assert(origin_count(oc3, 3) == 0);
    assert(origin_count(oc4, 3) == 0);
    assert(origin_count(oc5, 3) == 0);
    assert(origin_count(oc6, 3) == 1);
    assert(origin_count(oc7, 3) == 1);
    assert(origin_count(oc8, 3) == 2);
    assert(origin_count(oc9, 3) == 2);
    assert(origin_count(oc10, 3) == 2);
    assert(origin_count(oc11, 3) == 2);
    assert(origin_count(oc12, 3) == 3);
    assert(walk(t.links, HalfEdgeId(5u32), HalfEdgeId(7u32), 10, true) =~= seq![HalfEdgeId(7u32)]);
    assert(walk(t.links, HalfEdgeId(5u32), HalfEdgeId(11u32), 11, true) =~= seq![HalfEdgeId(11u32), HalfEdgeId(7u32)]);
    assert(walk(t.links, HalfEdgeId(5u32), HalfEdgeId(5u32), 12, true) =~= seq![HalfEdgeId(5u32), HalfEdgeId(11u32), HalfEdgeId(7u32)]);
    assert(t.fan(3).len() == 3);
    assert forall|v: int| 0 <= v < 4 implies #[trigger] t.fan_ok(v) by {
        if v == 0 { assert(origin_count(t.links, 0) == origin_count(oc12, 0)); }
        if v == 1 { assert(origin_count(t.links, 1) == origin_count(oc12, 1)); }
        if v == 2 { assert(origin_count(t.links, 2) == origin_count(oc12, 2)); }
        if v == 3 { assert(origin_count(t.links, 3) == origin_count(oc12, 3)); }
    }
    assert(t.valid());
}

/// The tetrahedron closes into a valid mesh over its 4 vertices.
pub proof fn lemma_tetrahedron_builds<L>()
    ensures
        builds_manifold(4, shape_polygons::<L>(tetrahedron_corners())),
        built_topology(4, shape_polygons::<L>(tetrahedron_corners()))->0.nh() == 12,
        built_topology(4, shape_polygons::<L>(tetrahedron_corners()))->0.ne() == 6,
        built_topology(4, shape_polygons::<L>(tetrahedron_corners()))->0.nf() == 4,
        built_topology(4, shape_polygons::<L>(tetrahedron_corners()))->0.interior == 4,
{
    reveal(built_topology);
    assert(shape_polygons::<L>(tetrahedron_corners()).len() == 4);
    lemma_tetrahedron_layout::<L>();
    lemma_tetrahedron_pairs::<L>();
    lemma_tetrahedron_walks::<L>();
    lemma_tetrahedron_close::<L>();
    lemma_tetrahedron_valid::<L>();
    assert(built_topology(4, shape_polygons::<L>(tetrahedron_corners())) == Some(tetrahedron_topology()));
}

spec fn cube_keys() -> Seq<(usize, usize)> {
    seq![(0usize, 1usize), (1usize, 2usize), (2usize, 3usize), (3usize, 0usize), (5usize, 4usize), (4usize, 7usize), (7usize, 6usize), (6usize, 5usize), (4usize, 0usize), (0usize, 3usize), (3usize, 7usize), (7usize, 4usize), (1usize, 5usize), (5usize, 6usize), (6usize, 2usize), (2usize, 1usize), (3usize, 2usize), (2usize, 6usize), (6usize, 7usize), (7usize, 3usize), (4usize, 5usize), (5usize, 1usize), (1usize, 0usize), (0usize, 4usize)]
}

spec fn cube_links() -> Seq<HalfEdgeLinks> {
    seq![hl(0u32, INVALID_INDEX, 1u32, 3u32, 0u32, INVALID_INDEX), hl(1u32, INVALID_INDEX, 2u32, 0u32, 0u32, INVALID_INDEX), hl(2u32, INVALID_INDEX, 3u32, 1u32, 0u32, INVALID_INDEX), hl(3u32, INVALID_INDEX, 0u32, 2u32, 0u32, INVALID_INDEX), hl(5u32, INVALID_INDEX, 5u32, 7u32, 1u32, INVALID_INDEX), hl(4u32, INVALID_INDEX, 6u32, 4u32, 1u32, INVALID_INDEX), hl(7u32, INVALID_INDEX, 7u32, 5u32, 1u32, INVALID_INDEX), hl(6u32, INVALID_INDEX, 4u32, 6u32, 1u32, INVALID_INDEX), hl(4u32, INVALID_INDEX, 9u32, 11u32, 2u32, INVALID_INDEX), hl(0u32, INVALID_INDEX, 10u32, 8u32, 2u32, INVALID_INDEX), hl(3u32, INVALID_INDEX, 11u32, 9u32, 2u32, INVALID_INDEX), hl(7u32, INVALID_INDEX, 8u32, 10u32, 2u32, INVALID_INDEX), hl(1u32, INVALID_INDEX, 13u32, 15u32, 3u32, INVALID_INDEX), hl(5u32, INVALID_INDEX, 14u32, 12u32, 3u32, INVALID_INDEX), hl(6u32, INVALID_INDEX, 15u32, 13u32, 3u32, INVALID_INDEX), hl(2u32, INVALID_INDEX, 12u32, 14u32, 3u32, INVALID_INDEX), hl(3u32, INVALID_INDEX, 17u32, 19u32, 4u32, INVALID_INDEX), hl(2u32, INVALID_INDEX, 18u32, 16u32, 4u32, INVALID_INDEX), hl(6u32, INVALID_INDEX, 19u32, 17u32, 4u32, INVALID_INDEX), hl(7u32, INVALID_INDEX, 16u32, 18u32, 4u32, INVALID_INDEX), hl(4u32, INVALID_INDEX, 21u32, 23u32, 5u32, INVALID_INDEX), hl(5u32, INVALID_INDEX, 22u32, 20u32, 5u32, INVALID_INDEX), hl(1u32, INVALID_INDEX, 23u32, 21u32, 5u32, INVALID_INDEX), hl(0u32, INVALID_INDEX, 20u32, 22u32, 5u32, INVALID_INDEX)]
}

spec fn cube_outgoing() -> Seq<HalfEdgeId> {
    seq![HalfEdgeId(0u32), HalfEdgeId(1u32), HalfEdgeId(2u32), HalfEdgeId(3u32), HalfEdgeId(5u32), HalfEdgeId(4u32), HalfEdgeId(7u32), HalfEdgeId(6u32)]
}

spec fn cube_paired() -> Seq<HalfEdgeLinks> {
    seq![hl(0u32, 22u32, 1u32, 3u32, 0u32, 0u32), hl(1u32, 15u32, 2u32, 0u32, 0u32, 1u32), hl(2u32, 16u32, 3u32, 1u32, 0u32, 2u32), hl(3u32, 9u32, 0u32, 2u32, 0u32, 3u32), hl(5u32, 20u32, 5u32, 7u32, 1u32, 4u32), hl(4u32, 11u32, 6u32, 4u32, 1u32, 5u32), hl(7u32, 18u32, 7u32, 5u32, 1u32, 6u32), hl(6u32, 13u32, 4u32, 6u32, 1u32, 7u32), hl(4u32, 23u32, 9u32, 11u32, 2u32, 8u32), hl(0u32, 3u32, 10u32, 8u32, 2u32, 3u32), hl(3u32, 19u32, 11u32, 9u32, 2u32, 9u32), hl(7u32, 5u32, 8u32, 10u32, 2u32, 5u32), hl(1u32, 21u32, 13u32, 15u32, 3u32, 10u32), hl(5u32, 7u32, 14u32, 12u32, 3u32, 7u32), hl(6u32, 17u32, 15u32, 13u32, 3u32, 11u32), hl(2u32, 1u32, 12u32, 14u32, 3u32, 1u32), hl(3u32, 2u32, 17u32, 19u32, 4u32, 2u32), hl(2u32, 14u32, 18u32, 16u32, 4u32, 11u32), hl(6u32, 6u32, 19u32, 17u32, 4u32, 6u32), hl(7u32, 10u32, 16u32, 18u32, 4u32, 9u32), hl(4u32, 4u32, 21u32, 23u32, 5u32, 4u32), hl(5u32, 12u32, 22u32, 20u32, 5u32, 10u32), hl(1u32, 0u32, 23u32, 21u32, 5u32, 0u32), hl(0u32, 8u32, 20u32, 22u32, 5u32, 8u32)]
}

spec fn cube_pair_edges() -> Seq<HalfEdgeId> {
    seq![HalfEdgeId(0u32), HalfEdgeId(1u32), HalfEdgeId(2u32), HalfEdgeId(3u32), HalfEdgeId(4u32), HalfEdgeId(5u32), HalfEdgeId(6u32), HalfEdgeId(7u32), HalfEdgeId(8u32), HalfEdgeId(10u32), HalfEdgeId(12u32), HalfEdgeId(14u32)]
}

spec fn cube_open_sides() -> Seq<usize> {
    Seq::<usize>::empty()
}

spec fn cube_successors() -> Seq<usize> {
    Seq::<usize>::empty()
}

spec fn cube_topology() -> Topology {
    topo_of(seq![HalfEdgeId(0u32), HalfEdgeId(1u32), HalfEdgeId(2u32), HalfEdgeId(3u32), HalfEdgeId(5u32), HalfEdgeId(4u32), HalfEdgeId(7u32), HalfEdgeId(6u32)], seq![hl(0u32, 22u32, 1u32, 3u32, 0u32, 0u32), hl(1u32, 15u32, 2u32, 0u32, 0u32, 1u32), hl(2u32, 16u32, 3u32, 1u32, 0u32, 2u32), hl(3u32, 9u32, 0u32, 2u32, 0u32, 3u32), hl(5u32, 20u32, 5u32, 7u32, 1u32, 4u32), hl(4u32, 11u32, 6u32, 4u32, 1u32, 5u32), hl(7u32, 18u32, 7u32, 5u32, 1u32, 6u32), hl(6u32, 13u32, 4u32, 6u32, 1u32, 7u32), hl(4u32, 23u32, 9u32, 11u32, 2u32, 8u32), hl(0u32, 3u32, 10u32, 8u32, 2u32, 3u32), hl(3u32, 19u32, 11u32, 9u32, 2u32, 9u32), hl(7u32, 5u32, 8u32, 10u32, 2u32, 5u32), hl(1u32, 21u32, 13u32, 15u32, 3u32, 10u32), hl(5u32, 7u32, 14u32, 12u32, 3u32, 7u32), hl(6u32, 17u32, 15u32, 13u32, 3u32, 11u32), hl(2u32, 1u32, 12u32, 14u32, 3u32, 1u32), hl(3u32, 2u32, 17u32, 19u32, 4u32, 2u32), hl(2u32, 14u32, 18u32, 16u32, 4u32, 11u32), hl(6u32, 6u32, 19u32, 17u32, 4u32, 6u32), hl(7u32, 10u32, 16u32, 18u32, 4u32, 9u32), hl(4u32, 4u32, 21u32, 23u32, 5u32, 4u32), hl(5u32, 12u32, 22u32, 20u32, 5u32, 10u32), hl(1u32, 0u32, 23u32, 21u32, 5u32, 0u32), hl(0u32, 8u32, 20u32, 22u32, 5u32, 8u32)], seq![HalfEdgeId(0u32), HalfEdgeId(1u32), HalfEdgeId(2u32), HalfEdgeId(3u32), HalfEdgeId(4u32), HalfEdgeId(5u32), HalfEdgeId(6u32), HalfEdgeId(7u32), HalfEdgeId(8u32), HalfEdgeId(10u32), HalfEdgeId(12u32), HalfEdgeId(14u32)], seq![FaceRecord { halfedge: HalfEdgeId(0u32), kind: FaceKind::Interior, data: FacePayload { material: None, region: None } }, FaceRecord { halfedge: HalfEdgeId(4u32), kind: FaceKind::Interior, data: FacePayload { material: None, region: None } }, FaceRecord { halfedge: HalfEdgeId(8u32), kind: FaceKind::Interior, data: FacePayload { material: None, region: None } }, FaceRecord { halfedge: HalfEdgeId(12u32), kind: FaceKind::Interior, data: FacePayload { material: None, region: None } }, FaceRecord { halfedge: HalfEdgeId(16u32), kind: FaceKind::Interior, data: FacePayload { material: None, region: None } }, FaceRecord { halfedge: HalfEdgeId(20u32), kind: FaceKind::Interior, data: FacePayload { material: None, region: None } }], 6)
}

#[verifier::spinoff_prover]
#[verifier::rlimit(60)]
proof fn lemma_cube_layout<L>()
    ensures
        interior_links(shape_polygons::<L>(cube_corners())) == cube_links(),
        all_keys(shape_polygons::<L>(cube_corners())) == cube_keys(),
        interior_records(shape_polygons::<L>(cube_corners())) == seq![FaceRecord { halfedge: HalfEdgeId(0u32), kind: FaceKind::Interior, data: FacePayload { material: None, region: None } }, FaceRecord { halfedge: HalfEdgeId(4u32), kind: FaceKind::Interior, data: FacePayload { material: None, region: None } }, FaceRecord { halfedge: HalfEdgeId(8u32), kind: FaceKind::Interior, data: FacePayload { material: None, region: None } }, FaceRecord { halfedge: HalfEdgeId(12u32), kind: FaceKind::Interior, data: FacePayload { material: None, region: None } }, FaceRecord { halfedge: HalfEdgeId(16u32), kind: FaceKind::Interior, data: FacePayload { material: None, region: None } }, FaceRecord { halfedge: HalfEdgeId(20u32), kind: FaceKind::Interior, data: FacePayload { material: None, region: None } }],
        first_outgoing(no_outgoing(8), cube_links(), 24) == cube_outgoing(),
{
    let fs = shape_polygons::<L>(cube_corners());
    assert(fs.len() == 6);
    assert(keys_before(fs, 0) =~= Seq::<(usize, usize)>::empty());
    assert(fs[0].corners =~= seq![0usize, 1usize, 2usize, 3usize]);
    assert(fs[0].data == empty_face_payload());
    assert(face_keys(fs[0]) =~= seq![(0usize, 1usize), (1usize, 2usize), (2usize, 3usize), (3usize, 0usize)]);
    lemma_keys_before_step(fs, 0);
    assert(keys_before(fs, 1) =~= seq![(0usize, 1usize), (1usize, 2usize), (2usize, 3usize), (3usize, 0usize)]);
    assert(fs[1].corners =~= seq![5usize, 4usize, 7usize, 6usize]);
    assert(fs[1].data == empty_face_payload());
    assert(face_keys(fs[1]) =~= seq![(5usize, 4usize), (4usize, 7usize), (7usize, 6usize), (6usize, 5usize)]);
    lemma_keys_before_step(fs, 1);
    assert(keys_before(fs, 2) =~= seq![(0usize, 1usize), (1usize, 2usize), (2usize, 3usize), (3usize, 0usize), (5usize, 4usize), (4usize, 7usize), (7usize, 6usize), (6usize, 5usize)]);
    assert(fs[2].corners =~= seq![4usize, 0usize, 3usize, 7usize]);
    assert(fs[2].data == empty_face_payload());
    assert(face_keys(fs[2]) =~= seq![(4usize, 0usize), (0usize, 3usize), (3usize, 7usize), (7usize, 4usize)]);
    lemma_keys_before_step(fs, 2);
    assert(keys_before(fs, 3) =~= seq![(0usize, 1usize), (1usize, 2usize), (2usize, 3usize), (3usize, 0usize), (5usize, 4usize), (4usize, 7usize), (7usize, 6usize), (6usize, 5usize), (4usize, 0usize), (0usize, 3usize), (3usize, 7usize), (7usize, 4usize)]);
    assert(fs[3].corners =~= seq![1usize, 5usize, 6usize, 2usize]);
    assert(fs[3].data == empty_face_payload());
    assert(face_keys(fs[3]) =~= seq![(1usize, 5usize), (5usize, 6usize), (6usize, 2usize), (2usize, 1usize)]);
    lemma_keys_before_step(fs, 3);
    assert(keys_before(fs, 4) =~= seq![(0usize, 1usize), (1usize, 2usize), (2usize, 3usize), (3usize, 0usize), (5usize, 4usize), (4usize, 7usize), (7usize, 6usize), (6usize, 5usize), (4usize, 0usize), (0usize, 3usize), (3usize, 7usize), (7usize, 4usize), (1usize, 5usize), (5usize, 6usize), (6usize, 2usize), (2usize, 1usize)]);
    assert(fs[4].corners =~= seq![3usize, 2usize, 6usize, 7usize]);
    assert(fs[4].data == empty_face_payload());
    assert(face_keys(fs[4]) =~= seq![(3usize, 2usize), (2usize, 6usize), (6usize, 7usize), (7usize, 3usize)]);
    lemma_keys_before_step(fs, 4);
    assert(keys_before(fs, 5) =~= seq![(0usize, 1usize), (1usize, 2usize), (2usize, 3usize), (3usize, 0usize), (5usize, 4usize), (4usize, 7usize), (7usize, 6usize), (6usize, 5usize), (4usize, 0usize), (0usize, 3usize), (3usize, 7usize), (7usize, 4usize), (1usize, 5usize), (5usize, 6usize), (6usize, 2usize), (2usize, 1usize), (3usize, 2usize), (2usize, 6usize), (6usize, 7usize), (7usize, 3usize)]);
    assert(fs[5].corners =~= seq![4usize, 5usize, 1usize, 0usize]);
    assert(fs[5].data == empty_face_payload());
    assert(face_keys(fs[5]) =~= seq![(4usize, 5usize), (5usize, 1usize), (1usize, 0usize), (0usize, 4usize)]);
    lemma_keys_before_step(fs, 5);
    assert(keys_before(fs, 6) =~= seq![(0usize, 1usize), (1usize, 2usize), (2usize, 3usize), (3usize, 0usize), (5usize, 4usize), (4usize, 7usize), (7usize, 6usize), (6usize, 5usize), (4usize, 0usize), (0usize, 3usize), (3usize, 7usize), (7usize, 4usize), (1usize, 5usize), (5usize, 6usize), (6usize, 2usize), (2usize, 1usize), (3usize, 2usize), (2usize, 6usize), (6usize, 7usize), (7usize, 3usize), (4usize, 5usize), (5usize, 1usize), (1usize, 0usize), (0usize, 4usize)]);
    let keys = seq![(0usize, 1usize), (1usize, 2usize), (2usize, 3usize), (3usize, 0usize), (5usize, 4usize), (4usize, 7usize), (7usize, 6usize), (6usize, 5usize), (4usize, 0usize), (0usize, 3usize), (3usize, 7usize), (7usize, 4usize), (1usize, 5usize), (5usize, 6usize), (6usize, 2usize), (2usize, 1usize), (3usize, 2usize), (2usize, 6usize), (6usize, 7usize), (7usize, 3usize), (4usize, 5usize), (5usize, 1usize), (1usize, 0usize), (0usize, 4usize)];
    assert(all_keys(fs) == keys);
    assert(corner_total(fs) == 24);
    assert(interior_link(fs, 0) == hl(0u32, INVALID_INDEX, 1u32, 3u32, 0u32, INVALID_INDEX)) by {
        let w: (int, int) = (0, 0);
        assert(keys_before(fs, 0).len() == 0);
        assert(keys_before(fs, 1).len() == 4);
        assert(keys_before(fs, 2).len() == 8);
        assert(keys_before(fs, 3).len() == 12);
        assert(keys_before(fs, 4).len() == 16);
        assert(keys_before(fs, 5).len() == 20);
        assert(0 <= w.0 < fs.len() && 0 <= w.1 < fs[w.0].corners.len() && 0 == keys_before(fs, w.0).len() + w.1);
        let p = choose|q: (int, int)| 0 <= q.0 < fs.len() && 0 <= q.1 < fs[q.0].corners.len() && 0 == keys_before(fs, q.0).len() + q.1;
        assert(0 <= p.0 < fs.len());
        assert(keys_before(fs, 0).len() == 0);
        assert(keys_before(fs, 1).len() == 4);
        assert(keys_before(fs, 2).len() == 8);
        assert(keys_before(fs, 3).len() == 12);
        assert(keys_before(fs, 4).len() == 16);
        assert(keys_before(fs, 5).len() == 20);
    }
    assert(interior_link(fs, 1) == hl(1u32, INVALID_INDEX, 2u32, 0u32, 0u32, INVALID_INDEX)) by {
        let w: (int, int) = (0, 1);
        assert(keys_before(fs, 0).len() == 0);
        assert(keys_before(fs, 1).len() == 4);
        assert(keys_before(fs, 2).len() == 8);
        assert(keys_before(fs, 3).len() == 12);
        assert(keys_before(fs, 4).len() == 16);
        assert(keys_before(fs, 5).len() == 20);
        assert(0 <= w.0 < fs.len() && 0 <= w.1 < fs[w.0].corners.len() && 1 == keys_before(fs, w.0).len() + w.1);
        let p = choose|q: (int, int)| 0 <= q.0 < fs.len() && 0 <= q.1 < fs[q.0].corners.len() && 1 == keys_before(fs, q.0).len() + q.1;
        assert(0 <= p.0 < fs.len());
        assert(keys_before(fs, 0).len() == 0);
        assert(keys_before(fs, 1).len() == 4);
        assert(keys_before(fs, 2).len() == 8);
        assert(keys_before(fs, 3).len() == 12);
        assert(keys_before(fs, 4).len() == 16);
        assert(keys_before(fs, 5).len() == 20);
    }
    assert(interior_link(fs, 2) == hl(2u32, INVALID_INDEX, 3u32, 1u32, 0u32, INVALID_INDEX)) by {
        let w: (int, int) = (0, 2);
        assert(keys_before(fs, 0).len() == 0);
        assert(keys_before(fs, 1).len() == 4);
        assert(keys_before(fs, 2).len() == 8);
        assert(keys_before(fs, 3).len() == 12);
        assert(keys_before(fs, 4).len() == 16);
        assert(keys_before(fs, 5).len() == 20);
        assert(0 <= w.0 < fs.len() && 0 <= w.1 < fs[w.0].corners.len() && 2 == keys_before(fs, w.0).len() + w.1);
        let p = choose|q: (int, int)| 0 <= q.0 < fs.len() && 0 <= q.1 < fs[q.0].corners.len() && 2 == keys_before(fs, q.0).len() + q.1;
        assert(0 <= p.0 < fs.len());
        assert(keys_before(fs, 0).len() == 0);
        assert(keys_before(fs, 1).len() == 4);
        assert(keys_before(fs, 2).len() == 8);
        assert(keys_before(fs, 3).len() == 12);
        assert(keys_before(fs, 4).len() == 16);
        assert(keys_before(fs, 5).len() == 20);
    }
    assert(interior_link(fs, 3) == hl(3u32, INVALID_INDEX, 0u32, 2u32, 0u32, INVALID_INDEX)) by {
        let w: (int, int) = (0, 3);
        assert(keys_before(fs, 0).len() == 0);
        assert(keys_before(fs, 1).len() == 4);
        assert(keys_before(fs, 2).len() == 8);
        assert(keys_before(fs, 3).len() == 12);
        assert(keys_before(fs, 4).len() == 16);
        assert(keys_before(fs, 5).len() == 20);
        assert(0 <= w.0 < fs.len() && 0 <= w.1 < fs[w.0].corners.len() && 3 == keys_before(fs, w.0).len() + w.1);
        let p = choose|q: (int, int)| 0 <= q.0 < fs.len() && 0 <= q.1 < fs[q.0].corners.len() && 3 == keys_before(fs, q.0).len() + q.1;
        assert(0 <= p.0 < fs.len());
        assert(keys_before(fs, 0).len() == 0);
        assert(keys_before(fs, 1).len() == 4);
        assert(keys_before(fs, 2).len() == 8);
        assert(keys_before(fs, 3).len() == 12);
        assert(keys_before(fs, 4).len() == 16);
        assert(keys_before(fs, 5).len() == 20);
    }
    assert(interior_link(fs, 4) == hl(5u32, INVALID_INDEX, 5u32, 7u32, 1u32, INVALID_INDEX)) by {
        let w: (int, int) = (1, 0);
        assert(keys_before(fs, 0).len() == 0);
        assert(keys_before(fs, 1).len() == 4);
        assert(keys_before(fs, 2).len() == 8);
        assert(keys_before(fs, 3).len() == 12);
        assert(keys_before(fs, 4).len() == 16);
        assert(keys_before(fs, 5).len() == 20);
        assert(0 <= w.0 < fs.len() && 0 <= w.1 < fs[w.0].corners.len() && 4 == keys_before(fs, w.0).len() + w.1);
        let p = choose|q: (int, int)| 0 <= q.0 < fs.len() && 0 <= q.1 < fs[q.0].corners.len() && 4 == keys_before(fs, q.0).len() + q.1;
        assert(0 <= p.0 < fs.len());
        assert(keys_before(fs, 0).len() == 0);
        assert(keys_before(fs, 1).len() == 4);
        assert(keys_before(fs, 2).len() == 8);
        assert(keys_before(fs, 3).len() == 12);
        assert(keys_before(fs, 4).len() == 16);
        assert(keys_before(fs, 5).len() == 20);
    }
    assert(interior_link(fs, 5) == hl(4u32, INVALID_INDEX, 6u32, 4u32, 1u32, INVALID_INDEX)) by {
        let w: (int, int) = (1, 1);
        assert(keys_before(fs, 0).len() == 0);
        assert(keys_before(fs, 1).len() == 4);
        assert(keys_before(fs, 2).len() == 8);
        assert(keys_before(fs, 3).len() == 12);
        assert(keys_before(fs, 4).len() == 16);
        assert(keys_before(fs, 5).len() == 20);
        assert(0 <= w.0 < fs.len() && 0 <= w.1 < fs[w.0].corners.len() && 5 == keys_before(fs, w.0).len() + w.1);
        let p = choose|q: (int, int)| 0 <= q.0 < fs.len() && 0 <= q.1 < fs[q.0].corners.len() && 5 == keys_before(fs, q.0).len() + q.1;
        assert(0 <= p.0 < fs.len());
        assert(keys_before(fs, 0).len() == 0);
        assert(keys_before(fs, 1).len() == 4);
        assert(keys_before(fs, 2).len() == 8);
        assert(keys_before(fs, 3).len() == 12);
        assert(keys_before(fs, 4).len() == 16);
        assert(keys_before(fs, 5).len() == 20);
    }
    assert(interior_link(fs, 6) == hl(7u32, INVALID_INDEX, 7u32, 5u32, 1u32, INVALID_INDEX)) by {
        let w: (int, int) = (1, 2);
        assert(keys_before(fs, 0).len() == 0);
        assert(keys_before(fs, 1).len() == 4);
        assert(keys_before(fs, 2).len() == 8);
        assert(keys_before(fs, 3).len() == 12);
        assert(keys_before(fs, 4).len() == 16);
        assert(keys_before(fs, 5).len() == 20);
        assert(0 <= w.0 < fs.len() && 0 <= w.1 < fs[w.0].corners.len() && 6 == keys_before(fs, w.0).len() + w.1);
        let p = choose|q: (int, int)| 0 <= q.0 < fs.len() && 0 <= q.1 < fs[q.0].corners.len() && 6 == keys_before(fs, q.0).len() + q.1;
        assert(0 <= p.0 < fs.len());
        assert(keys_before(fs, 0).len() == 0);
        assert(keys_before(fs, 1).len() == 4);
        assert(keys_before(fs, 2).len() == 8);
        assert(keys_before(fs, 3).len() == 12);
        assert(keys_before(fs, 4).len() == 16);
        assert(keys_before(fs, 5).len() == 20);
    }
    assert(interior_link(fs, 7) == hl(6u32, INVALID_INDEX, 4u32, 6u32, 1u32, INVALID_INDEX)) by {
        let w: (int, int) = (1, 3);
        assert(keys_before(fs, 0).len() == 0);
        assert(keys_before(fs, 1).len() == 4);
        assert(keys_before(fs, 2).len() == 8);
        assert(keys_before(fs, 3).len() == 12);
        assert(keys_before(fs, 4).len() == 16);
        assert(keys_before(fs, 5).len() == 20);
        assert(0 <= w.0 < fs.len() && 0 <= w.1 < fs[w.0].corners.len() && 7 == keys_before(fs, w.0).len() + w.1);
        let p = choose|q: (int, int)| 0 <= q.0 < fs.len() && 0 <= q.1 < fs[q.0].corners.len() && 7 == keys_before(fs, q.0).len() + q.1;
        assert(0 <= p.0 < fs.len());
        assert(keys_before(fs, 0).len() == 0);
        assert(keys_before(fs, 1).len() == 4);
        assert(keys_before(fs, 2).len() == 8);
        assert(keys_before(fs, 3).len() == 12);
        assert(keys_before(fs, 4).len() == 16);
        assert(keys_before(fs, 5).len() == 20);
    }
    assert(interior_link(fs, 8) == hl(4u32, INVALID_INDEX, 9u32, 11u32, 2u32, INVALID_INDEX)) by {
        let w: (int, int) = (2, 0);
        assert(keys_before(fs, 0).len() == 0);
        assert(keys_before(fs, 1).len() == 4);
        assert(keys_before(fs, 2).len() == 8);
        assert(keys_before(fs, 3).len() == 12);
        assert(keys_before(fs, 4).len() == 16);
        assert(keys_before(fs, 5).len() == 20);
        assert(0 <= w.0 < fs.len() && 0 <= w.1 < fs[w.0].corners.len() && 8 == keys_before(fs, w.0).len() + w.1);
        let p = choose|q: (int, int)| 0 <= q.0 < fs.len() && 0 <= q.1 < fs[q.0].corners.len() && 8 == keys_before(fs, q.0).len() + q.1;
        assert(0 <= p.0 < fs.len());
        assert(keys_before(fs, 0).len() == 0);
        assert(keys_before(fs, 1).len() == 4);
        assert(keys_before(fs, 2).len() == 8);
        assert(keys_before(fs, 3).len() == 12);
        assert(keys_before(fs, 4).len() == 16);
        assert(keys_before(fs, 5).len() == 20);
    }
    assert(interior_link(fs, 9) == hl(0u32, INVALID_INDEX, 10u32, 8u32, 2u32, INVALID_INDEX)) by {
        let w: (int, int) = (2, 1);
        assert(keys_before(fs, 0).len() == 0);
        assert(keys_before(fs, 1).len() == 4);
        assert(keys_before(fs, 2).len() == 8);
        assert(keys_before(fs, 3).len() == 12);
        assert(keys_before(fs, 4).len() == 16);
        assert(keys_before(fs, 5).len() == 20);
        assert(0 <= w.0 < fs.len() && 0 <= w.1 < fs[w.0].corners.len() && 9 == keys_before(fs, w.0).len() + w.1);
        let p = choose|q: (int, int)| 0 <= q.0 < fs.len() && 0 <= q.1 < fs[q.0].corners.len() && 9 == keys_before(fs, q.0).len() + q.1;
        assert(0 <= p.0 < fs.len());
        assert(keys_before(fs, 0).len() == 0);
        assert(keys_before(fs, 1).len() == 4);
        assert(keys_before(fs, 2).len() == 8);
        assert(keys_before(fs, 3).len() == 12);
        assert(keys_before(fs, 4).len() == 16);
        assert(keys_before(fs, 5).len() == 20);
    }
    assert(interior_link(fs, 10) == hl(3u32, INVALID_INDEX, 11u32, 9u32, 2u32, INVALID_INDEX)) by {
        let w: (int, int) = (2, 2);
        assert(keys_before(fs, 0).len() == 0);
        assert(keys_before(fs, 1).len() == 4);
        assert(keys_before(fs, 2).len() == 8);
        assert(keys_before(fs, 3).len() == 12);
        assert(keys_before(fs, 4).len() == 16);
        assert(keys_before(fs, 5).len() == 20);
        assert(0 <= w.0 < fs.len() && 0 <= w.1 < fs[w.0].corners.len() && 10 == keys_before(fs, w.0).len() + w.1);
        let p = choose|q: (int, int)| 0 <= q.0 < fs.len() && 0 <= q.1 < fs[q.0].corners.len() && 10 == keys_before(fs, q.0).len() + q.1;
        assert(0 <= p.0 < fs.len());
        assert(keys_before(fs, 0).len() == 0);
        assert(keys_before(fs, 1).len() == 4);
        assert(keys_before(fs, 2).len() == 8);
        assert(keys_before(fs, 3).len() == 12);
        assert(keys_before(fs, 4).len() == 16);
        assert(keys_before(fs, 5).len() == 20);
    }
    assert(interior_link(fs, 11) == hl(7u32, INVALID_INDEX, 8u32, 10u32, 2u32, INVALID_INDEX)) by {
        let w: (int, int) = (2, 3);
        assert(keys_before(fs, 0).len() == 0);
        assert(keys_before(fs, 1).len() == 4);
        assert(keys_before(fs, 2).len() == 8);
        assert(keys_before(fs, 3).len() == 12);
        assert(keys_before(fs, 4).len() == 16);
        assert(keys_before(fs, 5).len() == 20);
        assert(0 <= w.0 < fs.len() && 0 <= w.1 < fs[w.0].corners.len() && 11 == keys_before(fs, w.0).len() + w.1);
        let p = choose|q: (int, int)| 0 <= q.0 < fs.len() && 0 <= q.1 < fs[q.0].corners.len() && 11 == keys_before(fs, q.0).len() + q.1;
        assert(0 <= p.0 < fs.len());
        assert(keys_before(fs, 0).len() == 0);
        assert(keys_before(fs, 1).len() == 4);
        assert(keys_before(fs, 2).len() == 8);
        assert(keys_before(fs, 3).len() == 12);
        assert(keys_before(fs, 4).len() == 16);
        assert(keys_before(fs, 5).len() == 20);
    }
    assert(interior_link(fs, 12) == hl(1u32, INVALID_INDEX, 13u32, 15u32, 3u32, INVALID_INDEX)) by {
        let w: (int, int) = (3, 0);
        assert(keys_before(fs, 0).len() == 0);
        assert(keys_before(fs, 1).len() == 4);
        assert(keys_before(fs, 2).len() == 8);
        assert(keys_before(fs, 3).len() == 12);
        assert(keys_before(fs, 4).len() == 16);
        assert(keys_before(fs, 5).len() == 20);
        assert(0 <= w.0 < fs.len() && 0 <= w.1 < fs[w.0].corners.len() && 12 == keys_before(fs, w.0).len() + w.1);
        let p = choose|q: (int, int)| 0 <= q.0 < fs.len() && 0 <= q.1 < fs[q.0].corners.len() && 12 == keys_before(fs, q.0).len() + q.1;
        assert(0 <= p.0 < fs.len());
        assert(keys_before(fs, 0).len() == 0);
        assert(keys_before(fs, 1).len() == 4);
        assert(keys_before(fs, 2).len() == 8);
        assert(keys_before(fs, 3).len() == 12);
        assert(keys_before(fs, 4).len() == 16);
        assert(keys_before(fs, 5).len() == 20);
    }
    assert(interior_link(fs, 13) == hl(5u32, INVALID_INDEX, 14u32, 12u32, 3u32, INVALID_INDEX)) by {
        let w: (int, int) = (3, 1);
        assert(keys_before(fs, 0).len() == 0);
        assert(keys_before(fs, 1).len() == 4);
        assert(keys_before(fs, 2).len() == 8);
        assert(keys_before(fs, 3).len() == 12);
        assert(keys_before(fs, 4).len() == 16);
        assert(keys_before(fs, 5).len() == 20);
        assert(0 <= w.0 < fs.len() && 0 <= w.1 < fs[w.0].corners.len() && 13 == keys_before(fs, w.0).len() + w.1);
        let p = choose|q: (int, int)| 0 <= q.0 < fs.len() && 0 <= q.1 < fs[q.0].corners.len() && 13 == keys_before(fs, q.0).len() + q.1;
        assert(0 <= p.0 < fs.len());
        assert(keys_before(fs, 0).len() == 0);
        assert(keys_before(fs, 1).len() == 4);
        assert(keys_before(fs, 2).len() == 8);
        assert(keys_before(fs, 3).len() == 12);
        assert(keys_before(fs, 4).len() == 16);
        assert(keys_before(fs, 5).len() == 20);
    }
    assert(interior_link(fs, 14) == hl(6u32, INVALID_INDEX, 15u32, 13u32, 3u32, INVALID_INDEX)) by {
        let w: (int, int) = (3, 2);
        assert(keys_before(fs, 0).len() == 0);
        assert(keys_before(fs, 1).len() == 4);
        assert(keys_before(fs, 2).len() == 8);
        assert(keys_before(fs, 3).len() == 12);
        assert(keys_before(fs, 4).len() == 16);
        assert(keys_before(fs, 5).len() == 20);
        assert(0 <= w.0 < fs.len() && 0 <= w.1 < fs[w.0].corners.len() && 14 == keys_before(fs, w.0).len() + w.1);
        let p = choose|q: (int, int)| 0 <= q.0 < fs.len() && 0 <= q.1 < fs[q.0].corners.len() && 14 == keys_before(fs, q.0).len() + q.1;
        assert(0 <= p.0 < fs.len());
        assert(keys_before(fs, 0).len() == 0);
        assert(keys_before(fs, 1).len() == 4);
        assert(keys_before(fs, 2).len() == 8);
        assert(keys_before(fs, 3).len() == 12);
        assert(keys_before(fs, 4).len() == 16);
        assert(keys_before(fs, 5).len() == 20);
    }
    assert(interior_link(fs, 15) == hl(2u32, INVALID_INDEX, 12u32, 14u32, 3u32, INVALID_INDEX)) by {
        let w: (int, int) = (3, 3);
        assert(keys_before(fs, 0).len() == 0);
        assert(keys_before(fs, 1).len() == 4);
        assert(keys_before(fs, 2).len() == 8);
        assert(keys_before(fs, 3).len() == 12);
        assert(keys_before(fs, 4).len() == 16);
        assert(keys_before(fs, 5).len() == 20);
        assert(0 <= w.0 < fs.len() && 0 <= w.1 < fs[w.0].corners.len() && 15 == keys_before(fs, w.0).len() + w.1);
        let p = choose|q: (int, int)| 0 <= q.0 < fs.len() && 0 <= q.1 < fs[q.0].corners.len() && 15 == keys_before(fs, q.0).len() + q.1;
        assert(0 <= p.0 < fs.len());
        assert(keys_before(fs, 0).len() == 0);
        assert(keys_before(fs, 1).len() == 4);
        assert(keys_before(fs, 2).len() == 8);
        assert(keys_before(fs, 3).len() == 12);
        assert(keys_before(fs, 4).len() == 16);
        assert(keys_before(fs, 5).len() == 20);
    }
    assert(interior_link(fs, 16) == hl(3u32, INVALID_INDEX, 17u32, 19u32, 4u32, INVALID_INDEX)) by {
        let w: (int, int) = (4, 0);
        assert(keys_before(fs, 0).len() == 0);
        assert(keys_before(fs, 1).len() == 4);
        assert(keys_before(fs, 2).len() == 8);
        assert(keys_before(fs, 3).len() == 12);
        assert(keys_before(fs, 4).len() == 16);
        assert(keys_before(fs, 5).len() == 20);
        assert(0 <= w.0 < fs.len() && 0 <= w.1 < fs[w.0].corners.len() && 16 == keys_before(fs, w.0).len() + w.1);
        let p = choose|q: (int, int)| 0 <= q.0 < fs.len() && 0 <= q.1 < fs[q.0].corners.len() && 16 == keys_before(fs, q.0).len() + q.1;
        assert(0 <= p.0 < fs.len());
        assert(keys_before(fs, 0).len() == 0);
        assert(keys_before(fs, 1).len() == 4);
        assert(keys_before(fs, 2).len() == 8);
        assert(keys_before(fs, 3).len() == 12);
        assert(keys_before(fs, 4).len() == 16);
        assert(keys_before(fs, 5).len() == 20);
    }
    assert(interior_link(fs, 17) == hl(2u32, INVALID_INDEX, 18u32, 16u32, 4u32, INVALID_INDEX)) by {
        let w: (int, int) = (4, 1);
        assert(keys_before(fs, 0).len() == 0);
        assert(keys_before(fs, 1).len() == 4);
        assert(keys_before(fs, 2).len() == 8);
        assert(keys_before(fs, 3).len() == 12);
        assert(keys_before(fs, 4).len() == 16);
        assert(keys_before(fs, 5).len() == 20);
        assert(0 <= w.0 < fs.len() && 0 <= w.1 < fs[w.0].corners.len() && 17 == keys_before(fs, w.0).len() + w.1);
        let p = choose|q: (int, int)| 0 <= q.0 < fs.len() && 0 <= q.1 < fs[q.0].corners.len() && 17 == keys_before(fs, q.0).len() + q.1;
        assert(0 <= p.0 < fs.len());
        assert(keys_before(fs, 0).len() == 0);
        assert(keys_before(fs, 1).len() == 4);
        assert(keys_before(fs, 2).len() == 8);
        assert(keys_before(fs, 3).len() == 12);
        assert(keys_before(fs, 4).len() == 16);
        assert(keys_before(fs, 5).len() == 20);
    }
    assert(interior_link(fs, 18) == hl(6u32, INVALID_INDEX, 19u32, 17u32, 4u32, INVALID_INDEX)) by {
        let w: (int, int) = (4, 2);
        assert(keys_before(fs, 0).len() == 0);
        assert(keys_before(fs, 1).len() == 4);
        assert(keys_before(fs, 2).len() == 8);
        assert(keys_before(fs, 3).len() == 12);
        assert(keys_before(fs, 4).len() == 16);
        assert(keys_before(fs, 5).len() == 20);
        assert(0 <= w.0 < fs.len() && 0 <= w.1 < fs[w.0].corners.len() && 18 == keys_before(fs, w.0).len() + w.1);
        let p = choose|q: (int, int)| 0 <= q.0 < fs.len() && 0 <= q.1 < fs[q.0].corners.len() && 18 == keys_before(fs, q.0).len() + q.1;
        assert(0 <= p.0 < fs.len());
        assert(keys_before(fs, 0).len() == 0);
        assert(keys_before(fs, 1).len() == 4);
        assert(keys_before(fs, 2).len() == 8);
        assert(keys_before(fs, 3).len() == 12);
        assert(keys_before(fs, 4).len() == 16);
        assert(keys_before(fs, 5).len() == 20);
    }
    assert(interior_link(fs, 19) == hl(7u32, INVALID_INDEX, 16u32, 18u32, 4u32, INVALID_INDEX)) by {
        let w: (int, int) = (4, 3);
        assert(keys_before(fs, 0).len() == 0);
        assert(keys_before(fs, 1).len() == 4);
        assert(keys_before(fs, 2).len() == 8);
        assert(keys_before(fs, 3).len() == 12);
        assert(keys_before(fs, 4).len() == 16);
        assert(keys_before(fs, 5).len() == 20);
        assert(0 <= w.0 < fs.len() && 0 <= w.1 < fs[w.0].corners.len() && 19 == keys_before(fs, w.0).len() + w.1);
        let p = choose|q: (int, int)| 0 <= q.0 < fs.len() && 0 <= q.1 < fs[q.0].corners.len() && 19 == keys_before(fs, q.0).len() + q.1;
        assert(0 <= p.0 < fs.len());
        assert(keys_before(fs, 0).len() == 0);
        assert(keys_before(fs, 1).len() == 4);
        assert(keys_before(fs, 2).len() == 8);
        assert(keys_before(fs, 3).len() == 12);
        assert(keys_before(fs, 4).len() == 16);
        assert(keys_before(fs, 5).len() == 20);
    }
    assert(interior_link(fs, 20) == hl(4u32, INVALID_INDEX, 21u32, 23u32, 5u32, INVALID_INDEX)) by {
        let w: (int, int) = (5, 0);
        assert(keys_before(fs, 0).len() == 0);
        assert(keys_before(fs, 1).len() == 4);
        assert(keys_before(fs, 2).len() == 8);
        assert(keys_before(fs, 3).len() == 12);
        assert(keys_before(fs, 4).len() == 16);
        assert(keys_before(fs, 5).len() == 20);
        assert(0 <= w.0 < fs.len() && 0 <= w.1 < fs[w.0].corners.len() && 20 == keys_before(fs, w.0).len() + w.1);
        let p = choose|q: (int, int)| 0 <= q.0 < fs.len() && 0 <= q.1 < fs[q.0].corners.len() && 20 == keys_before(fs, q.0).len() + q.1;
        assert(0 <= p.0 < fs.len());
        assert(keys_before(fs, 0).len() == 0);
        assert(keys_before(fs, 1).len() == 4);
        assert(keys_before(fs, 2).len() == 8);
        assert(keys_before(fs, 3).len() == 12);
        assert(keys_before(fs, 4).len() == 16);
        assert(keys_before(fs, 5).len() == 20);
    }
    assert(interior_link(fs, 21) == hl(5u32, INVALID_INDEX, 22u32, 20u32, 5u32, INVALID_INDEX)) by {
        let w: (int, int) = (5, 1);
        assert(keys_before(fs, 0).len() == 0);
        assert(keys_before(fs, 1).len() == 4);
        assert(keys_before(fs, 2).len() == 8);
        assert(keys_before(fs, 3).len() == 12);
        assert(keys_before(fs, 4).len() == 16);
        assert(keys_before(fs, 5).len() == 20);
        assert(0 <= w.0 < fs.len() && 0 <= w.1 < fs[w.0].corners.len() && 21 == keys_before(fs, w.0).len() + w.1);
        let p = choose|q: (int, int)| 0 <= q.0 < fs.len() && 0 <= q.1 < fs[q.0].corners.len() && 21 == keys_before(fs, q.0).len() + q.1;
        assert(0 <= p.0 < fs.len());
        assert(keys_before(fs, 0).len() == 0);
        assert(keys_before(fs, 1).len() == 4);
        assert(keys_before(fs, 2).len() == 8);
        assert(keys_before(fs, 3).len() == 12);
        assert(keys_before(fs, 4).len() == 16);
        assert(keys_before(fs, 5).len() == 20);
    }
    assert(interior_link(fs, 22) == hl(1u32, INVALID_INDEX, 23u32, 21u32, 5u32, INVALID_INDEX)) by {
        let w: (int, int) = (5, 2);
        assert(keys_before(fs, 0).len() == 0);
        assert(keys_before(fs, 1).len() == 4);
        assert(keys_before(fs, 2).len() == 8);
        assert(keys_before(fs, 3).len() == 12);
        assert(keys_before(fs, 4).len() == 16);
        assert(keys_before(fs, 5).len() == 20);
        assert(0 <= w.0 < fs.len() && 0 <= w.1 < fs[w.0].corners.len() && 22 == keys_before(fs, w.0).len() + w.1);
        let p = choose|q: (int, int)| 0 <= q.0 < fs.len() && 0 <= q.1 < fs[q.0].corners.len() && 22 == keys_before(fs, q.0).len() + q.1;
        assert(0 <= p.0 < fs.len());
        assert(keys_before(fs, 0).len() == 0);
        assert(keys_before(fs, 1).len() == 4);
        assert(keys_before(fs, 2).len() == 8);
        assert(keys_before(fs, 3).len() == 12);
        assert(keys_before(fs, 4).len() == 16);
        assert(keys_before(fs, 5).len() == 20);
    }
    assert(interior_link(fs, 23) == hl(0u32, INVALID_INDEX, 20u32, 22u32, 5u32, INVALID_INDEX)) by {
        let w: (int, int) = (5, 3);
        assert(keys_before(fs, 0).len() == 0);
        assert(keys_before(fs, 1).len() == 4);
        assert(keys_before(fs, 2).len() == 8);
        assert(keys_before(fs, 3).len() == 12);
        assert(keys_before(fs, 4).len() == 16);
        assert(keys_before(fs, 5).len() == 20);
        assert(0 <= w.0 < fs.len() && 0 <= w.1 < fs[w.0].corners.len() && 23 == keys_before(fs, w.0).len() + w.1);
        let p = choose|q: (int, int)| 0 <= q.0 < fs.len() && 0 <= q.1 < fs[q.0].corners.len() && 23 == keys_before(fs, q.0).len() + q.1;
        assert(0 <= p.0 < fs.len());
        assert(keys_before(fs, 0).len() == 0);
        assert(keys_before(fs, 1).len() == 4);
        assert(keys_before(fs, 2).len() == 8);
        assert(keys_before(fs, 3).len() == 12);
        assert(keys_before(fs, 4).len() == 16);
        assert(keys_before(fs, 5).len() == 20);
    }
    let l0 = seq![hl(0u32, INVALID_INDEX, 1u32, 3u32, 0u32, INVALID_INDEX), hl(1u32, INVALID_INDEX, 2u32, 0u32, 0u32, INVALID_INDEX), hl(2u32, INVALID_INDEX, 3u32, 1u32, 0u32, INVALID_INDEX), hl(3u32, INVALID_INDEX, 0u32, 2u32, 0u32, INVALID_INDEX), hl(5u32, INVALID_INDEX, 5u32, 7u32, 1u32, INVALID_INDEX), hl(4u32, INVALID_INDEX, 6u32, 4u32, 1u32, INVALID_INDEX), hl(7u32, INVALID_INDEX, 7u32, 5u32, 1u32, INVALID_INDEX), hl(6u32, INVALID_INDEX, 4u32, 6u32, 1u32, INVALID_INDEX), hl(4u32, INVALID_INDEX, 9u32, 11u32, 2u32, INVALID_INDEX), hl(0u32, INVALID_INDEX, 10u32, 8u32, 2u32, INVALID_INDEX), hl(3u32, INVALID_INDEX, 11u32, 9u32, 2u32, INVALID_INDEX), hl(7u32, INVALID_INDEX, 8u32, 10u32, 2u32, INVALID_INDEX), hl(1u32, INVALID_INDEX, 13u32, 15u32, 3u32, INVALID_INDEX), hl(5u32, INVALID_INDEX, 14u32, 12u32, 3u32, INVALID_INDEX), hl(6u32, INVALID_INDEX, 15u32, 13u32, 3u32, INVALID_INDEX), hl(2u32, INVALID_INDEX, 12u32, 14u32, 3u32, INVALID_INDEX), hl(3u32, INVALID_INDEX, 17u32, 19u32, 4u32, INVALID_INDEX), hl(2u32, INVALID_INDEX, 18u32, 16u32, 4u32, INVALID_INDEX), hl(6u32, INVALID_INDEX, 19u32, 17u32, 4u32, INVALID_INDEX), hl(7u32, INVALID_INDEX, 16u32, 18u32, 4u32, INVALID_INDEX), hl(4u32, INVALID_INDEX, 21u32, 23u32, 5u32, INVALID_INDEX), hl(5u32, INVALID_INDEX, 22u32, 20u32, 5u32, INVALID_INDEX), hl(1u32, INVALID_INDEX, 23u32, 21u32, 5u32, INVALID_INDEX), hl(0u32, INVALID_INDEX, 20u32, 22u32, 5u32, INVALID_INDEX)];
    assert(interior_links(fs) =~= l0);
    assert(interior_records(fs) =~= seq![FaceRecord { halfedge: HalfEdgeId(0u32), kind: FaceKind::Interior, data: FacePayload { material: None, region: None } }, FaceRecord { halfedge: HalfEdgeId(4u32), kind: FaceKind::Interior, data: FacePayload { material: None, region: None } }, FaceRecord { halfedge: HalfEdgeId(8u32), kind: FaceKind::Interior, data: FacePayload { material: None, region: None } }, FaceRecord { halfedge: HalfEdgeId(12u32), kind: FaceKind::Interior, data: FacePayload { material: None, region: None } }, FaceRecord { halfedge: HalfEdgeId(16u32), kind: FaceKind::Interior, data: FacePayload { material: None, region: None } }, FaceRecord { halfedge: HalfEdgeId(20u32), kind: FaceKind::Interior, data: FacePayload { material: None, region: None } }]);
    assert(no_outgoing(8) =~= seq![HalfEdgeId(INVALID_INDEX), HalfEdgeId(INVALID_INDEX), HalfEdgeId(INVALID_INDEX), HalfEdgeId(INVALID_INDEX), HalfEdgeId(INVALID_INDEX), HalfEdgeId(INVALID_INDEX), HalfEdgeId(INVALID_INDEX), HalfEdgeId(INVALID_INDEX)]);
    assert(first_outgoing(no_outgoing(8), l0, 0) == no_outgoing(8));
    assert(first_outgoing(no_outgoing(8), l0, 1) =~= seq![HalfEdgeId(0u32), HalfEdgeId(INVALID_INDEX), HalfEdgeId(INVALID_INDEX), HalfEdgeId(INVALID_INDEX), HalfEdgeId(INVALID_INDEX), HalfEdgeId(INVALID_INDEX), HalfEdgeId(INVALID_INDEX), HalfEdgeId(INVALID_INDEX)]);
    assert(first_outgoing(no_outgoing(8), l0, 2) =~= seq![HalfEdgeId(0u32), HalfEdgeId(1u32), HalfEdgeId(INVALID_INDEX), HalfEdgeId(INVALID_INDEX), HalfEdgeId(INVALID_INDEX), HalfEdgeId(INVALID_INDEX), HalfEdgeId(INVALID_INDEX), HalfEdgeId(INVALID_INDEX)]);
    assert(first_outgoing(no_outgoing(8), l0, 3) =~= seq![HalfEdgeId(0u32), HalfEdgeId(1u32), HalfEdgeId(2u32), HalfEdgeId(INVALID_INDEX), HalfEdgeId(INVALID_INDEX), HalfEdgeId(INVALID_INDEX), HalfEdgeId(INVALID_INDEX), HalfEdgeId(INVALID_INDEX)]);
    assert(first_outgoing(no_outgoing(8), l0, 4) =~= seq![HalfEdgeId(0u32), HalfEdgeId(1u32), HalfEdgeId(2u32), HalfEdgeId(3u32), HalfEdgeId(INVALID_INDEX), HalfEdgeId(INVALID_INDEX), HalfEdgeId(INVALID_INDEX), HalfEdgeId(INVALID_INDEX)]);
    assert(first_outgoing(no_outgoing(8), l0, 5) =~= seq![HalfEdgeId(0u32), HalfEdgeId(1u32), HalfEdgeId(2u32), HalfEdgeId(3u32), HalfEdgeId(INVALID_INDEX), HalfEdgeId(4u32), HalfEdgeId(INVALID_INDEX), HalfEdgeId(INVALID_INDEX)]);
    assert(first_outgoing(no_outgoing(8), l0, 6) =~= seq![HalfEdgeId(0u32), HalfEdgeId(1u32), HalfEdgeId(2u32), HalfEdgeId(3u32), HalfEdgeId(5u32), HalfEdgeId(4u32), HalfEdgeId(INVALID_INDEX), HalfEdgeId(INVALID_INDEX)]);
    assert(first_outgoing(no_outgoing(8), l0, 7) =~= seq![HalfEdgeId(0u32), HalfEdgeId(1u32), HalfEdgeId(2u32), HalfEdgeId(3u32), HalfEdgeId(5u32), HalfEdgeId(4u32), HalfEdgeId(INVALID_INDEX), HalfEdgeId(6u32)]);
    assert(first_outgoing(no_outgoing(8), l0, 8) =~= seq![HalfEdgeId(0u32), HalfEdgeId(1u32), HalfEdgeId(2u32), HalfEdgeId(3u32), HalfEdgeId(5u32), HalfEdgeId(4u32), HalfEdgeId(7u32), HalfEdgeId(6u32)]);
    assert(first_outgoing(no_outgoing(8), l0, 9) =~= seq![HalfEdgeId(0u32), HalfEdgeId(1u32), HalfEdgeId(2u32), HalfEdgeId(3u32), HalfEdgeId(5u32), HalfEdgeId(4u32), HalfEdgeId(7u32), HalfEdgeId(6u32)]);
    assert(first_outgoing(no_outgoing(8), l0, 10) =~= seq![HalfEdgeId(0u32), HalfEdgeId(1u32), HalfEdgeId(2u32), HalfEdgeId(3u32), HalfEdgeId(5u32), HalfEdgeId(4u32), HalfEdgeId(7u32), HalfEdgeId(6u32)]);
    assert(first_outgoing(no_outgoing(8), l0, 11) =~= seq![HalfEdgeId(0u32), HalfEdgeId(1u32), HalfEdgeId(2u32), HalfEdgeId(3u32), HalfEdgeId(5u32), HalfEdgeId(4u32), HalfEdgeId(7u32), HalfEdgeId(6u32)]);
    assert(first_outgoing(no_outgoing(8), l0, 12) =~= seq![HalfEdgeId(0u32), HalfEdgeId(1u32), HalfEdgeId(2u32), HalfEdgeId(3u32), HalfEdgeId(5u32), HalfEdgeId(4u32), HalfEdgeId(7u32), HalfEdgeId(6u32)]);
    assert(first_outgoing(no_outgoing(8), l0, 13) =~= seq![HalfEdgeId(0u32), HalfEdgeId(1u32), HalfEdgeId(2u32), HalfEdgeId(3u32), HalfEdgeId(5u32), HalfEdgeId(4u32), HalfEdgeId(7u32), HalfEdgeId(6u32)]);
    assert(first_outgoing(no_outgoing(8), l0, 14) =~= seq![HalfEdgeId(0u32), HalfEdgeId(1u32), HalfEdgeId(2u32), HalfEdgeId(3u32), HalfEdgeId(5u32), HalfEdgeId(4u32), HalfEdgeId(7u32), HalfEdgeId(6u32)]);
    assert(first_outgoing(no_outgoing(8), l0, 15) =~= seq![HalfEdgeId(0u32), HalfEdgeId(1u32), HalfEdgeId(2u32), HalfEdgeId(3u32), HalfEdgeId(5u32), HalfEdgeId(4u32), HalfEdgeId(7u32), HalfEdgeId(6u32)]);
    assert(first_outgoing(no_outgoing(8), l0, 16) =~= seq![HalfEdgeId(0u32), HalfEdgeId(1u32), HalfEdgeId(2u32), HalfEdgeId(3u32), HalfEdgeId(5u32), HalfEdgeId(4u32), HalfEdgeId(7u32), HalfEdgeId(6u32)]);
    assert(first_outgoing(no_outgoing(8), l0, 17) =~= seq![HalfEdgeId(0u32), HalfEdgeId(1u32), HalfEdgeId(2u32), HalfEdgeId(3u32), HalfEdgeId(5u32), HalfEdgeId(4u32), HalfEdgeId(7u32), HalfEdgeId(6u32)]);
    assert(first_outgoing(no_outgoing(8), l0, 18) =~= seq![HalfEdgeId(0u32), HalfEdgeId(1u32), HalfEdgeId(2u32), HalfEdgeId(3u32), HalfEdgeId(5u32), HalfEdgeId(4u32), HalfEdgeId(7u32), HalfEdgeId(6u32)]);
    assert(first_outgoing(no_outgoing(8), l0, 19) =~= seq![HalfEdgeId(0u32), HalfEdgeId(1u32), HalfEdgeId(2u32), HalfEdgeId(3u32), HalfEdgeId(5u32), HalfEdgeId(4u32), HalfEdgeId(7u32), HalfEdgeId(6u32)]);
    assert(first_outgoing(no_outgoing(8), l0, 20) =~= seq![HalfEdgeId(0u32), HalfEdgeId(1u32), HalfEdgeId(2u32), HalfEdgeId(3u32), HalfEdgeId(5u32), HalfEdgeId(4u32), HalfEdgeId(7u32), HalfEdgeId(6u32)]);
    assert(first_outgoing(no_outgoing(8), l0, 21) =~= seq![HalfEdgeId(0u32), HalfEdgeId(1u32), HalfEdgeId(2u32), HalfEdgeId(3u32), HalfEdgeId(5u32), HalfEdgeId(4u32), HalfEdgeId(7u32), HalfEdgeId(6u32)]);
    assert(first_outgoing(no_outgoing(8), l0, 22) =~= seq![HalfEdgeId(0u32), HalfEdgeId(1u32), HalfEdgeId(2u32), HalfEdgeId(3u32), HalfEdgeId(5u32), HalfEdgeId(4u32), HalfEdgeId(7u32), HalfEdgeId(6u32)]);
    assert(first_outgoing(no_outgoing(8), l0, 23) =~= seq![HalfEdgeId(0u32), HalfEdgeId(1u32), HalfEdgeId(2u32), HalfEdgeId(3u32), HalfEdgeId(5u32), HalfEdgeId(4u32), HalfEdgeId(7u32), HalfEdgeId(6u32)]);
    assert(first_outgoing(no_outgoing(8), l0, 24) =~= seq![HalfEdgeId(0u32), HalfEdgeId(1u32), HalfEdgeId(2u32), HalfEdgeId(3u32), HalfEdgeId(5u32), HalfEdgeId(4u32), HalfEdgeId(7u32), HalfEdgeId(6u32)]);
    assert(keys == cube_keys());
    assert(l0 == cube_links());
}

#[verifier::spinoff_prover]
#[verifier::rlimit(60)]
proof fn lemma_cube_pairs<L>()
    ensures
        pair_run(cube_links(), cube_keys(), Seq::<HalfEdgeId>::empty(), Seq::<usize>::empty(), 0) == Some((cube_paired(), cube_pair_edges(), cube_open_sides())),
{
    let fs = shape_polygons::<L>(cube_corners());
    let keys = seq![(0usize, 1usize), (1usize, 2usize), (2usize, 3usize), (3usize, 0usize), (5usize, 4usize), (4usize, 7usize), (7usize, 6usize), (6usize, 5usize), (4usize, 0usize), (0usize, 3usize), (3usize, 7usize), (7usize, 4usize), (1usize, 5usize), (5usize, 6usize), (6usize, 2usize), (2usize, 1usize), (3usize, 2usize), (2usize, 6usize), (6usize, 7usize), (7usize, 3usize), (4usize, 5usize), (5usize, 1usize), (1usize, 0usize), (0usize, 4usize)];
    let l0 = seq![hl(0u32, INVALID_INDEX, 1u32, 3u32, 0u32, INVALID_INDEX), hl(1u32, INVALID_INDEX, 2u32, 0u32, 0u32, INVALID_INDEX), hl(2u32, INVALID_INDEX, 3u32, 1u32, 0u32, INVALID_INDEX), hl(3u32, INVALID_INDEX, 0u32, 2u32, 0u32, INVALID_INDEX), hl(5u32, INVALID_INDEX, 5u32, 7u32, 1u32, INVALID_INDEX), hl(4u32, INVALID_INDEX, 6u32, 4u32, 1u32, INVALID_INDEX), hl(7u32, INVALID_INDEX, 7u32, 5u32, 1u32, INVALID_INDEX), hl(6u32, INVALID_INDEX, 4u32, 6u32, 1u32, INVALID_INDEX), hl(4u32, INVALID_INDEX, 9u32, 11u32, 2u32, INVALID_INDEX), hl(0u32, INVALID_INDEX, 10u32, 8u32, 2u32, INVALID_INDEX), hl(3u32, INVALID_INDEX, 11u32, 9u32, 2u32, INVALID_INDEX), hl(7u32, INVALID_INDEX, 8u32, 10u32, 2u32, INVALID_INDEX), hl(1u32, INVALID_INDEX, 13u32, 15u32, 3u32, INVALID_INDEX), hl(5u32, INVALID_INDEX, 14u32, 12u32, 3u32, INVALID_INDEX), hl(6u32, INVALID_INDEX, 15u32, 13u32, 3u32, INVALID_INDEX), hl(2u32, INVALID_INDEX, 12u32, 14u32, 3u32, INVALID_INDEX), hl(3u32, INVALID_INDEX, 17u32, 19u32, 4u32, INVALID_INDEX), hl(2u32, INVALID_INDEX, 18u32, 16u32, 4u32, INVALID_INDEX), hl(6u32, INVALID_INDEX, 19u32, 17u32, 4u32, INVALID_INDEX), hl(7u32, INVALID_INDEX, 16u32, 18u32, 4u32, INVALID_INDEX), hl(4u32, INVALID_INDEX, 21u32, 23u32, 5u32, INVALID_INDEX), hl(5u32, INVALID_INDEX, 22u32, 20u32, 5u32, INVALID_INDEX), hl(1u32, INVALID_INDEX, 23u32, 21u32, 5u32, INVALID_INDEX), hl(0u32, INVALID_INDEX, 20u32, 22u32, 5u32, INVALID_INDEX)];
    assert(key_index(keys, (1usize, 0usize), 24) == Option::<int>::None);
    assert(key_index(keys, (1usize, 0usize), 23) == Option::<int>::None);
    assert(key_index(keys, (1usize, 0usize), 22) == Some(22int));
    assert(key_index(keys, (1usize, 0usize), 21) == Some(22int));
    assert(key_index(keys, (1usize, 0usize), 20) == Some(22int));
    assert(key_index(keys, (1usize, 0usize), 19) == Some(22int));
    assert(key_index(keys, (1usize, 0usize), 18) == Some(22int));
    assert(key_index(keys, (1usize, 0usize), 17) == Some(22int));
    assert(key_index(keys, (1usize, 0usize), 16) == Some(22int));
    assert(key_index(keys, (1usize, 0usize), 15) == Some(22int));
    assert(key_index(keys, (1usize, 0usize), 14) == Some(22int));
    assert(key_index(keys, (1usize, 0usize), 13) == Some(22int));
    assert(key_index(keys, (1usize, 0usize), 12) == Some(22int));
    assert(key_index(keys, (1usize, 0usize), 11) == Some(22int));
    assert(key_index(keys, (1usize, 0usize), 10) == Some(22int));
    assert(key_index(keys, (1usize, 0usize), 9) == Some(22int));
    assert(key_index(keys, (1usize, 0usize), 8) == Some(22int));
    assert(key_index(keys, (1usize, 0usize), 7) == Some(22int));
    assert(key_index(keys, (1usize, 0usize), 6) == Some(22int));
    assert(key_index(keys, (1usize, 0usize), 5) == Some(22int));
    assert(key_index(keys, (1usize, 0usize), 4) == Some(22int));
    assert(key_index(keys, (1usize, 0usize), 3) == Some(22int));
    assert(key_index(keys, (1usize, 0usize), 2) == Some(22int));
    assert(key_index(keys, (1usize, 0usize), 1) == Some(22int));
    assert(key_index(keys, (1usize, 0usize), 0) == Some(22int));
    assert(reversed(keys[0]) == (1usize, 0usize));
    assert(key_index(keys, (2usize, 1usize), 24) == Option::<int>::None);
    assert(key_index(keys, (2usize, 1usize), 23) == Option::<int>::None);
    assert(key_index(keys, (2usize, 1usize), 22) == Option::<int>::None);
    assert(key_index(keys, (2usize, 1usize), 21) == Option::<int>::None);
    assert(key_index(keys, (2usize, 1usize), 20) == Option::<int>::None);
    assert(key_index(keys, (2usize, 1usize), 19) == Option::<int>::None);
    assert(key_index(keys, (2usize, 1usize), 18) == Option::<int>::None);
    assert(key_index(keys, (2usize, 1usize), 17) == Option::<int>::None);
    assert(key_index(keys, (2usize, 1usize), 16) == Option::<int>::None);
    assert(key_index(keys, (2usize, 1usize), 15) == Some(15int));
    assert(key_index(keys, (2usize, 1usize), 14) == Some(15int));
    assert(key_index(keys, (2usize, 1usize), 13) == Some(15int));
    assert(key_index(keys, (2usize, 1usize), 12) == Some(15int));
    assert(key_index(keys, (2usize, 1usize), 11) == Some(15int));
    assert(key_index(keys, (2usize, 1usize), 10) == Some(15int));
    assert(key_index(keys, (2usize, 1usize), 9) == Some(15int));
    assert(key_index(keys, (2usize, 1usize), 8) == Some(15int));
    assert(key_index(keys, (2usize, 1usize), 7) == Some(15int));
    assert(key_index(keys, (2usize, 1usize), 6) == Some(15int));
    assert(key_index(keys, (2usize, 1usize), 5) == Some(15int));
    assert(key_index(keys, (2usize, 1usize), 4) == Some(15int));
    assert(key_index(keys, (2usize, 1usize), 3) == Some(15int));
    assert(key_index(keys, (2usize, 1usize), 2) == Some(15int));
    assert(key_index(keys, (2usize, 1usize), 1) == Some(15int));
    assert(key_index(keys, (2usize, 1usize), 0) == Some(15int));
    assert(reversed(keys[1]) == (2usize, 1usize));
    assert(key_index(keys, (3usize, 2usize), 24) == Option::<int>::None);
    assert(key_index(keys, (3usize, 2usize), 23) == Option::<int>::None);
    assert(key_index(keys, (3usize, 2usize), 22) == Option::<int>::None);
    assert(key_index(keys, (3usize, 2usize), 21) == Option::<int>::None);
    assert(key_index(keys, (3usize, 2usize), 20) == Option::<int>::None);
    assert(key_index(keys, (3usize, 2usize), 19) == Option::<int>::None);
    assert(key_index(keys, (3usize, 2usize), 18) == Option::<int>::None);
    assert(key_index(keys, (3usize, 2usize), 17) == Option::<int>::None);
    assert(key_index(keys, (3usize, 2usize), 16) == Some(16int));
    assert(key_index(keys, (3usize, 2usize), 15) == Some(16int));
    assert(key_index(keys, (3usize, 2usize), 14) == Some(16int));
    assert(key_index(keys, (3usize, 2usize), 13) == Some(16int));
    assert(key_index(keys, (3usize, 2usize), 12) == Some(16int));
    assert(key_index(keys, (3usize, 2usize), 11) == Some(16int));
    assert(key_index(keys, (3usize, 2usize), 10) == Some(16int));
    assert(key_index(keys, (3usize, 2usize), 9) == Some(16int));
    assert(key_index(keys, (3usize, 2usize), 8) == Some(16int));
    assert(key_index(keys, (3usize, 2usize), 7) == Some(16int));
    assert(key_index(keys, (3usize, 2usize), 6) == Some(16int));
    assert(key_index(keys, (3usize, 2usize), 5) == Some(16int));
    assert(key_index(keys, (3usize, 2usize), 4) == Some(16int));
    assert(key_index(keys, (3usize, 2usize), 3) == Some(16int));
    assert(key_index(keys, (3usize, 2usize), 2) == Some(16int));
    assert(key_index(keys, (3usize, 2usize), 1) == Some(16int));
    assert(key_index(keys, (3usize, 2usize), 0) == Some(16int));
    assert(reversed(keys[2]) == (3usize, 2usize));
    assert(key_index(keys, (0usize, 3usize), 24) == Option::<int>::None);
    assert(key_index(keys, (0usize, 3usize), 23) == Option::<int>::None);
    assert(key_index(keys, (0usize, 3usize), 22) == Option::<int>::None);
    assert(key_index(keys, (0usize, 3usize), 21) == Option::<int>::None);
    assert(key_index(keys, (0usize, 3usize), 20) == Option::<int>::None);
    assert(key_index(keys, (0usize, 3usize), 19) == Option::<int>::None);
    assert(key_index(keys, (0usize, 3usize), 18) == Option::<int>::None);
    assert(key_index(keys, (0usize, 3usize), 17) == Option::<int>::None);
    assert(key_index(keys, (0usize, 3usize), 16) == Option::<int>::None);
    assert(key_index(keys, (0usize, 3usize), 15) == Option::<int>::None);
    assert(key_index(keys, (0usize, 3usize), 14) == Option::<int>::None);
    assert(key_index(keys, (0usize, 3usize), 13) == Option::<int>::None);
    assert(key_index(keys, (0usize, 3usize), 12) == Option::<int>::None);
    assert(key_index(keys, (0usize, 3usize), 11) == Option::<int>::None);
    assert(key_index(keys, (0usize, 3usize), 10) == Option::<int>::None);
    assert(key_index(keys, (0usize, 3usize), 9) == Some(9int));
    assert(key_index(keys, (0usize, 3usize), 8) == Some(9int));
    assert(key_index(keys, (0usize, 3usize), 7) == Some(9int));
    assert(key_index(keys, (0usize, 3usize), 6) == Some(9int));
    assert(key_index(keys, (0usize, 3usize), 5) == Some(9int));
    assert(key_index(keys, (0usize, 3usize), 4) == Some(9int));
    assert(key_index(keys, (0usize, 3usize), 3) == Some(9int));
    assert(key_index(keys, (0usize, 3usize), 2) == Some(9int));
    assert(key_index(keys, (0usize, 3usize), 1) == Some(9int));
    assert(key_index(keys, (0usize, 3usize), 0) == Some(9int));
    assert(reversed(keys[3]) == (0usize, 3usize));
    assert(key_index(keys, (4usize, 5usize), 24) == Option::<int>::None);
    assert(key_index(keys, (4usize, 5usize), 23) == Option::<int>::None);
    assert(key_index(keys, (4usize, 5usize), 22) == Option::<int>::None);
    assert(key_index(keys, (4usize, 5usize), 21) == Option::<int>::None);
    assert(key_index(keys, (4usize, 5usize), 20) == Some(20int));
    assert(key_index(keys, (4usize, 5usize), 19) == Some(20int));
    assert(key_index(keys, (4usize, 5usize), 18) == Some(20int));
    assert(key_index(keys, (4usize, 5usize), 17) == Some(20int));
    assert(key_index(keys, (4usize, 5usize), 16) == Some(20int));
    assert(key_index(keys, (4usize, 5usize), 15) == Some(20int));
    assert(key_index(keys, (4usize, 5usize), 14) == Some(20int));
    assert(key_index(keys, (4usize, 5usize), 13) == Some(20int));
    assert(key_index(keys, (4usize, 5usize), 12) == Some(20int));
    assert(key_index(keys, (4usize, 5usize), 11) == Some(20int));
    assert(key_index(keys, (4usize, 5usize), 10) == Some(20int));
    assert(key_index(keys, (4usize, 5usize), 9) == Some(20int));
    assert(key_index(keys, (4usize, 5usize), 8) == Some(20int));
    assert(key_index(keys, (4usize, 5usize), 7) == Some(20int));
    assert(key_index(keys, (4usize, 5usize), 6) == Some(20int));
    assert(key_index(keys, (4usize, 5usize), 5) == Some(20int));
    assert(key_index(keys, (4usize, 5usize), 4) == Some(20int));
    assert(key_index(keys, (4usize, 5usize), 3) == Some(20int));
    assert(key_index(keys, (4usize, 5usize), 2) == Some(20int));
    assert(key_index(keys, (4usize, 5usize), 1) == Some(20int));
    assert(key_index(keys, (4usize, 5usize), 0) == Some(20int));
    assert(reversed(keys[4]) == (4usize, 5usize));
    assert(key_index(keys, (7usize, 4usize), 24) == Option::<int>::None);
    assert(key_index(keys, (7usize, 4usize), 23) == Option::<int>::None);
    assert(key_index(keys, (7usize, 4usize), 22) == Option::<int>::None);
    assert(key_index(keys, (7usize, 4usize), 21) == Option::<int>::None);
    assert(key_index(keys, (7usize, 4usize), 20) == Option::<int>::None);
    assert(key_index(keys, (7usize, 4usize), 19) == Option::<int>::None);
    assert(key_index(keys, (7usize, 4usize), 18) == Option::<int>::None);
    assert(key_index(keys, (7usize, 4usize), 17) == Option::<int>::None);
    assert(key_index(keys, (7usize, 4usize), 16) == Option::<int>::None);
    assert(key_index(keys, (7usize, 4usize), 15) == Option::<int>::None);
    assert(key_index(keys, (7usize, 4usize), 14) == Option::<int>::None);
    assert(key_index(keys, (7usize, 4usize), 13) == Option::<int>::None);
    assert(key_index(keys, (7usize, 4usize), 12) == Option::<int>::None);
    assert(key_index(keys, (7usize, 4usize), 11) == Some(11int));
    assert(key_index(keys, (7usize, 4usize), 10) == Some(11int));
    assert(key_index(keys, (7usize, 4usize), 9) == Some(11int));
    assert(key_index(keys, (7usize, 4usize), 8) == Some(11int));
    assert(key_index(keys, (7usize, 4usize), 7) == Some(11int));
    assert(key_index(keys, (7usize, 4usize), 6) == Some(11int));
    assert(key_index(keys, (7usize, 4usize), 5) == Some(11int));
    assert(key_index(keys, (7usize, 4usize), 4) == Some(11int));
    assert(key_index(keys, (7usize, 4usize), 3) == Some(11int));
    assert(key_index(keys, (7usize, 4usize), 2) == Some(11int));
    assert(key_index(keys, (7usize, 4usize), 1) == Some(11int));
    assert(key_index(keys, (7usize, 4usize), 0) == Some(11int));
    assert(reversed(keys[5]) == (7usize, 4usize));
    assert(key_index(keys, (6usize, 7usize), 24) == Option::<int>::None);
    assert(key_index(keys, (6usize, 7usize), 23) == Option::<int>::None);
    assert(key_index(keys, (6usize, 7usize), 22) == Option::<int>::None);
    assert(key_index(keys, (6usize, 7usize), 21) == Option::<int>::None);
    assert(key_index(keys, (6usize, 7usize), 20) == Option::<int>::None);
    assert(key_index(keys, (6usize, 7usize), 19) == Option::<int>::None);
    assert(key_index(keys, (6usize, 7usize), 18) == Some(18int));
    assert(key_index(keys, (6usize, 7usize), 17) == Some(18int));
    assert(key_index(keys, (6usize, 7usize), 16) == Some(18int));
    assert(key_index(keys, (6usize, 7usize), 15) == Some(18int));
    assert(key_index(keys, (6usize, 7usize), 14) == Some(18int));
    assert(key_index(keys, (6usize, 7usize), 13) == Some(18int));
    assert(key_index(keys, (6usize, 7usize), 12) == Some(18int));
    assert(key_index(keys, (6usize, 7usize), 11) == Some(18int));
    assert(key_index(keys, (6usize, 7usize), 10) == Some(18int));
    assert(key_index(keys, (6usize, 7usize), 9) == Some(18int));
    assert(key_index(keys, (6usize, 7usize), 8) == Some(18int));
    assert(key_index(keys, (6usize, 7usize), 7) == Some(18int));
    assert(key_index(keys, (6usize, 7usize), 6) == Some(18int));
    assert(key_index(keys, (6usize, 7usize), 5) == Some(18int));
    assert(key_index(keys, (6usize, 7usize), 4) == Some(18int));
    assert(key_index(keys, (6usize, 7usize), 3) == Some(18int));
    assert(key_index(keys, (6usize, 7usize), 2) == Some(18int));
    assert(key_index(keys, (6usize, 7usize), 1) == Some(18int));
    assert(key_index(keys, (6usize, 7usize), 0) == Some(18int));
    assert(reversed(keys[6]) == (6usize, 7usize));
    assert(key_index(keys, (5usize, 6usize), 24) == Option::<int>::None);
    assert(key_index(keys, (5usize, 6usize), 23) == Option::<int>::None);
    assert(key_index(keys, (5usize, 6usize), 22) == Option::<int>::None);
    assert(key_index(keys, (5usize, 6usize), 21) == Option::<int>::None);
    assert(key_index(keys, (5usize, 6usize), 20) == Option::<int>::None);
    assert(key_index(keys, (5usize, 6usize), 19) == Option::<int>::None);
    assert(key_index(keys, (5usize, 6usize), 18) == Option::<int>::None);
    assert(key_index(keys, (5usize, 6usize), 17) == Option::<int>::None);
    assert(key_index(keys, (5usize, 6usize), 16) == Option::<int>::None);
    assert(key_index(keys, (5usize, 6usize), 15) == Option::<int>::None);
    assert(key_index(keys, (5usize, 6usize), 14) == Option::<int>::None);
    assert(key_index(keys, (5usize, 6usize), 13) == Some(13int));
    assert(key_index(keys, (5usize, 6usize), 12) == Some(13int));
    assert(key_index(keys, (5usize, 6usize), 11) == Some(13int));
    assert(key_index(keys, (5usize, 6usize), 10) == Some(13int));
    assert(key_index(keys, (5usize, 6usize), 9) == Some(13int));
    assert(key_index(keys, (5usize, 6usize), 8) == Some(13int));
    assert(key_index(keys, (5usize, 6usize), 7) == Some(13int));
    assert(key_index(keys, (5usize, 6usize), 6) == Some(13int));
    assert(key_index(keys, (5usize, 6usize), 5) == Some(13int));
    assert(key_index(keys, (5usize, 6usize), 4) == Some(13int));
    assert(key_index(keys, (5usize, 6usize), 3) == Some(13int));
    assert(key_index(keys, (5usize, 6usize), 2) == Some(13int));
    assert(key_index(keys, (5usize, 6usize), 1) == Some(13int));
    assert(key_index(keys, (5usize, 6usize), 0) == Some(13int));
    assert(reversed(keys[7]) == (5usize, 6usize));
    assert(key_index(keys, (0usize, 4usize), 24) == Option::<int>::None);
    assert(key_index(keys, (0usize, 4usize), 23) == Some(23int));
    assert(key_index(keys, (0usize, 4usize), 22) == Some(23int));
    assert(key_index(keys, (0usize, 4usize), 21) == Some(23int));
    assert(key_index(keys, (0usize, 4usize), 20) == Some(23int));
    assert(key_index(keys, (0usize, 4usize), 19) == Some(23int));
    assert(key_index(keys, (0usize, 4usize), 18) == Some(23int));
    assert(key_index(keys, (0usize, 4usize), 17) == Some(23int));
    assert(key_index(keys, (0usize, 4usize), 16) == Some(23int));
    assert(key_index(keys, (0usize, 4usize), 15) == Some(23int));
    assert(key_index(keys, (0usize, 4usize), 14) == Some(23int));
    assert(key_index(keys, (0usize, 4usize), 13) == Some(23int));
    assert(key_index(keys, (0usize, 4usize), 12) == Some(23int));
    assert(key_index(keys, (0usize, 4usize), 11) == Some(23int));
    assert(key_index(keys, (0usize, 4usize), 10) == Some(23int));
    assert(key_index(keys, (0usize, 4usize), 9) == Some(23int));
    assert(key_index(keys, (0usize, 4usize), 8) == Some(23int));
    assert(key_index(keys, (0usize, 4usize), 7) == Some(23int));
    assert(key_index(keys, (0usize, 4usize), 6) == Some(23int));
    assert(key_index(keys, (0usize, 4usize), 5) == Some(23int));
    assert(key_index(keys, (0usize, 4usize), 4) == Some(23int));
    assert(key_index(keys, (0usize, 4usize), 3) == Some(23int));
    assert(key_index(keys, (0usize, 4usize), 2) == Some(23int));
    assert(key_index(keys, (0usize, 4usize), 1) == Some(23int));
    assert(key_index(keys, (0usize, 4usize), 0) == Some(23int));
    assert(reversed(keys[8]) == (0usize, 4usize));
    assert(key_index(keys, (7usize, 3usize), 24) == Option::<int>::None);
    assert(key_index(keys, (7usize, 3usize), 23) == Option::<int>::None);
    assert(key_index(keys, (7usize, 3usize), 22) == Option::<int>::None);
    assert(key_index(keys, (7usize, 3usize), 21) == Option::<int>::None);
    assert(key_index(keys, (7usize, 3usize), 20) == Option::<int>::None);
    assert(key_index(keys, (7usize, 3usize), 19) == Some(19int));
    assert(key_index(keys, (7usize, 3usize), 18) == Some(19int));
    assert(key_index(keys, (7usize, 3usize), 17) == Some(19int));
    assert(key_index(keys, (7usize, 3usize), 16) == Some(19int));
    assert(key_index(keys, (7usize, 3usize), 15) == Some(19int));
    assert(key_index(keys, (7usize, 3usize), 14) == Some(19int));
    assert(key_index(keys, (7usize, 3usize), 13) == Some(19int));
    assert(key_index(keys, (7usize, 3usize), 12) == Some(19int));
    assert(key_index(keys, (7usize, 3usize), 11) == Some(19int));
    assert(key_index(keys, (7usize, 3usize), 10) == Some(19int));
    assert(key_index(keys, (7usize, 3usize), 9) == Some(19int));
    assert(key_index(keys, (7usize, 3usize), 8) == Some(19int));
    assert(key_index(keys, (7usize, 3usize), 7) == Some(19int));
    assert(key_index(keys, (7usize, 3usize), 6) == Some(19int));
    assert(key_index(keys, (7usize, 3usize), 5) == Some(19int));
    assert(key_index(keys, (7usize, 3usize), 4) == Some(19int));
    assert(key_index(keys, (7usize, 3usize), 3) == Some(19int));
    assert(key_index(keys, (7usize, 3usize), 2) == Some(19int));
    assert(key_index(keys, (7usize, 3usize), 1) == Some(19int));
    assert(key_index(keys, (7usize, 3usize), 0) == Some(19int));
    assert(reversed(keys[10]) == (7usize, 3usize));
    assert(key_index(keys, (5usize, 1usize), 24) == Option::<int>::None);
    assert(key_index(keys, (5usize, 1usize), 23) == Option::<int>::None);
    assert(key_index(keys, (5usize, 1usize), 22) == Option::<int>::None);
    assert(key_index(keys, (5usize, 1usize), 21) == Some(21int));
    assert(key_index(keys, (5usize, 1usize), 20) == Some(21int));
    assert(key_index(keys, (5usize, 1usize), 19) == Some(21int));
    assert(key_index(keys, (5usize, 1usize), 18) == Some(21int));
    assert(key_index(keys, (5usize, 1usize), 17) == Some(21int));
    assert(key_index(keys, (5usize, 1usize), 16) == Some(21int));
    assert(key_index(keys, (5usize, 1usize), 15) == Some(21int));
    assert(key_index(keys, (5usize, 1usize), 14) == Some(21int));
    assert(key_index(keys, (5usize, 1usize), 13) == Some(21int));
    assert(key_index(keys, (5usize, 1usize), 12) == Some(21int));
    assert(key_index(keys, (5usize, 1usize), 11) == Some(21int));
    assert(key_index(keys, (5usize, 1usize), 10) == Some(21int));
    assert(key_index(keys, (5usize, 1usize), 9) == Some(21int));
    assert(key_index(keys, (5usize, 1usize), 8) == Some(21int));
    assert(key_index(keys, (5usize, 1usize), 7) == Some(21int));
    assert(key_index(keys, (5usize, 1usize), 6) == Some(21int));
    assert(key_index(keys, (5usize, 1usize), 5) == Some(21int));
    assert(key_index(keys, (5usize, 1usize), 4) == Some(21int));
    assert(key_index(keys, (5usize, 1usize), 3) == Some(21int));
    assert(key_index(keys, (5usize, 1usize), 2) == Some(21int));
    assert(key_index(keys, (5usize, 1usize), 1) == Some(21int));
    assert(key_index(keys, (5usize, 1usize), 0) == Some(21int));
    assert(reversed(keys[12]) == (5usize, 1usize));
    assert(key_index(keys, (2usize, 6usize), 24) == Option::<int>::None);
    assert(key_index(keys, (2usize, 6usize), 23) == Option::<int>::None);
    assert(key_index(keys, (2usize, 6usize), 22) == Option::<int>::None);
    assert(key_index(keys, (2usize, 6usize), 21) == Option::<int>::None);
    assert(key_index(keys, (2usize, 6usize), 20) == Option::<int>::None);
    assert(key_index(keys, (2usize, 6usize), 19) == Option::<int>::None);
    assert(key_index(keys, (2usize, 6usize), 18) == Option::<int>::None);
    assert(key_index(keys, (2usize, 6usize), 17) == Some(17int));
    assert(key_index(keys, (2usize, 6usize), 16) == Some(17int));
    assert(key_index(keys, (2usize, 6usize), 15) == Some(17int));
    assert(key_index(keys, (2usize, 6usize), 14) == Some(17int));
    assert(key_index(keys, (2usize, 6usize), 13) == Some(17int));
    assert(key_index(keys, (2usize, 6usize), 12) == Some(17int));
    assert(key_index(keys, (2usize, 6usize), 11) == Some(17int));
    assert(key_index(keys, (2usize, 6usize), 10) == Some(17int));
    assert(key_index(keys, (2usize, 6usize), 9) == Some(17int));
    assert(key_index(keys, (2usize, 6usize), 8) == Some(17int));
    assert(key_index(keys, (2usize, 6usize), 7) == Some(17int));
    assert(key_index(keys, (2usize, 6usize), 6) == Some(17int));
    assert(key_index(keys, (2usize, 6usize), 5) == Some(17int));
    assert(key_index(keys, (2usize, 6usize), 4) == Some(17int));
    assert(key_index(keys, (2usize, 6usize), 3) == Some(17int));
    assert(key_index(keys, (2usize, 6usize), 2) == Some(17int));
    assert(key_index(keys, (2usize, 6usize), 1) == Some(17int));
    assert(key_index(keys, (2usize, 6usize), 0) == Some(17int));
    assert(reversed(keys[14]) == (2usize, 6usize));
    let pl0 = seq![hl(0u32, INVALID_INDEX, 1u32, 3u32, 0u32, INVALID_INDEX), hl(1u32, INVALID_INDEX, 2u32, 0u32, 0u32, INVALID_INDEX), hl(2u32, INVALID_INDEX, 3u32, 1u32, 0u32, INVALID_INDEX), hl(3u32, INVALID_INDEX, 0u32, 2u32, 0u32, INVALID_INDEX), hl(5u32, INVALID_INDEX, 5u32, 7u32, 1u32, INVALID_INDEX), hl(4u32, INVALID_INDEX, 6u32, 4u32, 1u32, INVALID_INDEX), hl(7u32, INVALID_INDEX, 7u32, 5u32, 1u32, INVALID_INDEX), hl(6u32, INVALID_INDEX, 4u32, 6u32, 1u32, INVALID_INDEX), hl(4u32, INVALID_INDEX, 9u32, 11u32, 2u32, INVALID_INDEX), hl(0u32, INVALID_INDEX, 10u32, 8u32, 2u32, INVALID_INDEX), hl(3u32, INVALID_INDEX, 11u32, 9u32, 2u32, INVALID_INDEX), hl(7u32, INVALID_INDEX, 8u32, 10u32, 2u32, INVALID_INDEX), hl(1u32, INVALID_INDEX, 13u32, 15u32, 3u32, INVALID_INDEX), hl(5u32, INVALID_INDEX, 14u32, 12u32, 3u32, INVALID_INDEX), hl(6u32, INVALID_INDEX, 15u32, 13u32, 3u32, INVALID_INDEX), hl(2u32, INVALID_INDEX, 12u32, 14u32, 3u32, INVALID_INDEX), hl(3u32, INVALID_INDEX, 17u32, 19u32, 4u32, INVALID_INDEX), hl(2u32, INVALID_INDEX, 18u32, 16u32, 4u32, INVALID_INDEX), hl(6u32, INVALID_INDEX, 19u32, 17u32, 4u32, INVALID_INDEX), hl(7u32, INVALID_INDEX, 16u32, 18u32, 4u32, INVALID_INDEX), hl(4u32, INVALID_INDEX, 21u32, 23u32, 5u32, INVALID_INDEX), hl(5u32, INVALID_INDEX, 22u32, 20u32, 5u32, INVALID_INDEX), hl(1u32, INVALID_INDEX, 23u32, 21u32, 5u32, INVALID_INDEX), hl(0u32, INVALID_INDEX, 20u32, 22u32, 5u32, INVALID_INDEX)];
    let pe0 = Seq::<HalfEdgeId>::empty();
    let pb0 = Seq::<usize>::empty();
    let pl1 = seq![hl(0u32, 22u32, 1u32, 3u32, 0u32, 0u32), hl(1u32, INVALID_INDEX, 2u32, 0u32, 0u32, INVALID_INDEX), hl(2u32, INVALID_INDEX, 3u32, 1u32, 0u32, INVALID_INDEX), hl(3u32, INVALID_INDEX, 0u32, 2u32, 0u32, INVALID_INDEX), hl(5u32, INVALID_INDEX, 5u32, 7u32, 1u32, INVALID_INDEX), hl(4u32, INVALID_INDEX, 6u32, 4u32, 1u32, INVALID_INDEX), hl(7u32, INVALID_INDEX, 7u32, 5u32, 1u32, INVALID_INDEX), hl(6u32, INVALID_INDEX, 4u32, 6u32, 1u32, INVALID_INDEX), hl(4u32, INVALID_INDEX, 9u32, 11u32, 2u32, INVALID_INDEX), hl(0u32, INVALID_INDEX, 10u32, 8u32, 2u32, INVALID_INDEX), hl(3u32, INVALID_INDEX, 11u32, 9u32, 2u32, INVALID_INDEX), hl(7u32, INVALID_INDEX, 8u32, 10u32, 2u32, INVALID_INDEX), hl(1u32, INVALID_INDEX, 13u32, 15u32, 3u32, INVALID_INDEX), hl(5u32, INVALID_INDEX, 14u32, 12u32, 3u32, INVALID_INDEX), hl(6u32, INVALID_INDEX, 15u32, 13u32, 3u32, INVALID_INDEX), hl(2u32, INVALID_INDEX, 12u32, 14u32, 3u32, INVALID_INDEX), hl(3u32, INVALID_INDEX, 17u32, 19u32, 4u32, INVALID_INDEX), hl(2u32, INVALID_INDEX, 18u32, 16u32, 4u32, INVALID_INDEX), hl(6u32, INVALID_INDEX, 19u32, 17u32, 4u32, INVALID_INDEX), hl(7u32, INVALID_INDEX, 16u32, 18u32, 4u32, INVALID_INDEX), hl(4u32, INVALID_INDEX, 21u32, 23u32, 5u32, INVALID_INDEX), hl(5u32, INVALID_INDEX, 22u32, 20u32, 5u32, INVALID_INDEX), hl(1u32, 0u32, 23u32, 21u32, 5u32, 0u32), hl(0u32, INVALID_INDEX, 20u32, 22u32, 5u32, INVALID_INDEX)];
    let pe1 = seq![HalfEdgeId(0u32)];
    let pb1 = Seq::<usize>::empty();
    let pl2 = seq![hl(0u32, 22u32, 1u32, 3u32, 0u32, 0u32), hl(1u32, 15u32, 2u32, 0u32, 0u32, 1u32), hl(2u32, INVALID_INDEX, 3u32, 1u32, 0u32, INVALID_INDEX), hl(3u32, INVALID_INDEX, 0u32, 2u32, 0u32, INVALID_INDEX), hl(5u32, INVALID_INDEX, 5u32, 7u32, 1u32, INVALID_INDEX), hl(4u32, INVALID_INDEX, 6u32, 4u32, 1u32, INVALID_INDEX), hl(7u32, INVALID_INDEX, 7u32, 5u32, 1u32, INVALID_INDEX), hl(6u32, INVALID_INDEX, 4u32, 6u32, 1u32, INVALID_INDEX), hl(4u32, INVALID_INDEX, 9u32, 11u32, 2u32, INVALID_INDEX), hl(0u32, INVALID_INDEX, 10u32, 8u32, 2u32, INVALID_INDEX), hl(3u32, INVALID_INDEX, 11u32, 9u32, 2u32, INVALID_INDEX), hl(7u32, INVALID_INDEX, 8u32, 10u32, 2u32, INVALID_INDEX), hl(1u32, INVALID_INDEX, 13u32, 15u32, 3u32, INVALID_INDEX), hl(5u32, INVALID_INDEX, 14u32, 12u32, 3u32, INVALID_INDEX), hl(6u32, INVALID_INDEX, 15u32, 13u32, 3u32, INVALID_INDEX), hl(2u32, 1u32, 12u32, 14u32, 3u32, 1u32), hl(3u32, INVALID_INDEX, 17u32, 19u32, 4u32, INVALID_INDEX), hl(2u32, INVALID_INDEX, 18u32, 16u32, 4u32, INVALID_INDEX), hl(6u32, INVALID_INDEX, 19u32, 17u32, 4u32, INVALID_INDEX), hl(7u32, INVALID_INDEX, 16u32, 18u32, 4u32, INVALID_INDEX), hl(4u32, INVALID_INDEX, 21u32, 23u32, 5u32, INVALID_INDEX), hl(5u32, INVALID_INDEX, 22u32, 20u32, 5u32, INVALID_INDEX), hl(1u32, 0u32, 23u32, 21u32, 5u32, 0u32), hl(0u32, INVALID_INDEX, 20u32, 22u32, 5u32, INVALID_INDEX)];
    let pe2 = seq![HalfEdgeId(0u32), HalfEdgeId(1u32)];
    let pb2 = Seq::<usize>::empty();
    let pl3 = seq![hl(0u32, 22u32, 1u32, 3u32, 0u32, 0u32), hl(1u32, 15u32, 2u32, 0u32, 0u32, 1u32), hl(2u32, 16u32, 3u32, 1u32, 0u32, 2u32), hl(3u32, INVALID_INDEX, 0u32, 2u32, 0u32, INVALID_INDEX), hl(5u32, INVALID_INDEX, 5u32, 7u32, 1u32, INVALID_INDEX), hl(4u32, INVALID_INDEX, 6u32, 4u32, 1u32, INVALID_INDEX), hl(7u32, INVALID_INDEX, 7u32, 5u32, 1u32, INVALID_INDEX), hl(6u32, INVALID_INDEX, 4u32, 6u32, 1u32, INVALID_INDEX), hl(4u32, INVALID_INDEX, 9u32, 11u32, 2u32, INVALID_INDEX), hl(0u32, INVALID_INDEX, 10u32, 8u32, 2u32, INVALID_INDEX), hl(3u32, INVALID_INDEX, 11u32, 9u32, 2u32, INVALID_INDEX), hl(7u32, INVALID_INDEX, 8u32, 10u32, 2u32, INVALID_INDEX), hl(1u32, INVALID_INDEX, 13u32, 15u32, 3u32, INVALID_INDEX), hl(5u32, INVALID_INDEX, 14u32, 12u32, 3u32, INVALID_INDEX), hl(6u32, INVALID_INDEX, 15u32, 13u32, 3u32, INVALID_INDEX), hl(2u32, 1u32, 12u32, 14u32, 3u32, 1u32), hl(3u32, 2u32, 17u32, 19u32, 4u32, 2u32), hl(2u32, INVALID_INDEX, 18u32, 16u32, 4u32, INVALID_INDEX), hl(6u32, INVALID_INDEX, 19u32, 17u32, 4u32, INVALID_INDEX), hl(7u32, INVALID_INDEX, 16u32, 18u32, 4u32, INVALID_INDEX), hl(4u32, INVALID_INDEX, 21u32, 23u32, 5u32, INVALID_INDEX), hl(5u32, INVALID_INDEX, 22u32, 20u32, 5u32, INVALID_INDEX), hl(1u32, 0u32, 23u32, 21u32, 5u32, 0u32), hl(0u32, INVALID_INDEX, 20u32, 22u32, 5u32, INVALID_INDEX)];
    let pe3 = seq![HalfEdgeId(0u32), HalfEdgeId(1u32), HalfEdgeId(2u32)];
    let pb3 = Seq::<usize>::empty();
    let pl4 = seq![hl(0u32, 22u32, 1u32, 3u32, 0u32, 0u32), hl(1u32, 15u32, 2u32, 0u32, 0u32, 1u32), hl(2u32, 16u32, 3u32, 1u32, 0u32, 2u32), hl(3u32, 9u32, 0u32, 2u32, 0u32, 3u32), hl(5u32, INVALID_INDEX, 5u32, 7u32, 1u32, INVALID_INDEX), hl(4u32, INVALID_INDEX, 6u32, 4u32, 1u32, INVALID_INDEX), hl(7u32, INVALID_INDEX, 7u32, 5u32, 1u32, INVALID_INDEX), hl(6u32, INVALID_INDEX, 4u32, 6u32, 1u32, INVALID_INDEX), hl(4u32, INVALID_INDEX, 9u32, 11u32, 2u32, INVALID_INDEX), hl(0u32, 3u32, 10u32, 8u32, 2u32, 3u32), hl(3u32, INVALID_INDEX, 11u32, 9u32, 2u32, INVALID_INDEX), hl(7u32, INVALID_INDEX, 8u32, 10u32, 2u32, INVALID_INDEX), hl(1u32, INVALID_INDEX, 13u32, 15u32, 3u32, INVALID_INDEX), hl(5u32, INVALID_INDEX, 14u32, 12u32, 3u32, INVALID_INDEX), hl(6u32, INVALID_INDEX, 15u32, 13u32, 3u32, INVALID_INDEX), hl(2u32, 1u32, 12u32, 14u32, 3u32, 1u32), hl(3u32, 2u32, 17u32, 19u32, 4u32, 2u32), hl(2u32, INVALID_INDEX, 18u32, 16u32, 4u32, INVALID_INDEX), hl(6u32, INVALID_INDEX, 19u32, 17u32, 4u32, INVALID_INDEX), hl(7u32, INVALID_INDEX, 16u32, 18u32, 4u32, INVALID_INDEX), hl(4u32, INVALID_INDEX, 21u32, 23u32, 5u32, INVALID_INDEX), hl(5u32, INVALID_INDEX, 22u32, 20u32, 5u32, INVALID_INDEX), hl(1u32, 0u32, 23u32, 21u32, 5u32, 0u32), hl(0u32, INVALID_INDEX, 20u32, 22u32, 5u32, INVALID_INDEX)];
    let pe4 = seq![HalfEdgeId(0u32), HalfEdgeId(1u32), HalfEdgeId(2u32), HalfEdgeId(3u32)];
    let pb4 = Seq::<usize>::empty();
    let pl5 = seq![hl(0u32, 22u32, 1u32, 3u32, 0u32, 0u32), hl(1u32, 15u32, 2u32, 0u32, 0u32, 1u32), hl(2u32, 16u32, 3u32, 1u32, 0u32, 2u32), hl(3u32, 9u32, 0u32, 2u32, 0u32, 3u32), hl(5u32, 20u32, 5u32, 7u32, 1u32, 4u32), hl(4u32, INVALID_INDEX, 6u32, 4u32, 1u32, INVALID_INDEX), hl(7u32, INVALID_INDEX, 7u32, 5u32, 1u32, INVALID_INDEX), hl(6u32, INVALID_INDEX, 4u32, 6u32, 1u32, INVALID_INDEX), hl(4u32, INVALID_INDEX, 9u32, 11u32, 2u32, INVALID_INDEX), hl(0u32, 3u32, 10u32, 8u32, 2u32, 3u32), hl(3u32, INVALID_INDEX, 11u32, 9u32, 2u32, INVALID_INDEX), hl(7u32, INVALID_INDEX, 8u32, 10u32, 2u32, INVALID_INDEX), hl(1u32, INVALID_INDEX, 13u32, 15u32, 3u32, INVALID_INDEX), hl(5u32, INVALID_INDEX, 14u32, 12u32, 3u32, INVALID_INDEX), hl(6u32, INVALID_INDEX, 15u32, 13u32, 3u32, INVALID_INDEX), hl(2u32, 1u32, 12u32, 14u32, 3u32, 1u32), hl(3u32, 2u32, 17u32, 19u32, 4u32, 2u32), hl(2u32, INVALID_INDEX, 18u32, 16u32, 4u32, INVALID_INDEX), hl(6u32, INVALID_INDEX, 19u32, 17u32, 4u32, INVALID_INDEX), hl(7u32, INVALID_INDEX, 16u32, 18u32, 4u32, INVALID_INDEX), hl(4u32, 4u32, 21u32, 23u32, 5u32, 4u32), hl(5u32, INVALID_INDEX, 22u32, 20u32, 5u32, INVALID_INDEX), hl(1u32, 0u32, 23u32, 21u32, 5u32, 0u32), hl(0u32, INVALID_INDEX, 20u32, 22u32, 5u32, INVALID_INDEX)];
    let pe5 = seq![HalfEdgeId(0u32), HalfEdgeId(1u32), HalfEdgeId(2u32), HalfEdgeId(3u32), HalfEdgeId(4u32)];
    let pb5 = Seq::<usize>::empty();
    let pl6 = seq![hl(0u32, 22u32, 1u32, 3u32, 0u32, 0u32), hl(1u32, 15u32, 2u32, 0u32, 0u32, 1u32), hl(2u32, 16u32, 3u32, 1u32, 0u32, 2u32), hl(3u32, 9u32, 0u32, 2u32, 0u32, 3u32), hl(5u32, 20u32, 5u32, 7u32, 1u32, 4u32), hl(4u32, 11u32, 6u32, 4u32, 1u32, 5u32), hl(7u32, INVALID_INDEX, 7u32, 5u32, 1u32, INVALID_INDEX), hl(6u32, INVALID_INDEX, 4u32, 6u32, 1u32, INVALID_INDEX), hl(4u32, INVALID_INDEX, 9u32, 11u32, 2u32, INVALID_INDEX), hl(0u32, 3u32, 10u32, 8u32, 2u32, 3u32), hl(3u32, INVALID_INDEX, 11u32, 9u32, 2u32, INVALID_INDEX), hl(7u32, 5u32, 8u32, 10u32, 2u32, 5u32), hl(1u32, INVALID_INDEX, 13u32, 15u32, 3u32, INVALID_INDEX), hl(5u32, INVALID_INDEX, 14u32, 12u32, 3u32, INVALID_INDEX), hl(6u32, INVALID_INDEX, 15u32, 13u32, 3u32, INVALID_INDEX), hl(2u32, 1u32, 12u32, 14u32, 3u32, 1u32), hl(3u32, 2u32, 17u32, 19u32, 4u32, 2u32), hl(2u32, INVALID_INDEX, 18u32, 16u32, 4u32, INVALID_INDEX), hl(6u32, INVALID_INDEX, 19u32, 17u32, 4u32, INVALID_INDEX), hl(7u32, INVALID_INDEX, 16u32, 18u32, 4u32, INVALID_INDEX), hl(4u32, 4u32, 21u32, 23u32, 5u32, 4u32), hl(5u32, INVALID_INDEX, 22u32, 20u32, 5u32, INVALID_INDEX), hl(1u32, 0u32, 23u32, 21u32, 5u32, 0u32), hl(0u32, INVALID_INDEX, 20u32, 22u32, 5u32, INVALID_INDEX)];
    let pe6 = seq![HalfEdgeId(0u32), HalfEdgeId(1u32), HalfEdgeId(2u32), HalfEdgeId(3u32), HalfEdgeId(4u32), HalfEdgeId(5u32)];
    let pb6 = Seq::<usize>::empty();
    let pl7 = seq![hl(0u32, 22u32, 1u32, 3u32, 0u32, 0u32), hl(1u32, 15u32, 2u32, 0u32, 0u32, 1u32), hl(2u32, 16u32, 3u32, 1u32, 0u32, 2u32), hl(3u32, 9u32, 0u32, 2u32, 0u32, 3u32), hl(5u32, 20u32, 5u32, 7u32, 1u32, 4u32), hl(4u32, 11u32, 6u32, 4u32, 1u32, 5u32), hl(7u32, 18u32, 7u32, 5u32, 1u32, 6u32), hl(6u32, INVALID_INDEX, 4u32, 6u32, 1u32, INVALID_INDEX), hl(4u32, INVALID_INDEX, 9u32, 11u32, 2u32, INVALID_INDEX), hl(0u32, 3u32, 10u32, 8u32, 2u32, 3u32), hl(3u32, INVALID_INDEX, 11u32, 9u32, 2u32, INVALID_INDEX), hl(7u32, 5u32, 8u32, 10u32, 2u32, 5u32), hl(1u32, INVALID_INDEX, 13u32, 15u32, 3u32, INVALID_INDEX), hl(5u32, INVALID_INDEX, 14u32, 12u32, 3u32, INVALID_INDEX), hl(6u32, INVALID_INDEX, 15u32, 13u32, 3u32, INVALID_INDEX), hl(2u32, 1u32, 12u32, 14u32, 3u32, 1u32), hl(3u32, 2u32, 17u32, 19u32, 4u32, 2u32), hl(2u32, INVALID_INDEX, 18u32, 16u32, 4u32, INVALID_INDEX), hl(6u32, 6u32, 19u32, 17u32, 4u32, 6u32), hl(7u32, INVALID_INDEX, 16u32, 18u32, 4u32, INVALID_INDEX), hl(4u32, 4u32, 21u32, 23u32, 5u32, 4u32), hl(5u32, INVALID_INDEX, 22u32, 20u32, 5u32, INVALID_INDEX), hl(1u32, 0u32, 23u32, 21u32, 5u32, 0u32), hl(0u32, INVALID_INDEX, 20u32, 22u32, 5u32, INVALID_INDEX)];
    let pe7 = seq![HalfEdgeId(0u32), HalfEdgeId(1u32), HalfEdgeId(2u32), HalfEdgeId(3u32), HalfEdgeId(4u32), HalfEdgeId(5u32), HalfEdgeId(6u32)];
    let pb7 = Seq::<usize>::empty();
    let pl8 = seq![hl(0u32, 22u32, 1u32, 3u32, 0u32, 0u32), hl(1u32, 15u32, 2u32, 0u32, 0u32, 1u32), hl(2u32, 16u32, 3u32, 1u32, 0u32, 2u32), hl(3u32, 9u32, 0u32, 2u32, 0u32, 3u32), hl(5u32, 20u32, 5u32, 7u32, 1u32, 4u32), hl(4u32, 11u32, 6u32, 4u32, 1u32, 5u32), hl(7u32, 18u32, 7u32, 5u32, 1u32, 6u32), hl(6u32, 13u32, 4u32, 6u32, 1u32, 7u32), hl(4u32, INVALID_INDEX, 9u32, 11u32, 2u32, INVALID_INDEX), hl(0u32, 3u32, 10u32, 8u32, 2u32, 3u32), hl(3u32, INVALID_INDEX, 11u32, 9u32, 2u32, INVALID_INDEX), hl(7u32, 5u32, 8u32, 10u32, 2u32, 5u32), hl(1u32, INVALID_INDEX, 13u32, 15u32, 3u32, INVALID_INDEX), hl(5u32, 7u32, 14u32, 12u32, 3u32, 7u32), hl(6u32, INVALID_INDEX, 15u32, 13u32, 3u32, INVALID_INDEX), hl(2u32, 1u32, 12u32, 14u32, 3u32, 1u32), hl(3u32, 2u32, 17u32, 19u32, 4u32, 2u32), hl(2u32, INVALID_INDEX, 18u32, 16u32, 4u32, INVALID_INDEX), hl(6u32, 6u32, 19u32, 17u32, 4u32, 6u32), hl(7u32, INVALID_INDEX, 16u32, 18u32, 4u32, INVALID_INDEX), hl(4u32, 4u32, 21u32, 23u32, 5u32, 4u32), hl(5u32, INVALID_INDEX, 22u32, 20u32, 5u32, INVALID_INDEX), hl(1u32, 0u32, 23u32, 21u32, 5u32, 0u32), hl(0u32, INVALID_INDEX, 20u32, 22u32, 5u32, INVALID_INDEX)];
    let pe8 = seq![HalfEdgeId(0u32), HalfEdgeId(1u32), HalfEdgeId(2u32), HalfEdgeId(3u32), HalfEdgeId(4u32), HalfEdgeId(5u32), HalfEdgeId(6u32), HalfEdgeId(7u32)];
    let pb8 = Seq::<usize>::empty();
    let pl9 = seq![hl(0u32, 22u32, 1u32, 3u32, 0u32, 0u32), hl(1u32, 15u32, 2u32, 0u32, 0u32, 1u32), hl(2u32, 16u32, 3u32, 1u32, 0u32, 2u32), hl(3u32, 9u32, 0u32, 2u32, 0u32, 3u32), hl(5u32, 20u32, 5u32, 7u32, 1u32, 4u32), hl(4u32, 11u32, 6u32, 4u32, 1u32, 5u32), hl(7u32, 18u32, 7u32, 5u32, 1u32, 6u32), hl(6u32, 13u32, 4u32, 6u32, 1u32, 7u32), hl(4u32, 23u32, 9u32, 11u32, 2u32, 8u32), hl(0u32, 3u32, 10u32, 8u32, 2u32, 3u32), hl(3u32, INVALID_INDEX, 11u32, 9u32, 2u32, INVALID_INDEX), hl(7u32, 5u32, 8u32, 10u32, 2u32, 5u32), hl(1u32, INVALID_INDEX, 13u32, 15u32, 3u32, INVALID_INDEX), hl(5u32, 7u32, 14u32, 12u32, 3u32, 7u32), hl(6u32, INVALID_INDEX, 15u32, 13u32, 3u32, INVALID_INDEX), hl(2u32, 1u32, 12u32, 14u32, 3u32, 1u32), hl(3u32, 2u32, 17u32, 19u32, 4u32, 2u32), hl(2u32, INVALID_INDEX, 18u32, 16u32, 4u32, INVALID_INDEX), hl(6u32, 6u32, 19u32, 17u32, 4u32, 6u32), hl(7u32, INVALID_INDEX, 16u32, 18u32, 4u32, INVALID_INDEX), hl(4u32, 4u32, 21u32, 23u32, 5u32, 4u32), hl(5u32, INVALID_INDEX, 22u32, 20u32, 5u32, INVALID_INDEX), hl(1u32, 0u32, 23u32, 21u32, 5u32, 0u32), hl(0u32, 8u32, 20u32, 22u32, 5u32, 8u32)];
    let pe9 = seq![HalfEdgeId(0u32), HalfEdgeId(1u32), HalfEdgeId(2u32), HalfEdgeId(3u32), HalfEdgeId(4u32), HalfEdgeId(5u32), HalfEdgeId(6u32), HalfEdgeId(7u32), HalfEdgeId(8u32)];
    let pb9 = Seq::<usize>::empty();
    let pl10 = seq![hl(0u32, 22u32, 1u32, 3u32, 0u32, 0u32), hl(1u32, 15u32, 2u32, 0u32, 0u32, 1u32), hl(2u32, 16u32, 3u32, 1u32, 0u32, 2u32), hl(3u32, 9u32, 0u32, 2u32, 0u32, 3u32), hl(5u32, 20u32, 5u32, 7u32, 1u32, 4u32), hl(4u32, 11u32, 6u32, 4u32, 1u32, 5u32), hl(7u32, 18u32, 7u32, 5u32, 1u32, 6u32), hl(6u32, 13u32, 4u32, 6u32, 1u32, 7u32), hl(4u32, 23u32, 9u32, 11u32, 2u32, 8u32), hl(0u32, 3u32, 10u32, 8u32, 2u32, 3u32), hl(3u32, INVALID_INDEX, 11u32, 9u32, 2u32, INVALID_INDEX), hl(7u32, 5u32, 8u32, 10u32, 2u32, 5u32), hl(1u32, INVALID_INDEX, 13u32, 15u32, 3u32, INVALID_INDEX), hl(5u32, 7u32, 14u32, 12u32, 3u32, 7u32), hl(6u32, INVALID_INDEX, 15u32, 13u32, 3u32, INVALID_INDEX), hl(2u32, 1u32, 12u32, 14u32, 3u32, 1u32), hl(3u32, 2u32, 17u32, 19u32, 4u32, 2u32), hl(2u32, INVALID_INDEX, 18u32, 16u32, 4u32, INVALID_INDEX), hl(6u32, 6u32, 19u32, 17u32, 4u32, 6u32), hl(7u32, INVALID_INDEX, 16u32, 18u32, 4u32, INVALID_INDEX), hl(4u32, 4u32, 21u32, 23u32, 5u32, 4u32), hl(5u32, INVALID_INDEX, 22u32, 20u32, 5u32, INVALID_INDEX), hl(1u32, 0u32, 23u32, 21u32, 5u32, 0u32), hl(0u32, 8u32, 20u32, 22u32, 5u32, 8u32)];
    let pe10 = seq![HalfEdgeId(0u32), HalfEdgeId(1u32), HalfEdgeId(2u32), HalfEdgeId(3u32), HalfEdgeId(4u32), HalfEdgeId(5u32), HalfEdgeId(6u32), HalfEdgeId(7u32), HalfEdgeId(8u32)];
    let pb10 = Seq::<usize>::empty();
    let pl11 = seq![hl(0u32, 22u32, 1u32, 3u32, 0u32, 0u32), hl(1u32, 15u32, 2u32, 0u32, 0u32, 1u32), hl(2u32, 16u32, 3u32, 1u32, 0u32, 2u32), hl(3u32, 9u32, 0u32, 2u32, 0u32, 3u32), hl(5u32, 20u32, 5u32, 7u32, 1u32, 4u32), hl(4u32, 11u32, 6u32, 4u32, 1u32, 5u32), hl(7u32, 18u32, 7u32, 5u32, 1u32, 6u32), hl(6u32, 13u32, 4u32, 6u32, 1u32, 7u32), hl(4u32, 23u32, 9u32, 11u32, 2u32, 8u32), hl(0u32, 3u32, 10u32, 8u32, 2u32, 3u32), hl(3u32, 19u32, 11u32, 9u32, 2u32, 9u32), hl(7u32, 5u32, 8u32, 10u32, 2u32, 5u32), hl(1u32, INVALID_INDEX, 13u32, 15u32, 3u32, INVALID_INDEX), hl(5u32, 7u32, 14u32, 12u32, 3u32, 7u32), hl(6u32, INVALID_INDEX, 15u32, 13u32, 3u32, INVALID_INDEX), hl(2u32, 1u32, 12u32, 14u32, 3u32, 1u32), hl(3u32, 2u32, 17u32, 19u32, 4u32, 2u32), hl(2u32, INVALID_INDEX, 18u32, 16u32, 4u32, INVALID_INDEX), hl(6u32, 6u32, 19u32, 17u32, 4u32, 6u32), hl(7u32, 10u32, 16u32, 18u32, 4u32, 9u32), hl(4u32, 4u32, 21u32, 23u32, 5u32, 4u32), hl(5u32, INVALID_INDEX, 22u32, 20u32, 5u32, INVALID_INDEX), hl(1u32, 0u32, 23u32, 21u32, 5u32, 0u32), hl(0u32, 8u32, 20u32, 22u32, 5u32, 8u32)];
    let pe11 = seq![HalfEdgeId(0u32), HalfEdgeId(1u32), HalfEdgeId(2u32), HalfEdgeId(3u32), HalfEdgeId(4u32), HalfEdgeId(5u32), HalfEdgeId(6u32), HalfEdgeId(7u32), HalfEdgeId(8u32), HalfEdgeId(10u32)];
    let pb11 = Seq::<usize>::empty();
    let pl12 = seq![hl(0u32, 22u32, 1u32, 3u32, 0u32, 0u32), hl(1u32, 15u32, 2u32, 0u32, 0u32, 1u32), hl(2u32, 16u32, 3u32, 1u32, 0u32, 2u32), hl(3u32, 9u32, 0u32, 2u32, 0u32, 3u32), hl(5u32, 20u32, 5u32, 7u32, 1u32, 4u32), hl(4u32, 11u32, 6u32, 4u32, 1u32, 5u32), hl(7u32, 18u32, 7u32, 5u32, 1u32, 6u32), hl(6u32, 13u32, 4u32, 6u32, 1u32, 7u32), hl(4u32, 23u32, 9u32, 11u32, 2u32, 8u32), hl(0u32, 3u32, 10u32, 8u32, 2u32, 3u32), hl(3u32, 19u32, 11u32, 9u32, 2u32, 9u32), hl(7u32, 5u32, 8u32, 10u32, 2u32, 5u32), hl(1u32, INVALID_INDEX, 13u32, 15u32, 3u32, INVALID_INDEX), hl(5u32, 7u32, 14u32, 12u32, 3u32, 7u32), hl(6u32, INVALID_INDEX, 15u32, 13u32, 3u32, INVALID_INDEX), hl(2u32, 1u32, 12u32, 14u32, 3u32, 1u32), hl(3u32, 2u32, 17u32, 19u32, 4u32, 2u32), hl(2u32, INVALID_INDEX, 18u32, 16u32, 4u32, INVALID_INDEX), hl(6u32, 6u32, 19u32, 17u32, 4u32, 6u32), hl(7u32, 10u32, 16u32, 18u32, 4u32, 9u32), hl(4u32, 4u32, 21u32, 23u32, 5u32, 4u32), hl(5u32, INVALID_INDEX, 22u32, 20u32, 5u32, INVALID_INDEX), hl(1u32, 0u32, 23u32, 21u32, 5u32, 0u32), hl(0u32, 8u32, 20u32, 22u32, 5u32, 8u32)];
    let pe12 = seq![HalfEdgeId(0u32), HalfEdgeId(1u32), HalfEdgeId(2u32), HalfEdgeId(3u32), HalfEdgeId(4u32), HalfEdgeId(5u32), HalfEdgeId(6u32), HalfEdgeId(7u32), HalfEdgeId(8u32), HalfEdgeId(10u32)];
    let pb12 = Seq::<usize>::empty();
    let pl13 = seq![hl(0u32, 22u32, 1u32, 3u32, 0u32, 0u32), hl(1u32, 15u32, 2u32, 0u32, 0u32, 1u32), hl(2u32, 16u32, 3u32, 1u32, 0u32, 2u32), hl(3u32, 9u32, 0u32, 2u32, 0u32, 3u32), hl(5u32, 20u32, 5u32, 7u32, 1u32, 4u32), hl(4u32, 11u32, 6u32, 4u32, 1u32, 5u32), hl(7u32, 18u32, 7u32, 5u32, 1u32, 6u32), hl(6u32, 13u32, 4u32, 6u32, 1u32, 7u32), hl(4u32, 23u32, 9u32, 11u32, 2u32, 8u32), hl(0u32, 3u32, 10u32, 8u32, 2u32, 3u32), hl(3u32, 19u32, 11u32, 9u32, 2u32, 9u32), hl(7u32, 5u32, 8u32, 10u32, 2u32, 5u32), hl(1u32, 21u32, 13u32, 15u32, 3u32, 10u32), hl(5u32, 7u32, 14u32, 12u32, 3u32, 7u32), hl(6u32, INVALID_INDEX, 15u32, 13u32, 3u32, INVALID_INDEX), hl(2u32, 1u32, 12u32, 14u32, 3u32, 1u32), hl(3u32, 2u32, 17u32, 19u32, 4u32, 2u32), hl(2u32, INVALID_INDEX, 18u32, 16u32, 4u32, INVALID_INDEX), hl(6u32, 6u32, 19u32, 17u32, 4u32, 6u32), hl(7u32, 10u32, 16u32, 18u32, 4u32, 9u32), hl(4u32, 4u32, 21u32, 23u32, 5u32, 4u32), hl(5u32, 12u32, 22u32, 20u32, 5u32, 10u32), hl(1u32, 0u32, 23u32, 21u32, 5u32, 0u32), hl(0u32, 8u32, 20u32, 22u32, 5u32, 8u32)];
    let pe13 = seq![HalfEdgeId(0u32), HalfEdgeId(1u32), HalfEdgeId(2u32), HalfEdgeId(3u32), HalfEdgeId(4u32), HalfEdgeId(5u32), HalfEdgeId(6u32), HalfEdgeId(7u32), HalfEdgeId(8u32), HalfEdgeId(10u32), HalfEdgeId(12u32)];
    let pb13 = Seq::<usize>::empty();
    let pl14 = seq![hl(0u32, 22u32, 1u32, 3u32, 0u32, 0u32), hl(1u32, 15u32, 2u32, 0u32, 0u32, 1u32), hl(2u32, 16u32, 3u32, 1u32, 0u32, 2u32), hl(3u32, 9u32, 0u32, 2u32, 0u32, 3u32), hl(5u32, 20u32, 5u32, 7u32, 1u32, 4u32), hl(4u32, 11u32, 6u32, 4u32, 1u32, 5u32), hl(7u32, 18u32, 7u32, 5u32, 1u32, 6u32), hl(6u32, 13u32, 4u32, 6u32, 1u32, 7u32), hl(4u32, 23u32, 9u32, 11u32, 2u32, 8u32), hl(0u32, 3u32, 10u32, 8u32, 2u32, 3u32), hl(3u32, 19u32, 11u32, 9u32, 2u32, 9u32), hl(7u32, 5u32, 8u32, 10u32, 2u32, 5u32), hl(1u32, 21u32, 13u32, 15u32, 3u32, 10u32), hl(5u32, 7u32, 14u32, 12u32, 3u32, 7u32), hl(6u32, INVALID_INDEX, 15u32, 13u32, 3u32, INVALID_INDEX), hl(2u32, 1u32, 12u32, 14u32, 3u32, 1u32), hl(3u32, 2u32, 17u32, 19u32, 4u32, 2u32), hl(2u32, INVALID_INDEX, 18u32, 16u32, 4u32, INVALID_INDEX), hl(6u32, 6u32, 19u32, 17u32, 4u32, 6u32), hl(7u32, 10u32, 16u32, 18u32, 4u32, 9u32), hl(4u32, 4u32, 21u32, 23u32, 5u32, 4u32), hl(5u32, 12u32, 22u32, 20u32, 5u32, 10u32), hl(1u32, 0u32, 23u32, 21u32, 5u32, 0u32), hl(0u32, 8u32, 20u32, 22u32, 5u32, 8u32)];
    let pe14 = seq![HalfEdgeId(0u32), HalfEdgeId(1u32), HalfEdgeId(2u32), HalfEdgeId(3u32), HalfEdgeId(4u32), HalfEdgeId(5u32), HalfEdgeId(6u32), HalfEdgeId(7u32), HalfEdgeId(8u32), HalfEdgeId(10u32), HalfEdgeId(12u32)];
    let pb14 = Seq::<usize>::empty();
    let pl15 = seq![hl(0u32, 22u32, 1u32, 3u32, 0u32, 0u32), hl(1u32, 15u32, 2u32, 0u32, 0u32, 1u32), hl(2u32, 16u32, 3u32, 1u32, 0u32, 2u32), hl(3u32, 9u32, 0u32, 2u32, 0u32, 3u32), hl(5u32, 20u32, 5u32, 7u32, 1u32, 4u32), hl(4u32, 11u32, 6u32, 4u32, 1u32, 5u32), hl(7u32, 18u32, 7u32, 5u32, 1u32, 6u32), hl(6u32, 13u32, 4u32, 6u32, 1u32, 7u32), hl(4u32, 23u32, 9u32, 11u32, 2u32, 8u32), hl(0u32, 3u32, 10u32, 8u32, 2u32, 3u32), hl(3u32, 19u32, 11u32, 9u32, 2u32, 9u32), hl(7u32, 5u32, 8u32, 10u32, 2u32, 5u32), hl(1u32, 21u32, 13u32, 15u32, 3u32, 10u32), hl(5u32, 7u32, 14u32, 12u32, 3u32, 7u32), hl(6u32, 17u32, 15u32, 13u32, 3u32, 11u32), hl(2u32, 1u32, 12u32, 14u32, 3u32, 1u32), hl(3u32, 2u32, 17u32, 19u32, 4u32, 2u32), hl(2u32, 14u32, 18u32, 16u32, 4u32, 11u32), hl(6u32, 6u32, 19u32, 17u32, 4u32, 6u32), hl(7u32, 10u32, 16u32, 18u32, 4u32, 9u32), hl(4u32, 4u32, 21u32, 23u32, 5u32, 4u32), hl(5u32, 12u32, 22u32, 20u32, 5u32, 10u32), hl(1u32, 0u32, 23u32, 21u32, 5u32, 0u32), hl(0u32, 8u32, 20u32, 22u32, 5u32, 8u32)];
    let pe15 = seq![HalfEdgeId(0u32), HalfEdgeId(1u32), HalfEdgeId(2u32), HalfEdgeId(3u32), HalfEdgeId(4u32), HalfEdgeId(5u32), HalfEdgeId(6u32), HalfEdgeId(7u32), HalfEdgeId(8u32), HalfEdgeId(10u32), HalfEdgeId(12u32), HalfEdgeId(14u32)];
    let pb15 = Seq::<usize>::empty();
    let pl16 = seq![hl(0u32, 22u32, 1u32, 3u32, 0u32, 0u32), hl(1u32, 15u32, 2u32, 0u32, 0u32, 1u32), hl(2u32, 16u32, 3u32, 1u32, 0u32, 2u32), hl(3u32, 9u32, 0u32, 2u32, 0u32, 3u32), hl(5u32, 20u32, 5u32, 7u32, 1u32, 4u32), hl(4u32, 11u32, 6u32, 4u32, 1u32, 5u32), hl(7u32, 18u32, 7u32, 5u32, 1u32, 6u32), hl(6u32, 13u32, 4u32, 6u32, 1u32, 7u32), hl(4u32, 23u32, 9u32, 11u32, 2u32, 8u32), hl(0u32, 3u32, 10u32, 8u32, 2u32, 3u32), hl(3u32, 19u32, 11u32, 9u32, 2u32, 9u32), hl(7u32, 5u32, 8u32, 10u32, 2u32, 5u32), hl(1u32, 21u32, 13u32, 15u32, 3u32, 10u32), hl(5u32, 7u32, 14u32, 12u32, 3u32, 7u32), hl(6u32, 17u32, 15u32, 13u32, 3u32, 11u32), hl(2u32, 1u32, 12u32, 14u32, 3u32, 1u32), hl(3u32, 2u32, 17u32, 19u32, 4u32, 2u32), hl(2u32, 14u32, 18u32, 16u32, 4u32, 11u32), hl(6u32, 6u32, 19u32, 17u32, 4u32, 6u32), hl(7u32, 10u32, 16u32, 18u32, 4u32, 9u32), hl(4u32, 4u32, 21u32, 23u32, 5u32, 4u32), hl(5u32, 12u32, 22u32, 20u32, 5u32, 10u32), hl(1u32, 0u32, 23u32, 21u32, 5u32, 0u32), hl(0u32, 8u32, 20u32, 22u32, 5u32, 8u32)];
    let pe16 = seq![HalfEdgeId(0u32), HalfEdgeId(1u32), HalfEdgeId(2u32), HalfEdgeId(3u32), HalfEdgeId(4u32), HalfEdgeId(5u32), HalfEdgeId(6u32), HalfEdgeId(7u32), HalfEdgeId(8u32), HalfEdgeId(10u32), HalfEdgeId(12u32), HalfEdgeId(14u32)];
    let pb16 = Seq::<usize>::empty();
    let pl17 = seq![hl(0u32, 22u32, 1u32, 3u32, 0u32, 0u32), hl(1u32, 15u32, 2u32, 0u32, 0u32, 1u32), hl(2u32, 16u32, 3u32, 1u32, 0u32, 2u32), hl(3u32, 9u32, 0u32, 2u32, 0u32, 3u32), hl(5u32, 20u32, 5u32, 7u32, 1u32, 4u32), hl(4u32, 11u32, 6u32, 4u32, 1u32, 5u32), hl(7u32, 18u32, 7u32, 5u32, 1u32, 6u32), hl(6u32, 13u32, 4u32, 6u32, 1u32, 7u32), hl(4u32, 23u32, 9u32, 11u32, 2u32, 8u32), hl(0u32, 3u32, 10u32, 8u32, 2u32, 3u32), hl(3u32, 19u32, 11u32, 9u32, 2u32, 9u32), hl(7u32, 5u32, 8u32, 10u32, 2u32, 5u32), hl(1u32, 21u32, 13u32, 15u32, 3u32, 10u32), hl(5u32, 7u32, 14u32, 12u32, 3u32, 7u32), hl(6u32, 17u32, 15u32, 13u32, 3u32, 11u32), hl(2u32, 1u32, 12u32, 14u32, 3u32, 1u32), hl(3u32, 2u32, 17u32, 19u32, 4u32, 2u32), hl(2u32, 14u32, 18u32, 16u32, 4u32, 11u32), hl(6u32, 6u32, 19u32, 17u32, 4u32, 6u32), hl(7u32, 10u32, 16u32, 18u32, 4u32, 9u32), hl(4u32, 4u32, 21u32, 23u32, 5u32, 4u32), hl(5u32, 12u32, 22u32, 20u32, 5u32, 10u32), hl(1u32, 0u32, 23u32, 21u32, 5u32, 0u32), hl(0u32, 8u32, 20u32, 22u32, 5u32, 8u32)];
    let pe17 = seq![HalfEdgeId(0u32), HalfEdgeId(1u32), HalfEdgeId(2u32), HalfEdgeId(3u32), HalfEdgeId(4u32), HalfEdgeId(5u32), HalfEdgeId(6u32), HalfEdgeId(7u32), HalfEdgeId(8u32), HalfEdgeId(10u32), HalfEdgeId(12u32), HalfEdgeId(14u32)];
    let pb17 = Seq::<usize>::empty();
    let pl18 = seq![hl(0u32, 22u32, 1u32, 3u32, 0u32, 0u32), hl(1u32, 15u32, 2u32, 0u32, 0u32, 1u32), hl(2u32, 16u32, 3u32, 1u32, 0u32, 2u32), hl(3u32, 9u32, 0u32, 2u32, 0u32, 3u32), hl(5u32, 20u32, 5u32, 7u32, 1u32, 4u32), hl(4u32, 11u32, 6u32, 4u32, 1u32, 5u32), hl(7u32, 18u32, 7u32, 5u32, 1u32, 6u32), hl(6u32, 13u32, 4u32, 6u32, 1u32, 7u32), hl(4u32, 23u32, 9u32, 11u32, 2u32, 8u32), hl(0u32, 3u32, 10u32, 8u32, 2u32, 3u32), hl(3u32, 19u32, 11u32, 9u32, 2u32, 9u32), hl(7u32, 5u32, 8u32, 10u32, 2u32, 5u32), hl(1u32, 21u32, 13u32, 15u32, 3u32, 10u32), hl(5u32, 7u32, 14u32, 12u32, 3u32, 7u32), hl(6u32, 17u32, 15u32, 13u32, 3u32, 11u32), hl(2u32, 1u32, 12u32, 14u32, 3u32, 1u32), hl(3u32, 2u32, 17u32, 19u32, 4u32, 2u32), hl(2u32, 14u32, 18u32, 16u32, 4u32, 11u32), hl(6u32, 6u32, 19u32, 17u32, 4u32, 6u32), hl(7u32, 10u32, 16u32, 18u32, 4u32, 9u32), hl(4u32, 4u32, 21u32, 23u32, 5u32, 4u32), hl(5u32, 12u32, 22u32, 20u32, 5u32, 10u32), hl(1u32, 0u32, 23u32, 21u32, 5u32, 0u32), hl(0u32, 8u32, 20u32, 22u32, 5u32, 8u32)];
    let pe18 = seq![HalfEdgeId(0u32), HalfEdgeId(1u32), HalfEdgeId(2u32), HalfEdgeId(3u32), HalfEdgeId(4u32), HalfEdgeId(5u32), HalfEdgeId(6u32), HalfEdgeId(7u32), HalfEdgeId(8u32), HalfEdgeId(10u32), HalfEdgeId(12u32), HalfEdgeId(14u32)];
    let pb18 = Seq::<usize>::empty();
    let pl19 = seq![hl(0u32, 22u32, 1u32, 3u32, 0u32, 0u32), hl(1u32, 15u32, 2u32, 0u32, 0u32, 1u32), hl(2u32, 16u32, 3u32, 1u32, 0u32, 2u32), hl(3u32, 9u32, 0u32, 2u32, 0u32, 3u32), hl(5u32, 20u32, 5u32, 7u32, 1u32, 4u32), hl(4u32, 11u32, 6u32, 4u32, 1u32, 5u32), hl(7u32, 18u32, 7u32, 5u32, 1u32, 6u32), hl(6u32, 13u32, 4u32, 6u32, 1u32, 7u32), hl(4u32, 23u32, 9u32, 11u32, 2u32, 8u32), hl(0u32, 3u32, 10u32, 8u32, 2u32, 3u32), hl(3u32, 19u32, 11u32, 9u32, 2u32, 9u32), hl(7u32, 5u32, 8u32, 10u32, 2u32, 5u32), hl(1u32, 21u32, 13u32, 15u32, 3u32, 10u32), hl(5u32, 7u32, 14u32, 12u32, 3u32, 7u32), hl(6u32, 17u32, 15u32, 13u32, 3u32, 11u32), hl(2u32, 1u32, 12u32, 14u32, 3u32, 1u32), hl(3u32, 2u32, 17u32, 19u32, 4u32, 2u32), hl(2u32, 14u32, 18u32, 16u32, 4u32, 11u32), hl(6u32, 6u32, 19u32, 17u32, 4u32, 6u32), hl(7u32, 10u32, 16u32, 18u32, 4u32, 9u32), hl(4u32, 4u32, 21u32, 23u32, 5u32, 4u32), hl(5u32, 12u32, 22u32, 20u32, 5u32, 10u32), hl(1u32, 0u32, 23u32, 21u32, 5u32, 0u32), hl(0u32, 8u32, 20u32, 22u32, 5u32, 8u32)];
    let pe19 = seq![HalfEdgeId(0u32), HalfEdgeId(1u32), HalfEdgeId(2u32), HalfEdgeId(3u32), HalfEdgeId(4u32), HalfEdgeId(5u32), HalfEdgeId(6u32), HalfEdgeId(7u32), HalfEdgeId(8u32), HalfEdgeId(10u32), HalfEdgeId(12u32), HalfEdgeId(14u32)];
    let pb19 = Seq::<usize>::empty();
    let pl20 = seq![hl(0u32, 22u32, 1u32, 3u32, 0u32, 0u32), hl(1u32, 15u32, 2u32, 0u32, 0u32, 1u32), hl(2u32, 16u32, 3u32, 1u32, 0u32, 2u32), hl(3u32, 9u32, 0u32, 2u32, 0u32, 3u32), hl(5u32, 20u32, 5u32, 7u32, 1u32, 4u32), hl(4u32, 11u32, 6u32, 4u32, 1u32, 5u32), hl(7u32, 18u32, 7u32, 5u32, 1u32, 6u32), hl(6u32, 13u32, 4u32, 6u32, 1u32, 7u32), hl(4u32, 23u32, 9u32, 11u32, 2u32, 8u32), hl(0u32, 3u32, 10u32, 8u32, 2u32, 3u32), hl(3u32, 19u32, 11u32, 9u32, 2u32, 9u32), hl(7u32, 5u32, 8u32, 10u32, 2u32, 5u32), hl(1u32, 21u32, 13u32, 15u32, 3u32, 10u32), hl(5u32, 7u32, 14u32, 12u32, 3u32, 7u32), hl(6u32, 17u32, 15u32, 13u32, 3u32, 11u32), hl(2u32, 1u32, 12u32, 14u32, 3u32, 1u32), hl(3u32, 2u32, 17u32, 19u32, 4u32, 2u32), hl(2u32, 14u32, 18u32, 16u32, 4u32, 11u32), hl(6u32, 6u32, 19u32, 17u32, 4u32, 6u32), hl(7u32, 10u32, 16u32, 18u32, 4u32, 9u32), hl(4u32, 4u32, 21u32, 23u32, 5u32, 4u32), hl(5u32, 12u32, 22u32, 20u32, 5u32, 10u32), hl(1u32, 0u32, 23u32, 21u32, 5u32, 0u32), hl(0u32, 8u32, 20u32, 22u32, 5u32, 8u32)];
    let pe20 = seq![HalfEdgeId(0u32), HalfEdgeId(1u32), HalfEdgeId(2u32), HalfEdgeId(3u32), HalfEdgeId(4u32), HalfEdgeId(5u32), HalfEdgeId(6u32), HalfEdgeId(7u32), HalfEdgeId(8u32), HalfEdgeId(10u32), HalfEdgeId(12u32), HalfEdgeId(14u32)];
    let pb20 = Seq::<usize>::empty();
    let pl21 = seq![hl(0u32, 22u32, 1u32, 3u32, 0u32, 0u32), hl(1u32, 15u32, 2u32, 0u32, 0u32, 1u32), hl(2u32, 16u32, 3u32, 1u32, 0u32, 2u32), hl(3u32, 9u32, 0u32, 2u32, 0u32, 3u32), hl(5u32, 20u32, 5u32, 7u32, 1u32, 4u32), hl(4u32, 11u32, 6u32, 4u32, 1u32, 5u32), hl(7u32, 18u32, 7u32, 5u32, 1u32, 6u32), hl(6u32, 13u32, 4u32, 6u32, 1u32, 7u32), hl(4u32, 23u32, 9u32, 11u32, 2u32, 8u32), hl(0u32, 3u32, 10u32, 8u32, 2u32, 3u32), hl(3u32, 19u32, 11u32, 9u32, 2u32, 9u32), hl(7u32, 5u32, 8u32, 10u32, 2u32, 5u32), hl(1u32, 21u32, 13u32, 15u32, 3u32, 10u32), hl(5u32, 7u32, 14u32, 12u32, 3u32, 7u32), hl(6u32, 17u32, 15u32, 13u32, 3u32, 11u32), hl(2u32, 1u32, 12u32, 14u32, 3u32, 1u32), hl(3u32, 2u32, 17u32, 19u32, 4u32, 2u32), hl(2u32, 14u32, 18u32, 16u32, 4u32, 11u32), hl(6u32, 6u32, 19u32, 17u32, 4u32, 6u32), hl(7u32, 10u32, 16u32, 18u32, 4u32, 9u32), hl(4u32, 4u32, 21u32, 23u32, 5u32, 4u32), hl(5u32, 12u32, 22u32, 20u32, 5u32, 10u32), hl(1u32, 0u32, 23u32, 21u32, 5u32, 0u32), hl(0u32, 8u32, 20u32, 22u32, 5u32, 8u32)];
    let pe21 = seq![HalfEdgeId(0u32), HalfEdgeId(1u32), HalfEdgeId(2u32), HalfEdgeId(3u32), HalfEdgeId(4u32), HalfEdgeId(5u32), HalfEdgeId(6u32), HalfEdgeId(7u32), HalfEdgeId(8u32), HalfEdgeId(10u32), HalfEdgeId(12u32), HalfEdgeId(14u32)];
    let pb21 = Seq::<usize>::empty();
    let pl22 = seq![hl(0u32, 22u32, 1u32, 3u32, 0u32, 0u32), hl(1u32, 15u32, 2u32, 0u32, 0u32, 1u32), hl(2u32, 16u32, 3u32, 1u32, 0u32, 2u32), hl(3u32, 9u32, 0u32, 2u32, 0u32, 3u32), hl(5u32, 20u32, 5u32, 7u32, 1u32, 4u32), hl(4u32, 11u32, 6u32, 4u32, 1u32, 5u32), hl(7u32, 18u32, 7u32, 5u32, 1u32, 6u32), hl(6u32, 13u32, 4u32, 6u32, 1u32, 7u32), hl(4u32, 23u32, 9u32, 11u32, 2u32, 8u32), hl(0u32, 3u32, 10u32, 8u32, 2u32, 3u32), hl(3u32, 19u32, 11u32, 9u32, 2u32, 9u32), hl(7u32, 5u32, 8u32, 10u32, 2u32, 5u32), hl(1u32, 21u32, 13u32, 15u32, 3u32, 10u32), hl(5u32, 7u32, 14u32, 12u32, 3u32, 7u32), hl(6u32, 17u32, 15u32, 13u32, 3u32, 11u32), hl(2u32, 1u32, 12u32, 14u32, 3u32, 1u32), hl(3u32, 2u32, 17u32, 19u32, 4u32, 2u32), hl(2u32, 14u32, 18u32, 16u32, 4u32, 11u32), hl(6u32, 6u32, 19u32, 17u32, 4u32, 6u32), hl(7u32, 10u32, 16u32, 18u32, 4u32, 9u32), hl(4u32, 4u32, 21u32, 23u32, 5u32, 4u32), hl(5u32, 12u32, 22u32, 20u32, 5u32, 10u32), hl(1u32, 0u32, 23u32, 21u32, 5u32, 0u32), hl(0u32, 8u32, 20u32, 22u32, 5u32, 8u32)];
    let pe22 = seq![HalfEdgeId(0u32), HalfEdgeId(1u32), HalfEdgeId(2u32), HalfEdgeId(3u32), HalfEdgeId(4u32), HalfEdgeId(5u32), HalfEdgeId(6u32), HalfEdgeId(7u32), HalfEdgeId(8u32), HalfEdgeId(10u32), HalfEdgeId(12u32), HalfEdgeId(14u32)];
    let pb22 = Seq::<usize>::empty();
    let pl23 = seq![hl(0u32, 22u32, 1u32, 3u32, 0u32, 0u32), hl(1u32, 15u32, 2u32, 0u32, 0u32, 1u32), hl(2u32, 16u32, 3u32, 1u32, 0u32, 2u32), hl(3u32, 9u32, 0u32, 2u32, 0u32, 3u32), hl(5u32, 20u32, 5u32, 7u32, 1u32, 4u32), hl(4u32, 11u32, 6u32, 4u32, 1u32, 5u32), hl(7u32, 18u32, 7u32, 5u32, 1u32, 6u32), hl(6u32, 13u32, 4u32, 6u32, 1u32, 7u32), hl(4u32, 23u32, 9u32, 11u32, 2u32, 8u32), hl(0u32, 3u32, 10u32, 8u32, 2u32, 3u32), hl(3u32, 19u32, 11u32, 9u32, 2u32, 9u32), hl(7u32, 5u32, 8u32, 10u32, 2u32, 5u32), hl(1u32, 21u32, 13u32, 15u32, 3u32, 10u32), hl(5u32, 7u32, 14u32, 12u32, 3u32, 7u32), hl(6u32, 17u32, 15u32, 13u32, 3u32, 11u32), hl(2u32, 1u32, 12u32, 14u32, 3u32, 1u32), hl(3u32, 2u32, 17u32, 19u32, 4u32, 2u32), hl(2u32, 14u32, 18u32, 16u32, 4u32, 11u32), hl(6u32, 6u32, 19u32, 17u32, 4u32, 6u32), hl(7u32, 10u32, 16u32, 18u32, 4u32, 9u32), hl(4u32, 4u32, 21u32, 23u32, 5u32, 4u32), hl(5u32, 12u32, 22u32, 20u32, 5u32, 10u32), hl(1u32, 0u32, 23u32, 21u32, 5u32, 0u32), hl(0u32, 8u32, 20u32, 22u32, 5u32, 8u32)];
    let pe23 = seq![HalfEdgeId(0u32), HalfEdgeId(1u32), HalfEdgeId(2u32), HalfEdgeId(3u32), HalfEdgeId(4u32), HalfEdgeId(5u32), HalfEdgeId(6u32), HalfEdgeId(7u32), HalfEdgeId(8u32), HalfEdgeId(10u32), HalfEdgeId(12u32), HalfEdgeId(14u32)];
    let pb23 = Seq::<usize>::empty();
    let pl24 = seq![hl(0u32, 22u32, 1u32, 3u32, 0u32, 0u32), hl(1u32, 15u32, 2u32, 0u32, 0u32, 1u32), hl(2u32, 16u32, 3u32, 1u32, 0u32, 2u32), hl(3u32, 9u32, 0u32, 2u32, 0u32, 3u32), hl(5u32, 20u32, 5u32, 7u32, 1u32, 4u32), hl(4u32, 11u32, 6u32, 4u32, 1u32, 5u32), hl(7u32, 18u32, 7u32, 5u32, 1u32, 6u32), hl(6u32, 13u32, 4u32, 6u32, 1u32, 7u32), hl(4u32, 23u32, 9u32, 11u32, 2u32, 8u32), hl(0u32, 3u32, 10u32, 8u32, 2u32, 3u32), hl(3u32, 19u32, 11u32, 9u32, 2u32, 9u32), hl(7u32, 5u32, 8u32, 10u32, 2u32, 5u32), hl(1u32, 21u32, 13u32, 15u32, 3u32, 10u32), hl(5u32, 7u32, 14u32, 12u32, 3u32, 7u32), hl(6u32, 17u32, 15u32, 13u32, 3u32, 11u32), hl(2u32, 1u32, 12u32, 14u32, 3u32, 1u32), hl(3u32, 2u32, 17u32, 19u32, 4u32, 2u32), hl(2u32, 14u32, 18u32, 16u32, 4u32, 11u32), hl(6u32, 6u32, 19u32, 17u32, 4u32, 6u32), hl(7u32, 10u32, 16u32, 18u32, 4u32, 9u32), hl(4u32, 4u32, 21u32, 23u32, 5u32, 4u32), hl(5u32, 12u32, 22u32, 20u32, 5u32, 10u32), hl(1u32, 0u32, 23u32, 21u32, 5u32, 0u32), hl(0u32, 8u32, 20u32, 22u32, 5u32, 8u32)];
    let pe24 = seq![HalfEdgeId(0u32), HalfEdgeId(1u32), HalfEdgeId(2u32), HalfEdgeId(3u32), HalfEdgeId(4u32), HalfEdgeId(5u32), HalfEdgeId(6u32), HalfEdgeId(7u32), HalfEdgeId(8u32), HalfEdgeId(10u32), HalfEdgeId(12u32), HalfEdgeId(14u32)];
    let pb24 = Seq::<usize>::empty();
    assert(pair_run(pl24, keys, pe24, pb24, 24) == Some((pl24, pe24, pb24)));
    assert(pair_run(pl23, keys, pe23, pb23, 23) == pair_run(pl24, keys, pe24, pb24, 24));
    assert(pair_run(pl22, keys, pe22, pb22, 22) == pair_run(pl23, keys, pe23, pb23, 23));
    assert(pair_run(pl21, keys, pe21, pb21, 21) == pair_run(pl22, keys, pe22, pb22, 22));
    assert(pair_run(pl20, keys, pe20, pb20, 20) == pair_run(pl21, keys, pe21, pb21, 21));
    assert(pair_run(pl19, keys, pe19, pb19, 19) == pair_run(pl20, keys, pe20, pb20, 20));
    assert(pair_run(pl18, keys, pe18, pb18, 18) == pair_run(pl19, keys, pe19, pb19, 19));
    assert(pair_run(pl17, keys, pe17, pb17, 17) == pair_run(pl18, keys, pe18, pb18, 18));
    assert(pair_run(pl16, keys, pe16, pb16, 16) == pair_run(pl17, keys, pe17, pb17, 17));
    assert(pair_run(pl15, keys, pe15, pb15, 15) == pair_run(pl16, keys, pe16, pb16, 16));
    assert(pl14.update(14, HalfEdgeLinks { twin: HalfEdgeId(17 as u32), edge: EdgeId(11 as u32), ..pl14[14] }).update(17, HalfEdgeLinks { twin: HalfEdgeId(14 as u32), edge: EdgeId(11 as u32), ..pl14.update(14, HalfEdgeLinks { twin: HalfEdgeId(17 as u32), edge: EdgeId(11 as u32), ..pl14[14] })[17] }) =~= pl15);
    assert(pe14.push(HalfEdgeId(14 as u32)) =~= pe15);
    assert(pair_run(pl14, keys, pe14, pb14, 14) == pair_run(pl15, keys, pe15, pb15, 15));
    assert(pair_run(pl13, keys, pe13, pb13, 13) == pair_run(pl14, keys, pe14, pb14, 14));
    assert(pl12.update(12, HalfEdgeLinks { twin: HalfEdgeId(21 as u32), edge: EdgeId(10 as u32), ..pl12[12] }).update(21, HalfEdgeLinks { twin: HalfEdgeId(12 as u32), edge: EdgeId(10 as u32), ..pl12.update(12, HalfEdgeLinks { twin: HalfEdgeId(21 as u32), edge: EdgeId(10 as u32), ..pl12[12] })[21] }) =~= pl13);
    assert(pe12.push(HalfEdgeId(12 as u32)) =~= pe13);
    assert(pair_run(pl12, keys, pe12, pb12, 12) == pair_run(pl13, keys, pe13, pb13, 13));
    assert(pair_run(pl11, keys, pe11, pb11, 11) == pair_run(pl12, keys, pe12, pb12, 12));
    assert(pl10.update(10, HalfEdgeLinks { twin: HalfEdgeId(19 as u32), edge: EdgeId(9 as u32), ..pl10[10] }).update(19, HalfEdgeLinks { twin: HalfEdgeId(10 as u32), edge: EdgeId(9 as u32), ..pl10.update(10, HalfEdgeLinks { twin: HalfEdgeId(19 as u32), edge: EdgeId(9 as u32), ..pl10[10] })[19] }) =~= pl11);
    assert(pe10.push(HalfEdgeId(10 as u32)) =~= pe11);
    assert(pair_run(pl10, keys, pe10, pb10, 10) == pair_run(pl11, keys, pe11, pb11, 11));
    assert(pair_run(pl9, keys, pe9, pb9, 9) == pair_run(pl10, keys, pe10, pb10, 10));
    assert(pl8.update(8, HalfEdgeLinks { twin: HalfEdgeId(23 as u32), edge: EdgeId(8 as u32), ..pl8[8] }).update(23, HalfEdgeLinks { twin: HalfEdgeId(8 as u32), edge: EdgeId(8 as u32), ..pl8.update(8, HalfEdgeLinks { twin: HalfEdgeId(23 as u32), edge: EdgeId(8 as u32), ..pl8[8] })[23] }) =~= pl9);
    assert(pe8.push(HalfEdgeId(8 as u32)) =~= pe9);
    assert(pair_run(pl8, keys, pe8, pb8, 8) == pair_run(pl9, keys, pe9, pb9, 9));
    assert(pl7.update(7, HalfEdgeLinks { twin: HalfEdgeId(13 as u32), edge: EdgeId(7 as u32), ..pl7[7] }).update(13, HalfEdgeLinks { twin: HalfEdgeId(7 as u32), edge: EdgeId(7 as u32), ..pl7.update(7, HalfEdgeLinks { twin: HalfEdgeId(13 as u32), edge: EdgeId(7 as u32), ..pl7[7] })[13] }) =~= pl8);
    assert(pe7.push(HalfEdgeId(7 as u32)) =~= pe8);
    assert(pair_run(pl7, keys, pe7, pb7, 7) == pair_run(pl8, keys, pe8, pb8, 8));
    assert(pl6.update(6, HalfEdgeLinks { twin: HalfEdgeId(18 as u32), edge: EdgeId(6 as u32), ..pl6[6] }).update(18, HalfEdgeLinks { twin: HalfEdgeId(6 as u32), edge: EdgeId(6 as u32), ..pl6.update(6, HalfEdgeLinks { twin: HalfEdgeId(18 as u32), edge: EdgeId(6 as u32), ..pl6[6] })[18] }) =~= pl7);
    assert(pe6.push(HalfEdgeId(6 as u32)) =~= pe7);
    assert(pair_run(pl6, keys, pe6, pb6, 6) == pair_run(pl7, keys, pe7, pb7, 7));
    assert(pl5.update(5, HalfEdgeLinks { twin: HalfEdgeId(11 as u32), edge: EdgeId(5 as u32), ..pl5[5] }).update(11, HalfEdgeLinks { twin: HalfEdgeId(5 as u32), edge: EdgeId(5 as u32), ..pl5.update(5, HalfEdgeLinks { twin: HalfEdgeId(11 as u32), edge: EdgeId(5 as u32), ..pl5[5] })[11] }) =~= pl6);
    assert(pe5.push(HalfEdgeId(5 as u32)) =~= pe6);
    assert(pair_run(pl5, keys, pe5, pb5, 5) == pair_run(pl6, keys, pe6, pb6, 6));
    assert(pl4.update(4, HalfEdgeLinks { twin: HalfEdgeId(20 as u32), edge: EdgeId(4 as u32), ..pl4[4] }).update(20, HalfEdgeLinks { twin: HalfEdgeId(4 as u32), edge: EdgeId(4 as u32), ..pl4.update(4, HalfEdgeLinks { twin: HalfEdgeId(20 as u32), edge: EdgeId(4 as u32), ..pl4[4] })[20] }) =~= pl5);
    assert(pe4.push(HalfEdgeId(4 as u32)) =~= pe5);
    assert(pair_run(pl4, keys, pe4, pb4, 4) == pair_run(pl5, keys, pe5, pb5, 5));
    assert(pl3.update(3, HalfEdgeLinks { twin: HalfEdgeId(9 as u32), edge: EdgeId(3 as u32), ..pl3[3] }).update(9, HalfEdgeLinks { twin: HalfEdgeId(3 as u32), edge: EdgeId(3 as u32), ..pl3.update(3, HalfEdgeLinks { twin: HalfEdgeId(9 as u32), edge: EdgeId(3 as u32), ..pl3[3] })[9] }) =~= pl4);
    assert(pe3.push(HalfEdgeId(3 as u32)) =~= pe4);
    assert(pair_run(pl3, keys, pe3, pb3, 3) == pair_run(pl4, keys, pe4, pb4, 4));
    assert(pl2.update(2, HalfEdgeLinks { twin: HalfEdgeId(16 as u32), edge: EdgeId(2 as u32), ..pl2[2] }).update(16, HalfEdgeLinks { twin: HalfEdgeId(2 as u32), edge: EdgeId(2 as u32), ..pl2.update(2, HalfEdgeLinks { twin: HalfEdgeId(16 as u32), edge: EdgeId(2 as u32), ..pl2[2] })[16] }) =~= pl3);
    assert(pe2.push(HalfEdgeId(2 as u32)) =~= pe3);
    assert(pair_run(pl2, keys, pe2, pb2, 2) == pair_run(pl3, keys, pe3, pb3, 3));
    assert(pl1.update(1, HalfEdgeLinks { twin: HalfEdgeId(15 as u32), edge: EdgeId(1 as u32), ..pl1[1] }).update(15, HalfEdgeLinks { twin: HalfEdgeId(1 as u32), edge: EdgeId(1 as u32), ..pl1.update(1, HalfEdgeLinks { twin: HalfEdgeId(15 as u32), edge: EdgeId(1 as u32), ..pl1[1] })[15] }) =~= pl2);
    assert(pe1.push(HalfEdgeId(1 as u32)) =~= pe2);
    assert(pair_run(pl1, keys, pe1, pb1, 1) == pair_run(pl2, keys, pe2, pb2, 2));
    assert(pl0.update(0, HalfEdgeLinks { twin: HalfEdgeId(22 as u32), edge: EdgeId(0 as u32), ..pl0[0] }).update(22, HalfEdgeLinks { twin: HalfEdgeId(0 as u32), edge: EdgeId(0 as u32), ..pl0.update(0, HalfEdgeLinks { twin: HalfEdgeId(22 as u32), edge: EdgeId(0 as u32), ..pl0[0] })[22] }) =~= pl1);
    assert(pe0.push(HalfEdgeId(0 as u32)) =~= pe1);
    assert(pair_run(pl0, keys, pe0, pb0, 0) == pair_run(pl1, keys, pe1, pb1, 1));
    assert(pl0 =~= l0);
    assert(pe0 =~= Seq::<HalfEdgeId>::empty());
    assert(pb0 =~= Seq::<usize>::empty());
}

#[verifier::spinoff_prover]
#[verifier::rlimit(60)]
proof fn lemma_cube_walks<L>()
    ensures
        walks_found(cube_paired(), cube_open_sides()),
        walk_successors(cube_paired(), cube_open_sides()) == cube_successors(),
{
    let pl24 = seq![hl(0u32, 22u32, 1u32, 3u32, 0u32, 0u32), hl(1u32, 15u32, 2u32, 0u32, 0u32, 1u32), hl(2u32, 16u32, 3u32, 1u32, 0u32, 2u32), hl(3u32, 9u32, 0u32, 2u32, 0u32, 3u32), hl(5u32, 20u32, 5u32, 7u32, 1u32, 4u32), hl(4u32, 11u32, 6u32, 4u32, 1u32, 5u32), hl(7u32, 18u32, 7u32, 5u32, 1u32, 6u32), hl(6u32, 13u32, 4u32, 6u32, 1u32, 7u32), hl(4u32, 23u32, 9u32, 11u32, 2u32, 8u32), hl(0u32, 3u32, 10u32, 8u32, 2u32, 3u32), hl(3u32, 19u32, 11u32, 9u32, 2u32, 9u32), hl(7u32, 5u32, 8u32, 10u32, 2u32, 5u32), hl(1u32, 21u32, 13u32, 15u32, 3u32, 10u32), hl(5u32, 7u32, 14u32, 12u32, 3u32, 7u32), hl(6u32, 17u32, 15u32, 13u32, 3u32, 11u32), hl(2u32, 1u32, 12u32, 14u32, 3u32, 1u32), hl(3u32, 2u32, 17u32, 19u32, 4u32, 2u32), hl(2u32, 14u32, 18u32, 16u32, 4u32, 11u32), hl(6u32, 6u32, 19u32, 17u32, 4u32, 6u32), hl(7u32, 10u32, 16u32, 18u32, 4u32, 9u32), hl(4u32, 4u32, 21u32, 23u32, 5u32, 4u32), hl(5u32, 12u32, 22u32, 20u32, 5u32, 10u32), hl(1u32, 0u32, 23u32, 21u32, 5u32, 0u32), hl(0u32, 8u32, 20u32, 22u32, 5u32, 8u32)];
    let pb24 = Seq::<usize>::empty();
    assert(walks_found(pl24, pb24));
    assert(walk_successors(pl24, pb24) =~= Seq::<usize>::empty());
}

#[verifier::spinoff_prover]
#[verifier::rlimit(60)]
proof fn lemma_cube_close<L>()
    ensures
        close_run(cube_outgoing(), cube_paired(), cube_pair_edges(), interior_records(shape_polygons::<L>(cube_corners())), cube_keys(), cube_open_sides(), cube_successors()) == Some((cube_topology().outgoing, cube_topology().links, cube_topology().edges, cube_topology().faces)),
{
    let fs = shape_polygons::<L>(cube_corners());
    let keys = seq![(0usize, 1usize), (1usize, 2usize), (2usize, 3usize), (3usize, 0usize), (5usize, 4usize), (4usize, 7usize), (7usize, 6usize), (6usize, 5usize), (4usize, 0usize), (0usize, 3usize), (3usize, 7usize), (7usize, 4usize), (1usize, 5usize), (5usize, 6usize), (6usize, 2usize), (2usize, 1usize), (3usize, 2usize), (2usize, 6usize), (6usize, 7usize), (7usize, 3usize), (4usize, 5usize), (5usize, 1usize), (1usize, 0usize), (0usize, 4usize)];
    let l0 = seq![hl(0u32, INVALID_INDEX, 1u32, 3u32, 0u32, INVALID_INDEX), hl(1u32, INVALID_INDEX, 2u32, 0u32, 0u32, INVALID_INDEX), hl(2u32, INVALID_INDEX, 3u32, 1u32, 0u32, INVALID_INDEX), hl(3u32, INVALID_INDEX, 0u32, 2u32, 0u32, INVALID_INDEX), hl(5u32, INVALID_INDEX, 5u32, 7u32, 1u32, INVALID_INDEX), hl(4u32, INVALID_INDEX, 6u32, 4u32, 1u32, INVALID_INDEX), hl(7u32, INVALID_INDEX, 7u32, 5u32, 1u32, INVALID_INDEX), hl(6u32, INVALID_INDEX, 4u32, 6u32, 1u32, INVALID_INDEX), hl(4u32, INVALID_INDEX, 9u32, 11u32, 2u32, INVALID_INDEX), hl(0u32, INVALID_INDEX, 10u32, 8u32, 2u32, INVALID_INDEX), hl(3u32, INVALID_INDEX, 11u32, 9u32, 2u32, INVALID_INDEX), hl(7u32, INVALID_INDEX, 8u32, 10u32, 2u32, INVALID_INDEX), hl(1u32, INVALID_INDEX, 13u32, 15u32, 3u32, INVALID_INDEX), hl(5u32, INVALID_INDEX, 14u32, 12u32, 3u32, INVALID_INDEX), hl(6u32, INVALID_INDEX, 15u32, 13u32, 3u32, INVALID_INDEX), hl(2u32, INVALID_INDEX, 12u32, 14u32, 3u32, INVALID_INDEX), hl(3u32, INVALID_INDEX, 17u32, 19u32, 4u32, INVALID_INDEX), hl(2u32, INVALID_INDEX, 18u32, 16u32, 4u32, INVALID_INDEX), hl(6u32, INVALID_INDEX, 19u32, 17u32, 4u32, INVALID_INDEX), hl(7u32, INVALID_INDEX, 16u32, 18u32, 4u32, INVALID_INDEX), hl(4u32, INVALID_INDEX, 21u32, 23u32, 5u32, INVALID_INDEX), hl(5u32, INVALID_INDEX, 22u32, 20u32, 5u32, INVALID_INDEX), hl(1u32, INVALID_INDEX, 23u32, 21u32, 5u32, INVALID_INDEX), hl(0u32, INVALID_INDEX, 20u32, 22u32, 5u32, INVALID_INDEX)];
    let pl24 = seq![hl(0u32, 22u32, 1u32, 3u32, 0u32, 0u32), hl(1u32, 15u32, 2u32, 0u32, 0u32, 1u32), hl(2u32, 16u32, 3u32, 1u32, 0u32, 2u32), hl(3u32, 9u32, 0u32, 2u32, 0u32, 3u32), hl(5u32, 20u32, 5u32, 7u32, 1u32, 4u32), hl(4u32, 11u32, 6u32, 4u32, 1u32, 5u32), hl(7u32, 18u32, 7u32, 5u32, 1u32, 6u32), hl(6u32, 13u32, 4u32, 6u32, 1u32, 7u32), hl(4u32, 23u32, 9u32, 11u32, 2u32, 8u32), hl(0u32, 3u32, 10u32, 8u32, 2u32, 3u32), hl(3u32, 19u32, 11u32, 9u32, 2u32, 9u32), hl(7u32, 5u32, 8u32, 10u32, 2u32, 5u32), hl(1u32, 21u32, 13u32, 15u32, 3u32, 10u32), hl(5u32, 7u32, 14u32, 12u32, 3u32, 7u32), hl(6u32, 17u32, 15u32, 13u32, 3u32, 11u32), hl(2u32, 1u32, 12u32, 14u32, 3u32, 1u32), hl(3u32, 2u32, 17u32, 19u32, 4u32, 2u32), hl(2u32, 14u32, 18u32, 16u32, 4u32, 11u32), hl(6u32, 6u32, 19u32, 17u32, 4u32, 6u32), hl(7u32, 10u32, 16u32, 18u32, 4u32, 9u32), hl(4u32, 4u32, 21u32, 23u32, 5u32, 4u32), hl(5u32, 12u32, 22u32, 20u32, 5u32, 10u32), hl(1u32, 0u32, 23u32, 21u32, 5u32, 0u32), hl(0u32, 8u32, 20u32, 22u32, 5u32, 8u32)];
    let pe24 = seq![HalfEdgeId(0u32), HalfEdgeId(1u32), HalfEdgeId(2u32), HalfEdgeId(3u32), HalfEdgeId(4u32), HalfEdgeId(5u32), HalfEdgeId(6u32), HalfEdgeId(7u32), HalfEdgeId(8u32), HalfEdgeId(10u32), HalfEdgeId(12u32), HalfEdgeId(14u32)];
    let pb24 = Seq::<usize>::empty();
    lemma_cube_layout::<L>();
    assert(unmatched_map(24, 0) =~= seq![24usize, 24usize, 24usize, 24usize, 24usize, 24usize, 24usize, 24usize, 24usize, 24usize, 24usize, 24usize, 24usize, 24usize, 24usize, 24usize, 24usize, 24usize, 24usize, 24usize, 24usize, 24usize, 24usize, 24usize]);
    let go0 = seq![HalfEdgeId(0u32), HalfEdgeId(1u32), HalfEdgeId(2u32), HalfEdgeId(3u32), HalfEdgeId(5u32), HalfEdgeId(4u32), HalfEdgeId(7u32), HalfEdgeId(6u32)];
    let gl0 = seq![hl(0u32, 22u32, 1u32, 3u32, 0u32, 0u32), hl(1u32, 15u32, 2u32, 0u32, 0u32, 1u32), hl(2u32, 16u32, 3u32, 1u32, 0u32, 2u32), hl(3u32, 9u32, 0u32, 2u32, 0u32, 3u32), hl(5u32, 20u32, 5u32, 7u32, 1u32, 4u32), hl(4u32, 11u32, 6u32, 4u32, 1u32, 5u32), hl(7u32, 18u32, 7u32, 5u32, 1u32, 6u32), hl(6u32, 13u32, 4u32, 6u32, 1u32, 7u32), hl(4u32, 23u32, 9u32, 11u32, 2u32, 8u32), hl(0u32, 3u32, 10u32, 8u32, 2u32, 3u32), hl(3u32, 19u32, 11u32, 9u32, 2u32, 9u32), hl(7u32, 5u32, 8u32, 10u32, 2u32, 5u32), hl(1u32, 21u32, 13u32, 15u32, 3u32, 10u32), hl(5u32, 7u32, 14u32, 12u32, 3u32, 7u32), hl(6u32, 17u32, 15u32, 13u32, 3u32, 11u32), hl(2u32, 1u32, 12u32, 14u32, 3u32, 1u32), hl(3u32, 2u32, 17u32, 19u32, 4u32, 2u32), hl(2u32, 14u32, 18u32, 16u32, 4u32, 11u32), hl(6u32, 6u32, 19u32, 17u32, 4u32, 6u32), hl(7u32, 10u32, 16u32, 18u32, 4u32, 9u32), hl(4u32, 4u32, 21u32, 23u32, 5u32, 4u32), hl(5u32, 12u32, 22u32, 20u32, 5u32, 10u32), hl(1u32, 0u32, 23u32, 21u32, 5u32, 0u32), hl(0u32, 8u32, 20u32, 22u32, 5u32, 8u32)];
    let ge0 = seq![HalfEdgeId(0u32), HalfEdgeId(1u32), HalfEdgeId(2u32), HalfEdgeId(3u32), HalfEdgeId(4u32), HalfEdgeId(5u32), HalfEdgeId(6u32), HalfEdgeId(7u32), HalfEdgeId(8u32), HalfEdgeId(10u32), HalfEdgeId(12u32), HalfEdgeId(14u32)];
    let gm0 = seq![24usize, 24usize, 24usize, 24usize, 24usize, 24usize, 24usize, 24usize, 24usize, 24usize, 24usize, 24usize, 24usize, 24usize, 24usize, 24usize, 24usize, 24usize, 24usize, 24usize, 24usize, 24usize, 24usize, 24usize];
    assert(ghosts_run((go0, gl0, ge0, gm0), keys, pb24, 0) == (go0, gl0, ge0, gm0));
    assert(go0 =~= first_outgoing(no_outgoing(8), l0, 24));
    let nl0 = seq![hl(0u32, 22u32, 1u32, 3u32, 0u32, 0u32), hl(1u32, 15u32, 2u32, 0u32, 0u32, 1u32), hl(2u32, 16u32, 3u32, 1u32, 0u32, 2u32), hl(3u32, 9u32, 0u32, 2u32, 0u32, 3u32), hl(5u32, 20u32, 5u32, 7u32, 1u32, 4u32), hl(4u32, 11u32, 6u32, 4u32, 1u32, 5u32), hl(7u32, 18u32, 7u32, 5u32, 1u32, 6u32), hl(6u32, 13u32, 4u32, 6u32, 1u32, 7u32), hl(4u32, 23u32, 9u32, 11u32, 2u32, 8u32), hl(0u32, 3u32, 10u32, 8u32, 2u32, 3u32), hl(3u32, 19u32, 11u32, 9u32, 2u32, 9u32), hl(7u32, 5u32, 8u32, 10u32, 2u32, 5u32), hl(1u32, 21u32, 13u32, 15u32, 3u32, 10u32), hl(5u32, 7u32, 14u32, 12u32, 3u32, 7u32), hl(6u32, 17u32, 15u32, 13u32, 3u32, 11u32), hl(2u32, 1u32, 12u32, 14u32, 3u32, 1u32), hl(3u32, 2u32, 17u32, 19u32, 4u32, 2u32), hl(2u32, 14u32, 18u32, 16u32, 4u32, 11u32), hl(6u32, 6u32, 19u32, 17u32, 4u32, 6u32), hl(7u32, 10u32, 16u32, 18u32, 4u32, 9u32), hl(4u32, 4u32, 21u32, 23u32, 5u32, 4u32), hl(5u32, 12u32, 22u32, 20u32, 5u32, 10u32), hl(1u32, 0u32, 23u32, 21u32, 5u32, 0u32), hl(0u32, 8u32, 20u32, 22u32, 5u32, 8u32)];
    assert(nexts_run(nl0, gm0, pb24, Seq::<usize>::empty(), 0) == Some(nl0));
    assert(nl0 =~= gl0);
    let fl0 = seq![hl(0u32, 22u32, 1u32, 3u32, 0u32, 0u32), hl(1u32, 15u32, 2u32, 0u32, 0u32, 1u32), hl(2u32, 16u32, 3u32, 1u32, 0u32, 2u32), hl(3u32, 9u32, 0u32, 2u32, 0u32, 3u32), hl(5u32, 20u32, 5u32, 7u32, 1u32, 4u32), hl(4u32, 11u32, 6u32, 4u32, 1u32, 5u32), hl(7u32, 18u32, 7u32, 5u32, 1u32, 6u32), hl(6u32, 13u32, 4u32, 6u32, 1u32, 7u32), hl(4u32, 23u32, 9u32, 11u32, 2u32, 8u32), hl(0u32, 3u32, 10u32, 8u32, 2u32, 3u32), hl(3u32, 19u32, 11u32, 9u32, 2u32, 9u32), hl(7u32, 5u32, 8u32, 10u32, 2u32, 5u32), hl(1u32, 21u32, 13u32, 15u32, 3u32, 10u32), hl(5u32, 7u32, 14u32, 12u32, 3u32, 7u32), hl(6u32, 17u32, 15u32, 13u32, 3u32, 11u32), hl(2u32, 1u32, 12u32, 14u32, 3u32, 1u32), hl(3u32, 2u32, 17u32, 19u32, 4u32, 2u32), hl(2u32, 14u32, 18u32, 16u32, 4u32, 11u32), hl(6u32, 6u32, 19u32, 17u32, 4u32, 6u32), hl(7u32, 10u32, 16u32, 18u32, 4u32, 9u32), hl(4u32, 4u32, 21u32, 23u32, 5u32, 4u32), hl(5u32, 12u32, 22u32, 20u32, 5u32, 10u32), hl(1u32, 0u32, 23u32, 21u32, 5u32, 0u32), hl(0u32, 8u32, 20u32, 22u32, 5u32, 8u32)];
    let fv0 = seq![false, false, false, false, false, false, false, false, false, false, false, false, false, false, false, false, false, false, false, false, false, false, false, false];
    let fr0 = seq![FaceRecord { halfedge: HalfEdgeId(0u32), kind: FaceKind::Interior, data: FacePayload { material: None, region: None } }, FaceRecord { halfedge: HalfEdgeId(4u32), kind: FaceKind::Interior, data: FacePayload { material: None, region: None } }, FaceRecord { halfedge: HalfEdgeId(8u32), kind: FaceKind::Interior, data: FacePayload { material: None, region: None } }, FaceRecord { halfedge: HalfEdgeId(12u32), kind: FaceKind::Interior, data: FacePayload { material: None, region: None } }, FaceRecord { halfedge: HalfEdgeId(16u32), kind: FaceKind::Interior, data: FacePayload { material: None, region: None } }, FaceRecord { halfedge: HalfEdgeId(20u32), kind: FaceKind::Interior, data: FacePayload { material: None, region: None } }];
    assert(faces_run(fl0, fv0, fr0, 0, 24, 0) == Some((fl0, fr0)));
    assert(fl0 =~= nl0);
    assert(fv0 =~= unvisited(24));
    assert(fr0 =~= interior_records(fs));
    assert(close_run(go0, pl24, pe24, interior_records(fs), keys, pb24, Seq::<usize>::empty()) == Some((go0, fl0, ge0, fr0)));
}

#[verifier::spinoff_prover]
#[verifier::rlimit(60)]
proof fn lemma_cube_valid<L>()
    ensures
        cube_topology().valid(),
{
    let t = cube_topology();
    assert forall|v: int| 0 <= v < 8 && (#[trigger] t.outgoing[v]).valid() implies t.outgoing[v].idx() < t.nh() && t.links[t.outgoing[v].idx()].origin.idx() == v by {
        if v == 0 { assert(t.outgoing[0] == HalfEdgeId(0u32)); }
        if v == 1 { assert(t.outgoing[1] == HalfEdgeId(1u32)); }
        if v == 2 { assert(t.outgoing[2] == HalfEdgeId(2u32)); }
        if v == 3 { assert(t.outgoing[3] == HalfEdgeId(3u32)); }
        if v == 4 { assert(t.outgoing[4] == HalfEdgeId(5u32)); }
        if v == 5 { assert(t.outgoing[5] == HalfEdgeId(4u32)); }
        if v == 6 { assert(t.outgoing[6] == HalfEdgeId(7u32)); }
        if v == 7 { assert(t.outgoing[7] == HalfEdgeId(6u32)); }
    }
    assert forall|e: int| 0 <= e < 12 implies (#[trigger] t.edges[e]).idx() < t.nh() && t.links[t.edges[e].idx()].edge.idx() == e by {
        if e == 0 { assert(t.edges[0] == HalfEdgeId(0u32)); }
        if e == 1 { assert(t.edges[1] == HalfEdgeId(1u32)); }
        if e == 2 { assert(t.edges[2] == HalfEdgeId(2u32)); }
        if e == 3 { assert(t.edges[3] == HalfEdgeId(3u32)); }
        if e == 4 { assert(t.edges[4] == HalfEdgeId(4u32)); }
        if e == 5 { assert(t.edges[5] == HalfEdgeId(5u32)); }
        if e == 6 { assert(t.edges[6] == HalfEdgeId(6u32)); }
        if e == 7 { assert(t.edges[7] == HalfEdgeId(7u32)); }
        if e == 8 { assert(t.edges[8] == HalfEdgeId(8u32)); }
        if e == 9 { assert(t.edges[9] == HalfEdgeId(10u32)); }
        if e == 10 { assert(t.edges[10] == HalfEdgeId(12u32)); }
        if e == 11 { assert(t.edges[11] == HalfEdgeId(14u32)); }
    }
    assert forall|f: int| 0 <= f < 6 implies (#[trigger] t.faces[f]).halfedge.idx() < t.nh() && t.links[t.faces[f].halfedge.idx()].face.idx() == f by {
        if f == 0 { assert(t.faces[0].halfedge == HalfEdgeId(0u32)); }
        if f == 1 { assert(t.faces[1].halfedge == HalfEdgeId(4u32)); }
        if f == 2 { assert(t.faces[2].halfedge == HalfEdgeId(8u32)); }
        if f == 3 { assert(t.faces[3].halfedge == HalfEdgeId(12u32)); }
        if f == 4 { assert(t.faces[4].halfedge == HalfEdgeId(16u32)); }
        if f == 5 { assert(t.faces[5].halfedge == HalfEdgeId(20u32)); }
    }
    assert forall|h: int| 0 <= h < 24 implies #[trigger] t.link_ok(h) by {
        if h == 0 { assert(t.links[0] == hl(0u32, 22u32, 1u32, 3u32, 0u32, 0u32)); }
        if h == 1 { assert(t.links[1] == hl(1u32, 15u32, 2u32, 0u32, 0u32, 1u32)); }
        if h == 2 { assert(t.links[2] == hl(2u32, 16u32, 3u32, 1u32, 0u32, 2u32)); }
        if h == 3 { assert(t.links[3] == hl(3u32, 9u32, 0u32, 2u32, 0u32, 3u32)); }
        if h == 4 { assert(t.links[4] == hl(5u32, 20u32, 5u32, 7u32, 1u32, 4u32)); }
        if h == 5 { assert(t.links[5] == hl(4u32, 11u32, 6u32, 4u32, 1u32, 5u32)); }
        if h == 6 { assert(t.links[6] == hl(7u32, 18u32, 7u32, 5u32, 1u32, 6u32)); }
        if h == 7 { assert(t.links[7] == hl(6u32, 13u32, 4u32, 6u32, 1u32, 7u32)); }
        if h == 8 { assert(t.links[8] == hl(4u32, 23u32, 9u32, 11u32, 2u32, 8u32)); }
        if h == 9 { assert(t.links[9] == hl(0u32, 3u32, 10u32, 8u32, 2u32, 3u32)); }
        if h == 10 { assert(t.links[10] == hl(3u32, 19u32, 11u32, 9u32, 2u32, 9u32)); }
        if h == 11 { assert(t.links[11] == hl(7u32, 5u32, 8u32, 10u32, 2u32, 5u32)); }
        if h == 12 { assert(t.links[12] == hl(1u32, 21u32, 13u32, 15u32, 3u32, 10u32)); }
        if h == 13 { assert(t.links[13] == hl(5u32, 7u32, 14u32, 12u32, 3u32, 7u32)); }
        if h == 14 { assert(t.links[14] == hl(6u32, 17u32, 15u32, 13u32, 3u32, 11u32)); }
        if h == 15 { assert(t.links[15] == hl(2u32, 1u32, 12u32, 14u32, 3u32, 1u32)); }
        if h == 16 { assert(t.links[16] == hl(3u32, 2u32, 17u32, 19u32, 4u32, 2u32)); }
        if h == 17 { assert(t.links[17] == hl(2u32, 14u32, 18u32, 16u32, 4u32, 11u32)); }
        if h == 18 { assert(t.links[18] == hl(6u32, 6u32, 19u32, 17u32, 4u32, 6u32)); }
        if h == 19 { assert(t.links[19] == hl(7u32, 10u32, 16u32, 18u32, 4u32, 9u32)); }
        if h == 20 { assert(t.links[20] == hl(4u32, 4u32, 21u32, 23u32, 5u32, 4u32)); }
        if h == 21 { assert(t.links[21] == hl(5u32, 12u32, 22u32, 20u32, 5u32, 10u32)); }
        if h == 22 { assert(t.links[22] == hl(1u32, 0u32, 23u32, 21u32, 5u32, 0u32)); }
        if h == 23 { assert(t.links[23] == hl(0u32, 8u32, 20u32, 22u32, 5u32, 8u32)); }
    }
    assert(walk(t.links, HalfEdgeId(0u32), HalfEdgeId(3u32), 21, false) =~= seq![HalfEdgeId(3u32)]);
    assert(walk(t.links, HalfEdgeId(0u32), HalfEdgeId(2u32), 22, false) =~= seq![HalfEdgeId(2u32), HalfEdgeId(3u32)]);
    assert(walk(t.links, HalfEdgeId(0u32), HalfEdgeId(1u32), 23, false) =~= seq![HalfEdgeId(1u32), HalfEdgeId(2u32), HalfEdgeId(3u32)]);
    assert(walk(t.links, HalfEdgeId(0u32), HalfEdgeId(0u32), 24, false) =~= seq![HalfEdgeId(0u32), HalfEdgeId(1u32), HalfEdgeId(2u32), HalfEdgeId(3u32)]);
    assert(t.face_loop(0) =~= seq![HalfEdgeId(0u32), HalfEdgeId(1u32), HalfEdgeId(2u32), HalfEdgeId(3u32)]);
    assert(walk(t.links, HalfEdgeId(4u32), HalfEdgeId(7u32), 21, false) =~= seq![HalfEdgeId(7u32)]);
    assert(walk(t.links, HalfEdgeId(4u32), HalfEdgeId(6u32), 22, false) =~= seq![HalfEdgeId(6u32), HalfEdgeId(7u32)]);
    assert(walk(t.links, HalfEdgeId(4u32), HalfEdgeId(5u32), 23, false) =~= seq![HalfEdgeId(5u32), HalfEdgeId(6u32), HalfEdgeId(7u32)]);
    assert(walk(t.links, HalfEdgeId(4u32), HalfEdgeId(4u32), 24, false) =~= seq![HalfEdgeId(4u32), HalfEdgeId(5u32), HalfEdgeId(6u32), HalfEdgeId(7u32)]);
    assert(t.face_loop(1) =~= seq![HalfEdgeId(4u32), HalfEdgeId(5u32), HalfEdgeId(6u32), HalfEdgeId(7u32)]);
    assert(walk(t.links, HalfEdgeId(8u32), HalfEdgeId(11u32), 21, false) =~= seq![HalfEdgeId(11u32)]);
    assert(walk(t.links, HalfEdgeId(8u32), HalfEdgeId(10u32), 22, false) =~= seq![HalfEdgeId(10u32), HalfEdgeId(11u32)]);
    assert(walk(t.links, HalfEdgeId(8u32), HalfEdgeId(9u32), 23, false) =~= seq![HalfEdgeId(9u32), HalfEdgeId(10u32), HalfEdgeId(11u32)]);
    assert(walk(t.links, HalfEdgeId(8u32), HalfEdgeId(8u32), 24, false) =~= seq![HalfEdgeId(8u32), HalfEdgeId(9u32), HalfEdgeId(10u32), HalfEdgeId(11u32)]);
    assert(t.face_loop(2) =~= seq![HalfEdgeId(8u32), HalfEdgeId(9u32), HalfEdgeId(10u32), HalfEdgeId(11u32)]);
    assert(walk(t.links, HalfEdgeId(12u32), HalfEdgeId(15u32), 21, false) =~= seq![HalfEdgeId(15u32)]);
    assert(walk(t.links, HalfEdgeId(12u32), HalfEdgeId(14u32), 22, false) =~= seq![HalfEdgeId(14u32), HalfEdgeId(15u32)]);
    assert(walk(t.links, HalfEdgeId(12u32), HalfEdgeId(13u32), 23, false) =~= seq![HalfEdgeId(13u32), HalfEdgeId(14u32), HalfEdgeId(15u32)]);
    assert(walk(t.links, HalfEdgeId(12u32), HalfEdgeId(12u32), 24, false) =~= seq![HalfEdgeId(12u32), HalfEdgeId(13u32), HalfEdgeId(14u32), HalfEdgeId(15u32)]);
    assert(t.face_loop(3) =~= seq![HalfEdgeId(12u32), HalfEdgeId(13u32), HalfEdgeId(14u32), HalfEdgeId(15u32)]);
    assert(walk(t.links, HalfEdgeId(16u32), HalfEdgeId(19u32), 21, false) =~= seq![HalfEdgeId(19u32)]);
    assert(walk(t.links, HalfEdgeId(16u32), HalfEdgeId(18u32), 22, false) =~= seq![HalfEdgeId(18u32), HalfEdgeId(19u32)]);
    assert(walk(t.links, HalfEdgeId(16u32), HalfEdgeId(17u32), 23, false) =~= seq![HalfEdgeId(17u32), HalfEdgeId(18u32), HalfEdgeId(19u32)]);
    assert(walk(t.links, HalfEdgeId(16u32), HalfEdgeId(16u32), 24, false) =~= seq![HalfEdgeId(16u32), HalfEdgeId(17u32), HalfEdgeId(18u32), HalfEdgeId(19u32)]);
    assert(t.face_loop(4) =~= seq![HalfEdgeId(16u32), HalfEdgeId(17u32), HalfEdgeId(18u32), HalfEdgeId(19u32)]);
    assert(walk(t.links, HalfEdgeId(20u32), HalfEdgeId(23u32), 21, false) =~= seq![HalfEdgeId(23u32)]);
    assert(walk(t.links, HalfEdgeId(20u32), HalfEdgeId(22u32), 22, false) =~= seq![HalfEdgeId(22u32), HalfEdgeId(23u32)]);
    assert(walk(t.links, HalfEdgeId(20u32), HalfEdgeId(21u32), 23, false) =~= seq![HalfEdgeId(21u32), HalfEdgeId(22u32), HalfEdgeId(23u32)]);
    assert(walk(t.links, HalfEdgeId(20u32), HalfEdgeId(20u32), 24, false) =~= seq![HalfEdgeId(20u32), HalfEdgeId(21u32), HalfEdgeId(22u32), HalfEdgeId(23u32)]);
    assert(t.face_loop(5) =~= seq![HalfEdgeId(20u32), HalfEdgeId(21u32), HalfEdgeId(22u32), HalfEdgeId(23u32)]);
    assert forall|f: int| 0 <= f < 6 implies #[trigger] t.loop_ok(f) by {
        if f == 0 { assert(t.face_loop(0) =~= seq![HalfEdgeId(0u32), HalfEdgeId(1u32), HalfEdgeId(2u32), HalfEdgeId(3u32)]); }
        if f == 1 { assert(t.face_loop(1) =~= seq![HalfEdgeId(4u32), HalfEdgeId(5u32), HalfEdgeId(6u32), HalfEdgeId(7u32)]); }
        if f == 2 { assert(t.face_loop(2) =~= seq![HalfEdgeId(8u32), HalfEdgeId(9u32), HalfEdgeId(10u32), HalfEdgeId(11u32)]); }
        if f == 3 { assert(t.face_loop(3) =~= seq![HalfEdgeId(12u32), HalfEdgeId(13u32), HalfEdgeId(14u32), HalfEdgeId(15u32)]); }
        if f == 4 { assert(t.face_loop(4) =~= seq![HalfEdgeId(16u32), HalfEdgeId(17u32), HalfEdgeId(18u32), HalfEdgeId(19u32)]); }
        if f == 5 { assert(t.face_loop(5) =~= seq![HalfEdgeId(20u32), HalfEdgeId(21u32), HalfEdgeId(22u32), HalfEdgeId(23u32)]); }
    }
    assert forall|e: int| 0 <= e < 12 implies #[trigger] t.links[t.edges[e].idx()].face != t.links[t.links[t.edges[e].idx()].twin.idx()].face by {
        if e == 0 { assert(t.edges[0] == HalfEdgeId(0u32)); }
        if e == 1 { assert(t.edges[1] == HalfEdgeId(1u32)); }
        if e == 2 { assert(t.edges[2] == HalfEdgeId(2u32)); }
        if e == 3 { assert(t.edges[3] == HalfEdgeId(3u32)); }
        if e == 4 { assert(t.edges[4] == HalfEdgeId(4u32)); }
        if e == 5 { assert(t.edges[5] == HalfEdgeId(5u32)); }
        if e == 6 { assert(t.edges[6] == HalfEdgeId(6u32)); }
        if e == 7 { assert(t.edges[7] == HalfEdgeId(7u32)); }
        if e == 8 { assert(t.edges[8] == HalfEdgeId(8u32)); }
        if e == 9 { assert(t.edges[9] == HalfEdgeId(10u32)); }
        if e == 10 { assert(t.edges[10] == HalfEdgeId(12u32)); }
        if e == 11 { assert(t.edges[11] == HalfEdgeId(14u32)); }
    }
    let oc0 = Seq::<HalfEdgeLinks>::empty();
    let oc1 = seq![hl(0u32, 22u32, 1u32, 3u32, 0u32, 0u32)];
    let oc2 = seq![hl(0u32, 22u32, 1u32, 3u32, 0u32, 0u32), hl(1u32, 15u32, 2u32, 0u32, 0u32, 1u32)];
    let oc3 = seq![hl(0u32, 22u32, 1u32, 3u32, 0u32, 0u32), hl(1u32, 15u32, 2u32, 0u32, 0u32, 1u32), hl(2u32, 16u32, 3u32, 1u32, 0u32, 2u32)];
    let oc4 = seq![hl(0u32, 22u32, 1u32, 3u32, 0u32, 0u32), hl(1u32, 15u32, 2u32, 0u32, 0u32, 1u32), hl(2u32, 16u32, 3u32, 1u32, 0u32, 2u32), hl(3u32, 9u32, 0u32, 2u32, 0u32, 3u32)];
    let oc5 = seq![hl(0u32, 22u32, 1u32, 3u32, 0u32, 0u32), hl(1u32, 15u32, 2u32, 0u32, 0u32, 1u32), hl(2u32, 16u32, 3u32, 1u32, 0u32, 2u32), hl(3u32, 9u32, 0u32, 2u32, 0u32, 3u32), hl(5u32, 20u32, 5u32, 7u32, 1u32, 4u32)];
    let oc6 = seq![hl(0u32, 22u32, 1u32, 3u32, 0u32, 0u32), hl(1u32, 15u32, 2u32, 0u32, 0u32, 1u32), hl(2u32, 16u32, 3u32, 1u32, 0u32, 2u32), hl(3u32, 9u32, 0u32, 2u32, 0u32, 3u32), hl(5u32, 20u32, 5u32, 7u32, 1u32, 4u32), hl(4u32, 11u32, 6u32, 4u32, 1u32, 5u32)];
    let oc7 = seq![hl(0u32, 22u32, 1u32, 3u32, 0u32, 0u32), hl(1u32, 15u32, 2u32, 0u32, 0u32, 1u32), hl(2u32, 16u32, 3u32, 1u32, 0u32, 2u32), hl(3u32, 9u32, 0u32, 2u32, 0u32, 3u32), hl(5u32, 20u32, 5u32, 7u32, 1u32, 4u32), hl(4u32, 11u32, 6u32, 4u32, 1u32, 5u32), hl(7u32, 18u32, 7u32, 5u32, 1u32, 6u32)];
    let oc8 = seq![hl(0u32, 22u32, 1u32, 3u32, 0u32, 0u32), hl(1u32, 15u32, 2u32, 0u32, 0u32, 1u32), hl(2u32, 16u32, 3u32, 1u32, 0u32, 2u32), hl(3u32, 9u32, 0u32, 2u32, 0u32, 3u32), hl(5u32, 20u32, 5u32, 7u32, 1u32, 4u32), hl(4u32, 11u32, 6u32, 4u32, 1u32, 5u32), hl(7u32, 18u32, 7u32, 5u32, 1u32, 6u32), hl(6u32, 13u32, 4u32, 6u32, 1u32, 7u32)];
    let oc9 = seq![hl(0u32, 22u32, 1u32, 3u32, 0u32, 0u32), hl(1u32, 15u32, 2u32, 0u32, 0u32, 1u32), hl(2u32, 16u32, 3u32, 1u32, 0u32, 2u32), hl(3u32, 9u32, 0u32, 2u32, 0u32, 3u32), hl(5u32, 20u32, 5u32, 7u32, 1u32, 4u32), hl(4u32, 11u32, 6u32, 4u32, 1u32, 5u32), hl(7u32, 18u32, 7u32, 5u32, 1u32, 6u32), hl(6u32, 13u32, 4u32, 6u32, 1u32, 7u32), hl(4u32, 23u32, 9u32, 11u32, 2u32, 8u32)];
    let oc10 = seq![hl(0u32, 22u32, 1u32, 3u32, 0u32, 0u32), hl(1u32, 15u32, 2u32, 0u32, 0u32, 1u32), hl(2u32, 16u32, 3u32, 1u32, 0u32, 2u32), hl(3u32, 9u32, 0u32, 2u32, 0u32, 3u32), hl(5u32, 20u32, 5u32, 7u32, 1u32, 4u32), hl(4u32, 11u32, 6u32, 4u32, 1u32, 5u32), hl(7u32, 18u32, 7u32, 5u32, 1u32, 6u32), hl(6u32, 13u32, 4u32, 6u32, 1u32, 7u32), hl(4u32, 23u32, 9u32, 11u32, 2u32, 8u32), hl(0u32, 3u32, 10u32, 8u32, 2u32, 3u32)];
    let oc11 = seq![hl(0u32, 22u32, 1u32, 3u32, 0u32, 0u32), hl(1u32, 15u32, 2u32, 0u32, 0u32, 1u32), hl(2u32, 16u32, 3u32, 1u32, 0u32, 2u32), hl(3u32, 9u32, 0u32, 2u32, 0u32, 3u32), hl(5u32, 20u32, 5u32, 7u32, 1u32, 4u32), hl(4u32, 11u32, 6u32, 4u32, 1u32, 5u32), hl(7u32, 18u32, 7u32, 5u32, 1u32, 6u32), hl(6u32, 13u32, 4u32, 6u32, 1u32, 7u32), hl(4u32, 23u32, 9u32, 11u32, 2u32, 8u32), hl(0u32, 3u32, 10u32, 8u32, 2u32, 3u32), hl(3u32, 19u32, 11u32, 9u32, 2u32, 9u32)];
    let oc12 = seq![hl(0u32, 22u32, 1u32, 3u32, 0u32, 0u32), hl(1u32, 15u32, 2u32, 0u32, 0u32, 1u32), hl(2u32, 16u32, 3u32, 1u32, 0u32, 2u32), hl(3u32, 9u32, 0u32, 2u32, 0u32, 3u32), hl(5u32, 20u32, 5u32, 7u32, 1u32, 4u32), hl(4u32, 11u32, 6u32, 4u32, 1u32, 5u32), hl(7u32, 18u32, 7u32, 5u32, 1u32, 6u32), hl(6u32, 13u32, 4u32, 6u32, 1u32, 7u32), hl(4u32, 23u32, 9u32, 11u32, 2u32, 8u32), hl(0u32, 3u32, 10u32, 8u32, 2u32, 3u32), hl(3u32, 19u32, 11u32, 9u32, 2u32, 9u32), hl(7u32, 5u32, 8u32, 10u32, 2u32, 5u32)];
    let oc13 = seq![hl(0u32, 22u32, 1u32, 3u32, 0u32, 0u32), hl(1u32, 15u32, 2u32, 0u32, 0u32, 1u32), hl(2u32, 16u32, 3u32, 1u32, 0u32, 2u32), hl(3u32, 9u32, 0u32, 2u32, 0u32, 3u32), hl(5u32, 20u32, 5u32, 7u32, 1u32, 4u32), hl(4u32, 11u32, 6u32, 4u32, 1u32, 5u32), hl(7u32, 18u32, 7u32, 5u32, 1u32, 6u32), hl(6u32, 13u32, 4u32, 6u32, 1u32, 7u32), hl(4u32, 23u32, 9u32, 11u32, 2u32, 8u32), hl(0u32, 3u32, 10u32, 8u32, 2u32, 3u32), hl(3u32, 19u32, 11u32, 9u32, 2u32, 9u32), hl(7u32, 5u32, 8u32, 10u32, 2u32, 5u32), hl(1u32, 21u32, 13u32, 15u32, 3u32, 10u32)];
    let oc14 = seq![hl(0u32, 22u32, 1u32, 3u32, 0u32, 0u32), hl(1u32, 15u32, 2u32, 0u32, 0u32, 1u32), hl(2u32, 16u32, 3u32, 1u32, 0u32, 2u32), hl(3u32, 9u32, 0u32, 2u32, 0u32, 3u32), hl(5u32, 20u32, 5u32, 7u32, 1u32, 4u32), hl(4u32, 11u32, 6u32, 4u32, 1u32, 5u32), hl(7u32, 18u32, 7u32, 5u32, 1u32, 6u32), hl(6u32, 13u32, 4u32, 6u32, 1u32, 7u32), hl(4u32, 23u32, 9u32, 11u32, 2u32, 8u32), hl(0u32, 3u32, 10u32, 8u32, 2u32, 3u32), hl(3u32, 19u32, 11u32, 9u32, 2u32, 9u32), hl(7u32, 5u32, 8u32, 10u32, 2u32, 5u32), hl(1u32, 21u32, 13u32, 15u32, 3u32, 10u32), hl(5u32, 7u32, 14u32, 12u32, 3u32, 7u32)];
    let oc15 = seq![hl(0u32, 22u32, 1u32, 3u32, 0u32, 0u32), hl(1u32, 15u32, 2u32, 0u32, 0u32, 1u32), hl(2u32, 16u32, 3u32, 1u32, 0u32, 2u32), hl(3u32, 9u32, 0u32, 2u32, 0u32, 3u32), hl(5u32, 20u32, 5u32, 7u32, 1u32, 4u32), hl(4u32, 11u32, 6u32, 4u32, 1u32, 5u32), hl(7u32, 18u32, 7u32, 5u32, 1u32, 6u32), hl(6u32, 13u32, 4u32, 6u32, 1u32, 7u32), hl(4u32, 23u32, 9u32, 11u32, 2u32, 8u32), hl(0u32, 3u32, 10u32, 8u32, 2u32, 3u32), hl(3u32, 19u32, 11u32, 9u32, 2u32, 9u32), hl(7u32, 5u32, 8u32, 10u32, 2u32, 5u32), hl(1u32, 21u32, 13u32, 15u32, 3u32, 10u32), hl(5u32, 7u32, 14u32, 12u32, 3u32, 7u32), hl(6u32, 17u32, 15u32, 13u32, 3u32, 11u32)];
    let oc16 = seq![hl(0u32, 22u32, 1u32, 3u32, 0u32, 0u32), hl(1u32, 15u32, 2u32, 0u32, 0u32, 1u32), hl(2u32, 16u32, 3u32, 1u32, 0u32, 2u32), hl(3u32, 9u32, 0u32, 2u32, 0u32, 3u32), hl(5u32, 20u32, 5u32, 7u32, 1u32, 4u32), hl(4u32, 11u32, 6u32, 4u32, 1u32, 5u32), hl(7u32, 18u32, 7u32, 5u32, 1u32, 6u32), hl(6u32, 13u32, 4u32, 6u32, 1u32, 7u32), hl(4u32, 23u32, 9u32, 11u32, 2u32, 8u32), hl(0u32, 3u32, 10u32, 8u32, 2u32, 3u32), hl(3u32, 19u32, 11u32, 9u32, 2u32, 9u32), hl(7u32, 5u32, 8u32, 10u32, 2u32, 5u32), hl(1u32, 21u32, 13u32, 15u32, 3u32, 10u32), hl(5u32, 7u32, 14u32, 12u32, 3u32, 7u32), hl(6u32, 17u32, 15u32, 13u32, 3u32, 11u32), hl(2u32, 1u32, 12u32, 14u32, 3u32, 1u32)];
    let oc17 = seq![hl(0u32, 22u32, 1u32, 3u32, 0u32, 0u32), hl(1u32, 15u32, 2u32, 0u32, 0u32, 1u32), hl(2u32, 16u32, 3u32, 1u32, 0u32, 2u32), hl(3u32, 9u32, 0u32, 2u32, 0u32, 3u32), hl(5u32, 20u32, 5u32, 7u32, 1u32, 4u32), hl(4u32, 11u32, 6u32, 4u32, 1u32, 5u32), hl(7u32, 18u32, 7u32, 5u32, 1u32, 6u32), hl(6u32, 13u32, 4u32, 6u32, 1u32, 7u32), hl(4u32, 23u32, 9u32, 11u32, 2u32, 8u32), hl(0u32, 3u32, 10u32, 8u32, 2u32, 3u32), hl(3u32, 19u32, 11u32, 9u32, 2u32, 9u32), hl(7u32, 5u32, 8u32, 10u32, 2u32, 5u32), hl(1u32, 21u32, 13u32, 15u32, 3u32, 10u32), hl(5u32, 7u32, 14u32, 12u32, 3u32, 7u32), hl(6u32, 17u32, 15u32, 13u32, 3u32, 11u32), hl(2u32, 1u32, 12u32, 14u32, 3u32, 1u32), hl(3u32, 2u32, 17u32, 19u32, 4u32, 2u32)];
    let oc18 = seq![hl(0u32, 22u32, 1u32, 3u32, 0u32, 0u32), hl(1u32, 15u32, 2u32, 0u32, 0u32, 1u32), hl(2u32, 16u32, 3u32, 1u32, 0u32, 2u32), hl(3u32, 9u32, 0u32, 2u32, 0u32, 3u32), hl(5u32, 20u32, 5u32, 7u32, 1u32, 4u32), hl(4u32, 11u32, 6u32, 4u32, 1u32, 5u32), hl(7u32, 18u32, 7u32, 5u32, 1u32, 6u32), hl(6u32, 13u32, 4u32, 6u32, 1u32, 7u32), hl(4u32, 23u32, 9u32, 11u32, 2u32, 8u32), hl(0u32, 3u32, 10u32, 8u32, 2u32, 3u32), hl(3u32, 19u32, 11u32, 9u32, 2u32, 9u32), hl(7u32, 5u32, 8u32, 10u32, 2u32, 5u32), hl(1u32, 21u32, 13u32, 15u32, 3u32, 10u32), hl(5u32, 7u32, 14u32, 12u32, 3u32, 7u32), hl(6u32, 17u32, 15u32, 13u32, 3u32, 11u32), hl(2u32, 1u32, 12u32, 14u32, 3u32, 1u32), hl(3u32, 2u32, 17u32, 19u32, 4u32, 2u32), hl(2u32, 14u32, 18u32, 16u32, 4u32, 11u32)];
    let oc19 = seq![hl(0u32, 22u32, 1u32, 3u32, 0u32, 0u32), hl(1u32, 15u32, 2u32, 0u32, 0u32, 1u32), hl(2u32, 16u32, 3u32, 1u32, 0u32, 2u32), hl(3u32, 9u32, 0u32, 2u32, 0u32, 3u32), hl(5u32, 20u32, 5u32, 7u32, 1u32, 4u32), hl(4u32, 11u32, 6u32, 4u32, 1u32, 5u32), hl(7u32, 18u32, 7u32, 5u32, 1u32, 6u32), hl(6u32, 13u32, 4u32, 6u32, 1u32, 7u32), hl(4u32, 23u32, 9u32, 11u32, 2u32, 8u32), hl(0u32, 3u32, 10u32, 8u32, 2u32, 3u32), hl(3u32, 19u32, 11u32, 9u32, 2u32, 9u32), hl(7u32, 5u32, 8u32, 10u32, 2u32, 5u32), hl(1u32, 21u32, 13u32, 15u32, 3u32, 10u32), hl(5u32, 7u32, 14u32, 12u32, 3u32, 7u32), hl(6u32, 17u32, 15u32, 13u32, 3u32, 11u32), hl(2u32, 1u32, 12u32, 14u32, 3u32, 1u32), hl(3u32, 2u32, 17u32, 19u32, 4u32, 2u32), hl(2u32, 14u32, 18u32, 16u32, 4u32, 11u32), hl(6u32, 6u32, 19u32, 17u32, 4u32, 6u32)];
    let oc20 = seq![hl(0u32, 22u32, 1u32, 3u32, 0u32, 0u32), hl(1u32, 15u32, 2u32, 0u32, 0u32, 1u32), hl(2u32, 16u32, 3u32, 1u32, 0u32, 2u32), hl(3u32, 9u32, 0u32, 2u32, 0u32, 3u32), hl(5u32, 20u32, 5u32, 7u32, 1u32, 4u32), hl(4u32, 11u32, 6u32, 4u32, 1u32, 5u32), hl(7u32, 18u32, 7u32, 5u32, 1u32, 6u32), hl(6u32, 13u32, 4u32, 6u32, 1u32, 7u32), hl(4u32, 23u32, 9u32, 11u32, 2u32, 8u32), hl(0u32, 3u32, 10u32, 8u32, 2u32, 3u32), hl(3u32, 19u32, 11u32, 9u32, 2u32, 9u32), hl(7u32, 5u32, 8u32, 10u32, 2u32, 5u32), hl(1u32, 21u32, 13u32, 15u32, 3u32, 10u32), hl(5u32, 7u32, 14u32, 12u32, 3u32, 7u32), hl(6u32, 17u32, 15u32, 13u32, 3u32, 11u32), hl(2u32, 1u32, 12u32, 14u32, 3u32, 1u32), hl(3u32, 2u32, 17u32, 19u32, 4u32, 2u32), hl(2u32, 14u32, 18u32, 16u32, 4u32, 11u32), hl(6u32, 6u32, 19u32, 17u32, 4u32, 6u32), hl(7u32, 10u32, 16u32, 18u32, 4u32, 9u32)];
    let oc21 = seq![hl(0u32, 22u32, 1u32, 3u32, 0u32, 0u32), hl(1u32, 15u32, 2u32, 0u32, 0u32, 1u32), hl(2u32, 16u32, 3u32, 1u32, 0u32, 2u32), hl(3u32, 9u32, 0u32, 2u32, 0u32, 3u32), hl(5u32, 20u32, 5u32, 7u32, 1u32, 4u32), hl(4u32, 11u32, 6u32, 4u32, 1u32, 5u32), hl(7u32, 18u32, 7u32, 5u32, 1u32, 6u32), hl(6u32, 13u32, 4u32, 6u32, 1u32, 7u32), hl(4u32, 23u32, 9u32, 11u32, 2u32, 8u32), hl(0u32, 3u32, 10u32, 8u32, 2u32, 3u32), hl(3u32, 19u32, 11u32, 9u32, 2u32, 9u32), hl(7u32, 5u32, 8u32, 10u32, 2u32, 5u32), hl(1u32, 21u32, 13u32, 15u32, 3u32, 10u32), hl(5u32, 7u32, 14u32, 12u32, 3u32, 7u32), hl(6u32, 17u32, 15u32, 13u32, 3u32, 11u32), hl(2u32, 1u32, 12u32, 14u32, 3u32, 1u32), hl(3u32, 2u32, 17u32, 19u32, 4u32, 2u32), hl(2u32, 14u32, 18u32, 16u32, 4u32, 11u32), hl(6u32, 6u32, 19u32, 17u32, 4u32, 6u32), hl(7u32, 10u32, 16u32, 18u32, 4u32, 9u32), hl(4u32, 4u32, 21u32, 23u32, 5u32, 4u32)];
    let oc22 = seq![hl(0u32, 22u32, 1u32, 3u32, 0u32, 0u32), hl(1u32, 15u32, 2u32, 0u32, 0u32, 1u32), hl(2u32, 16u32, 3u32, 1u32, 0u32, 2u32), hl(3u32, 9u32, 0u32, 2u32, 0u32, 3u32), hl(5u32, 20u32, 5u32, 7u32, 1u32, 4u32), hl(4u32, 11u32, 6u32, 4u32, 1u32, 5u32), hl(7u32, 18u32, 7u32, 5u32, 1u32, 6u32), hl(6u32, 13u32, 4u32, 6u32, 1u32, 7u32), hl(4u32, 23u32, 9u32, 11u32, 2u32, 8u32), hl(0u32, 3u32, 10u32, 8u32, 2u32, 3u32), hl(3u32, 19u32, 11u32, 9u32, 2u32, 9u32), hl(7u32, 5u32, 8u32, 10u32, 2u32, 5u32), hl(1u32, 21u32, 13u32, 15u32, 3u32, 10u32), hl(5u32, 7u32, 14u32, 12u32, 3u32, 7u32), hl(6u32, 17u32, 15u32, 13u32, 3u32, 11u32), hl(2u32, 1u32, 12u32, 14u32, 3u32, 1u32), hl(3u32, 2u32, 17u32, 19u32, 4u32, 2u32), hl(2u32, 14u32, 18u32, 16u32, 4u32, 11u32), hl(6u32, 6u32, 19u32, 17u32, 4u32, 6u32), hl(7u32, 10u32, 16u32, 18u32, 4u32, 9u32), hl(4u32, 4u32, 21u32, 23u32, 5u32, 4u32), hl(5u32, 12u32, 22u32, 20u32, 5u32, 10u32)];
    let oc23 = seq![hl(0u32, 22u32, 1u32, 3u32, 0u32, 0u32), hl(1u32, 15u32, 2u32, 0u32, 0u32, 1u32), hl(2u32, 16u32, 3u32, 1u32, 0u32, 2u32), hl(3u32, 9u32, 0u32, 2u32, 0u32, 3u32), hl(5u32, 20u32, 5u32, 7u32, 1u32, 4u32), hl(4u32, 11u32, 6u32, 4u32, 1u32, 5u32), hl(7u32, 18u32, 7u32, 5u32, 1u32, 6u32), hl(6u32, 13u32, 4u32, 6u32, 1u32, 7u32), hl(4u32, 23u32, 9u32, 11u32, 2u32, 8u32), hl(0u32, 3u32, 10u32, 8u32, 2u32, 3u32), hl(3u32, 19u32, 11u32, 9u32, 2u32, 9u32), hl(7u32, 5u32, 8u32, 10u32, 2u32, 5u32), hl(1u32, 21u32, 13u32, 15u32, 3u32, 10u32), hl(5u32, 7u32, 14u32, 12u32, 3u32, 7u32), hl(6u32, 17u32, 15u32, 13u32, 3u32, 11u32), hl(2u32, 1u32, 12u32, 14u32, 3u32, 1u32), hl(3u32, 2u32, 17u32, 19u32, 4u32, 2u32), hl(2u32, 14u32, 18u32, 16u32, 4u32, 11u32), hl(6u32, 6u32, 19u32, 17u32, 4u32, 6u32), hl(7u32, 10u32, 16u32, 18u32, 4u32, 9u32), hl(4u32, 4u32, 21u32, 23u32, 5u32, 4u32), hl(5u32, 12u32, 22u32, 20u32, 5u32, 10u32), hl(1u32, 0u32, 23u32, 21u32, 5u32, 0u32)];
    let oc24 = seq![hl(0u32, 22u32, 1u32, 3u32, 0u32, 0u32), hl(1u32, 15u32, 2u32, 0u32, 0u32, 1u32), hl(2u32, 16u32, 3u32, 1u32, 0u32, 2u32), hl(3u32, 9u32, 0u32, 2u32, 0u32, 3u32), hl(5u32, 20u32, 5u32, 7u32, 1u32, 4u32), hl(4u32, 11u32, 6u32, 4u32, 1u32, 5u32), hl(7u32, 18u32, 7u32, 5u32, 1u32, 6u32), hl(6u32, 13u32, 4u32, 6u32, 1u32, 7u32), hl(4u32, 23u32, 9u32, 11u32, 2u32, 8u32), hl(0u32, 3u32, 10u32, 8u32, 2u32, 3u32), hl(3u32, 19u32, 11u32, 9u32, 2u32, 9u32), hl(7u32, 5u32, 8u32, 10u32, 2u32, 5u32), hl(1u32, 21u32, 13u32, 15u32, 3u32, 10u32), hl(5u32, 7u32, 14u32, 12u32, 3u32, 7u32), hl(6u32, 17u32, 15u32, 13u32, 3u32, 11u32), hl(2u32, 1u32, 12u32, 14u32, 3u32, 1u32), hl(3u32, 2u32, 17u32, 19u32, 4u32, 2u32), hl(2u32, 14u32, 18u32, 16u32, 4u32, 11u32), hl(6u32, 6u32, 19u32, 17u32, 4u32, 6u32), hl(7u32, 10u32, 16u32, 18u32, 4u32, 9u32), hl(4u32, 4u32, 21u32, 23u32, 5u32, 4u32), hl(5u32, 12u32, 22u32, 20u32, 5u32, 10u32), hl(1u32, 0u32, 23u32, 21u32, 5u32, 0u32), hl(0u32, 8u32, 20u32, 22u32, 5u32, 8u32)];
    assert(oc1.drop_last() =~= oc0);
    assert(oc2.drop_last() =~= oc1);
    assert(oc3.drop_last() =~= oc2);
    assert(oc4.drop_last() =~= oc3);
    assert(oc5.drop_last() =~= oc4);
    assert(oc6.drop_last() =~= oc5);
    assert(oc7.drop_last() =~= oc6);
    assert(oc8.drop_last() =~= oc7);
    assert(oc9.drop_last() =~= oc8);
    assert(oc10.drop_last() =~= oc9);
    assert(oc11.drop_last() =~= oc10);
    assert(oc12.drop_last() =~= oc11);
    assert(oc13.drop_last() =~= oc12);
    assert(oc14.drop_last() =~= oc13);
    assert(oc15.drop_last() =~= oc14);
    assert(oc16.drop_last() =~= oc15);
    assert(oc17.drop_last() =~= oc16);
    assert(oc18.drop_last() =~= oc17);
    assert(oc19.drop_last() =~= oc18);
    assert(oc20.drop_last() =~= oc19);
    assert(oc21.drop_last() =~= oc20);
    assert(oc22.drop_last() =~= oc21);
    assert(oc23.drop_last() =~= oc22);
    assert(oc24.drop_last() =~= oc23);
    assert(oc24 =~= t.links);
    assert(origin_count(oc0, 0) == 0);
    assert(origin_count(oc1, 0) == 1);
    assert(origin_count(oc2, 0) == 1);
    assert(origin_count(oc3, 0) == 1);
    assert(origin_count(oc4, 0) == 1);
    assert(origin_count(oc5, 0) == 1);
    assert(origin_count(oc6, 0) == 1);
    assert(origin_count(oc7, 0) == 1);
    assert(origin_count(oc8, 0) == 1);
    assert(origin_count(oc9, 0) == 1);
    assert(origin_count(oc10, 0) == 2);
    assert(origin_count(oc11, 0) == 2);
    assert(origin_count(oc12, 0) == 2);
    assert(origin_count(oc13, 0) == 2);
    assert(origin_count(oc14, 0) == 2);
    assert(origin_count(oc15, 0) == 2);
    assert(origin_count(oc16, 0) == 2);
    assert(origin_count(oc17, 0) == 2);
    assert(origin_count(oc18, 0) == 2);
    assert(origin_count(oc19, 0) == 2);
    assert(origin_count(oc20, 0) == 2);
    assert(origin_count(oc21, 0) == 2);
    assert(origin_count(oc22, 0) == 2);
    assert(origin_count(oc23, 0) == 2);
    assert(origin_count(oc24, 0) == 3);
    assert(walk(t.links, HalfEdgeId(0u32), HalfEdgeId(23u32), 22, true) =~= seq![HalfEdgeId(23u32)]);
    assert(walk(t.links, HalfEdgeId(0u32), HalfEdgeId(9u32), 23, true) =~= seq![HalfEdgeId(9u32), HalfEdgeId(23u32)]);
    assert(walk(t.links, HalfEdgeId(0u32), HalfEdgeId(0u32), 24, true) =~= seq![HalfEdgeId(0u32), HalfEdgeId(9u32), HalfEdgeId(23u32)]);
    assert(t.fan(0).len() == 3);
    assert(origin_count(oc0, 1) == 0);
    assert(origin_count(oc1, 1) == 0);
    assert(origin_count(oc2, 1) == 1);
    assert(origin_count(oc3, 1) == 1);
    assert(origin_count(oc4, 1) == 1);
    assert(origin_count(oc5, 1) == 1);
    assert(origin_count(oc6, 1) == 1);
    assert(origin_count(oc7, 1) == 1);
    assert(origin_count(oc8, 1) == 1);
    assert(origin_count(oc9, 1) == 1);
    assert(origin_count(oc10, 1) == 1);
    assert(origin_count(oc11, 1) == 1);
    assert(origin_count(oc12, 1) == 1);
    assert(origin_count(oc13, 1) == 2);
    assert(origin_count(oc14, 1) == 2);
    assert(origin_count(oc15, 1) == 2);
    assert(origin_count(oc16, 1) == 2);
    assert(origin_count(oc17, 1) == 2);
    assert(origin_count(oc18, 1) == 2);
    assert(origin_count(oc19, 1) == 2);
    assert(origin_count(oc20, 1) == 2);
    assert(origin_count(oc21, 1) == 2);
    assert(origin_count(oc22, 1) == 2);
    assert(origin_count(oc23, 1) == 3);
    assert(origin_count(oc24, 1) == 3);
    assert(walk(t.links, HalfEdgeId(1u32), HalfEdgeId(12u32), 22, true) =~= seq![HalfEdgeId(12u32)]);
    assert(walk(t.links, HalfEdgeId(1u32), HalfEdgeId(22u32), 23, true) =~= seq![HalfEdgeId(22u32), HalfEdgeId(12u32)]);
    assert(walk(t.links, HalfEdgeId(1u32), HalfEdgeId(1u32), 24, true) =~= seq![HalfEdgeId(1u32), HalfEdgeId(22u32), HalfEdgeId(12u32)]);
    assert(t.fan(1).len() == 3);
    assert(origin_count(oc0, 2) == 0);
    assert(origin_count(oc1, 2) == 0);
    assert(origin_count(oc2, 2) == 0);
    assert(origin_count(oc3, 2) == 1);
    assert(origin_count(oc4, 2) == 1);
    assert(origin_count(oc5, 2) == 1);
    assert(origin_count(oc6, 2) == 1);
    assert(origin_count(oc7, 2) == 1);
    assert(origin_count(oc8, 2) == 1);
    assert(origin_count(oc9, 2) == 1);
    assert(origin_count(oc10, 2) == 1);
    assert(origin_count(oc11, 2) == 1);
    assert(origin_count(oc12, 2) == 1);
    assert(origin_count(oc13, 2) == 1);
    assert(origin_count(oc14, 2) == 1);
    assert(origin_count(oc15, 2) == 1);
    assert(origin_count(oc16, 2) == 2);
    assert(origin_count(oc17, 2) == 2);
    assert(origin_count(oc18, 2) == 3);
    assert(origin_count(oc19, 2) == 3);
    assert(origin_count(oc20, 2) == 3);
    assert(origin_count(oc21, 2) == 3);
    assert(origin_count(oc22, 2) == 3);
    assert(origin_count(oc23, 2) == 3);
    assert(origin_count(oc24, 2) == 3);
    assert(walk(t.links, HalfEdgeId(2u32), HalfEdgeId(17u32), 22, true) =~= seq![HalfEdgeId(17u32)]);
    assert(walk(t.links, HalfEdgeId(2u32), HalfEdgeId(15u32), 23, true) =~= seq![HalfEdgeId(15u32), HalfEdgeId(17u32)]);
    assert(walk(t.links, HalfEdgeId(2u32), HalfEdgeId(2u32), 24, true) =~= seq![HalfEdgeId(2u32), HalfEdgeId(15u32), HalfEdgeId(17u32)]);
    assert(t.fan(2).len() == 3);
    assert(origin_count(oc0, 3) == 0);
    assert(origin_count(oc1, 3) == 0);
    assert(origin_count(oc2, 3) == 0);
    assert(origin_count(oc3, 3) == 0);
    assert(origin_count(oc4, 3) == 1);
    assert(origin_count(oc5, 3) == 1);
    assert(origin_count(oc6, 3) == 1);
    assert(origin_count(oc7, 3) == 1);
    assert(origin_count(oc8, 3) == 1);
    assert(origin_count(oc9, 3) == 1);
    assert(origin_count(oc10, 3) == 1);
    assert(origin_count(oc11, 3) == 2);
    assert(origin_count(oc12, 3) == 2);
    assert(origin_count(oc13, 3) == 2);
    assert(origin_count(oc14, 3) == 2);
    assert(origin_count(oc15, 3) == 2);
    assert(origin_count(oc16, 3) == 2);
    assert(origin_count(oc17, 3) == 3);
    assert(origin_count(oc18, 3) == 3);
    assert(origin_count(oc19, 3) == 3);
    assert(origin_count(oc20, 3) == 3);
    assert(origin_count(oc21, 3) == 3);
    assert(origin_count(oc22, 3) == 3);
    assert(origin_count(oc23, 3) == 3);
    assert(origin_count(oc24, 3) == 3);
    assert(walk(t.links, HalfEdgeId(3u32), HalfEdgeId(10u32), 22, true) =~= seq![HalfEdgeId(10u32)]);
    assert(walk(t.links, HalfEdgeId(3u32), HalfEdgeId(16u32), 23, true) =~= seq![HalfEdgeId(16u32), HalfEdgeId(10u32)]);
    assert(walk(t.links, HalfEdgeId(3u32), HalfEdgeId(3u32), 24, true) =~= seq![HalfEdgeId(3u32), HalfEdgeId(16u32), HalfEdgeId(10u32)]);
    assert(t.fan(3).len() == 3);
    assert(origin_count(oc0, 4) == 0);
    assert(origin_count(oc1, 4) == 0);
    assert(origin_count(oc2, 4) == 0);
    assert(origin_count(oc3, 4) == 0);
    assert(origin_count(oc4, 4) == 0);
    assert(origin_count(oc5, 4) == 0);
    assert(origin_count(oc6, 4) == 1);
    assert(origin_count(oc7, 4) == 1);
    assert(origin_count(oc8, 4) == 1);
    assert(origin_count(oc9, 4) == 2);
    assert(origin_count(oc10, 4) == 2);
    assert(origin_count(oc11, 4) == 2);
    assert(origin_count(oc12, 4) == 2);
    assert(origin_count(oc13, 4) == 2);
    assert(origin_count(oc14, 4) == 2);
    assert(origin_count(oc15, 4) == 2);
    assert(origin_count(oc16, 4) == 2);
    assert(origin_count(oc17, 4) == 2);
    assert(origin_count(oc18, 4) == 2);
    assert(origin_count(oc19, 4) == 2);
    assert(origin_count(oc20, 4) == 2);
    assert(origin_count(oc21, 4) == 3);
    assert(origin_count(oc22, 4) == 3);
    assert(origin_count(oc23, 4) == 3);
    assert(origin_count(oc24, 4) == 3);
    assert(walk(t.links, HalfEdgeId(5u32), HalfEdgeId(8u32), 22, true) =~= seq![HalfEdgeId(8u32)]);
    assert(walk(t.links, HalfEdgeId(5u32), HalfEdgeId(20u32), 23, true) =~= seq![HalfEdgeId(20u32), HalfEdgeId(8u32)]);
    assert(walk(t.links, HalfEdgeId(5u32), HalfEdgeId(5u32), 24, true) =~= seq![HalfEdgeId(5u32), HalfEdgeId(20u32), HalfEdgeId(8u32)]);
    assert(t.fan(4).len() == 3);
    assert(origin_count(oc0, 5) == 0);
    assert(origin_count(oc1, 5) == 0);
    assert(origin_count(oc2, 5) == 0);
    assert(origin_count(oc3, 5) == 0);
    assert(origin_count(oc4, 5) == 0);
    assert(origin_count(oc5, 5) == 1);
    assert(origin_count(oc6, 5) == 1);
    assert(origin_count(oc7, 5) == 1);
    assert(origin_count(oc8, 5) == 1);
    assert(origin_count(oc9, 5) == 1);
    assert(origin_count(oc10, 5) == 1);
    assert(origin_count(oc11, 5) == 1);
    assert(origin_count(oc12, 5) == 1);
    assert(origin_count(oc13, 5) == 1);
    assert(origin_count(oc14, 5) == 2);
    assert(origin_count(oc15, 5) == 2);
    assert(origin_count(oc16, 5) == 2);
    assert(origin_count(oc17, 5) == 2);
    assert(origin_count(oc18, 5) == 2);
    assert(origin_count(oc19, 5) == 2);
    assert(origin_count(oc20, 5) == 2);
    assert(origin_count(oc21, 5) == 2);
    assert(origin_count(oc22, 5) == 3);
    assert(origin_count(oc23, 5) == 3);
    assert(origin_count(oc24, 5) == 3);
    assert(walk(t.links, HalfEdgeId(4u32), HalfEdgeId(21u32), 22, true) =~= seq![HalfEdgeId(21u32)]);
    assert(walk(t.links, HalfEdgeId(4u32), HalfEdgeId(13u32), 23, true) =~= seq![HalfEdgeId(13u32), HalfEdgeId(21u32)]);
    assert(walk(t.links, HalfEdgeId(4u32), HalfEdgeId(4u32), 24, true) =~= seq![HalfEdgeId(4u32), HalfEdgeId(13u32), HalfEdgeId(21u32)]);
    assert(t.fan(5).len() == 3);
    assert(origin_count(oc0, 6) == 0);
    assert(origin_count(oc1, 6) == 0);
    assert(origin_count(oc2, 6) == 0);
    assert(origin_count(oc3, 6) == 0);
    assert(origin_count(oc4, 6) == 0);
    assert(origin_count(oc5, 6) == 0);
    assert(origin_count(oc6, 6) == 0);
    assert(origin_count(oc7, 6) == 0);
    assert(origin_count(oc8, 6) == 1);
    assert(origin_count(oc9, 6) == 1);
    assert(origin_count(oc10, 6) == 1);
    assert(origin_count(oc11, 6) == 1);
    assert(origin_count(oc12, 6) == 1);
    assert(origin_count(oc13, 6) == 1);
    assert(origin_count(oc14, 6) == 1);
    assert(origin_count(oc15, 6) == 2);
    assert(origin_count(oc16, 6) == 2);
    assert(origin_count(oc17, 6) == 2);
    assert(origin_count(oc18, 6) == 2);
    assert(origin_count(oc19, 6) == 3);
    assert(origin_count(oc20, 6) == 3);
    assert(origin_count(oc21, 6) == 3);
    assert(origin_count(oc22, 6) == 3);
    assert(origin_count(oc23, 6) == 3);
    assert(origin_count(oc24, 6) == 3);
    assert(walk(t.links, HalfEdgeId(7u32), HalfEdgeId(14u32), 22, true) =~= seq![HalfEdgeId(14u32)]);
    assert(walk(t.links, HalfEdgeId(7u32), HalfEdgeId(18u32), 23, true) =~= seq![HalfEdgeId(18u32), HalfEdgeId(14u32)]);
    assert(walk(t.links, HalfEdgeId(7u32), HalfEdgeId(7u32), 24, true) =~= seq![HalfEdgeId(7u32), HalfEdgeId(18u32), HalfEdgeId(14u32)]);
    assert(t.fan(6).len() == 3);
    assert(origin_count(oc0, 7) == 0);
    assert(origin_count(oc1, 7) == 0);
    assert(origin_count(oc2, 7) == 0);
    assert(origin_count(oc3, 7) == 0);
    assert(origin_count(oc4, 7) == 0);
    assert(origin_count(oc5, 7) == 0);
    assert(origin_count(oc6, 7) == 0);
    assert(origin_count(oc7, 7) == 1);
    assert(origin_count(oc8, 7) == 1);
    assert(origin_count(oc9, 7) == 1);
    assert(origin_count(oc10, 7) == 1);
    assert(origin_count(oc11, 7) == 1);
    assert(origin_count(oc12, 7) == 2);
    assert(origin_count(oc13, 7) == 2);
    assert(origin_count(oc14, 7) == 2);
    assert(origin_count(oc15, 7) == 2);
    assert(origin_count(oc16, 7) == 2);
    assert(origin_count(oc17, 7) == 2);
    assert(origin_count(oc18, 7) == 2);
    assert(origin_count(oc19, 7) == 2);
    assert(origin_count(oc20, 7) == 3);
    assert(origin_count(oc21, 7) == 3);
    assert(origin_count(oc22, 7) == 3);
    assert(origin_count(oc23, 7) == 3);
    assert(origin_count(oc24, 7) == 3);
    assert(walk(t.links, HalfEdgeId(6u32), HalfEdgeId(19u32), 22, true) =~= seq![HalfEdgeId(19u32)]);
    assert(walk(t.links, HalfEdgeId(6u32), HalfEdgeId(11u32), 23, true) =~= seq![HalfEdgeId(11u32), HalfEdgeId(19u32)]);
    assert(walk(t.links, HalfEdgeId(6u32), HalfEdgeId(6u32), 24, true) =~= seq![HalfEdgeId(6u32), HalfEdgeId(11u32), HalfEdgeId(19u32)]);
    assert(t.fan(7).len() == 3);
    assert forall|v: int| 0 <= v < 8 implies #[trigger] t.fan_ok(v) by {
        if v == 0 { assert(origin_count(t.links, 0) == origin_count(oc24, 0)); }
        if v == 1 { assert(origin_count(t.links, 1) == origin_count(oc24, 1)); }
        if v == 2 { assert(origin_count(t.links, 2) == origin_count(oc24, 2)); }
        if v == 3 { assert(origin_count(t.links, 3) == origin_count(oc24, 3)); }
        if v == 4 { assert(origin_count(t.links, 4) == origin_count(oc24, 4)); }
        if v == 5 { assert(origin_count(t.links, 5) == origin_count(oc24, 5)); }
        if v == 6 { assert(origin_count(t.links, 6) == origin_count(oc24, 6)); }
        if v == 7 { assert(origin_count(t.links, 7) == origin_count(oc24, 7)); }
    }
    assert(t.valid());
}

/// The cube closes into a valid mesh over its 8 vertices.
pub proof fn lemma_cube_builds<L>()
    ensures
        builds_manifold(8, shape_polygons::<L>(cube_corners())),
        built_topology(8, shape_polygons::<L>(cube_corners()))->0.nh() == 24,
        built_topology(8, shape_polygons::<L>(cube_corners()))->0.ne() == 12,
        built_topology(8, shape_polygons::<L>(cube_corners()))->0.nf() == 6,
        built_topology(8, shape_polygons::<L>(cube_corners()))->0.interior == 6,
{
    reveal(built_topology);
    assert(shape_polygons::<L>(cube_corners()).len() == 6);
    lemma_cube_layout::<L>();
    lemma_cube_pairs::<L>();
    lemma_cube_walks::<L>();
    lemma_cube_close::<L>();
    lemma_cube_valid::<L>();
    assert(built_topology(8, shape_polygons::<L>(cube_corners())) == Some(cube_topology()));
}

} // verus!
