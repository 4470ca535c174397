use crate::error::MeshError;
use crate::extrude::{extrude_parts, lifted_before, selected};
use crate::ids::{FaceId, HalfEdgeId, VertexId};
use crate::mesh::{lemma_face_data_irrelevant, HalfEdgeMesh, Polygon};
use crate::ops::{
    authored, bridge_quads, collapsed_polygons, cyclic_path, dedup_run, fan_triangles, flipped_polygons, joined, keeps_shape,
    kept, merged, poked_polygons, rebuilt_from, split_polygons, tidy, triangulated, used_by,
};
use crate::build_spec::{alike_from, builds_manifold, built_topology};
use crate::rebuild::{lemma_built_boundary_loops, lemma_built_no_self_twin, input_problem, mesh_matches, polygon_matches, snapshot_fits};
use crate::simplify::same_mesh;
use crate::subdivision::{
    all_triangles, catmull_clark_polygons, cc_quads, edge_key, edge_keys, loop_polygons, loop_triangles, side_key, slot_of,
    split_all, split_polygon, split_run,
};
use crate::voxel::{combined, side_corners, Lattice, MeshBooleanOperation};
use vstd::prelude::*;

verus! {

/// The total number of corners of a polygon list.
pub open spec fn corner_sum<L>(ps: Seq<Polygon<L>>) -> int
    decreases ps.len(),
{
    if ps.len() == 0 {
        0
    } else {
        corner_sum(ps.drop_last()) + ps.last().corners.len()
    }
}

/// Every polygon's payload list has one entry per corner.
pub open spec fn loops_full<L>(ps: Seq<Polygon<L>>) -> bool {
    forall|i: int| 0 <= i < ps.len() ==> (#[trigger] ps[i]).loops.len() == ps[i].corners.len()
}

/// Every polygon has exactly `n` corners.
pub open spec fn all_sized<L>(ps: Seq<Polygon<L>>, n: int) -> bool {
    forall|i: int| 0 <= i < ps.len() ==> (#[trigger] ps[i]).corners.len() == n
}

proof fn lemma_joined_len<A>(parts: Seq<Seq<A>>, lens: Seq<int>)
    requires
        lens.len() == parts.len(),
        forall|i: int| 0 <= i < parts.len() ==> (#[trigger] parts[i]).len() == lens[i],
    ensures
        joined(parts).len() == sum_of(lens),
    decreases parts.len(),
{
    if parts.len() > 0 {
        lemma_joined_len(parts.drop_last(), lens.drop_last());
    }
}

/// The sum of a list of integers.
pub open spec fn sum_of(s: Seq<int>) -> int
    decreases s.len(),
{
    if s.len() == 0 {
        0
    } else {
        sum_of(s.drop_last()) + s.last()
    }
}

proof fn lemma_joined_sized<L>(parts: Seq<Seq<Polygon<L>>>, n: int)
    requires
        forall|i: int| 0 <= i < parts.len() ==> all_sized(#[trigger] parts[i], n),
    ensures
        all_sized(joined(parts), n),
    decreases parts.len(),
{
    if parts.len() > 0 {
        lemma_joined_sized(parts.drop_last(), n);
        let pre = joined(parts.drop_last());
        assert(all_sized(parts.last(), n));
        assert forall|k: int| 0 <= k < joined(parts).len() implies (#[trigger] joined(parts)[k]).corners.len() == n by {
            if k < pre.len() {
                assert(joined(parts)[k] == pre[k]);
            } else {
                assert(joined(parts)[k] == parts.last()[k - pre.len()]);
            }
        }
    }
}

proof fn lemma_corner_sum(ps: Seq<int>, qs: Seq<int>)
    requires
        ps.len() == qs.len(),
        forall|i: int| 0 <= i < ps.len() ==> ps[i] == qs[i],
    ensures
        sum_of(ps) == sum_of(qs),
    decreases ps.len(),
{
    if ps.len() > 0 {
        lemma_corner_sum(ps.drop_last(), qs.drop_last());
    }
}

proof fn lemma_corner_sum_is_sum<L>(ps: Seq<Polygon<L>>)
    ensures
        corner_sum(ps) == sum_of(ps.map_values(|p: Polygon<L>| p.corners.len() as int)),
    decreases ps.len(),
{
    if ps.len() > 0 {
        lemma_corner_sum_is_sum(ps.drop_last());
        assert(ps.map_values(|p: Polygon<L>| p.corners.len() as int).drop_last() =~= ps.drop_last().map_values(
            |p: Polygon<L>| p.corners.len() as int,
        ));
    }
}

/// A mesh built from a polygon list whose payload lists are full has exactly those
/// polygons and vertex payloads: a rebuild gives back what it was given.
pub proof fn law_rebuild_gives_back_its_input<V, L>(m: HalfEdgeMesh<V, L>, vertices: Seq<V>, faces: Seq<Polygon<L>>)
    requires
        mesh_matches(m, vertices, faces),
        loops_full(faces),
    ensures
        m.vertex_data_view() == vertices,
        m.polygons() == faces,
{
    assert forall|i: int| 0 <= i < faces.len() implies #[trigger] m.polygons()[i] == faces[i] by {
        assert(polygon_matches(m.polygon(i), faces[i]));
        assert(m.polygons()[i] == m.polygon(i));
        if faces[i].loops.len() == 0 {
            assert(m.polygon(i).loops =~= faces[i].loops);
        }
    }
    assert(m.polygons() =~= faces);
}

/// Rebuilding a mesh from its own snapshot succeeds whenever the mesh is the build of its
/// polygons, as every mesh value of this library is (it is part of the type's invariant):
/// the snapshot fits the id range, breaks no rule, and closes into a valid mesh with the
/// same connectivity and interior face metadata.
pub proof fn law_own_snapshot_rebuilds<V, L>(m: HalfEdgeMesh<V, L>)
    requires
        m.canonical(),
    ensures
        snapshot_fits(m.vertex_data_view().len() as int, m.polygons()),
        input_problem(m.vertex_data_view().len() as int, m.polygons()) is None,
        builds_manifold(m.vertex_data_view().len() as int, m.polygons()),
        alike_from(built_topology(m.vertex_data_view().len() as int, m.polygons())->0, m.topology(), m.interior()),
{
    lemma_face_data_irrelevant(m.topology(), built_topology(m.nv(), m.polygons())->0);
}

/// No half-edge is its own twin: every half-edge has a partner running the other way.
pub proof fn law_no_half_edge_is_its_own_twin<V, L>(m: HalfEdgeMesh<V, L>)
    requires
        m.canonical(),
    ensures
        forall|h: int| 0 <= h < m.nh() ==> (#[trigger] m.topology().links[h]).twin.idx() != h,
{
    let t = m.topology();
    lemma_built_no_self_twin(m.nv(), m.polygons());
    assert forall|h: int| 0 <= h < m.nh() implies (#[trigger] m.topology().links[h]).twin.idx() != h by {
        assert(t.link_ok(h));
        assert(built_topology(m.nv(), m.polygons())->0.links[h] == t.links[h]);
    }
}

/// Every half-edge of a boundary face lies on that face's loop, and on no other face's
/// loop: each boundary half-edge lies in exactly one boundary loop, and no interior
/// half-edge lies in any.
pub proof fn law_boundary_loops_partition<V: Copy, L: Copy>(m: HalfEdgeMesh<V, L>)
    requires
        m.canonical(),
    ensures
        forall|h: int|
            0 <= h < m.nh() && m.halfedge_on_boundary(h) ==> m.topology().face_loop(
                (#[trigger] m.topology().links[h]).face.idx(),
            ).contains(HalfEdgeId(h as u32)),
        forall|h: int, f: int|
            0 <= h < m.nh() && 0 <= f < m.nf() && #[trigger] m.topology().face_loop(f).contains(HalfEdgeId(h as u32))
                ==> m.topology().links[h].face.idx() == f,
{
    let t = m.topology();
    let b = built_topology(m.nv(), m.polygons())->0;
    lemma_face_data_irrelevant(t, b);
    lemma_built_boundary_loops(m.nv(), m.polygons());
    assert forall|h: int|
        0 <= h < m.nh() && m.halfedge_on_boundary(h) implies t.face_loop((#[trigger] t.links[h]).face.idx()).contains(
        HalfEdgeId(h as u32),
    ) by {
        assert(b.links[h] == t.links[h]);
        assert(t.link_ok(h));
        let f = t.links[h].face.idx();
        assert(b.faces[f].halfedge == t.faces[f].halfedge);
        assert(b.face_loop(f) == t.face_loop(f));
    }
    assert forall|h: int, f: int|
        0 <= h < m.nh() && 0 <= f < m.nf() && #[trigger] t.face_loop(f).contains(HalfEdgeId(h as u32)) implies t.links[h].face.idx()
        == f by {
        assert(t.loop_ok(f));
        let k = choose|k: int| 0 <= k < t.face_loop(f).len() && t.face_loop(f)[k] == HalfEdgeId(h as u32);
        assert(t.links[t.face_loop(f)[k].idx()].face.idx() == f);
    }
}

/// Rebuilds are deterministic: two successful rebuilds from the same vertex payloads and
/// polygons give the same connectivity.
pub proof fn law_rebuild_deterministic<V, L, T, U>(
    b1: HalfEdgeMesh<V, L>,
    a1: HalfEdgeMesh<V, L>,
    r1: Result<T, MeshError>,
    b2: HalfEdgeMesh<V, L>,
    a2: HalfEdgeMesh<V, L>,
    r2: Result<U, MeshError>,
    vertices: Seq<V>,
    faces: Seq<Polygon<L>>,
)
    requires
        rebuilt_from(b1, a1, r1, vertices, faces),
        rebuilt_from(b2, a2, r2, vertices, faces),
        r1 is Ok,
        r2 is Ok,
    ensures
        a1.topology() == a2.topology(),
        a1.vertex_data_view() == a2.vertex_data_view(),
        loops_full(faces) ==> a1.polygons() == a2.polygons(),
{
    if loops_full(faces) {
        law_rebuild_gives_back_its_input(a1, vertices, faces);
        law_rebuild_gives_back_its_input(a2, vertices, faces);
    }
}

proof fn lemma_joined_loops_full<L>(parts: Seq<Seq<Polygon<L>>>)
    requires
        forall|i: int| 0 <= i < parts.len() ==> loops_full(#[trigger] parts[i]),
    ensures
        loops_full(joined(parts)),
    decreases parts.len(),
{
    if parts.len() > 0 {
        lemma_joined_loops_full(parts.drop_last());
        let pre = joined(parts.drop_last());
        assert(loops_full(parts.last()));
        assert forall|k: int| 0 <= k < joined(parts).len() implies (#[trigger] joined(parts)[k]).loops.len() == joined(parts)[k].corners.len() by {
            if k < pre.len() {
                assert(joined(parts)[k] == pre[k]);
            } else {
                assert(joined(parts)[k] == parts.last()[k - pre.len()]);
            }
        }
    }
}

/// Two successful Catmull-Clark steps on alike meshes with the same payload inputs give the
/// same connectivity, vertex payloads and polygons: a subdivision is deterministic.
pub proof fn law_catmull_clark_deterministic<V, L>(
    b1: HalfEdgeMesh<V, L>,
    a1: HalfEdgeMesh<V, L>,
    b2: HalfEdgeMesh<V, L>,
    a2: HalfEdgeMesh<V, L>,
    points: Seq<V>,
    centers: Seq<L>,
)
    requires
        same_mesh(b1, b2),
        rebuilt_from(b1, a1, Ok::<(), MeshError>(()), points, catmull_clark_polygons(b1.polygons(), centers, b1.nv())),
        rebuilt_from(b2, a2, Ok::<(), MeshError>(()), points, catmull_clark_polygons(b2.polygons(), centers, b2.nv())),
    ensures
        a1.topology() == a2.topology(),
        a1.vertex_data_view() == a2.vertex_data_view(),
        a1.polygons() == a2.polygons(),
{
    assert(b1.polygons() =~= b2.polygons());
    let ps = b1.polygons();
    let keys = edge_keys(ps);
    let nv = b1.nv();
    let parts = Seq::new(ps.len(), |f: int| cc_quads(ps[f], keys, nv, nv + keys.len() + f, centers[f]));
    assert(catmull_clark_polygons(ps, centers, nv) == joined(parts));
    assert forall|i: int| 0 <= i < parts.len() implies loops_full(#[trigger] parts[i]) by {}
    lemma_joined_loops_full(parts);
    law_rebuild_deterministic(b1, a1, Ok::<(), MeshError>(()), b2, a2, Ok::<(), MeshError>(()), points, joined(parts));
}

/// Two successful Loop steps on alike meshes with the same payload inputs give the same
/// connectivity, vertex payloads and polygons: a subdivision is deterministic.
pub proof fn law_loop_deterministic<V, L>(
    b1: HalfEdgeMesh<V, L>,
    a1: HalfEdgeMesh<V, L>,
    b2: HalfEdgeMesh<V, L>,
    a2: HalfEdgeMesh<V, L>,
    points: Seq<V>,
    centers: Seq<L>,
)
    requires
        same_mesh(b1, b2),
        rebuilt_from(b1, a1, Ok::<(), MeshError>(()), points, loop_polygons(b1.polygons(), centers, b1.nv())),
        rebuilt_from(b2, a2, Ok::<(), MeshError>(()), points, loop_polygons(b2.polygons(), centers, b2.nv())),
    ensures
        a1.topology() == a2.topology(),
        a1.vertex_data_view() == a2.vertex_data_view(),
        a1.polygons() == a2.polygons(),
{
    assert(b1.polygons() =~= b2.polygons());
    let ps = b1.polygons();
    let keys = edge_keys(ps);
    let nv = b1.nv();
    let parts = Seq::new(ps.len(), |f: int| loop_triangles(ps[f], keys, nv, centers[f]));
    assert(loop_polygons(ps, centers, nv) == joined(parts));
    assert forall|i: int| 0 <= i < parts.len() implies loops_full(#[trigger] parts[i]) by {}
    lemma_joined_loops_full(parts);
    law_rebuild_deterministic(b1, a1, Ok::<(), MeshError>(()), b2, a2, Ok::<(), MeshError>(()), points, joined(parts));
}

/// Rebuilding a mesh from its own snapshot, when it succeeds, gives back the same vertex
/// payloads and the same polygons.
pub proof fn law_snapshot_roundtrip<V, L>(m: HalfEdgeMesh<V, L>, r: HalfEdgeMesh<V, L>)
    requires
        mesh_matches(r, m.vertex_data_view(), m.polygons()),
    ensures
        r.vertex_data_view() == m.vertex_data_view(),
        r.polygons() == m.polygons(),
{
    assert(loops_full(m.polygons())) by {
        assert forall|i: int| 0 <= i < m.polygons().len() implies (#[trigger] m.polygons()[i]).loops.len() == m.polygons()[i].corners.len() by {
            assert(m.polygons()[i] == m.polygon(i));
        }
    }
    law_rebuild_gives_back_its_input(r, m.vertex_data_view(), m.polygons());
}

/// Removing the face that was just added gives back the earlier polygons and payloads.
pub proof fn law_add_then_remove_face<V, L>(m0: HalfEdgeMesh<V, L>, m1: HalfEdgeMesh<V, L>, m2: HalfEdgeMesh<V, L>, corners: Seq<usize>)
    requires
        mesh_matches(m1, m0.vertex_data_view(), m0.polygons().push(authored(corners))),
        mesh_matches(m2, m1.vertex_data_view(), m1.polygons().remove(m0.interior())),
    ensures
        m2.vertex_data_view() == m0.vertex_data_view(),
        m2.polygons() == m0.polygons(),
{
    let n = m0.interior();
    assert forall|i: int| 0 <= i < n implies #[trigger] m1.polygons()[i] == m0.polygons()[i] by {
        assert(m0.polygons()[i] == m0.polygon(i));
        assert(m0.polygons().push(authored(corners))[i] == m0.polygon(i));
        assert(polygon_matches(m1.polygon(i), m0.polygon(i)));
        assert(m1.polygons()[i] == m1.polygon(i));
        assert(m1.polygon(i).loops =~= m0.polygon(i).loops);
    }
    assert(m1.polygons().remove(n) =~= m0.polygons());
    law_snapshot_roundtrip(m0, m2);
}

/// A successful Catmull-Clark step leaves one vertex per old vertex, edge and face, and
/// one quad per old corner.
pub proof fn law_catmull_clark_counts<V, L>(
    before: HalfEdgeMesh<V, L>,
    after: HalfEdgeMesh<V, L>,
    vertex_points: Seq<V>,
    edge_points: Seq<V>,
    face_points: Seq<V>,
    centers: Seq<L>,
)
    requires
        rebuilt_from(
            before,
            after,
            Ok::<(), MeshError>(()),
            vertex_points + edge_points + face_points,
            catmull_clark_polygons(before.polygons(), centers, before.nv()),
        ),
        vertex_points.len() == before.nv(),
        edge_points.len() == edge_keys(before.polygons()).len(),
        face_points.len() == before.interior(),
    ensures
        after.vertex_data_view().len() == before.nv() + edge_keys(before.polygons()).len() + before.interior(),
        after.interior() == corner_sum(before.polygons()),
        all_sized(after.polygons(), 4),
{
    let ps = before.polygons();
    let keys = edge_keys(ps);
    let nv = before.nv();
    let parts = Seq::new(ps.len(), |f: int| cc_quads(ps[f], keys, nv, nv + keys.len() + f, centers[f]));
    let fs = catmull_clark_polygons(ps, centers, nv);
    assert(fs == joined(parts));
    let lens = ps.map_values(|p: Polygon<L>| p.corners.len() as int);
    lemma_joined_len(parts, lens);
    lemma_corner_sum_is_sum(ps);
    assert forall|i: int| 0 <= i < parts.len() implies all_sized(#[trigger] parts[i], 4) by {}
    lemma_joined_sized(parts, 4);
    assert(mesh_matches(after, vertex_points + edge_points + face_points, fs));
    assert forall|i: int| 0 <= i < after.interior() implies (#[trigger] after.polygons()[i]).corners.len() == 4 by {
        assert(after.polygons()[i] == after.polygon(i));
        assert(polygon_matches(after.polygon(i), fs[i]));
    }
}

/// A successful Loop step leaves one vertex per old vertex and edge, and four triangles
/// per old triangle.
pub proof fn law_loop_counts<V, L>(
    before: HalfEdgeMesh<V, L>,
    after: HalfEdgeMesh<V, L>,
    vertex_points: Seq<V>,
    edge_points: Seq<V>,
    centers: Seq<L>,
)
    requires
        rebuilt_from(
            before,
            after,
            Ok::<(), MeshError>(()),
            vertex_points + edge_points,
            loop_polygons(before.polygons(), centers, before.nv()),
        ),
        vertex_points.len() == before.nv(),
        edge_points.len() == edge_keys(before.polygons()).len(),
    ensures
        after.vertex_data_view().len() == before.nv() + edge_keys(before.polygons()).len(),
        after.interior() == 4 * before.interior(),
        all_sized(after.polygons(), 3),
{
    let ps = before.polygons();
    let keys = edge_keys(ps);
    let nv = before.nv();
    let parts = Seq::new(ps.len(), |f: int| loop_triangles(ps[f], keys, nv, centers[f]));
    let fs = loop_polygons(ps, centers, nv);
    assert(fs == joined(parts));
    let lens = Seq::new(ps.len(), |f: int| 4int);
    lemma_joined_len(parts, lens);
    assert(sum_of(lens) == 4 * ps.len()) by {
        lemma_sum_constant(ps.len() as int);
    }
    assert forall|i: int| 0 <= i < parts.len() implies all_sized(#[trigger] parts[i], 3) by {}
    lemma_joined_sized(parts, 3);
    assert forall|i: int| 0 <= i < after.interior() implies (#[trigger] after.polygons()[i]).corners.len() == 3 by {
        assert(after.polygons()[i] == after.polygon(i));
        assert(polygon_matches(after.polygon(i), fs[i]));
    }
}

proof fn lemma_sum_constant(n: int)
    requires
        n >= 0,
    ensures
        sum_of(Seq::new(n as nat, |f: int| 4int)) == 4 * n,
    decreases n,
{
    if n > 0 {
        lemma_sum_constant(n - 1);
        assert(Seq::new(n as nat, |f: int| 4int).drop_last() =~= Seq::new((n - 1) as nat, |f: int| 4int));
    }
}

/// After a successful triangulation of polygons with at least three corners, every face
/// is a triangle and a face of `n` corners has become `n - 2` of them.
pub proof fn law_triangulation_gives_triangles<V, L>(before: HalfEdgeMesh<V, L>, after: HalfEdgeMesh<V, L>)
    requires
        rebuilt_from(before, after, Ok::<(), MeshError>(()), before.vertex_data_view(), triangulated(before.polygons())),
        forall|f: int| 0 <= f < before.interior() ==> (#[trigger] before.polygons()[f]).corners.len() >= 3,
    ensures
        all_sized(after.polygons(), 3),
        after.interior() == corner_sum(before.polygons()) - 2 * before.interior(),
{
    let ps = before.polygons();
    let parts = ps.map_values(|p: Polygon<L>| fan_triangles(p));
    let lens = ps.map_values(|p: Polygon<L>| p.corners.len() - 2);
    assert forall|i: int| 0 <= i < parts.len() implies (#[trigger] parts[i]).len() == lens[i] by {
        assert(ps[i].corners.len() >= 3);
    }
    lemma_joined_len(parts, lens);
    assert forall|i: int| 0 <= i < parts.len() implies all_sized(#[trigger] parts[i], 3) by {
        assert(ps[i].corners.len() >= 3);
    }
    lemma_joined_sized(parts, 3);
    lemma_corner_sum_is_sum(ps);
    lemma_sum_minus_two(ps);
    let fs = triangulated(ps);
    assert forall|i: int| 0 <= i < after.interior() implies (#[trigger] after.polygons()[i]).corners.len() == 3 by {
        assert(after.polygons()[i] == after.polygon(i));
        assert(polygon_matches(after.polygon(i), fs[i]));
    }
}

proof fn lemma_sum_minus_two<L>(ps: Seq<Polygon<L>>)
    ensures
        sum_of(ps.map_values(|p: Polygon<L>| p.corners.len() - 2)) == sum_of(ps.map_values(|p: Polygon<L>| p.corners.len() as int))
            - 2 * ps.len(),
    decreases ps.len(),
{
    if ps.len() > 0 {
        lemma_sum_minus_two(ps.drop_last());
        assert(ps.map_values(|p: Polygon<L>| p.corners.len() - 2).drop_last() =~= ps.drop_last().map_values(
            |p: Polygon<L>| p.corners.len() - 2,
        ));
        assert(ps.map_values(|p: Polygon<L>| p.corners.len() as int).drop_last() =~= ps.drop_last().map_values(
            |p: Polygon<L>| p.corners.len() as int,
        ));
    }
}

/// Poking a face of `n` corners adds one vertex and turns that face into `n` triangles.
pub proof fn law_poke_counts<V, L>(before: HalfEdgeMesh<V, L>, after: HalfEdgeMesh<V, L>, f: int, center: V, center_loop: L)
    requires
        0 <= f < before.interior(),
        rebuilt_from(
            before,
            after,
            Ok::<(), MeshError>(()),
            before.vertex_data_view().push(center),
            poked_polygons(before.polygons(), f, before.nv() as usize, center_loop),
        ),
    ensures
        after.vertex_data_view().len() == before.vertex_data_view().len() + 1,
        after.interior() == before.interior() + before.polygons()[f].corners.len() - 1,
{
}

/// A position in a concatenation where an element of one part lands.
proof fn lemma_joined_index<A>(parts: Seq<Seq<A>>, i: int, k: int) -> (j: int)
    requires
        0 <= i < parts.len(),
        0 <= k < parts[i].len(),
    ensures
        0 <= j < joined(parts).len(),
        joined(parts)[j] == parts[i][k],
    decreases parts.len(),
{
    let pre = joined(parts.drop_last());
    if i == parts.len() - 1 {
        pre.len() + k
    } else {
        let j = lemma_joined_index(parts.drop_last(), i, k);
        j
    }
}

/// A sample lies in a union when it lies in either solid, in an intersection when it lies
/// in both, and in a difference when it lies in the first solid and not in the second.
pub proof fn law_boolean_membership(inside_a: bool, inside_b: bool)
    ensures
        combined(MeshBooleanOperation::Union, inside_a, inside_b) == (inside_a || inside_b),
        combined(MeshBooleanOperation::Intersection, inside_a, inside_b) == (inside_a && inside_b),
        combined(MeshBooleanOperation::Difference, inside_a, inside_b) == (inside_a && !inside_b),
        combined(MeshBooleanOperation::Difference, inside_a, inside_b) ==> inside_a,
        combined(MeshBooleanOperation::Difference, inside_a, inside_b) ==> !combined(
            MeshBooleanOperation::Difference,
            inside_b,
            inside_a,
        ),
{
}

/// The new vertex that a subdivision step over `nv` old vertices puts on the edge `{a, b}`
/// of the polygons `ps`: edge points follow the old vertices in order of first use of
/// their edge.
pub open spec fn edge_point<L>(ps: Seq<Polygon<L>>, nv: int, a: usize, b: usize) -> usize {
    (nv + slot_of(edge_keys(ps), edge_key(a, b))) as usize
}

/// `x -> y` is a directed side of `p`.
pub open spec fn has_side<L>(p: Polygon<L>, x: usize, y: usize) -> bool {
    exists|i: int|
        0 <= i < p.corners.len() && #[trigger] p.corners[i] == x && p.corners[(i + 1) % (p.corners.len() as int)] == y
}

/// Some polygon of `ps` has the directed side `x -> y`.
pub open spec fn some_side<L>(ps: Seq<Polygon<L>>, x: usize, y: usize) -> bool {
    exists|j: int| 0 <= j < ps.len() && has_side(#[trigger] ps[j], x, y)
}

/// The polygon `after.polygons()[j]` is `q` as far as its corners go.
proof fn lemma_child_corners<V, L>(after: HalfEdgeMesh<V, L>, vertices: Seq<V>, fs: Seq<Polygon<L>>, j: int)
    requires
        mesh_matches(after, vertices, fs),
        0 <= j < fs.len(),
    ensures
        j < after.interior(),
        after.polygons()[j].corners == fs[j].corners,
        after.polygons()[j].data == fs[j].data,
        after.polygons()[j].loops.len() == fs[j].corners.len(),
        fs[j].loops.len() != 0 ==> after.polygons()[j].loops == fs[j].loops,
{
    assert(after.polygons()[j] == after.polygon(j));
    assert(polygon_matches(after.polygon(j), fs[j]));
}

/// A successful rebuild matches its input polygons.
proof fn lemma_ok_matches<V, L>(before: HalfEdgeMesh<V, L>, after: HalfEdgeMesh<V, L>, vertices: Seq<V>, fs: Seq<Polygon<L>>)
    requires
        rebuilt_from(before, after, Ok::<(), MeshError>(()), vertices, fs),
    ensures
        mesh_matches(after, vertices, fs),
{
}

/// A Catmull-Clark step keeps the winding of every face: each directed side `a -> b` of an
/// old face comes back as `a -> m` and `m -> b`, where `m` is the edge point of `{a, b}`.
pub proof fn law_catmull_clark_keeps_orientation<V, L>(
    before: HalfEdgeMesh<V, L>,
    after: HalfEdgeMesh<V, L>,
    points: Seq<V>,
    centers: Seq<L>,
    f: int,
    c: int,
)
    requires
        rebuilt_from(
            before,
            after,
            Ok::<(), MeshError>(()),
            points,
            catmull_clark_polygons(before.polygons(), centers, before.nv()),
        ),
        0 <= f < before.interior(),
        0 <= c < before.polygons()[f].corners.len(),
    ensures
        ({
            let p = before.polygons()[f];
            let a = p.corners[c];
            let b = p.corners[(c + 1) % (p.corners.len() as int)];
            let m = edge_point(before.polygons(), before.nv(), a, b);
            some_side(after.polygons(), a, m) && some_side(after.polygons(), m, b)
        }),
{
    let ps = before.polygons();
    let keys = edge_keys(ps);
    let nv = before.nv();
    let parts = Seq::new(ps.len(), |g: int| cc_quads(ps[g], keys, nv, nv + keys.len() + g, centers[g]));
    let fs = catmull_clark_polygons(ps, centers, nv);
    assert(fs == joined(parts));
    lemma_ok_matches(before, after, points, fs);
    let p = ps[f];
    let n = p.corners.len() as int;
    let c2 = (c + 1) % n;
    let a = p.corners[c];
    let b = p.corners[c2];
    let m = edge_point(ps, nv, a, b);
    assert((c2 + n - 1) % n == c) by {
        if c + 1 < n {
            vstd::arithmetic::div_mod::lemma_small_mod((c + 1) as nat, n as nat);
            assert((c + n) % n == c) by {
                vstd::arithmetic::div_mod::lemma_mod_add_multiples_vanish(c, n);
                vstd::arithmetic::div_mod::lemma_small_mod(c as nat, n as nat);
            }
        } else {
            vstd::arithmetic::div_mod::lemma_mod_self_0(n);
            vstd::arithmetic::div_mod::lemma_small_mod((n - 1) as nat, n as nat);
        }
    }
    let j1 = lemma_joined_index(parts, f, c);
    let j2 = lemma_joined_index(parts, f, c2);
    lemma_child_corners(after, points, fs, j1);
    lemma_child_corners(after, points, fs, j2);
    let q1 = after.polygons()[j1];
    let q2 = after.polygons()[j2];
    assert(q1.corners[0] == a && q1.corners[(0int + 1) % (q1.corners.len() as int)] == m);
    assert(has_side(q1, a, m));
    assert(q2.corners[3] == m && q2.corners[(3int + 1) % (q2.corners.len() as int)] == b);
    assert(has_side(q2, m, b));
}

/// A Loop step keeps the winding of every triangle: each directed side `a -> b` of an old
/// triangle comes back as `a -> m` and `m -> b`, where `m` is the edge point of `{a, b}`.
pub proof fn law_loop_keeps_orientation<V, L>(
    before: HalfEdgeMesh<V, L>,
    after: HalfEdgeMesh<V, L>,
    points: Seq<V>,
    centers: Seq<L>,
    f: int,
    c: int,
)
    requires
        all_triangles(before.polygons()),
        rebuilt_from(before, after, Ok::<(), MeshError>(()), points, loop_polygons(before.polygons(), centers, before.nv())),
        0 <= f < before.interior(),
        0 <= c < 3,
    ensures
        ({
            let p = before.polygons()[f];
            let a = p.corners[c];
            let b = p.corners[(c + 1) % 3];
            let m = edge_point(before.polygons(), before.nv(), a, b);
            some_side(after.polygons(), a, m) && some_side(after.polygons(), m, b)
        }),
{
    let ps = before.polygons();
    let keys = edge_keys(ps);
    let nv = before.nv();
    let parts = Seq::new(ps.len(), |g: int| loop_triangles(ps[g], keys, nv, centers[g]));
    let fs = loop_polygons(ps, centers, nv);
    assert(fs == joined(parts));
    lemma_ok_matches(before, after, points, fs);
    let p = ps[f];
    assert(p.corners.len() == 3);
    let a = p.corners[c];
    let b = p.corners[(c + 1) % 3];
    let m = edge_point(ps, nv, a, b);
    if c == 0 {
        let j1 = lemma_joined_index(parts, f, 0);
        let j2 = lemma_joined_index(parts, f, 1);
        lemma_child_corners(after, points, fs, j1);
        lemma_child_corners(after, points, fs, j2);
        let q1 = after.polygons()[j1];
        let q2 = after.polygons()[j2];
        assert(q1.corners[0] == a && q1.corners[(0int + 1) % (q1.corners.len() as int)] == m);
        assert(has_side(q1, a, m));
        assert(q2.corners[0] == m && q2.corners[(0int + 1) % (q2.corners.len() as int)] == b);
        assert(has_side(q2, m, b));
    } else if c == 1 {
        let j1 = lemma_joined_index(parts, f, 1);
        let j2 = lemma_joined_index(parts, f, 2);
        lemma_child_corners(after, points, fs, j1);
        lemma_child_corners(after, points, fs, j2);
        let q1 = after.polygons()[j1];
        let q2 = after.polygons()[j2];
        assert(q1.corners[1] == a && q1.corners[(1int + 1) % (q1.corners.len() as int)] == m);
        assert(has_side(q1, a, m));
        assert(q2.corners[1] == m && q2.corners[(1int + 1) % (q2.corners.len() as int)] == b);
        assert(has_side(q2, m, b));
    } else {
        let j1 = lemma_joined_index(parts, f, 2);
        let j2 = lemma_joined_index(parts, f, 0);
        lemma_child_corners(after, points, fs, j1);
        lemma_child_corners(after, points, fs, j2);
        let q1 = after.polygons()[j1];
        let q2 = after.polygons()[j2];
        assert(q1.corners[2] == a && q1.corners[(2int + 1) % (q1.corners.len() as int)] == m);
        assert(has_side(q1, a, m));
        assert(q2.corners[2] == m && q2.corners[(2int + 1) % (q2.corners.len() as int)] == b);
        assert(has_side(q2, m, b));
    }
}

/// Every extruded face comes back, lifted onto its new vertices, with the corner payloads
/// (uvs, normals, tangents) it had, corner for corner, and its metadata.
pub proof fn law_extrude_cap_keeps_payloads<V, L>(
    before: HalfEdgeMesh<V, L>,
    after: HalfEdgeMesh<V, L>,
    points: Seq<V>,
    sel: Seq<FaceId>,
    flips: Seq<Seq<bool>>,
    g: int,
)
    requires
        rebuilt_from(
            before,
            after,
            Ok::<(), MeshError>(()),
            points,
            joined(extrude_parts(before.polygons(), sel, before.nv(), flips)),
        ),
        0 <= g < before.interior(),
        selected(sel, g),
    ensures
        exists|i: int|
            0 <= i < after.interior() && (#[trigger] after.polygons()[i]).loops == before.polygons()[g].loops
                && after.polygons()[i].data == before.polygons()[g].data && after.polygons()[i].corners.len()
                == before.polygons()[g].corners.len() && forall|k: int|
                0 <= k < before.polygons()[g].corners.len() ==> after.polygons()[i].corners[k] == (before.nv()
                    + lifted_before(before.polygons(), sel, g) + k) as usize,
{
    let ps = before.polygons();
    let nv = before.nv();
    let parts = extrude_parts(ps, sel, nv, flips);
    let fs = joined(parts);
    lemma_ok_matches(before, after, points, fs);
    let p = ps[g];
    assert(p == before.polygon(g));
    assert(p.loops.len() == p.corners.len());
    assert(parts[g].len() == p.corners.len() + 1);
    let i = lemma_joined_index(parts, g, 0);
    lemma_child_corners(after, points, fs, i);
    let t = after.polygons()[i];
    assert(fs[i].loops == p.loops);
    if p.loops.len() == 0 {
        assert(t.loops =~= p.loops);
    }
    assert(t.loops == p.loops);
}

/// Poking a face keeps the corner payloads of its rim: fan triangle `k` runs from corner
/// `k` to corner `k + 1` of the face and then to the new vertex, and each rim corner
/// carries the payload the face had at that vertex, the new corner `center_loop`.
pub proof fn law_poke_keeps_corner_payloads<V, L>(
    before: HalfEdgeMesh<V, L>,
    after: HalfEdgeMesh<V, L>,
    points: Seq<V>,
    f: int,
    center_loop: L,
    k: int,
)
    requires
        rebuilt_from(
            before,
            after,
            Ok::<(), MeshError>(()),
            points,
            poked_polygons(before.polygons(), f, before.nv() as usize, center_loop),
        ),
        0 <= f < before.interior(),
        0 <= k < before.polygons()[f].corners.len(),
    ensures
        f + k < after.interior(),
        ({
            let p = before.polygons()[f];
            let n = p.corners.len() as int;
            let t = after.polygons()[f + k];
            &&& t.corners.len() == 3 && t.loops.len() == 3
            &&& t.corners[0] == p.corners[k] && t.loops[0] == p.loops[k]
            &&& t.corners[1] == p.corners[(k + 1) % n] && t.loops[1] == p.loops[(k + 1) % n]
            &&& t.corners[2] == before.nv() as usize && t.loops[2] == center_loop
        }),
{
    let ps = before.polygons();
    let fs = poked_polygons(ps, f, before.nv() as usize, center_loop);
    lemma_ok_matches(before, after, points, fs);
    let p = ps[f];
    assert(fs.len() == ps.len() + p.corners.len() - 1);
    assert(fs[f + k].loops.len() == 3);
    lemma_child_corners(after, points, fs, f + k);
}

/// The face point of face `f` after a Catmull-Clark step over `nv` old vertices: face
/// points follow the old vertices and the edge points, in face order.
pub open spec fn face_point<L>(ps: Seq<Polygon<L>>, nv: int, f: int) -> usize {
    (nv + edge_keys(ps).len() + f) as usize
}

/// Under a Catmull-Clark step, corner `c` of face `f` becomes the quad that runs from the
/// corner to the edge point of its next side, the face point and the edge point of its
/// previous side; the corner's payload sits on the corner and the next edge point, the
/// face's center payload on the face point, the previous corner's payload on the previous
/// edge point, and the quad keeps the face's metadata.
pub proof fn law_catmull_clark_corner_quad<V, L>(
    before: HalfEdgeMesh<V, L>,
    after: HalfEdgeMesh<V, L>,
    points: Seq<V>,
    centers: Seq<L>,
    f: int,
    c: int,
)
    requires
        rebuilt_from(
            before,
            after,
            Ok::<(), MeshError>(()),
            points,
            catmull_clark_polygons(before.polygons(), centers, before.nv()),
        ),
        0 <= f < before.interior(),
        0 <= c < before.polygons()[f].corners.len(),
    ensures
        exists|i: int|
            0 <= i < after.interior() && ({
                let ps = before.polygons();
                let p = ps[f];
                let n = p.corners.len() as int;
                let q = #[trigger] after.polygons()[i];
                let a = p.corners[c];
                let next = p.corners[(c + 1) % n];
                let prev = p.corners[(c + n - 1) % n];
                &&& q.corners == seq![
                    a,
                    edge_point(ps, before.nv(), a, next),
                    face_point(ps, before.nv(), f),
                    edge_point(ps, before.nv(), prev, a),
                ]
                &&& q.loops == seq![p.loops[c], p.loops[c], centers[f], p.loops[(c + n - 1) % n]]
                &&& q.data == p.data
            }),
{
    let ps = before.polygons();
    let keys = edge_keys(ps);
    let nv = before.nv();
    let parts = Seq::new(ps.len(), |g: int| cc_quads(ps[g], keys, nv, nv + keys.len() + g, centers[g]));
    let fs = catmull_clark_polygons(ps, centers, nv);
    assert(fs == joined(parts));
    lemma_ok_matches(before, after, points, fs);
    let p = ps[f];
    let n = p.corners.len() as int;
    let pc = (c + n - 1) % n;
    assert((pc + 1) % n == c) by {
        if c > 0 {
            vstd::arithmetic::div_mod::lemma_mod_add_multiples_vanish(c - 1, n);
            vstd::arithmetic::div_mod::lemma_small_mod((c - 1) as nat, n as nat);
            vstd::arithmetic::div_mod::lemma_small_mod(c as nat, n as nat);
        } else {
            vstd::arithmetic::div_mod::lemma_small_mod((n - 1) as nat, n as nat);
            vstd::arithmetic::div_mod::lemma_mod_self_0(n);
        }
    }
    assert(p == before.polygon(f));
    let i = lemma_joined_index(parts, f, c);
    lemma_child_corners(after, points, fs, i);
    let q = after.polygons()[i];
    assert(q.corners =~= seq![
        p.corners[c],
        edge_point(ps, nv, p.corners[c], p.corners[(c + 1) % n]),
        face_point(ps, nv, f),
        edge_point(ps, nv, p.corners[pc], p.corners[c]),
    ]);
    assert(q.loops == seq![p.loops[c], p.loops[c], centers[f], p.loops[pc]]);
}

/// Under a Loop step, corner `c` of triangle `f` becomes the triangle that runs from the
/// corner to the edge point of its next side and the edge point of its previous side, all
/// three corners carrying the corner's payload, with the face's metadata.
pub proof fn law_loop_corner_triangle<V, L>(
    before: HalfEdgeMesh<V, L>,
    after: HalfEdgeMesh<V, L>,
    points: Seq<V>,
    centers: Seq<L>,
    f: int,
    c: int,
)
    requires
        all_triangles(before.polygons()),
        rebuilt_from(before, after, Ok::<(), MeshError>(()), points, loop_polygons(before.polygons(), centers, before.nv())),
        0 <= f < before.interior(),
        0 <= c < 3,
    ensures
        exists|i: int, s: int|
            #![trigger after.polygons()[i].corners[s]]
            0 <= i < after.interior() && 0 <= s < 3 && ({
                let ps = before.polygons();
                let p = ps[f];
                let q = after.polygons()[i];
                let a = p.corners[c];
                let next = p.corners[(c + 1) % 3];
                let prev = p.corners[(c + 2) % 3];
                &&& q.corners.len() == 3
                &&& q.corners[s] == a
                &&& q.corners[(s + 1) % 3] == edge_point(ps, before.nv(), a, next)
                &&& q.corners[(s + 2) % 3] == edge_point(ps, before.nv(), prev, a)
                &&& q.loops == seq![p.loops[c], p.loops[c], p.loops[c]]
                &&& q.data == p.data
            }),
{
    let ps = before.polygons();
    let keys = edge_keys(ps);
    let nv = before.nv();
    let parts = Seq::new(ps.len(), |g: int| loop_triangles(ps[g], keys, nv, centers[g]));
    let fs = loop_polygons(ps, centers, nv);
    assert(fs == joined(parts));
    lemma_ok_matches(before, after, points, fs);
    let p = ps[f];
    assert(p == before.polygon(f));
    assert(p.corners.len() == 3);
    let i = lemma_joined_index(parts, f, c);
    lemma_child_corners(after, points, fs, i);
    let q = after.polygons()[i];
    assert(q.loops =~= seq![p.loops[c], p.loops[c], p.loops[c]]);
    if c == 0 {
        assert(q.corners[0int] == p.corners[0] && q.corners[(0int + 1) % 3] == edge_point(ps, nv, p.corners[0], p.corners[1])
            && q.corners[(0int + 2) % 3] == edge_point(ps, nv, p.corners[2], p.corners[0]));
    } else if c == 1 {
        assert(q.corners[1int] == p.corners[1] && q.corners[(1int + 1) % 3] == edge_point(ps, nv, p.corners[1], p.corners[2])
            && q.corners[(1int + 2) % 3] == edge_point(ps, nv, p.corners[0], p.corners[1]));
    } else {
        assert(q.corners[2int] == p.corners[2] && q.corners[(2int + 1) % 3] == edge_point(ps, nv, p.corners[2], p.corners[0])
            && q.corners[(2int + 2) % 3] == edge_point(ps, nv, p.corners[1], p.corners[2]));
    }
}

/// Under a Loop step, the middle of triangle `f` becomes the triangle over its three edge
/// points, in the triangle's winding, carrying the center payload, with the face's metadata.
pub proof fn law_loop_middle_triangle<V, L>(
    before: HalfEdgeMesh<V, L>,
    after: HalfEdgeMesh<V, L>,
    points: Seq<V>,
    centers: Seq<L>,
    f: int,
)
    requires
        all_triangles(before.polygons()),
        rebuilt_from(before, after, Ok::<(), MeshError>(()), points, loop_polygons(before.polygons(), centers, before.nv())),
        0 <= f < before.interior(),
    ensures
        exists|i: int|
            0 <= i < after.interior() && ({
                let ps = before.polygons();
                let p = ps[f];
                let q = #[trigger] after.polygons()[i];
                &&& q.corners == seq![
                    edge_point(ps, before.nv(), p.corners[0], p.corners[1]),
                    edge_point(ps, before.nv(), p.corners[1], p.corners[2]),
                    edge_point(ps, before.nv(), p.corners[2], p.corners[0]),
                ]
                &&& q.loops == seq![centers[f], centers[f], centers[f]]
                &&& q.data == p.data
            }),
{
    let ps = before.polygons();
    let keys = edge_keys(ps);
    let nv = before.nv();
    let parts = Seq::new(ps.len(), |g: int| loop_triangles(ps[g], keys, nv, centers[g]));
    let fs = loop_polygons(ps, centers, nv);
    assert(fs == joined(parts));
    lemma_ok_matches(before, after, points, fs);
    let p = ps[f];
    assert(p.corners.len() == 3);
    let i = lemma_joined_index(parts, f, 3);
    lemma_child_corners(after, points, fs, i);
    let q = after.polygons()[i];
    assert(q.corners =~= seq![
        edge_point(ps, nv, p.corners[0], p.corners[1]),
        edge_point(ps, nv, p.corners[1], p.corners[2]),
        edge_point(ps, nv, p.corners[2], p.corners[0]),
    ]);
    assert(q.loops =~= seq![centers[f], centers[f], centers[f]]);
}

/// Poking a face leaves every other face as it was: the faces before it keep their
/// places, the faces after it move up by the fan's extra triangles.
pub proof fn law_poke_keeps_other_faces<V, L>(
    before: HalfEdgeMesh<V, L>,
    after: HalfEdgeMesh<V, L>,
    points: Seq<V>,
    f: int,
    center_loop: L,
    g: int,
)
    requires
        rebuilt_from(
            before,
            after,
            Ok::<(), MeshError>(()),
            points,
            poked_polygons(before.polygons(), f, before.nv() as usize, center_loop),
        ),
        0 <= f < before.interior(),
        0 <= g < before.interior(),
        g != f,
    ensures
        ({
            let j = if g < f {
                g
            } else {
                g + before.polygons()[f].corners.len() - 1
            };
            0 <= j < after.interior() && after.polygons()[j] == before.polygons()[g]
        }),
{
    let ps = before.polygons();
    let fs = poked_polygons(ps, f, before.nv() as usize, center_loop);
    lemma_ok_matches(before, after, points, fs);
    let n = ps[f].corners.len() as int;
    let j = if g < f {
        g
    } else {
        g + n - 1
    };
    assert(fs.len() == ps.len() + n - 1);
    assert(fs[j] == ps[g]);
    lemma_child_corners(after, points, fs, j);
    assert(ps[g] == before.polygon(g));
    let t = after.polygons()[j];
    if ps[g].loops.len() == 0 {
        assert(t.loops =~= ps[g].loops);
    }
    assert(t.loops == ps[g].loops);
}

/// Extruding leaves every face that was not selected as it was.
pub proof fn law_extrude_keeps_unselected_faces<V, L>(
    before: HalfEdgeMesh<V, L>,
    after: HalfEdgeMesh<V, L>,
    points: Seq<V>,
    sel: Seq<FaceId>,
    flips: Seq<Seq<bool>>,
    g: int,
)
    requires
        rebuilt_from(
            before,
            after,
            Ok::<(), MeshError>(()),
            points,
            joined(extrude_parts(before.polygons(), sel, before.nv(), flips)),
        ),
        0 <= g < before.interior(),
        !selected(sel, g),
    ensures
        exists|i: int| 0 <= i < after.interior() && #[trigger] after.polygons()[i] == before.polygons()[g],
{
    let ps = before.polygons();
    let parts = extrude_parts(ps, sel, before.nv(), flips);
    let fs = joined(parts);
    lemma_ok_matches(before, after, points, fs);
    assert(parts[g] == seq![ps[g]]);
    let i = lemma_joined_index(parts, g, 0);
    lemma_child_corners(after, points, fs, i);
    assert(ps[g] == before.polygon(g));
    let t = after.polygons()[i];
    if ps[g].loops.len() == 0 {
        assert(t.loops =~= ps[g].loops);
    }
    assert(t.loops == ps[g].loops);
}

/// Extruding a face puts one wall on each of its sides: the wall over side `a -> b`, with
/// `a'` and `b'` the lifted copies of `a` and `b`, runs `a b b' a'` where the outward test
/// said so and `a a' b' b` otherwise, with the face's metadata.
pub proof fn law_extrude_walls<V, L>(
    before: HalfEdgeMesh<V, L>,
    after: HalfEdgeMesh<V, L>,
    points: Seq<V>,
    sel: Seq<FaceId>,
    flips: Seq<Seq<bool>>,
    g: int,
    k: int,
)
    requires
        rebuilt_from(
            before,
            after,
            Ok::<(), MeshError>(()),
            points,
            joined(extrude_parts(before.polygons(), sel, before.nv(), flips)),
        ),
        0 <= g < before.interior(),
        selected(sel, g),
        0 <= k < before.polygons()[g].corners.len(),
    ensures
        exists|i: int|
            0 <= i < after.interior() && ({
                let ps = before.polygons();
                let p = ps[g];
                let n = p.corners.len() as int;
                let base = before.nv() + lifted_before(ps, sel, g);
                let a = p.corners[k];
                let b = p.corners[(k + 1) % n];
                let na = (base + k) as usize;
                let nb = (base + (k + 1) % n) as usize;
                let q = #[trigger] after.polygons()[i];
                &&& flips[g][k] ==> q.corners == seq![a, b, nb, na]
                &&& !flips[g][k] ==> q.corners == seq![a, na, nb, b]
                &&& q.data == p.data
            }),
{
    let ps = before.polygons();
    let parts = extrude_parts(ps, sel, before.nv(), flips);
    let fs = joined(parts);
    lemma_ok_matches(before, after, points, fs);
    let p = ps[g];
    assert(parts[g].len() == p.corners.len() + 1);
    let i = lemma_joined_index(parts, g, k + 1);
    lemma_child_corners(after, points, fs, i);
}

/// Triangulating fans every face of more than three corners out from its first corner:
/// triangle `k` runs from the first corner to corners `k + 1` and `k + 2`, in the face's
/// winding, each corner keeping the payload it had in the face, with the face's metadata.
pub proof fn law_triangulation_fans_from_first_corner<V, L>(
    before: HalfEdgeMesh<V, L>,
    after: HalfEdgeMesh<V, L>,
    f: int,
    k: int,
)
    requires
        rebuilt_from(before, after, Ok::<(), MeshError>(()), before.vertex_data_view(), triangulated(before.polygons())),
        0 <= f < before.interior(),
        before.polygons()[f].corners.len() > 3,
        0 <= k < before.polygons()[f].corners.len() - 2,
    ensures
        exists|i: int|
            0 <= i < after.interior() && ({
                let p = before.polygons()[f];
                let q = #[trigger] after.polygons()[i];
                &&& q.corners == seq![p.corners[0], p.corners[k + 1], p.corners[k + 2]]
                &&& q.loops == seq![p.loops[0], p.loops[k + 1], p.loops[k + 2]]
                &&& q.data == p.data
            }),
{
    let ps = before.polygons();
    let parts = ps.map_values(|p: Polygon<L>| fan_triangles(p));
    let fs = triangulated(ps);
    assert(fs == joined(parts));
    lemma_ok_matches(before, after, before.vertex_data_view(), fs);
    assert(parts[f] == fan_triangles(ps[f]));
    let i = lemma_joined_index(parts, f, k);
    lemma_child_corners(after, before.vertex_data_view(), fs, i);
}

/// Triangulating keeps every face of at most three corners as it was.
pub proof fn law_triangulation_keeps_triangles<V, L>(before: HalfEdgeMesh<V, L>, after: HalfEdgeMesh<V, L>, f: int)
    requires
        rebuilt_from(before, after, Ok::<(), MeshError>(()), before.vertex_data_view(), triangulated(before.polygons())),
        0 <= f < before.interior(),
        before.polygons()[f].corners.len() <= 3,
    ensures
        exists|i: int| 0 <= i < after.interior() && #[trigger] after.polygons()[i] == before.polygons()[f],
{
    let ps = before.polygons();
    let parts = ps.map_values(|p: Polygon<L>| fan_triangles(p));
    let fs = triangulated(ps);
    assert(fs == joined(parts));
    lemma_ok_matches(before, after, before.vertex_data_view(), fs);
    assert(parts[f] == seq![ps[f]]);
    let i = lemma_joined_index(parts, f, 0);
    lemma_child_corners(after, before.vertex_data_view(), fs, i);
    assert(ps[f] == before.polygon(f));
    let t = after.polygons()[i];
    if ps[f].loops.len() == 0 {
        assert(t.loops =~= ps[f].loops);
    }
    assert(t.loops == ps[f].loops);
}

/// Splitting face `f` along the chord from its corner `a` to its corner `b` leaves, in the
/// face's place, the corners from `a` forward to `b` and, appended after the other faces,
/// the corners from `b` forward to `a`: both halves wind like the face, share the chord's
/// two corners, each corner keeps the payload it had in the face, and every other face is
/// kept.
pub proof fn law_split_face_halves<V, L>(
    before: HalfEdgeMesh<V, L>,
    after: HalfEdgeMesh<V, L>,
    f: int,
    a: int,
    b: int,
)
    requires
        mesh_matches(after, before.vertex_data_view(), split_polygons(before.polygons(), f, a, b)),
        0 <= f < before.interior(),
        0 <= a < before.polygons()[f].corners.len(),
        0 <= b < before.polygons()[f].corners.len(),
        a != b,
    ensures
        after.interior() == before.interior() + 1,
        ({
            let p = before.polygons()[f];
            let n = p.corners.len() as int;
            let q1 = after.polygons()[f];
            let q2 = after.polygons()[before.interior() as int];
            &&& q1.corners.len() + q2.corners.len() == n + 2
            &&& q1.corners[0] == p.corners[a] && q1.corners[q1.corners.len() - 1] == p.corners[b]
            &&& q2.corners[0] == p.corners[b] && q2.corners[q2.corners.len() - 1] == p.corners[a]
            &&& forall|k: int|
                0 <= k < q1.corners.len() ==> #[trigger] q1.corners[k] == p.corners[(a + k) % n] && q1.loops[k] == p.loops[(a
                    + k) % n]
            &&& forall|k: int|
                0 <= k < q2.corners.len() ==> #[trigger] q2.corners[k] == p.corners[(b + k) % n] && q2.loops[k] == p.loops[(b
                    + k) % n]
            &&& q1.data == p.data && q2.data == p.data
        }),
        forall|g: int| 0 <= g < before.interior() && g != f ==> #[trigger] after.polygons()[g] == before.polygons()[g],
{
    let ps = before.polygons();
    let fs = split_polygons(ps, f, a, b);
    let p = ps[f];
    let n = p.corners.len() as int;
    assert(p == before.polygon(f));
    let h1 = cyclic_path(p, a, b);
    let h2 = cyclic_path(p, b, a);
    assert(fs[f] == h1);
    assert(fs[ps.len() as int] == h2);
    lemma_child_corners(after, before.vertex_data_view(), fs, f);
    lemma_child_corners(after, before.vertex_data_view(), fs, ps.len() as int);
    let q1 = after.polygons()[f];
    let q2 = after.polygons()[before.interior() as int];
    assert(q1.loops == h1.loops);
    assert(q2.loops == h2.loops);
    let l1 = h1.corners.len() as int;
    let l2 = h2.corners.len() as int;
    assert(l1 - 1 == (if b >= a { b - a } else { b - a + n }));
    assert((a + (l1 - 1)) % n == b) by {
        if b >= a {
            vstd::arithmetic::div_mod::lemma_small_mod(b as nat, n as nat);
        } else {
            vstd::arithmetic::div_mod::lemma_mod_add_multiples_vanish(b, n);
            vstd::arithmetic::div_mod::lemma_small_mod(b as nat, n as nat);
        }
    }
    assert((b + (l2 - 1)) % n == a) by {
        if a >= b {
            vstd::arithmetic::div_mod::lemma_small_mod(a as nat, n as nat);
        } else {
            vstd::arithmetic::div_mod::lemma_mod_add_multiples_vanish(a, n);
            vstd::arithmetic::div_mod::lemma_small_mod(a as nat, n as nat);
        }
    }
    assert(a % n == a) by {
        vstd::arithmetic::div_mod::lemma_small_mod(a as nat, n as nat);
    }
    assert(b % n == b) by {
        vstd::arithmetic::div_mod::lemma_small_mod(b as nat, n as nat);
    }
    assert(q1.corners[0] == p.corners[(a + 0) % n]);
    assert(q2.corners[0] == p.corners[(b + 0) % n]);
    assert(q1.corners[l1 - 1] == p.corners[(a + (l1 - 1)) % n]);
    assert(q2.corners[l2 - 1] == p.corners[(b + (l2 - 1)) % n]);
    assert forall|g: int| 0 <= g < before.interior() && g != f implies #[trigger] after.polygons()[g] == before.polygons()[g] by {
        assert(fs[g] == ps[g]);
        lemma_child_corners(after, before.vertex_data_view(), fs, g);
        assert(ps[g] == before.polygon(g));
        let t = after.polygons()[g];
        if ps[g].loops.len() == 0 {
            assert(t.loops =~= ps[g].loops);
        }
        assert(t.loops == ps[g].loops);
    }
}

/// Flipping the diagonal `a - b` of the triangles `fa` (apex `oa`) and `fb` (apex `ob`)
/// re-cuts them along `oa - ob`: the new triangles run the new diagonal in opposite
/// directions, `fa` takes `b` and `fb` takes `a`; in the first winding both keep the
/// outer sides `b -> oa`, `oa -> a`, `a -> ob`, `ob -> b` of the old pair, in the other
/// both run them backwards; every other face is kept.
pub proof fn law_flip_recuts_the_pair<V, L>(
    before: HalfEdgeMesh<V, L>,
    after: HalfEdgeMesh<V, L>,
    fa: int,
    fb: int,
    a: usize,
    b: usize,
    oa: usize,
    ob: usize,
    first: bool,
)
    requires
        rebuilt_from(
            before,
            after,
            Ok::<(), MeshError>(()),
            before.vertex_data_view(),
            flipped_polygons(before.polygons(), fa, fb, a, b, oa, ob, first),
        ),
        0 <= fa < before.interior(),
        0 <= fb < before.interior(),
        fa != fb,
    ensures
        ({
            let ta = after.polygons()[fa];
            let tb = after.polygons()[fb];
            &&& ta.corners.len() == 3 && tb.corners.len() == 3
            &&& has_side(ta, oa, ob) && has_side(tb, ob, oa) || has_side(ta, ob, oa) && has_side(tb, oa, ob)
            &&& ta.corners.contains(b) && tb.corners.contains(a)
            &&& first ==> has_side(ta, b, oa) && has_side(tb, oa, a) && has_side(tb, a, ob) && has_side(ta, ob, b)
            &&& !first ==> has_side(ta, oa, b) && has_side(tb, a, oa) && has_side(tb, ob, a) && has_side(ta, b, ob)
            &&& ta.data == before.polygons()[fa].data && tb.data == before.polygons()[fb].data
        }),
        forall|g: int| 0 <= g < before.interior() && g != fa && g != fb ==> #[trigger] after.polygons()[g] == before.polygons()[g],
{
    let ps = before.polygons();
    let fs = flipped_polygons(ps, fa, fb, a, b, oa, ob, first);
    lemma_ok_matches(before, after, before.vertex_data_view(), fs);
    lemma_child_corners(after, before.vertex_data_view(), fs, fa);
    lemma_child_corners(after, before.vertex_data_view(), fs, fb);
    let ta = after.polygons()[fa];
    let tb = after.polygons()[fb];
    if first {
        assert(ta.corners == seq![oa, ob, b]);
        assert(tb.corners == seq![ob, oa, a]);
        assert(ta.corners[0] == oa && ta.corners[(0int + 1) % 3] == ob);
        assert(ta.corners[1] == ob && ta.corners[(1int + 1) % 3] == b);
        assert(ta.corners[2] == b && ta.corners[(2int + 1) % 3] == oa);
        assert(tb.corners[0] == ob && tb.corners[(0int + 1) % 3] == oa);
        assert(tb.corners[1] == oa && tb.corners[(1int + 1) % 3] == a);
        assert(tb.corners[2] == a && tb.corners[(2int + 1) % 3] == ob);
        assert(ta.corners[2] == b);
        assert(tb.corners[2] == a);
    } else {
        assert(ta.corners == seq![oa, b, ob]);
        assert(tb.corners == seq![ob, a, oa]);
        assert(ta.corners[0] == oa && ta.corners[(0int + 1) % 3] == b);
        assert(ta.corners[1] == b && ta.corners[(1int + 1) % 3] == ob);
        assert(ta.corners[2] == ob && ta.corners[(2int + 1) % 3] == oa);
        assert(tb.corners[0] == ob && tb.corners[(0int + 1) % 3] == a);
        assert(tb.corners[1] == a && tb.corners[(1int + 1) % 3] == oa);
        assert(tb.corners[2] == oa && tb.corners[(2int + 1) % 3] == ob);
        assert(ta.corners[1] == b);
        assert(tb.corners[1] == a);
    }
    assert forall|g: int| 0 <= g < before.interior() && g != fa && g != fb implies #[trigger] after.polygons()[g] == before.polygons()[g] by {
        assert(fs[g] == ps[g]);
        lemma_child_corners(after, before.vertex_data_view(), fs, g);
        assert(ps[g] == before.polygon(g));
        let t = after.polygons()[g];
        if ps[g].loops.len() == 0 {
            assert(t.loops =~= ps[g].loops);
        }
        assert(t.loops == ps[g].loops);
    }
}

/// Bridging two boundary loops keeps the faces there were and adds one quad per corner of
/// the first loop; each quad runs one side of the first loop in that loop's direction, so
/// the new faces wind like the faces they border.
pub proof fn law_bridge_follows_the_first_loop<V, L>(
    before: HalfEdgeMesh<V, L>,
    after: HalfEdgeMesh<V, L>,
    first: Seq<usize>,
    second: Seq<usize>,
    twist: int,
    i: int,
)
    requires
        rebuilt_from(
            before,
            after,
            Ok::<(), MeshError>(()),
            before.vertex_data_view(),
            before.polygons() + bridge_quads::<L>(first, second, twist),
        ),
        second.len() == first.len(),
        0 <= twist < first.len(),
        0 <= i < first.len(),
    ensures
        after.interior() == before.interior() + first.len(),
        has_side(after.polygons()[before.interior() + i], first[i], first[(i + 1) % (first.len() as int)]),
        after.polygons()[before.interior() + i].corners.len() == 4,
        forall|g: int| 0 <= g < before.interior() ==> #[trigger] after.polygons()[g] == before.polygons()[g],
{
    let ps = before.polygons();
    let fs = ps + bridge_quads::<L>(first, second, twist);
    lemma_ok_matches(before, after, before.vertex_data_view(), fs);
    let j = before.interior() + i;
    assert(fs[j] == bridge_quads::<L>(first, second, twist)[i]);
    lemma_child_corners(after, before.vertex_data_view(), fs, j);
    let q = after.polygons()[j];
    assert(q.corners[0] == first[i] && q.corners[(0int + 1) % (q.corners.len() as int)] == first[(i + 1) % (first.len() as int)]);
    assert forall|g: int| 0 <= g < before.interior() implies #[trigger] after.polygons()[g] == before.polygons()[g] by {
        assert(fs[g] == ps[g]);
        lemma_child_corners(after, before.vertex_data_view(), fs, g);
        assert(ps[g] == before.polygon(g));
        let t = after.polygons()[g];
        if ps[g].loops.len() == 0 {
            assert(t.loops =~= ps[g].loops);
        }
        assert(t.loops == ps[g].loops);
    }
}

/// Bridging two boundary loops also runs every side of the second loop, in that loop's
/// direction, as a side of one of the new quads: both boundaries are closed with the
/// winding of the faces they border.
pub proof fn law_bridge_follows_the_second_loop<V, L>(
    before: HalfEdgeMesh<V, L>,
    after: HalfEdgeMesh<V, L>,
    first: Seq<usize>,
    second: Seq<usize>,
    twist: int,
    k: int,
)
    requires
        rebuilt_from(
            before,
            after,
            Ok::<(), MeshError>(()),
            before.vertex_data_view(),
            before.polygons() + bridge_quads::<L>(first, second, twist),
        ),
        second.len() == first.len(),
        0 <= twist < first.len(),
        0 <= k < second.len(),
    ensures
        exists|i: int|
            0 <= i < first.len() && has_side(
                #[trigger] after.polygons()[before.interior() + i],
                second[k],
                second[(k + 1) % (second.len() as int)],
            ),
{
    let ps = before.polygons();
    let fs = ps + bridge_quads::<L>(first, second, twist);
    lemma_ok_matches(before, after, before.vertex_data_view(), fs);
    let n = first.len() as int;
    let rev = second.reverse();
    let y = if k <= n - 2 {
        n - 2 - k
    } else {
        n - 1
    };
    let i = if y >= twist {
        y - twist
    } else {
        y - twist + n
    };
    assert((i + twist) % n == y) by {
        if y >= twist {
            vstd::arithmetic::div_mod::lemma_small_mod(y as nat, n as nat);
        } else {
            vstd::arithmetic::div_mod::lemma_mod_add_multiples_vanish(y, n);
            vstd::arithmetic::div_mod::lemma_small_mod(y as nat, n as nat);
        }
    }
    assert(((i + 1) % n + twist) % n == (y + 1) % n) by {
        if i + 1 < n {
            vstd::arithmetic::div_mod::lemma_small_mod((i + 1) as nat, n as nat);
            if y >= twist {
            } else {
                vstd::arithmetic::div_mod::lemma_mod_add_multiples_vanish(y + 1, n);
            }
        } else {
            vstd::arithmetic::div_mod::lemma_mod_self_0(n);
            vstd::arithmetic::div_mod::lemma_small_mod(twist as nat, n as nat);
            if y + 1 < n {
                vstd::arithmetic::div_mod::lemma_small_mod((y + 1) as nat, n as nat);
            } else {
                vstd::arithmetic::div_mod::lemma_mod_self_0(n);
            }
        }
    }
    assert(rev[(y + 1) % n] == second[k] && rev[y] == second[(k + 1) % n]) by {
        if k <= n - 2 {
            vstd::arithmetic::div_mod::lemma_small_mod((y + 1) as nat, n as nat);
            vstd::arithmetic::div_mod::lemma_small_mod((k + 1) as nat, n as nat);
        } else {
            vstd::arithmetic::div_mod::lemma_mod_self_0(n);
        }
    }
    let j = before.interior() + i;
    assert(fs[j] == bridge_quads::<L>(first, second, twist)[i]);
    lemma_child_corners(after, before.vertex_data_view(), fs, j);
    let q = after.polygons()[j];
    assert(q.corners[2] == second[k] && q.corners[(2int + 1) % (q.corners.len() as int)] == second[(k + 1) % n]);
}

/// How many of the sides `0..i` of `p` lie on an edge of `keys`.
pub open spec fn split_count<L>(p: Polygon<L>, keys: Seq<(usize, usize)>, i: int) -> int
    decreases i,
{
    if i <= 0 {
        0
    } else {
        split_count(p, keys, i - 1) + if keys.contains(side_key(p, i - 1)) {
            1int
        } else {
            0int
        }
    }
}

/// Where the corners and split points of `p` land once its split sides are split.
proof fn lemma_split_run_layout<L>(p: Polygon<L>, keys: Seq<(usize, usize)>, nv: int, mid: Seq<L>, i: int)
    requires
        0 <= i <= p.corners.len(),
    ensures
        ({
            let r = split_run(p, keys, nv, mid, i);
            &&& r.0.len() == i + split_count(p, keys, i)
            &&& r.1.len() == r.0.len()
            &&& forall|c: int|
                0 <= c < i ==> {
                    let at = c + #[trigger] split_count(p, keys, c);
                    &&& r.0[at] == p.corners[c]
                    &&& r.1[at] == p.loops[c]
                    &&& keys.contains(side_key(p, c)) ==> r.0[at + 1] == (nv + slot_of(keys, side_key(p, c))) as usize
                        && r.1[at + 1] == mid[c]
                }
        }),
    decreases i,
{
    if i > 0 {
        lemma_split_run_layout(p, keys, nv, mid, i - 1);
        let pre = split_run(p, keys, nv, mid, i - 1);
        let r = split_run(p, keys, nv, mid, i);
        lemma_split_count_step(p, keys, i - 1);
        assert forall|c: int| 0 <= c < i implies {
            let at = c + #[trigger] split_count(p, keys, c);
            &&& r.0[at] == p.corners[c]
            &&& r.1[at] == p.loops[c]
            &&& keys.contains(side_key(p, c)) ==> r.0[at + 1] == (nv + slot_of(keys, side_key(p, c))) as usize
                && r.1[at + 1] == mid[c]
        } by {
            let at = c + split_count(p, keys, c);
            lemma_split_count_step(p, keys, c);
            let x = p.corners[i - 1];
            let key = side_key(p, i - 1);
            assert(pre.0.len() == (i - 1) + split_count(p, keys, i - 1));
            if keys.contains(key) {
                assert(r.0 == pre.0.push(x).push((nv + slot_of(keys, key)) as usize));
                assert(r.1 == pre.1.push(p.loops[i - 1]).push(mid[i - 1]));
            } else {
                assert(r.0 == pre.0.push(x));
                assert(r.1 == pre.1.push(p.loops[i - 1]));
            }
            if c < i - 1 {
                lemma_split_count_step(p, keys, c);
                lemma_split_count_mono(p, keys, c + 1, i - 1);
                assert(at < pre.0.len());
                let m = (nv + slot_of(keys, key)) as usize;
                if keys.contains(key) {
                    assert(pre.0.push(x).push(m)[at] == pre.0.push(x)[at]);
                    assert(pre.0.push(x)[at] == pre.0[at]);
                    assert(pre.1.push(p.loops[i - 1]).push(mid[i - 1])[at] == pre.1.push(p.loops[i - 1])[at]);
                    assert(pre.1.push(p.loops[i - 1])[at] == pre.1[at]);
                } else {
                    assert(pre.0.push(x)[at] == pre.0[at]);
                    assert(pre.1.push(p.loops[i - 1])[at] == pre.1[at]);
                }
                assert(r.0[at] == pre.0[at]);
                assert(r.1[at] == pre.1[at]);
                if keys.contains(side_key(p, c)) {
                    assert(at + 1 < pre.0.len());
                    if keys.contains(key) {
                        assert(pre.0.push(x).push(m)[at + 1] == pre.0.push(x)[at + 1]);
                        assert(pre.0.push(x)[at + 1] == pre.0[at + 1]);
                        assert(pre.1.push(p.loops[i - 1]).push(mid[i - 1])[at + 1] == pre.1.push(p.loops[i - 1])[at + 1]);
                        assert(pre.1.push(p.loops[i - 1])[at + 1] == pre.1[at + 1]);
                    } else {
                        assert(pre.0.push(x)[at + 1] == pre.0[at + 1]);
                        assert(pre.1.push(p.loops[i - 1])[at + 1] == pre.1[at + 1]);
                    }
                    assert(r.0[at + 1] == pre.0[at + 1]);
                    assert(r.1[at + 1] == pre.1[at + 1]);
                }
            } else {
                assert(at == pre.0.len());
            }
        }
    }
}

/// `split_count` grows by at most one per side.
proof fn lemma_split_count_step<L>(p: Polygon<L>, keys: Seq<(usize, usize)>, c: int)
    requires
        0 <= c,
    ensures
        split_count(p, keys, c + 1) == split_count(p, keys, c) + if keys.contains(side_key(p, c)) {
            1int
        } else {
            0int
        },
        0 <= split_count(p, keys, c) <= c,
    decreases c,
{
    if c > 0 {
        lemma_split_count_step(p, keys, c - 1);
    }
}

/// Splitting edges keeps the winding of every face: a side `a -> b` on a split edge comes
/// back as `a -> m -> b` with `m` the edge's new vertex, carrying the payload the caller
/// mixed for that side; any other side `a -> b` stays a side; each old corner keeps its
/// payload.
pub proof fn law_split_edges_keep_orientation<V, L>(
    before: HalfEdgeMesh<V, L>,
    after: HalfEdgeMesh<V, L>,
    points: Seq<V>,
    keys: Seq<(usize, usize)>,
    mids: Seq<Seq<L>>,
    f: int,
    c: int,
)
    requires
        rebuilt_from(
            before,
            after,
            Ok::<(), MeshError>(()),
            points,
            split_all(before.polygons(), keys, before.vertex_data_view().len() as int, mids),
        ),
        0 <= f < before.interior(),
        0 <= c < before.polygons()[f].corners.len(),
    ensures
        ({
            let p = before.polygons()[f];
            let n = p.corners.len() as int;
            let q = after.polygons()[f];
            let a = p.corners[c];
            let b = p.corners[(c + 1) % n];
            let m = (before.vertex_data_view().len() + slot_of(keys, edge_key(a, b))) as usize;
            &&& keys.contains(edge_key(a, b)) ==> has_side(q, a, m) && has_side(q, m, b)
            &&& !keys.contains(edge_key(a, b)) ==> has_side(q, a, b)
            &&& exists|i: int|
                0 <= i < q.corners.len() && #[trigger] q.corners[i] == a && q.loops[i] == p.loops[c]
                    && (keys.contains(edge_key(a, b)) ==> q.loops[(i + 1) % (q.corners.len() as int)] == mids[f][c])
        }),
{
    let ps = before.polygons();
    let nv = before.vertex_data_view().len() as int;
    let fs = split_all(ps, keys, nv, mids);
    lemma_ok_matches(before, after, points, fs);
    let p = ps[f];
    let n = p.corners.len() as int;
    assert(fs[f] == split_polygon(p, keys, nv, mids[f]));
    let r = split_run(p, keys, nv, mids[f], n);
    lemma_split_run_layout(p, keys, nv, mids[f], n);
    lemma_child_corners(after, points, fs, f);
    let q = after.polygons()[f];
    assert(q.corners == r.0);
    assert(q.loops == r.1);
    let len = q.corners.len() as int;
    let at = c + split_count(p, keys, c);
    let split = keys.contains(side_key(p, c));
    lemma_split_count_step(p, keys, c);
    let next_at = if c + 1 < n {
        (c + 1) + split_count(p, keys, c + 1)
    } else {
        0
    };
    assert(q.corners[at] == p.corners[c] && q.loops[at] == p.loops[c]);
    // The corner after the side `c` (or after its split point) is the next corner.
    lemma_split_count_step(p, keys, n - 1);
    assert(at + (if split { 2int } else { 1int }) <= len) by {
        lemma_split_count_mono(p, keys, c + 1, n);
    }
    assert(next_at == (at + if split { 2int } else { 1int }) % len && q.corners[next_at] == p.corners[(c + 1) % n]) by {
        if c + 1 < n {
            vstd::arithmetic::div_mod::lemma_small_mod((c + 1) as nat, n as nat);
            assert(q.corners[(c + 1) + split_count(p, keys, c + 1)] == p.corners[c + 1]);
            lemma_split_count_mono(p, keys, c + 1, n - 1);
            vstd::arithmetic::div_mod::lemma_small_mod(next_at as nat, len as nat);
        } else {
            vstd::arithmetic::div_mod::lemma_mod_self_0(n);
            vstd::arithmetic::div_mod::lemma_mod_self_0(len);
            assert(split_count(p, keys, 0) == 0);
            assert(q.corners[0 + split_count(p, keys, 0)] == p.corners[0]);
        }
    }
    if split {
        assert(at + 1 < len);
        vstd::arithmetic::div_mod::lemma_small_mod((at + 1) as nat, len as nat);
        assert(q.corners[at] == p.corners[c] && q.corners[(at + 1) % len] == q.corners[at + 1]);
        assert(has_side(q, p.corners[c], q.corners[at + 1]));
        assert(q.corners[at + 1] == q.corners[(at + 1) % len]);
        assert(q.corners[(at + 1) % len] == q.corners[at + 1] && q.corners[((at + 1) + 1) % len] == p.corners[(c + 1) % n]);
        assert(has_side(q, q.corners[at + 1], p.corners[(c + 1) % n]));
        assert(q.loops[(at + 1) % len] == mids[f][c]);
    } else {
        assert(q.corners[at] == p.corners[c] && q.corners[(at + 1) % len] == p.corners[(c + 1) % n]);
        assert(has_side(q, p.corners[c], p.corners[(c + 1) % n]));
    }
}

/// `split_count` never decreases.
proof fn lemma_split_count_mono<L>(p: Polygon<L>, keys: Seq<(usize, usize)>, i: int, j: int)
    requires
        0 <= i <= j,
    ensures
        i + split_count(p, keys, i) <= j + split_count(p, keys, j),
    decreases j - i,
{
    if i < j {
        lemma_split_count_mono(p, keys, i, j - 1);
        lemma_split_count_step(p, keys, j - 1);
    }
}

/// Every corner left by merging repeated corners is one of the corners it started from.
proof fn lemma_dedup_corners<L>(cs: Seq<usize>, ls: Seq<L>, i: int)
    requires
        0 <= i <= cs.len(),
    ensures
        forall|j: int|
            0 <= j < dedup_run(cs, ls, i).0.len() ==> exists|k: int| 0 <= k < i && cs[k] == #[trigger] dedup_run(cs, ls, i).0[j],
    decreases i,
{
    if i > 0 {
        lemma_dedup_corners(cs, ls, i - 1);
        let prev = dedup_run(cs, ls, i - 1);
        let d = dedup_run(cs, ls, i);
        assert forall|j: int| 0 <= j < d.0.len() implies exists|k: int| 0 <= k < i && cs[k] == #[trigger] d.0[j] by {
            if j < prev.0.len() {
                assert(d.0[j] == prev.0[j]);
                let k = choose|k: int| 0 <= k < i - 1 && cs[k] == #[trigger] prev.0[j];
                assert(cs[k] == d.0[j]);
            } else {
                assert(d.0[j] == cs[i - 1]);
            }
        }
    }
}

/// Every corner of a tidied polygon is a corner of the polygon.
proof fn lemma_tidy_corners<L>(p: Polygon<L>)
    ensures
        forall|j: int|
            0 <= j < tidy(p).corners.len() ==> exists|k: int| 0 <= k < p.corners.len() && p.corners[k] == #[trigger] tidy(p).corners[j],
{
    lemma_dedup_corners(p.corners, p.loops, p.corners.len() as int);
    let d = dedup_run(p.corners, p.loops, p.corners.len() as int);
    assert forall|j: int| 0 <= j < tidy(p).corners.len() implies exists|k: int|
        0 <= k < p.corners.len() && p.corners[k] == #[trigger] tidy(p).corners[j] by {
        assert(tidy(p).corners[j] == d.0[j]);
    }
}

/// Every polygon that survives cleanup is one of the polygons it started from, and keeps
/// its shape.
proof fn lemma_kept_members<L>(ps: Seq<Polygon<L>>)
    ensures
        forall|j: int|
            0 <= j < kept(ps).len() ==> keeps_shape(#[trigger] kept(ps)[j]) && exists|i: int| 0 <= i < ps.len() && ps[i] == kept(ps)[j],
    decreases ps.len(),
{
    if ps.len() > 0 {
        lemma_kept_members(ps.drop_last());
        let pre = kept(ps.drop_last());
        assert forall|j: int| 0 <= j < kept(ps).len() implies keeps_shape(#[trigger] kept(ps)[j]) && exists|i: int|
            0 <= i < ps.len() && ps[i] == kept(ps)[j] by {
            if j < pre.len() {
                assert(kept(ps)[j] == pre[j]);
                let i = choose|i: int| 0 <= i < ps.drop_last().len() && ps.drop_last()[i] == pre[j];
                assert(ps[i] == kept(ps)[j]);
            } else {
                assert(kept(ps)[j] == ps.last());
                assert(ps[ps.len() - 1] == kept(ps)[j]);
            }
        }
    }
}

/// Collapsing vertex `gone` onto a different vertex `keep` leaves no face at `gone`, and
/// every face left has at least three corners at three different vertices.
pub proof fn law_collapse_removes_the_vertex<L>(ps: Seq<Polygon<L>>, gone: usize, keep: usize)
    requires
        gone != keep,
    ensures
        !used_by(collapsed_polygons(ps, gone, keep), gone as int),
        forall|f: int|
            0 <= f < collapsed_polygons(ps, gone, keep).len() ==> keeps_shape(#[trigger] collapsed_polygons(ps, gone, keep)[f]),
{
    let once = ps.map_values(|p: Polygon<L>| tidy(merged(p, gone, keep)));
    let twice = once.map_values(|p: Polygon<L>| tidy(p));
    let fs = collapsed_polygons(ps, gone, keep);
    assert(fs == kept(twice));
    lemma_kept_members(twice);
    if used_by(fs, gone as int) {
        let (f, k) = choose|f: int, k: int| 0 <= f < fs.len() && 0 <= k < fs[f].corners.len() && fs[f].corners[k] == gone as int;
        let i = choose|i: int| 0 <= i < twice.len() && twice[i] == fs[f];
        lemma_tidy_corners(once[i]);
        let k1 = choose|k1: int| 0 <= k1 < once[i].corners.len() && once[i].corners[k1] == #[trigger] twice[i].corners[k];
        lemma_tidy_corners(merged(ps[i], gone, keep));
        let k2 = choose|k2: int|
            0 <= k2 < merged(ps[i], gone, keep).corners.len() && merged(ps[i], gone, keep).corners[k2] == #[trigger] once[i].corners[k1];
        assert(merged(ps[i], gone, keep).corners[k2] != gone);
    }
}

/// A collapse that succeeds leaves, in place of the collapsed polygons, faces with at least
/// three corners each.
pub proof fn law_collapse_leaves_real_faces<V, L>(
    before: HalfEdgeMesh<V, L>,
    after: HalfEdgeMesh<V, L>,
    remap: Seq<Option<usize>>,
    vs: Seq<V>,
    vs2: Seq<V>,
    fs2: Seq<Polygon<L>>,
    gone: usize,
    keep: usize,
    kept_vertex: VertexId,
)
    requires
        gone != keep,
        crate::ops::is_compaction(remap, vs, collapsed_polygons(before.polygons(), gone, keep), vs2, fs2),
        rebuilt_from(before, after, Ok::<VertexId, MeshError>(kept_vertex), vs2, fs2),
    ensures
        after.interior() == collapsed_polygons(before.polygons(), gone, keep).len(),
        forall|f: int| 0 <= f < after.interior() ==> (#[trigger] after.polygons()[f]).corners.len() >= 3,
{
    let fs = collapsed_polygons(before.polygons(), gone, keep);
    law_collapse_removes_the_vertex(before.polygons(), gone, keep);
    lemma_ok_matches_any(before, after, kept_vertex, vs2, fs2);
    assert forall|f: int| 0 <= f < after.interior() implies (#[trigger] after.polygons()[f]).corners.len() >= 3 by {
        lemma_child_corners(after, vs2, fs2, f);
        assert(keeps_shape(fs[f]));
    }
}

/// A successful rebuild matches its input polygons, whatever it returned.
proof fn lemma_ok_matches_any<V, L, T>(before: HalfEdgeMesh<V, L>, after: HalfEdgeMesh<V, L>, t: T, vertices: Seq<V>, fs: Seq<Polygon<L>>)
    requires
        rebuilt_from(before, after, Ok::<T, MeshError>(t), vertices, fs),
    ensures
        mesh_matches(after, vertices, fs),
{
}

/// The outward direction of side `k` of a cell, in the side order -x, +x, -y, +y, -z, +z.
pub open spec fn side_direction(k: int) -> (int, int, int) {
    if k == 0 {
        (-1, 0, 0)
    } else if k == 1 {
        (1, 0, 0)
    } else if k == 2 {
        (0, -1, 0)
    } else if k == 3 {
        (0, 1, 0)
    } else if k == 4 {
        (0, 0, -1)
    } else {
        (0, 0, 1)
    }
}

/// `b - a` for two lattice points.
pub open spec fn lattice_step(a: Lattice, b: Lattice) -> (int, int, int) {
    (b.0 - a.0, b.1 - a.1, b.2 - a.2)
}

/// The cross product of two integer vectors.
pub open spec fn cross(u: (int, int, int), v: (int, int, int)) -> (int, int, int) {
    (u.1 * v.2 - u.2 * v.1, u.2 * v.0 - u.0 * v.2, u.0 * v.1 - u.1 * v.0)
}

/// The normal of a quad by the right-hand rule over its first three corners.
pub open spec fn quad_normal(q: Seq<Lattice>) -> (int, int, int) {
    cross(lattice_step(q[0], q[1]), lattice_step(q[1], q[2]))
}

/// Every surface quad of a voxel cell is a unit square on the side it stands for, and by
/// the right-hand rule over its corners it faces out of the cell: its normal is the
/// side's outward direction.
pub proof fn law_voxel_sides_face_out(k: int, x: usize, y: usize, z: usize)
    requires
        0 <= k < 6,
        x < usize::MAX,
        y < usize::MAX,
        z < usize::MAX,
    ensures
        side_corners(k, x, y, z).len() == 4,
        quad_normal(side_corners(k, x, y, z)) == side_direction(k),
        forall|i: int|
            0 <= i < 4 ==> {
                let c = #[trigger] side_corners(k, x, y, z)[i];
                &&& x <= c.0 <= x + 1 && y <= c.1 <= y + 1 && z <= c.2 <= z + 1
                &&& k == 0 ==> c.0 == x
                &&& k == 1 ==> c.0 == x + 1
                &&& k == 2 ==> c.1 == y
                &&& k == 3 ==> c.1 == y + 1
                &&& k == 4 ==> c.2 == z
                &&& k == 5 ==> c.2 == z + 1
            },
        forall|i: int|
            0 <= i < 4 ==> {
                let d = lattice_step(side_corners(k, x, y, z)[i], #[trigger] side_corners(k, x, y, z)[(i + 1) % 4]);
                (d.0 == 0 || d.1 == 0) && (d.1 == 0 || d.2 == 0) && (d.0 == 0 || d.2 == 0) && -1 <= d.0 + d.1 + d.2 <= 1
                    && d != (0int, 0int, 0int)
            },
{
    let q = side_corners(k, x, y, z);
    let x1 = (x + 1) as usize;
    let y1 = (y + 1) as usize;
    let z1 = (z + 1) as usize;
    assert(x1 == x + 1 && y1 == y + 1 && z1 == z + 1);
    if k == 0 {
        assert(q =~= seq![(x,y,z1), (x,y1,z1), (x,y1,z), (x,y,z)]);
        assert(lattice_step(q[0], q[1]) == (0int, 1int, 0int));
        assert(lattice_step(q[1], q[2]) == (0int, 0int, -1int));
        assert(quad_normal(q) == cross((0int, 1int, 0int), (0int, 0int, -1int)));
        assert(cross((0int, 1int, 0int), (0int, 0int, -1int)) == (-1int, 0int, 0int)) by (nonlinear_arith);
        assert(side_direction(0) == (-1int, 0int, 0int));
    } else if k == 1 {
        assert(q =~= seq![(x1,y1,z), (x1,y1,z1), (x1,y,z1), (x1,y,z)]);
        assert(lattice_step(q[0], q[1]) == (0int, 0int, 1int));
        assert(lattice_step(q[1], q[2]) == (0int, -1int, 0int));
        assert(quad_normal(q) == cross((0int, 0int, 1int), (0int, -1int, 0int)));
        assert(cross((0int, 0int, 1int), (0int, -1int, 0int)) == (1int, 0int, 0int)) by (nonlinear_arith);
        assert(side_direction(1) == (1int, 0int, 0int));
    } else if k == 2 {
        assert(q =~= seq![(x1,y,z), (x1,y,z1), (x,y,z1), (x,y,z)]);
        assert(lattice_step(q[0], q[1]) == (0int, 0int, 1int));
        assert(lattice_step(q[1], q[2]) == (-1int, 0int, 0int));
        assert(quad_normal(q) == cross((0int, 0int, 1int), (-1int, 0int, 0int)));
        assert(cross((0int, 0int, 1int), (-1int, 0int, 0int)) == (0int, -1int, 0int)) by (nonlinear_arith);
        assert(side_direction(2) == (0int, -1int, 0int));
    } else if k == 3 {
        assert(q =~= seq![(x,y1,z1), (x1,y1,z1), (x1,y1,z), (x,y1,z)]);
        assert(lattice_step(q[0], q[1]) == (1int, 0int, 0int));
        assert(lattice_step(q[1], q[2]) == (0int, 0int, -1int));
        assert(quad_normal(q) == cross((1int, 0int, 0int), (0int, 0int, -1int)));
        assert(cross((1int, 0int, 0int), (0int, 0int, -1int)) == (0int, 1int, 0int)) by (nonlinear_arith);
        assert(side_direction(3) == (0int, 1int, 0int));
    } else if k == 4 {
        assert(q =~= seq![(x,y1,z), (x1,y1,z), (x1,y,z), (x,y,z)]);
        assert(lattice_step(q[0], q[1]) == (1int, 0int, 0int));
        assert(lattice_step(q[1], q[2]) == (0int, -1int, 0int));
        assert(quad_normal(q) == cross((1int, 0int, 0int), (0int, -1int, 0int)));
        assert(cross((1int, 0int, 0int), (0int, -1int, 0int)) == (0int, 0int, -1int)) by (nonlinear_arith);
        assert(side_direction(4) == (0int, 0int, -1int));
    } else {
        assert(q =~= seq![(x1,y,z1), (x1,y1,z1), (x,y1,z1), (x,y,z1)]);
        assert(lattice_step(q[0], q[1]) == (0int, 1int, 0int));
        assert(lattice_step(q[1], q[2]) == (-1int, 0int, 0int));
        assert(quad_normal(q) == cross((0int, 1int, 0int), (-1int, 0int, 0int)));
        assert(cross((0int, 1int, 0int), (-1int, 0int, 0int)) == (0int, 0int, 1int)) by (nonlinear_arith);
        assert(side_direction(5) == (0int, 0int, 1int));
    }
    assert(q[(0int + 1) % 4] == q[1] && q[(1int + 1) % 4] == q[2] && q[(2int + 1) % 4] == q[3] && q[(3int + 1) % 4] == q[0]);
}

} // verus!
