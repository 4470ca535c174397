use crate::attributes::FacePayload;
use crate::error::MeshError;
use crate::ids::{EdgeId, FaceId, HalfEdgeId, VertexId};
use crate::mesh::{HalfEdgeMesh, Polygon, Topology};
use crate::topology::is_component_split;
use crate::build_spec::{builds_manifold, built_topology};
use crate::rebuild::{corner_total, open_sides, face_view, input_problem, mesh_matches, problem_error, snapshot_fits, views};
use crate::snapshot::{corners_in_range, empty_face_payload, remap_hits, vertex_used, MeshSnapshot, PolygonFace};
use vstd::prelude::*;

verus! {

/// What rebuilding a mesh from a vertex list and polygons over it leaves behind: on
/// failure the mesh is unchanged and the failure is the one the rebuild reports for that
/// input; on success the mesh is exactly that input, built as the construction over it
/// prescribes, and success comes exactly when that construction closes into a valid mesh.
pub open spec fn rebuilt_from<V, L, T>(
    before: HalfEdgeMesh<V, L>,
    after: HalfEdgeMesh<V, L>,
    r: Result<T, MeshError>,
    vertices: Seq<V>,
    faces: Seq<Polygon<L>>,
) -> bool {
    let nv = vertices.len() as int;
    &&& r is Err ==> after == before
    &&& !snapshot_fits(nv, faces) ==> r is Err && r->Err_0 is Validation
    &&& snapshot_fits(nv, faces) && input_problem(nv, faces) is Some ==> r is Err && problem_error(
        input_problem(nv, faces)->0,
        r->Err_0,
    )
    &&& snapshot_fits(nv, faces) && input_problem(nv, faces) is None ==> (r is Err ==> r->Err_0 is Validation)
        && (r is Ok ==> mesh_matches(after, vertices, faces))
    &&& snapshot_fits(nv, faces) && input_problem(nv, faces) is None ==> (r is Ok <==> builds_manifold(nv, faces))
    &&& r is Ok ==> after.topology() == built_topology(nv, faces)->0
    &&& r is Ok ==> after.canonical()
    &&& r is Ok ==> after.nh() == corner_total(faces) + open_sides(faces).len() && after.nh() == 2 * after.ne()
}

/// What collapsing `edge` of `before` onto the origin of its representative half-edge,
/// with `payload` for the vertex kept, leaves: an invalid edge or a boundary edge is
/// refused, as is a collapse that leaves the kept vertex unused; otherwise the mesh is
/// rebuilt from the collapsed polygons with unused vertices compacted away, and the kept
/// vertex is returned under its new index.
pub open spec fn collapse_outcome<V: Copy, L: Copy>(
    before: HalfEdgeMesh<V, L>,
    after: HalfEdgeMesh<V, L>,
    r: Result<VertexId, MeshError>,
    edge: EdgeId,
    payload: V,
) -> bool {
    &&& edge.idx() >= before.ne() ==> r == Err::<VertexId, MeshError>(MeshError::InvalidEdge(edge)) && after == before
    &&& edge.idx() < before.ne() && before.edge_on_boundary(edge.idx()) ==> r == Err::<VertexId, MeshError>(
        MeshError::BoundaryOperation { operation: "collapse_edge" },
    ) && after == before
    &&& edge.idx() < before.ne() && !before.edge_on_boundary(edge.idx()) ==> {
        let ends = before.edge_endpoints_spec(edge.idx());
        let keep = ends.0.0 as usize;
        let gone = ends.1.0 as usize;
        let vs = before.vertex_data_view().update(keep as int, payload);
        let fs = collapsed_polygons(before.polygons(), gone, keep);
        &&& !used_by(fs, keep as int) ==> r is Err && r->Err_0 is InvalidTopology && after == before
        &&& used_by(fs, keep as int) ==> exists|remap: Seq<Option<usize>>, vs2: Seq<V>, fs2: Seq<Polygon<L>>|
            #[trigger] is_compaction(remap, vs, fs, vs2, fs2) && rebuilt_from(before, after, r, vs2, fs2) && (r is Ok
                ==> remap[keep as int] == Some(r->Ok_0.0 as usize))
    }
}

/// Polygons over `nv` vertices that fit the id range, break no rule, and close into a
/// valid mesh: exactly those a build accepts.
pub open spec fn builds_cleanly<L>(nv: int, fs: Seq<Polygon<L>>) -> bool {
    &&& snapshot_fits(nv, fs)
    &&& input_problem(nv, fs) is None
    &&& builds_manifold(nv, fs)
}

/// The vertex indices named by a list of vertex ids.
pub open spec fn id_corners(vs: Seq<VertexId>) -> Seq<usize> {
    vs.map_values(|v: VertexId| v.0 as usize)
}

/// A polygon authored from bare corners: no loop payloads, empty metadata.
pub open spec fn authored<L>(corners: Seq<usize>) -> Polygon<L> {
    Polygon { corners, loops: Seq::empty(), data: empty_face_payload() }
}

/// The fan triangulation of a polygon around its first corner; triangles and smaller
/// polygons are kept as they are.
pub open spec fn fan_triangles<L>(p: Polygon<L>) -> Seq<Polygon<L>> {
    let n = p.corners.len() as int;
    if n <= 3 {
        seq![p]
    } else {
        Seq::new(
            (n - 2) as nat,
            |k: int|
                Polygon {
                    corners: seq![p.corners[0], p.corners[k + 1], p.corners[k + 2]],
                    loops: seq![p.loops[0], p.loops[k + 1], p.loops[k + 2]],
                    data: p.data,
                },
        )
    }
}

/// The concatenation of a list of sequences, in order.
pub open spec fn joined<A>(parts: Seq<Seq<A>>) -> Seq<A>
    decreases parts.len(),
{
    if parts.len() == 0 {
        Seq::empty()
    } else {
        joined(parts.drop_last()) + parts.last()
    }
}

/// Every polygon replaced by its fan triangulation.
pub open spec fn triangulated<L>(ps: Seq<Polygon<L>>) -> Seq<Polygon<L>> {
    joined(ps.map_values(|p: Polygon<L>| fan_triangles(p)))
}

pub proof fn lemma_views_push<L>(fs: Seq<PolygonFace<L>>, f: PolygonFace<L>)
    ensures
        views(fs.push(f)) == views(fs).push(face_view(f)),
{
    assert(views(fs.push(f)) =~= views(fs).push(face_view(f)));
}

pub proof fn lemma_joined_push<A>(parts: Seq<Seq<A>>, last: Seq<A>)
    ensures
        joined(parts.push(last)) == joined(parts) + last,
{
    assert(parts.push(last).drop_last() =~= parts);
}

/// Copies the vertex indices of a list of vertex ids.
fn corner_indices(vertices: &[VertexId]) -> (r: Vec<usize>)
    ensures
        r@ == id_corners(vertices@),
{
    let mut r: Vec<usize> = Vec::new();
    let mut i: usize = 0;
    while i < vertices.len()
        invariant
            i <= vertices@.len(),
            r@ == id_corners(vertices@.subrange(0, i as int)),
        decreases vertices@.len() - i,
    {
        proof {
            assert(id_corners(vertices@.subrange(0, i + 1)) =~= id_corners(vertices@.subrange(0, i as int)).push(
                vertices@[i as int].0 as usize,
            ));
        }
        r.push(vertices[i].index());
        i = i + 1;
    }
    proof {
        assert(vertices@.subrange(0, vertices@.len() as int) =~= vertices@);
    }
    r
}

/// The fan triangulation of one snapshot polygon.
fn triangulate_polygon_face<L: Copy>(face: &PolygonFace<L>) -> (r: Vec<PolygonFace<L>>)
    requires
        face.loops@.len() == face.vertices@.len(),
    ensures
        views(r@) == fan_triangles(face_view(*face)),
{
    let n = face.vertices.len();
    let mut r: Vec<PolygonFace<L>> = Vec::new();
    if n <= 3 {
        r.push(face.copy());
        proof {
            assert(views(r@) =~= seq![face_view(*face)]);
        }
        return r;
    }
    let ghost p = face_view(*face);
    let mut k: usize = 1;
    while k + 1 < n
        invariant
            3 < n == face.vertices@.len() == face.loops@.len(),
            p == face_view(*face),
            1 <= k < n,
            views(r@) =~= fan_triangles(p).take(k - 1),
        decreases n - k,
    {
        let tri = PolygonFace {
            vertices: vec![face.vertices[0], face.vertices[k], face.vertices[k + 1]],
            loops: vec![face.loops[0], face.loops[k], face.loops[k + 1]],
            data: face.data,
        };
        proof {
            assert(face_view(tri) == fan_triangles(p)[k - 1]) by {
                assert(tri.vertices@ =~= seq![p.corners[0], p.corners[k as int], p.corners[k + 1]]);
                assert(tri.loops@ =~= seq![p.loops[0], p.loops[k as int], p.loops[k + 1]]);
            }
            lemma_views_push(r@, tri);
            assert(fan_triangles(p).take(k as int) =~= fan_triangles(p).take(k - 1).push(fan_triangles(p)[k - 1]));
        }
        r.push(tri);
        k = k + 1;
    }
    proof {
        assert(fan_triangles(p).take(k - 1) =~= fan_triangles(p));
    }
    r
}


/// `e` is an `UnsupportedOperation` error of the named operation.
pub open spec fn unsupported(e: MeshError, operation: &'static str) -> bool {
    e matches MeshError::UnsupportedOperation { operation: op, .. } && op == operation
}

/// `k` is the first position of `v` in `s`.
pub open spec fn is_first_index(s: Seq<usize>, v: usize, k: int) -> bool {
    &&& 0 <= k < s.len()
    &&& s[k] == v
    &&& forall|j: int| 0 <= j < k ==> s[j] != v
}

/// Two corner positions of an `n`-gon are equal or neighbours.
pub open spec fn corners_adjacent(a: int, b: int, n: int) -> bool {
    a == b || (a + 1) % n == b || (b + 1) % n == a
}

/// The corners of `p` from position `a` forward, cyclically, to position `b` (both kept),
/// with their loop payloads and the metadata of `p`.
pub open spec fn cyclic_path<L>(p: Polygon<L>, a: int, b: int) -> Polygon<L> {
    let n = p.corners.len() as int;
    let m = (if b >= a { b - a } else { b - a + n }) + 1;
    Polygon {
        corners: Seq::new(m as nat, |k: int| p.corners[(a + k) % n]),
        loops: Seq::new(m as nat, |k: int| p.loops[(a + k) % n]),
        data: p.data,
    }
}

/// Face `f` cut along the chord from its corner `a` to its corner `b`: the path `a..b`
/// replaces the face and the path `b..a` is appended.
pub open spec fn split_polygons<L>(ps: Seq<Polygon<L>>, f: int, a: int, b: int) -> Seq<Polygon<L>> {
    ps.update(f, cyclic_path(ps[f], a, b)).push(cyclic_path(ps[f], b, a))
}

/// Edge `e` of `m` joins vertex indices `a` and `b`, in either direction.
pub open spec fn edge_joins<V: Copy, L: Copy>(m: HalfEdgeMesh<V, L>, e: int, a: usize, b: usize) -> bool {
    let ends = m.edge_endpoints_spec(e);
    (ends.0.0 == a && ends.1.0 == b) || (ends.0.0 == b && ends.1.0 == a)
}

/// The result of looking up the edge between `a` and `b`: the first such edge, or an
/// `InvalidTopology` error when there is none.
pub open spec fn edge_lookup<V: Copy, L: Copy>(m: HalfEdgeMesh<V, L>, r: Result<EdgeId, MeshError>, a: usize, b: usize) -> bool {
    match r {
        Ok(e) => {
            &&& 0 <= e.idx() < m.ne()
            &&& edge_joins(m, e.idx(), a, b)
            &&& forall|j: int| 0 <= j < e.idx() ==> !edge_joins(m, j, a, b)
        },
        Err(err) => {
            &&& err is InvalidTopology
            &&& forall|j: int| 0 <= j < m.ne() ==> !edge_joins(m, j, a, b)
        },
    }
}

/// The first position of `v` in `s`.
fn find_position(s: &Vec<usize>, v: usize) -> (r: Option<usize>)
    ensures
        r matches Some(k) ==> is_first_index(s@, v, k as int),
        r is None ==> !s@.contains(v),
{
    let mut i: usize = 0;
    while i < s.len()
        invariant
            i <= s@.len(),
            forall|j: int| 0 <= j < i ==> s@[j] != v,
        decreases s@.len() - i,
    {
        if s[i] == v {
            return Some(i);
        }
        i = i + 1;
    }
    proof {
        if s@.contains(v) {
            let j = choose|j: int| 0 <= j < s@.len() && s@[j] == v;
            assert(s@[j] != v);
        }
    }
    None
}

/// The corners of `face` from position `start` forward, cyclically, to position `end`.
fn polygon_path<L: Copy>(face: &PolygonFace<L>, start: usize, end: usize) -> (r: PolygonFace<L>)
    requires
        face.loops@.len() == face.vertices@.len(),
        start < face.vertices@.len(),
        end < face.vertices@.len(),
    ensures
        face_view(r) == cyclic_path(face_view(*face), start as int, end as int),
{
    let n = face.vertices.len();
    let m = if end >= start { end - start + 1 } else { n - (start - end) + 1 };
    let ghost p = face_view(*face);
    let ghost q = cyclic_path(p, start as int, end as int);
    let mut vertices: Vec<usize> = Vec::new();
    let mut loops: Vec<L> = Vec::new();
    let mut k: usize = 0;
    while k < m
        invariant
            n == face.vertices@.len() == face.loops@.len(),
            start < n,
            end < n,
            m <= n,
            p == face_view(*face),
            q == cyclic_path(p, start as int, end as int),
            q.corners.len() == m,
            k <= m,
            vertices@ =~= q.corners.take(k as int),
            loops@ =~= q.loops.take(k as int),
        decreases m - k,
    {
        let idx = if k >= n - start { k - (n - start) } else { start + k };
        proof {
            if start + k >= n {
                vstd::arithmetic::div_mod::lemma_mod_add_multiples_vanish(idx as int, n as int);
                vstd::arithmetic::div_mod::lemma_small_mod(idx as nat, n as nat);
            } else {
                vstd::arithmetic::div_mod::lemma_small_mod((start + k) as nat, n as nat);
            }
            assert((start + k) % (n as int) == idx);
        }
        vertices.push(face.vertices[idx]);
        loops.push(face.loops[idx]);
        k = k + 1;
    }
    proof {
        assert(q.corners.take(m as int) =~= q.corners);
        assert(q.loops.take(m as int) =~= q.loops);
    }
    PolygonFace { vertices, loops, data: face.data }
}

/// The first edge of `m` between vertex indices `a` and `b`.
fn find_edge_by_endpoints<V: Copy, L: Copy>(m: &HalfEdgeMesh<V, L>, a: usize, b: usize) -> (r: Result<EdgeId, MeshError>)
    ensures
        edge_lookup(*m, r, a, b),
{
    proof {
        use_type_invariant(m);
    }
    let ne = m.edge_count();
    let mut e: usize = 0;
    while e < ne
        invariant
            ne == m.ne(),
            m.ne() < u32::MAX,
            e <= ne,
            forall|j: int| 0 <= j < e ==> !edge_joins(*m, j, a, b),
        decreases ne - e,
    {
        let id = EdgeId(e as u32);
        match m.edge_endpoints(id) {
            Ok((left, right)) => {
                if (left.index() == a && right.index() == b) || (left.index() == b && right.index() == a) {
                    return Ok(id);
                }
            },
            Err(_) => {},
        }
        e = e + 1;
    }
    Err(MeshError::InvalidTopology("rebuilt mesh did not contain the expected edge"))
}


/// Face `f` replaced by the fan of triangles from each of its sides to a new vertex `c`
/// whose corner payload is `cl`.
pub open spec fn poked_polygons<L>(ps: Seq<Polygon<L>>, f: int, c: usize, cl: L) -> Seq<Polygon<L>> {
    let p = ps[f];
    let n = p.corners.len() as int;
    let fan = Seq::new(
        n as nat,
        |k: int|
            Polygon {
                corners: seq![p.corners[k], p.corners[(k + 1) % n], c],
                loops: seq![p.loops[k], p.loops[(k + 1) % n], cl],
                data: p.data,
            },
    );
    ps.take(f) + fan + ps.skip(f + 1)
}

/// Directed side `x -> y` of `p` starts at corner `i`.
pub open spec fn side_at<L>(p: Polygon<L>, x: usize, y: usize, i: int) -> bool {
    p.corners[i] == x && p.corners[(i + 1) % (p.corners.len() as int)] == y
}

/// Directed side `x -> y` of `p` starts at corner `i`, and at no earlier corner.
pub open spec fn first_side<L>(p: Polygon<L>, x: usize, y: usize, i: int) -> bool {
    &&& 0 <= i < p.corners.len()
    &&& side_at(p, x, y, i)
    &&& forall|j: int| 0 <= j < i ==> !#[trigger] side_at(p, x, y, j)
}

/// The corner two steps after the first directed side `x -> y` of `p` (the corner facing
/// that side in a triangle), if the side exists.
pub open spec fn side_opposite<L>(p: Polygon<L>, x: usize, y: usize) -> Option<usize> {
    if exists|i: int| first_side(p, x, y, i) {
        let i = choose|i: int| first_side(p, x, y, i);
        Some(p.corners[(i + 2) % (p.corners.len() as int)])
    } else {
        None
    }
}

/// The payload of the first corner of `p` at vertex `v`.
pub open spec fn first_loop<L>(p: Polygon<L>, v: usize) -> L {
    p.loops[choose|k: int| is_first_index(p.corners, v, k)]
}

/// The corner payload a flipped triangle takes at vertex `v`: from `primary` where `v` is
/// one of its corners, else from `secondary`.
pub open spec fn loop_for<L>(primary: Polygon<L>, secondary: Polygon<L>, v: usize) -> L {
    if primary.corners.contains(v) {
        first_loop(primary, v)
    } else {
        first_loop(secondary, v)
    }
}

/// A triangle over `corners` that takes its payloads from `primary` then `secondary`.
pub open spec fn flipped_triangle<L>(corners: Seq<usize>, primary: Polygon<L>, secondary: Polygon<L>) -> Polygon<L> {
    Polygon {
        corners,
        loops: corners.map_values(|v: usize| loop_for(primary, secondary, v)),
        data: primary.data,
    }
}

/// The two triangles `fa` (side `a -> b`, apex `oa`) and `fb` (side `b -> a`, apex `ob`)
/// re-cut along `oa - ob`; `first` picks the first of the two windings.
pub open spec fn flipped_polygons<L>(
    ps: Seq<Polygon<L>>,
    fa: int,
    fb: int,
    a: usize,
    b: usize,
    oa: usize,
    ob: usize,
    first: bool,
) -> Seq<Polygon<L>> {
    let na = if first { seq![oa, ob, b] } else { seq![oa, b, ob] };
    let nb = if first { seq![ob, oa, a] } else { seq![ob, a, oa] };
    ps.update(fa, flipped_triangle(na, ps[fa], ps[fb])).update(fb, flipped_triangle(nb, ps[fb], ps[fa]))
}

/// Appends copies of `src[lo..hi]`.
pub(crate) fn append_faces<L: Copy>(out: &mut Vec<PolygonFace<L>>, src: &Vec<PolygonFace<L>>, lo: usize, hi: usize)
    requires
        lo <= hi <= src@.len(),
    ensures
        views(final(out)@) == views(old(out)@) + views(src@).subrange(lo as int, hi as int),
{
    let ghost start = out@;
    let mut i: usize = lo;
    while i < hi
        invariant
            lo <= i <= hi <= src@.len(),
            views(out@) == views(start) + views(src@).subrange(lo as int, i as int),
        decreases hi - i,
    {
        let f = src[i].copy();
        proof {
            lemma_views_push(out@, f);
            assert(face_view(f) == views(src@)[i as int]);
            assert(views(src@).subrange(lo as int, i + 1) =~= views(src@).subrange(lo as int, i as int).push(
                views(src@)[i as int],
            ));
        }
        out.push(f);
        i = i + 1;
    }
}

/// The corner facing the first directed side `x -> y` of `face`.
pub(crate) fn triangle_opposite<L>(face: &PolygonFace<L>, x: usize, y: usize) -> (r: Option<usize>)
    ensures
        r == side_opposite(face_view(*face), x, y),
{
    let n = face.vertices.len();
    let ghost p = face_view(*face);
    let mut i: usize = 0;
    while i < n
        invariant
            n == p.corners.len(),
            p == face_view(*face),
            i <= n,
            forall|j: int| 0 <= j < i ==> !#[trigger] side_at(p, x, y, j),
        decreases n - i,
    {
        let next = if i + 1 == n { 0 } else { i + 1 };
        let after = if next + 1 == n { 0 } else { next + 1 };
        proof {
            if i + 1 == n {
                vstd::arithmetic::div_mod::lemma_mod_self_0(n as int);
            } else {
                vstd::arithmetic::div_mod::lemma_small_mod((i + 1) as nat, n as nat);
            }
        }
        if face.vertices[i] == x && face.vertices[next] == y {
            proof {
                assert(first_side(p, x, y, i as int));
                let k = choose|k: int| first_side(p, x, y, k);
                if k < i {
                    assert(false);
                } else if k > i {
                    assert(!side_at(p, x, y, i as int));
                }
                assert((i + 2) % (n as int) == after) by {
                    if next + 1 == n {
                        vstd::arithmetic::div_mod::lemma_mod_self_0(n as int);
                        if i + 1 == n {
                            assert(n == 1);
                            vstd::arithmetic::div_mod::lemma_mod_add_multiples_vanish(1, 1);
                        }
                    } else if i + 1 == n {
                        vstd::arithmetic::div_mod::lemma_mod_add_multiples_vanish(1, n as int);
                        vstd::arithmetic::div_mod::lemma_small_mod(1, n as nat);
                    } else {
                        vstd::arithmetic::div_mod::lemma_small_mod((i + 2) as nat, n as nat);
                    }
                }
            }
            return Some(face.vertices[after]);
        }
        i = i + 1;
    }
    proof {
        assert(!exists|k: int| first_side(p, x, y, k));
    }
    None
}

/// The payload of the first corner of `primary` at `v`, else of `secondary`.
fn loop_for_vertex<L: Copy + Default>(primary: &PolygonFace<L>, secondary: &PolygonFace<L>, v: usize) -> (r: L)
    requires
        primary.loops@.len() == primary.vertices@.len(),
        secondary.loops@.len() == secondary.vertices@.len(),
        primary.vertices@.contains(v) || secondary.vertices@.contains(v),
    ensures
        r == loop_for(face_view(*primary), face_view(*secondary), v),
{
    match find_position(&primary.vertices, v) {
        Some(k) => {
            proof {
                let c = choose|c: int| is_first_index(primary.vertices@, v, c);
                assert(c == k);
            }
            primary.loops[k]
        },
        None => match find_position(&secondary.vertices, v) {
            Some(k) => {
                proof {
                    let c = choose|c: int| is_first_index(secondary.vertices@, v, c);
                    assert(c == k);
                }
                secondary.loops[k]
            },
            None => L::default(),
        },
    }
}


/// Vertex `i` is a corner of one of the polygons.
pub open spec fn used_by<L>(fs: Seq<Polygon<L>>, i: int) -> bool {
    exists|f: int, k: int| 0 <= f < fs.len() && 0 <= k < fs[f].corners.len() && fs[f].corners[k] == i
}

/// `vs2`, `fs2` are `vs`, `fs` with the vertices no polygon uses dropped and the rest
/// renumbered in their old order; `remap` gives each old vertex its new index.
pub open spec fn is_compaction<V, L>(
    remap: Seq<Option<usize>>,
    vs: Seq<V>,
    fs: Seq<Polygon<L>>,
    vs2: Seq<V>,
    fs2: Seq<Polygon<L>>,
) -> bool {
    &&& remap.len() == vs.len()
    &&& forall|i: int| 0 <= i < remap.len() ==> ((#[trigger] remap[i]) is Some <==> used_by(fs, i))
    &&& forall|i: int|
        0 <= i < remap.len() && (#[trigger] remap[i]) is Some ==> remap[i]->0 < vs2.len() && vs2[remap[i]->0 as int]
            == vs[i]
    &&& forall|i: int, j: int|
        0 <= i < j < remap.len() && (#[trigger] remap[i]) is Some && (#[trigger] remap[j]) is Some ==> remap[i]->0
            < remap[j]->0
    &&& forall|n: int| 0 <= n < vs2.len() ==> #[trigger] remap_hits(remap, n)
    &&& fs2.len() == fs.len()
    &&& forall|f: int|
        0 <= f < fs.len() ==> {
            &&& (#[trigger] fs2[f]).loops == fs[f].loops
            &&& fs2[f].data == fs[f].data
            &&& fs2[f].corners.len() == fs[f].corners.len()
            &&& forall|k: int| 0 <= k < fs[f].corners.len() ==> remap[fs[f].corners[k] as int] == Some(#[trigger] fs2[f].corners[k])
        }
}

/// The first `i` corners with runs of equal consecutive corners kept once (the first of
/// each run, with its payload).
pub open spec fn dedup_run<L>(cs: Seq<usize>, ls: Seq<L>, i: int) -> (Seq<usize>, Seq<L>)
    decreases i,
{
    if i <= 0 {
        (Seq::empty(), Seq::empty())
    } else {
        let prev = dedup_run(cs, ls, i - 1);
        if prev.0.len() > 0 && prev.0.last() == cs[i - 1] {
            prev
        } else {
            (prev.0.push(cs[i - 1]), prev.1.push(ls[i - 1]))
        }
    }
}

/// A polygon with repeated consecutive corners merged and a last corner equal to the first
/// dropped.
pub open spec fn tidy<L>(p: Polygon<L>) -> Polygon<L> {
    let d = dedup_run(p.corners, p.loops, p.corners.len() as int);
    if d.0.len() >= 2 && d.0[0] == d.0.last() {
        Polygon { corners: d.0.drop_last(), loops: d.1.drop_last(), data: p.data }
    } else {
        Polygon { corners: d.0, loops: d.1, data: p.data }
    }
}

/// A polygon with every corner at `from` moved to `into`.
pub open spec fn merged<L>(p: Polygon<L>, from: usize, into: usize) -> Polygon<L> {
    Polygon { corners: p.corners.map_values(|c: usize| if c == from { into } else { c }), loops: p.loops, data: p.data }
}

/// Three pairwise different values occur in `s`.
pub open spec fn three_distinct(s: Seq<usize>) -> bool {
    exists|i: int, j: int, k: int|
        0 <= i < s.len() && 0 <= j < s.len() && 0 <= k < s.len() && #[trigger] s[i] != #[trigger] s[j] && s[i]
            != #[trigger] s[k] && s[j] != s[k]
}

/// A polygon survives cleanup when it has at least three corners at three different
/// vertices.
pub open spec fn keeps_shape<L>(p: Polygon<L>) -> bool {
    p.corners.len() >= 3 && three_distinct(p.corners)
}

/// The polygons that survive cleanup, in order.
pub open spec fn kept<L>(ps: Seq<Polygon<L>>) -> Seq<Polygon<L>>
    decreases ps.len(),
{
    if ps.len() == 0 {
        Seq::empty()
    } else {
        kept(ps.drop_last()) + (if keeps_shape(ps.last()) { seq![ps.last()] } else { Seq::empty() })
    }
}

/// Snapshot cleanup: every polygon tidied, then the degenerate ones dropped.
pub open spec fn cleaned<L>(ps: Seq<Polygon<L>>) -> Seq<Polygon<L>> {
    kept(ps.map_values(|p: Polygon<L>| tidy(p)))
}

/// The polygons after moving vertex `from` onto `into`: each merged and tidied, then
/// cleaned.
pub open spec fn collapsed_polygons<L>(ps: Seq<Polygon<L>>, from: usize, into: usize) -> Seq<Polygon<L>> {
    cleaned(ps.map_values(|p: Polygon<L>| tidy(merged(p, from, into))))
}

proof fn lemma_used_views<L>(faces: Seq<PolygonFace<L>>, i: int)
    ensures
        vertex_used(faces, i) == used_by(views(faces), i),
{
    if vertex_used(faces, i) {
        let (f, k) = choose|f: int, k: int|
            0 <= f < faces.len() && 0 <= k < faces[f].vertices@.len() && faces[f].vertices@[k] == i;
        assert(views(faces)[f].corners[k] == i);
    }
    if used_by(views(faces), i) {
        let (f, k) = choose|f: int, k: int|
            0 <= f < views(faces).len() && 0 <= k < views(faces)[f].corners.len() && views(faces)[f].corners[k] == i;
        assert(faces[f].vertices@[k] == i);
    }
}

/// `face` with corners at `from` moved to `into`, runs of equal corners merged and a
/// closing repeat of the first corner dropped.
fn tidy_polygon<L: Copy>(face: &PolygonFace<L>, from: usize, into: usize, nv: usize) -> (r: PolygonFace<L>)
    requires
        face.loops@.len() == face.vertices@.len(),
        into < nv || from == into,
        forall|k: int| 0 <= k < face.vertices@.len() ==> #[trigger] face.vertices@[k] < nv,
    ensures
        face_view(r) == tidy(merged(face_view(*face), from, into)),
        r.loops@.len() == r.vertices@.len(),
        forall|k: int| 0 <= k < r.vertices@.len() ==> #[trigger] r.vertices@[k] < nv,
{
    let ghost m = merged(face_view(*face), from, into);
    let n = face.vertices.len();
    let mut vs: Vec<usize> = Vec::new();
    let mut ls: Vec<L> = Vec::new();
    let mut i: usize = 0;
    while i < n
        invariant
            n == face.vertices@.len() == face.loops@.len() == m.corners.len() == m.loops.len(),
            m == merged(face_view(*face), from, into),
            into < nv || from == into,
            forall|k: int| 0 <= k < face.vertices@.len() ==> #[trigger] face.vertices@[k] < nv,
            i <= n,
            (vs@, ls@) == dedup_run(m.corners, m.loops, i as int),
            vs@.len() == ls@.len(),
            forall|k: int| 0 <= k < vs@.len() ==> #[trigger] vs@[k] < nv,
        decreases n - i,
    {
        let raw = face.vertices[i];
        let v = if raw == from { into } else { raw };
        proof {
            assert(m.corners[i as int] == v);
        }
        let skip = vs.len() > 0 && vs[vs.len() - 1] == v;
        if !skip {
            vs.push(v);
            ls.push(face.loops[i]);
        }
        i = i + 1;
    }
    let len = vs.len();
    if len >= 2 && vs[0] == vs[len - 1] {
        vs.pop();
        ls.pop();
    }
    PolygonFace { vertices: vs, loops: ls, data: face.data }
}

/// Three pairwise different values occur in `s`.
pub(crate) fn has_three_distinct(s: &Vec<usize>) -> (b: bool)
    ensures
        b == three_distinct(s@),
{
    if s.len() == 0 {
        return false;
    }
    let x = s[0];
    let mut j: usize = 0;
    while j < s.len() && s[j] == x
        invariant
            j <= s@.len(),
            x == s@[0],
            forall|k: int| 0 <= k < j ==> s@[k] == x,
        decreases s@.len() - j,
    {
        j = j + 1;
    }
    if j == s.len() {
        proof {
            if three_distinct(s@) {
                let (a, b, c) = choose|a: int, b: int, c: int|
                    0 <= a < s@.len() && 0 <= b < s@.len() && 0 <= c < s@.len() && #[trigger] s@[a] != #[trigger] s@[b]
                        && s@[a] != #[trigger] s@[c] && s@[b] != s@[c];
                assert(s@[a] == x && s@[b] == x);
            }
        }
        return false;
    }
    let y = s[j];
    let mut k: usize = 0;
    while k < s.len()
        invariant
            k <= s@.len(),
            j < s@.len(),
            x == s@[0],
            y == s@[j as int],
            x != y,
            forall|q: int| 0 <= q < k ==> s@[q] == x || s@[q] == y,
        decreases s@.len() - k,
    {
        if s[k] != x && s[k] != y {
            proof {
                assert(s@[0] != s@[j as int] && s@[0] != s@[k as int] && s@[j as int] != s@[k as int]);
            }
            return true;
        }
        k = k + 1;
    }
    proof {
        if three_distinct(s@) {
            let (a, b, c) = choose|a: int, b: int, c: int|
                0 <= a < s@.len() && 0 <= b < s@.len() && 0 <= c < s@.len() && #[trigger] s@[a] != #[trigger] s@[b]
                    && s@[a] != #[trigger] s@[c] && s@[b] != s@[c];
            assert(s@[a] == x || s@[a] == y);
            assert(s@[b] == x || s@[b] == y);
            assert(s@[c] == x || s@[c] == y);
        }
    }
    false
}

/// Tidies every face after moving `from` onto `into`.
fn tidy_faces<L: Copy>(faces: &Vec<PolygonFace<L>>, from: usize, into: usize, nv: usize) -> (r: Vec<PolygonFace<L>>)
    requires
        into < nv || from == into,
        forall|f: int| 0 <= f < faces@.len() ==> (#[trigger] faces@[f]).loops@.len() == faces@[f].vertices@.len(),
        corners_in_range(faces@, nv as int),
    ensures
        views(r@) == views(faces@).map_values(|p: Polygon<L>| tidy(merged(p, from, into))),
        forall|f: int| 0 <= f < r@.len() ==> (#[trigger] r@[f]).loops@.len() == r@[f].vertices@.len(),
        corners_in_range(r@, nv as int),
{
    let ghost src = views(faces@).map_values(|p: Polygon<L>| tidy(merged(p, from, into)));
    let mut r: Vec<PolygonFace<L>> = Vec::new();
    let mut i: usize = 0;
    while i < faces.len()
        invariant
            into < nv || from == into,
            forall|f: int| 0 <= f < faces@.len() ==> (#[trigger] faces@[f]).loops@.len() == faces@[f].vertices@.len(),
            corners_in_range(faces@, nv as int),
            src == views(faces@).map_values(|p: Polygon<L>| tidy(merged(p, from, into))),
            i <= faces@.len(),
            views(r@) =~= src.take(i as int),
            forall|f: int| 0 <= f < r@.len() ==> (#[trigger] r@[f]).loops@.len() == r@[f].vertices@.len(),
            corners_in_range(r@, nv as int),
        decreases faces@.len() - i,
    {
        let t = tidy_polygon(&faces[i], from, into, nv);
        proof {
            assert(views(faces@)[i as int] == face_view(faces@[i as int]));
            assert(src[i as int] == face_view(t));
            lemma_views_push(r@, t);
            assert(src.take(i + 1) =~= src.take(i as int).push(src[i as int]));
        }
        r.push(t);
        i = i + 1;
    }
    proof {
        assert(src.take(faces@.len() as int) =~= src);
    }
    r
}

/// The faces that keep at least three corners at three different vertices.
fn drop_degenerate<L: Copy>(faces: &Vec<PolygonFace<L>>, nv: usize) -> (r: Vec<PolygonFace<L>>)
    requires
        forall|f: int| 0 <= f < faces@.len() ==> (#[trigger] faces@[f]).loops@.len() == faces@[f].vertices@.len(),
        corners_in_range(faces@, nv as int),
    ensures
        views(r@) == kept(views(faces@)),
        forall|f: int| 0 <= f < r@.len() ==> (#[trigger] r@[f]).loops@.len() == r@[f].vertices@.len(),
        corners_in_range(r@, nv as int),
{
    let ghost src = views(faces@);
    let mut r: Vec<PolygonFace<L>> = Vec::new();
    let mut i: usize = 0;
    while i < faces.len()
        invariant
            forall|f: int| 0 <= f < faces@.len() ==> (#[trigger] faces@[f]).loops@.len() == faces@[f].vertices@.len(),
            corners_in_range(faces@, nv as int),
            src == views(faces@),
            i <= faces@.len(),
            views(r@) == kept(src.take(i as int)),
            forall|f: int| 0 <= f < r@.len() ==> (#[trigger] r@[f]).loops@.len() == r@[f].vertices@.len(),
            corners_in_range(r@, nv as int),
        decreases faces@.len() - i,
    {
        let t = faces[i].copy();
        proof {
            assert(src[i as int] == face_view(t));
            assert(src.take(i + 1).drop_last() =~= src.take(i as int));
            assert(src.take(i + 1).last() == src[i as int]);
        }
        let keep = t.vertices.len() >= 3 && has_three_distinct(&t.vertices);
        if keep {
            proof {
                lemma_views_push(r@, t);
            }
            r.push(t);
        }
        proof {
            assert(views(r@) =~= kept(src.take(i + 1)));
        }
        i = i + 1;
    }
    proof {
        assert(src.take(faces@.len() as int) =~= src);
    }
    r
}


/// Options of [`HalfEdgeMesh::bridge_boundary_loops`].
#[derive(Debug, Clone, Copy, PartialEq, Eq, Structural)]
pub struct MeshBridgeConfig {
    /// How many corners the second loop is rotated by before corners are paired.
    pub twist_offset: usize,
}

impl MeshBridgeConfig {
    /// No twist.
    pub fn new() -> (c: Self)
        ensures
            c.twist_offset == 0,
    {
        MeshBridgeConfig { twist_offset: 0 }
    }
}

/// The origins of the half-edges of a loop, in order.
pub open spec fn loop_origins(t: Topology, hs: Seq<HalfEdgeId>) -> Seq<usize> {
    hs.map_values(|h: HalfEdgeId| t.links[h.idx()].origin.0 as usize)
}

/// The quads that join corner list `first` to the reversed corner list `second`, rotated
/// by `twist`: quad `i` runs `first[i], first[i+1], second'[i+1+twist], second'[i+twist]`.
pub open spec fn bridge_quads<L>(first: Seq<usize>, second: Seq<usize>, twist: int) -> Seq<Polygon<L>> {
    let n = first.len() as int;
    let rev = second.reverse();
    Seq::new(
        n as nat,
        |i: int|
            authored(
                seq![first[i], first[(i + 1) % n], rev[((i + 1) % n + twist) % n], rev[(i + twist) % n]],
            ),
    )
}

/// `m` is the polygons `fs` over the vertices they use, compacted.
pub open spec fn is_compacted_mesh<V, L>(m: HalfEdgeMesh<V, L>, vertices: Seq<V>, fs: Seq<Polygon<L>>) -> bool {
    exists|remap: Seq<Option<usize>>, vs2: Seq<V>, fs2: Seq<Polygon<L>>|
        #[trigger] is_compaction(remap, vertices, fs, vs2, fs2) && mesh_matches(m, vs2, fs2)
}

/// The faces of component `comp`, in the order listed.
pub open spec fn component_polygons<L>(ps: Seq<Polygon<L>>, comp: Seq<FaceId>) -> Seq<Polygon<L>> {
    comp.map_values(|f: FaceId| ps[f.idx()])
}

/// An `UnsupportedOperation` error of `operation` with the given detail.
pub(crate) fn unsupported_error(operation: &'static str, detail: &str) -> (e: MeshError)
    ensures
        unsupported(e, operation),
{
    MeshError::UnsupportedOperation { operation, detail: detail.to_string() }
}

/// The message for a boundary loop index that is out of range.
fn loop_index_message(index: usize) -> (s: String)
    ensures
        exists|digits: String|
            #[trigger] vstd::string::to_string_from_display_ensures::<usize>(&index, digits) && s@ == "boundary loop index "@
                + digits@ + " is out of range"@,
{
    let mut text = "boundary loop index ".to_string();
    let number = index.to_string();
    text.append(number.as_str());
    text.append(" is out of range");
    text
}

/// Drops the vertices no face uses and renumbers the rest in their old order.
pub(crate) fn compact_snapshot<V: Copy, L: Copy>(snapshot: MeshSnapshot<V, L>) -> (r: (Vec<Option<usize>>, MeshSnapshot<V, L>))
    requires
        corners_in_range(snapshot.faces@, snapshot.vertices@.len() as int),
    ensures
        is_compaction(r.0@, snapshot.vertices@, views(snapshot.faces@), r.1.vertices@, views(r.1.faces@)),
        forall|f: int| 0 <= f < r.1.faces@.len() ==> (#[trigger] r.1.faces@[f]).loops@ == snapshot.faces@[f].loops@,
{
    let mut s = snapshot;
    let ghost before = s.faces@;
    let remap = s.compact_with_map();
    proof {
        let fs = views(before);
        let fs2 = views(s.faces@);
        assert forall|i: int| 0 <= i < remap@.len() implies ((#[trigger] remap@[i]) is Some <==> used_by(fs, i)) by {
            lemma_used_views(before, i);
        }
        assert forall|f: int| 0 <= f < fs.len() implies {
            &&& (#[trigger] fs2[f]).loops == fs[f].loops
            &&& fs2[f].data == fs[f].data
            &&& fs2[f].corners.len() == fs[f].corners.len()
            &&& forall|k: int| 0 <= k < fs[f].corners.len() ==> remap@[fs[f].corners[k] as int] == Some(#[trigger] fs2[f].corners[k])
        } by {
            assert(s.faces@[f].loops@ == before[f].loops@);
            assert forall|k: int| 0 <= k < fs[f].corners.len() implies remap@[fs[f].corners[k] as int] == Some(#[trigger] fs2[f].corners[k]) by {
                assert(remap@[before[f].vertices@[k] as int] == Some(s.faces@[f].vertices@[k]));
            }
        }
    }
    (remap, s)
}



/// The first position at or after `k` where `row` holds `true`.
pub open spec fn first_true(row: Seq<bool>, k: int) -> Option<int>
    decreases row.len() - k,
{
    if k < 0 || k >= row.len() {
        None
    } else if row[k] {
        Some(k)
    } else {
        first_true(row, k + 1)
    }
}

/// The representative of each of the first `n` vertices given the compatibility answers:
/// a vertex joins the representative of the first earlier vertex it is compatible with,
/// or represents itself.
pub open spec fn representatives(answers: Seq<Seq<bool>>, n: int) -> Seq<usize>
    decreases n,
{
    if n <= 0 {
        Seq::empty()
    } else {
        let pre = representatives(answers, n - 1);
        match first_true(answers[n - 1], 0) {
            Some(c) => pre.push(pre[c]),
            None => pre.push((n - 1) as usize),
        }
    }
}

/// The polygons after merging by the given answers: corners renamed to their
/// representatives, then cleaned.
pub open spec fn merge_result<L>(ps: Seq<Polygon<L>>, reps: Seq<usize>) -> Seq<Polygon<L>> {
    cleaned(ps.map_values(|p: Polygon<L>| relabeled(p, reps)))
}

/// Polygon corners renamed to their representatives.
pub open spec fn relabeled<L>(p: Polygon<L>, reps: Seq<usize>) -> Polygon<L> {
    Polygon { corners: p.corners.map_values(|c: usize| reps[c as int]), loops: p.loops, data: p.data }
}

/// The answers are what `compatible` returned when asked, in order, whether vertex `i`
/// merges into each earlier vertex until the first yes.
pub open spec fn answered<F: Fn(usize, usize) -> bool>(compatible: F, answers: Seq<Seq<bool>>, n: int) -> bool {
    &&& answers.len() == n
    &&& forall|i: int|
        0 <= i < n ==> {
            &&& (#[trigger] answers[i]).len() <= i
            &&& (first_true(answers[i], 0) is None ==> answers[i].len() == i)
            &&& (first_true(answers[i], 0) matches Some(c) ==> c == answers[i].len() - 1)
            &&& answered_row(compatible, answers[i], i)
        }
}

/// Each answer of row `i` is what `compatible` returned for vertex `i` and that column.
pub open spec fn answered_row<F: Fn(usize, usize) -> bool>(compatible: F, row: Seq<bool>, i: int) -> bool {
    forall|c: int| 0 <= c < row.len() ==> compatible.ensures((i as usize, c as usize), #[trigger] row[c])
}

proof fn lemma_first_true_push(row: Seq<bool>, b: bool, k: int)
    requires
        0 <= k <= row.len(),
        first_true(row, k) is None,
    ensures
        first_true(row.push(b), k) == (if b { Some(row.len() as int) } else { None }),
    decreases row.len() - k,
{
    if k < row.len() {
        lemma_first_true_push(row, b, k + 1);
    } else {
        assert(first_true(row.push(b), k + 1) is None);
    }
}

proof fn lemma_representatives_bound(answers: Seq<Seq<bool>>, n: int)
    requires
        0 <= n <= answers.len(),
        forall|i: int| 0 <= i < n ==> (first_true(#[trigger] answers[i], 0) matches Some(c) ==> 0 <= c < i),
    ensures
        representatives(answers, n).len() == n,
        forall|i: int| 0 <= i < n ==> #[trigger] representatives(answers, n)[i] <= i,
    decreases n,
{
    if n > 0 {
        lemma_representatives_bound(answers, n - 1);
        let pre = representatives(answers, n - 1);
        assert forall|i: int| 0 <= i < n implies #[trigger] representatives(answers, n)[i] <= i by {
            if i < n - 1 {
                assert(representatives(answers, n)[i] == pre[i]);
            }
        }
    }
}

proof fn lemma_first_true_range(row: Seq<bool>, k: int)
    requires
        0 <= k,
    ensures
        first_true(row, k) matches Some(c) ==> k <= c < row.len() && row[c],
        first_true(row, k) is None ==> forall|j: int| k <= j < row.len() ==> !row[j],
    decreases row.len() - k,
{
    if k < row.len() {
        lemma_first_true_range(row, k + 1);
    }
}


proof fn lemma_representatives_prefix(a1: Seq<Seq<bool>>, a2: Seq<Seq<bool>>, n: int)
    requires
        0 <= n <= a1.len(),
        n <= a2.len(),
        forall|i: int| 0 <= i < n ==> a1[i] == a2[i],
    ensures
        representatives(a1, n) == representatives(a2, n),
    decreases n,
{
    if n > 0 {
        lemma_representatives_prefix(a1, a2, n - 1);
    }
}

/// An old vertex renumbered to `n`.
pub open spec fn preimage(remap: Seq<Option<usize>>, n: int) -> int {
    choose|i: int| 0 <= i < remap.len() && remap[i] == Some(n as usize)
}

/// A compaction keeps at most as many vertices as it was given.
proof fn lemma_compaction_shrinks<V, L>(remap: Seq<Option<usize>>, vs: Seq<V>, fs: Seq<Polygon<L>>, vs2: Seq<V>, fs2: Seq<Polygon<L>>)
    requires
        is_compaction(remap, vs, fs, vs2, fs2),
        vs2.len() <= usize::MAX,
    ensures
        vs2.len() <= vs.len(),
{
    if vs2.len() > vs.len() {
        let targets = Set::new(|n: int| 0 <= n < vs2.len());
        let sources = Set::new(|i: int| 0 <= i < remap.len());
        let f = |n: int| preimage(remap, n);
        assert forall|n: int| targets.contains(n) implies sources.contains(f(n)) && remap[f(n)] == Some(n as usize) by {
            assert(remap_hits(remap, n));
        }
        assert(vstd::relations::injective_on(f, targets)) by {
            assert forall|x: int, y: int| targets.contains(x) && targets.contains(y) && #[trigger] f(x) == #[trigger] f(y) implies x == y by {
                assert(remap[f(x)] == Some(x as usize));
                assert(remap[f(y)] == Some(y as usize));
            }
        }
        vstd::set_lib::lemma_int_range(0, vs2.len() as int);
        vstd::set_lib::lemma_int_range(0, remap.len() as int);
        assert(targets =~= vstd::set_lib::set_int_range(0, vs2.len() as int));
        assert(sources =~= vstd::set_lib::set_int_range(0, remap.len() as int));
        assert(targets.map(f).subset_of(sources));
        vstd::set_lib::lemma_map_size(targets, targets.map(f), f);
        vstd::set_lib::lemma_len_subset(targets.map(f), sources);
    }
}


/// The vertex payloads after the first `i` listed vertices, in order, took the payloads
/// `outs`.
pub open spec fn updated_payloads<V>(vd: Seq<V>, vs: Seq<VertexId>, outs: Seq<V>, i: int) -> Seq<V>
    decreases i,
{
    if i <= 0 {
        vd
    } else {
        updated_payloads(vd, vs, outs, i - 1).update(vs[i - 1].idx(), outs[i - 1])
    }
}

/// `outs[i]` is what `update` gave for the payload vertex `vs[i]` had when its turn came.
pub open spec fn updates_answered<V, F: Fn(V) -> V>(vd: Seq<V>, vs: Seq<VertexId>, outs: Seq<V>, n: int, update: F) -> bool {
    &&& outs.len() == n
    &&& forall|i: int| 0 <= i < n ==> update.ensures((updated_payloads(vd, vs, outs, i)[vs[i].idx()],), #[trigger] outs[i])
}

/// Face `f` has fewer than three distinct corners, or `thin` called it too thin.
pub open spec fn degenerate_face<L, F: Fn(usize) -> bool>(ps: Seq<Polygon<L>>, thin: F, f: usize) -> bool {
    !three_distinct(ps[f as int].corners) || thin.ensures((f,), true)
}

/// `k` is the first listed vertex that names no vertex of a mesh with `nv` vertices.
pub open spec fn first_bad_vertex(vs: Seq<VertexId>, nv: int, k: int) -> bool {
    &&& 0 <= k < vs.len()
    &&& vs[k].idx() >= nv
    &&& forall|j: int| 0 <= j < k ==> (#[trigger] vs[j]).idx() < nv
}


proof fn lemma_updated_prefix<V>(vd: Seq<V>, vs: Seq<VertexId>, o1: Seq<V>, o2: Seq<V>, j: int)
    requires
        0 <= j <= o2.len(),
        j <= o1.len(),
        forall|i: int| 0 <= i < j ==> o1[i] == o2[i],
    ensures
        updated_payloads(vd, vs, o1, j) == updated_payloads(vd, vs, o2, j),
    decreases j,
{
    if j > 0 {
        lemma_updated_prefix(vd, vs, o1, o2, j - 1);
    }
}

/// Every corner of a snapshot of a mesh names one of its vertices.
pub(crate) proof fn lemma_snapshot_in_range<V, L>(m: HalfEdgeMesh<V, L>, s: MeshSnapshot<V, L>)
    requires
        m.inv(),
        views(s.faces@) == m.polygons(),
        s.vertices@ == m.vertex_data_view(),
    ensures
        corners_in_range(s.faces@, s.vertices@.len() as int),
{
    let t = m.topology();
    crate::mesh::lemma_valid_links_closed(t);
    assert forall|f: int, k: int| 0 <= f < s.faces@.len() && 0 <= k < s.faces@[f].vertices@.len() implies (#[trigger] s.faces@[f].vertices@[k]) < s.vertices@.len() by {
        assert(views(s.faces@)[f] == m.polygons()[f]);
        assert(m.polygons().len() == t.interior);
        assert(m.polygons()[f] == m.polygon(f));
        assert(t.shape_ok());
        crate::mesh::lemma_face_loop_in_range(t, f);
        assert(m.polygon(f).corners[k] == t.links[t.face_loop(f)[k].idx()].origin.0 as usize);
        assert(t.link_ok(t.face_loop(f)[k].idx()));
    }
}

impl<V: Copy, L: Copy + Default> HalfEdgeMesh<V, L> {
    /// Replaces the mesh by the one built from `snapshot`, or leaves it as it is when the
    /// rebuild fails.
    pub(crate) fn rebuild_in_place(&mut self, snapshot: MeshSnapshot<V, L>) -> (r: Result<(), MeshError>)
        ensures
            rebuilt_from(*old(self), *final(self), r, snapshot.vertices@, views(snapshot.faces@)),
    {
        match Self::from_snapshot(snapshot) {
            Ok(m) => {
                *self = m;
                Ok(())
            },
            Err(e) => Err(e),
        }
    }

    /// Appends a face with the given corners (no loop payloads, empty metadata) and
    /// rebuilds; the new face takes the next interior face id.
    pub fn add_face(&mut self, vertices: &[VertexId]) -> (r: Result<FaceId, MeshError>)
        ensures
            rebuilt_from(
                *old(self),
                *final(self),
                r,
                old(self).vertex_data_view(),
                old(self).polygons().push(authored(id_corners(vertices@))),
            ),
            r is Ok ==> r->Ok_0 == FaceId(old(self).interior() as u32),
    {
        proof {
            use_type_invariant(&*self);
        }
        let mut snapshot = self.to_snapshot();
        let new_face = FaceId(snapshot.faces.len() as u32);
        let face = PolygonFace {
            vertices: corner_indices(vertices),
            loops: Vec::new(),
            data: FacePayload { material: None, region: None },
        };
        proof {
            lemma_views_push(snapshot.faces@, face);
            assert(face_view(face) =~= authored::<L>(id_corners(vertices@)));
        }
        snapshot.faces.push(face);
        match self.rebuild_in_place(snapshot) {
            Ok(()) => Ok(new_face),
            Err(e) => Err(e),
        }
    }

    /// Removes an interior face and rebuilds, returning the removed polygon.
    pub fn remove_face(&mut self, face: FaceId) -> (r: Result<PolygonFace<L>, MeshError>)
        ensures
            face.idx() >= old(self).interior() ==> r == Err::<PolygonFace<L>, MeshError>(MeshError::InvalidFace(face))
                && *final(self) == *old(self),
            face.idx() < old(self).interior() ==> rebuilt_from(
                *old(self),
                *final(self),
                r,
                old(self).vertex_data_view(),
                old(self).polygons().remove(face.idx()),
            ),
            r is Ok ==> face_view(r->Ok_0) == old(self).polygon(face.idx()),
    {
        let mut snapshot = self.to_snapshot();
        let index = face.index();
        if index >= snapshot.faces.len() {
            return Err(MeshError::InvalidFace(face));
        }
        let ghost before = snapshot.faces@;
        let removed = snapshot.faces.remove(index);
        proof {
            assert(views(snapshot.faces@) =~= views(before).remove(index as int));
            assert(views(before)[index as int] == face_view(removed));
        }
        match self.rebuild_in_place(snapshot) {
            Ok(()) => Ok(removed),
            Err(e) => Err(e),
        }
    }


    /// Cuts an interior face along the chord between two of its non-adjacent corners: the
    /// corners from `start` to `end` keep the face's id, those from `end` back to `start`
    /// become a new last face; returns the new edge.
    pub fn split_face(&mut self, face: FaceId, start: VertexId, end: VertexId) -> (r: Result<EdgeId, MeshError>)
        ensures
            face.idx() >= old(self).interior() ==> r == Err::<EdgeId, MeshError>(MeshError::InvalidFace(face))
                && *final(self) == *old(self),
            face.idx() < old(self).interior() ==> {
                let p = old(self).polygon(face.idx());
                let n = p.corners.len() as int;
                &&& !p.corners.contains(start.0 as usize) ==> r is Err && r->Err_0 is InvalidTopology
                    && *final(self) == *old(self)
                &&& p.corners.contains(start.0 as usize) && !p.corners.contains(end.0 as usize) ==> r is Err
                    && r->Err_0 is InvalidTopology && *final(self) == *old(self)
                &&& forall|a: int, b: int|
                    #[trigger] is_first_index(p.corners, start.0 as usize, a) && #[trigger] is_first_index(p.corners, end.0 as usize, b) ==> {
                        let fs = split_polygons(old(self).polygons(), face.idx(), a, b);
                        let nv = old(self).nv();
                        &&& corners_adjacent(a, b, n) ==> r is Err && unsupported(r->Err_0, "split_face")
                            && *final(self) == *old(self)
                        &&& !corners_adjacent(a, b, n) && !snapshot_fits(nv, fs) ==> r is Err && r->Err_0 is Validation
                            && *final(self) == *old(self)
                        &&& !corners_adjacent(a, b, n) && snapshot_fits(nv, fs) && input_problem(nv, fs) is Some
                            ==> r is Err && problem_error(input_problem(nv, fs)->0, r->Err_0) && *final(self) == *old(self)
                        &&& !corners_adjacent(a, b, n) && snapshot_fits(nv, fs) && input_problem(nv, fs) is None ==> {
                            &&& builds_manifold(nv, fs) ==> mesh_matches(*final(self), old(self).vertex_data_view(), fs)
                                && edge_lookup(*final(self), r, start.0 as usize, end.0 as usize) && final(self).canonical()
                                && final(self).topology() == built_topology(nv, fs)->0
                            &&& !builds_manifold(nv, fs) ==> r is Err && r->Err_0 is Validation && *final(self) == *old(self)
                        }
                    }
            },
    {
        proof {
            use_type_invariant(&*self);
        }
        let mut snapshot = self.to_snapshot();
        let index = face.index();
        if index >= snapshot.faces.len() {
            return Err(MeshError::InvalidFace(face));
        }
        let ghost ps = self.polygons();
        let ghost p = ps[index as int];
        proof {
            assert(views(snapshot.faces@)[index as int] == face_view(snapshot.faces@[index as int]));
        }
        let start_index = match find_position(&snapshot.faces[index].vertices, start.index()) {
            Some(k) => k,
            None => {
                return Err(MeshError::InvalidTopology("split start vertex is not on the face"));
            },
        };
        let end_index = match find_position(&snapshot.faces[index].vertices, end.index()) {
            Some(k) => k,
            None => {
                return Err(MeshError::InvalidTopology("split end vertex is not on the face"));
            },
        };
        let n = snapshot.faces[index].vertices.len();
        proof {
            assert(p.corners == snapshot.faces@[index as int].vertices@);
        }
        if start_index == end_index || (start_index + 1) % n == end_index || (end_index + 1) % n == start_index {
            return Err(
                MeshError::UnsupportedOperation {
                    operation: "split_face",
                    detail: "split vertices must be non-adjacent corners on the same face".to_string(),
                },
            );
        }
        let first = polygon_path(&snapshot.faces[index], start_index, end_index);
        let second = polygon_path(&snapshot.faces[index], end_index, start_index);
        let ghost before = snapshot.faces@;
        snapshot.faces.set(index, first);
        proof {
            lemma_views_push(snapshot.faces@, second);
            assert(views(snapshot.faces@) =~= views(before).update(index as int, face_view(first)));
        }
        snapshot.faces.push(second);
        proof {
            assert(views(snapshot.faces@) == split_polygons(ps, index as int, start_index as int, end_index as int));
        }
        match self.rebuild_in_place(snapshot) {
            Ok(()) => {},
            Err(e) => {
                return Err(e);
            },
        }
        find_edge_by_endpoints(self, start.index(), end.index())
    }


    /// Replaces an interior face by a fan of triangles around a new vertex with payload
    /// `center`, whose corners all take the loop payload `center_loop`; returns the new
    /// vertex.
    pub fn poke_face(&mut self, face: FaceId, center: V, center_loop: L) -> (r: Result<VertexId, MeshError>)
        ensures
            face.idx() >= old(self).interior() ==> r == Err::<VertexId, MeshError>(MeshError::InvalidFace(face))
                && *final(self) == *old(self),
            face.idx() < old(self).interior() ==> rebuilt_from(
                *old(self),
                *final(self),
                r,
                old(self).vertex_data_view().push(center),
                poked_polygons(old(self).polygons(), face.idx(), old(self).nv() as usize, center_loop),
            ),
            r is Ok ==> r->Ok_0 == VertexId(old(self).nv() as u32),
    {
        proof {
            use_type_invariant(&*self);
        }
        let snapshot = self.to_snapshot();
        let index = face.index();
        if index >= snapshot.faces.len() {
            return Err(MeshError::InvalidFace(face));
        }
        let ghost ps = self.polygons();
        let MeshSnapshot { mut vertices, faces } = snapshot;
        let center_vertex = vertices.len();
        vertices.push(center);
        let ghost p = ps[index as int];
        let n = faces[index].vertices.len();
        proof {
            assert(views(faces@)[index as int] == face_view(faces@[index as int]));
        }
        let mut out: Vec<PolygonFace<L>> = Vec::new();
        append_faces(&mut out, &faces, 0, index);
        let ghost fan = poked_polygons(ps, index as int, center_vertex, center_loop).subrange(
            index as int,
            index + n,
        );
        proof {
            assert(views(faces@).subrange(0, index as int) =~= ps.take(index as int));
        }
        let mut k: usize = 0;
        while k < n
            invariant
                n == p.corners.len() == p.loops.len(),
                p == face_view(faces@[index as int]),
                views(faces@) == ps,
                index < faces@.len(),
                center_vertex == ps.len() as int - ps.len() + center_vertex,
                fan == poked_polygons(ps, index as int, center_vertex, center_loop).subrange(index as int, index + n),
                k <= n,
                views(out@) =~= ps.take(index as int) + fan.take(k as int),
            decreases n - k,
        {
            let next = if k + 1 == n { 0 } else { k + 1 };
            let tri = PolygonFace {
                vertices: vec![faces[index].vertices[k], faces[index].vertices[next], center_vertex],
                loops: vec![faces[index].loops[k], faces[index].loops[next], center_loop],
                data: faces[index].data,
            };
            proof {
                if k + 1 == n {
                    vstd::arithmetic::div_mod::lemma_mod_self_0(n as int);
                } else {
                    vstd::arithmetic::div_mod::lemma_small_mod((k + 1) as nat, n as nat);
                }
                assert(face_view(tri).corners =~= fan[k as int].corners);
                assert(face_view(tri).loops =~= fan[k as int].loops);
                lemma_views_push(out@, tri);
                assert(fan.take(k + 1) =~= fan.take(k as int).push(fan[k as int]));
            }
            out.push(tri);
            k = k + 1;
        }
        append_faces(&mut out, &faces, index + 1, faces.len());
        proof {
            assert(fan.take(n as int) =~= fan);
            assert(views(faces@).subrange(index + 1, faces@.len() as int) =~= ps.skip(index + 1));
            assert(views(out@) =~= poked_polygons(ps, index as int, center_vertex, center_loop));
        }
        match self.rebuild_in_place(MeshSnapshot { vertices, faces: out }) {
            Ok(()) => Ok(VertexId(center_vertex as u32)),
            Err(e) => Err(e),
        }
    }

    /// Re-cuts the two triangles on either side of an interior edge along their other
    /// diagonal. `prefer_first` is asked, with the edge's ends `a -> b` and the two
    /// opposite corners, whether the first winding (`oa ob b`, `ob oa a`) keeps the
    /// surface orientation; otherwise the second (`oa b ob`, `ob a oa`) is used.
    pub fn flip_edge<F: Fn(usize, usize, usize, usize) -> bool>(&mut self, edge: EdgeId, prefer_first: F) -> (r: Result<(), MeshError>)
        requires
            forall|a: usize, b: usize, c: usize, d: usize| prefer_first.requires((a, b, c, d)),
        ensures
            r is Err && !(r->Err_0 is Validation) ==> *final(self) == *old(self),
            edge.idx() >= old(self).ne() ==> r == Err::<(), MeshError>(MeshError::InvalidEdge(edge)),
            edge.idx() < old(self).ne() && old(self).edge_on_boundary(edge.idx()) ==> r == Err::<(), MeshError>(
                MeshError::BoundaryOperation { operation: "flip_edge" },
            ),
            edge.idx() < old(self).ne() && !old(self).edge_on_boundary(edge.idx()) ==> {
                let t = old(self).topology();
                let h = t.edges[edge.idx()].idx();
                let tw = t.links[h].twin.idx();
                let fa = t.links[h].face.idx();
                let fb = t.links[tw].face.idx();
                let ps = old(self).polygons();
                let a = t.links[h].origin.0 as usize;
                let b = t.links[tw].origin.0 as usize;
                &&& (ps[fa].corners.len() != 3 || ps[fb].corners.len() != 3) ==> r == Err::<(), MeshError>(
                    MeshError::RequiresTriangleFaces { operation: "flip_edge" },
                )
                &&& ps[fa].corners.len() == 3 && ps[fb].corners.len() == 3 && (side_opposite(ps[fa], a, b) is None
                    || side_opposite(ps[fb], b, a) is None) ==> r is Err && r->Err_0 is InvalidTopology
                &&& ps[fa].corners.len() == 3 && ps[fb].corners.len() == 3 && side_opposite(ps[fa], a, b) is Some
                    && side_opposite(ps[fb], b, a) is Some ==> exists|first: bool|
                    prefer_first.ensures(
                        (a, b, side_opposite(ps[fa], a, b)->0, side_opposite(ps[fb], b, a)->0),
                        first,
                    ) && #[trigger] rebuilt_from(
                        *old(self),
                        *final(self),
                        r,
                        old(self).vertex_data_view(),
                        flipped_polygons(
                            ps,
                            fa,
                            fb,
                            a,
                            b,
                            side_opposite(ps[fa], a, b)->0,
                            side_opposite(ps[fb], b, a)->0,
                            first,
                        ),
                    )
            },
    {
        proof {
            use_type_invariant(&*self);
        }
        let (halfedge, twin) = self.edge_halfedges(edge)?;
        let boundary = self.edge_is_boundary(edge)?;
        if boundary {
            return Err(MeshError::BoundaryOperation { operation: "flip_edge" });
        }
        let ghost t = self.topology();
        proof {
            assert(t.link_ok(halfedge.idx()));
            assert(t.link_ok(twin.idx()));
        }
        let face_a = self.halfedge_face(halfedge)?;
        let face_b = self.halfedge_face(twin)?;
        let snapshot = self.to_snapshot();
        let ghost ps = self.polygons();
        let ia = face_a.index();
        let ib = face_b.index();
        proof {
            assert(views(snapshot.faces@)[ia as int] == face_view(snapshot.faces@[ia as int]));
            assert(views(snapshot.faces@)[ib as int] == face_view(snapshot.faces@[ib as int]));
        }
        if snapshot.faces[ia].vertices.len() != 3 || snapshot.faces[ib].vertices.len() != 3 {
            return Err(MeshError::RequiresTriangleFaces { operation: "flip_edge" });
        }
        let a = self.halfedge_origin(halfedge)?.index();
        let b = self.halfedge_origin(twin)?.index();
        let opposite_a = match triangle_opposite(&snapshot.faces[ia], a, b) {
            Some(v) => v,
            None => {
                return Err(MeshError::InvalidTopology("triangle A does not match the target edge"));
            },
        };
        let opposite_b = match triangle_opposite(&snapshot.faces[ib], b, a) {
            Some(v) => v,
            None => {
                return Err(MeshError::InvalidTopology("triangle B does not match the target edge"));
            },
        };
        let first = prefer_first(a, b, opposite_a, opposite_b);
        let ghost pa = ps[ia as int];
        let ghost pb = ps[ib as int];
        proof {
            let i = choose|i: int| first_side(pa, a, b, i);
            let j = choose|j: int| first_side(pb, b, a, j);
            assert(pa.corners.contains(pa.corners[i]));
            assert(pa.corners.contains(pa.corners[(i + 1) % 3]));
            assert(pa.corners.contains(pa.corners[(i + 2) % 3]));
            assert(pb.corners.contains(pb.corners[(j + 1) % 3]));
            assert(pb.corners.contains(pb.corners[(j + 2) % 3]));
        }
        let (new_a, new_b) = if first {
            ([opposite_a, opposite_b, b], [opposite_b, opposite_a, a])
        } else {
            ([opposite_a, b, opposite_b], [opposite_b, a, opposite_a])
        };
        let fa_face = PolygonFace {
            vertices: vec![new_a[0], new_a[1], new_a[2]],
            loops: vec![
                loop_for_vertex(&snapshot.faces[ia], &snapshot.faces[ib], new_a[0]),
                loop_for_vertex(&snapshot.faces[ia], &snapshot.faces[ib], new_a[1]),
                loop_for_vertex(&snapshot.faces[ia], &snapshot.faces[ib], new_a[2]),
            ],
            data: snapshot.faces[ia].data,
        };
        let fb_face = PolygonFace {
            vertices: vec![new_b[0], new_b[1], new_b[2]],
            loops: vec![
                loop_for_vertex(&snapshot.faces[ib], &snapshot.faces[ia], new_b[0]),
                loop_for_vertex(&snapshot.faces[ib], &snapshot.faces[ia], new_b[1]),
                loop_for_vertex(&snapshot.faces[ib], &snapshot.faces[ia], new_b[2]),
            ],
            data: snapshot.faces[ib].data,
        };
        let MeshSnapshot { vertices, mut faces } = snapshot;
        let ghost before = faces@;
        faces.set(ia, fa_face);
        faces.set(ib, fb_face);
        proof {
            let target = flipped_polygons(ps, ia as int, ib as int, a, b, opposite_a, opposite_b, first);
            let na = if first { seq![opposite_a, opposite_b, b] } else { seq![opposite_a, b, opposite_b] };
            let nb = if first { seq![opposite_b, opposite_a, a] } else { seq![opposite_b, a, opposite_a] };
            assert(fa_face.vertices@ =~= na);
            assert(fa_face.loops@ =~= na.map_values(|v: usize| loop_for(pa, pb, v)));
            assert(fb_face.vertices@ =~= nb);
            assert(fb_face.loops@ =~= nb.map_values(|v: usize| loop_for(pb, pa, v)));
            assert(face_view(fa_face) == flipped_triangle(na, pa, pb));
            assert(face_view(fb_face) == flipped_triangle(nb, pb, pa));
            assert(views(faces@) =~= target);
        }
        self.rebuild_in_place(MeshSnapshot { vertices, faces })
    }


    /// Collapses an interior edge onto the origin of its representative half-edge: that
    /// vertex takes the payload `merged_payload`, the other end is moved onto it, faces
    /// are tidied, degenerate faces dropped, unused vertices compacted away; returns the
    /// surviving vertex under its new index.
    pub fn collapse_edge(&mut self, edge: EdgeId, merged_payload: V) -> (r: Result<VertexId, MeshError>)
        ensures
            collapse_outcome(*old(self), *final(self), r, edge, merged_payload),
    {
        proof {
            use_type_invariant(&*self);
        }
        let (halfedge, twin) = self.edge_halfedges(edge)?;
        let boundary = self.edge_is_boundary(edge)?;
        if boundary {
            return Err(MeshError::BoundaryOperation { operation: "collapse_edge" });
        }
        let ghost t = self.topology();
        proof {
            assert(t.link_ok(halfedge.idx()));
            assert(t.link_ok(twin.idx()));
        }
        let keep = self.halfedge_origin(halfedge)?.index();
        let gone = self.halfedge_origin(twin)?.index();
        let snapshot = self.to_snapshot();
        let ghost ps = self.polygons();
        let MeshSnapshot { mut vertices, faces } = snapshot;
        let nv = vertices.len();
        vertices.set(keep, merged_payload);
        let ghost vs = vertices@;
        proof {
            assert forall|f: int, k: int| 0 <= f < faces@.len() && 0 <= k < faces@[f].vertices@.len() implies (#[trigger] faces@[f].vertices@[k]) < nv by {
                assert(views(faces@)[f] == ps[f]);
                assert(ps[f] == self.polygon(f));
                assert(t.link_ok(t.face_loop(f)[k].idx())) by {
                    crate::mesh::lemma_valid_links_closed(t);
                    crate::mesh::lemma_face_loop_in_range(t, f);
                }
            }
        }
        let first_pass = tidy_faces(&faces, gone, keep, nv);
        let second_pass = tidy_faces(&first_pass, keep, keep, nv);
        let cleaned_faces = drop_degenerate(&second_pass, nv);
        let ghost fs = collapsed_polygons(ps, gone, keep);
        proof {
            let step = ps.map_values(|p: Polygon<L>| tidy(merged(p, gone, keep)));
            assert(views(faces@) == ps);
            assert(views(first_pass@) == step);
            assert(views(first_pass@).map_values(|p: Polygon<L>| tidy(merged(p, keep, keep))) =~= views(first_pass@).map_values(|p: Polygon<L>| tidy(p))) by {
                assert forall|f: int| 0 <= f < views(first_pass@).len() implies #[trigger] merged(views(first_pass@)[f], keep, keep) == views(first_pass@)[f] by {
                    let p = views(first_pass@)[f];
                    assert(merged(p, keep, keep).corners =~= p.corners);
                }
            }
            assert(views(cleaned_faces@) == fs);
        }
        let mut compacted = MeshSnapshot { vertices, faces: cleaned_faces };
        let ghost before_faces = compacted.faces@;
        let remap = compacted.compact_with_map();
        proof {
            assert forall|i: int| 0 <= i < remap@.len() implies ((#[trigger] remap@[i]) is Some <==> used_by(fs, i)) by {
                lemma_used_views(before_faces, i);
            }
            let fs2 = views(compacted.faces@);
            assert forall|f: int| 0 <= f < fs.len() implies {
                &&& (#[trigger] fs2[f]).loops == fs[f].loops
                &&& fs2[f].data == fs[f].data
                &&& fs2[f].corners.len() == fs[f].corners.len()
                &&& forall|k: int| 0 <= k < fs[f].corners.len() ==> remap@[fs[f].corners[k] as int] == Some(#[trigger] fs2[f].corners[k])
            } by {
                assert(compacted.faces@[f].loops@ == before_faces[f].loops@);
                assert forall|k: int| 0 <= k < fs[f].corners.len() implies remap@[fs[f].corners[k] as int] == Some(#[trigger] fs2[f].corners[k]) by {
                    assert(remap@[before_faces[f].vertices@[k] as int] == Some(compacted.faces@[f].vertices@[k]));
                }
            }
            assert(is_compaction(remap@, vs, fs, compacted.vertices@, fs2));
            lemma_used_views(before_faces, keep as int);
        }
        let collapsed = match remap[keep] {
            Some(k) => k,
            None => {
                return Err(MeshError::InvalidTopology("edge collapse removed the surviving vertex from every face"));
            },
        };
        proof {
            assert(collapsed < compacted.vertices@.len());
        }
        match self.rebuild_in_place(compacted) {
            Ok(()) => Ok(VertexId(collapsed as u32)),
            Err(e) => Err(e),
        }
    }


    /// Joins two distinct boundary loops with the same number (at least three) of
    /// corners by a ring of quads, the second loop taken in reverse and rotated by the
    /// configured twist, and rebuilds.
    pub fn bridge_boundary_loops(&mut self, first_loop: usize, second_loop: usize, config: &MeshBridgeConfig) -> (r: Result<(), MeshError>)
        ensures
            ({
                let t = old(self).topology();
                let nb = old(self).nf() - old(self).interior();
                let l1 = t.face_loop(old(self).interior() + first_loop);
                let l2 = t.face_loop(old(self).interior() + second_loop);
                &&& first_loop >= nb || second_loop >= nb || first_loop == second_loop || l1.len() < 3 || l2.len() < 3
                    || l1.len() != l2.len() ==> r is Err && unsupported(r->Err_0, "bridge_boundary_loops")
                    && *final(self) == *old(self)
                &&& !(first_loop >= nb || second_loop >= nb || first_loop == second_loop || l1.len() < 3 || l2.len() < 3
                    || l1.len() != l2.len()) ==> rebuilt_from(
                    *old(self),
                    *final(self),
                    r,
                    old(self).vertex_data_view(),
                    old(self).polygons() + bridge_quads(
                        loop_origins(t, l1),
                        loop_origins(t, l2),
                        config.twist_offset as int % l1.len() as int,
                    ),
                )
            }),
    {
        proof {
            use_type_invariant(&*self);
            crate::mesh::lemma_valid_links_closed(self.topology());
        }
        let ghost t = self.topology();
        let loops = self.boundary_loops();
        if first_loop >= loops.len() {
            return Err(MeshError::UnsupportedOperation { operation: "bridge_boundary_loops", detail: loop_index_message(first_loop) });
        }
        if second_loop >= loops.len() {
            return Err(MeshError::UnsupportedOperation { operation: "bridge_boundary_loops", detail: loop_index_message(second_loop) });
        }
        if first_loop == second_loop {
            return Err(unsupported_error("bridge_boundary_loops", "bridge targets must refer to two distinct boundary loops"));
        }
        let n = loops[first_loop].len();
        if n < 3 || loops[second_loop].len() < 3 || n != loops[second_loop].len() {
            return Err(unsupported_error("bridge_boundary_loops", "bridge pass 1 requires two boundary loops with matching corner counts"));
        }
        let ghost l1 = loops@[first_loop as int]@;
        let ghost l2 = loops@[second_loop as int]@;
        let ghost fo = loop_origins(t, l1);
        let ghost so = loop_origins(t, l2);
        proof {
            crate::mesh::lemma_face_loop_in_range(t, self.interior() + first_loop);
            crate::mesh::lemma_face_loop_in_range(t, self.interior() + second_loop);
        }
        let mut first_vertices: Vec<usize> = Vec::new();
        let mut second_vertices: Vec<usize> = Vec::new();
        let mut i: usize = 0;
        while i < n
            invariant
                t == self.topology(),
                t.wf(),
                n == l1.len() == l2.len(),
                l1 == loops@[first_loop as int]@,
                l2 == loops@[second_loop as int]@,
                first_loop < loops@.len(),
                second_loop < loops@.len(),
                forall|j: int| 0 <= j < l1.len() ==> (#[trigger] l1[j]).idx() < t.nh(),
                forall|j: int| 0 <= j < l2.len() ==> (#[trigger] l2[j]).idx() < t.nh(),
                fo == loop_origins(t, l1),
                so == loop_origins(t, l2),
                i <= n,
                first_vertices@ =~= fo.take(i as int),
                second_vertices@ =~= so.reverse().take(i as int),
            decreases n - i,
        {
            let h1 = loops[first_loop][i];
            let h2 = loops[second_loop][n - 1 - i];
            first_vertices.push(self.links[h1.index()].origin.index());
            second_vertices.push(self.links[h2.index()].origin.index());
            i = i + 1;
        }
        let snapshot = self.to_snapshot();
        let twist = config.twist_offset % n;
        let MeshSnapshot { vertices, mut faces } = snapshot;
        let ghost quads = bridge_quads::<L>(fo, so, twist as int);
        let ghost base = views(faces@);
        let mut k: usize = 0;
        while k < n
            invariant
                n == fo.len() == so.len(),
                n >= 3,
                twist < n,
                first_vertices@ == fo,
                second_vertices@ == so.reverse(),
                quads == bridge_quads::<L>(fo, so, twist as int),
                k <= n,
                views(faces@) =~= base + quads.take(k as int),
            decreases n - k,
        {
            let next = if k + 1 == n { 0 } else { k + 1 };
            let b_index = if k >= n - twist { k - (n - twist) } else { k + twist };
            let b_next = if next >= n - twist { next - (n - twist) } else { next + twist };
            let quad = PolygonFace {
                vertices: vec![first_vertices[k], first_vertices[next], second_vertices[b_next], second_vertices[b_index]],
                loops: Vec::new(),
                data: FacePayload { material: None, region: None },
            };
            proof {
                if k + 1 == n {
                    vstd::arithmetic::div_mod::lemma_mod_self_0(n as int);
                } else {
                    vstd::arithmetic::div_mod::lemma_small_mod((k + 1) as nat, n as nat);
                }
                if k + twist >= n {
                    vstd::arithmetic::div_mod::lemma_mod_add_multiples_vanish(b_index as int, n as int);
                    vstd::arithmetic::div_mod::lemma_small_mod(b_index as nat, n as nat);
                } else {
                    vstd::arithmetic::div_mod::lemma_small_mod((k + twist) as nat, n as nat);
                }
                if next + twist >= n {
                    vstd::arithmetic::div_mod::lemma_mod_add_multiples_vanish(b_next as int, n as int);
                    vstd::arithmetic::div_mod::lemma_small_mod(b_next as nat, n as nat);
                } else {
                    vstd::arithmetic::div_mod::lemma_small_mod((next + twist) as nat, n as nat);
                }
                assert(face_view(quad).corners =~= quads[k as int].corners);
                assert(face_view(quad).loops =~= quads[k as int].loops);
                lemma_views_push(faces@, quad);
                assert(quads.take(k + 1) =~= quads.take(k as int).push(quads[k as int]));
            }
            faces.push(quad);
            k = k + 1;
        }
        proof {
            assert(quads.take(n as int) =~= quads);
        }
        self.rebuild_in_place(MeshSnapshot { vertices, faces })
    }

    /// One mesh per connected component, in the order of `connected_components`: the
    /// component's faces in listed order over the vertices they use, renumbered in order.
    pub fn separate_connected_components(&self) -> (r: Result<Vec<HalfEdgeMesh<V, L>>, MeshError>)
        ensures
            r is Ok ==> exists|comps: Seq<Seq<FaceId>>|
                #[trigger] is_component_split(self.topology(), comps) && r->Ok_0@.len() == comps.len() && forall|c: int|
                    0 <= c < comps.len() ==> is_compacted_mesh(
                        r->Ok_0@[c],
                        self.vertex_data_view(),
                        component_polygons(self.polygons(), #[trigger] comps[c]),
                    ),
            r is Ok ==> forall|c: int| 0 <= c < r->Ok_0@.len() ==> (#[trigger] r->Ok_0@[c]).canonical(),
            r is Err ==> exists|comps: Seq<Seq<FaceId>>, c: int, remap: Seq<Option<usize>>, vs2: Seq<V>, fs2: Seq<Polygon<L>>|
                is_component_split(self.topology(), comps) && 0 <= c < comps.len() && #[trigger] is_compaction(
                    remap,
                    self.vertex_data_view(),
                    component_polygons(self.polygons(), comps[c]),
                    vs2,
                    fs2,
                ) && !builds_cleanly(vs2.len() as int, fs2),
    {
        proof {
            use_type_invariant(self);
        }
        let comps = self.connected_components();
        let ghost cs = comps@.map_values(|c: Vec<FaceId>| c@);
        let snapshot = self.to_snapshot();
        let ghost ps = self.polygons();
        proof {
            lemma_snapshot_in_range(*self, snapshot);
        }
        let mut out: Vec<HalfEdgeMesh<V, L>> = Vec::new();
        let mut c: usize = 0;
        while c < comps.len()
            invariant
                is_component_split(self.topology(), cs),
                cs == comps@.map_values(|c: Vec<FaceId>| c@),
                views(snapshot.faces@) == ps,
                snapshot.vertices@ == self.vertex_data_view(),
                ps.len() == self.interior(),
                ps == self.polygons(),
                corners_in_range(snapshot.faces@, snapshot.vertices@.len() as int),
                c <= comps@.len(),
                out@.len() == c,
                forall|j: int|
                    0 <= j < c ==> is_compacted_mesh(out@[j], self.vertex_data_view(), component_polygons(ps, #[trigger] cs[j])),
                forall|j: int| 0 <= j < c ==> (#[trigger] out@[j]).canonical(),
            decreases comps@.len() - c,
        {
            let comp = &comps[c];
            let ghost cp = component_polygons(ps, cs[c as int]);
            let mut faces: Vec<PolygonFace<L>> = Vec::new();
            let mut k: usize = 0;
            while k < comp.len()
                invariant
                    is_component_split(self.topology(), cs),
                    cs == comps@.map_values(|c: Vec<FaceId>| c@),
                    c < comps@.len(),
                    comp@ == cs[c as int],
                    cp == component_polygons(ps, cs[c as int]),
                    views(snapshot.faces@) == ps,
                    ps.len() == self.interior(),
                    corners_in_range(snapshot.faces@, snapshot.vertices@.len() as int),
                    k <= comp@.len(),
                    views(faces@) =~= cp.take(k as int),
                    corners_in_range(faces@, snapshot.vertices@.len() as int),
                decreases comp@.len() - k,
            {
                let f = comp[k].index();
                proof {
                    assert(0 <= cs[c as int][k as int].idx() < self.interior());
                }
                let copy = snapshot.faces[f].copy();
                proof {
                    lemma_views_push(faces@, copy);
                    assert(face_view(copy) == cp[k as int]);
                    assert(cp.take(k + 1) =~= cp.take(k as int).push(cp[k as int]));
                }
                faces.push(copy);
                k = k + 1;
            }
            proof {
                assert(cp.take(comp@.len() as int) =~= cp);
            }
            let (remap, subset) = compact_snapshot(MeshSnapshot { vertices: crate::snapshot::copy_vec(&snapshot.vertices), faces });
            let ghost vs2 = subset.vertices@;
            let ghost fs2 = views(subset.faces@);
            let built = Self::from_snapshot(subset);
            proof {
                assert(is_compaction(remap@, self.vertex_data_view(), cp, vs2, fs2));
            }
            let mesh = match built {
                Ok(m) => m,
                Err(e) => {
                    proof {
                        assert(!builds_cleanly(vs2.len() as int, fs2));
                        assert(0 <= c < cs.len());
                        assert(is_compaction(remap@, self.vertex_data_view(), component_polygons(self.polygons(), cs[c as int]), vs2, fs2));
                        assert(is_component_split(self.topology(), cs));
                    }
                    return Err(e);
                },
            };
            proof {
                assert(is_compaction(remap@, self.vertex_data_view(), cp, vs2, fs2));
                assert(is_compacted_mesh(mesh, self.vertex_data_view(), cp));
            }
            let ghost out_before = out@;
            out.push(mesh);
            proof {
                assert forall|j: int| 0 <= j < c + 1 implies is_compacted_mesh(out@[j], self.vertex_data_view(), component_polygons(ps, #[trigger] cs[j])) by {
                    if j < c {
                        assert(out@[j] == out_before[j]);
                    }
                }
                assert forall|j: int| 0 <= j < c + 1 implies (#[trigger] out@[j]).canonical() by {
                    if j < c {
                        assert(out@[j] == out_before[j]);
                    }
                }
            }
            c = c + 1;
        }
        Ok(out)
    }


    /// Merges vertices: each vertex, in order, is asked against every earlier vertex in
    /// order whether `compatible` lets it join that vertex's representative; corners are
    /// renamed to representatives, faces cleaned, unused vertices compacted away, and the
    /// mesh rebuilt. Returns how many vertices went away.
    pub fn merge_vertices_by<F: Fn(usize, usize) -> bool>(&mut self, compatible: F) -> (r: Result<u32, MeshError>)
        requires
            forall|i: usize, j: usize| compatible.requires((i, j)),
        ensures
            exists|answers: Seq<Seq<bool>>, remap: Seq<Option<usize>>, vs2: Seq<V>, fs2: Seq<Polygon<L>>|
                answered(compatible, answers, old(self).nv()) && #[trigger] is_compaction(
                    remap,
                    old(self).vertex_data_view(),
                    merge_result(old(self).polygons(), representatives(answers, old(self).nv())),
                    vs2,
                    fs2,
                ) && rebuilt_from(*old(self), *final(self), r, vs2, fs2) && (r is Ok ==> r->Ok_0 == old(self).nv() - vs2.len()),
    {
        proof {
            use_type_invariant(&*self);
        }
        let snapshot = self.to_snapshot();
        let ghost ps = self.polygons();
        proof {
            lemma_snapshot_in_range(*self, snapshot);
        }
        let MeshSnapshot { vertices, faces } = snapshot;
        let nv = vertices.len();
        let mut reps: Vec<usize> = Vec::new();
        let mut answers: Ghost<Seq<Seq<bool>>> = Ghost(Seq::empty());
        let mut i: usize = 0;
        while i < nv
            invariant
                i <= nv,
                forall|x: usize, y: usize| compatible.requires((x, y)),
                answered(compatible, answers@, i as int),
                reps@ == representatives(answers@, i as int),
                reps@.len() == i,
                forall|j: int| 0 <= j < i ==> #[trigger] reps@[j] <= j,
            decreases nv - i,
        {
            let mut found: Option<usize> = None;
            let mut row: Ghost<Seq<bool>> = Ghost(Seq::empty());
            let mut c: usize = 0;
            while c < i && found.is_none()
                invariant
                    c <= i < nv,
                    forall|x: usize, y: usize| compatible.requires((x, y)),
                    reps@.len() == i,
                    row@.len() == c,
                    found is None ==> first_true(row@, 0) is None,
                    found matches Some(k) ==> first_true(row@, 0) == Some(k as int) && k == c - 1,
                    forall|k: int| 0 <= k < c ==> compatible.ensures((i, k as usize), #[trigger] row@[k]),
                decreases i - c,
            {
                let yes = compatible(i, c);
                proof {
                    lemma_first_true_push(row@, yes, 0);
                    row@ = row@.push(yes);
                }
                if yes {
                    found = Some(c);
                }
                c = c + 1;
            }
            let rep = match found {
                Some(k) => reps[k],
                None => i,
            };
            proof {
                let old_answers = answers@;
                answers@ = answers@.push(row@);
                assert(answers@.drop_last() =~= old_answers);
                lemma_first_true_range(row@, 0);
                assert forall|j: int| 0 <= j < i + 1 implies {
                    &&& (#[trigger] answers@[j]).len() <= j
                    &&& (first_true(answers@[j], 0) is None ==> answers@[j].len() == j)
                    &&& (first_true(answers@[j], 0) matches Some(k) ==> k == answers@[j].len() - 1)
                    &&& answered_row(compatible, answers@[j], j)
                } by {
                    if j < i {
                        assert(answers@[j] == old_answers[j]);
                    }
                }
                assert(representatives(answers@, i + 1) =~= reps@.push(rep)) by {
                    assert(representatives(answers@, i as int) == representatives(old_answers, i as int)) by {
                        lemma_representatives_prefix(old_answers, answers@, i as int);
                    }
                }
            }
            reps.push(rep);
            i = i + 1;
        }
        let ghost rs = reps@;
        proof {
            assert forall|j: int| 0 <= j < nv implies #[trigger] rs[j] < nv by {
                assert(rs[j] <= j);
            }
        }
        let mut relabeled_faces: Vec<PolygonFace<L>> = Vec::new();
        let mut f: usize = 0;
        while f < faces.len()
            invariant
                views(faces@) == ps,
                forall|j: int| 0 <= j < faces@.len() ==> (#[trigger] faces@[j]).loops@.len() == faces@[j].vertices@.len(),
                corners_in_range(faces@, nv as int),
                rs == reps@,
                rs.len() == nv,
                forall|j: int| 0 <= j < nv ==> #[trigger] rs[j] < nv,
                f <= faces@.len(),
                views(relabeled_faces@) =~= ps.take(f as int).map_values(|p: Polygon<L>| relabeled(p, rs)),
                forall|j: int| 0 <= j < relabeled_faces@.len() ==> (#[trigger] relabeled_faces@[j]).loops@.len() == relabeled_faces@[j].vertices@.len(),
                corners_in_range(relabeled_faces@, nv as int),
            decreases faces@.len() - f,
        {
            let n = faces[f].vertices.len();
            let mut vs: Vec<usize> = Vec::new();
            let mut k: usize = 0;
            while k < n
                invariant
                    f < faces@.len(),
                    n == faces@[f as int].vertices@.len(),
                    corners_in_range(faces@, nv as int),
                    rs == reps@,
                    rs.len() == nv,
                    forall|j: int| 0 <= j < nv ==> #[trigger] rs[j] < nv,
                    k <= n,
                    vs@ =~= faces@[f as int].vertices@.take(k as int).map_values(|c: usize| rs[c as int]),
                    forall|j: int| 0 <= j < vs@.len() ==> #[trigger] vs@[j] < nv,
                decreases n - k,
            {
                let v = faces[f].vertices[k];
                proof {
                    assert(faces@[f as int].vertices@[k as int] < nv);
                }
                vs.push(reps[v]);
                k = k + 1;
            }
            let face = PolygonFace { vertices: vs, loops: crate::snapshot::copy_vec(&faces[f].loops), data: faces[f].data };
            proof {
                assert(ps[f as int] == face_view(faces@[f as int]));
                assert(faces@[f as int].vertices@.take(n as int) =~= faces@[f as int].vertices@);
                assert(face_view(face) == relabeled(ps[f as int], rs)) by {
                    assert(face_view(face).corners =~= relabeled(ps[f as int], rs).corners);
                }
                lemma_views_push(relabeled_faces@, face);
                assert(ps.take(f + 1) =~= ps.take(f as int).push(ps[f as int]));
            }
            relabeled_faces.push(face);
            f = f + 1;
        }
        proof {
            assert(ps.take(faces@.len() as int) =~= ps);
        }
        let tidied = tidy_faces(&relabeled_faces, 0, 0, nv);
        let cleaned_faces = drop_degenerate(&tidied, nv);
        let ghost fs = merge_result(ps, rs);
        proof {
            let rl = ps.map_values(|p: Polygon<L>| relabeled(p, rs));
            assert(views(relabeled_faces@) == rl);
            assert(rl.map_values(|p: Polygon<L>| tidy(merged(p, 0, 0))) =~= rl.map_values(|p: Polygon<L>| tidy(p))) by {
                assert forall|j: int| 0 <= j < rl.len() implies #[trigger] merged(rl[j], 0, 0) == rl[j] by {
                    assert(merged(rl[j], 0, 0).corners =~= rl[j].corners);
                }
            }
            assert(views(cleaned_faces@) == fs);
        }
        let (remap, compacted) = compact_snapshot(MeshSnapshot { vertices, faces: cleaned_faces });
        let ghost vs2 = compacted.vertices@;
        let ghost fs2 = views(compacted.faces@);
        let kept_count = compacted.vertices.len();
        proof {
            assert(remap@.len() == nv);
            assert forall|n: int| 0 <= n < vs2.len() implies #[trigger] remap_hits(remap@, n) by {}
            lemma_compaction_shrinks(remap@, self.vertex_data_view(), fs, vs2, fs2);
            assert(nv < u32::MAX);
        }
        let merged_count = (nv - kept_count) as u32;
        let rr = self.rebuild_in_place(compacted);
        let result = match rr {
            Ok(()) => Ok(merged_count),
            Err(e) => Err(e),
        };
        proof {
            assert(rebuilt_from(*old(self), *self, result, vs2, fs2));
            assert(answered(compatible, answers@, nv as int));
            assert(rs == representatives(answers@, nv as int));
            assert(is_compaction(remap@, old(self).vertex_data_view(), merge_result(ps, representatives(answers@, nv as int)), vs2, fs2));
            assert(nv == old(self).nv());
            assert(kept_count == vs2.len());
            assert(result is Ok ==> result->Ok_0 == old(self).nv() - vs2.len());
        }
        result
    }


    /// Replaces the payload of each listed vertex, in order, by what `update` gives for
    /// it. An empty list is refused with `operation`'s name; a vertex that does not exist
    /// stops the walk with an error, after the vertices before it were updated.
    pub fn update_vertex_payloads<F: Fn(V) -> V>(&mut self, vertices: &[VertexId], operation: &'static str, update: F) -> (r: Result<(), MeshError>)
        requires
            forall|x: V| update.requires((x,)),
        ensures
            final(self).topology() == old(self).topology(),
            final(self).loop_data_view() == old(self).loop_data_view(),
            vertices@.len() == 0 ==> r == Err::<(), MeshError>(MeshError::EmptySelection(operation))
                && final(self).vertex_data_view() == old(self).vertex_data_view(),
            forall|k: int| #[trigger] first_bad_vertex(vertices@, old(self).nv(), k) ==> r == Err::<(), MeshError>(
                MeshError::InvalidVertex(vertices@[k]),
            ) && exists|outs: Seq<V>|
                #[trigger] updates_answered(old(self).vertex_data_view(), vertices@, outs, k, update)
                    && final(self).vertex_data_view() == updated_payloads(old(self).vertex_data_view(), vertices@, outs, k),
            vertices@.len() > 0 && (forall|k: int| 0 <= k < vertices@.len() ==> (#[trigger] vertices@[k]).idx() < old(self).nv())
                ==> r is Ok && exists|outs: Seq<V>|
                #[trigger] updates_answered(old(self).vertex_data_view(), vertices@, outs, vertices@.len() as int, update)
                    && final(self).vertex_data_view() == updated_payloads(
                    old(self).vertex_data_view(),
                    vertices@,
                    outs,
                    vertices@.len() as int,
                ),
    {
        proof {
            use_type_invariant(&*self);
        }
        if vertices.len() == 0 {
            return Err(MeshError::EmptySelection(operation));
        }
        let ghost vd = self.vertex_data_view();
        let mut outs: Ghost<Seq<V>> = Ghost(Seq::empty());
        let mut i: usize = 0;
        while i < vertices.len()
            invariant
                forall|x: V| update.requires((x,)),
                i <= vertices@.len(),
                self.topology() == old(self).topology(),
                self.loop_data_view() == old(self).loop_data_view(),
                vd == old(self).vertex_data_view(),
                forall|j: int| 0 <= j < i ==> (#[trigger] vertices@[j]).idx() < old(self).nv(),
                updates_answered(vd, vertices@, outs@, i as int, update),
                self.vertex_data_view() == updated_payloads(vd, vertices@, outs@, i as int),
                self.vertex_data_view().len() == old(self).nv(),
            decreases vertices@.len() - i,
        {
            let v = vertices[i];
            if v.index() >= self.vertex_count() {
                proof {
                    assert(first_bad_vertex(vertices@, old(self).nv(), i as int));
                    assert forall|k: int| #[trigger] first_bad_vertex(vertices@, old(self).nv(), k) implies k == i by {
                        if k < i {
                            assert(vertices@[k].idx() < old(self).nv());
                        } else if k > i {
                            assert(vertices@[i as int].idx() < old(self).nv());
                        }
                    }
                }
                return Err(MeshError::InvalidVertex(v));
            }
            let current = *self.vertex_payload(v).unwrap();
            let next = update(current);
            let _ = self.set_vertex_payload(v, next);
            proof {
                use_type_invariant(&*self);
                let o2 = outs@.push(next);
                assert forall|j: int| 0 <= j <= i implies #[trigger] updated_payloads(vd, vertices@, o2, j) == updated_payloads(vd, vertices@, outs@, j) by {
                    lemma_updated_prefix(vd, vertices@, o2, outs@, j);
                }
                assert forall|j: int| 0 <= j < i + 1 implies update.ensures((updated_payloads(vd, vertices@, o2, j)[vertices@[j].idx()],), #[trigger] o2[j]) by {
                    if j < i {
                        assert(o2[j] == outs@[j]);
                    }
                }
                outs@ = o2;
            }
            i = i + 1;
        }
        Ok(())
    }


    /// Whether some interior face has fewer than three distinct corners or is called
    /// too thin by `thin` (asked, in face order, only about faces with three distinct
    /// corners, until the first degenerate face).
    #[verifier::spinoff_prover]
    #[verifier::rlimit(30)]
    pub fn has_degenerate_faces_by<F: Fn(usize) -> bool>(&self, thin: F) -> (b: bool)
        requires
            forall|f: usize| thin.requires((f,)),
        ensures
            b ==> exists|f: usize| f < self.interior() && #[trigger] degenerate_face(self.polygons(), thin, f),
            !b ==> forall|f: int|
                0 <= f < self.interior() ==> three_distinct(#[trigger] self.polygons()[f].corners) && thin.ensures(
                    (f as usize,),
                    false,
                ),
    {
        proof {
            use_type_invariant(self);
        }
        let snapshot = self.to_snapshot();
        let ghost ps = self.polygons();
        let n = snapshot.faces.len();
        let mut f: usize = 0;
        while f < n
            invariant
                forall|x: usize| thin.requires((x,)),
                n == snapshot.faces@.len() == ps.len() == self.interior(),
                views(snapshot.faces@) == ps,
                ps == self.polygons(),
                f <= n,
                forall|g: int| 0 <= g < f ==> three_distinct(#[trigger] ps[g].corners) && thin.ensures((g as usize,), false),
            decreases n - f,
        {
            proof {
                assert(ps[f as int] == face_view(snapshot.faces@[f as int]));
            }
            let distinct = has_three_distinct(&snapshot.faces[f].vertices);
            if !distinct {
                proof {
                    assert(degenerate_face(self.polygons(), thin, f));
                }
                return true;
            }
            let is_thin = thin(f);
            if is_thin {
                proof {
                    assert(thin.ensures((f,), is_thin));
                    assert(degenerate_face(self.polygons(), thin, f));
                }
                return true;
            }
            let ghost done = f;
            proof {
                assert(thin.ensures((f,), is_thin));
                assert(three_distinct(ps[f as int].corners));
                assert forall|g: int| 0 <= g < done + 1 implies three_distinct(#[trigger] ps[g].corners) && thin.ensures(
                    (g as usize,),
                    false,
                ) by {
                    if g == f {
                        assert((g as usize) == f);
                        assert(!is_thin);
                        assert(thin.ensures((g as usize,), is_thin));
                    } else {
                        assert(three_distinct(ps[g].corners));
                    }
                }
            }
            f = f + 1;
        }
        false
    }

    /// Replaces every interior face by its fan triangulation around its first corner and
    /// rebuilds.
    pub fn triangulate_faces(&mut self) -> (r: Result<(), MeshError>)
        ensures
            rebuilt_from(*old(self), *final(self), r, old(self).vertex_data_view(), triangulated(old(self).polygons())),
    {
        let snapshot = self.to_snapshot();
        let ghost ps = self.polygons();
        let MeshSnapshot { vertices, faces } = snapshot;
        let mut out: Vec<PolygonFace<L>> = Vec::new();
        let mut i: usize = 0;
        while i < faces.len()
            invariant
                i <= faces@.len(),
                views(faces@) == ps,
                forall|j: int| 0 <= j < faces@.len() ==> (#[trigger] faces@[j]).loops@.len() == faces@[j].vertices@.len(),
                views(out@) == joined(ps.map_values(|p: Polygon<L>| fan_triangles(p)).take(i as int)),
            decreases faces@.len() - i,
        {
            let tris = triangulate_polygon_face(&faces[i]);
            let ghost out_before = out@;
            let mut k: usize = 0;
            while k < tris.len()
                invariant
                    k <= tris@.len(),
                    views(out@) == views(out_before) + views(tris@).take(k as int),
                decreases tris@.len() - k,
            {
                proof {
                    lemma_views_push(out@, tris@[k as int]);
                    assert(views(tris@).take(k + 1) =~= views(tris@).take(k as int).push(face_view(tris@[k as int])));
                }
                out.push(tris[k].copy());
                proof {
                    assert(face_view(out@.last()) == face_view(tris@[k as int]));
                }
                k = k + 1;
            }
            proof {
                let parts = ps.map_values(|p: Polygon<L>| fan_triangles(p));
                assert(views(tris@).take(k as int) =~= views(tris@));
                assert(views(faces@)[i as int] == face_view(faces@[i as int]));
                assert(parts.take(i + 1) =~= parts.take(i as int).push(parts[i as int]));
                lemma_joined_push(parts.take(i as int), parts[i as int]);
            }
            i = i + 1;
        }
        proof {
            let parts = ps.map_values(|p: Polygon<L>| fan_triangles(p));
            assert(parts.take(faces@.len() as int) =~= parts);
        }
        self.rebuild_in_place(MeshSnapshot { vertices, faces: out })
    }
}

} // verus!
