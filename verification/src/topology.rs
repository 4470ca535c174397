use crate::error::MeshError;
use crate::ids::{FaceId, HalfEdgeId, INVALID_INDEX};
use crate::mesh::{lemma_face_loop_in_range, lemma_valid_links_closed, HalfEdgeMesh, Polygon, Topology};
use crate::build_spec::{alike_from, builds_manifold, built_topology};
use crate::laws::{law_boundary_loops_partition, law_own_snapshot_rebuilds};
use crate::shape_builds::{lemma_cube_builds, lemma_quad_builds, lemma_tetrahedron_builds, lemma_triangle_builds};
use crate::ops::authored;
use crate::rebuild::{corner_key, corner_problem, corner_problem_from, face_keys, face_problem, problem_from, input_problem, keys_before, lemma_keys_before_step, mesh_matches, polygon_matches, snapshot_fits, views};
use crate::snapshot::{copy_vec, empty_face_payload, MeshSnapshot, PolygonFace};
use crate::validation::{check_manifold, check_topology};
use vstd::prelude::*;

verus! {

/// Interior face `g` lies across one of the edges of face `f`.
pub open spec fn faces_adjacent(t: Topology, f: int, g: int) -> bool {
    exists|k: int|
        0 <= k < t.face_loop(f).len() && t.links[t.links[t.face_loop(f)[k].idx()].twin.idx()].face.idx()
            == g
}

/// `comps` splits the faces `0..n` into non-empty lists, each face in exactly one place.
pub open spec fn is_face_partition(comps: Seq<Seq<FaceId>>, n: int) -> bool {
    &&& forall|c: int| 0 <= c < comps.len() ==> (#[trigger] comps[c]).len() > 0
    &&& forall|c: int, k: int|
        0 <= c < comps.len() && 0 <= k < comps[c].len() ==> 0 <= (#[trigger] comps[c][k]).idx() < n
    &&& forall|f: int| 0 <= f < n ==> #[trigger] face_listed(comps, f)
    &&& forall|c1: int, k1: int, c2: int, k2: int|
        0 <= c1 < comps.len() && 0 <= k1 < comps[c1].len() && 0 <= c2 < comps.len() && 0 <= k2
            < comps[c2].len() && (c1 != c2 || k1 != k2) ==> #[trigger] comps[c1][k1] != #[trigger] comps[c2][k2]
}

pub open spec fn face_listed(comps: Seq<Seq<FaceId>>, f: int) -> bool {
    exists|c: int, k: int| 0 <= c < comps.len() && 0 <= k < comps[c].len() && comps[c][k].idx() == f
}

pub open spec fn listed_in(comps: Seq<Seq<FaceId>>, f: int, c: int) -> bool {
    exists|k: int| 0 <= k < comps[c].len() && comps[c][k].idx() == f
}

/// Face `q[k]` lies across an edge of some face listed before it.
pub open spec fn linked_to_earlier(t: Topology, q: Seq<FaceId>, k: int) -> bool {
    exists|j: int| 0 <= j < k && faces_adjacent(t, q[j].idx(), q[k].idx())
}

/// Every face of the list after the first is reached from an earlier one.
pub open spec fn chain_connected(t: Topology, q: Seq<FaceId>) -> bool {
    forall|k: int| 0 < k < q.len() ==> #[trigger] linked_to_earlier(t, q, k)
}

/// The first face of the list is its smallest.
pub open spec fn starts_at_min(q: Seq<FaceId>) -> bool {
    forall|k: int| 0 <= k < q.len() ==> q[0].idx() <= (#[trigger] q[k]).idx()
}

/// Face `g` is listed in one of the lists `0..=c`.
pub open spec fn listed_upto(comps: Seq<Seq<FaceId>>, g: int, c: int) -> bool {
    exists|c2: int| 0 <= c2 <= c && listed_in(comps, g, c2)
}

/// Every interior neighbor of a face of list `c` is listed in list `c` or an earlier one.
pub open spec fn neighbors_listed(t: Topology, comps: Seq<Seq<FaceId>>, c: int) -> bool {
    forall|k: int, g: int|
        0 <= k < comps[c].len() && 0 <= g < t.interior && #[trigger] faces_adjacent(t, comps[c][k].idx(), g)
            ==> listed_upto(comps, g, c)
}

/// What `connected_components` returns for a mesh with topology `t`: a partition of the
/// interior faces; each list starts at its smallest face and reaches every later face
/// through faces listed before it; lists are ordered by their first face; and every
/// interior neighbor of a listed face is listed in the same or an earlier list.
pub open spec fn is_component_split(t: Topology, comps: Seq<Seq<FaceId>>) -> bool {
    &&& is_face_partition(comps, t.interior)
    &&& forall|c: int|
        0 <= c < comps.len() ==> {
            &&& chain_connected(t, #[trigger] comps[c])
            &&& starts_at_min(comps[c])
            &&& neighbors_listed(t, comps, c)
        }
    &&& forall|c1: int, c2: int|
        0 <= c1 < c2 < comps.len() ==> (#[trigger] comps[c1])[0].idx() < (#[trigger] comps[c2])[0].idx()
}

/// Polygon `i` of `fs` is interior face `i` of `t`: corners, loop payloads and metadata.
pub open spec fn face_copied<L>(t: Topology, loops: Seq<L>, fs: Seq<PolygonFace<L>>, i: int) -> bool {
    &&& fs[i].vertices@.len() == t.face_loop(i).len()
    &&& fs[i].loops@.len() == t.face_loop(i).len()
    &&& fs[i].data == t.faces[i].data
    &&& forall|c: int|
        0 <= c < t.face_loop(i).len() ==> {
            &&& (#[trigger] fs[i].vertices@[c]) == t.links[t.face_loop(i)[c].idx()].origin.idx()
            &&& fs[i].loops@[c] == loops[t.face_loop(i)[c].idx()]
        }
}

impl<V: Copy, L: Copy> HalfEdgeMesh<V, L> {
    /// The polygon snapshot of the mesh: its vertex payloads and, for each interior face,
    /// the origins and loop payloads of its corners in loop order. Rebuilding from it always
    /// succeeds and gives back the same connectivity.
    pub fn to_snapshot(&self) -> (s: MeshSnapshot<V, L>)
        ensures
            mesh_matches(*self, s.vertices@, views(s.faces@)),
            forall|i: int| 0 <= i < s.faces@.len() ==> (#[trigger] s.faces@[i]).loops@.len() == s.faces@[i].vertices@.len(),
            s.vertices@ == self.vertex_data_view(),
            views(s.faces@) == self.polygons(),
            snapshot_fits(s.vertices@.len() as int, views(s.faces@)),
            input_problem(s.vertices@.len() as int, views(s.faces@)) is None,
            builds_manifold(s.vertices@.len() as int, views(s.faces@)),
            alike_from(built_topology(s.vertices@.len() as int, views(s.faces@))->0, self.topology(), self.interior()),
    {
        proof {
            use_type_invariant(self);
            lemma_valid_links_closed(self.topology());
        }
        let ghost t = self.topology();
        let vertices = copy_vec(&self.vertex_data);
        let mut faces: Vec<PolygonFace<L>> = Vec::new();
        let nf = self.interior_face_count;
        let mut f: usize = 0;
        while f < nf
            invariant
                t == self.topology(),
                t.wf(),
                self.loop_data@.len() == t.nh(),
                nf == t.interior,
                f <= nf,
                faces@.len() == f,
                forall|i: int| 0 <= i < f ==> #[trigger] face_copied(t, self.loop_data@, faces@, i),
            decreases nf - f,
        {
            let hs = walk_face(self, f);
            proof {
                lemma_face_loop_in_range(t, f as int);
            }
            let mut vs: Vec<usize> = Vec::new();
            let mut ls: Vec<L> = Vec::new();
            let mut k: usize = 0;
            while k < hs.len()
                invariant
                    t == self.topology(),
                    t.wf(),
                    nf == t.interior,
                    f < nf,
                    faces@.len() == f,
                    forall|i: int| 0 <= i < f ==> #[trigger] face_copied(t, self.loop_data@, faces@, i),
                    self.loop_data@.len() == t.nh(),
                    hs@ == t.face_loop(f as int),
                    forall|j: int| 0 <= j < hs@.len() ==> (#[trigger] hs@[j]).idx() < t.nh(),
                    k <= hs.len(),
                    vs@.len() == k,
                    ls@.len() == k,
                    forall|c: int|
                        0 <= c < k ==> {
                            &&& (#[trigger] vs@[c]) == t.links[hs@[c].idx()].origin.idx()
                            &&& ls@[c] == self.loop_data@[hs@[c].idx()]
                        },
                decreases hs.len() - k,
            {
                let h = hs[k].index();
                vs.push(self.links[h].origin.index());
                ls.push(self.loop_data[h]);
                k = k + 1;
            }
            let ghost vs_g = vs@;
            let ghost ls_g = ls@;
            let ghost faces_before = faces@;
            faces.push(PolygonFace { vertices: vs, loops: ls, data: self.faces[f].data });
            proof {
                assert forall|i: int| 0 <= i < f + 1 implies #[trigger] face_copied(t, self.loop_data@, faces@, i) by {
                    if i < f {
                        assert(face_copied(t, self.loop_data@, faces_before, i));
                        assert(faces@[i] == faces_before[i]);
                    } else {
                        assert(faces@[i].vertices@ == vs_g);
                        assert(faces@[i].loops@ == ls_g);
                    }
                }
            }
            f = f + 1;
        }
        let s = MeshSnapshot { vertices, faces };
        proof {
            assert forall|i: int| 0 <= i < s.faces@.len() implies (#[trigger] s.faces@[i]).loops@.len() == s.faces@[i].vertices@.len() by {
                assert(face_copied(t, self.loop_data@, s.faces@, i));
            }
            assert forall|i: int| 0 <= i < s.faces@.len() implies polygon_matches(#[trigger] self.polygon(i), views(s.faces@)[i]) by {
                assert(face_copied(t, self.loop_data@, s.faces@, i));
                assert(self.polygon(i).corners =~= s.faces@[i].vertices@);
                assert forall|c: int| 0 <= c < s.faces@[i].loops@.len() implies #[trigger] self.polygon(i).loops[c] == s.faces@[i].loops@[c] by {
                    assert(s.faces@[i].vertices@[c] == t.links[t.face_loop(i)[c].idx()].origin.idx());
                }
                assert(self.polygon(i).loops =~= s.faces@[i].loops@);
            }
            assert forall|i: int| 0 <= i < s.faces@.len() implies #[trigger] views(s.faces@)[i] == self.polygons()[i] by {
                assert(face_copied(t, self.loop_data@, s.faces@, i));
                assert(polygon_matches(self.polygon(i), views(s.faces@)[i]));
                assert(self.polygon(i).corners =~= s.faces@[i].vertices@);
                assert forall|c: int| 0 <= c < s.faces@[i].loops@.len() implies #[trigger] self.polygon(i).loops[c] == s.faces@[i].loops@[c] by {
                    assert(s.faces@[i].vertices@[c] == t.links[t.face_loop(i)[c].idx()].origin.idx());
                }
                assert(self.polygon(i).loops =~= s.faces@[i].loops@);
            }
            assert(views(s.faces@) =~= self.polygons());
            law_own_snapshot_rebuilds(*self);
        }
        s
    }

    /// Runs every storage and manifold check. Every mesh of this library passes them.
    pub fn validate(&self) -> (r: Result<(), MeshError>)
        ensures
            r is Ok,
            self.topology().valid(),
    {
        proof {
            use_type_invariant(self);
        }
        check_topology(&self.vertex_outgoing, &self.links, &self.edge_halfedge, &self.faces, self.interior_face_count)
    }

    /// Whether the manifold checks pass; they always do for meshes of this library.
    pub fn is_manifold(&self) -> (b: bool)
        ensures
            b,
            b == self.topology().manifold_ok(),
    {
        proof {
            use_type_invariant(self);
        }
        check_manifold(&self.vertex_outgoing, &self.links, &self.edge_halfedge, &self.faces, self.interior_face_count).is_ok()
    }

    /// A mesh is closed when it has no boundary face.
    pub fn is_closed(&self) -> (b: bool)
        ensures
            b == (self.nf() == self.interior()),
    {
        proof {
            use_type_invariant(self);
        }
        self.faces.len() - self.interior_face_count == 0
    }

    /// The half-edge loops of the boundary faces, in boundary face order.
    pub fn boundary_loops(&self) -> (loops: Vec<Vec<HalfEdgeId>>)
        ensures
            loops@.len() == self.nf() - self.interior(),
            forall|i: int|
                0 <= i < loops@.len() ==> (#[trigger] loops@[i])@ == self.topology().face_loop(self.interior() + i),
            forall|h: int|
                0 <= h < self.nh() ==> (self.halfedge_on_boundary(h) <==> exists|i: int|
                    0 <= i < loops@.len() && (#[trigger] loops@[i])@.contains(HalfEdgeId(h as u32))),
            forall|h: int, i: int, j: int|
                0 <= h < self.nh() && 0 <= i < loops@.len() && 0 <= j < loops@.len() && #[trigger] loops@[i]@.contains(
                    HalfEdgeId(h as u32),
                ) && #[trigger] loops@[j]@.contains(HalfEdgeId(h as u32)) ==> i == j,
    {
        proof {
            use_type_invariant(self);
            law_boundary_loops_partition(*self);
        }
        let ghost t = self.topology();
        let mut out: Vec<Vec<HalfEdgeId>> = Vec::new();
        let mut f = self.interior_face_count;
        let nf = self.faces.len();
        while f < nf
            invariant
                t == self.topology(),
                t.wf(),
                nf == t.nf(),
                t.interior <= f <= nf,
                out@.len() == f - t.interior,
                forall|i: int| 0 <= i < out@.len() ==> (#[trigger] out@[i])@ == t.face_loop(t.interior + i),
            decreases nf - f,
        {
            out.push(walk_face(self, f));
            f = f + 1;
        }
        proof {
            assert forall|h: int| 0 <= h < self.nh() implies (self.halfedge_on_boundary(h) <==> exists|i: int|
                0 <= i < out@.len() && (#[trigger] out@[i])@.contains(HalfEdgeId(h as u32))) by {
                if self.halfedge_on_boundary(h) {
                    assert(t.link_ok(h));
                    let i = t.links[h].face.idx() - t.interior;
                    assert(out@[i]@ == t.face_loop(t.interior + i));
                }
                if exists|i: int| 0 <= i < out@.len() && (#[trigger] out@[i])@.contains(HalfEdgeId(h as u32)) {
                    let i = choose|i: int| 0 <= i < out@.len() && (#[trigger] out@[i])@.contains(HalfEdgeId(h as u32));
                    assert(out@[i]@ == t.face_loop(t.interior + i));
                }
            }
            assert forall|h: int, i: int, j: int|
                0 <= h < self.nh() && 0 <= i < out@.len() && 0 <= j < out@.len() && #[trigger] out@[i]@.contains(
                    HalfEdgeId(h as u32),
                ) && #[trigger] out@[j]@.contains(HalfEdgeId(h as u32)) implies i == j by {
                assert(out@[i]@ == t.face_loop(t.interior + i));
                assert(out@[j]@ == t.face_loop(t.interior + j));
            }
        }
        out
    }

    /// Splits the interior faces into groups connected through shared edges, by a
    /// breadth-first search from the smallest face not yet reached.
    pub fn connected_components(&self) -> (comps: Vec<Vec<FaceId>>)
        ensures
            is_component_split(self.topology(), comps@.map_values(|c: Vec<FaceId>| c@)),
    {
        proof {
            use_type_invariant(self);
        }
        crate::components::face_components(self)
    }
}

/// The loop of face `f` (interior or boundary).
pub(crate) fn walk_face<V: Copy, L: Copy>(m: &HalfEdgeMesh<V, L>, f: usize) -> (hs: Vec<HalfEdgeId>)
    requires
        f < m.nf(),
    ensures
        hs@ == m.topology().face_loop(f as int),
        forall|j: int| 0 <= j < hs@.len() ==> (#[trigger] hs@[j]).idx() < m.nh(),
{
    proof {
        use_type_invariant(m);
        lemma_valid_links_closed(m.topology());
        lemma_face_loop_in_range(m.topology(), f as int);
    }
    crate::mesh::walk_collect(&m.links, m.faces[f].halfedge, false)
}

/// The interior faces of `m` have exactly these corner lists, in order.
pub open spec fn has_faces<V, L>(m: HalfEdgeMesh<V, L>, corners: Seq<Seq<usize>>) -> bool {
    &&& m.interior() == corners.len()
    &&& forall|i: int|
        0 <= i < corners.len() ==> {
            &&& (#[trigger] m.topology().face_loop(i)).len() == corners[i].len()
            &&& forall|c: int|
                0 <= c < corners[i].len() ==> (#[trigger] m.topology().links[m.topology().face_loop(i)[c].idx()]).origin.idx()
                    == corners[i][c]
        }
}

/// The corner lists of a polygon list.
pub open spec fn corner_lists<L>(faces: Seq<PolygonFace<L>>) -> Seq<Seq<usize>> {
    faces.map_values(|f: PolygonFace<L>| f.vertices@)
}

/// The polygons with these corner lists, no loop payloads and empty metadata.
pub open spec fn shape_polygons<L>(cs: Seq<Seq<usize>>) -> Seq<Polygon<L>> {
    cs.map_values(|c: Seq<usize>| authored::<L>(c))
}

proof fn lemma_shape_view<L>(faces: Seq<PolygonFace<L>>, cs: Seq<Seq<usize>>)
    requires
        corner_lists(faces) == cs,
        forall|i: int| 0 <= i < faces.len() ==> (#[trigger] faces[i]).loops@.len() == 0 && faces[i].data == empty_face_payload(),
    ensures
        views(faces) == shape_polygons::<L>(cs),
{
    assert forall|i: int| 0 <= i < faces.len() implies #[trigger] views(faces)[i] == shape_polygons::<L>(cs)[i] by {
        assert(faces[i].loops@ =~= Seq::<L>::empty());
        assert(corner_lists(faces)[i] == faces[i].vertices@);
    }
    assert(views(faces) =~= shape_polygons::<L>(cs));
}

proof fn lemma_keys_bound<L>(fs: Seq<Polygon<L>>, i: int)
    requires
        0 <= i <= fs.len(),
        forall|j: int| 0 <= j < fs.len() ==> (#[trigger] fs[j]).corners.len() <= 4,
    ensures
        keys_before(fs, i).len() <= 4 * i,
    decreases i,
{
    if i > 0 {
        lemma_keys_bound(fs, i - 1);
        lemma_keys_before_step(fs, i - 1);
    }
}

/// A few small polygons over a few vertices fit the id range.
proof fn lemma_small_shape_fits<L>(cs: Seq<Seq<usize>>, nv: int)
    requires
        cs.len() <= 6,
        forall|i: int| 0 <= i < cs.len() ==> (#[trigger] cs[i]).len() <= 4,
        0 <= nv <= 8,
    ensures
        snapshot_fits(nv, shape_polygons::<L>(cs)),
{
    let fs = shape_polygons::<L>(cs);
    assert forall|j: int| 0 <= j < fs.len() implies (#[trigger] fs[j]).corners.len() <= 4 by {
        assert(fs[j].corners == cs[j]);
    }
    lemma_keys_bound(fs, fs.len() as int);
}

/// The triangle breaks no rule over its 3 vertices.
proof fn lemma_triangle_no_problem<L>()
    ensures
        input_problem(3, shape_polygons::<L>(triangle_corners())) is None,
{
    let fs = shape_polygons::<L>(triangle_corners());
    assert(keys_before(fs, 0) =~= Seq::<(usize, usize)>::empty());
    assert(fs[0].corners =~= seq![0usize, 1usize, 2usize]);
    assert(face_keys(fs[0]) =~= seq![(0usize, 1usize), (1usize, 2usize), (2usize, 0usize)]);
    lemma_keys_before_step(fs, 0);
    assert(keys_before(fs, 1) =~= seq![(0usize, 1usize), (1usize, 2usize), (2usize, 0usize)]);
    assert(problem_from(3, fs, 1) is None);
    assert(corner_problem_from(3, fs, 0, 3) is None);
    assert(!(keys_before(fs, 0) + face_keys(fs[0]).take(2)).contains((2usize, 0usize))) by {
        assert(keys_before(fs, 0) + face_keys(fs[0]).take(2) =~= seq![(0usize, 1usize), (1usize, 2usize)]);
    }
    assert(corner_key(fs[0], 2) == (2usize, 0usize));
    assert(corner_problem(3, fs, 0, 2) is None);
    assert(corner_problem_from(3, fs, 0, 2) is None);
    assert(!(keys_before(fs, 0) + face_keys(fs[0]).take(1)).contains((1usize, 2usize))) by {
        assert(keys_before(fs, 0) + face_keys(fs[0]).take(1) =~= seq![(0usize, 1usize)]);
    }
    assert(corner_key(fs[0], 1) == (1usize, 2usize));
    assert(corner_problem(3, fs, 0, 1) is None);
    assert(corner_problem_from(3, fs, 0, 1) is None);
    assert(!(keys_before(fs, 0) + face_keys(fs[0]).take(0)).contains((0usize, 1usize))) by {
        assert(keys_before(fs, 0) + face_keys(fs[0]).take(0) =~= Seq::<(usize, usize)>::empty());
    }
    assert(corner_key(fs[0], 0) == (0usize, 1usize));
    assert(corner_problem(3, fs, 0, 0) is None);
    assert(corner_problem_from(3, fs, 0, 0) is None);
    assert(face_problem(3, fs, 0) is None);
    assert(problem_from(3, fs, 0) is None);
}

/// The quad breaks no rule over its 4 vertices.
proof fn lemma_quad_no_problem<L>()
    ensures
        input_problem(4, shape_polygons::<L>(quad_corners())) is None,
{
    let fs = shape_polygons::<L>(quad_corners());
    assert(keys_before(fs, 0) =~= Seq::<(usize, usize)>::empty());
    assert(fs[0].corners =~= seq![0usize, 1usize, 2usize, 3usize]);
    assert(face_keys(fs[0]) =~= seq![(0usize, 1usize), (1usize, 2usize), (2usize, 3usize), (3usize, 0usize)]);
    lemma_keys_before_step(fs, 0);
    assert(keys_before(fs, 1) =~= seq![(0usize, 1usize), (1usize, 2usize), (2usize, 3usize), (3usize, 0usize)]);
    assert(problem_from(4, fs, 1) is None);
    assert(corner_problem_from(4, fs, 0, 4) is None);
    assert(!(keys_before(fs, 0) + face_keys(fs[0]).take(3)).contains((3usize, 0usize))) by {
        assert(keys_before(fs, 0) + face_keys(fs[0]).take(3) =~= seq![(0usize, 1usize), (1usize, 2usize), (2usize, 3usize)]);
    }
    assert(corner_key(fs[0], 3) == (3usize, 0usize));
    assert(corner_problem(4, fs, 0, 3) is None);
    assert(corner_problem_from(4, fs, 0, 3) is None);
    assert(!(keys_before(fs, 0) + face_keys(fs[0]).take(2)).contains((2usize, 3usize))) by {
        assert(keys_before(fs, 0) + face_keys(fs[0]).take(2) =~= seq![(0usize, 1usize), (1usize, 2usize)]);
    }
    assert(corner_key(fs[0], 2) == (2usize, 3usize));
    assert(corner_problem(4, fs, 0, 2) is None);
    assert(corner_problem_from(4, fs, 0, 2) is None);
    assert(!(keys_before(fs, 0) + face_keys(fs[0]).take(1)).contains((1usize, 2usize))) by {
        assert(keys_before(fs, 0) + face_keys(fs[0]).take(1) =~= seq![(0usize, 1usize)]);
    }
    assert(corner_key(fs[0], 1) == (1usize, 2usize));
    assert(corner_problem(4, fs, 0, 1) is None);
    assert(corner_problem_from(4, fs, 0, 1) is None);
    assert(!(keys_before(fs, 0) + face_keys(fs[0]).take(0)).contains((0usize, 1usize))) by {
        assert(keys_before(fs, 0) + face_keys(fs[0]).take(0) =~= Seq::<(usize, usize)>::empty());
    }
    assert(corner_key(fs[0], 0) == (0usize, 1usize));
    assert(corner_problem(4, fs, 0, 0) is None);
    assert(corner_problem_from(4, fs, 0, 0) is None);
    assert(face_problem(4, fs, 0) is None);
    assert(problem_from(4, fs, 0) is None);
}

/// The tetrahedron breaks no rule over its 4 vertices.
proof fn lemma_tetrahedron_no_problem<L>()
    ensures
        input_problem(4, shape_polygons::<L>(tetrahedron_corners())) is None,
{
    let fs = shape_polygons::<L>(tetrahedron_corners());
    assert(keys_before(fs, 0) =~= Seq::<(usize, usize)>::empty());
    assert(fs[0].corners =~= seq![0usize, 2usize, 1usize]);
    assert(face_keys(fs[0]) =~= seq![(0usize, 2usize), (2usize, 1usize), (1usize, 0usize)]);
    lemma_keys_before_step(fs, 0);
    assert(keys_before(fs, 1) =~= seq![(0usize, 2usize), (2usize, 1usize), (1usize, 0usize)]);
    assert(fs[1].corners =~= seq![0usize, 1usize, 3usize]);
    assert(face_keys(fs[1]) =~= seq![(0usize, 1usize), (1usize, 3usize), (3usize, 0usize)]);
    lemma_keys_before_step(fs, 1);
    assert(keys_before(fs, 2) =~= seq![(0usize, 2usize), (2usize, 1usize), (1usize, 0usize), (0usize, 1usize), (1usize, 3usize), (3usize, 0usize)]);
    assert(fs[2].corners =~= seq![0usize, 3usize, 2usize]);
    assert(face_keys(fs[2]) =~= seq![(0usize, 3usize), (3usize, 2usize), (2usize, 0usize)]);
    lemma_keys_before_step(fs, 2);
    assert(keys_before(fs, 3) =~= seq![(0usize, 2usize), (2usize, 1usize), (1usize, 0usize), (0usize, 1usize), (1usize, 3usize), (3usize, 0usize), (0usize, 3usize), (3usize, 2usize), (2usize, 0usize)]);
    assert(fs[3].corners =~= seq![1usize, 2usize, 3usize]);
    assert(face_keys(fs[3]) =~= seq![(1usize, 2usize), (2usize, 3usize), (3usize, 1usize)]);
    lemma_keys_before_step(fs, 3);
    assert(keys_before(fs, 4) =~= seq![(0usize, 2usize), (2usize, 1usize), (1usize, 0usize), (0usize, 1usize), (1usize, 3usize), (3usize, 0usize), (0usize, 3usize), (3usize, 2usize), (2usize, 0usize), (1usize, 2usize), (2usize, 3usize), (3usize, 1usize)]);
    assert(problem_from(4, fs, 4) is None);
    assert(corner_problem_from(4, fs, 3, 3) is None);
    assert(!(keys_before(fs, 3) + face_keys(fs[3]).take(2)).contains((3usize, 1usize))) by {
        assert(keys_before(fs, 3) + face_keys(fs[3]).take(2) =~= seq![(0usize, 2usize), (2usize, 1usize), (1usize, 0usize), (0usize, 1usize), (1usize, 3usize), (3usize, 0usize), (0usize, 3usize), (3usize, 2usize), (2usize, 0usize), (1usize, 2usize), (2usize, 3usize)]);
    }
    assert(corner_key(fs[3], 2) == (3usize, 1usize));
    assert(corner_problem(4, fs, 3, 2) is None);
    assert(corner_problem_from(4, fs, 3, 2) is None);
    assert(!(keys_before(fs, 3) + face_keys(fs[3]).take(1)).contains((2usize, 3usize))) by {
        assert(keys_before(fs, 3) + face_keys(fs[3]).take(1) =~= seq![(0usize, 2usize), (2usize, 1usize), (1usize, 0usize), (0usize, 1usize), (1usize, 3usize), (3usize, 0usize), (0usize, 3usize), (3usize, 2usize), (2usize, 0usize), (1usize, 2usize)]);
    }
    assert(corner_key(fs[3], 1) == (2usize, 3usize));
    assert(corner_problem(4, fs, 3, 1) is None);
    assert(corner_problem_from(4, fs, 3, 1) is None);
    assert(!(keys_before(fs, 3) + face_keys(fs[3]).take(0)).contains((1usize, 2usize))) by {
        assert(keys_before(fs, 3) + face_keys(fs[3]).take(0) =~= seq![(0usize, 2usize), (2usize, 1usize), (1usize, 0usize), (0usize, 1usize), (1usize, 3usize), (3usize, 0usize), (0usize, 3usize), (3usize, 2usize), (2usize, 0usize)]);
    }
    assert(corner_key(fs[3], 0) == (1usize, 2usize));
    assert(corner_problem(4, fs, 3, 0) is None);
    assert(corner_problem_from(4, fs, 3, 0) is None);
    assert(face_problem(4, fs, 3) is None);
    assert(problem_from(4, fs, 3) is None);
    assert(corner_problem_from(4, fs, 2, 3) is None);
    assert(!(keys_before(fs, 2) + face_keys(fs[2]).take(2)).contains((2usize, 0usize))) by {
        assert(keys_before(fs, 2) + face_keys(fs[2]).take(2) =~= seq![(0usize, 2usize), (2usize, 1usize), (1usize, 0usize), (0usize, 1usize), (1usize, 3usize), (3usize, 0usize), (0usize, 3usize), (3usize, 2usize)]);
    }
    assert(corner_key(fs[2], 2) == (2usize, 0usize));
    assert(corner_problem(4, fs, 2, 2) is None);
    assert(corner_problem_from(4, fs, 2, 2) is None);
    assert(!(keys_before(fs, 2) + face_keys(fs[2]).take(1)).contains((3usize, 2usize))) by {
        assert(keys_before(fs, 2) + face_keys(fs[2]).take(1) =~= seq![(0usize, 2usize), (2usize, 1usize), (1usize, 0usize), (0usize, 1usize), (1usize, 3usize), (3usize, 0usize), (0usize, 3usize)]);
    }
    assert(corner_key(fs[2], 1) == (3usize, 2usize));
    assert(corner_problem(4, fs, 2, 1) is None);
    assert(corner_problem_from(4, fs, 2, 1) is None);
    assert(!(keys_before(fs, 2) + face_keys(fs[2]).take(0)).contains((0usize, 3usize))) by {
        assert(keys_before(fs, 2) + face_keys(fs[2]).take(0) =~= seq![(0usize, 2usize), (2usize, 1usize), (1usize, 0usize), (0usize, 1usize), (1usize, 3usize), (3usize, 0usize)]);
    }
    assert(corner_key(fs[2], 0) == (0usize, 3usize));
    assert(corner_problem(4, fs, 2, 0) is None);
    assert(corner_problem_from(4, fs, 2, 0) is None);
    assert(face_problem(4, fs, 2) is None);
    assert(problem_from(4, fs, 2) is None);
    assert(corner_problem_from(4, fs, 1, 3) is None);
    assert(!(keys_before(fs, 1) + face_keys(fs[1]).take(2)).contains((3usize, 0usize))) by {
        assert(keys_before(fs, 1) + face_keys(fs[1]).take(2) =~= seq![(0usize, 2usize), (2usize, 1usize), (1usize, 0usize), (0usize, 1usize), (1usize, 3usize)]);
    }
    assert(corner_key(fs[1], 2) == (3usize, 0usize));
    assert(corner_problem(4, fs, 1, 2) is None);
    assert(corner_problem_from(4, fs, 1, 2) is None);
    assert(!(keys_before(fs, 1) + face_keys(fs[1]).take(1)).contains((1usize, 3usize))) by {
        assert(keys_before(fs, 1) + face_keys(fs[1]).take(1) =~= seq![(0usize, 2usize), (2usize, 1usize), (1usize, 0usize), (0usize, 1usize)]);
    }
    assert(corner_key(fs[1], 1) == (1usize, 3usize));
    assert(corner_problem(4, fs, 1, 1) is None);
    assert(corner_problem_from(4, fs, 1, 1) is None);
    assert(!(keys_before(fs, 1) + face_keys(fs[1]).take(0)).contains((0usize, 1usize))) by {
        assert(keys_before(fs, 1) + face_keys(fs[1]).take(0) =~= seq![(0usize, 2usize), (2usize, 1usize), (1usize, 0usize)]);
    }
    assert(corner_key(fs[1], 0) == (0usize, 1usize));
    assert(corner_problem(4, fs, 1, 0) is None);
    assert(corner_problem_from(4, fs, 1, 0) is None);
    assert(face_problem(4, fs, 1) is None);
    assert(problem_from(4, fs, 1) is None);
    assert(corner_problem_from(4, fs, 0, 3) is None);
    assert(!(keys_before(fs, 0) + face_keys(fs[0]).take(2)).contains((1usize, 0usize))) by {
        assert(keys_before(fs, 0) + face_keys(fs[0]).take(2) =~= seq![(0usize, 2usize), (2usize, 1usize)]);
    }
    assert(corner_key(fs[0], 2) == (1usize, 0usize));
    assert(corner_problem(4, fs, 0, 2) is None);
    assert(corner_problem_from(4, fs, 0, 2) is None);
    assert(!(keys_before(fs, 0) + face_keys(fs[0]).take(1)).contains((2usize, 1usize))) by {
        assert(keys_before(fs, 0) + face_keys(fs[0]).take(1) =~= seq![(0usize, 2usize)]);
    }
    assert(corner_key(fs[0], 1) == (2usize, 1usize));
    assert(corner_problem(4, fs, 0, 1) is None);
    assert(corner_problem_from(4, fs, 0, 1) is None);
    assert(!(keys_before(fs, 0) + face_keys(fs[0]).take(0)).contains((0usize, 2usize))) by {
        assert(keys_before(fs, 0) + face_keys(fs[0]).take(0) =~= Seq::<(usize, usize)>::empty());
    }
    assert(corner_key(fs[0], 0) == (0usize, 2usize));
    assert(corner_problem(4, fs, 0, 0) is None);
    assert(corner_problem_from(4, fs, 0, 0) is None);
    assert(face_problem(4, fs, 0) is None);
    assert(problem_from(4, fs, 0) is None);
}

/// The directed sides of the cube's faces before each face.
proof fn lemma_cube_keys<L>()
    ensures
        keys_before(shape_polygons::<L>(cube_corners()), 0) == Seq::<(usize, usize)>::empty(),
        keys_before(shape_polygons::<L>(cube_corners()), 1) == seq![(0usize, 1usize), (1usize, 2usize), (2usize, 3usize), (3usize, 0usize)],
        keys_before(shape_polygons::<L>(cube_corners()), 2) == seq![(0usize, 1usize), (1usize, 2usize), (2usize, 3usize), (3usize, 0usize), (5usize, 4usize), (4usize, 7usize), (7usize, 6usize), (6usize, 5usize)],
        keys_before(shape_polygons::<L>(cube_corners()), 3) == seq![(0usize, 1usize), (1usize, 2usize), (2usize, 3usize), (3usize, 0usize), (5usize, 4usize), (4usize, 7usize), (7usize, 6usize), (6usize, 5usize), (4usize, 0usize), (0usize, 3usize), (3usize, 7usize), (7usize, 4usize)],
        keys_before(shape_polygons::<L>(cube_corners()), 4) == seq![(0usize, 1usize), (1usize, 2usize), (2usize, 3usize), (3usize, 0usize), (5usize, 4usize), (4usize, 7usize), (7usize, 6usize), (6usize, 5usize), (4usize, 0usize), (0usize, 3usize), (3usize, 7usize), (7usize, 4usize), (1usize, 5usize), (5usize, 6usize), (6usize, 2usize), (2usize, 1usize)],
        keys_before(shape_polygons::<L>(cube_corners()), 5) == seq![(0usize, 1usize), (1usize, 2usize), (2usize, 3usize), (3usize, 0usize), (5usize, 4usize), (4usize, 7usize), (7usize, 6usize), (6usize, 5usize), (4usize, 0usize), (0usize, 3usize), (3usize, 7usize), (7usize, 4usize), (1usize, 5usize), (5usize, 6usize), (6usize, 2usize), (2usize, 1usize), (3usize, 2usize), (2usize, 6usize), (6usize, 7usize), (7usize, 3usize)],
{
    let fs = shape_polygons::<L>(cube_corners());
    assert(keys_before(fs, 0) =~= Seq::<(usize, usize)>::empty());
    assert(fs[0].corners =~= seq![0usize, 1usize, 2usize, 3usize]);
    assert(face_keys(fs[0]) =~= seq![(0usize, 1usize), (1usize, 2usize), (2usize, 3usize), (3usize, 0usize)]);
    lemma_keys_before_step(fs, 0);
    assert(keys_before(fs, 1) =~= seq![(0usize, 1usize), (1usize, 2usize), (2usize, 3usize), (3usize, 0usize)]);
    assert(fs[1].corners =~= seq![5usize, 4usize, 7usize, 6usize]);
    assert(face_keys(fs[1]) =~= seq![(5usize, 4usize), (4usize, 7usize), (7usize, 6usize), (6usize, 5usize)]);
    lemma_keys_before_step(fs, 1);
    assert(keys_before(fs, 2) =~= seq![(0usize, 1usize), (1usize, 2usize), (2usize, 3usize), (3usize, 0usize), (5usize, 4usize), (4usize, 7usize), (7usize, 6usize), (6usize, 5usize)]);
    assert(fs[2].corners =~= seq![4usize, 0usize, 3usize, 7usize]);
    assert(face_keys(fs[2]) =~= seq![(4usize, 0usize), (0usize, 3usize), (3usize, 7usize), (7usize, 4usize)]);
    lemma_keys_before_step(fs, 2);
    assert(keys_before(fs, 3) =~= seq![(0usize, 1usize), (1usize, 2usize), (2usize, 3usize), (3usize, 0usize), (5usize, 4usize), (4usize, 7usize), (7usize, 6usize), (6usize, 5usize), (4usize, 0usize), (0usize, 3usize), (3usize, 7usize), (7usize, 4usize)]);
    assert(fs[3].corners =~= seq![1usize, 5usize, 6usize, 2usize]);
    assert(face_keys(fs[3]) =~= seq![(1usize, 5usize), (5usize, 6usize), (6usize, 2usize), (2usize, 1usize)]);
    lemma_keys_before_step(fs, 3);
    assert(keys_before(fs, 4) =~= seq![(0usize, 1usize), (1usize, 2usize), (2usize, 3usize), (3usize, 0usize), (5usize, 4usize), (4usize, 7usize), (7usize, 6usize), (6usize, 5usize), (4usize, 0usize), (0usize, 3usize), (3usize, 7usize), (7usize, 4usize), (1usize, 5usize), (5usize, 6usize), (6usize, 2usize), (2usize, 1usize)]);
    assert(fs[4].corners =~= seq![3usize, 2usize, 6usize, 7usize]);
    assert(face_keys(fs[4]) =~= seq![(3usize, 2usize), (2usize, 6usize), (6usize, 7usize), (7usize, 3usize)]);
    lemma_keys_before_step(fs, 4);
    assert(keys_before(fs, 5) =~= seq![(0usize, 1usize), (1usize, 2usize), (2usize, 3usize), (3usize, 0usize), (5usize, 4usize), (4usize, 7usize), (7usize, 6usize), (6usize, 5usize), (4usize, 0usize), (0usize, 3usize), (3usize, 7usize), (7usize, 4usize), (1usize, 5usize), (5usize, 6usize), (6usize, 2usize), (2usize, 1usize), (3usize, 2usize), (2usize, 6usize), (6usize, 7usize), (7usize, 3usize)]);
}

proof fn lemma_cube_face_0<L>()
    requires
        keys_before(shape_polygons::<L>(cube_corners()), 0) == Seq::<(usize, usize)>::empty(),
    ensures
        face_problem(8, shape_polygons::<L>(cube_corners()), 0) is None,
{
    let fs = shape_polygons::<L>(cube_corners());
    assert(fs[0].corners =~= seq![0usize, 1usize, 2usize, 3usize]);
    assert(face_keys(fs[0]) =~= seq![(0usize, 1usize), (1usize, 2usize), (2usize, 3usize), (3usize, 0usize)]);
    assert(corner_problem_from(8, fs, 0, 4) is None);
    assert(!(keys_before(fs, 0) + face_keys(fs[0]).take(3)).contains((3usize, 0usize))) by {
        assert(keys_before(fs, 0) + face_keys(fs[0]).take(3) =~= seq![(0usize, 1usize), (1usize, 2usize), (2usize, 3usize)]);
    }
    assert(corner_key(fs[0], 3) == (3usize, 0usize));
    assert(corner_problem(8, fs, 0, 3) is None);
    assert(corner_problem_from(8, fs, 0, 3) is None);
    assert(!(keys_before(fs, 0) + face_keys(fs[0]).take(2)).contains((2usize, 3usize))) by {
        assert(keys_before(fs, 0) + face_keys(fs[0]).take(2) =~= seq![(0usize, 1usize), (1usize, 2usize)]);
    }
    assert(corner_key(fs[0], 2) == (2usize, 3usize));
    assert(corner_problem(8, fs, 0, 2) is None);
    assert(corner_problem_from(8, fs, 0, 2) is None);
    assert(!(keys_before(fs, 0) + face_keys(fs[0]).take(1)).contains((1usize, 2usize))) by {
        assert(keys_before(fs, 0) + face_keys(fs[0]).take(1) =~= seq![(0usize, 1usize)]);
    }
    assert(corner_key(fs[0], 1) == (1usize, 2usize));
    assert(corner_problem(8, fs, 0, 1) is None);
    assert(corner_problem_from(8, fs, 0, 1) is None);
    assert(!(keys_before(fs, 0) + face_keys(fs[0]).take(0)).contains((0usize, 1usize))) by {
        assert(keys_before(fs, 0) + face_keys(fs[0]).take(0) =~= Seq::<(usize, usize)>::empty());
    }
    assert(corner_key(fs[0], 0) == (0usize, 1usize));
    assert(corner_problem(8, fs, 0, 0) is None);
    assert(corner_problem_from(8, fs, 0, 0) is None);
}

proof fn lemma_cube_face_1<L>()
    requires
        keys_before(shape_polygons::<L>(cube_corners()), 1) == seq![(0usize, 1usize), (1usize, 2usize), (2usize, 3usize), (3usize, 0usize)],
    ensures
        face_problem(8, shape_polygons::<L>(cube_corners()), 1) is None,
{
    let fs = shape_polygons::<L>(cube_corners());
    assert(fs[1].corners =~= seq![5usize, 4usize, 7usize, 6usize]);
    assert(face_keys(fs[1]) =~= seq![(5usize, 4usize), (4usize, 7usize), (7usize, 6usize), (6usize, 5usize)]);
    assert(corner_problem_from(8, fs, 1, 4) is None);
    assert(!(keys_before(fs, 1) + face_keys(fs[1]).take(3)).contains((6usize, 5usize))) by {
        assert(keys_before(fs, 1) + face_keys(fs[1]).take(3) =~= seq![(0usize, 1usize), (1usize, 2usize), (2usize, 3usize), (3usize, 0usize), (5usize, 4usize), (4usize, 7usize), (7usize, 6usize)]);
    }
    assert(corner_key(fs[1], 3) == (6usize, 5usize));
    assert(corner_problem(8, fs, 1, 3) is None);
    assert(corner_problem_from(8, fs, 1, 3) is None);
    assert(!(keys_before(fs, 1) + face_keys(fs[1]).take(2)).contains((7usize, 6usize))) by {
        assert(keys_before(fs, 1) + face_keys(fs[1]).take(2) =~= seq![(0usize, 1usize), (1usize, 2usize), (2usize, 3usize), (3usize, 0usize), (5usize, 4usize), (4usize, 7usize)]);
    }
    assert(corner_key(fs[1], 2) == (7usize, 6usize));
    assert(corner_problem(8, fs, 1, 2) is None);
    assert(corner_problem_from(8, fs, 1, 2) is None);
    assert(!(keys_before(fs, 1) + face_keys(fs[1]).take(1)).contains((4usize, 7usize))) by {
        assert(keys_before(fs, 1) + face_keys(fs[1]).take(1) =~= seq![(0usize, 1usize), (1usize, 2usize), (2usize, 3usize), (3usize, 0usize), (5usize, 4usize)]);
    }
    assert(corner_key(fs[1], 1) == (4usize, 7usize));
    assert(corner_problem(8, fs, 1, 1) is None);
    assert(corner_problem_from(8, fs, 1, 1) is None);
    assert(!(keys_before(fs, 1) + face_keys(fs[1]).take(0)).contains((5usize, 4usize))) by {
        assert(keys_before(fs, 1) + face_keys(fs[1]).take(0) =~= seq![(0usize, 1usize), (1usize, 2usize), (2usize, 3usize), (3usize, 0usize)]);
    }
    assert(corner_key(fs[1], 0) == (5usize, 4usize));
    assert(corner_problem(8, fs, 1, 0) is None);
    assert(corner_problem_from(8, fs, 1, 0) is None);
}

proof fn lemma_cube_face_2<L>()
    requires
        keys_before(shape_polygons::<L>(cube_corners()), 2) == seq![(0usize, 1usize), (1usize, 2usize), (2usize, 3usize), (3usize, 0usize), (5usize, 4usize), (4usize, 7usize), (7usize, 6usize), (6usize, 5usize)],
    ensures
        face_problem(8, shape_polygons::<L>(cube_corners()), 2) is None,
{
    let fs = shape_polygons::<L>(cube_corners());
    assert(fs[2].corners =~= seq![4usize, 0usize, 3usize, 7usize]);
    assert(face_keys(fs[2]) =~= seq![(4usize, 0usize), (0usize, 3usize), (3usize, 7usize), (7usize, 4usize)]);
    assert(corner_problem_from(8, fs, 2, 4) is None);
    assert(!(keys_before(fs, 2) + face_keys(fs[2]).take(3)).contains((7usize, 4usize))) by {
        assert(keys_before(fs, 2) + face_keys(fs[2]).take(3) =~= seq![(0usize, 1usize), (1usize, 2usize), (2usize, 3usize), (3usize, 0usize), (5usize, 4usize), (4usize, 7usize), (7usize, 6usize), (6usize, 5usize), (4usize, 0usize), (0usize, 3usize), (3usize, 7usize)]);
    }
    assert(corner_key(fs[2], 3) == (7usize, 4usize));
    assert(corner_problem(8, fs, 2, 3) is None);
    assert(corner_problem_from(8, fs, 2, 3) is None);
    assert(!(keys_before(fs, 2) + face_keys(fs[2]).take(2)).contains((3usize, 7usize))) by {
        assert(keys_before(fs, 2) + face_keys(fs[2]).take(2) =~= seq![(0usize, 1usize), (1usize, 2usize), (2usize, 3usize), (3usize, 0usize), (5usize, 4usize), (4usize, 7usize), (7usize, 6usize), (6usize, 5usize), (4usize, 0usize), (0usize, 3usize)]);
    }
    assert(corner_key(fs[2], 2) == (3usize, 7usize));
    assert(corner_problem(8, fs, 2, 2) is None);
    assert(corner_problem_from(8, fs, 2, 2) is None);
    assert(!(keys_before(fs, 2) + face_keys(fs[2]).take(1)).contains((0usize, 3usize))) by {
        assert(keys_before(fs, 2) + face_keys(fs[2]).take(1) =~= seq![(0usize, 1usize), (1usize, 2usize), (2usize, 3usize), (3usize, 0usize), (5usize, 4usize), (4usize, 7usize), (7usize, 6usize), (6usize, 5usize), (4usize, 0usize)]);
    }
    assert(corner_key(fs[2], 1) == (0usize, 3usize));
    assert(corner_problem(8, fs, 2, 1) is None);
    assert(corner_problem_from(8, fs, 2, 1) is None);
    assert(!(keys_before(fs, 2) + face_keys(fs[2]).take(0)).contains((4usize, 0usize))) by {
        assert(keys_before(fs, 2) + face_keys(fs[2]).take(0) =~= seq![(0usize, 1usize), (1usize, 2usize), (2usize, 3usize), (3usize, 0usize), (5usize, 4usize), (4usize, 7usize), (7usize, 6usize), (6usize, 5usize)]);
    }
    assert(corner_key(fs[2], 0) == (4usize, 0usize));
    assert(corner_problem(8, fs, 2, 0) is None);
    assert(corner_problem_from(8, fs, 2, 0) is None);
}

proof fn lemma_cube_face_3<L>()
    requires
        keys_before(shape_polygons::<L>(cube_corners()), 3) == seq![(0usize, 1usize), (1usize, 2usize), (2usize, 3usize), (3usize, 0usize), (5usize, 4usize), (4usize, 7usize), (7usize, 6usize), (6usize, 5usize), (4usize, 0usize), (0usize, 3usize), (3usize, 7usize), (7usize, 4usize)],
    ensures
        face_problem(8, shape_polygons::<L>(cube_corners()), 3) is None,
{
    let fs = shape_polygons::<L>(cube_corners());
    assert(fs[3].corners =~= seq![1usize, 5usize, 6usize, 2usize]);
    assert(face_keys(fs[3]) =~= seq![(1usize, 5usize), (5usize, 6usize), (6usize, 2usize), (2usize, 1usize)]);
    assert(corner_problem_from(8, fs, 3, 4) is None);
    assert(!(keys_before(fs, 3) + face_keys(fs[3]).take(3)).contains((2usize, 1usize))) by {
        assert(keys_before(fs, 3) + face_keys(fs[3]).take(3) =~= seq![(0usize, 1usize), (1usize, 2usize), (2usize, 3usize), (3usize, 0usize), (5usize, 4usize), (4usize, 7usize), (7usize, 6usize), (6usize, 5usize), (4usize, 0usize), (0usize, 3usize), (3usize, 7usize), (7usize, 4usize), (1usize, 5usize), (5usize, 6usize), (6usize, 2usize)]);
    }
    assert(corner_key(fs[3], 3) == (2usize, 1usize));
    assert(corner_problem(8, fs, 3, 3) is None);
    assert(corner_problem_from(8, fs, 3, 3) is None);
    assert(!(keys_before(fs, 3) + face_keys(fs[3]).take(2)).contains((6usize, 2usize))) by {
        assert(keys_before(fs, 3) + face_keys(fs[3]).take(2) =~= seq![(0usize, 1usize), (1usize, 2usize), (2usize, 3usize), (3usize, 0usize), (5usize, 4usize), (4usize, 7usize), (7usize, 6usize), (6usize, 5usize), (4usize, 0usize), (0usize, 3usize), (3usize, 7usize), (7usize, 4usize), (1usize, 5usize), (5usize, 6usize)]);
    }
    assert(corner_key(fs[3], 2) == (6usize, 2usize));
    assert(corner_problem(8, fs, 3, 2) is None);
    assert(corner_problem_from(8, fs, 3, 2) is None);
    assert(!(keys_before(fs, 3) + face_keys(fs[3]).take(1)).contains((5usize, 6usize))) by {
        assert(keys_before(fs, 3) + face_keys(fs[3]).take(1) =~= seq![(0usize, 1usize), (1usize, 2usize), (2usize, 3usize), (3usize, 0usize), (5usize, 4usize), (4usize, 7usize), (7usize, 6usize), (6usize, 5usize), (4usize, 0usize), (0usize, 3usize), (3usize, 7usize), (7usize, 4usize), (1usize, 5usize)]);
    }
    assert(corner_key(fs[3], 1) == (5usize, 6usize));
    assert(corner_problem(8, fs, 3, 1) is None);
    assert(corner_problem_from(8, fs, 3, 1) is None);
    assert(!(keys_before(fs, 3) + face_keys(fs[3]).take(0)).contains((1usize, 5usize))) by {
        assert(keys_before(fs, 3) + face_keys(fs[3]).take(0) =~= seq![(0usize, 1usize), (1usize, 2usize), (2usize, 3usize), (3usize, 0usize), (5usize, 4usize), (4usize, 7usize), (7usize, 6usize), (6usize, 5usize), (4usize, 0usize), (0usize, 3usize), (3usize, 7usize), (7usize, 4usize)]);
    }
    assert(corner_key(fs[3], 0) == (1usize, 5usize));
    assert(corner_problem(8, fs, 3, 0) is None);
    assert(corner_problem_from(8, fs, 3, 0) is None);
}

proof fn lemma_cube_face_4<L>()
    requires
        keys_before(shape_polygons::<L>(cube_corners()), 4) == seq![(0usize, 1usize), (1usize, 2usize), (2usize, 3usize), (3usize, 0usize), (5usize, 4usize), (4usize, 7usize), (7usize, 6usize), (6usize, 5usize), (4usize, 0usize), (0usize, 3usize), (3usize, 7usize), (7usize, 4usize), (1usize, 5usize), (5usize, 6usize), (6usize, 2usize), (2usize, 1usize)],
    ensures
        face_problem(8, shape_polygons::<L>(cube_corners()), 4) is None,
{
    let fs = shape_polygons::<L>(cube_corners());
    assert(fs[4].corners =~= seq![3usize, 2usize, 6usize, 7usize]);
    assert(face_keys(fs[4]) =~= seq![(3usize, 2usize), (2usize, 6usize), (6usize, 7usize), (7usize, 3usize)]);
    assert(corner_problem_from(8, fs, 4, 4) is None);
    assert(!(keys_before(fs, 4) + face_keys(fs[4]).take(3)).contains((7usize, 3usize))) by {
        assert(keys_before(fs, 4) + face_keys(fs[4]).take(3) =~= seq![(0usize, 1usize), (1usize, 2usize), (2usize, 3usize), (3usize, 0usize), (5usize, 4usize), (4usize, 7usize), (7usize, 6usize), (6usize, 5usize), (4usize, 0usize), (0usize, 3usize), (3usize, 7usize), (7usize, 4usize), (1usize, 5usize), (5usize, 6usize), (6usize, 2usize), (2usize, 1usize), (3usize, 2usize), (2usize, 6usize), (6usize, 7usize)]);
    }
    assert(corner_key(fs[4], 3) == (7usize, 3usize));
    assert(corner_problem(8, fs, 4, 3) is None);
    assert(corner_problem_from(8, fs, 4, 3) is None);
    assert(!(keys_before(fs, 4) + face_keys(fs[4]).take(2)).contains((6usize, 7usize))) by {
        assert(keys_before(fs, 4) + face_keys(fs[4]).take(2) =~= seq![(0usize, 1usize), (1usize, 2usize), (2usize, 3usize), (3usize, 0usize), (5usize, 4usize), (4usize, 7usize), (7usize, 6usize), (6usize, 5usize), (4usize, 0usize), (0usize, 3usize), (3usize, 7usize), (7usize, 4usize), (1usize, 5usize), (5usize, 6usize), (6usize, 2usize), (2usize, 1usize), (3usize, 2usize), (2usize, 6usize)]);
    }
    assert(corner_key(fs[4], 2) == (6usize, 7usize));
    assert(corner_problem(8, fs, 4, 2) is None);
    assert(corner_problem_from(8, fs, 4, 2) is None);
    assert(!(keys_before(fs, 4) + face_keys(fs[4]).take(1)).contains((2usize, 6usize))) by {
        assert(keys_before(fs, 4) + face_keys(fs[4]).take(1) =~= seq![(0usize, 1usize), (1usize, 2usize), (2usize, 3usize), (3usize, 0usize), (5usize, 4usize), (4usize, 7usize), (7usize, 6usize), (6usize, 5usize), (4usize, 0usize), (0usize, 3usize), (3usize, 7usize), (7usize, 4usize), (1usize, 5usize), (5usize, 6usize), (6usize, 2usize), (2usize, 1usize), (3usize, 2usize)]);
    }
    assert(corner_key(fs[4], 1) == (2usize, 6usize));
    assert(corner_problem(8, fs, 4, 1) is None);
    assert(corner_problem_from(8, fs, 4, 1) is None);
    assert(!(keys_before(fs, 4) + face_keys(fs[4]).take(0)).contains((3usize, 2usize))) by {
        assert(keys_before(fs, 4) + face_keys(fs[4]).take(0) =~= seq![(0usize, 1usize), (1usize, 2usize), (2usize, 3usize), (3usize, 0usize), (5usize, 4usize), (4usize, 7usize), (7usize, 6usize), (6usize, 5usize), (4usize, 0usize), (0usize, 3usize), (3usize, 7usize), (7usize, 4usize), (1usize, 5usize), (5usize, 6usize), (6usize, 2usize), (2usize, 1usize)]);
    }
    assert(corner_key(fs[4], 0) == (3usize, 2usize));
    assert(corner_problem(8, fs, 4, 0) is None);
    assert(corner_problem_from(8, fs, 4, 0) is None);
}

proof fn lemma_cube_face_5<L>()
    requires
        keys_before(shape_polygons::<L>(cube_corners()), 5) == seq![(0usize, 1usize), (1usize, 2usize), (2usize, 3usize), (3usize, 0usize), (5usize, 4usize), (4usize, 7usize), (7usize, 6usize), (6usize, 5usize), (4usize, 0usize), (0usize, 3usize), (3usize, 7usize), (7usize, 4usize), (1usize, 5usize), (5usize, 6usize), (6usize, 2usize), (2usize, 1usize), (3usize, 2usize), (2usize, 6usize), (6usize, 7usize), (7usize, 3usize)],
    ensures
        face_problem(8, shape_polygons::<L>(cube_corners()), 5) is None,
{
    let fs = shape_polygons::<L>(cube_corners());
    assert(fs[5].corners =~= seq![4usize, 5usize, 1usize, 0usize]);
    assert(face_keys(fs[5]) =~= seq![(4usize, 5usize), (5usize, 1usize), (1usize, 0usize), (0usize, 4usize)]);
    assert(corner_problem_from(8, fs, 5, 4) is None);
    assert(!(keys_before(fs, 5) + face_keys(fs[5]).take(3)).contains((0usize, 4usize))) by {
        assert(keys_before(fs, 5) + face_keys(fs[5]).take(3) =~= seq![(0usize, 1usize), (1usize, 2usize), (2usize, 3usize), (3usize, 0usize), (5usize, 4usize), (4usize, 7usize), (7usize, 6usize), (6usize, 5usize), (4usize, 0usize), (0usize, 3usize), (3usize, 7usize), (7usize, 4usize), (1usize, 5usize), (5usize, 6usize), (6usize, 2usize), (2usize, 1usize), (3usize, 2usize), (2usize, 6usize), (6usize, 7usize), (7usize, 3usize), (4usize, 5usize), (5usize, 1usize), (1usize, 0usize)]);
    }
    assert(corner_key(fs[5], 3) == (0usize, 4usize));
    assert(corner_problem(8, fs, 5, 3) is None);
    assert(corner_problem_from(8, fs, 5, 3) is None);
    assert(!(keys_before(fs, 5) + face_keys(fs[5]).take(2)).contains((1usize, 0usize))) by {
        assert(keys_before(fs, 5) + face_keys(fs[5]).take(2) =~= seq![(0usize, 1usize), (1usize, 2usize), (2usize, 3usize), (3usize, 0usize), (5usize, 4usize), (4usize, 7usize), (7usize, 6usize), (6usize, 5usize), (4usize, 0usize), (0usize, 3usize), (3usize, 7usize), (7usize, 4usize), (1usize, 5usize), (5usize, 6usize), (6usize, 2usize), (2usize, 1usize), (3usize, 2usize), (2usize, 6usize), (6usize, 7usize), (7usize, 3usize), (4usize, 5usize), (5usize, 1usize)]);
    }
    assert(corner_key(fs[5], 2) == (1usize, 0usize));
    assert(corner_problem(8, fs, 5, 2) is None);
    assert(corner_problem_from(8, fs, 5, 2) is None);
    assert(!(keys_before(fs, 5) + face_keys(fs[5]).take(1)).contains((5usize, 1usize))) by {
        assert(keys_before(fs, 5) + face_keys(fs[5]).take(1) =~= seq![(0usize, 1usize), (1usize, 2usize), (2usize, 3usize), (3usize, 0usize), (5usize, 4usize), (4usize, 7usize), (7usize, 6usize), (6usize, 5usize), (4usize, 0usize), (0usize, 3usize), (3usize, 7usize), (7usize, 4usize), (1usize, 5usize), (5usize, 6usize), (6usize, 2usize), (2usize, 1usize), (3usize, 2usize), (2usize, 6usize), (6usize, 7usize), (7usize, 3usize), (4usize, 5usize)]);
    }
    assert(corner_key(fs[5], 1) == (5usize, 1usize));
    assert(corner_problem(8, fs, 5, 1) is None);
    assert(corner_problem_from(8, fs, 5, 1) is None);
    assert(!(keys_before(fs, 5) + face_keys(fs[5]).take(0)).contains((4usize, 5usize))) by {
        assert(keys_before(fs, 5) + face_keys(fs[5]).take(0) =~= seq![(0usize, 1usize), (1usize, 2usize), (2usize, 3usize), (3usize, 0usize), (5usize, 4usize), (4usize, 7usize), (7usize, 6usize), (6usize, 5usize), (4usize, 0usize), (0usize, 3usize), (3usize, 7usize), (7usize, 4usize), (1usize, 5usize), (5usize, 6usize), (6usize, 2usize), (2usize, 1usize), (3usize, 2usize), (2usize, 6usize), (6usize, 7usize), (7usize, 3usize)]);
    }
    assert(corner_key(fs[5], 0) == (4usize, 5usize));
    assert(corner_problem(8, fs, 5, 0) is None);
    assert(corner_problem_from(8, fs, 5, 0) is None);
}

/// The cube breaks no rule over its 8 vertices.
proof fn lemma_cube_no_problem<L>()
    ensures
        input_problem(8, shape_polygons::<L>(cube_corners())) is None,
{
    let fs = shape_polygons::<L>(cube_corners());
    lemma_cube_keys::<L>();
    lemma_cube_face_0::<L>();
    lemma_cube_face_1::<L>();
    lemma_cube_face_2::<L>();
    lemma_cube_face_3::<L>();
    lemma_cube_face_4::<L>();
    lemma_cube_face_5::<L>();
    assert(problem_from(8, fs, 6) is None);
    assert(problem_from(8, fs, 5) is None);
    assert(problem_from(8, fs, 4) is None);
    assert(problem_from(8, fs, 3) is None);
    assert(problem_from(8, fs, 2) is None);
    assert(problem_from(8, fs, 1) is None);
    assert(problem_from(8, fs, 0) is None);
}

pub open spec fn cube_corners() -> Seq<Seq<usize>> {
    seq![
        seq![0usize, 1, 2, 3],
        seq![5usize, 4, 7, 6],
        seq![4usize, 0, 3, 7],
        seq![1usize, 5, 6, 2],
        seq![3usize, 2, 6, 7],
        seq![4usize, 5, 1, 0],
    ]
}

pub open spec fn triangle_corners() -> Seq<Seq<usize>> {
    seq![seq![0usize, 1, 2]]
}

pub open spec fn quad_corners() -> Seq<Seq<usize>> {
    seq![seq![0usize, 1, 2, 3]]
}

pub open spec fn tetrahedron_corners() -> Seq<Seq<usize>> {
    seq![seq![0usize, 2, 1], seq![0usize, 1, 3], seq![0usize, 3, 2], seq![1usize, 2, 3]]
}

proof fn lemma_matches_has_faces<V, L>(m: HalfEdgeMesh<V, L>, vertices: Seq<V>, faces: Seq<PolygonFace<L>>)
    requires
        mesh_matches(m, vertices, views(faces)),
    ensures
        has_faces(m, corner_lists(faces)),
{
    assert forall|i: int| 0 <= i < corner_lists(faces).len() implies {
        &&& (#[trigger] m.topology().face_loop(i)).len() == corner_lists(faces)[i].len()
        &&& forall|c: int|
            0 <= c < corner_lists(faces)[i].len() ==> (#[trigger] m.topology().links[m.topology().face_loop(i)[c].idx()]).origin.idx()
                == corner_lists(faces)[i][c]
    } by {
        assert(polygon_matches(m.polygon(i), views(faces)[i]));
        assert forall|c: int| 0 <= c < corner_lists(faces)[i].len() implies (#[trigger] m.topology().links[m.topology().face_loop(i)[c].idx()]).origin.idx()
                == corner_lists(faces)[i][c] by {
            assert(m.polygon(i).corners[c] == faces[i].vertices@[c]);
        }
    }
}

impl<V: Copy, L: Copy + Default> HalfEdgeMesh<V, L> {
    /// The six quads of a cube over eight vertex payloads (in the order
    /// left-bottom-front, right-bottom-front, right-top-front, left-top-front, then the
    /// same four at the back).
    pub fn unit_cube_with(vertices: Vec<V>) -> (r: Result<Self, MeshError>)
        ensures
            r is Ok ==> r->Ok_0.vertex_data_view() == vertices@ && has_faces(r->Ok_0, cube_corners()),
            r is Ok ==> r->Ok_0.canonical(),
            vertices@.len() == 8 ==> r is Ok && r->Ok_0.nh() == 24 && r->Ok_0.ne() == 12 && r->Ok_0.nf() == 6,
            vertices@.len() == 8 ==> builds_manifold(8, shape_polygons::<L>(cube_corners())),
    {
        let faces = vec![
            PolygonFace::new(vec![0, 1, 2, 3]),
            PolygonFace::new(vec![5, 4, 7, 6]),
            PolygonFace::new(vec![4, 0, 3, 7]),
            PolygonFace::new(vec![1, 5, 6, 2]),
            PolygonFace::new(vec![3, 2, 6, 7]),
            PolygonFace::new(vec![4, 5, 1, 0]),
        ];
        let ghost fs = faces@;
        proof {
            assert(corner_lists(fs) =~= cube_corners());
            lemma_shape_view(fs, cube_corners());
            lemma_small_shape_fits::<L>(cube_corners(), 8);
            lemma_cube_no_problem::<L>();
            lemma_cube_builds::<L>();
        }
        let r = Self::from_polygon_faces(vertices, faces);
        proof {
            if r is Ok {
                lemma_matches_has_faces(r->Ok_0, r->Ok_0.vertex_data_view(), fs);
            }
        }
        r
    }

    /// One triangle over three vertex payloads.
    pub fn unit_triangle_with(vertices: Vec<V>) -> (r: Result<Self, MeshError>)
        ensures
            r is Ok ==> r->Ok_0.vertex_data_view() == vertices@ && has_faces(r->Ok_0, triangle_corners()),
            r is Ok ==> r->Ok_0.canonical(),
            vertices@.len() == 3 ==> r is Ok && r->Ok_0.nh() == 6 && r->Ok_0.ne() == 3 && r->Ok_0.nf() == 2,
            vertices@.len() == 3 ==> builds_manifold(3, shape_polygons::<L>(triangle_corners())),
    {
        let faces = vec![PolygonFace::new(vec![0, 1, 2])];
        let ghost fs = faces@;
        proof {
            assert(corner_lists(fs) =~= triangle_corners());
            lemma_shape_view(fs, triangle_corners());
            lemma_small_shape_fits::<L>(triangle_corners(), 3);
            lemma_triangle_no_problem::<L>();
            lemma_triangle_builds::<L>();
        }
        let r = Self::from_polygon_faces(vertices, faces);
        proof {
            if r is Ok {
                lemma_matches_has_faces(r->Ok_0, r->Ok_0.vertex_data_view(), fs);
            }
        }
        r
    }

    /// One quad over four vertex payloads.
    pub fn unit_quad_with(vertices: Vec<V>) -> (r: Result<Self, MeshError>)
        ensures
            r is Ok ==> r->Ok_0.vertex_data_view() == vertices@ && has_faces(r->Ok_0, quad_corners()),
            r is Ok ==> r->Ok_0.canonical(),
            vertices@.len() == 4 ==> r is Ok && r->Ok_0.nh() == 8 && r->Ok_0.ne() == 4 && r->Ok_0.nf() == 2,
            vertices@.len() == 4 ==> builds_manifold(4, shape_polygons::<L>(quad_corners())),
    {
        let faces = vec![PolygonFace::new(vec![0, 1, 2, 3])];
        let ghost fs = faces@;
        proof {
            assert(corner_lists(fs) =~= quad_corners());
            lemma_shape_view(fs, quad_corners());
            lemma_small_shape_fits::<L>(quad_corners(), 4);
            lemma_quad_no_problem::<L>();
            lemma_quad_builds::<L>();
        }
        let r = Self::from_polygon_faces(vertices, faces);
        proof {
            if r is Ok {
                lemma_matches_has_faces(r->Ok_0, r->Ok_0.vertex_data_view(), fs);
            }
        }
        r
    }

    /// The four triangles of a tetrahedron over four vertex payloads.
    pub fn unit_tetrahedron_with(vertices: Vec<V>) -> (r: Result<Self, MeshError>)
        ensures
            r is Ok ==> r->Ok_0.vertex_data_view() == vertices@ && has_faces(r->Ok_0, tetrahedron_corners()),
            r is Ok ==> r->Ok_0.canonical(),
            vertices@.len() == 4 ==> r is Ok && r->Ok_0.nh() == 12 && r->Ok_0.ne() == 6 && r->Ok_0.nf() == 4,
            vertices@.len() == 4 ==> builds_manifold(4, shape_polygons::<L>(tetrahedron_corners())),
    {
        let faces = vec![
            PolygonFace::new(vec![0, 2, 1]),
            PolygonFace::new(vec![0, 1, 3]),
            PolygonFace::new(vec![0, 3, 2]),
            PolygonFace::new(vec![1, 2, 3]),
        ];
        let ghost fs = faces@;
        proof {
            assert(corner_lists(fs) =~= tetrahedron_corners());
            lemma_shape_view(fs, tetrahedron_corners());
            lemma_small_shape_fits::<L>(tetrahedron_corners(), 4);
            lemma_tetrahedron_no_problem::<L>();
            lemma_tetrahedron_builds::<L>();
        }
        let r = Self::from_polygon_faces(vertices, faces);
        proof {
            if r is Ok {
                lemma_matches_has_faces(r->Ok_0, r->Ok_0.vertex_data_view(), fs);
            }
        }
        r
    }
}

} // verus!
