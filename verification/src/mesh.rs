use crate::attributes::FacePayload;
use crate::error::MeshError;
use crate::ids::{EdgeId, FaceId, HalfEdgeId, VertexId, INVALID_INDEX};
use crate::rebuild::{lemma_empty_canonical, lemma_face_data_keeps_canonical, lemma_loops_keep_canonical, lemma_new_vertex_keeps_canonical};
use vstd::prelude::*;

verus! {

/// Whether a face is an authored polygon or a ghost face closing a boundary loop.
#[derive(Debug, Clone, Copy, PartialEq, Eq, Structural)]
pub enum FaceKind {
    Interior,
    Boundary,
}

/// Connectivity of one half-edge.
#[derive(Debug, Clone, Copy, PartialEq, Eq, Structural)]
pub struct HalfEdgeLinks {
    pub origin: VertexId,
    pub twin: HalfEdgeId,
    pub next: HalfEdgeId,
    pub prev: HalfEdgeId,
    pub face: FaceId,
    pub edge: EdgeId,
}

/// One face: a representative half-edge, its kind and its metadata.
#[derive(Debug, Clone, Copy, PartialEq, Eq, Structural)]
pub struct FaceRecord {
    pub halfedge: HalfEdgeId,
    pub kind: FaceKind,
    pub data: FacePayload,
}

/// The pure connectivity of a mesh, as mathematical sequences.
pub struct Topology {
    pub outgoing: Seq<HalfEdgeId>,
    pub links: Seq<HalfEdgeLinks>,
    pub edges: Seq<HalfEdgeId>,
    pub faces: Seq<FaceRecord>,
    pub interior: int,
}

/// One step of a face-loop walk (`next`) or of a vertex-fan walk (`twin` of `prev`).
pub open spec fn walk_step(links: Seq<HalfEdgeLinks>, h: HalfEdgeId, fan: bool) -> HalfEdgeId {
    if fan {
        links[links[h.idx()].prev.idx()].twin
    } else {
        links[h.idx()].next
    }
}

/// The half-edges visited by a guarded walk that starts at `start`, is now at `cur`,
/// may still emit `fuel` half-edges, and stops when it would come back to `start`.
pub open spec fn walk(
    links: Seq<HalfEdgeLinks>,
    start: HalfEdgeId,
    cur: HalfEdgeId,
    fuel: nat,
    fan: bool,
) -> Seq<HalfEdgeId>
    decreases fuel,
{
    if fuel == 0 {
        Seq::empty()
    } else {
        let n = walk_step(links, cur, fan);
        if n == start {
            seq![cur]
        } else {
            seq![cur] + walk(links, start, n, (fuel - 1) as nat, fan)
        }
    }
}

/// The walk guard: at most as many steps as there are half-edges (and at least one).
pub open spec fn walk_cap(links: Seq<HalfEdgeLinks>) -> nat {
    if links.len() == 0 {
        1
    } else {
        links.len()
    }
}

/// Number of half-edges in `links` whose origin is `v`.
pub open spec fn origin_count(links: Seq<HalfEdgeLinks>, v: int) -> nat
    decreases links.len(),
{
    if links.len() == 0 {
        0
    } else {
        origin_count(links.drop_last(), v) + (if links.last().origin.idx() == v {
            1nat
        } else {
            0nat
        })
    }
}

/// Every `next`, `prev` and `twin` pointer stays inside the half-edge array.
pub open spec fn links_closed(links: Seq<HalfEdgeLinks>) -> bool {
    forall|h: int|
        0 <= h < links.len() ==> {
            &&& (#[trigger] links[h]).next.idx() < links.len()
            &&& links[h].prev.idx() < links.len()
            &&& links[h].twin.idx() < links.len()
        }
}

/// The topology made of these four arrays and an interior face count.
pub open spec fn topo_of(
    outgoing: Seq<HalfEdgeId>,
    links: Seq<HalfEdgeLinks>,
    edges: Seq<HalfEdgeId>,
    faces: Seq<FaceRecord>,
    interior: int,
) -> Topology {
    Topology { outgoing, links, edges, faces, interior }
}

impl Topology {
    pub open spec fn nv(self) -> int {
        self.outgoing.len() as int
    }

    pub open spec fn nh(self) -> int {
        self.links.len() as int
    }

    pub open spec fn ne(self) -> int {
        self.edges.len() as int
    }

    pub open spec fn nf(self) -> int {
        self.faces.len() as int
    }

    /// The half-edges of face `f`, in loop order from its representative half-edge.
    pub open spec fn face_loop(self, f: int) -> Seq<HalfEdgeId> {
        let s = self.faces[f].halfedge;
        walk(self.links, s, s, walk_cap(self.links), false)
    }

    /// The outgoing half-edges of vertex `v`, in fan order from its representative.
    pub open spec fn fan(self, v: int) -> Seq<HalfEdgeId> {
        let s = self.outgoing[v];
        if s.valid() {
            walk(self.links, s, s, walk_cap(self.links), true)
        } else {
            Seq::empty()
        }
    }

    pub open spec fn vertices_ok(self) -> bool {
        forall|v: int|
            0 <= v < self.nv() && (#[trigger] self.outgoing[v]).valid() ==> {
                &&& self.outgoing[v].idx() < self.nh()
                &&& self.links[self.outgoing[v].idx()].origin.idx() == v
            }
    }

    pub open spec fn edges_ok(self) -> bool {
        forall|e: int|
            0 <= e < self.ne() ==> {
                &&& (#[trigger] self.edges[e]).idx() < self.nh()
                &&& self.links[self.edges[e].idx()].edge.idx() == e
            }
    }

    pub open spec fn faces_ok(self) -> bool {
        forall|f: int|
            0 <= f < self.nf() ==> {
                &&& (#[trigger] self.faces[f]).halfedge.idx() < self.nh()
                &&& self.links[self.faces[f].halfedge.idx()].face.idx() == f
            }
    }

    pub open spec fn link_ok(self, h: int) -> bool {
        let l = self.links[h];
        &&& l.twin.idx() < self.nh()
        &&& self.links[l.twin.idx()].twin.idx() == h
        &&& l.next.idx() < self.nh()
        &&& l.prev.idx() < self.nh()
        &&& self.links[l.next.idx()].prev.idx() == h
        &&& self.links[l.prev.idx()].next.idx() == h
        &&& l.origin.idx() < self.nv()
        &&& l.face.idx() < self.nf()
        &&& l.edge.idx() < self.ne()
    }

    pub open spec fn links_ok(self) -> bool {
        forall|h: int| 0 <= h < self.nh() ==> #[trigger] self.link_ok(h)
    }

    pub open spec fn loop_ok(self, f: int) -> bool {
        &&& self.face_loop(f).len() >= 3
        &&& forall|k: int|
            0 <= k < self.face_loop(f).len() ==> self.links[(#[trigger] self.face_loop(
                f,
            )[k]).idx()].face.idx() == f
    }

    pub open spec fn loops_ok(self) -> bool {
        forall|f: int| 0 <= f < self.nf() ==> #[trigger] self.loop_ok(f)
    }

    /// What the storage half of validation checks.
    pub open spec fn storage_ok(self) -> bool {
        &&& self.vertices_ok()
        &&& self.edges_ok()
        &&& self.faces_ok()
        &&& self.links_ok()
        &&& self.loops_ok()
    }

    pub open spec fn edge_sides_ok(self) -> bool {
        forall|e: int|
            0 <= e < self.ne() ==> #[trigger] self.links[self.edges[e].idx()].face
                != self.links[self.links[self.edges[e].idx()].twin.idx()].face
    }

    pub open spec fn fan_ok(self, v: int) -> bool {
        origin_count(self.links, v) == 0 || self.fan(v).len() == origin_count(self.links, v)
    }

    pub open spec fn fans_ok(self) -> bool {
        forall|v: int| 0 <= v < self.nv() ==> #[trigger] self.fan_ok(v)
    }

    /// What the manifold half of validation checks.
    pub open spec fn manifold_ok(self) -> bool {
        &&& self.edge_sides_ok()
        &&& self.fans_ok()
    }

    /// Exactly what `validate` accepts.
    pub open spec fn valid(self) -> bool {
        &&& self.storage_ok()
        &&& self.manifold_ok()
    }

    /// Sizes fit the 32-bit ids, and interior faces come before boundary faces.
    pub open spec fn shape_ok(self) -> bool {
        &&& 0 <= self.interior <= self.nf()
        &&& self.nv() < INVALID_INDEX
        &&& self.nh() < INVALID_INDEX
        &&& self.ne() < INVALID_INDEX
        &&& self.nf() < INVALID_INDEX
        &&& forall|f: int|
            0 <= f < self.nf() ==> (#[trigger] self.faces[f]).kind == (if f < self.interior {
                FaceKind::Interior
            } else {
                FaceKind::Boundary
            })
    }

    /// The invariant of every mesh value of this library.
    pub open spec fn wf(self) -> bool {
        &&& self.valid()
        &&& self.shape_ok()
    }
}

/// One interior face seen as a polygon: corner vertex indices, corner loop payloads and
/// face metadata, in loop order.
pub struct Polygon<L> {
    pub corners: Seq<usize>,
    pub loops: Seq<L>,
    pub data: FacePayload,
}

/// An editable half-edge mesh with vertex payloads `V` and per-corner loop payloads `L`.
///
/// Every value of this type passes [`HalfEdgeMesh::validate`]: it is built only from
/// validated polygon snapshots, and payload edits never touch the connectivity.
#[derive(Debug)]
pub struct HalfEdgeMesh<V, L> {
    pub(crate) vertex_outgoing: Vec<HalfEdgeId>,
    pub(crate) vertex_data: Vec<V>,
    pub(crate) links: Vec<HalfEdgeLinks>,
    pub(crate) loop_data: Vec<L>,
    pub(crate) edge_halfedge: Vec<HalfEdgeId>,
    pub(crate) faces: Vec<FaceRecord>,
    pub(crate) interior_face_count: usize,
}

impl<V, L> HalfEdgeMesh<V, L> {
    /// The connectivity of the mesh.
    pub open(crate) spec fn topology(&self) -> Topology {
        Topology {
            outgoing: self.vertex_outgoing@,
            links: self.links@,
            edges: self.edge_halfedge@,
            faces: self.faces@,
            interior: self.interior_face_count as int,
        }
    }

    /// The vertex payloads, indexed by vertex id.
    pub open(crate) spec fn vertex_data_view(&self) -> Seq<V> {
        self.vertex_data@
    }

    /// The loop payloads, indexed by half-edge id.
    pub open(crate) spec fn loop_data_view(&self) -> Seq<L> {
        self.loop_data@
    }

    /// Every mesh value: the payload arrays match the connectivity, the connectivity is well
    /// formed, and the mesh is the build of its own polygons.
    #[verifier::type_invariant]
    pub(crate) open spec fn inv(self) -> bool {
        &&& self.vertex_data.len() == self.vertex_outgoing.len()
        &&& self.loop_data.len() == self.links.len()
        &&& self.topology().wf()
        &&& self.canonical()
    }

    /// Interior face `i` as a polygon.
    pub open(crate) spec fn polygon(&self, i: int) -> Polygon<L> {
        let t = self.topology();
        let lp = t.face_loop(i);
        Polygon {
            corners: Seq::new(lp.len(), |c: int| t.links[lp[c].idx()].origin.0 as usize),
            loops: Seq::new(lp.len(), |c: int| self.loop_data@[lp[c].idx()]),
            data: t.faces[i].data,
        }
    }

    /// All interior faces as polygons.
    pub open(crate) spec fn polygons(&self) -> Seq<Polygon<L>> {
        Seq::new(self.interior_face_count as nat, |i: int| self.polygon(i))
    }

    pub open(crate) spec fn nv(&self) -> int {
        self.topology().nv()
    }

    pub open(crate) spec fn nh(&self) -> int {
        self.topology().nh()
    }

    pub open(crate) spec fn ne(&self) -> int {
        self.topology().ne()
    }

    pub open(crate) spec fn nf(&self) -> int {
        self.topology().nf()
    }

    pub open(crate) spec fn interior(&self) -> int {
        self.topology().interior
    }
}

/// Runs the guarded walk from `start` and collects the visited half-edges.
pub(crate) fn walk_collect(links: &Vec<HalfEdgeLinks>, start: HalfEdgeId, fan: bool) -> (out: Vec<
    HalfEdgeId,
>)
    requires
        start.idx() < links.len(),
        links_closed(links@),
    ensures
        out@ == walk(links@, start, start, walk_cap(links@), fan),
{
    let ghost ls = links@;
    let mut out: Vec<HalfEdgeId> = Vec::new();
    let mut cur = start;
    let mut fuel: usize = links.len();
    loop
        invariant_except_break
            out@ + walk(ls, start, cur, fuel as nat, fan) == walk(ls, start, start, walk_cap(ls), fan),
        invariant
            links@ == ls,
            links_closed(ls),
            1 <= fuel <= ls.len(),
            cur.idx() < ls.len(),
        ensures
            out@ == walk(ls, start, start, walk_cap(ls), fan),
        decreases fuel,
    {
        let ghost before = out@;
        out.push(cur);
        let n = if fan {
            let p = links[cur.index()].prev;
            links[p.index()].twin
        } else {
            links[cur.index()].next
        };
        if n == start || fuel == 1 {
            proof {
                assert(walk(ls, start, cur, fuel as nat, fan) == seq![cur]) by {
                    if n != start {
                        assert(walk(ls, start, n, 0, fan) == Seq::<HalfEdgeId>::empty());
                        assert(seq![cur] + Seq::<HalfEdgeId>::empty() =~= seq![cur]);
                    }
                }
                assert(out@ =~= before + walk(ls, start, cur, fuel as nat, fan));
            }
            break ;
        }
        proof {
            assert(walk(ls, start, cur, fuel as nat, fan) == seq![cur] + walk(ls, start, n, (fuel - 1) as nat, fan));
            assert(out@ + walk(ls, start, n, (fuel - 1) as nat, fan) =~= before + walk(ls, start, cur, fuel as nat, fan));
        }
        cur = n;
        fuel = fuel - 1;
    }
    out
}

/// The ids `0..n` as vertex ids.
fn id_range_vertex(lo: usize, hi: usize) -> (out: Vec<VertexId>)
    requires
        lo <= hi < INVALID_INDEX,
    ensures
        out.len() == hi - lo,
        forall|i: int| 0 <= i < out.len() ==> (#[trigger] out@[i]).idx() == lo + i,
{
    let mut out: Vec<VertexId> = Vec::new();
    let mut i = lo;
    while i < hi
        invariant
            lo <= i <= hi < INVALID_INDEX,
            out.len() == i - lo,
            forall|j: int| 0 <= j < out.len() ==> (#[trigger] out@[j]).idx() == lo + j,
        decreases hi - i,
    {
        out.push(VertexId(i as u32));
        i = i + 1;
    }
    out
}

fn id_range_halfedge(lo: usize, hi: usize) -> (out: Vec<HalfEdgeId>)
    requires
        lo <= hi < INVALID_INDEX,
    ensures
        out.len() == hi - lo,
        forall|i: int| 0 <= i < out.len() ==> (#[trigger] out@[i]).idx() == lo + i,
{
    let mut out: Vec<HalfEdgeId> = Vec::new();
    let mut i = lo;
    while i < hi
        invariant
            lo <= i <= hi < INVALID_INDEX,
            out.len() == i - lo,
            forall|j: int| 0 <= j < out.len() ==> (#[trigger] out@[j]).idx() == lo + j,
        decreases hi - i,
    {
        out.push(HalfEdgeId(i as u32));
        i = i + 1;
    }
    out
}

fn id_range_edge(lo: usize, hi: usize) -> (out: Vec<EdgeId>)
    requires
        lo <= hi < INVALID_INDEX,
    ensures
        out.len() == hi - lo,
        forall|i: int| 0 <= i < out.len() ==> (#[trigger] out@[i]).idx() == lo + i,
{
    let mut out: Vec<EdgeId> = Vec::new();
    let mut i = lo;
    while i < hi
        invariant
            lo <= i <= hi < INVALID_INDEX,
            out.len() == i - lo,
            forall|j: int| 0 <= j < out.len() ==> (#[trigger] out@[j]).idx() == lo + j,
        decreases hi - i,
    {
        out.push(EdgeId(i as u32));
        i = i + 1;
    }
    out
}

fn id_range_face(lo: usize, hi: usize) -> (out: Vec<FaceId>)
    requires
        lo <= hi < INVALID_INDEX,
    ensures
        out.len() == hi - lo,
        forall|i: int| 0 <= i < out.len() ==> (#[trigger] out@[i]).idx() == lo + i,
{
    let mut out: Vec<FaceId> = Vec::new();
    let mut i = lo;
    while i < hi
        invariant
            lo <= i <= hi < INVALID_INDEX,
            out.len() == i - lo,
            forall|j: int| 0 <= j < out.len() ==> (#[trigger] out@[j]).idx() == lo + j,
        decreases hi - i,
    {
        out.push(FaceId(i as u32));
        i = i + 1;
    }
    out
}

impl<V: Copy, L: Copy> HalfEdgeMesh<V, L> {
    /// The empty mesh.
    pub fn new() -> (m: Self)
        ensures
            m.nv() == 0,
            m.nh() == 0,
            m.ne() == 0,
            m.nf() == 0,
            m.interior() == 0,
            m.canonical(),
    {
        let vertex_outgoing: Vec<HalfEdgeId> = Vec::new();
        let vertex_data: Vec<V> = Vec::new();
        let links: Vec<HalfEdgeLinks> = Vec::new();
        let loop_data: Vec<L> = Vec::new();
        let edge_halfedge: Vec<HalfEdgeId> = Vec::new();
        let faces: Vec<FaceRecord> = Vec::new();
        let ghost empty = HalfEdgeMesh {
            vertex_outgoing,
            vertex_data,
            links,
            loop_data,
            edge_halfedge,
            faces,
            interior_face_count: 0,
        };
        proof {
            assert(empty.topology().wf());
            lemma_empty_canonical(empty);
        }
        HalfEdgeMesh { vertex_outgoing, vertex_data, links, loop_data, edge_halfedge, faces, interior_face_count: 0 }
    }

    /// True when the mesh has no vertices, half-edges or edges.
    /// An exact copy of the mesh: same connectivity, vertex payloads and loop payloads.
    pub fn duplicate(&self) -> (m: Self)
        ensures
            m.topology() == self.topology(),
            m.vertex_data_view() == self.vertex_data_view(),
            m.loop_data_view() == self.loop_data_view(),
            self.canonical() ==> m.canonical(),
    {
        proof {
            use_type_invariant(self);
        }
        let vertex_outgoing = crate::snapshot::copy_vec(&self.vertex_outgoing);
        let vertex_data = crate::snapshot::copy_vec(&self.vertex_data);
        let links = crate::snapshot::copy_vec(&self.links);
        let loop_data = crate::snapshot::copy_vec(&self.loop_data);
        let edge_halfedge = crate::snapshot::copy_vec(&self.edge_halfedge);
        let faces = crate::snapshot::copy_vec(&self.faces);
        let interior_face_count = self.interior_face_count;
        let ghost copy = HalfEdgeMesh {
            vertex_outgoing,
            vertex_data,
            links,
            loop_data,
            edge_halfedge,
            faces,
            interior_face_count,
        };
        proof {
            lemma_loops_keep_canonical(*self, copy);
        }
        HalfEdgeMesh { vertex_outgoing, vertex_data, links, loop_data, edge_halfedge, faces, interior_face_count }
    }

    pub fn is_empty(&self) -> (b: bool)
        ensures
            b == (self.nv() == 0 && self.nh() == 0 && self.ne() == 0),
    {
        self.vertex_outgoing.len() == 0 && self.links.len() == 0 && self.edge_halfedge.len() == 0
    }

    /// Appends an isolated vertex and returns its id.
    pub fn add_vertex_with_payload(&mut self, payload: V) -> (id: VertexId)
        requires
            old(self).nv() + 1 < INVALID_INDEX,
        ensures
            id.idx() == old(self).nv(),
            final(self).topology().outgoing == old(self).topology().outgoing.push(HalfEdgeId(INVALID_INDEX)),
            final(self).topology().links == old(self).topology().links,
            final(self).topology().edges == old(self).topology().edges,
            final(self).topology().faces == old(self).topology().faces,
            final(self).interior() == old(self).interior(),
            final(self).vertex_data_view() == old(self).vertex_data_view().push(payload),
            final(self).loop_data_view() == old(self).loop_data_view(),
            old(self).canonical() ==> final(self).canonical(),
    {
        proof {
            use_type_invariant(&*self);
        }
        let id = VertexId(self.vertex_outgoing.len() as u32);
        let ghost t0 = self.topology();
        let ghost t1 = topo_of(
            t0.outgoing.push(HalfEdgeId(INVALID_INDEX)),
            t0.links,
            t0.edges,
            t0.faces,
            t0.interior,
        );
        proof {
            lemma_add_isolated_vertex(t0);
        }
        let mut taken = HalfEdgeMesh::new();
        core::mem::swap(self, &mut taken);
        let HalfEdgeMesh {
            vertex_outgoing: mut outgoing,
            vertex_data: mut data,
            links,
            loop_data,
            edge_halfedge,
            faces,
            interior_face_count,
        } = taken;
        outgoing.push(HalfEdgeId(INVALID_INDEX));
        data.push(payload);
        let ghost grown = HalfEdgeMesh {
            vertex_outgoing: outgoing,
            vertex_data: data,
            links,
            loop_data,
            edge_halfedge,
            faces,
            interior_face_count,
        };
        proof {
            assert(grown.topology() == t1);
            lemma_new_vertex_keeps_canonical(*old(self), grown);
        }
        *self = HalfEdgeMesh {
            vertex_outgoing: outgoing,
            vertex_data: data,
            links,
            loop_data,
            edge_halfedge,
            faces,
            interior_face_count,
        };
        id
    }

    pub fn vertex_count(&self) -> (n: usize)
        ensures
            n == self.nv(),
    {
        self.vertex_outgoing.len()
    }

    pub fn edge_count(&self) -> (n: usize)
        ensures
            n == self.ne(),
    {
        self.edge_halfedge.len()
    }

    pub fn halfedge_count(&self) -> (n: usize)
        ensures
            n == self.nh(),
    {
        self.links.len()
    }

    /// Number of interior (authored) faces.
    pub fn face_count(&self) -> (n: usize)
        ensures
            n == self.interior(),
    {
        self.interior_face_count
    }

    /// Number of ghost faces closing boundary loops.
    pub fn boundary_face_count(&self) -> (n: usize)
        ensures
            n == self.nf() - self.interior(),
    {
        proof {
            use_type_invariant(self);
        }
        self.faces.len() - self.interior_face_count
    }

    pub fn total_face_count(&self) -> (n: usize)
        ensures
            n == self.nf(),
    {
        self.faces.len()
    }

    /// All vertex ids, in order.
    pub fn vertex_ids(&self) -> (ids: Vec<VertexId>)
        ensures
            ids.len() == self.nv(),
            forall|i: int| 0 <= i < ids.len() ==> (#[trigger] ids@[i]).idx() == i,
    {
        proof {
            use_type_invariant(self);
        }
        id_range_vertex(0, self.vertex_outgoing.len())
    }

    /// All edge ids, in order.
    pub fn edge_ids(&self) -> (ids: Vec<EdgeId>)
        ensures
            ids.len() == self.ne(),
            forall|i: int| 0 <= i < ids.len() ==> (#[trigger] ids@[i]).idx() == i,
    {
        proof {
            use_type_invariant(self);
        }
        id_range_edge(0, self.edge_halfedge.len())
    }

    /// All half-edge ids, in order.
    pub fn halfedge_ids(&self) -> (ids: Vec<HalfEdgeId>)
        ensures
            ids.len() == self.nh(),
            forall|i: int| 0 <= i < ids.len() ==> (#[trigger] ids@[i]).idx() == i,
    {
        proof {
            use_type_invariant(self);
        }
        id_range_halfedge(0, self.links.len())
    }

    /// The interior face ids, in order.
    pub fn face_ids(&self) -> (ids: Vec<FaceId>)
        ensures
            ids.len() == self.interior(),
            forall|i: int| 0 <= i < ids.len() ==> (#[trigger] ids@[i]).idx() == i,
    {
        proof {
            use_type_invariant(self);
        }
        id_range_face(0, self.interior_face_count)
    }

    /// The boundary face ids, in order; they follow the interior ones.
    pub fn boundary_face_ids(&self) -> (ids: Vec<FaceId>)
        ensures
            ids.len() == self.nf() - self.interior(),
            forall|i: int| 0 <= i < ids.len() ==> (#[trigger] ids@[i]).idx() == self.interior() + i,
    {
        proof {
            use_type_invariant(self);
        }
        id_range_face(self.interior_face_count, self.faces.len())
    }

    pub fn vertex_payload(&self, vertex: VertexId) -> (r: Result<&V, MeshError>)
        ensures
            vertex.idx() < self.nv() ==> r == Ok::<&V, MeshError>(&self.vertex_data_view()[vertex.idx()]),
            vertex.idx() >= self.nv() ==> r == Err::<&V, MeshError>(MeshError::InvalidVertex(vertex)),
    {
        proof {
            use_type_invariant(self);
        }
        if vertex.index() < self.vertex_data.len() {
            Ok(&self.vertex_data[vertex.index()])
        } else {
            Err(MeshError::InvalidVertex(vertex))
        }
    }

    /// Replaces the payload of a vertex; the connectivity is untouched.
    pub fn set_vertex_payload(&mut self, vertex: VertexId, payload: V) -> (r: Result<(), MeshError>)
        ensures
            old(self).topology() == final(self).topology(),
            final(self).loop_data_view() == old(self).loop_data_view(),
            old(self).canonical() ==> final(self).canonical(),
            vertex.idx() < old(self).nv() ==> r is Ok && final(self).vertex_data_view() == old(self).vertex_data_view().update(vertex.idx(), payload),
            vertex.idx() >= old(self).nv() ==> r == Err::<(), MeshError>(MeshError::InvalidVertex(vertex)) && final(self).vertex_data_view() == old(self).vertex_data_view(),
    {
        proof {
            use_type_invariant(&*self);
        }
        if vertex.index() < self.vertex_data.len() {
            let mut taken = HalfEdgeMesh::new();
            core::mem::swap(self, &mut taken);
            let HalfEdgeMesh {
                vertex_outgoing,
                vertex_data: mut data,
                links,
                loop_data,
                edge_halfedge,
                faces,
                interior_face_count,
            } = taken;
            data.set(vertex.index(), payload);
            let ghost updated = HalfEdgeMesh {
                vertex_outgoing,
                vertex_data: data,
                links,
                loop_data,
                edge_halfedge,
                faces,
                interior_face_count,
            };
            proof {
                lemma_loops_keep_canonical(*old(self), updated);
            }
            *self = HalfEdgeMesh {
                vertex_outgoing,
                vertex_data: data,
                links,
                loop_data,
                edge_halfedge,
                faces,
                interior_face_count,
            };
            Ok(())
        } else {
            Err(MeshError::InvalidVertex(vertex))
        }
    }

    pub fn face_payload(&self, face: FaceId) -> (r: Result<FacePayload, MeshError>)
        ensures
            face.idx() < self.nf() ==> r == Ok::<FacePayload, MeshError>(self.topology().faces[face.idx()].data),
            face.idx() >= self.nf() ==> r == Err::<FacePayload, MeshError>(MeshError::InvalidFace(face)),
    {
        if face.index() < self.faces.len() {
            Ok(self.faces[face.index()].data)
        } else {
            Err(MeshError::InvalidFace(face))
        }
    }

    /// Replaces the metadata of a face; the connectivity is untouched.
    pub fn set_face_payload(&mut self, face: FaceId, payload: FacePayload) -> (r: Result<(), MeshError>)
        ensures
            final(self).topology().outgoing == old(self).topology().outgoing,
            final(self).topology().links == old(self).topology().links,
            final(self).topology().edges == old(self).topology().edges,
            final(self).interior() == old(self).interior(),
            final(self).vertex_data_view() == old(self).vertex_data_view(),
            final(self).loop_data_view() == old(self).loop_data_view(),
            old(self).canonical() ==> final(self).canonical(),
            face.idx() < old(self).nf() ==> r is Ok && final(self).topology().faces == old(self).topology().faces.update(face.idx(), FaceRecord { data: payload, ..old(self).topology().faces[face.idx()] }),
            face.idx() >= old(self).nf() ==> r == Err::<(), MeshError>(MeshError::InvalidFace(face)) && final(self).topology() == old(self).topology(),
    {
        proof {
            use_type_invariant(&*self);
        }
        if face.index() < self.faces.len() {
            let ghost t0 = self.topology();
            let mut record = self.faces[face.index()];
            record.data = payload;
            let ghost t1 = topo_of(t0.outgoing, t0.links, t0.edges, t0.faces.update(face.idx(), record), t0.interior);
            proof {
                lemma_face_data_irrelevant(t0, t1);
            }
            let mut taken = HalfEdgeMesh::new();
            core::mem::swap(self, &mut taken);
            let HalfEdgeMesh {
                vertex_outgoing,
                vertex_data,
                links,
                loop_data,
                edge_halfedge,
                faces: mut face_records,
                interior_face_count,
            } = taken;
            face_records.set(face.index(), record);
            let ghost updated = HalfEdgeMesh {
                vertex_outgoing,
                vertex_data,
                links,
                loop_data,
                edge_halfedge,
                faces: face_records,
                interior_face_count,
            };
            proof {
                assert(updated.topology() == t1);
                lemma_face_data_keeps_canonical(*old(self), updated);
            }
            *self = HalfEdgeMesh {
                vertex_outgoing,
                vertex_data,
                links,
                loop_data,
                edge_halfedge,
                faces: face_records,
                interior_face_count,
            };
            Ok(())
        } else {
            Err(MeshError::InvalidFace(face))
        }
    }

    pub fn face_kind(&self, face: FaceId) -> (r: Result<FaceKind, MeshError>)
        ensures
            face.idx() < self.nf() ==> r == Ok::<FaceKind, MeshError>(if face.idx() < self.interior() { FaceKind::Interior } else { FaceKind::Boundary }),
            face.idx() >= self.nf() ==> r == Err::<FaceKind, MeshError>(MeshError::InvalidFace(face)),
    {
        proof {
            use_type_invariant(self);
        }
        if face.index() < self.faces.len() {
            Ok(self.faces[face.index()].kind)
        } else {
            Err(MeshError::InvalidFace(face))
        }
    }

    pub fn halfedge_loop_attributes(&self, halfedge: HalfEdgeId) -> (r: Result<&L, MeshError>)
        ensures
            halfedge.idx() < self.nh() ==> r == Ok::<&L, MeshError>(&self.loop_data_view()[halfedge.idx()]),
            halfedge.idx() >= self.nh() ==> r == Err::<&L, MeshError>(MeshError::InvalidHalfEdge(halfedge)),
    {
        proof {
            use_type_invariant(self);
        }
        if halfedge.index() < self.loop_data.len() {
            Ok(&self.loop_data[halfedge.index()])
        } else {
            Err(MeshError::InvalidHalfEdge(halfedge))
        }
    }

    /// Replaces the loop payload of one half-edge corner; the connectivity is untouched.
    pub fn set_halfedge_loop_attributes(&mut self, halfedge: HalfEdgeId, attributes: L) -> (r: Result<(), MeshError>)
        ensures
            old(self).topology() == final(self).topology(),
            final(self).vertex_data_view() == old(self).vertex_data_view(),
            old(self).canonical() ==> final(self).canonical(),
            halfedge.idx() < old(self).nh() ==> r is Ok && final(self).loop_data_view() == old(self).loop_data_view().update(halfedge.idx(), attributes),
            halfedge.idx() >= old(self).nh() ==> r == Err::<(), MeshError>(MeshError::InvalidHalfEdge(halfedge)) && final(self).loop_data_view() == old(self).loop_data_view(),
    {
        proof {
            use_type_invariant(&*self);
        }
        if halfedge.index() < self.loop_data.len() {
            let mut taken = HalfEdgeMesh::new();
            core::mem::swap(self, &mut taken);
            let HalfEdgeMesh {
                vertex_outgoing,
                vertex_data,
                links,
                loop_data: mut loops,
                edge_halfedge,
                faces,
                interior_face_count,
            } = taken;
            loops.set(halfedge.index(), attributes);
            let ghost updated = HalfEdgeMesh {
                vertex_outgoing,
                vertex_data,
                links,
                loop_data: loops,
                edge_halfedge,
                faces,
                interior_face_count,
            };
            proof {
                lemma_loops_keep_canonical(*old(self), updated);
            }
            *self = HalfEdgeMesh {
                vertex_outgoing,
                vertex_data,
                links,
                loop_data: loops,
                edge_halfedge,
                faces,
                interior_face_count,
            };
            Ok(())
        } else {
            Err(MeshError::InvalidHalfEdge(halfedge))
        }
    }

    pub fn halfedge_origin(&self, halfedge: HalfEdgeId) -> (r: Result<VertexId, MeshError>)
        ensures
            halfedge.idx() < self.nh() ==> r == Ok::<VertexId, MeshError>(self.topology().links[halfedge.idx()].origin),
            halfedge.idx() >= self.nh() ==> r == Err::<VertexId, MeshError>(MeshError::InvalidHalfEdge(halfedge)),
    {
        if halfedge.index() < self.links.len() {
            Ok(self.links[halfedge.index()].origin)
        } else {
            Err(MeshError::InvalidHalfEdge(halfedge))
        }
    }

    pub fn halfedge_twin(&self, halfedge: HalfEdgeId) -> (r: Result<HalfEdgeId, MeshError>)
        ensures
            halfedge.idx() < self.nh() ==> r == Ok::<HalfEdgeId, MeshError>(self.topology().links[halfedge.idx()].twin),
            halfedge.idx() >= self.nh() ==> r == Err::<HalfEdgeId, MeshError>(MeshError::InvalidHalfEdge(halfedge)),
            r is Ok ==> r->Ok_0.idx() < self.nh() && self.topology().links[r->Ok_0.idx()].twin == halfedge,
            r is Ok ==> r->Ok_0 != halfedge,
    {
        proof {
            use_type_invariant(self);
            crate::laws::law_no_half_edge_is_its_own_twin(*self);
            if halfedge.idx() < self.nh() {
                assert(self.topology().link_ok(halfedge.idx()));
            }
        }
        if halfedge.index() < self.links.len() {
            Ok(self.links[halfedge.index()].twin)
        } else {
            Err(MeshError::InvalidHalfEdge(halfedge))
        }
    }

    pub fn halfedge_next(&self, halfedge: HalfEdgeId) -> (r: Result<HalfEdgeId, MeshError>)
        ensures
            halfedge.idx() < self.nh() ==> r == Ok::<HalfEdgeId, MeshError>(self.topology().links[halfedge.idx()].next),
            halfedge.idx() >= self.nh() ==> r == Err::<HalfEdgeId, MeshError>(MeshError::InvalidHalfEdge(halfedge)),
            r is Ok ==> r->Ok_0.idx() < self.nh() && self.topology().links[r->Ok_0.idx()].prev == halfedge,
    {
        proof {
            use_type_invariant(self);
            if halfedge.idx() < self.nh() {
                assert(self.topology().link_ok(halfedge.idx()));
            }
        }
        if halfedge.index() < self.links.len() {
            Ok(self.links[halfedge.index()].next)
        } else {
            Err(MeshError::InvalidHalfEdge(halfedge))
        }
    }

    pub fn halfedge_prev(&self, halfedge: HalfEdgeId) -> (r: Result<HalfEdgeId, MeshError>)
        ensures
            halfedge.idx() < self.nh() ==> r == Ok::<HalfEdgeId, MeshError>(self.topology().links[halfedge.idx()].prev),
            halfedge.idx() >= self.nh() ==> r == Err::<HalfEdgeId, MeshError>(MeshError::InvalidHalfEdge(halfedge)),
            r is Ok ==> r->Ok_0.idx() < self.nh() && self.topology().links[r->Ok_0.idx()].next == halfedge,
    {
        proof {
            use_type_invariant(self);
            if halfedge.idx() < self.nh() {
                assert(self.topology().link_ok(halfedge.idx()));
            }
        }
        if halfedge.index() < self.links.len() {
            Ok(self.links[halfedge.index()].prev)
        } else {
            Err(MeshError::InvalidHalfEdge(halfedge))
        }
    }

    pub fn halfedge_face(&self, halfedge: HalfEdgeId) -> (r: Result<FaceId, MeshError>)
        ensures
            halfedge.idx() < self.nh() ==> r == Ok::<FaceId, MeshError>(self.topology().links[halfedge.idx()].face),
            halfedge.idx() >= self.nh() ==> r == Err::<FaceId, MeshError>(MeshError::InvalidHalfEdge(halfedge)),
    {
        if halfedge.index() < self.links.len() {
            Ok(self.links[halfedge.index()].face)
        } else {
            Err(MeshError::InvalidHalfEdge(halfedge))
        }
    }

    pub fn halfedge_edge(&self, halfedge: HalfEdgeId) -> (r: Result<EdgeId, MeshError>)
        ensures
            halfedge.idx() < self.nh() ==> r == Ok::<EdgeId, MeshError>(self.topology().links[halfedge.idx()].edge),
            halfedge.idx() >= self.nh() ==> r == Err::<EdgeId, MeshError>(MeshError::InvalidHalfEdge(halfedge)),
    {
        if halfedge.index() < self.links.len() {
            Ok(self.links[halfedge.index()].edge)
        } else {
            Err(MeshError::InvalidHalfEdge(halfedge))
        }
    }

    /// The vertex a half-edge points to (the origin of its twin).
    pub fn halfedge_destination(&self, halfedge: HalfEdgeId) -> (r: Result<VertexId, MeshError>)
        ensures
            halfedge.idx() < self.nh() ==> r == Ok::<VertexId, MeshError>(self.topology().links[self.topology().links[halfedge.idx()].twin.idx()].origin),
            halfedge.idx() >= self.nh() ==> r == Err::<VertexId, MeshError>(MeshError::InvalidHalfEdge(halfedge)),
    {
        proof {
            use_type_invariant(self);
            if halfedge.idx() < self.nh() {
                assert(self.topology().link_ok(halfedge.idx()));
            }
        }
        let twin = self.halfedge_twin(halfedge)?;
        self.halfedge_origin(twin)
    }

    /// The representative half-edge of an edge and its twin.
    pub fn edge_halfedges(&self, edge: EdgeId) -> (r: Result<(HalfEdgeId, HalfEdgeId), MeshError>)
        ensures
            edge.idx() < self.ne() ==> r == Ok::<(HalfEdgeId, HalfEdgeId), MeshError>((self.topology().edges[edge.idx()], self.topology().links[self.topology().edges[edge.idx()].idx()].twin)),
            edge.idx() >= self.ne() ==> r == Err::<(HalfEdgeId, HalfEdgeId), MeshError>(MeshError::InvalidEdge(edge)),
    {
        proof {
            use_type_invariant(self);
        }
        if edge.index() < self.edge_halfedge.len() {
            let h = self.edge_halfedge[edge.index()];
            Ok((h, self.links[h.index()].twin))
        } else {
            Err(MeshError::InvalidEdge(edge))
        }
    }

    /// The two end vertices of an edge: origin of its half-edge, then of the twin.
    pub fn edge_endpoints(&self, edge: EdgeId) -> (r: Result<(VertexId, VertexId), MeshError>)
        ensures
            edge.idx() < self.ne() ==> r == Ok::<(VertexId, VertexId), MeshError>(self.edge_endpoints_spec(edge.idx())),
            edge.idx() >= self.ne() ==> r == Err::<(VertexId, VertexId), MeshError>(MeshError::InvalidEdge(edge)),
    {
        proof {
            use_type_invariant(self);
        }
        if edge.index() < self.edge_halfedge.len() {
            let h = self.edge_halfedge[edge.index()];
            proof {
                assert(self.topology().link_ok(h.idx()));
            }
            let t = self.links[h.index()].twin;
            Ok((self.links[h.index()].origin, self.links[t.index()].origin))
        } else {
            Err(MeshError::InvalidEdge(edge))
        }
    }

    pub open(crate) spec fn edge_endpoints_spec(&self, e: int) -> (VertexId, VertexId) {
        let t = self.topology();
        let h = t.edges[e].idx();
        (t.links[h].origin, t.links[t.links[h].twin.idx()].origin)
    }

    pub open(crate) spec fn halfedge_on_boundary(&self, h: int) -> bool {
        self.topology().links[h].face.idx() >= self.interior()
    }

    /// True when the half-edge belongs to a boundary face.
    pub fn halfedge_is_boundary(&self, halfedge: HalfEdgeId) -> (r: Result<bool, MeshError>)
        ensures
            halfedge.idx() < self.nh() ==> r == Ok::<bool, MeshError>(self.halfedge_on_boundary(halfedge.idx())),
            halfedge.idx() >= self.nh() ==> r == Err::<bool, MeshError>(MeshError::InvalidHalfEdge(halfedge)),
    {
        proof {
            use_type_invariant(self);
        }
        if halfedge.index() < self.links.len() {
            let f = self.links[halfedge.index()].face;
            proof {
                assert(self.topology().link_ok(halfedge.idx()));
            }
            Ok(match self.faces[f.index()].kind {
                FaceKind::Boundary => true,
                FaceKind::Interior => false,
            })
        } else {
            Err(MeshError::InvalidHalfEdge(halfedge))
        }
    }

    /// True when either side of the edge is a boundary face.
    pub fn edge_is_boundary(&self, edge: EdgeId) -> (r: Result<bool, MeshError>)
        ensures
            edge.idx() < self.ne() ==> r == Ok::<bool, MeshError>(self.edge_on_boundary(edge.idx())),
            edge.idx() >= self.ne() ==> r == Err::<bool, MeshError>(MeshError::InvalidEdge(edge)),
    {
        proof {
            use_type_invariant(self);
        }
        if edge.index() < self.edge_halfedge.len() {
            let h = self.edge_halfedge[edge.index()];
            proof {
                assert(self.topology().link_ok(h.idx()));
            }
            let t = self.links[h.index()].twin;
            let a = self.halfedge_is_boundary(h)?;
            let b = self.halfedge_is_boundary(t)?;
            Ok(a || b)
        } else {
            Err(MeshError::InvalidEdge(edge))
        }
    }

    pub open(crate) spec fn edge_on_boundary(&self, e: int) -> bool {
        let t = self.topology();
        let h = t.edges[e].idx();
        self.halfedge_on_boundary(h) || self.halfedge_on_boundary(t.links[h].twin.idx())
    }

    /// The half-edges of a face (interior or boundary), in loop order.
    pub fn face_halfedges(&self, face: FaceId) -> (r: Result<Vec<HalfEdgeId>, MeshError>)
        ensures
            face.idx() < self.nf() ==> r is Ok && r->Ok_0@ == self.topology().face_loop(face.idx()),
            face.idx() >= self.nf() ==> r == Err::<Vec<HalfEdgeId>, MeshError>(MeshError::InvalidFace(face)),
    {
        proof {
            use_type_invariant(self);
            lemma_valid_links_closed(self.topology());
        }
        if face.index() < self.faces.len() {
            Ok(walk_collect(&self.links, self.faces[face.index()].halfedge, false))
        } else {
            Err(MeshError::InvalidFace(face))
        }
    }

    pub open(crate) spec fn face_vertex_seq(&self, f: int) -> Seq<VertexId> {
        self.topology().face_loop(f).map_values(|h: HalfEdgeId| self.topology().links[h.idx()].origin)
    }

    /// The vertices of a face, in loop order.
    pub fn face_vertices(&self, face: FaceId) -> (r: Result<Vec<VertexId>, MeshError>)
        ensures
            face.idx() < self.nf() ==> r is Ok && r->Ok_0@ == self.face_vertex_seq(face.idx()),
            face.idx() >= self.nf() ==> r == Err::<Vec<VertexId>, MeshError>(MeshError::InvalidFace(face)),
    {
        proof {
            use_type_invariant(self);
        }
        let hs = self.face_halfedges(face)?;
        let ghost t = self.topology();
        proof {
            lemma_valid_links_closed(t);
            lemma_face_loop_in_range(t, face.idx());
        }
        let mut out: Vec<VertexId> = Vec::new();
        let mut i: usize = 0;
        while i < hs.len()
            invariant
                t == self.topology(),
                hs@ == t.face_loop(face.idx()),
                forall|k: int| 0 <= k < hs.len() ==> (#[trigger] hs@[k]).idx() < t.nh(),
                t.nh() == self.links.len(),
                t.links == self.links@,
                i <= hs.len(),
                out@ == hs@.subrange(0, i as int).map_values(|h: HalfEdgeId| t.links[h.idx()].origin),
            decreases hs.len() - i,
        {
            out.push(self.links[hs[i].index()].origin);
            proof {
                assert(hs@.subrange(0, i + 1) =~= hs@.subrange(0, i as int).push(hs@[i as int]));
            }
            i = i + 1;
        }
        proof {
            assert(hs@.subrange(0, hs.len() as int) =~= hs@);
        }
        Ok(out)
    }

    /// Same as [`HalfEdgeMesh::face_vertices`].
    pub fn face_vertex_ids(&self, face: FaceId) -> (r: Result<Vec<VertexId>, MeshError>)
        ensures
            face.idx() < self.nf() ==> r is Ok && r->Ok_0@ == self.face_vertex_seq(face.idx()),
            face.idx() >= self.nf() ==> r == Err::<Vec<VertexId>, MeshError>(MeshError::InvalidFace(face)),
    {
        self.face_vertices(face)
    }

    /// The loop payloads of a face's corners, in loop order.
    pub fn face_loop_attributes(&self, face: FaceId) -> (r: Result<Vec<L>, MeshError>)
        ensures
            face.idx() < self.nf() ==> r is Ok && r->Ok_0@ == self.topology().face_loop(face.idx()).map_values(|h: HalfEdgeId| self.loop_data_view()[h.idx()]),
            face.idx() >= self.nf() ==> r == Err::<Vec<L>, MeshError>(MeshError::InvalidFace(face)),
    {
        proof {
            use_type_invariant(self);
        }
        let hs = self.face_halfedges(face)?;
        let ghost t = self.topology();
        proof {
            lemma_valid_links_closed(t);
            lemma_face_loop_in_range(t, face.idx());
        }
        let mut out: Vec<L> = Vec::new();
        let mut i: usize = 0;
        while i < hs.len()
            invariant
                t == self.topology(),
                hs@ == t.face_loop(face.idx()),
                forall|k: int| 0 <= k < hs.len() ==> (#[trigger] hs@[k]).idx() < t.nh(),
                t.nh() == self.loop_data.len(),
                i <= hs.len(),
                out@ == hs@.subrange(0, i as int).map_values(|h: HalfEdgeId| self.loop_data@[h.idx()]),
            decreases hs.len() - i,
        {
            out.push(self.loop_data[hs[i].index()]);
            proof {
                assert(hs@.subrange(0, i + 1) =~= hs@.subrange(0, i as int).push(hs@[i as int]));
            }
            i = i + 1;
        }
        proof {
            assert(hs@.subrange(0, hs.len() as int) =~= hs@);
        }
        Ok(out)
    }

    /// The half-edges leaving a vertex, in fan order (empty for an isolated vertex).
    pub fn vertex_outgoing_halfedges(&self, vertex: VertexId) -> (r: Result<Vec<HalfEdgeId>, MeshError>)
        ensures
            vertex.idx() < self.nv() ==> r is Ok && r->Ok_0@ == self.topology().fan(vertex.idx()),
            vertex.idx() >= self.nv() ==> r == Err::<Vec<HalfEdgeId>, MeshError>(MeshError::InvalidVertex(vertex)),
    {
        proof {
            use_type_invariant(self);
            lemma_valid_links_closed(self.topology());
        }
        if vertex.index() < self.vertex_outgoing.len() {
            let start = self.vertex_outgoing[vertex.index()];
            if start.is_valid() {
                Ok(walk_collect(&self.links, start, true))
            } else {
                Ok(Vec::new())
            }
        } else {
            Err(MeshError::InvalidVertex(vertex))
        }
    }
}

/// A valid topology keeps every walk pointer in range.
pub proof fn lemma_valid_links_closed(t: Topology)
    requires
        t.links_ok(),
    ensures
        links_closed(t.links),
{
    assert forall|x: int| 0 <= x < t.links.len() implies {
        &&& (#[trigger] t.links[x]).next.idx() < t.links.len()
        &&& t.links[x].prev.idx() < t.links.len()
        &&& t.links[x].twin.idx() < t.links.len()
    } by {
        assert(t.link_ok(x));
    }
}

/// The half-edges of a face loop are in range.
pub proof fn lemma_face_loop_in_range(t: Topology, f: int)
    requires
        t.wf(),
        0 <= f < t.nf(),
    ensures
        forall|k: int| 0 <= k < t.face_loop(f).len() ==> (#[trigger] t.face_loop(f)[k]).idx() < t.nh(),
{
    lemma_valid_links_closed(t);
    let s = t.faces[f].halfedge;
    crate::validation::lemma_walk_in_range(t.links, s, s, walk_cap(t.links), false);
}

/// A vertex that no half-edge leaves has origin count zero.
pub proof fn lemma_origin_count_absent(links: Seq<HalfEdgeLinks>, v: int)
    requires
        forall|h: int| 0 <= h < links.len() ==> (#[trigger] links[h]).origin.idx() != v,
    ensures
        origin_count(links, v) == 0,
    decreases links.len(),
{
    if links.len() > 0 {
        let d = links.drop_last();
        assert forall|h: int| 0 <= h < d.len() implies (#[trigger] d[h]).origin.idx() != v by {
            assert(d[h] == links[h]);
        }
        lemma_origin_count_absent(d, v);
    }
}

/// Appending an isolated vertex keeps a topology well formed.
pub proof fn lemma_add_isolated_vertex(t: Topology)
    requires
        t.wf(),
        t.nv() + 1 < INVALID_INDEX,
    ensures
        topo_of(t.outgoing.push(HalfEdgeId(INVALID_INDEX)), t.links, t.edges, t.faces, t.interior).wf(),
{
    let t1 = topo_of(t.outgoing.push(HalfEdgeId(INVALID_INDEX)), t.links, t.edges, t.faces, t.interior);
    assert forall|h: int| 0 <= h < t1.nh() implies #[trigger] t1.link_ok(h) by {
        assert(t.link_ok(h));
    }
    assert forall|f: int| 0 <= f < t1.nf() implies #[trigger] t1.loop_ok(f) by {
        assert(t.loop_ok(f));
        assert(t1.face_loop(f) == t.face_loop(f));
    }
    assert forall|v: int| 0 <= v < t1.nv() implies #[trigger] t1.fan_ok(v) by {
        if v < t.nv() {
            assert(t.fan_ok(v));
            assert(t1.fan(v) == t.fan(v));
        } else {
            assert(!t1.outgoing[v].valid());
            assert forall|h: int| 0 <= h < t.links.len() implies (#[trigger] t.links[h]).origin.idx() != v by {
                assert(t.link_ok(h));
            }
            lemma_origin_count_absent(t.links, v);
        }
    }
    assert forall|v: int| 0 <= v < t1.nv() && (#[trigger] t1.outgoing[v]).valid() implies {
        &&& t1.outgoing[v].idx() < t1.nh()
        &&& t1.links[t1.outgoing[v].idx()].origin.idx() == v
    } by {
        assert(t1.outgoing[v] == t.outgoing[v]);
    }
}

/// Face metadata plays no part in well-formedness.
pub proof fn lemma_face_data_irrelevant(t0: Topology, t1: Topology)
    requires
        t0.wf(),
        t1.outgoing == t0.outgoing,
        t1.links == t0.links,
        t1.edges == t0.edges,
        t1.interior == t0.interior,
        t1.faces.len() == t0.faces.len(),
        forall|f: int| 0 <= f < t0.nf() ==> (#[trigger] t1.faces[f]).halfedge == t0.faces[f].halfedge && t1.faces[f].kind == t0.faces[f].kind,
    ensures
        t1.wf(),
{
    assert forall|h: int| 0 <= h < t1.nh() implies #[trigger] t1.link_ok(h) by {
        assert(t0.link_ok(h));
    }
    assert forall|f: int| 0 <= f < t1.nf() implies #[trigger] t1.loop_ok(f) by {
        assert(t0.loop_ok(f));
        assert(t1.face_loop(f) == t0.face_loop(f));
    }
    assert forall|v: int| 0 <= v < t1.nv() implies #[trigger] t1.fan_ok(v) by {
        assert(t0.fan_ok(v));
        assert(t1.fan(v) == t0.fan(v));
    }
    assert forall|f: int| 0 <= f < t1.nf() implies #[trigger] t1.faces[f].kind == (if f < t1.interior { FaceKind::Interior } else { FaceKind::Boundary }) by {
        assert(t0.faces[f].kind == (if f < t0.interior { FaceKind::Interior } else { FaceKind::Boundary }));
    }
}

} // verus!
