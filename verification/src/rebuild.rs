use crate::attributes::FacePayload;
use crate::error::MeshError;
use crate::ids::{EdgeId, FaceId, HalfEdgeId, VertexId, INVALID_INDEX};
use crate::mesh::{topo_of, walk, walk_cap, FaceKind, FaceRecord, HalfEdgeLinks, HalfEdgeMesh, Polygon};
use crate::snapshot::{MeshSnapshot, PolygonFace};
use crate::validation::{check_topology, validation_error};
use crate::build_spec::{
    alike_from, boundary_record, builds_manifold, built_topology, close_run, faces_run, lemma_faces_run_records, first_outgoing, ghosts_run, interior_link, interior_links,
    interior_records, key_index, lemma_first_outgoing_prefix, nexts_run, no_outgoing, pair_run, turn_walk, unmatched_map,
    unvisited, walk_face, walk_successors, walks_found,
};
use vstd::prelude::*;

verus! {

/// A snapshot polygon seen as a [`Polygon`].
pub open spec fn face_view<L>(f: PolygonFace<L>) -> Polygon<L> {
    Polygon { corners: f.vertices@, loops: f.loops@, data: f.data }
}

/// The polygons of a snapshot face list.
pub open spec fn views<L>(faces: Seq<PolygonFace<L>>) -> Seq<Polygon<L>> {
    faces.map_values(|f: PolygonFace<L>| face_view(f))
}

/// The first rule a polygon list breaks, in face order then corner order.
#[derive(Debug, Clone, Copy, PartialEq, Eq, Structural)]
pub enum FaceProblem {
    /// A face with fewer than three corners (its corner count).
    TooSmall(usize),
    /// Loop payloads given, but not one per corner.
    LoopCountMismatch,
    /// A corner names a vertex that does not exist.
    OutOfRange,
    /// Two consecutive corners name the same vertex (the corner index).
    DuplicateConsecutive(usize),
    /// A directed edge already used by an earlier corner.
    DuplicateDirected(VertexId, VertexId),
}

/// The directed edge that leaves corner `c` of a face.
pub open spec fn corner_key<L>(face: Polygon<L>, c: int) -> (usize, usize) {
    let vs = face.corners;
    (vs[c], vs[(c + 1) % (vs.len() as int)])
}

/// The directed edges of a face, corner by corner.
pub open spec fn face_keys<L>(face: Polygon<L>) -> Seq<(usize, usize)> {
    Seq::new(face.corners.len(), |c: int| corner_key(face, c))
}

/// The directed edges of faces `0..i`, in order.
pub open spec fn keys_before<L>(faces: Seq<Polygon<L>>, i: int) -> Seq<(usize, usize)>
    decreases i,
{
    if i <= 0 {
        Seq::empty()
    } else {
        keys_before(faces, i - 1) + face_keys(faces[i - 1])
    }
}

/// The half-edge index of corner `c` of face `i` in a rebuilt mesh.
pub open spec fn slot<L>(faces: Seq<Polygon<L>>, i: int, c: int) -> int {
    keys_before(faces, i).len() + c
}

/// Total number of corners.
pub open spec fn corner_total<L>(faces: Seq<Polygon<L>>) -> int {
    keys_before(faces, faces.len() as int).len() as int
}

/// The rule corner `c` of face `i` breaks, if any.
pub open spec fn corner_problem<L>(nv: int, faces: Seq<Polygon<L>>, i: int, c: int) -> Option<
    FaceProblem,
> {
    let key = corner_key(faces[i], c);
    if key.0 >= nv || key.1 >= nv {
        Some(FaceProblem::OutOfRange)
    } else if key.0 == key.1 {
        Some(FaceProblem::DuplicateConsecutive(c as usize))
    } else if (keys_before(faces, i) + face_keys(faces[i]).take(c)).contains(key) {
        Some(FaceProblem::DuplicateDirected(VertexId(key.0 as u32), VertexId(key.1 as u32)))
    } else {
        None
    }
}

/// The first rule broken by corners `c..` of face `i`.
pub open spec fn corner_problem_from<L>(nv: int, faces: Seq<Polygon<L>>, i: int, c: int) -> Option<
    FaceProblem,
>
    decreases faces[i].corners.len() - c,
{
    if c < 0 || c >= faces[i].corners.len() {
        None
    } else {
        match corner_problem(nv, faces, i, c) {
            Some(p) => Some(p),
            None => corner_problem_from(nv, faces, i, c + 1),
        }
    }
}

/// The first rule face `i` breaks.
pub open spec fn face_problem<L>(nv: int, faces: Seq<Polygon<L>>, i: int) -> Option<FaceProblem> {
    let n = faces[i].corners.len();
    let ln = faces[i].loops.len();
    if n < 3 {
        Some(FaceProblem::TooSmall(n as usize))
    } else if ln != 0 && ln != n {
        Some(FaceProblem::LoopCountMismatch)
    } else {
        corner_problem_from(nv, faces, i, 0)
    }
}

/// The first rule broken by faces `i..`.
pub open spec fn problem_from<L>(nv: int, faces: Seq<Polygon<L>>, i: int) -> Option<FaceProblem>
    decreases faces.len() - i,
{
    if i < 0 || i >= faces.len() {
        None
    } else {
        match face_problem(nv, faces, i) {
            Some(p) => Some(p),
            None => problem_from(nv, faces, i + 1),
        }
    }
}

/// The first rule a polygon list over `nv` vertices breaks, if any.
pub open spec fn input_problem<L>(nv: int, faces: Seq<Polygon<L>>) -> Option<FaceProblem> {
    problem_from(nv, faces, 0)
}

/// The error reported for a broken rule.
pub open spec fn problem_error(p: FaceProblem, e: MeshError) -> bool {
    match p {
        FaceProblem::TooSmall(n) => e == MeshError::FaceTooSmall { count: n },
        FaceProblem::LoopCountMismatch => e is Validation,
        FaceProblem::OutOfRange => e is Validation,
        FaceProblem::DuplicateConsecutive(c) => e == MeshError::DuplicateConsecutiveVertex {
            corner: c,
        },
        FaceProblem::DuplicateDirected(a, b) => e == MeshError::DuplicateDirectedEdge {
            from: a,
            to: b,
        },
    }
}

/// The rebuilt mesh fits 32-bit ids (boundary half-edges at most double the corners).
pub open spec fn snapshot_fits<L>(nv: int, faces: Seq<Polygon<L>>) -> bool {
    &&& nv < INVALID_INDEX
    &&& faces.len() + 2 * corner_total(faces) < INVALID_INDEX
}

/// The loop payload stored for corner `c` of a face (`d` when the face gives none).
pub open spec fn corner_loop<L>(face: Polygon<L>, c: int, d: L) -> L {
    if face.loops.len() == 0 {
        d
    } else {
        face.loops[c]
    }
}

pub proof fn lemma_keys_before_step<L>(faces: Seq<Polygon<L>>, i: int)
    requires
        0 <= i,
    ensures
        keys_before(faces, i + 1) == keys_before(faces, i) + face_keys(faces[i]),
        keys_before(faces, i + 1).len() == keys_before(faces, i).len() + faces[i].corners.len(),
{
}

/// Earlier faces end before later faces start.
pub proof fn lemma_keys_before_mono<L>(faces: Seq<Polygon<L>>, j: int, i: int)
    requires
        0 <= j <= i,
    ensures
        keys_before(faces, j).len() <= keys_before(faces, i).len(),
        j < i ==> keys_before(faces, j).len() + faces[j].corners.len() <= keys_before(faces, i).len(),
    decreases i - j,
{
    if j < i {
        lemma_keys_before_mono(faces, j, i - 1);
        lemma_keys_before_step(faces, i - 1);
        lemma_keys_before_step(faces, j);
    }
}

/// The corner keys of faces before `i` form a prefix of all keys.
pub proof fn lemma_keys_before_prefix<L>(faces: Seq<Polygon<L>>, i: int, k: int)
    requires
        0 <= i <= k,
    ensures
        keys_before(faces, k).subrange(0, keys_before(faces, i).len() as int) == keys_before(faces, i),
    decreases k - i,
{
    lemma_keys_before_mono(faces, i, k);
    if i < k {
        lemma_keys_before_prefix(faces, i, k - 1);
        lemma_keys_before_step(faces, k - 1);
        lemma_keys_before_mono(faces, i, k - 1);
        assert(keys_before(faces, k).subrange(0, keys_before(faces, i).len() as int)
            =~= keys_before(faces, k - 1).subrange(0, keys_before(faces, i).len() as int));
    } else {
        assert(keys_before(faces, k).subrange(0, keys_before(faces, i).len() as int) =~= keys_before(faces, i));
    }
}

/// Half-edge `h` of an interior block holds the origin, face, loop and ring pointers of
/// corner `c` of face `i`.
pub open spec fn corner_built<L>(
    links: Seq<HalfEdgeLinks>,
    loops: Seq<L>,
    faces: Seq<Polygon<L>>,
    d: L,
    i: int,
    c: int,
) -> bool {
    let first = keys_before(faces, i).len() as int;
    let n = faces[i].corners.len() as int;
    let h = first + c;
    &&& 0 <= h < links.len()
    &&& h < loops.len()
    &&& links[h].origin.idx() == faces[i].corners[c]
    &&& links[h].face.idx() == i
    &&& links[h].next.idx() == first + (if c + 1 == n { 0 } else { c + 1 })
    &&& links[h].prev.idx() == first + (if c == 0 { n - 1 } else { c - 1 })
    &&& loops[h] == corner_loop(faces[i], c, d)
}

/// The interior faces `0..count` are laid out as consecutive half-edge blocks.
pub open spec fn blocks_built<L>(
    links: Seq<HalfEdgeLinks>,
    loops: Seq<L>,
    records: Seq<FaceRecord>,
    faces: Seq<Polygon<L>>,
    d: L,
    count: int,
) -> bool {
    &&& records.len() >= count
    &&& forall|i: int|
        0 <= i < count ==> (#[trigger] records[i]) == FaceRecord {
            halfedge: HalfEdgeId(keys_before(faces, i).len() as u32),
            kind: FaceKind::Interior,
            data: faces[i].data,
        }
    &&& forall|i: int, c: int|
        0 <= i < count && 0 <= c < faces[i].corners.len() ==> #[trigger] corner_built(
            links,
            loops,
            faces,
            d,
            i,
            c,
        )
}

/// Looks up a directed edge among the keys seen so far.
fn find_key(keys: &Vec<(usize, usize)>, key: (usize, usize)) -> (r: Option<usize>)
    ensures
        r is Some ==> r->0 < keys@.len() && keys@[r->0 as int] == key,
        r is None ==> !keys@.contains(key),
        r is Some ==> key_index(keys@, key, 0) == Some(r->0 as int),
        r is None ==> key_index(keys@, key, 0) is None,
{
    let mut h: usize = 0;
    while h < keys.len()
        invariant
            h <= keys@.len(),
            forall|x: int| 0 <= x < h ==> keys@[x] != key,
            key_index(keys@, key, h as int) == key_index(keys@, key, 0),
        decreases keys@.len() - h,
    {
        let k = keys[h];
        if k.0 == key.0 && k.1 == key.1 {
            return Some(h);
        }
        h = h + 1;
    }
    None
}

fn set_next_prev(links: &mut Vec<HalfEdgeLinks>, h: usize, next: usize, prev: usize)
    requires
        h < old(links)@.len(),
        next < INVALID_INDEX,
        prev < INVALID_INDEX,
    ensures
        final(links)@ == old(links)@.update(h as int, HalfEdgeLinks {
            next: HalfEdgeId(next as u32),
            prev: HalfEdgeId(prev as u32),
            ..old(links)@[h as int]
        }),
{
    let mut l = links[h];
    l.next = HalfEdgeId(next as u32);
    l.prev = HalfEdgeId(prev as u32);
    links.set(h, l);
}

/// The working arrays of a rebuild.
struct Draft<L> {
    outgoing: Vec<HalfEdgeId>,
    links: Vec<HalfEdgeLinks>,
    loops: Vec<L>,
    keys: Vec<(usize, usize)>,
    records: Vec<FaceRecord>,
    edges: Vec<HalfEdgeId>,
}

/// Lays out the interior faces as half-edge blocks, checking each corner on the way.
fn build_interior<L: Copy>(nv: usize, faces: &Vec<PolygonFace<L>>, d: L) -> (r: Result<
    Draft<L>,
    MeshError,
>)
    requires
        snapshot_fits(nv as int, views(faces@)),
    ensures
        input_problem(nv as int, views(faces@)) is Some ==> r is Err && problem_error(
            input_problem(nv as int, views(faces@))->0,
            r->Err_0,
        ),
        input_problem(nv as int, views(faces@)) is None ==> r is Ok,
        r is Ok ==> {
            let dr = r->Ok_0;
            &&& dr.outgoing@.len() == nv
            &&& dr.links@.len() == corner_total(views(faces@))
            &&& dr.loops@.len() == corner_total(views(faces@))
            &&& dr.keys@ == keys_before(views(faces@), views(faces@).len() as int)
            &&& dr.keys@.no_duplicates()
            &&& dr.records@.len() == views(faces@).len()
            &&& dr.edges@.len() == 0
            &&& blocks_built(dr.links@, dr.loops@, dr.records@, views(faces@), d, views(faces@).len() as int)
            &&& forall|h: int|
                0 <= h < dr.links@.len() ==> {
                    &&& (#[trigger] dr.links@[h]).next.idx() < dr.links@.len()
                    &&& dr.links@[h].prev.idx() < dr.links@.len()
                    &&& !dr.links@[h].twin.valid()
                    &&& !dr.links@[h].edge.valid()
                    &&& dr.links@[h].face.idx() < views(faces@).len()
                    &&& dr.keys@[h].0 < nv
                    &&& dr.keys@[h].1 < nv
                    &&& dr.keys@[h].0 != dr.keys@[h].1
                }
            &&& forall|v: int|
                0 <= v < nv && (#[trigger] dr.outgoing@[v]).valid() ==> dr.outgoing@[v].idx()
                    < dr.links@.len()
            &&& dr.links@ == interior_links(views(faces@))
            &&& dr.records@ == interior_records(views(faces@))
            &&& dr.outgoing@ == first_outgoing(no_outgoing(nv as int), dr.links@, dr.links@.len() as int)
        },
{
    let ghost fs = views(faces@);
    let nf = faces.len();
    let mut outgoing: Vec<HalfEdgeId> = Vec::new();
    let mut v: usize = 0;
    while v < nv
        invariant
            v <= nv,
            outgoing@.len() == v,
            forall|w: int| 0 <= w < v ==> !(#[trigger] outgoing@[w]).valid(),
        decreases nv - v,
    {
        outgoing.push(HalfEdgeId(INVALID_INDEX));
        v = v + 1;
    }
    proof {
        assert forall|w: int| 0 <= w < nv implies #[trigger] outgoing@[w] == HalfEdgeId(INVALID_INDEX) by {
            assert(!outgoing@[w].valid());
        }
        assert(outgoing@ =~= no_outgoing(nv as int));
    }
    let mut links: Vec<HalfEdgeLinks> = Vec::new();
    let mut loops: Vec<L> = Vec::new();
    let mut keys: Vec<(usize, usize)> = Vec::new();
    let mut records: Vec<FaceRecord> = Vec::new();
    let mut i: usize = 0;
    proof {
        lemma_keys_before_mono(fs, 0, nf as int);
    }
    while i < nf
        invariant
            fs == views(faces@),
            nf == fs.len(),
            snapshot_fits(nv as int, fs),
            i <= nf,
            problem_from(nv as int, fs, 0) == problem_from(nv as int, fs, i as int),
            keys@ == keys_before(fs, i as int),
            keys@.no_duplicates(),
            links@.len() == keys@.len(),
            loops@.len() == keys@.len(),
            records@.len() == i,
            outgoing@.len() == nv,
            outgoing@ == first_outgoing(no_outgoing(nv as int), links@, links@.len() as int),
            blocks_built(links@, loops@, records@, fs, d, i as int),
            forall|h: int|
                0 <= h < links@.len() ==> {
                    &&& (#[trigger] links@[h]).next.idx() < links@.len()
                    &&& links@[h].prev.idx() < links@.len()
                    &&& !links@[h].twin.valid()
                    &&& !links@[h].edge.valid()
                    &&& links@[h].face.idx() < nf
                    &&& keys@[h].0 < nv
                    &&& keys@[h].1 < nv
                    &&& keys@[h].0 != keys@[h].1
                },
            forall|w: int|
                0 <= w < nv && (#[trigger] outgoing@[w]).valid() ==> outgoing@[w].idx() < links@.len(),
        decreases nf - i,
    {
        proof {
            lemma_keys_before_step(fs, i as int);
            lemma_keys_before_mono(fs, i as int + 1, nf as int);
        }
        let n = faces[i].vertices.len();
        if n < 3 {
            return Err(MeshError::FaceTooSmall { count: n });
        }
        let ln = faces[i].loops.len();
        if ln != 0 && ln != n {
            return Err(MeshError::Validation("loop attribute count must match face corner count".to_string()));
        }
        let first = links.len();
        records.push(FaceRecord {
            halfedge: HalfEdgeId(first as u32),
            kind: FaceKind::Interior,
            data: faces[i].data,
        });
        let ghost links_before = links@;
        let ghost loops_before = loops@;
        let mut c: usize = 0;
        while c < n
            invariant
                fs == views(faces@),
                nf == fs.len(),
                i < nf,
                n == fs[i as int].corners.len(),
                n >= 3,
                ln == fs[i as int].loops.len(),
                ln == 0 || ln == n,
                snapshot_fits(nv as int, fs),
                keys_before(fs, i as int + 1).len() <= corner_total(fs),
                keys_before(fs, i as int + 1) == keys_before(fs, i as int) + face_keys(fs[i as int]),
                first == keys_before(fs, i as int).len(),
                c <= n,
                problem_from(nv as int, fs, 0) == problem_from(nv as int, fs, i as int),
                face_problem(nv as int, fs, i as int) == corner_problem_from(nv as int, fs, i as int, c as int),
                keys@ == keys_before(fs, i as int) + face_keys(fs[i as int]).take(c as int),
                keys@.no_duplicates(),
                links@.len() == first + c,
                loops@.len() == first + c,
                links@.subrange(0, first as int) == links_before,
                loops@.subrange(0, first as int) == loops_before,
                links_before.len() == first,
                outgoing@.len() == nv,
                outgoing@ == first_outgoing(no_outgoing(nv as int), links@, links@.len() as int),
                forall|x: int|
                    0 <= x < c ==> {
                        &&& (#[trigger] links@[first + x]).origin.idx() == fs[i as int].corners[x]
                        &&& links@[first + x].face.idx() == i
                        &&& loops@[first + x] == corner_loop(fs[i as int], x, d)
                    },
                forall|h: int|
                    0 <= h < links@.len() ==> {
                        &&& !(#[trigger] links@[h]).twin.valid()
                        &&& !links@[h].edge.valid()
                        &&& links@[h].face.idx() < nf
                        &&& keys@[h].0 < nv
                        &&& keys@[h].1 < nv
                        &&& keys@[h].0 != keys@[h].1
                    },
                forall|w: int|
                    0 <= w < nv && (#[trigger] outgoing@[w]).valid() ==> outgoing@[w].idx() < links@.len(),
            decreases n - c,
        {
            let o = faces[i].vertices[c];
            let dd = faces[i].vertices[(c + 1) % n];
            proof {
                assert(corner_key(fs[i as int], c as int) == (o, dd));
            }
            if o >= nv || dd >= nv {
                proof {
                    assert(corner_problem(nv as int, fs, i as int, c as int) == Some(FaceProblem::OutOfRange));
                    assert(corner_problem_from(nv as int, fs, i as int, c as int) == Some(FaceProblem::OutOfRange));
                    assert(problem_from(nv as int, fs, i as int) == Some(FaceProblem::OutOfRange));
                }
                return Err(validation_error("face references an out-of-range vertex at corner", c));
            }
            if o == dd {
                return Err(MeshError::DuplicateConsecutiveVertex { corner: c });
            }
            if find_key(&keys, (o, dd)).is_some() {
                return Err(MeshError::DuplicateDirectedEdge { from: VertexId(o as u32), to: VertexId(dd as u32) });
            }
            let h = links.len();
            proof {
                assert(face_keys(fs[i as int]).len() == n);
                assert(h < corner_total(fs));
            }
            let ghost pre_links = links@;
            let ghost pre_loops = loops@;
            links.push(HalfEdgeLinks {
                origin: VertexId(o as u32),
                twin: HalfEdgeId(INVALID_INDEX),
                next: HalfEdgeId(INVALID_INDEX),
                prev: HalfEdgeId(INVALID_INDEX),
                face: FaceId(i as u32),
                edge: EdgeId(INVALID_INDEX),
            });
            let lp = if ln == 0 {
                d
            } else {
                faces[i].loops[c]
            };
            loops.push(lp);
            let ghost pre_keys = keys@;
            keys.push((o, dd));
            proof {
                assert forall|a: int, b: int| 0 <= a < keys@.len() && 0 <= b < keys@.len() && a != b implies keys@[a] != keys@[b] by {
                    if a == pre_keys.len() {
                        assert(keys@[b] == pre_keys[b]);
                        if pre_keys[b] == (o, dd) {
                            assert(pre_keys.contains((o, dd)));
                        }
                    } else if b == pre_keys.len() {
                        assert(keys@[a] == pre_keys[a]);
                        if pre_keys[a] == (o, dd) {
                            assert(pre_keys.contains((o, dd)));
                        }
                    } else {
                        assert(keys@[a] == pre_keys[a] && keys@[b] == pre_keys[b]);
                    }
                }
            }
            proof {
                lemma_first_outgoing_prefix(no_outgoing(nv as int), links@, pre_links, h as int);
                assert(links@[h as int].origin.idx() == o);
            }
            if !outgoing[o].is_valid() {
                outgoing.set(o, HalfEdgeId(h as u32));
            }
            proof {
                assert(face_keys(fs[i as int]).take(c as int + 1) =~= face_keys(fs[i as int]).take(c as int).push((o, dd)));
                assert(links@.subrange(0, first as int) =~= links_before);
                assert(loops@.subrange(0, first as int) =~= loops_before);
                assert(links@[h as int].face.idx() == i);
                assert forall|x: int| 0 <= x < c + 1 implies {
                    &&& (#[trigger] links@[first + x]).origin.idx() == fs[i as int].corners[x]
                    &&& links@[first + x].face.idx() == i
                    &&& loops@[first + x] == corner_loop(fs[i as int], x, d)
                } by {
                    if x == c {
                        assert(corner_key(fs[i as int], c as int).0 == fs[i as int].corners[x]);
                    } else {
                        assert(links@[first + x] == pre_links[first + x]);
                        assert(loops@[first + x] == pre_loops[first + x]);
                    }
                }
                assert forall|y: int| 0 <= y < links@.len() implies {
                    &&& !(#[trigger] links@[y]).twin.valid()
                    &&& !links@[y].edge.valid()
                    &&& links@[y].face.idx() < nf
                    &&& keys@[y].0 < nv
                    &&& keys@[y].1 < nv
                    &&& keys@[y].0 != keys@[y].1
                } by {
                    if y < h {
                        assert(links@[y] == pre_links[y]);
                    }
                }
            }
            c = c + 1;
        }
        proof {
            assert(face_keys(fs[i as int]).take(n as int) =~= face_keys(fs[i as int]));
        }
        let ghost links_mid = links@;
        let mut c: usize = 0;
        while c < n
            invariant
                fs == views(faces@),
                nf == fs.len(),
                i < nf,
                n == fs[i as int].corners.len(),
                n >= 3,
                first + n < INVALID_INDEX,
                c <= n,
                links@.len() == first + n,
                links_mid.len() == first + n,
                forall|x: int| 0 <= x < first ==> links@[x] == #[trigger] links_mid[x],
                forall|x: int| 0 <= x < c ==> {
                    &&& (#[trigger] links@[first + x]).next.idx() == first + (if x + 1 == n { 0 } else { x + 1 })
                    &&& links@[first + x].prev.idx() == first + (if x == 0 { n - 1 } else { x - 1 })
                    &&& links@[first + x].origin == links_mid[first + x].origin
                    &&& links@[first + x].face == links_mid[first + x].face
                    &&& links@[first + x].twin == links_mid[first + x].twin
                    &&& links@[first + x].edge == links_mid[first + x].edge
                },
                forall|x: int| first + c <= x < first + n ==> links@[x] == #[trigger] links_mid[x],
            decreases n - c,
        {
            let next_corner = if c + 1 == n {
                0
            } else {
                c + 1
            };
            let prev_corner = if c == 0 {
                n - 1
            } else {
                c - 1
            };
            set_next_prev(&mut links, first + c, first + next_corner, first + prev_corner);
            c = c + 1;
        }
        proof {
            let fi = i as int;
            assert forall|x: int| 0 <= x < links@.len() implies (#[trigger] links@[x]).origin == links_mid[x].origin by {
                if first <= x {
                    assert(links@[first + (x - first)].origin == links_mid[first + (x - first)].origin);
                }
            }
            lemma_first_outgoing_prefix(no_outgoing(nv as int), links@, links_mid, links@.len() as int);
            assert forall|j: int, x: int|
                0 <= j < fi + 1 && 0 <= x < fs[j].corners.len() implies #[trigger] corner_built(
                links@,
                loops@,
                fs,
                d,
                j,
                x,
            ) by {
                if j < fi {
                    lemma_keys_before_mono(fs, j, fi);
                    assert(corner_built(links_before, loops_before, fs, d, j, x));
                    let h = keys_before(fs, j).len() + x;
                    assert(links_before[h] == links@.subrange(0, first as int)[h]);
                    assert(links_mid[h] == links@[h]);
                    assert(loops_before[h] == loops@.subrange(0, first as int)[h]);
                } else {
                    assert(links@[first + x].next.idx() == first + (if x + 1 == n { 0 } else { x + 1 }));
                }
            }
            assert forall|j: int| 0 <= j < fi + 1 implies (#[trigger] records@[j]) == FaceRecord {
                halfedge: HalfEdgeId(keys_before(fs, j).len() as u32),
                kind: FaceKind::Interior,
                data: fs[j].data,
            } by {
            }
            assert forall|h: int| 0 <= h < links@.len() implies {
                &&& (#[trigger] links@[h]).next.idx() < links@.len()
                &&& links@[h].prev.idx() < links@.len()
                &&& !links@[h].twin.valid()
                &&& !links@[h].edge.valid()
                &&& links@[h].face.idx() < nf
                &&& keys@[h].0 < nv
                &&& keys@[h].1 < nv
                &&& keys@[h].0 != keys@[h].1
            } by {
                if h < first {
                    assert(links_before[h] == links@.subrange(0, first as int)[h]);
                    assert(links_mid[h] == links@[h]);
                } else {
                    let x = h - first;
                    assert(links@[first + x].next.idx() == first + (if x + 1 == n { 0 } else { x + 1 }));
                }
            }
        }
        i = i + 1;
    }
    proof {
        assert(problem_from(nv as int, fs, nf as int) is None);
        lemma_interior_layout(links@, loops@, records@, fs, d);
    }
    Ok(Draft { outgoing, links, loops, keys, records, edges: Vec::new() })
}


/// Faces laid out block by block, with no twins or edges yet, are exactly the interior
/// half-edges and face records of the polygon list.
proof fn lemma_interior_layout<L>(
    links: Seq<HalfEdgeLinks>,
    loops: Seq<L>,
    records: Seq<FaceRecord>,
    fs: Seq<Polygon<L>>,
    d: L,
)
    requires
        blocks_built(links, loops, records, fs, d, fs.len() as int),
        links.len() == corner_total(fs),
        records.len() == fs.len(),
        forall|h: int| 0 <= h < links.len() ==> !(#[trigger] links[h]).twin.valid() && !links[h].edge.valid(),
    ensures
        links == interior_links(fs),
        records == interior_records(fs),
{
    assert forall|h: int| 0 <= h < links.len() implies #[trigger] links[h] == interior_link(fs, h) by {
        let p = lemma_corner_of(fs, h, 0);
        assert(0 <= p.0 < fs.len() && 0 <= p.1 < fs[p.0].corners.len() && h == keys_before(fs, p.0).len() + p.1);
        let q = choose|q: (int, int)|
            0 <= q.0 < fs.len() && 0 <= q.1 < fs[q.0].corners.len() && h == keys_before(fs, q.0).len() + q.1;
        if q.0 < p.0 {
            lemma_keys_before_mono(fs, q.0, p.0);
        } else if p.0 < q.0 {
            lemma_keys_before_mono(fs, p.0, q.0);
        }
        assert(q == p);
        assert(corner_built(links, loops, fs, d, p.0, p.1));
    }
    assert(links =~= interior_links(fs));
    assert(records =~= interior_records(fs));
}

/// Computes whether a polygon list fits 32-bit ids.
fn fits_ids<L>(nv: usize, faces: &Vec<PolygonFace<L>>) -> (b: bool)
    ensures
        b == snapshot_fits(nv as int, views(faces@)),
{
    if nv >= 4294967295usize {
        return false;
    }
    let ghost fs = views(faces@);
    let nf = faces.len();
    if nf >= 4294967295usize {
        return false;
    }
    let mut total: u64 = 0;
    let mut i: usize = 0;
    while i < nf
        invariant
            fs == views(faces@),
            nf == fs.len(),
            i <= nf,
            total == keys_before(fs, i as int).len(),
            total <= 4294967295u64,
        decreases nf - i,
    {
        proof {
            lemma_keys_before_step(fs, i as int);
        }
        let n = faces[i].vertices.len() as u64;
        if n > 4294967295u64 - total {
            proof {
                lemma_keys_before_mono(fs, i as int + 1, nf as int);
            }
            return false;
        }
        total = total + n;
        i = i + 1;
    }
    (nf as u64) + 2 * total < 4294967295u64
}

fn set_twin_edge(links: &mut Vec<HalfEdgeLinks>, h: usize, twin: usize, edge: usize)
    requires
        h < old(links)@.len(),
        twin < INVALID_INDEX,
        edge < INVALID_INDEX,
    ensures
        final(links)@ == old(links)@.update(h as int, HalfEdgeLinks {
            twin: HalfEdgeId(twin as u32),
            edge: EdgeId(edge as u32),
            ..old(links)@[h as int]
        }),
{
    let mut l = links[h];
    l.twin = HalfEdgeId(twin as u32);
    l.edge = EdgeId(edge as u32);
    links.set(h, l);
}

fn set_face(links: &mut Vec<HalfEdgeLinks>, h: usize, face: usize)
    requires
        h < old(links)@.len(),
        face < INVALID_INDEX,
    ensures
        final(links)@ == old(links)@.update(h as int, HalfEdgeLinks {
            face: FaceId(face as u32),
            ..old(links)@[h as int]
        }),
{
    let mut l = links[h];
    l.face = FaceId(face as u32);
    links.set(h, l);
}

fn set_next(links: &mut Vec<HalfEdgeLinks>, h: usize, next: usize)
    requires
        h < old(links)@.len(),
        next < INVALID_INDEX,
    ensures
        final(links)@ == old(links)@.update(h as int, HalfEdgeLinks {
            next: HalfEdgeId(next as u32),
            ..old(links)@[h as int]
        }),
{
    let mut l = links[h];
    l.next = HalfEdgeId(next as u32);
    links.set(h, l);
}

fn set_prev(links: &mut Vec<HalfEdgeLinks>, h: usize, prev: usize)
    requires
        h < old(links)@.len(),
        prev < INVALID_INDEX,
    ensures
        final(links)@ == old(links)@.update(h as int, HalfEdgeLinks {
            prev: HalfEdgeId(prev as u32),
            ..old(links)@[h as int]
        }),
{
    let mut l = links[h];
    l.prev = HalfEdgeId(prev as u32);
    links.set(h, l);
}

/// The same edge run the other way.
pub open spec fn reversed(key: (usize, usize)) -> (usize, usize) {
    (key.1, key.0)
}

/// The half-edges that have a twin.
pub open spec fn twinned(links: Seq<HalfEdgeLinks>) -> Set<int> {
    Set::new(|x: int| 0 <= x < links.len() && links[x].twin.valid())
}

/// Pairs every interior half-edge with the one running the other way along the same
/// edge; returns the half-edges left without a partner (they lie on the boundary).
fn pair_twins(links: &mut Vec<HalfEdgeLinks>, keys: &Vec<(usize, usize)>, edges: &mut Vec<HalfEdgeId>) -> (r: Result<Vec<usize>, MeshError>)
    requires
        keys@.len() == old(links)@.len(),
        old(links)@.len() < INVALID_INDEX,
        old(edges)@.len() == 0,
        forall|h: int|
            0 <= h < old(links)@.len() ==> {
                &&& (#[trigger] old(links)@[h]).prev.idx() < old(links)@.len()
                &&& !old(links)@[h].edge.valid()
                &&& !old(links)@[h].twin.valid()
            },
    ensures
        r is Err ==> r->Err_0 is Validation,
        r is Err ==> pair_run(old(links)@, keys@, old(edges)@, Seq::empty(), 0) is None,
        r is Ok ==> pair_run(old(links)@, keys@, old(edges)@, Seq::empty(), 0) == Some((final(links)@, final(edges)@, r->Ok_0@)),
        r is Err ==> exists|x: int| 0 <= x < keys@.len() && (#[trigger] keys@[x]).0 == keys@[x].1,
        r is Ok ==> forall|k: int| 0 <= k < r->Ok_0@.len() ==> !keys@.contains(reversed(keys@[#[trigger] r->Ok_0@[k] as int])),
        r is Ok ==> forall|x: int| 0 <= x < keys@.len() && !keys@.contains(reversed(#[trigger] keys@[x])) ==> r->Ok_0@.contains(
            x as usize,
        ),
        r is Ok ==> forall|i: int, j: int| 0 <= i < j < r->Ok_0@.len() ==> r->Ok_0@[i] < r->Ok_0@[j],
        r is Ok ==> forall|x: int|
            0 <= x < final(links)@.len() && (#[trigger] final(links)@[x]).twin.valid() ==> keys@[final(links)@[x].twin.idx()]
                == reversed(keys@[x]),
        r is Ok ==> final(links)@.len() == old(links)@.len(),
        r is Ok ==> forall|h: int|
            0 <= h < final(links)@.len() ==> {
                &&& (#[trigger] final(links)@[h]).origin == old(links)@[h].origin
                &&& final(links)@[h].next == old(links)@[h].next
                &&& final(links)@[h].prev == old(links)@[h].prev
                &&& final(links)@[h].face == old(links)@[h].face
                &&& (final(links)@[h].twin.valid() ==> final(links)@[h].twin.idx() < final(links)@.len())
            },
        r is Ok ==> final(edges)@.len() <= final(links)@.len(),
        r is Ok ==> twinned(final(links)@).finite() && twinned(final(links)@).len() == 2 * final(edges)@.len(),
        r is Ok && keys@.no_duplicates() ==> forall|x: int|
            0 <= x < keys@.len() ==> (#[trigger] final(links)@[x]).twin.valid() || r->Ok_0@.contains(x as usize),
        r is Ok ==> r->Ok_0@.len() <= final(links)@.len() && forall|k: int|
            0 <= k < r->Ok_0@.len() ==> #[trigger] r->Ok_0@[k] < final(links)@.len(),
{
    let nh = links.len();
    let ghost base = links@;
    let ghost base_edges = edges@;
    let mut boundary: Vec<usize> = Vec::new();
    proof {
        assert(twinned(links@) =~= Set::<int>::empty());
    }
    let mut h: usize = 0;
    while h < nh
        invariant
            nh == links@.len(),
            nh == base.len(),
            nh < INVALID_INDEX,
            keys@.len() == nh,
            h <= nh,
            edges@.len() <= h,
            boundary@.len() <= h,
            forall|k: int| 0 <= k < boundary@.len() ==> #[trigger] boundary@[k] < h,
            forall|k: int| 0 <= k < boundary@.len() ==> !keys@.contains(reversed(keys@[#[trigger] boundary@[k] as int])),
            forall|i: int, j: int| 0 <= i < j < boundary@.len() ==> boundary@[i] < boundary@[j],
            forall|x: int| 0 <= x < h && !keys@.contains(reversed(#[trigger] keys@[x])) ==> boundary@.contains(x as usize),
            forall|x: int|
                0 <= x < nh ==> {
                    &&& (#[trigger] links@[x]).origin == base[x].origin
                    &&& links@[x].next == base[x].next
                    &&& links@[x].prev == base[x].prev
                    &&& links@[x].face == base[x].face
                    &&& (links@[x].twin.valid() ==> links@[x].twin.idx() < nh)
                    &&& (links@[x].edge.valid() <==> links@[x].twin.valid())
                    &&& (links@[x].twin.valid() ==> keys@[links@[x].twin.idx()] == reversed(keys@[x]))
                    &&& (links@[x].twin.valid() ==> links@[links@[x].twin.idx()].twin.idx() == x)
                },
            twinned(links@).finite(),
            pair_run(links@, keys@, edges@, boundary@, h as int) == pair_run(base, keys@, base_edges, Seq::empty(), 0),
            base == old(links)@,
            base_edges == old(edges)@,
            twinned(links@).len() == 2 * edges@.len(),
            keys@.no_duplicates() ==> forall|x: int| 0 <= x < h ==> (#[trigger] links@[x]).twin.valid() || boundary@.contains(x as usize),
        decreases nh - h,
    {
        if links[h].edge.is_valid() {
            proof {
                let t = links@[h as int].twin.idx();
                assert(keys@[t] == reversed(keys@[h as int]));
                assert(keys@.contains(reversed(keys@[h as int])));
            }
            h = h + 1;
            continue;
        }
        let key = keys[h];
        match find_key(keys, (key.1, key.0)) {
            Some(t) => {
                if t == h {
                    proof {
                        assert(reversed(keys@[h as int]) == (key.1, key.0));
                        assert(pair_run(links@, keys@, edges@, boundary@, h as int) is None);
                    }
                    return Err(MeshError::Validation("self-twin edge detected while building topology".to_string()));
                }
                if links[t].edge.is_valid() {
                    proof {
                        assert(keys@[t as int] == reversed(keys@[h as int]));
                        if keys@.no_duplicates() {
                            let t2 = links@[t as int].twin.idx();
                            assert(keys@[t2] == reversed(keys@[t as int]));
                            assert(keys@[t2] == keys@[h as int]);
                            assert(t2 == h);
                            assert(links@[t2].twin.idx() == t);
                            assert(false);
                        }
                    }
                    h = h + 1;
                    continue;
                }
                let e = edges.len();
                edges.push(HalfEdgeId(h as u32));
                let ghost before = links@;
                set_twin_edge(links, h, t, e);
                set_twin_edge(links, t, h, e);
                proof {
                    assert(keys@[t as int] == reversed(keys@[h as int]));
                    assert(keys@.contains(reversed(keys@[h as int])));
                    assert forall|x: int| 0 <= x < nh implies {
                        &&& ((#[trigger] links@[x]).twin.valid() ==> keys@[links@[x].twin.idx()] == reversed(keys@[x]))
                        &&& (links@[x].twin.valid() ==> links@[links@[x].twin.idx()].twin.idx() == x)
                        &&& (links@[x].edge.valid() <==> links@[x].twin.valid())
                    } by {
                        if x != h && x != t {
                            assert(links@[x] == before[x]);
                            if before[x].twin.valid() {
                                let y = before[x].twin.idx();
                                assert(before[y].twin.idx() == x);
                                if y == h || y == t {
                                    assert(before[y].twin.valid());
                                }
                                assert(links@[y] == before[y]);
                            }
                        }
                    }
                    assert(!before[h as int].twin.valid());
                    assert(!before[t as int].twin.valid());
                    assert(twinned(links@) =~= twinned(before).insert(h as int).insert(t as int));
                    vstd::set::axiom_set_insert_len(twinned(before), h as int);
                    vstd::set::axiom_set_insert_len(twinned(before).insert(h as int), t as int);
                }
            },
            None => {
                let ghost old_b = boundary@;
                boundary.push(h);
                proof {
                    assert(boundary@[old_b.len() as int] == h);
                    assert forall|x: int| 0 <= x < h + 1 && !keys@.contains(reversed(#[trigger] keys@[x])) implies boundary@.contains(
                        x as usize,
                    ) by {
                        if x < h {
                            let k = choose|k: int| 0 <= k < old_b.len() && old_b[k] == x as usize;
                            assert(boundary@[k] == old_b[k]);
                        }
                    }
                }
            },
        }
        h = h + 1;
    }
    Ok(boundary)
}

/// The half-edge reached from `h` after `k` turns around its origin: first `h`'s
/// predecessor, then each time the predecessor of the current half-edge's twin.
pub open spec fn turn_around(links: Seq<HalfEdgeLinks>, h: int, k: nat) -> int
    decreases k,
{
    if k == 0 {
        links[h].prev.idx()
    } else {
        links[links[turn_around(links, h, (k - 1) as nat)].twin.idx()].prev.idx()
    }
}

/// `s` is the first half-edge without a twin that turning around the origin of `h` reaches.
pub open spec fn reached_first_open(links: Seq<HalfEdgeLinks>, h: int, s: int) -> bool {
    exists|k: nat|
        k < links.len() && s == #[trigger] turn_around(links, h, k) && !links[s].twin.valid() && forall|j: nat|
            j < k ==> #[trigger] links[turn_around(links, h, j)].twin.valid()
}

/// Turning around the origin of a half-edge through twins only reaches half-edges that
/// end at that origin, when every twin runs its edge the other way.
proof fn lemma_turn_ends_at_origin(links: Seq<HalfEdgeLinks>, keys: Seq<(usize, usize)>, h: int, k: nat)
    requires
        links.len() == keys.len(),
        0 <= h < links.len(),
        forall|x: int|
            0 <= x < links.len() ==> 0 <= (#[trigger] links[x]).prev.idx() < links.len() && keys[links[x].prev.idx()].1
                == keys[x].0,
        forall|x: int|
            0 <= x < links.len() && (#[trigger] links[x]).twin.valid() ==> links[x].twin.idx() < links.len()
                && keys[links[x].twin.idx()] == reversed(keys[x]),
        forall|j: nat| j < k ==> #[trigger] links[turn_around(links, h, j)].twin.valid(),
    ensures
        0 <= turn_around(links, h, k) < links.len(),
        keys[turn_around(links, h, k)].1 == keys[h].0,
    decreases k,
{
    if k > 0 {
        let j = (k - 1) as nat;
        lemma_turn_ends_at_origin(links, keys, h, j);
        let c = turn_around(links, h, j);
        assert(links[c].twin.valid());
        let t = links[c].twin.idx();
        assert(keys[t] == reversed(keys[c]));
        assert(turn_around(links, h, k) == links[t].prev.idx());
    }
}

/// From an unpaired half-edge, turns around its origin (through `prev` and `twin`) to the
/// previous unpaired half-edge: the next boundary half-edge follows the reversed one.
fn next_boundary_interior(links: &Vec<HalfEdgeLinks>, h: usize) -> (r: Result<usize, MeshError>)
    requires
        h < links@.len(),
        forall|x: int|
            0 <= x < links@.len() ==> {
                &&& (#[trigger] links@[x]).prev.idx() < links@.len()
                &&& (links@[x].twin.valid() ==> links@[x].twin.idx() < links@.len())
            },
        links@.len() < INVALID_INDEX,
    ensures
        r is Err ==> r->Err_0 is Validation,
        r is Err ==> turn_walk(links@, links@[h as int].prev.idx(), 0) is None,
        r is Ok ==> turn_walk(links@, links@[h as int].prev.idx(), 0) == Some(r->Ok_0 as int),
        r is Err ==> forall|k: nat| k < links@.len() ==> #[trigger] links@[turn_around(links@, h as int, k)].twin.valid(),
        r is Ok ==> r->Ok_0 < links@.len(),
        r is Ok ==> exists|k: nat|
            k < links@.len() && r->Ok_0 == #[trigger] turn_around(links@, h as int, k) && !links@[r->Ok_0 as int].twin.valid()
                && forall|j: nat| j < k ==> #[trigger] links@[turn_around(links@, h as int, j)].twin.valid(),
{
    let nh = links.len();
    let mut cursor = links[h].prev.index();
    let mut steps: usize = 0;
    loop
        invariant
            nh == links@.len(),
            nh < INVALID_INDEX,
            cursor < nh,
            steps <= nh,
            h < nh,
            cursor == turn_around(links@, h as int, steps as nat),
            turn_walk(links@, cursor as int, steps as int) == turn_walk(links@, links@[h as int].prev.idx(), 0),
            forall|j: nat| j < steps ==> #[trigger] links@[turn_around(links@, h as int, j)].twin.valid(),
            forall|x: int|
                0 <= x < links@.len() ==> {
                    &&& (#[trigger] links@[x]).prev.idx() < links@.len()
                    &&& (links@[x].twin.valid() ==> links@[x].twin.idx() < links@.len())
                },
        decreases nh - steps,
    {
        if steps >= nh {
            return Err(MeshError::Validation("boundary successor search exceeded traversal guard".to_string()));
        }
        let twin = links[cursor].twin;
        if !twin.is_valid() {
            return Ok(cursor);
        }
        proof {
            assert(turn_around(links@, h as int, (steps + 1) as nat) == links@[twin.idx()].prev.idx());
        }
        cursor = links[twin.index()].prev.index();
        steps = steps + 1;
    }
}

/// The successor of every unpaired half-edge, in order.
fn collect_successors(links: &Vec<HalfEdgeLinks>, boundary: &Vec<usize>) -> (r: Result<Vec<usize>, MeshError>)
    requires
        links@.len() < INVALID_INDEX,
        forall|j: int| 0 <= j < boundary@.len() ==> #[trigger] boundary@[j] < links@.len(),
        forall|x: int|
            0 <= x < links@.len() ==> {
                &&& (#[trigger] links@[x]).prev.idx() < links@.len()
                &&& (links@[x].twin.valid() ==> links@[x].twin.idx() < links@.len())
            },
    ensures
        r is Err ==> r->Err_0 is Validation,
        r is Err ==> !walks_found(links@, boundary@),
        r is Ok ==> walks_found(links@, boundary@) && r->Ok_0@ == walk_successors(links@, boundary@),
        r is Ok ==> r->Ok_0@.len() == boundary@.len(),
        r is Ok ==> forall|j: int| 0 <= j < boundary@.len() ==> #[trigger] r->Ok_0@[j] < links@.len(),
        r is Ok ==> forall|j: int| 0 <= j < boundary@.len() ==> #[trigger] reached_first_open(links@, boundary@[j] as int, r->Ok_0@[j] as int),
{
    let mut successors: Vec<usize> = Vec::new();
    let mut k: usize = 0;
    while k < boundary.len()
        invariant
            links@.len() < INVALID_INDEX,
            k <= boundary@.len(),
            successors@.len() == k,
            forall|j: int| 0 <= j < boundary@.len() ==> #[trigger] boundary@[j] < links@.len(),
            forall|j: int| 0 <= j < k ==> #[trigger] successors@[j] < links@.len(),
            forall|j: int|
                0 <= j < k ==> #[trigger] turn_walk(links@, links@[boundary@[j] as int].prev.idx(), 0) == Some(successors@[j] as int),
            forall|j: int| 0 <= j < k ==> #[trigger] reached_first_open(links@, boundary@[j] as int, successors@[j] as int),
            forall|x: int|
                0 <= x < links@.len() ==> {
                    &&& (#[trigger] links@[x]).prev.idx() < links@.len()
                    &&& (links@[x].twin.valid() ==> links@[x].twin.idx() < links@.len())
                },
        decreases boundary@.len() - k,
    {
        let s = match next_boundary_interior(links, boundary[k]) {
            Ok(s) => s,
            Err(e) => {
                proof {
                    assert(turn_walk(links@, links@[boundary@[k as int] as int].prev.idx(), 0) is None);
                }
                return Err(e);
            },
        };
        successors.push(s);
        k = k + 1;
    }
    proof {
        assert(successors@ =~= walk_successors(links@, boundary@)) by {
            assert forall|j: int| 0 <= j < boundary@.len() implies successors@[j] == walk_successors(links@, boundary@)[j] by {
                assert(turn_walk(links@, links@[boundary@[j] as int].prev.idx(), 0) == Some(successors@[j] as int));
            }
        }
    }
    Ok(successors)
}

/// A list without problems has none in any face.
pub proof fn lemma_no_problem<L>(nv: int, faces: Seq<Polygon<L>>, j: int, i: int)
    requires
        0 <= j <= i < faces.len(),
        problem_from(nv, faces, j) is None,
    ensures
        face_problem(nv, faces, i) is None,
        faces[i].corners.len() >= 3,
    decreases i - j,
{
    if j < i {
        lemma_no_problem(nv, faces, j + 1, i);
    }
}

/// Two polygon lists with the same corners and metadata, face by face.
pub open spec fn same_shape<L>(a: Seq<Polygon<L>>, b: Seq<Polygon<L>>) -> bool {
    &&& a.len() == b.len()
    &&& forall|i: int| 0 <= i < a.len() ==> (#[trigger] a[i]).corners == b[i].corners && a[i].data == b[i].data
}

/// Every face gives either no loop payloads or one per corner.
pub open spec fn loops_sized<L>(a: Seq<Polygon<L>>) -> bool {
    forall|i: int| 0 <= i < a.len() ==> (#[trigger] a[i]).loops.len() == 0 || a[i].loops.len() == a[i].corners.len()
}

/// The directed sides of the faces before `i` depend on their corners only.
proof fn lemma_keys_same_corners<L>(a: Seq<Polygon<L>>, b: Seq<Polygon<L>>, i: int)
    requires
        forall|j: int| 0 <= j < i ==> (#[trigger] a[j]).corners == b[j].corners,
    ensures
        keys_before(a, i) == keys_before(b, i),
    decreases i,
{
    if i > 0 {
        lemma_keys_same_corners(a, b, i - 1);
        assert(a[i - 1].corners == b[i - 1].corners);
        assert(face_keys(a[i - 1]) =~= face_keys(b[i - 1]));
    }
}

/// Building depends on the corners and metadata of the polygons, not on their loop payloads.
pub proof fn lemma_built_same_shape<L>(nv: int, a: Seq<Polygon<L>>, b: Seq<Polygon<L>>)
    requires
        same_shape(a, b),
    ensures
        built_topology(nv, a) == built_topology(nv, b),
        corner_total(a) == corner_total(b),
        all_keys(a) == all_keys(b),
{
    assert forall|i: int| 0 <= i <= a.len() implies #[trigger] keys_before(a, i) == keys_before(b, i) by {
        assert forall|j: int| 0 <= j < i implies (#[trigger] a[j]).corners == b[j].corners by {}
        lemma_keys_same_corners(a, b, i);
    }
    assert(keys_before(a, a.len() as int) == keys_before(b, b.len() as int));
    assert forall|h: int| 0 <= h < corner_total(a) implies #[trigger] interior_link(a, h) == interior_link(b, h) by {
        let w = lemma_corner_of(a, h, 0);
        assert(keys_before(a, w.0) == keys_before(b, w.0));
        let pa = choose|q: (int, int)|
            0 <= q.0 < a.len() && 0 <= q.1 < a[q.0].corners.len() && h == keys_before(a, q.0).len() + q.1;
        let pb = choose|q: (int, int)|
            0 <= q.0 < b.len() && 0 <= q.1 < b[q.0].corners.len() && h == keys_before(b, q.0).len() + q.1;
        assert(0 <= w.0 < b.len() && 0 <= w.1 < b[w.0].corners.len() && h == keys_before(b, w.0).len() + w.1);
        assert(keys_before(a, pa.0) == keys_before(b, pa.0));
        assert(keys_before(a, pb.0) == keys_before(b, pb.0));
        if pa.0 < pb.0 {
            lemma_keys_before_mono(a, pa.0, pb.0);
        } else if pb.0 < pa.0 {
            lemma_keys_before_mono(a, pb.0, pa.0);
        }
        assert(pa == pb);
        assert(a[pa.0].corners == b[pa.0].corners);
    }
    assert(interior_links(a) =~= interior_links(b));
    assert forall|i: int| 0 <= i < a.len() implies #[trigger] interior_records(a)[i] == interior_records(b)[i] by {
        assert(keys_before(a, i) == keys_before(b, i));
    }
    assert(interior_records(a) =~= interior_records(b));
    reveal(built_topology);
}

/// Building from polygons with the same corners gives the same connectivity: the face
/// records start with each list's interior records, and the boundary records agree.
pub proof fn lemma_built_same_corners<L>(nv: int, a: Seq<Polygon<L>>, b: Seq<Polygon<L>>)
    requires
        a.len() == b.len(),
        forall|i: int| 0 <= i < a.len() ==> (#[trigger] a[i]).corners == b[i].corners,
        built_topology(nv, a) is Some,
    ensures
        built_topology(nv, b) is Some,
        corner_total(a) == corner_total(b),
        alike_from(built_topology(nv, a)->0, built_topology(nv, b)->0, 0),
        forall|f: int| 0 <= f < a.len() ==> #[trigger] built_topology(nv, a)->0.faces[f] == interior_records(a)[f],
        forall|f: int| 0 <= f < b.len() ==> #[trigger] built_topology(nv, b)->0.faces[f] == interior_records(b)[f],
        forall|f: int|
            a.len() <= f < built_topology(nv, a)->0.faces.len() ==> #[trigger] built_topology(nv, a)->0.faces[f]
                == built_topology(nv, b)->0.faces[f],
{
    assert forall|i: int| 0 <= i <= a.len() implies #[trigger] keys_before(a, i) == keys_before(b, i) by {
        assert forall|j: int| 0 <= j < i implies (#[trigger] a[j]).corners == b[j].corners by {}
        lemma_keys_same_corners(a, b, i);
    }
    assert(keys_before(a, a.len() as int) == keys_before(b, b.len() as int));
    assert forall|h: int| 0 <= h < corner_total(a) implies #[trigger] interior_link(a, h) == interior_link(b, h) by {
        let w = lemma_corner_of(a, h, 0);
        assert(keys_before(a, w.0) == keys_before(b, w.0));
        let pa = choose|q: (int, int)|
            0 <= q.0 < a.len() && 0 <= q.1 < a[q.0].corners.len() && h == keys_before(a, q.0).len() + q.1;
        let pb = choose|q: (int, int)|
            0 <= q.0 < b.len() && 0 <= q.1 < b[q.0].corners.len() && h == keys_before(b, q.0).len() + q.1;
        assert(0 <= w.0 < b.len() && 0 <= w.1 < b[w.0].corners.len() && h == keys_before(b, w.0).len() + w.1);
        assert(keys_before(a, pa.0) == keys_before(b, pa.0));
        assert(keys_before(a, pb.0) == keys_before(b, pb.0));
        if pa.0 < pb.0 {
            lemma_keys_before_mono(a, pa.0, pb.0);
        } else if pb.0 < pa.0 {
            lemma_keys_before_mono(a, pb.0, pa.0);
        }
        assert(pa == pb);
        assert(a[pa.0].corners == b[pa.0].corners);
    }
    assert(interior_links(a) =~= interior_links(b));
    assert forall|i: int| 0 <= i < a.len() implies (#[trigger] interior_records(a)[i]).halfedge == interior_records(b)[i].halfedge by {
        assert(keys_before(a, i) == keys_before(b, i));
    }
    reveal(built_topology);
    let links0 = interior_links(a);
    let keys = all_keys(a);
    let out0 = first_outgoing(no_outgoing(nv), links0, links0.len() as int);
    let p = pair_run(links0, keys, Seq::empty(), Seq::empty(), 0)->0;
    let successors = walk_successors(p.0, p.2);
    let nh = p.0.len() as int;
    let nb = p.2.len() as int;
    let g = ghosts_run((out0, p.0, p.1, unmatched_map(nh, nb)), keys, p.2, 0);
    let linked = nexts_run(g.1, g.3, p.2, successors, 0)->0;
    lemma_faces_run_records(linked, unvisited(nh + nb), interior_records(a), interior_records(b), 0, nh, nb);
    let fb = faces_run(linked, unvisited(nh + nb), interior_records(b), 0, nh, nb)->0;
    assert(built_topology(nv, b)->0.faces == fb.1);
    assert forall|f: int| 0 <= f < b.len() implies #[trigger] built_topology(nv, b)->0.faces[f] == interior_records(b)[f] by {
        assert(fb.1[f] == interior_records(b)[f]);
    }
}

/// Whether a rule is broken depends on the corners and on whether each face's loop
/// payloads are sized right.
proof fn lemma_problem_same_corners<L>(nv: int, a: Seq<Polygon<L>>, b: Seq<Polygon<L>>, i: int)
    requires
        a.len() == b.len(),
        forall|j: int| 0 <= j < a.len() ==> (#[trigger] a[j]).corners == b[j].corners,
        loops_sized(a),
        loops_sized(b),
        0 <= i,
    ensures
        problem_from(nv, a, i) == problem_from(nv, b, i),
    decreases a.len() - i,
{
    if i < a.len() {
        lemma_problem_same_corners(nv, a, b, i + 1);
        assert forall|j: int| 0 <= j < i implies (#[trigger] a[j]).corners == b[j].corners by {}
        lemma_keys_same_corners(a, b, i);
        assert(a[i].corners == b[i].corners);
        assert(face_keys(a[i]) =~= face_keys(b[i]));
        lemma_corner_problem_same(nv, a, b, i, 0);
    }
}

proof fn lemma_corner_problem_same<L>(nv: int, a: Seq<Polygon<L>>, b: Seq<Polygon<L>>, i: int, c: int)
    requires
        0 <= i < a.len(),
        a.len() == b.len(),
        a[i].corners == b[i].corners,
        keys_before(a, i) == keys_before(b, i),
        face_keys(a[i]) == face_keys(b[i]),
        0 <= c,
    ensures
        corner_problem_from(nv, a, i, c) == corner_problem_from(nv, b, i, c),
    decreases a[i].corners.len() - c,
{
    if c < a[i].corners.len() {
        lemma_corner_problem_same(nv, a, b, i, c + 1);
        assert(corner_key(a[i], c) == corner_key(b[i], c));
    }
}

impl<V, L> HalfEdgeMesh<V, L> {
    /// The mesh is what building its own polygons over its vertices produces: the polygons
    /// fit the id range, break no rule, and close into this mesh, alike in everything but
    /// the metadata of boundary faces, which polygons do not carry.
    pub open spec fn canonical(&self) -> bool {
        &&& self.vertex_data_view().len() == self.nv()
        &&& snapshot_fits(self.nv(), self.polygons())
        &&& input_problem(self.nv(), self.polygons()) is None
        &&& built_topology(self.nv(), self.polygons()) is Some
        &&& alike_from(built_topology(self.nv(), self.polygons())->0, self.topology(), self.interior())
        &&& self.topology().wf()
    }
}

/// A mesh that matches a polygon list which builds into it is the canonical build of its
/// own polygons.
pub proof fn lemma_matching_build_canonical<V, L>(m: HalfEdgeMesh<V, L>, fs: Seq<Polygon<L>>)
    requires
        m.interior() == fs.len(),
        forall|i: int| 0 <= i < fs.len() ==> polygon_matches(#[trigger] m.polygon(i), fs[i]),
        snapshot_fits(m.nv(), fs),
        input_problem(m.nv(), fs) is None,
        built_topology(m.nv(), fs) == Some(m.topology()),
        m.topology().wf(),
        m.vertex_data_view().len() == m.nv(),
    ensures
        m.canonical(),
{
    let ps = m.polygons();
    assert forall|i: int| 0 <= i < ps.len() implies (#[trigger] ps[i]).corners == fs[i].corners && ps[i].data == fs[i].data by {
        assert(polygon_matches(m.polygon(i), fs[i]));
    }
    assert(same_shape(ps, fs));
    lemma_built_same_shape(m.nv(), ps, fs);
    assert forall|i: int| 0 <= i < ps.len() implies (#[trigger] ps[i]).loops.len() == 0 || ps[i].loops.len() == ps[i].corners.len() by {
        assert(polygon_matches(m.polygon(i), fs[i]));
    }
    assert forall|i: int| 0 <= i < fs.len() implies (#[trigger] fs[i]).loops.len() == 0 || fs[i].loops.len() == fs[i].corners.len() by {
        lemma_no_problem(m.nv(), fs, 0, i);
    }
    lemma_problem_same_corners(m.nv(), ps, fs, 0);
}

/// The empty mesh is the build of no polygons over no vertices.
pub proof fn lemma_empty_canonical<V, L>(m: HalfEdgeMesh<V, L>)
    requires
        m.topology().outgoing.len() == 0,
        m.topology().links.len() == 0,
        m.topology().edges.len() == 0,
        m.topology().faces.len() == 0,
        m.interior() == 0,
        m.vertex_data_view().len() == 0,
        m.topology().wf(),
    ensures
        m.canonical(),
{
    let fs = m.polygons();
    assert(fs =~= Seq::<Polygon<L>>::empty());
    assert(interior_links(fs) =~= Seq::<HalfEdgeLinks>::empty());
    assert(interior_records(fs) =~= Seq::<FaceRecord>::empty());
    assert(no_outgoing(0) =~= Seq::<HalfEdgeId>::empty());
    assert(m.topology().outgoing =~= Seq::<HalfEdgeId>::empty());
    assert(m.topology().links =~= Seq::<HalfEdgeLinks>::empty());
    assert(m.topology().edges =~= Seq::<HalfEdgeId>::empty());
    assert(m.topology().faces =~= Seq::<FaceRecord>::empty());
    reveal(built_topology);
}

proof fn lemma_corner_more_vertices<L>(nv: int, fs: Seq<Polygon<L>>, i: int, c: int)
    requires
        0 <= i < fs.len(),
        0 <= c,
        corner_problem_from(nv, fs, i, c) is None,
    ensures
        corner_problem_from(nv + 1, fs, i, c) is None,
        forall|x: int| c <= x < fs[i].corners.len() ==> (#[trigger] corner_key(fs[i], x)).0 < nv && corner_key(fs[i], x).1 < nv,
    decreases fs[i].corners.len() - c,
{
    if c < fs[i].corners.len() {
        lemma_corner_more_vertices(nv, fs, i, c + 1);
    }
}

/// A polygon list that breaks no rule over `nv` vertices breaks none over one more.
proof fn lemma_problem_more_vertices<L>(nv: int, fs: Seq<Polygon<L>>, i: int)
    requires
        0 <= i,
        problem_from(nv, fs, i) is None,
    ensures
        problem_from(nv + 1, fs, i) is None,
    decreases fs.len() - i,
{
    if i < fs.len() {
        lemma_corner_more_vertices(nv, fs, i, 0);
        lemma_problem_more_vertices(nv, fs, i + 1);
    }
}

/// The directed sides of a polygon list that breaks no rule join existing vertices.
proof fn lemma_keys_in_range<L>(nv: int, fs: Seq<Polygon<L>>, i: int)
    requires
        problem_from(nv, fs, 0) is None,
        0 <= i <= fs.len(),
    ensures
        forall|x: int| 0 <= x < keys_before(fs, i).len() ==> (#[trigger] keys_before(fs, i)[x]).0 < nv && keys_before(fs, i)[x].1 < nv,
    decreases i,
{
    if i > 0 {
        lemma_keys_in_range(nv, fs, i - 1);
        lemma_no_problem(nv, fs, 0, i - 1);
        lemma_corner_more_vertices(nv, fs, i - 1, 0);
        lemma_keys_before_step(fs, i - 1);
        let pre = keys_before(fs, i - 1);
        assert forall|x: int| 0 <= x < keys_before(fs, i).len() implies (#[trigger] keys_before(fs, i)[x]).0 < nv && keys_before(fs, i)[x].1 < nv by {
            if x >= pre.len() {
                assert(keys_before(fs, i)[x] == face_keys(fs[i - 1])[x - pre.len()]);
            } else {
                assert(keys_before(fs, i)[x] == pre[x]);
            }
        }
    }
}

/// Scanning half-edges whose origins are existing vertices over one more vertex gives the
/// same outgoing half-edges, and none for the new vertex.
proof fn lemma_first_outgoing_push(init: Seq<HalfEdgeId>, links: Seq<HalfEdgeLinks>, h: int, x: HalfEdgeId)
    requires
        0 <= h <= links.len(),
        forall|k: int| 0 <= k < h ==> 0 <= (#[trigger] links[k]).origin.idx() < init.len(),
    ensures
        first_outgoing(init.push(x), links, h) == first_outgoing(init, links, h).push(x),
        first_outgoing(init, links, h).len() == init.len(),
    decreases h,
{
    if h > 0 {
        lemma_first_outgoing_push(init, links, h - 1, x);
        let o = first_outgoing(init, links, h - 1);
        let v = links[h - 1].origin.idx();
        assert(o.push(x)[v] == o[v]);
        assert(o.push(x).update(v, HalfEdgeId((h - 1) as u32)) =~= o.update(v, HalfEdgeId((h - 1) as u32)).push(x));
    }
}

proof fn lemma_key_index_range(keys: Seq<(usize, usize)>, key: (usize, usize), j: int)
    ensures
        key_index(keys, key, j) is Some ==> 0 <= key_index(keys, key, j)->0 < keys.len(),
    decreases keys.len() - j,
{
    if 0 <= j < keys.len() && keys[j] != key {
        lemma_key_index_range(keys, key, j + 1);
    }
}

/// Pairing keeps the number of half-edges and lists only existing half-edges as open.
proof fn lemma_pair_run_sides(
    links: Seq<HalfEdgeLinks>,
    keys: Seq<(usize, usize)>,
    edges: Seq<HalfEdgeId>,
    boundary: Seq<usize>,
    h: int,
)
    requires
        0 <= h,
        keys.len() == links.len(),
        forall|j: int| 0 <= j < boundary.len() ==> #[trigger] boundary[j] < links.len(),
    ensures
        pair_run(links, keys, edges, boundary, h) is Some ==> {
            let p = pair_run(links, keys, edges, boundary, h)->0;
            &&& p.0.len() == links.len()
            &&& forall|j: int| 0 <= j < p.2.len() ==> #[trigger] p.2[j] < links.len()
            &&& forall|x: int| 0 <= x < links.len() ==> (#[trigger] p.0[x]).face == links[x].face
        },
    decreases keys.len() - h,
{
    if h < links.len() && h < keys.len() {
        if links[h].edge.valid() {
            lemma_pair_run_sides(links, keys, edges, boundary, h + 1);
        } else {
            lemma_key_index_range(keys, reversed(keys[h]), 0);
            match key_index(keys, reversed(keys[h]), 0) {
                Some(t) => {
                    if t != h && !links[t].edge.valid() {
                        let e = edges.len();
                        let l1 = links.update(h, HalfEdgeLinks { twin: HalfEdgeId(t as u32), edge: EdgeId(e as u32), ..links[h] });
                        let l2 = l1.update(t, HalfEdgeLinks { twin: HalfEdgeId(h as u32), edge: EdgeId(e as u32), ..l1[t] });
                        lemma_pair_run_sides(l2, keys, edges.push(HalfEdgeId(h as u32)), boundary, h + 1);
                        if pair_run(links, keys, edges, boundary, h) is Some {
                            let p = pair_run(links, keys, edges, boundary, h)->0;
                            assert forall|x: int| 0 <= x < links.len() implies (#[trigger] p.0[x]).face == links[x].face by {
                                assert(p.0[x].face == l2[x].face);
                            }
                        }
                    } else if t != h {
                        lemma_pair_run_sides(links, keys, edges, boundary, h + 1);
                    }
                },
                None => {
                    lemma_pair_run_sides(links, keys, edges, boundary.push(h as usize), h + 1);
                },
            }
        }
    }
}

/// Adding ghosts over one more vertex, whose sides all end at existing vertices, gives the
/// same result with no outgoing half-edge for the new vertex.
proof fn lemma_ghosts_push(
    state: (Seq<HalfEdgeId>, Seq<HalfEdgeLinks>, Seq<HalfEdgeId>, Seq<usize>),
    keys: Seq<(usize, usize)>,
    boundary: Seq<usize>,
    k: int,
    x: HalfEdgeId,
)
    requires
        0 <= k,
        forall|j: int| 0 <= j < boundary.len() ==> #[trigger] keys[boundary[j] as int].1 < state.0.len(),
    ensures
        ghosts_run((state.0.push(x), state.1, state.2, state.3), keys, boundary, k) == {
            let g = ghosts_run(state, keys, boundary, k);
            (g.0.push(x), g.1, g.2, g.3)
        },
        ghosts_run(state, keys, boundary, k).0.len() == state.0.len(),
    decreases boundary.len() - k,
{
    if k < boundary.len() {
        let (out, links, edges, map) = state;
        let b = boundary[k] as int;
        let dest = keys[b].1;
        let bh = links.len();
        let e = edges.len();
        let l1 = links.update(b, HalfEdgeLinks { twin: HalfEdgeId(bh as u32), edge: EdgeId(e as u32), ..links[b] });
        let l2 = l1.push(
            HalfEdgeLinks {
                origin: VertexId(dest as u32),
                twin: HalfEdgeId(b as u32),
                next: HalfEdgeId(INVALID_INDEX),
                prev: HalfEdgeId(INVALID_INDEX),
                face: FaceId(INVALID_INDEX),
                edge: EdgeId(e as u32),
            },
        );
        let out2 = if !out[dest as int].valid() {
            out.update(dest as int, HalfEdgeId(bh as u32))
        } else {
            out
        };
        assert(keys[boundary[k] as int].1 < out.len());
        assert(out.push(x)[dest as int] == out[dest as int]);
        let out2x = if !out.push(x)[dest as int].valid() {
            out.push(x).update(dest as int, HalfEdgeId(bh as u32))
        } else {
            out.push(x)
        };
        assert(out2x =~= out2.push(x));
        lemma_ghosts_push((out2, l2, edges.push(HalfEdgeId(b as u32)), map.update(b, bh as usize)), keys, boundary, k + 1, x);
    }
}

/// Building over one more vertex than the polygons use adds that vertex, isolated.
proof fn lemma_built_more_vertices<L>(nv: int, fs: Seq<Polygon<L>>)
    requires
        0 <= nv,
        problem_from(nv, fs, 0) is None,
        built_topology(nv, fs) is Some,
    ensures
        built_topology(nv + 1, fs) is Some,
        built_topology(nv + 1, fs)->0.outgoing == built_topology(nv, fs)->0.outgoing.push(HalfEdgeId(INVALID_INDEX)),
        built_topology(nv + 1, fs)->0.links == built_topology(nv, fs)->0.links,
        built_topology(nv + 1, fs)->0.edges == built_topology(nv, fs)->0.edges,
        built_topology(nv + 1, fs)->0.faces == built_topology(nv, fs)->0.faces,
        built_topology(nv + 1, fs)->0.interior == built_topology(nv, fs)->0.interior,
{
    reveal(built_topology);
    let links0 = interior_links(fs);
    let keys = all_keys(fs);
    lemma_keys_in_range(nv, fs, fs.len() as int);
    assert forall|h: int| 0 <= h < links0.len() implies 0 <= (#[trigger] links0[h]).origin.idx() < no_outgoing(nv).len() by {
        let w = lemma_corner_of(fs, h, 0);
        let p = choose|q: (int, int)|
            0 <= q.0 < fs.len() && 0 <= q.1 < fs[q.0].corners.len() && h == keys_before(fs, q.0).len() + q.1;
        assert(0 <= p.0 < fs.len() && 0 <= p.1 < fs[p.0].corners.len());
        lemma_no_problem(nv, fs, 0, p.0);
        lemma_corner_more_vertices(nv, fs, p.0, 0);
        assert(corner_key(fs[p.0], p.1).0 < nv);
    }
    assert(no_outgoing(nv + 1) =~= no_outgoing(nv).push(HalfEdgeId(INVALID_INDEX)));
    lemma_first_outgoing_push(no_outgoing(nv), links0, links0.len() as int, HalfEdgeId(INVALID_INDEX));
    let out0 = first_outgoing(no_outgoing(nv), links0, links0.len() as int);
    lemma_pair_run_sides(links0, keys, Seq::empty(), Seq::empty(), 0);
    let p = pair_run(links0, keys, Seq::empty(), Seq::empty(), 0)->0;
    assert forall|j: int| 0 <= j < p.2.len() implies #[trigger] keys[p.2[j] as int].1 < out0.len() by {
        assert(p.2[j] < links0.len());
    }
    let nh = p.0.len() as int;
    let nb = p.2.len() as int;
    lemma_ghosts_push((out0, p.0, p.1, unmatched_map(nh, nb)), keys, p.2, 0, HalfEdgeId(INVALID_INDEX));
}

/// No half-edge of the list is its own twin.
pub open spec fn no_self_twin(links: Seq<HalfEdgeLinks>) -> bool {
    forall|x: int| 0 <= x < links.len() && (#[trigger] links[x]).twin.valid() ==> links[x].twin.idx() != x
}

/// Pairing never makes a half-edge its own twin.
proof fn lemma_pair_run_no_self_twin(
    links: Seq<HalfEdgeLinks>,
    keys: Seq<(usize, usize)>,
    edges: Seq<HalfEdgeId>,
    boundary: Seq<usize>,
    h: int,
)
    requires
        0 <= h,
        keys.len() == links.len(),
        links.len() < INVALID_INDEX,
        no_self_twin(links),
    ensures
        pair_run(links, keys, edges, boundary, h) is Some ==> no_self_twin((pair_run(links, keys, edges, boundary, h)->0).0),
    decreases keys.len() - h,
{
    if h < links.len() && h < keys.len() {
        if links[h].edge.valid() {
            lemma_pair_run_no_self_twin(links, keys, edges, boundary, h + 1);
        } else {
            lemma_key_index_range(keys, reversed(keys[h]), 0);
            match key_index(keys, reversed(keys[h]), 0) {
                Some(t) => {
                    if t != h && !links[t].edge.valid() {
                        let e = edges.len();
                        let l1 = links.update(h, HalfEdgeLinks { twin: HalfEdgeId(t as u32), edge: EdgeId(e as u32), ..links[h] });
                        let l2 = l1.update(t, HalfEdgeLinks { twin: HalfEdgeId(h as u32), edge: EdgeId(e as u32), ..l1[t] });
                        assert(no_self_twin(l2)) by {
                            assert forall|x: int| 0 <= x < l2.len() && (#[trigger] l2[x]).twin.valid() implies l2[x].twin.idx() != x by {
                                if x != h && x != t {
                                    assert(l2[x] == links[x]);
                                }
                            }
                        }
                        lemma_pair_run_no_self_twin(l2, keys, edges.push(HalfEdgeId(h as u32)), boundary, h + 1);
                    } else if t != h {
                        lemma_pair_run_no_self_twin(links, keys, edges, boundary, h + 1);
                    }
                },
                None => {
                    lemma_pair_run_no_self_twin(links, keys, edges, boundary.push(h as usize), h + 1);
                },
            }
        }
    }
}

/// Adding ghosts never makes a half-edge its own twin, and adds one half-edge per open side.
proof fn lemma_ghosts_no_self_twin(
    state: (Seq<HalfEdgeId>, Seq<HalfEdgeLinks>, Seq<HalfEdgeId>, Seq<usize>),
    keys: Seq<(usize, usize)>,
    boundary: Seq<usize>,
    k: int,
)
    requires
        0 <= k <= boundary.len(),
        forall|j: int| 0 <= j < boundary.len() ==> #[trigger] boundary[j] < state.1.len(),
    ensures
        no_self_twin(state.1) && state.1.len() + boundary.len() - k < INVALID_INDEX ==> no_self_twin(
            ghosts_run(state, keys, boundary, k).1,
        ),
        ghosts_run(state, keys, boundary, k).1.len() == state.1.len() + boundary.len() - k,
        forall|x: int| 0 <= x < state.1.len() ==> (#[trigger] ghosts_run(state, keys, boundary, k).1[x]).face == state.1[x].face,
        forall|x: int|
            state.1.len() <= x < state.1.len() + boundary.len() - k ==> (#[trigger] ghosts_run(state, keys, boundary, k).1[x]).face
                == FaceId(INVALID_INDEX),
    decreases boundary.len() - k,
{
    if k < boundary.len() {
        let (out, links, edges, map) = state;
        let b = boundary[k] as int;
        let dest = keys[b].1;
        let bh = links.len();
        let e = edges.len();
        let l1 = links.update(b, HalfEdgeLinks { twin: HalfEdgeId(bh as u32), edge: EdgeId(e as u32), ..links[b] });
        let l2 = l1.push(
            HalfEdgeLinks {
                origin: VertexId(dest as u32),
                twin: HalfEdgeId(b as u32),
                next: HalfEdgeId(INVALID_INDEX),
                prev: HalfEdgeId(INVALID_INDEX),
                face: FaceId(INVALID_INDEX),
                edge: EdgeId(e as u32),
            },
        );
        let out2 = if !out[dest as int].valid() {
            out.update(dest as int, HalfEdgeId(bh as u32))
        } else {
            out
        };
        if no_self_twin(state.1) && state.1.len() + boundary.len() - k < INVALID_INDEX {
            assert(b < links.len());
            assert(no_self_twin(l2)) by {
                assert forall|x: int| 0 <= x < l2.len() && (#[trigger] l2[x]).twin.valid() implies l2[x].twin.idx() != x by {
                    if x != b && x != bh {
                        assert(l2[x] == links[x]);
                    }
                }
            }
        }
        let next_state = (out2, l2, edges.push(HalfEdgeId(b as u32)), map.update(b, bh as usize));
        lemma_ghosts_no_self_twin(next_state, keys, boundary, k + 1);
        assert forall|x: int| 0 <= x < state.1.len() implies (#[trigger] ghosts_run(state, keys, boundary, k).1[x]).face == state.1[x].face by {
            assert(ghosts_run(next_state, keys, boundary, k + 1).1[x].face == l2[x].face);
        }
        assert(ghosts_run(next_state, keys, boundary, k + 1).1[bh as int].face == l2[bh as int].face);
    }
}

/// Linking the ghost rings leaves twins and the number of half-edges alone.
proof fn lemma_nexts_keep_twins(
    links: Seq<HalfEdgeLinks>,
    map: Seq<usize>,
    boundary: Seq<usize>,
    successors: Seq<usize>,
    k: int,
)
    requires
        0 <= k,
    ensures
        nexts_run(links, map, boundary, successors, k) is Some ==> {
            let r = nexts_run(links, map, boundary, successors, k)->0;
            &&& r.len() == links.len()
            &&& forall|x: int| 0 <= x < links.len() ==> (#[trigger] r[x]).twin == links[x].twin && r[x].face == links[x].face
        },
    decreases boundary.len() - k,
{
    if k < boundary.len() {
        let bh = map[boundary[k] as int] as int;
        let nx = map[successors[k] as int] as int;
        if bh < links.len() && nx < links.len() {
            let l1 = links.update(bh, HalfEdgeLinks { next: HalfEdgeId(nx as u32), ..links[bh] });
            let l2 = l1.update(nx, HalfEdgeLinks { prev: HalfEdgeId(bh as u32), ..l1[nx] });
            lemma_nexts_keep_twins(l2, map, boundary, successors, k + 1);
            if nexts_run(links, map, boundary, successors, k) is Some {
                let r = nexts_run(links, map, boundary, successors, k)->0;
                assert forall|x: int| 0 <= x < links.len() implies (#[trigger] r[x]).twin == links[x].twin && r[x].face == links[x].face by {
                    assert(r[x].twin == l2[x].twin && r[x].face == l2[x].face);
                }
            }
        }
    }
}

proof fn lemma_walk_face_keeps_twins(
    links: Seq<HalfEdgeLinks>,
    visited: Seq<bool>,
    start: int,
    cursor: int,
    face: int,
    steps: int,
    nh: int,
    total: int,
)
    requires
        0 <= cursor < links.len(),
        0 <= nh <= cursor,
        total <= links.len(),
    ensures
        walk_face(links, visited, start, cursor, face, steps, nh, total) is Some ==> {
            let r = walk_face(links, visited, start, cursor, face, steps, nh, total)->0;
            &&& r.0.len() == links.len()
            &&& forall|x: int| 0 <= x < links.len() ==> (#[trigger] r.0[x]).twin == links[x].twin && r.0[x].next == links[x].next && (x < nh ==> r.0[x].face
                == links[x].face)
        },
    decreases total - steps,
{
    if 0 <= steps < total {
        let l2 = links.update(cursor, HalfEdgeLinks { face: FaceId(face as u32), ..links[cursor] });
        let f = l2[cursor].next.idx();
        if f != start && !(f < nh || f >= total) {
            lemma_walk_face_keeps_twins(l2, visited.update(cursor, true), start, f, face, steps + 1, nh, total);
            if walk_face(links, visited, start, cursor, face, steps, nh, total) is Some {
                let r = walk_face(links, visited, start, cursor, face, steps, nh, total)->0;
                assert forall|x: int| 0 <= x < links.len() implies (#[trigger] r.0[x]).twin == links[x].twin && r.0[x].next == links[x].next
                    && (x < nh ==> r.0[x].face == links[x].face) by {
                    assert(r.0[x].twin == l2[x].twin && r.0[x].next == l2[x].next && (x < nh ==> r.0[x].face == l2[x].face));
                }
            }
        }
    }
}

/// Numbering the boundary loops leaves twins and the number of half-edges alone.
proof fn lemma_faces_keep_twins(
    links: Seq<HalfEdgeLinks>,
    visited: Seq<bool>,
    records: Seq<FaceRecord>,
    k: int,
    nh: int,
    nb: int,
)
    requires
        0 <= k,
        0 <= nh,
        nh + nb <= links.len(),
    ensures
        faces_run(links, visited, records, k, nh, nb) is Some ==> {
            let r = faces_run(links, visited, records, k, nh, nb)->0;
            &&& r.0.len() == links.len()
            &&& forall|x: int| 0 <= x < links.len() ==> (#[trigger] r.0[x]).twin == links[x].twin && r.0[x].next == links[x].next && (x < nh ==> r.0[x].face
                == links[x].face)
        },
    decreases nb - k,
{
    if k < nb {
        if visited[nh + k] {
            lemma_faces_keep_twins(links, visited, records, k + 1, nh, nb);
        } else {
            lemma_walk_face_keeps_twins(links, visited, nh + k, nh + k, records.len() as int, 0, nh, nh + nb);
            let w = walk_face(links, visited, nh + k, nh + k, records.len() as int, 0, nh, nh + nb);
            if w is Some {
                let walked = w->0;
                lemma_faces_keep_twins(walked.0, walked.1, records.push(boundary_record(nh + k)), k + 1, nh, nb);
                if faces_run(links, visited, records, k, nh, nb) is Some {
                    let r = faces_run(links, visited, records, k, nh, nb)->0;
                    assert forall|x: int| 0 <= x < links.len() implies (#[trigger] r.0[x]).twin == links[x].twin && r.0[x].next == links[x].next
                    && (x < nh ==> r.0[x].face == links[x].face) by {
                        assert(r.0[x].twin == walked.0[x].twin && r.0[x].next == walked.0[x].next && (x < nh ==> r.0[x].face == walked.0[x].face));
                    }
                }
            }
        }
    }
}

/// A face walk reads only the `next` pointers.
proof fn lemma_walk_same_next(a: Seq<HalfEdgeLinks>, b: Seq<HalfEdgeLinks>, start: HalfEdgeId, cur: HalfEdgeId, fuel: nat)
    requires
        a.len() == b.len(),
        forall|x: int| 0 <= x < a.len() ==> (#[trigger] a[x]).next == b[x].next && a[x].next.idx() < a.len(),
        cur.idx() < a.len(),
    ensures
        walk(a, start, cur, fuel, false) == walk(b, start, cur, fuel, false),
    decreases fuel,
{
    if fuel > 0 {
        let n = a[cur.idx()].next;
        assert(n == b[cur.idx()].next);
        if n != start {
            lemma_walk_same_next(a, b, start, n, (fuel - 1) as nat);
        }
    }
}

/// Walking one boundary loop gives its face exactly to the half-edges of the face walk
/// from the loop's start, and touches nothing else.
proof fn lemma_walk_face_covers(
    links: Seq<HalfEdgeLinks>,
    visited: Seq<bool>,
    start: int,
    cursor: int,
    face: int,
    steps: int,
    nh: int,
    total: int,
)
    requires
        0 <= nh <= cursor < total,
        nh <= start < total,
        total == links.len(),
        total < INVALID_INDEX,
        0 <= steps,
        forall|x: int| 0 <= x < links.len() ==> (#[trigger] links[x]).next.idx() < links.len(),
        walk_face(links, visited, start, cursor, face, steps, nh, total) is Some,
    ensures
        ({
            let r = walk_face(links, visited, start, cursor, face, steps, nh, total)->0;
            let w = walk(links, HalfEdgeId(start as u32), HalfEdgeId(cursor as u32), (total - steps) as nat, false);
            &&& r.0.len() == links.len()
            &&& forall|x: int|
                0 <= x < links.len() ==> {
                    &&& (#[trigger] r.0[x]).next == links[x].next
                    &&& (w.contains(HalfEdgeId(x as u32)) ==> r.0[x].face == FaceId(face as u32))
                    &&& (!w.contains(HalfEdgeId(x as u32)) ==> r.0[x].face == links[x].face)
                }
        }),
    decreases total - steps,
{
    let l2 = links.update(cursor, HalfEdgeLinks { face: FaceId(face as u32), ..links[cursor] });
    let v2 = visited.update(cursor, true);
    let f = l2[cursor].next.idx();
    let r = walk_face(links, visited, start, cursor, face, steps, nh, total)->0;
    let c = HalfEdgeId(cursor as u32);
    let st = HalfEdgeId(start as u32);
    let w = walk(links, st, c, (total - steps) as nat, false);
    assert(links[cursor].next == HalfEdgeId(f as u32));
    if f == start {
        assert(w =~= seq![c]);
        assert forall|x: int| 0 <= x < links.len() implies {
            &&& (#[trigger] r.0[x]).next == links[x].next
            &&& (w.contains(HalfEdgeId(x as u32)) ==> r.0[x].face == FaceId(face as u32))
            &&& (!w.contains(HalfEdgeId(x as u32)) ==> r.0[x].face == links[x].face)
        } by {
            if x == cursor {
                assert(w[0] == HalfEdgeId(x as u32));
            } else {
                if w.contains(HalfEdgeId(x as u32)) {
                    let j = choose|j: int| 0 <= j < w.len() && w[j] == HalfEdgeId(x as u32);
                    assert(w[j] == c);
                }
            }
        }
    } else {
        lemma_walk_face_covers(l2, v2, start, f, face, steps + 1, nh, total);
        let w2 = walk(l2, st, HalfEdgeId(f as u32), (total - steps - 1) as nat, false);
        assert forall|x: int| 0 <= x < l2.len() implies (#[trigger] l2[x]).next == links[x].next && l2[x].next.idx() < l2.len() by {}
        lemma_walk_same_next(l2, links, st, HalfEdgeId(f as u32), (total - steps - 1) as nat);
        assert(w =~= seq![c] + w2);
        assert forall|x: int| 0 <= x < links.len() implies {
            &&& (#[trigger] r.0[x]).next == links[x].next
            &&& (w.contains(HalfEdgeId(x as u32)) ==> r.0[x].face == FaceId(face as u32))
            &&& (!w.contains(HalfEdgeId(x as u32)) ==> r.0[x].face == links[x].face)
        } by {
            assert(r.0[x].next == l2[x].next);
            if x == cursor {
                assert(w[0] == HalfEdgeId(x as u32));
                if !w2.contains(HalfEdgeId(x as u32)) {
                    assert(r.0[x].face == l2[x].face);
                }
            } else {
                assert(l2[x] == links[x]);
                if w.contains(HalfEdgeId(x as u32)) {
                    let j = choose|j: int| 0 <= j < w.len() && w[j] == HalfEdgeId(x as u32);
                    assert(j > 0);
                    assert(w2[j - 1] == HalfEdgeId(x as u32));
                } else {
                    if w2.contains(HalfEdgeId(x as u32)) {
                        let j = choose|j: int| 0 <= j < w2.len() && w2[j] == HalfEdgeId(x as u32);
                        assert(w[j + 1] == HalfEdgeId(x as u32));
                    }
                }
            }
        }
    }
}

/// Every ghost half-edge with a boundary face lies on the face walk from that face's
/// first half-edge; every such face's first half-edge is a ghost.
pub open spec fn ghosts_on_their_loops(links: Seq<HalfEdgeLinks>, records: Seq<FaceRecord>, nh: int, total: int, base: int) -> bool {
    &&& forall|f: int| base <= f < records.len() ==> nh <= (#[trigger] records[f]).halfedge.idx() < total
    &&& forall|x: int| nh <= x < total ==> (#[trigger] links[x]).face.idx() >= base
    &&& forall|x: int| nh <= x < total ==> (#[trigger] links[x]).face.idx() < records.len() || !links[x].face.valid()
    &&& forall|x: int|
        nh <= x < total && (#[trigger] links[x]).face.idx() < records.len() ==> walk(
            links,
            records[links[x].face.idx()].halfedge,
            records[links[x].face.idx()].halfedge,
            total as nat,
            false,
        ).contains(HalfEdgeId(x as u32))
}

/// Numbering the boundary loops puts every ghost it names on the loop of its face.
proof fn lemma_faces_run_covers(
    links: Seq<HalfEdgeLinks>,
    visited: Seq<bool>,
    records: Seq<FaceRecord>,
    k: int,
    nh: int,
    nb: int,
    base: int,
)
    requires
        0 <= k,
        0 <= nh,
        0 <= nb,
        0 <= base <= records.len(),
        links.len() == nh + nb,
        nh + nb < INVALID_INDEX,
        forall|x: int| 0 <= x < links.len() ==> (#[trigger] links[x]).next.idx() < links.len(),
        ghosts_on_their_loops(links, records, nh, nh + nb, base),
        faces_run(links, visited, records, k, nh, nb) is Some,
        (faces_run(links, visited, records, k, nh, nb)->0).1.len() < INVALID_INDEX,
    ensures
        ghosts_on_their_loops(
            (faces_run(links, visited, records, k, nh, nb)->0).0,
            (faces_run(links, visited, records, k, nh, nb)->0).1,
            nh,
            nh + nb,
            base,
        ),
    decreases nb - k,
{
    if k < nb {
        if visited[nh + k] {
            lemma_faces_run_covers(links, visited, records, k + 1, nh, nb, base);
        } else {
            let total = nh + nb;
            let start = nh + k;
            let fc = records.len() as int;
            let w = walk_face(links, visited, start, start, fc, 0, nh, total);
            lemma_walk_face_covers(links, visited, start, start, fc, 0, nh, total);
            let walked = w->0;
            let r2 = records.push(boundary_record(start));
            lemma_faces_run_records(walked.0, walked.1, r2, r2, k + 1, nh, nb);
            assert(fc + 1 < INVALID_INDEX);
            let st = HalfEdgeId(start as u32);
            let loop_walk = walk(links, st, st, total as nat, false);
            assert forall|x: int| 0 <= x < walked.0.len() implies (#[trigger] walked.0[x]).next == links[x].next && walked.0[x].next.idx() < walked.0.len() by {}
            assert(ghosts_on_their_loops(walked.0, r2, nh, total, base)) by {
                assert forall|f: int| base <= f < r2.len() implies nh <= (#[trigger] r2[f]).halfedge.idx() < total by {
                    if f < records.len() {
                        assert(r2[f] == records[f]);
                    }
                }
                assert forall|x: int| nh <= x < total implies (#[trigger] walked.0[x]).face.idx() >= base by {
                    if loop_walk.contains(HalfEdgeId(x as u32)) {
                        assert(walked.0[x].face == FaceId(fc as u32));
                    }
                }
                assert forall|x: int| nh <= x < total implies (#[trigger] walked.0[x]).face.idx() < r2.len() || !walked.0[x].face.valid() by {
                    if loop_walk.contains(HalfEdgeId(x as u32)) {
                        assert(walked.0[x].face == FaceId(fc as u32));
                    } else {
                        assert(walked.0[x].face == links[x].face);
                    }
                }
                assert forall|x: int|
                    nh <= x < total && (#[trigger] walked.0[x]).face.idx() < r2.len() implies walk(
                        walked.0,
                        r2[walked.0[x].face.idx()].halfedge,
                        r2[walked.0[x].face.idx()].halfedge,
                        total as nat,
                        false,
                    ).contains(HalfEdgeId(x as u32)) by {
                    let g = walked.0[x].face.idx();
                    let h0 = r2[g].halfedge;
                    assert(nh <= h0.idx() < total) by {
                        if g < records.len() {
                            assert(r2[g] == records[g]);
                        }
                    }
                    lemma_walk_same_next(walked.0, links, h0, h0, total as nat);
                    if loop_walk.contains(HalfEdgeId(x as u32)) {
                        assert(walked.0[x].face == FaceId(fc as u32));
                        assert(g == fc);
                        assert(r2[g] == boundary_record(start));
                    } else {
                        assert(walked.0[x].face == links[x].face);
                        assert(g < records.len());
                        assert(r2[g] == records[g]);
                    }
                }
            }
            lemma_faces_run_covers(walked.0, walked.1, r2, k + 1, nh, nb, base);
        }
    }
}

/// In a valid built mesh every half-edge of a boundary face lies on that face's loop.
pub proof fn lemma_built_boundary_loops<L>(nv: int, fs: Seq<Polygon<L>>)
    requires
        built_topology(nv, fs) is Some,
        built_topology(nv, fs)->0.wf(),
        problem_from(nv, fs, 0) is None,
        snapshot_fits(nv, fs),
    ensures
        ({
            let t = built_topology(nv, fs)->0;
            forall|x: int|
                0 <= x < t.nh() && (#[trigger] t.links[x]).face.idx() >= t.interior ==> t.face_loop(
                    t.links[x].face.idx(),
                ).contains(HalfEdgeId(x as u32))
        }),
{
    reveal(built_topology);
    let t = built_topology(nv, fs)->0;
    let links0 = interior_links(fs);
    let keys = all_keys(fs);
    let out0 = first_outgoing(no_outgoing(nv), links0, links0.len() as int);
    lemma_keys_before_mono(fs, 0, fs.len() as int);
    lemma_pair_run_sides(links0, keys, Seq::empty(), Seq::empty(), 0);
    let p = pair_run(links0, keys, Seq::empty(), Seq::empty(), 0)->0;
    let nh = p.0.len() as int;
    let nb = p.2.len() as int;
    let total = nh + nb;
    let g = ghosts_run((out0, p.0, p.1, unmatched_map(nh, nb)), keys, p.2, 0);
    let succ = walk_successors(p.0, p.2);
    let linked = nexts_run(g.1, g.3, p.2, succ, 0)->0;
    let r0 = interior_records(fs);
    lemma_ghosts_no_self_twin((out0, p.0, p.1, unmatched_map(nh, nb)), keys, p.2, 0);
    lemma_nexts_keep_twins(g.1, g.3, p.2, succ, 0);
    lemma_faces_keep_twins(linked, unvisited(total), r0, 0, nh, nb);
    let fr = faces_run(linked, unvisited(total), r0, 0, nh, nb)->0;
    assert(t.links == fr.0 && t.faces == fr.1 && t.interior == fs.len());
    assert(total < INVALID_INDEX);
    assert forall|x: int| 0 <= x < linked.len() implies (#[trigger] linked[x]).next.idx() < linked.len() by {
        assert(t.link_ok(x));
        assert(fr.0[x].next == linked[x].next);
    }
    assert(ghosts_on_their_loops(linked, r0, nh, total, fs.len() as int)) by {
        assert forall|x: int| nh <= x < total implies (#[trigger] linked[x]).face.idx() >= fs.len() && !linked[x].face.valid() by {
            assert(linked[x].face == g.1[x].face);
            assert(g.1[x].face == FaceId(INVALID_INDEX));
        }
    }
    lemma_faces_run_covers(linked, unvisited(total), r0, 0, nh, nb, fs.len() as int);
    assert forall|x: int|
        0 <= x < t.nh() && (#[trigger] t.links[x]).face.idx() >= t.interior implies t.face_loop(t.links[x].face.idx()).contains(
        HalfEdgeId(x as u32),
    ) by {
        if x < nh {
            let w = lemma_corner_of(fs, x, 0);
            let q = choose|q: (int, int)|
                0 <= q.0 < fs.len() && 0 <= q.1 < fs[q.0].corners.len() && x == keys_before(fs, q.0).len() + q.1;
            assert(links0[x] == interior_link(fs, x));
            assert(0 <= q.0 < fs.len());
            assert(links0[x].face.idx() < fs.len());
            assert(t.links[x].face == linked[x].face);
            assert(linked[x].face == g.1[x].face);
            assert(g.1[x].face == p.0[x].face);
        } else {
            assert(t.link_ok(x));
            assert(walk_cap(t.links) == total);
        }
    }
}

/// No half-edge of a built mesh is its own twin.
pub proof fn lemma_built_no_self_twin<L>(nv: int, fs: Seq<Polygon<L>>)
    requires
        built_topology(nv, fs) is Some,
        built_topology(nv, fs)->0.nh() < INVALID_INDEX,
        problem_from(nv, fs, 0) is None,
    ensures
        no_self_twin(built_topology(nv, fs)->0.links),
{
    reveal(built_topology);
    let links0 = interior_links(fs);
    let keys = all_keys(fs);
    let out0 = first_outgoing(no_outgoing(nv), links0, links0.len() as int);
    lemma_keys_before_mono(fs, 0, fs.len() as int);
    assert(links0.len() == keys.len());
    lemma_pair_run_sides(links0, keys, Seq::empty(), Seq::empty(), 0);
    let p = pair_run(links0, keys, Seq::empty(), Seq::empty(), 0)->0;
    let nh = p.0.len() as int;
    let nb = p.2.len() as int;
    let g = ghosts_run((out0, p.0, p.1, unmatched_map(nh, nb)), keys, p.2, 0);
    let linked = nexts_run(g.1, g.3, p.2, walk_successors(p.0, p.2), 0)->0;
    lemma_ghosts_no_self_twin((out0, p.0, p.1, unmatched_map(nh, nb)), keys, p.2, 0);
    lemma_nexts_keep_twins(g.1, g.3, p.2, walk_successors(p.0, p.2), 0);
    lemma_faces_keep_twins(linked, unvisited(nh + nb), interior_records(fs), 0, nh, nb);
    assert(nh + nb < INVALID_INDEX);
    assert(links0.len() < INVALID_INDEX);
    assert(no_self_twin(links0)) by {
        assert forall|x: int| 0 <= x < links0.len() && (#[trigger] links0[x]).twin.valid() implies links0[x].twin.idx() != x by {
            assert(links0[x] == interior_link(fs, x));
        }
    }
    lemma_pair_run_no_self_twin(links0, keys, Seq::empty(), Seq::empty(), 0);
    let t = built_topology(nv, fs)->0;
    assert forall|x: int| 0 <= x < t.links.len() && (#[trigger] t.links[x]).twin.valid() implies t.links[x].twin.idx() != x by {
        assert(t.links[x].twin == linked[x].twin);
        assert(linked[x].twin == g.1[x].twin);
    }
}

/// Adding an isolated vertex keeps a mesh the canonical build of its polygons.
pub proof fn lemma_new_vertex_keeps_canonical<V, L>(m0: HalfEdgeMesh<V, L>, m1: HalfEdgeMesh<V, L>)
    requires
        m0.canonical(),
        m0.nv() + 1 < INVALID_INDEX,
        m1.topology().outgoing == m0.topology().outgoing.push(HalfEdgeId(INVALID_INDEX)),
        m1.topology().links == m0.topology().links,
        m1.topology().edges == m0.topology().edges,
        m1.topology().faces == m0.topology().faces,
        m1.interior() == m0.interior(),
        m1.vertex_data_view().len() == m0.vertex_data_view().len() + 1,
        m1.loop_data_view() == m0.loop_data_view(),
        m1.topology().wf(),
    ensures
        m1.canonical(),
{
    let nv = m0.nv();
    let ps = m0.polygons();
    assert forall|i: int| 0 <= i < m0.interior() implies #[trigger] m1.polygon(i) == m0.polygon(i) by {
        assert(m1.topology().face_loop(i) == m0.topology().face_loop(i));
        assert(m1.polygon(i).corners =~= m0.polygon(i).corners);
        assert(m1.polygon(i).loops =~= m0.polygon(i).loops);
    }
    assert(m1.polygons() =~= ps);
    lemma_problem_more_vertices(nv, ps, 0);
    lemma_built_more_vertices(nv, ps);
}

/// Changing face metadata alone keeps a mesh the canonical build of its polygons.
pub proof fn lemma_face_data_keeps_canonical<V, L>(m0: HalfEdgeMesh<V, L>, m1: HalfEdgeMesh<V, L>)
    requires
        m0.canonical(),
        m1.topology().outgoing == m0.topology().outgoing,
        m1.topology().links == m0.topology().links,
        m1.topology().edges == m0.topology().edges,
        m1.interior() == m0.interior(),
        m1.topology().faces.len() == m0.topology().faces.len(),
        forall|f: int|
            0 <= f < m0.topology().faces.len() ==> (#[trigger] m1.topology().faces[f]).halfedge == m0.topology().faces[f].halfedge
                && m1.topology().faces[f].kind == m0.topology().faces[f].kind,
        m1.vertex_data_view() == m0.vertex_data_view(),
        m1.loop_data_view() == m0.loop_data_view(),
        m1.topology().wf(),
    ensures
        m1.canonical(),
{
    let nv = m0.nv();
    let a = m0.polygons();
    let b = m1.polygons();
    assert forall|i: int| 0 <= i < a.len() implies (#[trigger] a[i]).corners == b[i].corners && a[i].loops == b[i].loops && b[i].data == m1.topology().faces[i].data by {
        assert(a[i] == m0.polygon(i));
        assert(b[i] == m1.polygon(i));
        assert(m1.topology().face_loop(i) == m0.topology().face_loop(i));
        assert(m0.polygon(i).corners =~= m1.polygon(i).corners);
        assert(m0.polygon(i).loops =~= m1.polygon(i).loops);
    }
    lemma_built_same_corners(nv, a, b);
    assert forall|i: int| 0 <= i < a.len() implies (#[trigger] a[i]).loops.len() == 0 || a[i].loops.len() == a[i].corners.len() by {
        assert(a[i] == m0.polygon(i));
    }
    assert forall|i: int| 0 <= i < b.len() implies (#[trigger] b[i]).loops.len() == 0 || b[i].loops.len() == b[i].corners.len() by {
        assert(a[i].loops == b[i].loops && a[i].corners == b[i].corners);
    }
    lemma_problem_same_corners(nv, a, b, 0);
    let tb = built_topology(nv, b)->0;
    let ta = built_topology(nv, a)->0;
    assert forall|f: int| 0 <= f < tb.faces.len() implies {
        &&& (#[trigger] tb.faces[f]).halfedge == m1.topology().faces[f].halfedge
        &&& tb.faces[f].kind == m1.topology().faces[f].kind
        &&& (f < m1.interior() ==> tb.faces[f].data == m1.topology().faces[f].data)
    } by {
        assert(ta.faces[f].halfedge == tb.faces[f].halfedge);
        assert(ta.faces[f].halfedge == m0.topology().faces[f].halfedge);
        if f < m1.interior() {
            assert(tb.faces[f] == interior_records(b)[f]);
        }
    }
}

/// Changing loop payloads alone keeps a mesh the canonical build of its polygons.
pub proof fn lemma_loops_keep_canonical<V, L>(m0: HalfEdgeMesh<V, L>, m1: HalfEdgeMesh<V, L>)
    requires
        m0.canonical(),
        m1.topology() == m0.topology(),
        m1.vertex_data_view().len() == m0.vertex_data_view().len(),
        m1.loop_data_view().len() == m0.loop_data_view().len(),
    ensures
        m1.canonical(),
{
    let a = m0.polygons();
    let b = m1.polygons();
    assert forall|i: int| 0 <= i < a.len() implies (#[trigger] a[i]).corners == b[i].corners && a[i].data == b[i].data by {
        assert(a[i] == m0.polygon(i));
        assert(b[i] == m1.polygon(i));
        assert(m0.polygon(i).corners =~= m1.polygon(i).corners);
    }
    lemma_built_same_shape(m0.nv(), a, b);
    assert forall|i: int| 0 <= i < a.len() implies (#[trigger] a[i]).loops.len() == 0 || a[i].loops.len() == a[i].corners.len() by {
        assert(a[i] == m0.polygon(i));
    }
    assert forall|i: int| 0 <= i < b.len() implies (#[trigger] b[i]).loops.len() == 0 || b[i].loops.len() == b[i].corners.len() by {
        assert(b[i] == m1.polygon(i));
    }
    lemma_problem_same_corners(m0.nv(), a, b, 0);
}

/// Adds one ghost half-edge per unpaired half-edge, links the ghosts into loops, and
/// gives each loop a boundary face.
#[verifier::rlimit(40)]
fn close_boundaries<L: Copy>(
    outgoing: &mut Vec<HalfEdgeId>,
    links: &mut Vec<HalfEdgeLinks>,
    loops: &mut Vec<L>,
    keys: &Vec<(usize, usize)>,
    records: &mut Vec<FaceRecord>,
    edges: &mut Vec<HalfEdgeId>,
    boundary: &Vec<usize>,
    successors: &Vec<usize>,
    d: L,
) -> (r: Result<(), MeshError>)
    requires
        keys@.len() == old(links)@.len(),
        old(loops)@.len() == old(links)@.len(),
        successors@.len() == boundary@.len(),
        old(links)@.len() + boundary@.len() < INVALID_INDEX,
        old(edges)@.len() <= old(links)@.len(),
        old(records)@.len() + boundary@.len() < INVALID_INDEX,
        forall|k: int| 0 <= k < boundary@.len() ==> #[trigger] boundary@[k] < old(links)@.len(),
        forall|k: int| 0 <= k < successors@.len() ==> #[trigger] successors@[k] < old(links)@.len(),
        forall|h: int| 0 <= h < keys@.len() ==> (#[trigger] keys@[h]).1 < old(outgoing)@.len(),
        forall|i: int, j: int| 0 <= i < j < boundary@.len() ==> boundary@[i] < boundary@[j],
        old(outgoing)@.len() < INVALID_INDEX,
    ensures
        r is Err ==> r->Err_0 is Validation,
        r is Ok ==> final(outgoing)@.len() == old(outgoing)@.len(),
        r is Ok ==> final(links)@.len() == old(links)@.len() + boundary@.len(),
        r is Ok ==> final(loops)@.len() == final(links)@.len(),
        r is Ok ==> final(edges)@.len() == old(edges)@.len() + boundary@.len(),
        r is Ok ==> final(records)@.len() >= old(records)@.len(),
        r is Ok ==> final(records)@.len() <= old(records)@.len() + boundary@.len(),
        r is Ok ==> forall|x: int| 0 <= x < old(records)@.len() ==> #[trigger] final(records)@[x] == old(records)@[x],
        r is Ok ==> forall|x: int| old(records)@.len() <= x < final(records)@.len() ==> (#[trigger] final(records)@[x]).kind == FaceKind::Boundary,
        r is Ok ==> forall|y: int| old(links)@.len() <= y < final(links)@.len() ==> #[trigger] final(links)@[y].face.idx() >= old(records)@.len(),
        r is Ok ==> forall|j: int| 0 <= j < boundary@.len() ==> {
            &&& final(links)@[#[trigger] boundary@[j] as int].twin.idx() == old(links)@.len() + j
            &&& final(links)@[old(links)@.len() + j].origin.idx() == keys@[boundary@[j] as int].1
            &&& final(links)@[old(links)@.len() + j].twin.idx() == boundary@[j]
        },
        r is Ok ==> forall|x: int|
            0 <= x < old(links)@.len() && !boundary@.contains(x as usize) ==> #[trigger] final(links)@[x].twin == old(links)@[x].twin,
        r is Ok ==> forall|k: int|
            0 <= k < boundary@.len() ==> {
                let g = (#[trigger] final(links)@[old(links)@.len() + k]).next.idx() - old(links)@.len();
                &&& 0 <= g < boundary@.len()
                &&& boundary@[g] == successors@[k]
            },
        r is Ok ==> forall|x: int|
            0 <= x < old(links)@.len() ==> {
                &&& (#[trigger] final(links)@[x]).origin == old(links)@[x].origin
                &&& final(links)@[x].next == old(links)@[x].next
                &&& final(links)@[x].prev == old(links)@[x].prev
                &&& final(links)@[x].face == old(links)@[x].face
                &&& final(loops)@[x] == old(loops)@[x]
            },
        r is Err ==> close_run(old(outgoing)@, old(links)@, old(edges)@, old(records)@, keys@, boundary@, successors@) is None,
        r is Ok ==> close_run(old(outgoing)@, old(links)@, old(edges)@, old(records)@, keys@, boundary@, successors@) == Some(
            (final(outgoing)@, final(links)@, final(edges)@, final(records)@),
        ),
{
    let nh = links.len();
    let nb = boundary.len();
    let ghost g = ghosts_run((old(outgoing)@, old(links)@, old(edges)@, unmatched_map(nh as int, nb as int)), keys@, boundary@, 0);
    let ghost base_links = links@;
    let ghost base_loops = loops@;
    let ghost base_records = records@;
    let ghost e0 = edges@.len();
    let mut map: Vec<usize> = Vec::new();
    let mut x: usize = 0;
    while x < nh
        invariant
            x <= nh,
            nh + nb < INVALID_INDEX,
            map@.len() == x,
            forall|y: int| 0 <= y < x ==> #[trigger] map@[y] == nh + nb,
        decreases nh - x,
    {
        map.push(nh + nb);
        x = x + 1;
    }
    proof {
        assert(map@ =~= unmatched_map(nh as int, nb as int));
    }
    let mut k: usize = 0;
    while k < nb
        invariant
            nh == base_links.len(),
            nb == boundary@.len(),
            nh + nb < INVALID_INDEX,
            keys@.len() == nh,
            k <= nb,
            links@.len() == nh + k,
            loops@.len() == nh + k,
            edges@.len() == e0 + k,
            e0 <= nh,
            map@.len() == nh,
            ghosts_run((outgoing@, links@, edges@, map@), keys@, boundary@, k as int) == g,
            outgoing@.len() == old(outgoing)@.len(),
            forall|y: int| nh <= y < links@.len() ==> #[trigger] links@[y].face.idx() >= base_records.len(),
            records@ == base_records,
            base_records.len() + nb < INVALID_INDEX,
            forall|i: int, j: int| 0 <= i < j < nb ==> boundary@[i] < boundary@[j],
            outgoing@.len() < INVALID_INDEX,
            forall|j: int| 0 <= j < k ==> {
                &&& links@[#[trigger] boundary@[j] as int].twin.idx() == nh + j
                &&& links@[nh + j].origin.idx() == keys@[boundary@[j] as int].1
                &&& links@[nh + j].twin.idx() == boundary@[j]
            },
            forall|x: int|
                0 <= x < nh && (forall|j: int| 0 <= j < k ==> boundary@[j] != x) ==> #[trigger] links@[x].twin == base_links[x].twin,
            forall|j: int| 0 <= j < k ==> #[trigger] map@[boundary@[j] as int] == nh + j,
            forall|y: int|
                0 <= y < nh ==> #[trigger] map@[y] == nh + nb || exists|j: int| 0 <= j < k && boundary@[j] == y && map@[y] == nh + j,
            forall|y: int| 0 <= y < nh ==> #[trigger] map@[y] <= nh + nb,
            forall|y: int| 0 <= y < nh ==> #[trigger] map@[y] >= nh,
            forall|j: int| 0 <= j < nb ==> #[trigger] boundary@[j] < nh,
            forall|h: int| 0 <= h < nh ==> (#[trigger] keys@[h]).1 < outgoing@.len(),
            forall|y: int|
                0 <= y < nh ==> {
                    &&& (#[trigger] links@[y]).origin == base_links[y].origin
                    &&& links@[y].next == base_links[y].next
                    &&& links@[y].prev == base_links[y].prev
                    &&& links@[y].face == base_links[y].face
                    &&& loops@[y] == base_loops[y]
                },
        decreases nb - k,
    {
        let ghost st = (outgoing@, links@, edges@, map@);
        let b = boundary[k];
        let dest = keys[b].1;
        let bh = links.len();
        let e = edges.len();
        edges.push(HalfEdgeId(b as u32));
        let ghost before_twin = links@;
        set_twin_edge(links, b, bh, e);
        proof {
            assert forall|y: int| nh <= y < links@.len() implies #[trigger] links@[y].face.idx() >= base_records.len() by {
                assert(links@[y] == before_twin[y]);
            }
            assert forall|j: int| 0 <= j < k implies #[trigger] boundary@[j] != b by {
                assert(boundary@[j] < boundary@[k as int]);
            }
        }
        links.push(HalfEdgeLinks {
            origin: VertexId(dest as u32),
            twin: HalfEdgeId(b as u32),
            next: HalfEdgeId(INVALID_INDEX),
            prev: HalfEdgeId(INVALID_INDEX),
            face: FaceId(INVALID_INDEX),
            edge: EdgeId(e as u32),
        });
        loops.push(d);
        if !outgoing[dest].is_valid() {
            outgoing.set(dest, HalfEdgeId(bh as u32));
        }
        let ghost map_before = map@;
        map.set(b, bh);
        proof {
            assert forall|j: int| 0 <= j < k + 1 implies #[trigger] map@[boundary@[j] as int] == nh + j by {
                if j < k {
                    assert(boundary@[j] != b);
                }
            }
            assert forall|y: int| 0 <= y < nh implies #[trigger] map@[y] == nh + nb || exists|j: int|
                0 <= j < k + 1 && boundary@[j] == y && map@[y] == nh + j by {
                if y == b {
                    assert(boundary@[k as int] == y && map@[y] == nh + k);
                } else {
                    assert(map@[y] == map_before[y]);
                }
            }
            assert forall|j: int| 0 <= j < k + 1 implies {
                &&& links@[#[trigger] boundary@[j] as int].twin.idx() == nh + j
                &&& links@[nh + j].origin.idx() == keys@[boundary@[j] as int].1
                &&& links@[nh + j].twin.idx() == boundary@[j]
            } by {
                if j == k {
                    assert(links@[nh + j].origin == VertexId(dest as u32));
                    assert(dest < outgoing@.len());
                } else {
                    assert(boundary@[j] != b);
                    assert(links@[boundary@[j] as int] == before_twin[boundary@[j] as int]);
                    assert(links@[nh + j] == before_twin[nh + j]);
                }
            }
            assert forall|x: int|
                0 <= x < nh && (forall|j: int| 0 <= j < k + 1 ==> boundary@[j] != x) implies #[trigger] links@[x].twin
                == base_links[x].twin by {
                assert(boundary@[k as int] != x);
                assert(links@[x] == before_twin[x]);
            }
            assert(ghosts_run(st, keys@, boundary@, k as int) == ghosts_run((outgoing@, links@, edges@, map@), keys@, boundary@, k as int + 1));
        }
        k = k + 1;
    }
    proof {
        assert(outgoing@ == g.0 && links@ == g.1 && edges@ == g.2 && map@ == g.3);
    }
    let total = links.len();
    proof {
        assert forall|y: int| 0 <= y < nh implies #[trigger] loops@[y] == base_loops[y] by {
            assert(links@[y].origin == base_links[y].origin);
        }
    }
    let ghost loops_done = loops@;
    let ghost created = links@;
    let ghost outgoing_done = outgoing@;
    let ghost edges_done = edges@;
    let mut k: usize = 0;
    while k < nb
        invariant
            loops@ == loops_done,
            outgoing@ == outgoing_done,
            edges@ == edges_done,
            records@ == base_records,
            base_records == old(records)@,
            g == ghosts_run((old(outgoing)@, old(links)@, old(edges)@, unmatched_map(nh as int, nb as int)), keys@, boundary@, 0),
            nh == old(links)@.len(),
            nb == boundary@.len(),
            outgoing_done == g.0,
            edges_done == g.2,
            map@ == g.3,
            nexts_run(links@, map@, boundary@, successors@, k as int) == nexts_run(g.1, g.3, boundary@, successors@, 0),
            nh == base_links.len(),
            nb == boundary@.len(),
            nb == successors@.len(),
            forall|y: int| nh <= y < links@.len() ==> #[trigger] links@[y].face.idx() >= base_records.len(),
            forall|y: int| 0 <= y < total ==> (#[trigger] links@[y]).twin == created[y].twin && links@[y].origin == created[y].origin,
            total == nh + nb,
            total < INVALID_INDEX,
            links@.len() == total,
            map@.len() == nh,
            k <= nb,
            forall|y: int| 0 <= y < nh ==> #[trigger] map@[y] <= nh + nb,
            forall|y: int| 0 <= y < nh ==> #[trigger] map@[y] >= nh,
            forall|j: int| 0 <= j < nb ==> #[trigger] boundary@[j] < nh,
            forall|j: int| 0 <= j < nb ==> #[trigger] successors@[j] < nh,
            forall|j: int| 0 <= j < nb ==> #[trigger] map@[boundary@[j] as int] == nh + j,
            forall|y: int|
                0 <= y < nh ==> #[trigger] map@[y] == nh + nb || exists|j: int| 0 <= j < nb && boundary@[j] == y && map@[y] == nh + j,
            forall|q: int|
                0 <= q < k ==> {
                    let g = (#[trigger] links@[nh + q]).next.idx() - nh;
                    &&& 0 <= g < nb
                    &&& boundary@[g] == successors@[q]
                },
            forall|y: int|
                0 <= y < nh ==> {
                    &&& (#[trigger] links@[y]).origin == base_links[y].origin
                    &&& links@[y].next == base_links[y].next
                    &&& links@[y].prev == base_links[y].prev
                    &&& links@[y].face == base_links[y].face
                },
        decreases nb - k,
    {
        let bh = map[boundary[k]];
        let next_boundary = map[successors[k]];
        if bh >= total || next_boundary >= total {
            proof {
                assert(nexts_run(links@, map@, boundary@, successors@, k as int) is None);
                assert(nexts_run(g.1, g.3, boundary@, successors@, 0) is None);
                assert(close_run(old(outgoing)@, old(links)@, old(edges)@, old(records)@, keys@, boundary@, successors@) is None);
            }
            return Err(MeshError::Validation("boundary half-edge was never created".to_string()));
        }
        let ghost before_next = links@;
        set_next(links, bh, next_boundary);
        set_prev(links, next_boundary, bh);
        proof {
            assert(nexts_run(before_next, map@, boundary@, successors@, k as int) == nexts_run(links@, map@, boundary@, successors@, k as int + 1));
            assert(bh == nh + k);
            assert(map@[successors@[k as int] as int] != nh + nb);
            let j = choose|j: int| 0 <= j < nb && boundary@[j] == successors@[k as int] && map@[successors@[k as int] as int] == nh + j;
            assert(links@[nh + k].next.idx() == nh + j);
            assert forall|q: int| 0 <= q < k + 1 implies {
                let g = (#[trigger] links@[nh + q]).next.idx() - nh;
                &&& 0 <= g < nb
                &&& boundary@[g] == successors@[q]
            } by {
                if q < k {
                    assert(links@[nh + q].next == before_next[nh + q].next);
                } else {
                    assert(links@[nh + q].next.idx() == nh + j);
                }
            }
        }
        k = k + 1;
    }
    let ghost linked = links@;
    let mut visited: Vec<bool> = Vec::new();
    let mut x: usize = 0;
    while x < total
        invariant
            x <= total,
            visited@.len() == x,
            forall|y: int| 0 <= y < x ==> !#[trigger] visited@[y],
        decreases total - x,
    {
        visited.push(false);
        x = x + 1;
    }
    proof {
        assert(visited@ =~= unvisited(total as int));
    }
    let ghost all_faces = faces_run(linked, unvisited(total as int), old(records)@, 0, nh as int, nb as int);
    let mut k: usize = 0;
    while k < nb
        invariant
            loops@ == loops_done,
            outgoing@ == outgoing_done,
            edges@ == edges_done,
            nh == base_links.len(),
            nb == boundary@.len(),
            total == nh + nb,
            total < INVALID_INDEX,
            links@.len() == total,
            visited@.len() == total,
            k <= nb,
            g == ghosts_run((old(outgoing)@, old(links)@, old(edges)@, unmatched_map(nh as int, nb as int)), keys@, boundary@, 0),
            nh == old(links)@.len(),
            nb == boundary@.len(),
            outgoing_done == g.0,
            edges_done == g.2,
            nexts_run(g.1, g.3, boundary@, successors@, 0) == Some(linked),
            all_faces == faces_run(linked, unvisited(total as int), old(records)@, 0, nh as int, nb as int),
            faces_run(links@, visited@, records@, k as int, nh as int, nb as int) == all_faces,
            records@.len() >= base_records.len(),
            records@.len() <= base_records.len() + k,
            base_records.len() + nb < INVALID_INDEX,
            forall|x: int| 0 <= x < base_records.len() ==> #[trigger] records@[x] == base_records[x],
            forall|x: int| base_records.len() <= x < records@.len() ==> (#[trigger] records@[x]).kind == FaceKind::Boundary,
            forall|y: int| nh <= y < links@.len() ==> #[trigger] links@[y].face.idx() >= base_records.len(),
            forall|y: int| 0 <= y < total ==> (#[trigger] links@[y]).twin == created[y].twin && links@[y].origin == created[y].origin,
            forall|y: int| 0 <= y < total ==> (#[trigger] links@[y]).next == linked[y].next,
            forall|y: int|
                0 <= y < nh ==> {
                    &&& (#[trigger] links@[y]).origin == base_links[y].origin
                    &&& links@[y].next == base_links[y].next
                    &&& links@[y].prev == base_links[y].prev
                    &&& links@[y].face == base_links[y].face
                },
        decreases nb - k,
    {
        let start = nh + k;
        let ghost lk = links@;
        let ghost vk = visited@;
        let ghost rk = records@;
        if !visited[start] {
            let face_id = records.len();
            records.push(FaceRecord {
                halfedge: HalfEdgeId(start as u32),
                kind: FaceKind::Boundary,
                data: FacePayload { material: None, region: None },
            });
            let mut cursor = start;
            let mut steps: usize = 0;
            loop
                invariant_except_break
                    walk_face(links@, visited@, start as int, cursor as int, face_id as int, steps as int, nh as int, total as int)
                        == walk_face(lk, vk, start as int, start as int, face_id as int, 0, nh as int, total as int),
                invariant
                    g == ghosts_run((old(outgoing)@, old(links)@, old(edges)@, unmatched_map(nh as int, nb as int)), keys@, boundary@, 0),
                    nh == old(links)@.len(),
                    nb == boundary@.len(),
            nh == old(links)@.len(),
            nb == boundary@.len(),
                    outgoing_done == g.0,
                    edges_done == g.2,
                    nexts_run(g.1, g.3, boundary@, successors@, 0) == Some(linked),
                    all_faces == faces_run(linked, unvisited(total as int), old(records)@, 0, nh as int, nb as int),
                    faces_run(lk, vk, rk, k as int, nh as int, nb as int) == all_faces,
                    !vk[start as int],
                    start == nh + k,
                    k < nb,
                    face_id == rk.len(),
                    records@ == rk.push(boundary_record(start as int)),
                    loops@ == loops_done,
                    outgoing@ == outgoing_done,
                    edges@ == edges_done,
                    nh == base_links.len(),
                    total == nh + nb,
                    total < INVALID_INDEX,
                    links@.len() == total,
                    visited@.len() == total,
                    face_id < INVALID_INDEX,
                    nh <= cursor < total,
                    face_id >= base_records.len(),
                        forall|y: int| nh <= y < links@.len() ==> #[trigger] links@[y].face.idx() >= base_records.len(),
            forall|y: int| 0 <= y < total ==> (#[trigger] links@[y]).twin == created[y].twin && links@[y].origin == created[y].origin,
            forall|y: int| 0 <= y < total ==> (#[trigger] links@[y]).next == linked[y].next,
                    steps <= total,
                    forall|y: int|
                        0 <= y < nh ==> {
                            &&& (#[trigger] links@[y]).origin == base_links[y].origin
                            &&& links@[y].next == base_links[y].next
                            &&& links@[y].prev == base_links[y].prev
                            &&& links@[y].face == base_links[y].face
                        },
                ensures
                    walk_face(lk, vk, start as int, start as int, face_id as int, 0, nh as int, total as int) == Some((links@, visited@)),
                decreases total - steps,
            {
                let ghost w_links = links@;
                let ghost w_visited = visited@;
                let ghost w_steps = steps as int;
                steps = steps + 1;
                if steps > total {
                    proof {
                        assert(walk_face(w_links, w_visited, start as int, cursor as int, face_id as int, w_steps, nh as int, total as int) is None);
                        assert(all_faces is None);
                        assert(close_run(old(outgoing)@, old(links)@, old(edges)@, old(records)@, keys@, boundary@, successors@) is None);
                    }
                    return Err(MeshError::Validation("boundary loop construction exceeded traversal guard".to_string()));
                }
                visited.set(cursor, true);
                set_face(links, cursor, face_id);
                let following = links[cursor].next.index();
                if following == start {
                    break;
                }
                if following < nh || following >= total {
                    proof {
                        assert(walk_face(w_links, w_visited, start as int, cursor as int, face_id as int, w_steps, nh as int, total as int) is None);
                        assert(all_faces is None);
                        assert(close_run(old(outgoing)@, old(links)@, old(edges)@, old(records)@, keys@, boundary@, successors@) is None);
                    }
                    return Err(MeshError::Validation("boundary loop left the boundary".to_string()));
                }
                cursor = following;
            }
            proof {
                assert(faces_run(lk, vk, rk, k as int, nh as int, nb as int) == faces_run(
                    links@,
                    visited@,
                    records@,
                    k as int + 1,
                    nh as int,
                    nb as int,
                ));
            }
        } else {
            proof {
                assert(faces_run(lk, vk, rk, k as int, nh as int, nb as int) == faces_run(
                    links@,
                    visited@,
                    records@,
                    k as int + 1,
                    nh as int,
                    nb as int,
                ));
            }
        }
        k = k + 1;
    }
    proof {
        assert forall|x: int| 0 <= x < nh implies {
            &&& (#[trigger] links@[x]).origin == base_links[x].origin
            &&& links@[x].next == base_links[x].next
            &&& links@[x].prev == base_links[x].prev
            &&& links@[x].face == base_links[x].face
            &&& loops@[x] == base_loops[x]
        } by {
            assert(loops_done[x] == base_loops[x]);
        }
    }
    Ok(())
}

/// The walk around a block of `n` consecutive half-edges linked in a ring visits the
/// block in order.
pub proof fn lemma_walk_block(links: Seq<HalfEdgeLinks>, first: int, n: int, c: int, fuel: nat)
    requires
        0 <= c < n,
        0 <= first,
        first + n <= links.len(),
        first + n < INVALID_INDEX,
        forall|k: int|
            0 <= k < n ==> (#[trigger] links[first + k]).next.idx() == first + (if k + 1 == n {
                0
            } else {
                k + 1
            }),
        fuel >= n - c,
    ensures
        walk(links, HalfEdgeId(first as u32), HalfEdgeId((first + c) as u32), fuel, false) =~= Seq::new(
            (n - c) as nat,
            |k: int| HalfEdgeId((first + c + k) as u32),
        ),
    decreases n - c,
{
    let start = HalfEdgeId(first as u32);
    let cur = HalfEdgeId((first + c) as u32);
    assert(links[first + c].next.idx() == first + (if c + 1 == n { 0 } else { c + 1 }));
    let nx = links[cur.idx()].next;
    if c + 1 == n {
        assert(nx == start);
    } else {
        assert(nx == HalfEdgeId((first + c + 1) as u32));
        assert(nx != start);
        lemma_walk_block(links, first, n, c + 1, (fuel - 1) as nat);
    }
}

/// A polygon of a mesh is a polygon of a snapshot: same corners and metadata, and the
/// same loop payloads when the snapshot gives them.
pub open spec fn polygon_matches<L>(p: Polygon<L>, f: Polygon<L>) -> bool {
    &&& p.corners == f.corners
    &&& p.data == f.data
    &&& p.loops.len() == f.corners.len()
    &&& (f.loops.len() != 0 ==> p.loops == f.loops)
}

/// The directed sides of all faces, face by face and corner by corner.
pub open spec fn all_keys<L>(faces: Seq<Polygon<L>>) -> Seq<(usize, usize)> {
    keys_before(faces, faces.len() as int)
}

/// The face sides whose edge no face runs the other way: each gets a boundary twin.
pub open spec fn open_sides<L>(faces: Seq<Polygon<L>>) -> Set<int> {
    Set::new(|x: int| 0 <= x < corner_total(faces) && !all_keys(faces).contains(reversed(all_keys(faces)[x])))
}

/// A list of distinct increasing indices that holds exactly the open sides has their number
/// of entries.
proof fn lemma_open_sides_count<L>(faces: Seq<Polygon<L>>, boundary: Seq<usize>)
    requires
        forall|i: int, j: int| 0 <= i < j < boundary.len() ==> boundary[i] < boundary[j],
        forall|k: int| 0 <= k < boundary.len() ==> open_sides(faces).contains(#[trigger] boundary[k] as int),
        forall|x: int| open_sides(faces).contains(x) ==> boundary.contains(x as usize),
        corner_total(faces) < INVALID_INDEX,
    ensures
        boundary.len() == open_sides(faces).len(),
{
    let as_ints = boundary.map_values(|b: usize| b as int);
    assert(as_ints.no_duplicates()) by {
        assert forall|i: int, j: int| 0 <= i < as_ints.len() && 0 <= j < as_ints.len() && i != j implies as_ints[i] != as_ints[j] by {
            if i < j {
                assert(boundary[i] < boundary[j]);
            } else {
                assert(boundary[j] < boundary[i]);
            }
        }
    }
    assert(as_ints.to_set() =~= open_sides(faces)) by {
        assert forall|x: int| open_sides(faces).contains(x) implies as_ints.to_set().contains(x) by {
            assert(boundary.contains(x as usize));
            let k = choose|k: int| 0 <= k < boundary.len() && boundary[k] == x as usize;
            assert(0 <= x < corner_total(faces));
            assert(as_ints[k] == x);
        }
        assert forall|x: int| as_ints.to_set().contains(x) implies open_sides(faces).contains(x) by {
            let k = choose|k: int| 0 <= k < as_ints.len() && as_ints[k] == x;
            assert(open_sides(faces).contains(boundary[k] as int));
        }
    }
    as_ints.unique_seq_to_set();
}

/// Every half-edge index below the corner total is some corner of some face.
proof fn lemma_corner_of<L>(faces: Seq<Polygon<L>>, h: int, i: int) -> (r: (int, int))
    requires
        0 <= i <= faces.len(),
        keys_before(faces, i).len() <= h < corner_total(faces),
    ensures
        i <= r.0 < faces.len(),
        0 <= r.1 < faces[r.0].corners.len(),
        h == keys_before(faces, r.0).len() + r.1,
    decreases faces.len() - i,
{
    if i == faces.len() {
        assert(false);
        (0, 0)
    } else {
        lemma_keys_before_step(faces, i);
        if h < keys_before(faces, i + 1).len() {
            (i, h - keys_before(faces, i).len())
        } else {
            lemma_corner_of(faces, h, i + 1)
        }
    }
}

/// In the interior blocks, a half-edge's side starts at its origin and ends where the
/// next side starts, and the previous side ends where it starts.
proof fn lemma_interior_sides<L>(links: Seq<HalfEdgeLinks>, loops: Seq<L>, faces: Seq<Polygon<L>>, d: L, h: int)
    requires
        0 <= h < corner_total(faces),
        forall|i: int, c: int|
            0 <= i < faces.len() && 0 <= c < faces[i].corners.len() ==> #[trigger] corner_built(links, loops, faces, d, i, c),
    ensures
        all_keys(faces)[h].0 == links[h].origin.idx(),
        0 <= links[h].next.idx() < corner_total(faces),
        0 <= links[h].prev.idx() < corner_total(faces),
        all_keys(faces)[h].1 == all_keys(faces)[links[h].next.idx()].0,
        all_keys(faces)[links[h].prev.idx()].1 == all_keys(faces)[h].0,
{
    let (i, c) = lemma_corner_of(faces, h, 0);
    let n = faces[i].corners.len() as int;
    let first = keys_before(faces, i).len() as int;
    assert(corner_built(links, loops, faces, d, i, c));
    lemma_keys_before_step(faces, i);
    lemma_keys_before_prefix(faces, i + 1, faces.len() as int);
    lemma_keys_before_mono(faces, i + 1, faces.len() as int);
    let ks = all_keys(faces);
    assert forall|x: int| 0 <= x < n implies #[trigger] ks[first + x] == corner_key(faces[i], x) by {
        assert(ks.subrange(0, keys_before(faces, i + 1).len() as int)[first + x] == keys_before(faces, i + 1)[first + x]);
    }
    let cn = if c + 1 == n { 0 } else { c + 1 };
    let cp = if c == 0 { n - 1 } else { c - 1 };
    assert(corner_built(links, loops, faces, d, i, cn));
    assert(corner_built(links, loops, faces, d, i, cp));
    if c + 1 == n {
        vstd::arithmetic::div_mod::lemma_mod_self_0(n);
    } else {
        vstd::arithmetic::div_mod::lemma_small_mod((c + 1) as nat, n as nat);
    }
    if c == 0 {
        vstd::arithmetic::div_mod::lemma_mod_self_0(n);
    } else {
        vstd::arithmetic::div_mod::lemma_small_mod(c as nat, n as nat);
    }
    assert(ks[first + c] == corner_key(faces[i], c));
    assert(ks[first + cn] == corner_key(faces[i], cn));
    assert(ks[first + cp] == corner_key(faces[i], cp));
}

/// The first `c` half-edges lie on interior faces and the others on boundary faces.
pub open spec fn sides_first<V, L>(m: HalfEdgeMesh<V, L>, c: int) -> bool {
    forall|h: int| 0 <= h < m.nh() ==> ((#[trigger] m.topology().links[h]).face.idx() < m.interior() <==> h < c)
}

/// Each of the first `c` half-edges has a twin that starts where the half-edge's
/// successor starts: twins run the same edge the other way.
pub open spec fn twins_reverse<V, L>(m: HalfEdgeMesh<V, L>, c: int) -> bool {
    forall|h: int|
        0 <= h < c ==> m.topology().links[(#[trigger] m.topology().links[h]).twin.idx()].origin == m.topology().links[m.topology().links[
            h].next.idx()].origin
}

/// In a rebuilt mesh every half-edge's twin starts where the half-edge's successor starts:
/// inside the faces because paired sides run the same edge both ways, and along the
/// boundary because turning around a corner ends at that corner.
/// What a rebuild knows about its half-edges once the boundary is closed: the interior
/// blocks, the pairing of sides that run an edge both ways, and the ghost twins of the
/// other sides with their successors.
pub open spec fn closed_build<L>(
    links: Seq<HalfEdgeLinks>,
    interior: Seq<HalfEdgeLinks>,
    loops: Seq<L>,
    paired: Seq<HalfEdgeLinks>,
    keys: Seq<(usize, usize)>,
    boundary: Seq<usize>,
    successors: Seq<usize>,
    fs: Seq<Polygon<L>>,
    d: L,
) -> bool {
    &&& keys == all_keys(fs)
    &&& interior.len() == corner_total(fs)
    &&& paired.len() == interior.len()
    &&& keys.len() == interior.len()
    &&& links.len() == interior.len() + boundary.len()
    &&& links.len() < INVALID_INDEX
    &&& successors.len() == boundary.len()
    &&& forall|i: int, c: int|
            0 <= i < fs.len() && 0 <= c < fs[i].corners.len() ==> #[trigger] corner_built(interior, loops, fs, d, i, c)
    &&& forall|x: int|
            0 <= x < paired.len() ==> {
                &&& (#[trigger] paired[x]).origin == interior[x].origin
                &&& paired[x].next == interior[x].next
                &&& paired[x].prev == interior[x].prev
            }
    &&& forall|x: int|
            0 <= x < paired.len() && (#[trigger] paired[x]).twin.valid() ==> paired[x].twin.idx() < paired.len()
                && keys[paired[x].twin.idx()] == reversed(keys[x])
    &&& forall|k: int| 0 <= k < boundary.len() ==> #[trigger] boundary[k] < paired.len()
    &&& forall|j: int| 0 <= j < boundary.len() ==> #[trigger] reached_first_open(paired, boundary[j] as int, successors[j] as int)
    &&& forall|x: int|
            0 <= x < paired.len() ==> {
                &&& (#[trigger] links[x]).origin == paired[x].origin
                &&& links[x].next == paired[x].next
                &&& links[x].prev == paired[x].prev
                &&& links[x].twin.idx() < links.len()
            }
    &&& forall|j: int| 0 <= j < boundary.len() ==> {
            &&& links[#[trigger] boundary[j] as int].twin.idx() == paired.len() + j
            &&& links[paired.len() + j].origin.idx() == keys[boundary[j] as int].1
            &&& links[paired.len() + j].twin.idx() == boundary[j]
        }
    &&& forall|x: int| 0 <= x < paired.len() && !boundary.contains(x as usize) ==> #[trigger] links[x].twin == paired[x].twin
    &&& forall|k: int|
            0 <= k < boundary.len() ==> {
                let g = (#[trigger] links[paired.len() + k]).next.idx() - paired.len();
                &&& 0 <= g < boundary.len()
                &&& boundary[g] == successors[k]
            }
}

/// A side of a face has a twin that starts where the side's successor starts.
proof fn lemma_twin_of_side<L>(
    links: Seq<HalfEdgeLinks>,
    interior: Seq<HalfEdgeLinks>,
    loops: Seq<L>,
    paired: Seq<HalfEdgeLinks>,
    keys: Seq<(usize, usize)>,
    boundary: Seq<usize>,
    successors: Seq<usize>,
    fs: Seq<Polygon<L>>,
    d: L,
    h: int,
)
    requires
        closed_build(links, interior, loops, paired, keys, boundary, successors, fs, d),
        0 <= h < interior.len(),
    ensures
        links[links[h].twin.idx()].origin == links[links[h].next.idx()].origin,
{
    let ct = interior.len() as int;
    lemma_interior_sides(interior, loops, fs, d, h);
    let nx = interior[h].next.idx();
    lemma_interior_sides(interior, loops, fs, d, nx);
    assert(links[h].origin == paired[h].origin);
    assert(links[nx].origin == paired[nx].origin);
    if boundary.contains(h as usize) {
        let j = choose|j: int| 0 <= j < boundary.len() && boundary[j] == h as usize;
        assert(links[boundary[j] as int].twin.idx() == ct + j);
    } else {
        assert(links[h].twin == paired[h].twin);
        let tw = paired[h].twin.idx();
        assert(links[h].twin.idx() < links.len());
        assert(paired[h].twin.valid());
        lemma_interior_sides(interior, loops, fs, d, tw);
        assert(links[tw].origin == paired[tw].origin);
    }
}

/// A ghost half-edge has a twin that starts where the ghost's successor starts.
#[verifier::spinoff_prover]
#[verifier::rlimit(40)]
proof fn lemma_twin_of_ghost<L>(
    links: Seq<HalfEdgeLinks>,
    interior: Seq<HalfEdgeLinks>,
    loops: Seq<L>,
    paired: Seq<HalfEdgeLinks>,
    keys: Seq<(usize, usize)>,
    boundary: Seq<usize>,
    successors: Seq<usize>,
    fs: Seq<Polygon<L>>,
    d: L,
    k: int,
)
    requires
        closed_build(links, interior, loops, paired, keys, boundary, successors, fs, d),
        0 <= k < boundary.len(),
    ensures
        links[links[interior.len() + k].twin.idx()].origin == links[links[interior.len() + k].next.idx()].origin,
{
    let ct = interior.len() as int;
    assert forall|x: int| 0 <= x < paired.len() implies 0 <= (#[trigger] paired[x]).prev.idx() < paired.len()
        && keys[paired[x].prev.idx()].1 == keys[x].0 by {
        lemma_interior_sides(interior, loops, fs, d, x);
        assert(paired[x].prev == interior[x].prev);
        assert(paired[x].origin == interior[x].origin);
    }
    let b = boundary[k] as int;
    let sc = successors[k] as int;
    let g = links[ct + k].next.idx() - ct;
    assert(reached_first_open(paired, b, sc));
    let st = choose|st: nat|
        st < paired.len() && sc == #[trigger] turn_around(paired, b, st) && !paired[sc].twin.valid() && forall|j: nat|
            j < st ==> #[trigger] paired[turn_around(paired, b, j)].twin.valid();
    lemma_turn_ends_at_origin(paired, keys, b, st);
    lemma_interior_sides(interior, loops, fs, d, b);
    assert(links[b].origin == paired[b].origin);
    assert(links[ct + k].twin.idx() == b);
    assert(boundary[g] == successors[k]);
    assert(links[ct + g].origin.idx() == keys[boundary[g] as int].1);
}

/// In a rebuilt mesh every half-edge's twin starts where the half-edge's successor starts:
/// inside the faces because paired sides run the same edge both ways, and along the
/// boundary because turning around a corner ends at that corner.
proof fn lemma_twins_reverse<L>(
    links: Seq<HalfEdgeLinks>,
    interior: Seq<HalfEdgeLinks>,
    loops: Seq<L>,
    paired: Seq<HalfEdgeLinks>,
    keys: Seq<(usize, usize)>,
    boundary: Seq<usize>,
    successors: Seq<usize>,
    fs: Seq<Polygon<L>>,
    d: L,
)
    requires
        closed_build(links, interior, loops, paired, keys, boundary, successors, fs, d),
    ensures
        forall|h: int|
            0 <= h < links.len() ==> links[(#[trigger] links[h]).twin.idx()].origin == links[links[h].next.idx()].origin,
{
    let ct = interior.len() as int;
    assert forall|h: int| 0 <= h < links.len() implies links[(#[trigger] links[h]).twin.idx()].origin == links[links[h].next.idx()].origin by {
        if h < ct {
            lemma_twin_of_side(links, interior, loops, paired, keys, boundary, successors, fs, d, h);
        } else {
            lemma_twin_of_ghost(links, interior, loops, paired, keys, boundary, successors, fs, d, h - ct);
        }
    }
}

/// Paired sides come two per edge and every other side is open, so the sides number twice
/// the paired edges plus the open sides.
proof fn lemma_side_count<L>(paired: Seq<HalfEdgeLinks>, keys: Seq<(usize, usize)>, fs: Seq<Polygon<L>>, pe: int)
    requires
        keys == all_keys(fs),
        paired.len() == corner_total(fs),
        twinned(paired).finite(),
        twinned(paired).len() == 2 * pe,
        forall|x: int|
            0 <= x < paired.len() && (#[trigger] paired[x]).twin.valid() ==> keys.contains(reversed(keys[x])),
        forall|x: int| 0 <= x < paired.len() ==> (#[trigger] paired[x]).twin.valid() || open_sides(fs).contains(x),
    ensures
        corner_total(fs) == 2 * pe + open_sides(fs).len(),
{
    let ct = corner_total(fs);
    lemma_keys_before_mono(fs, 0, fs.len() as int);
    vstd::set_lib::lemma_int_range(0, ct);
    let range = vstd::set_lib::set_int_range(0, ct);
    assert(open_sides(fs).subset_of(range));
    vstd::set_lib::lemma_len_subset(open_sides(fs), range);
    assert(twinned(paired).disjoint(open_sides(fs)));
    assert(twinned(paired) + open_sides(fs) =~= range) by {
        assert forall|x: int| range.contains(x) implies (twinned(paired) + open_sides(fs)).contains(x) by {
            assert(paired[x].twin.valid() || open_sides(fs).contains(x));
        }
    }
    vstd::set_lib::lemma_set_disjoint_lens(twinned(paired), open_sides(fs));
}

/// The corners of the listed faces that came without loop payloads all carry `d`.
pub open spec fn defaults_filled<V, L>(m: HalfEdgeMesh<V, L>, faces: Seq<Polygon<L>>, d: L) -> bool {
    forall|i: int, c: int|
        0 <= i < faces.len() && faces[i].loops.len() == 0 && 0 <= c < faces[i].corners.len() ==> #[trigger] m.polygon(i).loops[c]
            == d
}

/// The vertex payloads and interior faces of a mesh are those of a polygon list.
pub open spec fn mesh_matches<V, L>(m: HalfEdgeMesh<V, L>, vertices: Seq<V>, faces: Seq<Polygon<L>>) -> bool {
    &&& m.vertex_data_view() == vertices
    &&& m.interior() == faces.len()
    &&& forall|i: int| 0 <= i < faces.len() ==> polygon_matches(#[trigger] m.polygon(i), faces[i])
}

impl<V: Copy, L: Copy + Default> HalfEdgeMesh<V, L> {
    /// Builds the half-edge mesh of a polygon snapshot.
    pub fn from_snapshot(snapshot: MeshSnapshot<V, L>) -> (r: Result<Self, MeshError>)
        ensures
            !snapshot_fits(snapshot.vertices@.len() as int, views(snapshot.faces@)) ==> r is Err && r->Err_0 is Validation,
            snapshot_fits(snapshot.vertices@.len() as int, views(snapshot.faces@)) && input_problem(snapshot.vertices@.len() as int, views(snapshot.faces@)) is Some
                ==> r is Err && problem_error(input_problem(snapshot.vertices@.len() as int, views(snapshot.faces@))->0, r->Err_0),
            snapshot_fits(snapshot.vertices@.len() as int, views(snapshot.faces@)) && input_problem(snapshot.vertices@.len() as int, views(snapshot.faces@)) is None
                ==> (r is Err ==> r->Err_0 is Validation) && (r is Ok ==> mesh_matches(r->Ok_0, snapshot.vertices@, views(snapshot.faces@))),
            r is Ok ==> exists|d: L| #[trigger] call_ensures(L::default, (), d) && defaults_filled(r->Ok_0, views(snapshot.faces@), d),
            r is Ok ==> r->Ok_0.nh() == corner_total(views(snapshot.faces@)) + open_sides(views(snapshot.faces@)).len(),
            r is Ok ==> sides_first(r->Ok_0, corner_total(views(snapshot.faces@))),
            r is Ok ==> twins_reverse(r->Ok_0, r->Ok_0.nh()),
            r is Ok ==> r->Ok_0.nh() == 2 * r->Ok_0.ne(),
            snapshot_fits(snapshot.vertices@.len() as int, views(snapshot.faces@)) && input_problem(snapshot.vertices@.len() as int, views(snapshot.faces@)) is None
                ==> (r is Ok <==> builds_manifold(snapshot.vertices@.len() as int, views(snapshot.faces@))),
            r is Ok ==> r->Ok_0.topology() == built_topology(snapshot.vertices@.len() as int, views(snapshot.faces@))->0,
            r is Ok ==> r->Ok_0.canonical(),
    {
        let MeshSnapshot { vertices, faces } = snapshot;
        Self::from_polygon_faces(vertices, faces)
    }

    /// Builds a half-edge mesh from a vertex list and polygons over it: interior half-edges
    /// are laid out face by face, twins are paired, each unpaired half-edge gets a ghost
    /// twin on a boundary loop, and the result is validated.
    ///
    /// The first broken rule, in face and corner order, is reported: a face with fewer than
    /// three corners, loop payloads not one per corner, a corner out of range, two equal
    /// consecutive corners, or a directed edge used twice. Otherwise the result either
    /// matches the input or is a `Validation` error.
    #[verifier::spinoff_prover]
    #[verifier::rlimit(60)]
    pub fn from_polygon_faces(vertices: Vec<V>, faces: Vec<PolygonFace<L>>) -> (r: Result<Self, MeshError>)
        ensures
            !snapshot_fits(vertices@.len() as int, views(faces@)) ==> r is Err && r->Err_0 is Validation,
            snapshot_fits(vertices@.len() as int, views(faces@)) && input_problem(vertices@.len() as int, views(faces@)) is Some
                ==> r is Err && problem_error(input_problem(vertices@.len() as int, views(faces@))->0, r->Err_0),
            snapshot_fits(vertices@.len() as int, views(faces@)) && input_problem(vertices@.len() as int, views(faces@)) is None
                ==> (r is Err ==> r->Err_0 is Validation) && (r is Ok ==> mesh_matches(r->Ok_0, vertices@, views(faces@))),
            r is Ok ==> exists|d: L| #[trigger] call_ensures(L::default, (), d) && defaults_filled(r->Ok_0, views(faces@), d),
            r is Ok ==> r->Ok_0.nh() == corner_total(views(faces@)) + open_sides(views(faces@)).len(),
            r is Ok ==> sides_first(r->Ok_0, corner_total(views(faces@))),
            r is Ok ==> twins_reverse(r->Ok_0, r->Ok_0.nh()),
            r is Ok ==> r->Ok_0.nh() == 2 * r->Ok_0.ne(),
            snapshot_fits(vertices@.len() as int, views(faces@)) && input_problem(vertices@.len() as int, views(faces@)) is None
                ==> (r is Ok <==> builds_manifold(vertices@.len() as int, views(faces@))),
            r is Ok ==> r->Ok_0.topology() == built_topology(vertices@.len() as int, views(faces@))->0,
            r is Ok ==> r->Ok_0.canonical(),
    {
        let nv = vertices.len();
        if !fits_ids(nv, &faces) {
            return Err(MeshError::Validation("snapshot does not fit 32-bit mesh ids".to_string()));
        }
        let ghost fs = views(faces@);
        proof {
            reveal(built_topology);
        }
        let d = L::default();
        let draft = build_interior(nv, &faces, d)?;
        let Draft { mut outgoing, mut links, mut loops, keys, mut records, mut edges } = draft;
        let ghost interior_links = links@;
        let ghost interior_loops = loops@;
        let ghost interior_records = records@;
        let ghost interior_keys = keys@;
        proof {
            assert(interior_links.len() == corner_total(fs));
            assert(interior_keys.len() == interior_links.len());
            assert(outgoing@.len() == nv);
            assert forall|h: int| 0 <= h < interior_keys.len() implies (#[trigger] interior_keys[h]).1 < nv by {
                assert(interior_links[h].prev.idx() < interior_links.len());
            }
        }
        let nf = faces.len();
        let ghost interior_outgoing = outgoing@;
        proof {
            assert(edges@ =~= Seq::<HalfEdgeId>::empty());
            assert(keys@ == all_keys(fs));
        }
        let boundary = match pair_twins(&mut links, &keys, &mut edges) {
            Ok(b) => b,
            Err(e) => {
                proof {
                    assert(built_topology(nv as int, fs) is None);
                }
                return Err(e);
            },
        };
        let ghost paired_links = links@;
        let ghost paired_edges = edges@.len() as int;
        let successors = match collect_successors(&links, &boundary) {
            Ok(s) => s,
            Err(e) => {
                proof {
                    assert(built_topology(nv as int, fs) is None);
                }
                return Err(e);
            },
        };
        let ghost paired_edge_list = edges@;
        let ghost paired_records = records@;
        proof {
            assert(keys@ == interior_keys);
            assert(keys@ == all_keys(fs));
            assert forall|k: int| 0 <= k < boundary@.len() implies open_sides(fs).contains(#[trigger] boundary@[k] as int) by {
                assert(!keys@.contains(reversed(keys@[boundary@[k] as int])));
            }
            assert forall|x: int| open_sides(fs).contains(x) implies boundary@.contains(x as usize) by {
                assert(!keys@.contains(reversed(keys@[x])));
            }
            lemma_open_sides_count(fs, boundary@);
            assert forall|x: int| 0 <= x < paired_links.len() && (#[trigger] paired_links[x]).twin.valid() implies keys@.contains(
                reversed(keys@[x]),
            ) by {
                assert(keys@[paired_links[x].twin.idx()] == reversed(keys@[x]));
            }
            assert forall|x: int| 0 <= x < paired_links.len() implies (#[trigger] paired_links[x]).twin.valid() || open_sides(
                fs,
            ).contains(x) by {
                if !paired_links[x].twin.valid() {
                    assert(boundary@.contains(x as usize));
                    let k = choose|k: int| 0 <= k < boundary@.len() && boundary@[k] == x as usize;
                    assert(open_sides(fs).contains(boundary@[k] as int));
                }
            }
            lemma_side_count(paired_links, keys@, fs, paired_edges);
            assert forall|h: int| 0 <= h < keys@.len() implies (#[trigger] keys@[h]).1 < outgoing@.len() by {
                assert(interior_keys[h].1 < nv);
            }
        }
        match close_boundaries(&mut outgoing, &mut links, &mut loops, &keys, &mut records, &mut edges, &boundary, &successors, d) {
            Ok(()) => {},
            Err(e) => {
                proof {
                    assert(close_run(interior_outgoing, paired_links, paired_edge_list, paired_records, keys@, boundary@, successors@) is None);
                    assert(built_topology(nv as int, fs) is None);
                }
                return Err(e);
            },
        }
        proof {
            assert(built_topology(nv as int, fs) == Some(topo_of(outgoing@, links@, edges@, records@, nf as int)));
        }
        match check_topology(&outgoing, &links, &edges, &records, nf) {
            Ok(()) => {},
            Err(e) => {
                return Err(e);
            },
        }
        let ghost gm = HalfEdgeMesh {
            vertex_outgoing: outgoing,
            vertex_data: vertices,
            links,
            loop_data: loops,
            edge_halfedge: edges,
            faces: records,
            interior_face_count: nf,
        };
        proof {
            let t = gm.topology();
            assert forall|i: int| 0 <= i < fs.len() implies polygon_matches(#[trigger] gm.polygon(i), fs[i]) && (fs[i].loops.len()
                == 0 ==> forall|c: int| 0 <= c < fs[i].corners.len() ==> gm.polygon(i).loops[c] == d) by {
                let first = keys_before(fs, i).len() as int;
                let n = fs[i].corners.len() as int;
                lemma_no_problem(nv as int, fs, 0, i);
                lemma_keys_before_mono(fs, i, fs.len() as int);
                assert forall|k: int| 0 <= k < n implies (#[trigger] t.links[first + k]).next.idx() == first + (if k + 1 == n { 0 } else { k + 1 }) by {
                    assert(corner_built(interior_links, interior_loops, fs, d, i, k));
                }
                assert(interior_records[i] == t.faces[i]);
                lemma_walk_block(t.links, first, n, 0, walk_cap(t.links));
                assert(t.face_loop(i) =~= Seq::new(n as nat, |k: int| HalfEdgeId((first + k) as u32)));
                let p = gm.polygon(i);
                assert forall|c: int| 0 <= c < n implies p.corners[c] == fs[i].corners[c] && (fs[i].loops.len() != 0 ==> p.loops[c] == fs[i].loops[c])
                    && (fs[i].loops.len() == 0 ==> p.loops[c] == d) by {
                    assert(corner_built(interior_links, interior_loops, fs, d, i, c));
                    assert(t.face_loop(i)[c].idx() == first + c);
                    assert(t.links[first + c].origin == interior_links[first + c].origin);
                    assert(gm.loop_data_view()[first + c] == interior_loops[first + c]);
                }
                assert(p.corners =~= fs[i].corners);
                if fs[i].loops.len() != 0 {
                    assert forall|c: int| 0 <= c < n implies #[trigger] p.loops[c] == fs[i].loops[c] by {
                        assert(p.corners[c] == fs[i].corners[c]);
                    }
                    assert(p.loops =~= fs[i].loops);
                } else {
                    assert forall|c: int| 0 <= c < n implies #[trigger] p.loops[c] == d by {
                        assert(p.corners[c] == fs[i].corners[c]);
                    }
                }
            }
            assert(defaults_filled(gm, fs, d));
            assert forall|i: int, c: int|
                0 <= i < fs.len() && 0 <= c < fs[i].corners.len() implies #[trigger] corner_built(interior_links, interior_loops, fs, d, i, c) by {
                assert(blocks_built(interior_links, interior_loops, interior_records, fs, d, fs.len() as int));
            }
            assert forall|x: int| 0 <= x < t.links.len() implies (#[trigger] t.links[x]).twin.idx() < t.links.len() by {
                assert(t.link_ok(x));
            }
            assert(closed_build(t.links, interior_links, interior_loops, paired_links, keys@, boundary@, successors@, fs, d));
            lemma_twins_reverse(t.links, interior_links, interior_loops, paired_links, keys@, boundary@, successors@, fs, d);
            assert(twins_reverse(gm, gm.nh()));
            assert forall|h: int| 0 <= h < gm.nh() implies ((#[trigger] gm.topology().links[h]).face.idx() < gm.interior() <==> h
                < corner_total(fs)) by {
                if h < corner_total(fs) {
                    assert(paired_links[h].face == interior_links[h].face);
                    assert(t.links[h].face == paired_links[h].face);
                }
            }
            assert(gm.topology().wf());
            lemma_matching_build_canonical(gm, fs);
        }
        let mesh = HalfEdgeMesh {
            vertex_outgoing: outgoing,
            vertex_data: vertices,
            links,
            loop_data: loops,
            edge_halfedge: edges,
            faces: records,
            interior_face_count: nf,
        };
        Ok(mesh)
    }
}

} // verus!
