use crate::attributes::FacePayload;
use crate::ids::{EdgeId, FaceId, HalfEdgeId, VertexId, INVALID_INDEX};
use crate::mesh::{topo_of, FaceKind, FaceRecord, HalfEdgeLinks, Polygon, Topology};
use crate::rebuild::{all_keys, corner_total, keys_before, reversed};
use vstd::prelude::*;

verus! {

/// The first position at or after `j` where `key` occurs.
pub open spec fn key_index(keys: Seq<(usize, usize)>, key: (usize, usize), j: int) -> Option<int>
    decreases keys.len() - j,
{
    if j < 0 || j >= keys.len() {
        None
    } else if keys[j] == key {
        Some(j)
    } else {
        key_index(keys, key, j + 1)
    }
}

/// Pairing the sides `h..` with the sides that run the same edge the other way: each new
/// pair gets the next edge id, each side without a partner joins the boundary list; a side
/// that is its own partner stops the pairing.
pub open spec fn pair_run(
    links: Seq<HalfEdgeLinks>,
    keys: Seq<(usize, usize)>,
    edges: Seq<HalfEdgeId>,
    boundary: Seq<usize>,
    h: int,
) -> Option<(Seq<HalfEdgeLinks>, Seq<HalfEdgeId>, Seq<usize>)>
    decreases keys.len() - h,
{
    if h < 0 || h >= links.len() || h >= keys.len() {
        Some((links, edges, boundary))
    } else if links[h].edge.valid() {
        pair_run(links, keys, edges, boundary, h + 1)
    } else {
        match key_index(keys, reversed(keys[h]), 0) {
            Some(t) => if t == h {
                None
            } else if links[t].edge.valid() {
                pair_run(links, keys, edges, boundary, h + 1)
            } else {
                let e = edges.len();
                let l1 = links.update(h, HalfEdgeLinks { twin: HalfEdgeId(t as u32), edge: EdgeId(e as u32), ..links[h] });
                let l2 = l1.update(t, HalfEdgeLinks { twin: HalfEdgeId(h as u32), edge: EdgeId(e as u32), ..l1[t] });
                pair_run(l2, keys, edges.push(HalfEdgeId(h as u32)), boundary, h + 1)
            },
            None => pair_run(links, keys, edges, boundary.push(h as usize), h + 1),
        }
    }
}

/// Turning around a corner from `cursor` (after `steps` turns) to the first side without
/// a partner; no more turns than there are half-edges.
pub open spec fn turn_walk(links: Seq<HalfEdgeLinks>, cursor: int, steps: int) -> Option<int>
    decreases links.len() - steps,
{
    if steps < 0 || steps >= links.len() {
        None
    } else if !links[cursor].twin.valid() {
        Some(cursor)
    } else {
        turn_walk(links, links[links[cursor].twin.idx()].prev.idx(), steps + 1)
    }
}

/// Every side without a partner finds the next one around its origin.
pub open spec fn walks_found(links: Seq<HalfEdgeLinks>, boundary: Seq<usize>) -> bool {
    forall|j: int| 0 <= j < boundary.len() ==> #[trigger] turn_walk(links, links[boundary[j] as int].prev.idx(), 0) is Some
}

/// The side found from each side without a partner.
pub open spec fn walk_successors(links: Seq<HalfEdgeLinks>, boundary: Seq<usize>) -> Seq<usize> {
    Seq::new(boundary.len(), |j: int| turn_walk(links, links[boundary[j] as int].prev.idx(), 0)->0 as usize)
}

/// Adding the ghost twins of the boundary sides `k..`: each gets the next half-edge id and
/// edge id, becomes its vertex's outgoing half-edge when that vertex has none, and is
/// remembered under its interior twin.
pub open spec fn ghosts_run(
    state: (Seq<HalfEdgeId>, Seq<HalfEdgeLinks>, Seq<HalfEdgeId>, Seq<usize>),
    keys: Seq<(usize, usize)>,
    boundary: Seq<usize>,
    k: int,
) -> (Seq<HalfEdgeId>, Seq<HalfEdgeLinks>, Seq<HalfEdgeId>, Seq<usize>)
    decreases boundary.len() - k,
{
    if k < 0 || k >= boundary.len() {
        state
    } else {
        let (out, links, edges, map) = state;
        let b = boundary[k] as int;
        let dest = keys[b].1;
        let bh = links.len();
        let e = edges.len();
        let l1 = links.update(b, HalfEdgeLinks { twin: HalfEdgeId(bh as u32), edge: EdgeId(e as u32), ..links[b] });
        let l2 = l1.push(
            HalfEdgeLinks {
                origin: VertexId(dest as u32),
                twin: HalfEdgeId(b as u32),
                next: HalfEdgeId(INVALID_INDEX),
                prev: HalfEdgeId(INVALID_INDEX),
                face: FaceId(INVALID_INDEX),
                edge: EdgeId(e as u32),
            },
        );
        let out2 = if !out[dest as int].valid() {
            out.update(dest as int, HalfEdgeId(bh as u32))
        } else {
            out
        };
        ghosts_run((out2, l2, edges.push(HalfEdgeId(b as u32)), map.update(b, bh as usize)), keys, boundary, k + 1)
    }
}

/// Linking each ghost `k..` to the ghost of its successor; a successor without a ghost
/// stops the linking.
pub open spec fn nexts_run(
    links: Seq<HalfEdgeLinks>,
    map: Seq<usize>,
    boundary: Seq<usize>,
    successors: Seq<usize>,
    k: int,
) -> Option<Seq<HalfEdgeLinks>>
    decreases boundary.len() - k,
{
    if k < 0 || k >= boundary.len() {
        Some(links)
    } else {
        let bh = map[boundary[k] as int] as int;
        let nx = map[successors[k] as int] as int;
        if bh >= links.len() || nx >= links.len() {
            None
        } else {
            let l1 = links.update(bh, HalfEdgeLinks { next: HalfEdgeId(nx as u32), ..links[bh] });
            let l2 = l1.update(nx, HalfEdgeLinks { prev: HalfEdgeId(bh as u32), ..l1[nx] });
            nexts_run(l2, map, boundary, successors, k + 1)
        }
    }
}

/// Walking one boundary loop from `start`, giving each ghost on it the face `face`; the
/// walk must come back to `start` through ghosts only, within `total` steps.
pub open spec fn walk_face(
    links: Seq<HalfEdgeLinks>,
    visited: Seq<bool>,
    start: int,
    cursor: int,
    face: int,
    steps: int,
    nh: int,
    total: int,
) -> Option<(Seq<HalfEdgeLinks>, Seq<bool>)>
    decreases total - steps,
{
    if steps < 0 || steps >= total {
        None
    } else {
        let v2 = visited.update(cursor, true);
        let l2 = links.update(cursor, HalfEdgeLinks { face: FaceId(face as u32), ..links[cursor] });
        let f = l2[cursor].next.idx();
        if f == start {
            Some((l2, v2))
        } else if f < nh || f >= total {
            None
        } else {
            walk_face(l2, v2, start, f, face, steps + 1, nh, total)
        }
    }
}

/// The boundary face record that starts at ghost `start`.
pub open spec fn boundary_record(start: int) -> FaceRecord {
    FaceRecord {
        halfedge: HalfEdgeId(start as u32),
        kind: FaceKind::Boundary,
        data: FacePayload { material: None, region: None },
    }
}

/// Numbering the boundary loops: ghosts `nh + k..` in order, each ghost not on a loop seen
/// before starting a new boundary face.
pub open spec fn faces_run(
    links: Seq<HalfEdgeLinks>,
    visited: Seq<bool>,
    records: Seq<FaceRecord>,
    k: int,
    nh: int,
    nb: int,
) -> Option<(Seq<HalfEdgeLinks>, Seq<FaceRecord>)>
    decreases nb - k,
{
    if k < 0 || k >= nb {
        Some((links, records))
    } else if visited[nh + k] {
        faces_run(links, visited, records, k + 1, nh, nb)
    } else {
        match walk_face(links, visited, nh + k, nh + k, records.len() as int, 0, nh, nh + nb) {
            Some(r) => faces_run(r.0, r.1, records.push(boundary_record(nh + k)), k + 1, nh, nb),
            None => None,
        }
    }
}

/// The half-edges laid out face by face, before any twin is known.
pub open spec fn interior_link<L>(fs: Seq<Polygon<L>>, h: int) -> HalfEdgeLinks {
    let (i, c) = choose|p: (int, int)|
        0 <= p.0 < fs.len() && 0 <= p.1 < fs[p.0].corners.len() && h == keys_before(fs, p.0).len() + p.1;
    let first = keys_before(fs, i).len() as int;
    let n = fs[i].corners.len() as int;
    HalfEdgeLinks {
        origin: VertexId(fs[i].corners[c] as u32),
        twin: HalfEdgeId(INVALID_INDEX),
        next: HalfEdgeId((first + (if c + 1 == n { 0 } else { c + 1 })) as u32),
        prev: HalfEdgeId((first + (if c == 0 { n - 1 } else { c - 1 })) as u32),
        face: FaceId(i as u32),
        edge: EdgeId(INVALID_INDEX),
    }
}

pub open spec fn interior_links<L>(fs: Seq<Polygon<L>>) -> Seq<HalfEdgeLinks> {
    Seq::new(corner_total(fs) as nat, |h: int| interior_link(fs, h))
}

pub open spec fn interior_records<L>(fs: Seq<Polygon<L>>) -> Seq<FaceRecord> {
    Seq::new(
        fs.len(),
        |i: int|
            FaceRecord { halfedge: HalfEdgeId(keys_before(fs, i).len() as u32), kind: FaceKind::Interior, data: fs[i].data },
    )
}

/// Each vertex's outgoing half-edge after scanning half-edges `0..h`: the first one that
/// leaves it.
pub open spec fn first_outgoing(init: Seq<HalfEdgeId>, links: Seq<HalfEdgeLinks>, h: int) -> Seq<HalfEdgeId>
    decreases h,
{
    if h <= 0 {
        init
    } else {
        let o = first_outgoing(init, links, h - 1);
        let v = links[h - 1].origin.idx();
        if !o[v].valid() {
            o.update(v, HalfEdgeId((h - 1) as u32))
        } else {
            o
        }
    }
}

/// No vertex has an outgoing half-edge yet.
pub open spec fn no_outgoing(nv: int) -> Seq<HalfEdgeId> {
    Seq::new(nv as nat, |v: int| HalfEdgeId(INVALID_INDEX))
}

/// Every interior side points past the ghosts: none has a ghost twin yet.
pub open spec fn unmatched_map(nh: int, nb: int) -> Seq<usize> {
    Seq::new(nh as nat, |y: int| (nh + nb) as usize)
}

/// No half-edge has been walked yet.
pub open spec fn unvisited(total: int) -> Seq<bool> {
    Seq::new(total as nat, |y: int| false)
}

/// The first vertex outgoing half-edges depend only on the origins of the scanned prefix.
pub proof fn lemma_first_outgoing_prefix(init: Seq<HalfEdgeId>, a: Seq<HalfEdgeLinks>, b: Seq<HalfEdgeLinks>, h: int)
    requires
        forall|k: int| 0 <= k < h ==> (#[trigger] a[k]).origin == b[k].origin,
    ensures
        first_outgoing(init, a, h) == first_outgoing(init, b, h),
    decreases h,
{
    if h > 0 {
        lemma_first_outgoing_prefix(init, a, b, h - 1);
        assert(a[h - 1].origin == b[h - 1].origin);
    }
}

/// Closing the open sides: ghost twins, their ring links and their boundary faces, over
/// the vertex outgoing half-edges, half-edges, edges and face records so far.
pub open spec fn close_run(
    out: Seq<HalfEdgeId>,
    links: Seq<HalfEdgeLinks>,
    edges: Seq<HalfEdgeId>,
    records: Seq<FaceRecord>,
    keys: Seq<(usize, usize)>,
    boundary: Seq<usize>,
    successors: Seq<usize>,
) -> Option<(Seq<HalfEdgeId>, Seq<HalfEdgeLinks>, Seq<HalfEdgeId>, Seq<FaceRecord>)> {
    let nh = links.len() as int;
    let nb = boundary.len() as int;
    let g = ghosts_run((out, links, edges, unmatched_map(nh, nb)), keys, boundary, 0);
    match nexts_run(g.1, g.3, boundary, successors, 0) {
        None => None,
        Some(linked) => match faces_run(linked, unvisited(nh + nb), records, 0, nh, nb) {
            None => None,
            Some(f) => Some((g.0, f.0, g.2, f.1)),
        },
    }
}

/// The topology that building from polygons `fs` over `nv` vertices produces, when every
/// step of the construction goes through.
#[verifier::opaque]
pub open spec fn built_topology<L>(nv: int, fs: Seq<Polygon<L>>) -> Option<Topology> {
    let links0 = interior_links(fs);
    let keys = all_keys(fs);
    let out0 = first_outgoing(no_outgoing(nv), links0, links0.len() as int);
    match pair_run(links0, keys, Seq::empty(), Seq::empty(), 0) {
        None => None,
        Some(p) => {
            let (links1, edges1, boundary) = p;
            if !walks_found(links1, boundary) {
                None
            } else {
                let successors = walk_successors(links1, boundary);
                match close_run(out0, links1, edges1, interior_records(fs), keys, boundary, successors) {
                    None => None,
                    Some(c) => Some(topo_of(c.0, c.1, c.2, c.3, fs.len() as int)),
                }
            }
        },
    }
}

/// Two topologies alike in everything but the metadata of the faces from `from` on.
pub open spec fn alike_from(a: Topology, b: Topology, from: int) -> bool {
    &&& a.outgoing == b.outgoing
    &&& a.links == b.links
    &&& a.edges == b.edges
    &&& a.interior == b.interior
    &&& a.faces.len() == b.faces.len()
    &&& forall|f: int|
        0 <= f < a.faces.len() ==> {
            &&& (#[trigger] a.faces[f]).halfedge == b.faces[f].halfedge
            &&& a.faces[f].kind == b.faces[f].kind
            &&& (f < from ==> a.faces[f].data == b.faces[f].data)
        }
}

/// Numbering the boundary loops depends on the records so far through their number only:
/// the records given come first, unchanged, and the boundary records added after them are
/// the same whatever those records hold.
pub proof fn lemma_faces_run_records(
    links: Seq<HalfEdgeLinks>,
    visited: Seq<bool>,
    r1: Seq<FaceRecord>,
    r2: Seq<FaceRecord>,
    k: int,
    nh: int,
    nb: int,
)
    requires
        r1.len() == r2.len(),
    ensures
        faces_run(links, visited, r1, k, nh, nb) is Some <==> faces_run(links, visited, r2, k, nh, nb) is Some,
        faces_run(links, visited, r1, k, nh, nb) is Some ==> {
            let p1 = faces_run(links, visited, r1, k, nh, nb)->0;
            let p2 = faces_run(links, visited, r2, k, nh, nb)->0;
            &&& p1.0 == p2.0
            &&& p1.1.len() == p2.1.len()
            &&& p1.1.len() >= r1.len()
            &&& forall|x: int| 0 <= x < r1.len() ==> #[trigger] p1.1[x] == r1[x]
            &&& forall|x: int| 0 <= x < r2.len() ==> #[trigger] p2.1[x] == r2[x]
            &&& forall|x: int| r1.len() <= x < p1.1.len() ==> #[trigger] p1.1[x] == p2.1[x]
        },
    decreases nb - k,
{
    if 0 <= k < nb {
        if visited[nh + k] {
            lemma_faces_run_records(links, visited, r1, r2, k + 1, nh, nb);
        } else {
            let w = walk_face(links, visited, nh + k, nh + k, r1.len() as int, 0, nh, nh + nb);
            if w is Some {
                let rec = boundary_record(nh + k);
                let walked = w->0;
                lemma_faces_run_records(walked.0, walked.1, r1.push(rec), r2.push(rec), k + 1, nh, nb);
                if faces_run(links, visited, r1, k, nh, nb) is Some {
                    let p1 = faces_run(links, visited, r1, k, nh, nb)->0;
                    let p2 = faces_run(links, visited, r2, k, nh, nb)->0;
                    assert forall|x: int| 0 <= x < r1.len() implies #[trigger] p1.1[x] == r1[x] by {
                        assert(r1.push(rec)[x] == r1[x]);
                    }
                    assert forall|x: int| 0 <= x < r2.len() implies #[trigger] p2.1[x] == r2[x] by {
                        assert(r2.push(rec)[x] == r2[x]);
                    }
                    assert forall|x: int| r1.len() <= x < p1.1.len() implies #[trigger] p1.1[x] == p2.1[x] by {
                        if x == r1.len() {
                            assert(p1.1[x] == r1.push(rec)[x]);
                            assert(p2.1[x] == r2.push(rec)[x]);
                        }
                    }
                }
            }
        }
    }
}

/// The polygons close into a valid half-edge mesh.
pub open spec fn builds_manifold<L>(nv: int, fs: Seq<Polygon<L>>) -> bool {
    &&& built_topology(nv, fs) is Some
    &&& built_topology(nv, fs)->0.valid()
}

} // verus!
