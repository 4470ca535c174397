use crate::error::MeshError;
use crate::ids::{HalfEdgeId, INVALID_INDEX};
use crate::mesh::{
    links_closed, origin_count, topo_of, walk, walk_cap, walk_collect, walk_step, FaceRecord,
    HalfEdgeLinks, Topology,
};
use vstd::prelude::*;

verus! {

/// A `Validation` error whose message names the offending element.
pub(crate) fn validation_error(message: &str, index: usize) -> (e: MeshError)
    ensures
        e is Validation,
{
    let mut text = message.to_string();
    text.append(" ");
    let number = index.to_string();
    text.append(number.as_str());
    MeshError::Validation(text)
}

/// Every half-edge a guarded walk visits lies inside the half-edge array.
pub proof fn lemma_walk_in_range(
    links: Seq<HalfEdgeLinks>,
    start: HalfEdgeId,
    cur: HalfEdgeId,
    fuel: nat,
    fan: bool,
)
    requires
        links_closed(links),
        cur.idx() < links.len(),
    ensures
        forall|k: int|
            0 <= k < walk(links, start, cur, fuel, fan).len() ==> (#[trigger] walk(
                links,
                start,
                cur,
                fuel,
                fan,
            )[k]).idx() < links.len(),
        walk(links, start, cur, fuel, fan).len() <= fuel,
    decreases fuel,
{
    if fuel > 0 {
        let n = walk_step(links, cur, fan);
        assert(links[cur.idx()].next.idx() < links.len());
        assert(links[cur.idx()].prev.idx() < links.len());
        assert(links[links[cur.idx()].prev.idx()].twin.idx() < links.len());
        if n != start {
            lemma_walk_in_range(links, start, n, (fuel - 1) as nat, fan);
            let rest = walk(links, start, n, (fuel - 1) as nat, fan);
            assert forall|k: int|
                0 <= k < walk(links, start, cur, fuel, fan).len() implies (#[trigger] walk(
                links,
                start,
                cur,
                fuel,
                fan,
            )[k]).idx() < links.len() by {
                if k > 0 {
                    assert(walk(links, start, cur, fuel, fan)[k] == rest[k - 1]);
                }
            }
        }
    }
}

/// Counting origins one half-edge at a time.
pub proof fn lemma_origin_count_prefix(links: Seq<HalfEdgeLinks>, v: int, i: int)
    requires
        0 <= i < links.len(),
    ensures
        origin_count(links.subrange(0, i + 1), v) == origin_count(links.subrange(0, i), v) + (
        if links[i].origin.idx() == v {
            1nat
        } else {
            0nat
        }),
{
    assert(links.subrange(0, i + 1).drop_last() =~= links.subrange(0, i));
}

/// Checks the storage conditions: ids in range, twin/next/prev symmetry, face loops.
pub(crate) fn check_storage(
    outgoing: &Vec<HalfEdgeId>,
    links: &Vec<HalfEdgeLinks>,
    edges: &Vec<HalfEdgeId>,
    faces: &Vec<FaceRecord>,
    interior: usize,
) -> (r: Result<(), MeshError>)
    requires
        interior <= faces.len(),
        outgoing.len() < INVALID_INDEX,
        links.len() < INVALID_INDEX,
        edges.len() < INVALID_INDEX,
        faces.len() < INVALID_INDEX,
    ensures
        (r is Ok) == topo_of(outgoing@, links@, edges@, faces@, interior as int).storage_ok(),
        r is Err ==> r->Err_0 is Validation,
{
    let ghost t = topo_of(outgoing@, links@, edges@, faces@, interior as int);
    let nv = outgoing.len();
    let nh = links.len();
    let ne = edges.len();
    let nf = faces.len();
    let mut v: usize = 0;
    while v < nv
        invariant
            t == topo_of(outgoing@, links@, edges@, faces@, interior as int),
            nv == outgoing.len(),
            nh == links.len(),
            t.outgoing == outgoing@,
            t.links == links@,
            v <= nv,
            forall|w: int|
                0 <= w < v && (#[trigger] t.outgoing[w]).valid() ==> {
                    &&& t.outgoing[w].idx() < t.nh()
                    &&& t.links[t.outgoing[w].idx()].origin.idx() == w
                },
        decreases nv - v,
    {
        let o = outgoing[v];
        if o.is_valid() {
            if o.index() >= nh {
                proof { assert(t.outgoing[v as int] == o); assert(!t.vertices_ok()); assert(!t.storage_ok()); }
                return Err(validation_error("vertex points to a missing outgoing half-edge:", v));
            }
            if links[o.index()].origin.index() != v {
                proof { assert(t.outgoing[v as int] == o); assert(!t.vertices_ok()); }
                return Err(
                    validation_error("vertex outgoing half-edge does not originate at vertex", v),
                );
            }
        }
        v = v + 1;
    }
    let mut e: usize = 0;
    while e < ne
        invariant
            t == topo_of(outgoing@, links@, edges@, faces@, interior as int),
            ne == edges.len(),
            nh == links.len(),
            t.edges == edges@,
            t.links == links@,
            e <= ne,
            forall|x: int|
                0 <= x < e ==> {
                    &&& (#[trigger] t.edges[x]).idx() < t.nh()
                    &&& t.links[t.edges[x].idx()].edge.idx() == x
                },
        decreases ne - e,
    {
        let h = edges[e];
        if h.index() >= nh {
            proof { assert(t.edges[e as int] == h); assert(!t.edges_ok()); }
            return Err(validation_error("edge references a missing half-edge:", e));
        }
        if links[h.index()].edge.index() != e {
            proof { assert(t.edges[e as int] == h); assert(!t.edges_ok()); }
            return Err(validation_error("edge is not mirrored on its half-edge:", e));
        }
        e = e + 1;
    }
    let mut f: usize = 0;
    while f < nf
        invariant
            t == topo_of(outgoing@, links@, edges@, faces@, interior as int),
            nf == faces.len(),
            nh == links.len(),
            t.faces == faces@,
            t.links == links@,
            f <= nf,
            forall|x: int|
                0 <= x < f ==> {
                    &&& (#[trigger] t.faces[x]).halfedge.idx() < t.nh()
                    &&& t.links[t.faces[x].halfedge.idx()].face.idx() == x
                },
        decreases nf - f,
    {
        let h = faces[f].halfedge;
        if h.index() >= nh {
            proof { assert(t.faces[f as int].halfedge == h); assert(!t.faces_ok()); }
            return Err(validation_error("face references a missing half-edge:", f));
        }
        if links[h.index()].face.index() != f {
            proof { assert(t.faces[f as int].halfedge == h); assert(!t.faces_ok()); }
            return Err(validation_error("face half-edge points at another face:", f));
        }
        f = f + 1;
    }
    let mut h: usize = 0;
    while h < nh
        invariant
            t == topo_of(outgoing@, links@, edges@, faces@, interior as int),
            nv == outgoing.len(),
            nh == links.len(),
            ne == edges.len(),
            nf == faces.len(),
            t.outgoing == outgoing@,
            t.edges == edges@,
            t.faces == faces@,
            t.links == links@,
            h <= nh,
            forall|x: int| 0 <= x < h ==> #[trigger] t.link_ok(x),
        decreases nh - h,
    {
        let l = links[h];
        if l.twin.index() >= nh {
            proof { assert(t.links[h as int] == l); assert(!t.link_ok(h as int)); assert(!t.links_ok()); }
            return Err(validation_error("half-edge references a missing twin:", h));
        }
        if links[l.twin.index()].twin.index() != h {
            proof { assert(t.links[h as int] == l); assert(!t.link_ok(h as int)); assert(!t.links_ok()); }
            return Err(validation_error("half-edge twin symmetry is broken:", h));
        }
        if l.next.index() >= nh {
            proof { assert(t.links[h as int] == l); assert(!t.link_ok(h as int)); assert(!t.links_ok()); }
            return Err(validation_error("half-edge next pointer is invalid:", h));
        }
        if l.prev.index() >= nh {
            proof { assert(t.links[h as int] == l); assert(!t.link_ok(h as int)); assert(!t.links_ok()); }
            return Err(validation_error("half-edge prev pointer is invalid:", h));
        }
        if links[l.next.index()].prev.index() != h {
            proof { assert(t.links[h as int] == l); assert(!t.link_ok(h as int)); assert(!t.links_ok()); }
            return Err(validation_error("half-edge next/prev linkage is broken:", h));
        }
        if links[l.prev.index()].next.index() != h {
            proof { assert(t.links[h as int] == l); assert(!t.link_ok(h as int)); assert(!t.links_ok()); }
            return Err(validation_error("half-edge prev/next linkage is broken:", h));
        }
        if l.origin.index() >= nv {
            proof { assert(t.links[h as int] == l); assert(!t.link_ok(h as int)); assert(!t.links_ok()); }
            return Err(validation_error("half-edge origin is out of range:", h));
        }
        if l.face.index() >= nf {
            proof { assert(t.links[h as int] == l); assert(!t.link_ok(h as int)); assert(!t.links_ok()); }
            return Err(validation_error("half-edge face is out of range:", h));
        }
        if l.edge.index() >= ne {
            proof { assert(t.links[h as int] == l); assert(!t.link_ok(h as int)); assert(!t.links_ok()); }
            return Err(validation_error("half-edge edge is out of range:", h));
        }
        assert(t.link_ok(h as int));
        h = h + 1;
    }
    assert(links_closed(t.links)) by {
        assert forall|x: int| 0 <= x < t.links.len() implies {
            &&& (#[trigger] t.links[x]).next.idx() < t.links.len()
            &&& t.links[x].prev.idx() < t.links.len()
            &&& t.links[x].twin.idx() < t.links.len()
        } by {
            assert(t.link_ok(x));
        }
    }
    let mut f: usize = 0;
    while f < nf
        invariant
            t == topo_of(outgoing@, links@, edges@, faces@, interior as int),
            nf == faces.len(),
            nh == links.len(),
            t.faces == faces@,
            t.links == links@,
            links_closed(t.links),
            f <= nf,
            forall|x: int|
                0 <= x < nf ==> {
                    &&& (#[trigger] t.faces[x]).halfedge.idx() < t.nh()
                    &&& t.links[t.faces[x].halfedge.idx()].face.idx() == x
                },
            forall|x: int| 0 <= x < f ==> #[trigger] t.loop_ok(x),
        decreases nf - f,
    {
        assert(t.faces[f as int].halfedge.idx() < t.nh());
        let lp = walk_collect(links, faces[f].halfedge, false);
        assert(lp@ == t.face_loop(f as int));
        proof {
            lemma_walk_in_range(
                t.links,
                t.faces[f as int].halfedge,
                t.faces[f as int].halfedge,
                walk_cap(t.links),
                false,
            );
        }
        if lp.len() < 3 {
            proof { assert(!t.loop_ok(f as int)); assert(!t.loops_ok()); }
            return Err(validation_error("face loop has fewer than 3 half-edges:", f));
        }
        let mut k: usize = 0;
        while k < lp.len()
            invariant
                t == topo_of(outgoing@, links@, edges@, faces@, interior as int),
            t == topo_of(outgoing@, links@, edges@, faces@, interior as int),
                nh == links.len(),
                t.links == links@,
                f < faces.len(),
                lp@ == t.face_loop(f as int),
                forall|j: int| 0 <= j < lp.len() ==> (#[trigger] lp@[j]).idx() < nh,
                k <= lp.len(),
                forall|j: int|
                    0 <= j < k ==> t.links[(#[trigger] t.face_loop(f as int)[j]).idx()].face.idx()
                        == f,
            decreases lp.len() - k,
        {
            let he = lp[k];
            if links[he.index()].face.index() != f {
                assert(t.links[t.face_loop(f as int)[k as int].idx()].face.idx() != f);
                proof { assert(!t.loop_ok(f as int)); assert(!t.loops_ok()); }
                return Err(validation_error("face loop holds a half-edge of another face:", f));
            }
            k = k + 1;
        }
        assert(t.loop_ok(f as int));
        f = f + 1;
    }
    Ok(())
}

/// Checks the manifold conditions: two distinct faces per edge, and each vertex fan
/// visits every half-edge that leaves the vertex.
pub(crate) fn check_manifold(
    outgoing: &Vec<HalfEdgeId>,
    links: &Vec<HalfEdgeLinks>,
    edges: &Vec<HalfEdgeId>,
    faces: &Vec<FaceRecord>,
    interior: usize,
) -> (r: Result<(), MeshError>)
    requires
        topo_of(outgoing@, links@, edges@, faces@, interior as int).storage_ok(),
        outgoing.len() < INVALID_INDEX,
        links.len() < INVALID_INDEX,
    ensures
        (r is Ok) == topo_of(outgoing@, links@, edges@, faces@, interior as int).manifold_ok(),
        r is Err ==> r->Err_0 is Validation,
{
    let ghost t = topo_of(outgoing@, links@, edges@, faces@, interior as int);
    let nv = outgoing.len();
    let nh = links.len();
    let ne = edges.len();
    let mut e: usize = 0;
    while e < ne
        invariant
            t == topo_of(outgoing@, links@, edges@, faces@, interior as int),
            ne == edges.len(),
            nh == links.len(),
            t.edges == edges@,
            t.links == links@,
            t.storage_ok(),
            e <= ne,
            forall|x: int|
                0 <= x < e ==> #[trigger] t.links[t.edges[x].idx()].face != t.links[t.links[t.edges[
                    x].idx()].twin.idx()].face,
        decreases ne - e,
    {
        let h = edges[e];
        assert(t.edges[e as int].idx() < t.nh());
        assert(t.link_ok(h.idx()));
        let tw = links[h.index()].twin;
        if links[h.index()].face == links[tw.index()].face {
            proof { assert(t.edges[e as int] == h); assert(!t.edge_sides_ok()); }
            return Err(validation_error("edge has the same face on both sides:", e));
        }
        e = e + 1;
    }
    assert(links_closed(t.links)) by {
        assert forall|x: int| 0 <= x < t.links.len() implies {
            &&& (#[trigger] t.links[x]).next.idx() < t.links.len()
            &&& t.links[x].prev.idx() < t.links.len()
            &&& t.links[x].twin.idx() < t.links.len()
        } by {
            assert(t.link_ok(x));
        }
    }
    let mut v: usize = 0;
    while v < nv
        invariant
            t == topo_of(outgoing@, links@, edges@, faces@, interior as int),
            nv == outgoing.len(),
            nh == links.len(),
            t.outgoing == outgoing@,
            t.links == links@,
            t.storage_ok(),
            links_closed(t.links),
            v <= nv,
            forall|x: int| 0 <= x < v ==> #[trigger] t.fan_ok(x),
        decreases nv - v,
    {
        let mut count: usize = 0;
        let mut h: usize = 0;
        while h < nh
            invariant
                t == topo_of(outgoing@, links@, edges@, faces@, interior as int),
            t == topo_of(outgoing@, links@, edges@, faces@, interior as int),
                nh == links.len(),
                t.links == links@,
                h <= nh,
                count == origin_count(t.links.subrange(0, h as int), v as int),
                count <= h,
            decreases nh - h,
        {
            proof {
                lemma_origin_count_prefix(t.links, v as int, h as int);
            }
            if links[h].origin.index() == v {
                count = count + 1;
            }
            h = h + 1;
        }
        assert(t.links.subrange(0, nh as int) =~= t.links);
        let o = outgoing[v];
        let traversed: usize = if o.is_valid() {
            assert(t.outgoing[v as int].valid());
            let fan = walk_collect(links, o, true);
            fan.len()
        } else {
            0
        };
        assert(traversed == t.fan(v as int).len());
        if count != 0 && traversed != count {
            assert(!t.fan_ok(v as int));
            proof { assert(!t.fans_ok()); }
            return Err(validation_error("vertex fan does not visit every outgoing half-edge:", v));
        }
        v = v + 1;
    }
    Ok(())
}

/// Checks everything `validate` checks, storage first.
pub(crate) fn check_topology(
    outgoing: &Vec<HalfEdgeId>,
    links: &Vec<HalfEdgeLinks>,
    edges: &Vec<HalfEdgeId>,
    faces: &Vec<FaceRecord>,
    interior: usize,
) -> (r: Result<(), MeshError>)
    requires
        interior <= faces.len(),
        outgoing.len() < INVALID_INDEX,
        links.len() < INVALID_INDEX,
        edges.len() < INVALID_INDEX,
        faces.len() < INVALID_INDEX,
    ensures
        (r is Ok) == topo_of(outgoing@, links@, edges@, faces@, interior as int).valid(),
        r is Err ==> r->Err_0 is Validation,
{
    match check_storage(outgoing, links, edges, faces, interior) {
        Ok(()) => {},
        Err(e) => {
            return Err(e);
        },
    }
    check_manifold(outgoing, links, edges, faces, interior)
}

} // verus!
