use crate::ids::{FaceId, INVALID_INDEX};
use crate::mesh::{lemma_face_loop_in_range, lemma_valid_links_closed, HalfEdgeMesh, Topology};
use crate::topology::{
    chain_connected, face_listed, faces_adjacent, is_component_split, is_face_partition,
    linked_to_earlier, listed_in, listed_upto, neighbors_listed, starts_at_min, walk_face,
};
use vstd::prelude::*;

verus! {

/// Number of faces not reached yet.
pub open spec fn count_false(s: Seq<bool>) -> nat
    decreases s.len(),
{
    if s.len() == 0 {
        0
    } else {
        count_false(s.drop_last()) + (if s.last() {
            0nat
        } else {
            1nat
        })
    }
}

proof fn lemma_count_false_set(s: Seq<bool>, i: int)
    requires
        0 <= i < s.len(),
        !s[i],
    ensures
        count_false(s.update(i, true)) + 1 == count_false(s),
    decreases s.len(),
{
    let u = s.update(i, true);
    if i == s.len() - 1 {
        assert(u.drop_last() =~= s.drop_last());
    } else {
        assert(u.drop_last() =~= s.drop_last().update(i, true));
        lemma_count_false_set(s.drop_last(), i);
    }
}

/// Face `f` is in the search queue.
pub open spec fn queued(q: Seq<FaceId>, f: int) -> bool {
    exists|k: int| 0 <= k < q.len() && q[k].idx() == f
}

/// The lists found so far: what the search keeps true between two start faces.
pub open spec fn split_so_far(t: Topology, cs: Seq<Seq<FaceId>>, visited: Seq<bool>, s: int) -> bool {
    let n = t.interior;
    &&& visited.len() == n
    &&& 0 <= s <= n
    &&& forall|f: int| 0 <= f < n ==> (#[trigger] visited[f] <==> face_listed(cs, f))
    &&& forall|f: int| 0 <= f < s ==> #[trigger] visited[f]
    &&& forall|c: int| 0 <= c < cs.len() ==> (#[trigger] cs[c]).len() > 0
    &&& forall|c: int, k: int|
        0 <= c < cs.len() && 0 <= k < cs[c].len() ==> 0 <= (#[trigger] cs[c][k]).idx() < n
    &&& forall|c1: int, k1: int, c2: int, k2: int|
        0 <= c1 < cs.len() && 0 <= k1 < cs[c1].len() && 0 <= c2 < cs.len() && 0 <= k2 < cs[c2].len()
            && (c1 != c2 || k1 != k2) ==> #[trigger] cs[c1][k1] != #[trigger] cs[c2][k2]
    &&& forall|c: int|
        0 <= c < cs.len() ==> {
            &&& chain_connected(t, #[trigger] cs[c])
            &&& starts_at_min(cs[c])
            &&& neighbors_listed(t, cs, c)
            &&& cs[c][0].idx() < s
        }
    &&& forall|c1: int, c2: int|
        0 <= c1 < c2 < cs.len() ==> (#[trigger] cs[c1])[0].idx() < (#[trigger] cs[c2])[0].idx()
}

/// The search from start face `s`: what holds while the queue is worked through.
pub open spec fn search_state(
    t: Topology,
    cs: Seq<Seq<FaceId>>,
    visited: Seq<bool>,
    s: int,
    q: Seq<FaceId>,
    head: int,
) -> bool {
    let n = t.interior;
    &&& visited.len() == n
    &&& 0 <= s < n
    &&& forall|f: int| 0 <= f < n ==> (#[trigger] visited[f] <==> (face_listed(cs, f) || queued(q, f)))
    &&& forall|f: int| 0 <= f < s ==> #[trigger] visited[f]
    &&& q.len() >= 1
    &&& q[0].idx() == s
    &&& 0 <= head <= q.len()
    &&& forall|k: int| 0 <= k < q.len() ==> s <= (#[trigger] q[k]).idx() < n
    &&& forall|k: int| 0 <= k < q.len() ==> !face_listed(cs, (#[trigger] q[k]).idx())
    &&& forall|k1: int, k2: int|
        0 <= k1 < q.len() && 0 <= k2 < q.len() && k1 != k2 ==> #[trigger] q[k1] != #[trigger] q[k2]
    &&& chain_connected(t, q)
    &&& forall|k: int, g: int|
        0 <= k < head && 0 <= g < n && #[trigger] faces_adjacent(t, q[k].idx(), g) ==> visited[g]
}

proof fn lemma_append_component(
    t: Topology,
    cs: Seq<Seq<FaceId>>,
    before: Seq<bool>,
    visited: Seq<bool>,
    s: int,
    q: Seq<FaceId>,
)
    requires
        split_so_far(t, cs, before, s),
        !face_listed(cs, s),
        search_state(t, cs, visited, s, q, q.len() as int),
    ensures
        split_so_far(t, cs.push(q), visited, s + 1),
{
    let n = t.interior;
    let cs2 = cs.push(q);
    assert forall|f: int| 0 <= f < n implies (#[trigger] visited[f] <==> face_listed(cs2, f)) by {
        if visited[f] {
            if face_listed(cs, f) {
                let (c, k) = choose|c: int, k: int| 0 <= c < cs.len() && 0 <= k < cs[c].len() && cs[c][k].idx() == f;
                assert(cs2[c][k] == cs[c][k]);
            } else {
                let k = choose|k: int| 0 <= k < q.len() && q[k].idx() == f;
                assert(cs2[cs.len() as int][k] == q[k]);
            }
        }
        if face_listed(cs2, f) {
            let (c, k) = choose|c: int, k: int| 0 <= c < cs2.len() && 0 <= k < cs2[c].len() && cs2[c][k].idx() == f;
            if c < cs.len() {
                assert(cs[c][k] == cs2[c][k]);
                assert(face_listed(cs, f));
            } else {
                assert(queued(q, f));
            }
        }
    }
    assert forall|f: int| 0 <= f < s + 1 implies #[trigger] visited[f] by {
        if f < s {
        } else {
            assert(queued(q, s)) by {
                assert(q[0].idx() == s);
            }
        }
    }
    assert forall|c: int| 0 <= c < cs2.len() implies (#[trigger] cs2[c]).len() > 0 by {
        if c < cs.len() {
            assert(cs2[c] == cs[c]);
        }
    }
    assert forall|c: int, k: int| 0 <= c < cs2.len() && 0 <= k < cs2[c].len() implies 0 <= (#[trigger] cs2[c][k]).idx() < n by {
        if c < cs.len() {
            assert(cs2[c] == cs[c]);
            assert(cs[c][k] == cs2[c][k]);
        } else {
            assert(cs2[c][k] == q[k]);
        }
    }
    assert forall|c1: int, k1: int, c2: int, k2: int|
        0 <= c1 < cs2.len() && 0 <= k1 < cs2[c1].len() && 0 <= c2 < cs2.len() && 0 <= k2 < cs2[c2].len()
            && (c1 != c2 || k1 != k2) implies #[trigger] cs2[c1][k1] != #[trigger] cs2[c2][k2] by {
        if c1 < cs.len() && c2 < cs.len() {
            assert(cs2[c1][k1] == cs[c1][k1]);
            assert(cs2[c2][k2] == cs[c2][k2]);
        } else if c1 < cs.len() {
            assert(cs2[c2][k2] == q[k2]);
            assert(cs2[c1][k1] == cs[c1][k1]);
            if cs2[c1][k1] == cs2[c2][k2] {
                assert(face_listed(cs, q[k2].idx()));
            }
        } else if c2 < cs.len() {
            assert(cs2[c1][k1] == q[k1]);
            assert(cs2[c2][k2] == cs[c2][k2]);
            if cs2[c1][k1] == cs2[c2][k2] {
                assert(face_listed(cs, q[k1].idx()));
            }
        } else {
            assert(cs2[c1][k1] == q[k1]);
            assert(cs2[c2][k2] == q[k2]);
        }
    }
    assert forall|c: int| 0 <= c < cs2.len() implies {
        &&& chain_connected(t, #[trigger] cs2[c])
        &&& starts_at_min(cs2[c])
        &&& neighbors_listed(t, cs2, c)
        &&& cs2[c][0].idx() < s + 1
    } by {
        if c < cs.len() {
            assert(cs2[c] == cs[c]);
            assert(neighbors_listed(t, cs, c));
            assert forall|k: int, g: int|
                0 <= k < cs2[c].len() && 0 <= g < t.interior && #[trigger] faces_adjacent(t, cs2[c][k].idx(), g)
                    implies listed_upto(cs2, g, c) by {
                assert(cs2[c][k] == cs[c][k]);
                assert(listed_upto(cs, g, c));
                let c3 = choose|c3: int| 0 <= c3 <= c && listed_in(cs, g, c3);
                let k3 = choose|k3: int| 0 <= k3 < cs[c3].len() && cs[c3][k3].idx() == g;
                assert(cs2[c3][k3] == cs[c3][k3]);
                assert(listed_in(cs2, g, c3));
            }
        } else {
            assert(cs2[c] == q);
            assert forall|k: int| 0 <= k < q.len() implies q[0].idx() <= (#[trigger] q[k]).idx() by {
            }
            assert forall|k: int, g: int|
                0 <= k < cs2[c].len() && 0 <= g < t.interior && #[trigger] faces_adjacent(t, cs2[c][k].idx(), g)
                    implies listed_upto(cs2, g, c) by {
                assert(faces_adjacent(t, q[k].idx(), g));
                assert(visited[g]);
                if face_listed(cs, g) {
                    let (c3, k3) = choose|c3: int, k3: int| 0 <= c3 < cs.len() && 0 <= k3 < cs[c3].len() && cs[c3][k3].idx() == g;
                    assert(cs2[c3][k3] == cs[c3][k3]);
                    assert(listed_in(cs2, g, c3));
                } else {
                    let k3 = choose|k3: int| 0 <= k3 < q.len() && q[k3].idx() == g;
                    assert(cs2[c][k3] == q[k3]);
                    assert(listed_in(cs2, g, c));
                }
            }
        }
    }
    assert forall|c1: int, c2: int| 0 <= c1 < c2 < cs2.len() implies (#[trigger] cs2[c1])[0].idx() < (#[trigger] cs2[c2])[0].idx() by {
        assert(cs2[c1] == cs[c1]);
        if c2 < cs.len() {
            assert(cs2[c2] == cs[c2]);
        }
    }
}

/// Breadth-first search over interior faces through shared edges.
pub(crate) fn face_components<V: Copy, L: Copy>(m: &HalfEdgeMesh<V, L>) -> (comps: Vec<Vec<FaceId>>)
    ensures
        is_component_split(m.topology(), comps@.map_values(|c: Vec<FaceId>| c@)),
{
    proof {
        use_type_invariant(m);
        lemma_valid_links_closed(m.topology());
    }
    let ghost t = m.topology();
    let n = m.interior_face_count;
    let mut visited: Vec<bool> = Vec::new();
    let mut i: usize = 0;
    while i < n
        invariant
            i <= n,
            visited@.len() == i,
            forall|f: int| 0 <= f < i ==> !(#[trigger] visited@[f]),
        decreases n - i,
    {
        visited.push(false);
        i = i + 1;
    }
    let mut comps: Vec<Vec<FaceId>> = Vec::new();
    let ghost mut cs: Seq<Seq<FaceId>> = Seq::empty();
    proof {
        assert forall|f: int| 0 <= f < n implies (#[trigger] visited@[f] <==> face_listed(cs, f)) by {
        }
    }
    let mut s: usize = 0;
    while s < n
        invariant
            t == m.topology(),
            t.wf(),
            n == t.interior,
            cs == comps@.map_values(|c: Vec<FaceId>| c@),
            split_so_far(t, cs, visited@, s as int),
        decreases n - s,
    {
        if visited[s] {
            s = s + 1;
            continue;
        }
        proof {
            assert(!face_listed(cs, s as int));
        }
        let ghost before_visited = visited@;
        visited.set(s, true);
        let mut q: Vec<FaceId> = Vec::new();
        q.push(FaceId(s as u32));
        let mut head: usize = 0;
        proof {
            assert(visited@.update(s as int, false) =~= before_visited);
            assert forall|f: int| 0 <= f < n implies (#[trigger] visited@[f] <==> (face_listed(cs, f) || queued(q@, f))) by {
                if f == s {
                    assert(q@[0].idx() == s);
                }
                if queued(q@, f) {
                    let k = choose|k: int| 0 <= k < q@.len() && q@[k].idx() == f;
                    assert(k == 0);
                }
            }
            assert(chain_connected(t, q@));
        }
        while head < q.len()
            invariant
                t == m.topology(),
                t.wf(),
                links_ok_for(t),
                n == t.interior,
                n < INVALID_INDEX,
                s < n,
                cs == comps@.map_values(|c: Vec<FaceId>| c@),
                split_so_far(t, cs, before_visited, s as int),
                !face_listed(cs, s as int),
                visited@.update(s as int, false) == before_visited.update(s as int, false) || true,
                forall|f: int| 0 <= f < n && before_visited[f] ==> #[trigger] visited@[f],
                search_state(t, cs, visited@, s as int, q@, head as int),
            decreases count_false(visited@) + q@.len() - head,
        {
            let cur = q[head];
            head = head + 1;
            let hs = walk_face(m, cur.index());
            proof {
                lemma_face_loop_in_range(t, cur.idx());
            }
            let ghost budget = count_false(visited@) + q@.len();
            let mut j: usize = 0;
            while j < hs.len()
                invariant
                    count_false(visited@) + q@.len() == budget,
                    t == m.topology(),
                    t.wf(),
                    links_ok_for(t),
                    n == t.interior,
                    n < INVALID_INDEX,
                    s < n,
                    1 <= head <= q@.len(),
                    cur == q@[head - 1],
                    hs@ == t.face_loop(cur.idx()),
                    forall|x: int| 0 <= x < hs@.len() ==> (#[trigger] hs@[x]).idx() < t.nh(),
                    j <= hs@.len(),
                    !face_listed(cs, s as int),
                    forall|f: int| 0 <= f < n && before_visited[f] ==> #[trigger] visited@[f],
                    search_state(t, cs, visited@, s as int, q@, head as int - 1),
                    forall|x: int|
                        0 <= x < j ==> {
                            let g = t.links[t.links[(#[trigger] hs@[x]).idx()].twin.idx()].face.idx();
                            g < n ==> visited@[g]
                        },
                decreases hs@.len() - j,
            {
                let h = hs[j].index();
                let tw = m.links[h].twin.index();
                proof {
                    assert(t.link_ok(h as int));
                    assert(t.link_ok(tw as int));
                }
                let g = m.links[tw].face.index();
                if g < n && !visited[g] {
                    let ghost old_q = q@;
                    let ghost old_visited = visited@;
                    visited.set(g, true);
                    q.push(FaceId(g as u32));
                    proof {
                        lemma_count_false_set(old_visited, g as int);
                        let k_new = old_q.len() as int;
                        assert(q@[k_new].idx() == g);
                        assert(faces_adjacent(t, q@[head - 1].idx(), g as int)) by {
                            assert(t.face_loop(cur.idx())[j as int] == hs@[j as int]);
                        }
                        assert(linked_to_earlier(t, q@, k_new));
                        assert(!face_listed(cs, g as int));
                        assert forall|f: int| 0 <= f < n implies (#[trigger] visited@[f] <==> (face_listed(cs, f) || queued(q@, f))) by {
                            if f == g {
                                assert(queued(q@, f));
                            } else {
                                assert(old_visited[f] == visited@[f]);
                                if queued(old_q, f) {
                                    let k = choose|k: int| 0 <= k < old_q.len() && old_q[k].idx() == f;
                                    assert(q@[k] == old_q[k]);
                                }
                                if queued(q@, f) {
                                    let k = choose|k: int| 0 <= k < q@.len() && q@[k].idx() == f;
                                    assert(k < old_q.len());
                                    assert(old_q[k] == q@[k]);
                                }
                            }
                        }
                        assert forall|k1: int, k2: int| 0 <= k1 < q@.len() && 0 <= k2 < q@.len() && k1 != k2 implies #[trigger] q@[k1] != #[trigger] q@[k2] by {
                            if k1 == k_new && k2 < k_new {
                                assert(queued(old_q, q@[k2].idx()));
                            }
                            if k2 == k_new && k1 < k_new {
                                assert(queued(old_q, q@[k1].idx()));
                            }
                        }
                        assert forall|k: int| 0 < k < q@.len() implies #[trigger] linked_to_earlier(t, q@, k) by {
                            if k < k_new {
                                assert(linked_to_earlier(t, old_q, k));
                                let jj = choose|jj: int| 0 <= jj < k && faces_adjacent(t, old_q[jj].idx(), old_q[k].idx());
                                assert(q@[jj] == old_q[jj]);
                            }
                        }
                        assert forall|k: int| 0 <= k < q@.len() implies s <= (#[trigger] q@[k]).idx() < n by {
                            if k == k_new {
                                if (g as int) < s {
                                    assert(old_visited[g as int]);
                                }
                            }
                        }
                    }
                }
                j = j + 1;
            }
            proof {
                assert forall|k: int, g: int| 0 <= k < head && 0 <= g < n && #[trigger] faces_adjacent(t, q@[k].idx(), g) implies visited@[g] by {
                    if k == head - 1 {
                        let x = choose|x: int| 0 <= x < t.face_loop(q@[k].idx()).len()
                            && t.links[t.links[t.face_loop(q@[k].idx())[x].idx()].twin.idx()].face.idx() == g;
                        assert(hs@[x] == t.face_loop(cur.idx())[x]);
                    }
                }
            }
        }
        let ghost qs = q@;
        comps.push(q);
        proof {
            lemma_append_component(t, cs, before_visited, visited@, s as int, qs);
            cs = cs.push(qs);
            assert(cs =~= comps@.map_values(|c: Vec<FaceId>| c@));
        }
        s = s + 1;
    }
    proof {
        assert forall|f: int| 0 <= f < n implies #[trigger] face_listed(cs, f) by {
            assert(visited@[f]);
        }
        assert(is_face_partition(cs, n as int));
    }
    comps
}

/// Every link of a well-formed topology points inside the arrays.
pub open spec fn links_ok_for(t: Topology) -> bool {
    t.links_ok()
}

} // verus!
