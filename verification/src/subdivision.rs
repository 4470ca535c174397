use crate::error::MeshError;
use crate::ids::{EdgeId, VertexId};
use crate::mesh::{HalfEdgeMesh, Polygon};
use crate::ops::{joined, lemma_joined_push, lemma_views_push, rebuilt_from};
use crate::rebuild::{face_view, views};
use crate::snapshot::{MeshSnapshot, PolygonFace};
use vstd::prelude::*;

verus! {

/// An undirected edge as the ordered pair of its ends.
pub open spec fn edge_key(a: usize, b: usize) -> (usize, usize) {
    if a < b {
        (a, b)
    } else {
        (b, a)
    }
}

/// The undirected edge of side `c` of `p` (from corner `c` to the next corner).
pub open spec fn side_key<L>(p: Polygon<L>, c: int) -> (usize, usize) {
    edge_key(p.corners[c], p.corners[(c + 1) % (p.corners.len() as int)])
}

/// The undirected edges of the sides of `p`, side by side.
pub open spec fn side_keys<L>(p: Polygon<L>) -> Seq<(usize, usize)> {
    Seq::new(p.corners.len(), |c: int| side_key(p, c))
}

/// The undirected edges of all sides of all polygons, in face then side order.
pub open spec fn all_side_keys<L>(ps: Seq<Polygon<L>>) -> Seq<(usize, usize)> {
    joined(ps.map_values(|p: Polygon<L>| side_keys(p)))
}

/// The values of `s` in order of first occurrence, each once.
pub open spec fn first_keys<K>(s: Seq<K>) -> Seq<K>
    decreases s.len(),
{
    if s.len() == 0 {
        Seq::empty()
    } else {
        let pre = first_keys(s.drop_last());
        if pre.contains(s.last()) {
            pre
        } else {
            pre.push(s.last())
        }
    }
}

/// The edges of a polygon list, each once, in order of first use.
pub open spec fn edge_keys<L>(ps: Seq<Polygon<L>>) -> Seq<(usize, usize)> {
    first_keys(all_side_keys(ps))
}

/// `k` is the first position of `v` in `s`.
pub open spec fn first_at<K>(s: Seq<K>, v: K, k: int) -> bool {
    &&& 0 <= k < s.len()
    &&& s[k] == v
    &&& forall|j: int| 0 <= j < k ==> s[j] != v
}

/// The position of `v` in `s` (its first one).
pub open spec fn slot_of<K>(s: Seq<K>, v: K) -> int {
    choose|k: int| first_at(s, v, k)
}

/// The edge list of a polygon list and, for each side of each polygon, the position of
/// its edge in that list.
pub open spec fn is_adjacency<L>(ps: Seq<Polygon<L>>, keys: Seq<(usize, usize)>, sides: Seq<Seq<usize>>) -> bool {
    &&& keys == edge_keys(ps)
    &&& sides.len() == ps.len()
    &&& forall|f: int|
        0 <= f < ps.len() ==> {
            &&& (#[trigger] sides[f]).len() == ps[f].corners.len()
            &&& forall|c: int| 0 <= c < sides[f].len() ==> first_at(keys, side_key(ps[f], c), #[trigger] sides[f][c] as int)
        }
}

/// The undirected key of two vertex indices.
pub(crate) fn edge_key_of(a: usize, b: usize) -> (k: (usize, usize))
    ensures
        k == edge_key(a, b),
{
    if a < b {
        (a, b)
    } else {
        (b, a)
    }
}

/// The first position of `key` among `keys`.
pub(crate) fn find_first(keys: &Vec<(usize, usize)>, key: (usize, usize)) -> (r: Option<usize>)
    ensures
        r matches Some(k) ==> first_at(keys@, key, k as int),
        r is None ==> !keys@.contains(key),
{
    let mut h: usize = 0;
    while h < keys.len()
        invariant
            h <= keys@.len(),
            forall|x: int| 0 <= x < h ==> keys@[x] != key,
        decreases keys@.len() - h,
    {
        let k = keys[h];
        if k.0 == key.0 && k.1 == key.1 {
            return Some(h);
        }
        h = h + 1;
    }
    None
}

/// The corner after corner `i` of a polygon with `n` corners.
pub open spec fn next_corner(i: int, n: int) -> int {
    if i + 1 == n {
        0
    } else {
        i + 1
    }
}

/// Corner `i` starts a side running from `a` to `b`.
pub open spec fn side_from_to(corners: Seq<VertexId>, a: VertexId, b: VertexId, i: int) -> bool {
    corners[i] == a && corners[next_corner(i, corners.len() as int)] == b
}

/// The corner two steps after the first side running from `a` to `b` (the third corner
/// when the polygon is a triangle), or nothing when no side runs so.
pub fn triangle_opposite(corners: &[VertexId], a: VertexId, b: VertexId) -> (r: Option<usize>)
    ensures
        r is None ==> forall|i: int| 0 <= i < corners@.len() ==> !#[trigger] side_from_to(corners@, a, b, i),
        r is Some ==> exists|i: int|
            0 <= i < corners@.len() && #[trigger] side_from_to(corners@, a, b, i) && (forall|j: int|
                0 <= j < i ==> !#[trigger] side_from_to(corners@, a, b, j)) && r->0 == corners@[next_corner(
                next_corner(i, corners@.len() as int),
                corners@.len() as int,
            )].0,
{
    let n = corners.len();
    let mut i: usize = 0;
    while i < n
        invariant
            i <= n,
            n == corners@.len(),
            forall|j: int| 0 <= j < i ==> !#[trigger] side_from_to(corners@, a, b, j),
        decreases n - i,
    {
        let j = if i + 1 == n { 0 } else { i + 1 };
        if corners[i] == a && corners[j] == b {
            let k = if j + 1 == n { 0 } else { j + 1 };
            proof {
                assert(side_from_to(corners@, a, b, i as int));
            }
            return Some(corners[k].index());
        }
        i = i + 1;
    }
    None
}

/// The sides `0..k` of face `f` (with side slots `row`) that run edge `slot`, in order.
pub open spec fn side_uses(row: Seq<usize>, f: int, slot: int, k: int) -> Seq<(usize, usize)>
    decreases k,
{
    if k <= 0 {
        Seq::empty()
    } else {
        let s = side_uses(row, f, slot, k - 1);
        if row[k - 1] == slot {
            s.push((f as usize, (k - 1) as usize))
        } else {
            s
        }
    }
}

/// The sides of faces `0..f` that run edge `slot`, face by face and side by side.
pub open spec fn uses_of(sides: Seq<Seq<usize>>, slot: int, f: int) -> Seq<(usize, usize)>
    decreases f,
{
    if f <= 0 {
        Seq::empty()
    } else {
        uses_of(sides, slot, f - 1) + side_uses(sides[f - 1], f - 1, slot, sides[f - 1].len() as int)
    }
}

/// For each edge slot, the (face, side) pairs that run it, in face then side order.
pub fn edge_uses(keys: &Vec<(usize, usize)>, sides: &Vec<Vec<usize>>) -> (uses: Vec<Vec<(usize, usize)>>)
    requires
        forall|f: int, k: int| 0 <= f < sides@.len() && 0 <= k < sides@[f]@.len() ==> #[trigger] sides@[f]@[k] < keys@.len(),
    ensures
        uses@.len() == keys@.len(),
        forall|s: int|
            0 <= s < keys@.len() ==> (#[trigger] uses@[s])@ == uses_of(
                sides@.map_values(|v: Vec<usize>| v@),
                s,
                sides@.len() as int,
            ),
{
    let ghost sv = sides@.map_values(|v: Vec<usize>| v@);
    let mut uses: Vec<Vec<(usize, usize)>> = Vec::new();
    let mut s: usize = 0;
    while s < keys.len()
        invariant
            s <= keys@.len(),
            uses@.len() == s,
            forall|t: int| 0 <= t < s ==> (#[trigger] uses@[t])@ == Seq::<(usize, usize)>::empty(),
        decreases keys@.len() - s,
    {
        uses.push(Vec::new());
        s = s + 1;
    }
    let mut f: usize = 0;
    while f < sides.len()
        invariant
            sv == sides@.map_values(|v: Vec<usize>| v@),
            f <= sides@.len(),
            uses@.len() == keys@.len(),
            forall|g: int, k: int| 0 <= g < sides@.len() && 0 <= k < sides@[g]@.len() ==> #[trigger] sides@[g]@[k] < keys@.len(),
            forall|t: int| 0 <= t < keys@.len() ==> (#[trigger] uses@[t])@ == uses_of(sv, t, f as int),
        decreases sides@.len() - f,
    {
        let row = &sides[f];
        let mut k: usize = 0;
        while k < row.len()
            invariant
                sv == sides@.map_values(|v: Vec<usize>| v@),
                f < sides@.len(),
                row@ == sv[f as int],
                k <= row@.len(),
                uses@.len() == keys@.len(),
                forall|g: int, x: int| 0 <= g < sides@.len() && 0 <= x < sides@[g]@.len() ==> #[trigger] sides@[g]@[x] < keys@.len(),
                forall|t: int|
                    0 <= t < keys@.len() ==> (#[trigger] uses@[t])@ == uses_of(sv, t, f as int) + side_uses(row@, f as int, t, k as int),
            decreases row@.len() - k,
        {
            let slot = row[k];
            proof {
                assert(sides@[f as int]@[k as int] == slot);
            }
            let mut updated = crate::snapshot::copy_vec(&uses[slot]);
            updated.push((f, k));
            let ghost before = uses@;
            uses.set(slot, updated);
            proof {
                assert forall|t: int| 0 <= t < keys@.len() implies (#[trigger] uses@[t])@ == uses_of(sv, t, f as int) + side_uses(
                    row@,
                    f as int,
                    t,
                    k as int + 1,
                ) by {
                    if t == slot {
                        assert((uses_of(sv, t, f as int) + side_uses(row@, f as int, t, k as int)).push((f, k)) =~= uses_of(sv, t, f as int)
                            + side_uses(row@, f as int, t, k as int).push((f, k)));
                    } else {
                        assert(uses@[t] == before[t]);
                    }
                }
            }
            k = k + 1;
        }
        proof {
            assert forall|t: int| 0 <= t < keys@.len() implies (#[trigger] uses@[t])@ == uses_of(sv, t, f as int + 1) by {
                assert(sv[f as int].len() == row@.len());
            }
        }
        f = f + 1;
    }
    uses
}

/// The edges used by a list of polygons, each once in order of first use, and for each
/// side of each polygon the position of its edge in that list.
pub fn edge_adjacency<L>(faces: &Vec<PolygonFace<L>>) -> (r: (Vec<(usize, usize)>, Vec<Vec<usize>>))
    ensures
        is_adjacency(views(faces@), r.0@, r.1@.map_values(|v: Vec<usize>| v@)),
{
    let ghost ps = views(faces@);
    let ghost sk = ps.map_values(|p: Polygon<L>| side_keys(p));
    let mut keys: Vec<(usize, usize)> = Vec::new();
    let mut sides: Vec<Vec<usize>> = Vec::new();
    let mut i: usize = 0;
    while i < faces.len()
        invariant
            ps == views(faces@),
            sk == ps.map_values(|p: Polygon<L>| side_keys(p)),
            i <= faces@.len(),
            keys@ == first_keys(joined(sk.take(i as int))),
            sides@.len() == i,
            forall|f: int|
                0 <= f < i ==> {
                    &&& (#[trigger] sides@[f])@.len() == ps[f].corners.len()
                    &&& forall|c: int| 0 <= c < sides@[f]@.len() ==> first_at(keys@, side_key(ps[f], c), #[trigger] sides@[f]@[c] as int)
                },
        decreases faces@.len() - i,
    {
        let n = faces[i].vertices.len();
        let ghost p = ps[i as int];
        let ghost base = joined(sk.take(i as int));
        proof {
            assert(p == face_view(faces@[i as int]));
        }
        let mut row: Vec<usize> = Vec::new();
        let mut c: usize = 0;
        while c < n
            invariant
                ps == views(faces@),
                sk == ps.map_values(|p: Polygon<L>| side_keys(p)),
                i < faces@.len(),
                p == ps[i as int],
                n == p.corners.len(),
                base == joined(sk.take(i as int)),
                c <= n,
                keys@ == first_keys(base + side_keys(p).take(c as int)),
                sides@.len() == i,
                forall|f: int|
                    0 <= f < i ==> {
                        &&& (#[trigger] sides@[f])@.len() == ps[f].corners.len()
                        &&& forall|c2: int| 0 <= c2 < sides@[f]@.len() ==> first_at(keys@, side_key(ps[f], c2), #[trigger] sides@[f]@[c2] as int)
                    },
                row@.len() == c,
                forall|c2: int| 0 <= c2 < c ==> first_at(keys@, side_key(p, c2), #[trigger] row@[c2] as int),
            decreases n - c,
        {
            let next = if c + 1 == n { 0 } else { c + 1 };
            proof {
                if c + 1 == n {
                    vstd::arithmetic::div_mod::lemma_mod_self_0(n as int);
                } else {
                    vstd::arithmetic::div_mod::lemma_small_mod((c + 1) as nat, n as nat);
                }
            }
            let key = edge_key_of(faces[i].vertices[c], faces[i].vertices[next]);
            let ghost prefix = base + side_keys(p).take(c as int);
            proof {
                assert(key == side_key(p, c as int));
                assert((base + side_keys(p).take(c + 1)).drop_last() =~= prefix);
                assert((base + side_keys(p).take(c + 1)).last() == key);
            }
            let slot = match find_first(&keys, key) {
                Some(k) => k,
                None => {
                    let k = keys.len();
                    keys.push(key);
                    proof {
                        assert(first_at(keys@, key, k as int));
                    }
                    k
                },
            };
            row.push(slot);
            c = c + 1;
        }
        proof {
            assert(side_keys(p).take(n as int) =~= side_keys(p));
            assert(sk.take(i + 1) =~= sk.take(i as int).push(sk[i as int]));
            lemma_joined_push(sk.take(i as int), sk[i as int]);
        }
        sides.push(row);
        i = i + 1;
    }
    proof {
        assert(sk.take(faces@.len() as int) =~= sk);
        let sv = sides@.map_values(|v: Vec<usize>| v@);
        assert forall|f: int| 0 <= f < ps.len() implies {
            &&& (#[trigger] sv[f]).len() == ps[f].corners.len()
            &&& forall|c: int| 0 <= c < sv[f].len() ==> first_at(keys@, side_key(ps[f], c), #[trigger] sv[f][c] as int)
        } by {
            assert(sv[f] == sides@[f]@);
        }
    }
    (keys, sides)
}


pub(crate) proof fn lemma_slot_of<K>(s: Seq<K>, v: K, k: int)
    requires
        first_at(s, v, k),
    ensures
        slot_of(s, v) == k,
{
    let j = slot_of(s, v);
    assert(first_at(s, v, j));
    if j < k {
        assert(s[j] == v);
    } else if j > k {
        assert(s[k] == v);
    }
}

/// The four quads of one polygon under a Catmull-Clark step: corner `c` becomes
/// `corner, point of side c, face point, point of side c-1`, with the corner's payload on
/// its first two corners, `center` on the face point and the previous corner's payload on
/// the last.
pub open spec fn cc_quads<L>(p: Polygon<L>, keys: Seq<(usize, usize)>, nv: int, face_point: int, center: L) -> Seq<Polygon<L>> {
    let n = p.corners.len() as int;
    Seq::new(
        n as nat,
        |c: int|
            Polygon {
                corners: seq![
                    p.corners[c],
                    (nv + slot_of(keys, side_key(p, c))) as usize,
                    face_point as usize,
                    (nv + slot_of(keys, side_key(p, (c + n - 1) % n))) as usize,
                ],
                loops: seq![p.loops[c], p.loops[c], center, p.loops[(c + n - 1) % n]],
                data: p.data,
            },
    )
}

/// The polygons after one Catmull-Clark step over `nv` vertices: edge points are numbered
/// after the vertices in edge order, face points after them in face order.
pub open spec fn catmull_clark_polygons<L>(ps: Seq<Polygon<L>>, centers: Seq<L>, nv: int) -> Seq<Polygon<L>> {
    let keys = edge_keys(ps);
    joined(Seq::new(ps.len(), |f: int| cc_quads(ps[f], keys, nv, nv + keys.len() + f, centers[f])))
}


/// A triangle over three corners that all carry the payload `l`.
pub open spec fn uniform_triangle<L>(a: usize, b: usize, c: usize, l: L, data: crate::attributes::FacePayload) -> Polygon<L> {
    Polygon { corners: seq![a, b, c], loops: seq![l, l, l], data }
}

/// The four triangles of one triangle under a Loop step: one at each corner, with that
/// corner's payload, and the middle one with `center`.
pub open spec fn loop_triangles<L>(p: Polygon<L>, keys: Seq<(usize, usize)>, nv: int, center: L) -> Seq<Polygon<L>> {
    let ab = (nv + slot_of(keys, side_key(p, 0))) as usize;
    let bc = (nv + slot_of(keys, side_key(p, 1))) as usize;
    let ca = (nv + slot_of(keys, side_key(p, 2))) as usize;
    seq![
        uniform_triangle(p.corners[0], ab, ca, p.loops[0], p.data),
        uniform_triangle(ab, p.corners[1], bc, p.loops[1], p.data),
        uniform_triangle(ca, bc, p.corners[2], p.loops[2], p.data),
        uniform_triangle(ab, bc, ca, center, p.data),
    ]
}

/// The polygons after one Loop step over `nv` vertices: edge points are numbered after
/// the vertices in edge order.
pub open spec fn loop_polygons<L>(ps: Seq<Polygon<L>>, centers: Seq<L>, nv: int) -> Seq<Polygon<L>> {
    let keys = edge_keys(ps);
    joined(Seq::new(ps.len(), |f: int| loop_triangles(ps[f], keys, nv, centers[f])))
}

/// Every polygon is a triangle.
pub open spec fn all_triangles<L>(ps: Seq<Polygon<L>>) -> bool {
    forall|f: int| 0 <= f < ps.len() ==> (#[trigger] ps[f]).corners.len() == 3
}


/// The undirected keys of a list of vertex pairs.
pub open spec fn pair_keys(pairs: Seq<(usize, usize)>) -> Seq<(usize, usize)> {
    pairs.map_values(|q: (usize, usize)| edge_key(q.0, q.1))
}

/// The pairs of a list that are the first to name their undirected edge, in order.
pub open spec fn unique_pairs(pairs: Seq<(usize, usize)>) -> Seq<(usize, usize)>
    decreases pairs.len(),
{
    if pairs.len() == 0 {
        Seq::empty()
    } else {
        let pre = unique_pairs(pairs.drop_last());
        if pair_keys(pre).contains(edge_key(pairs.last().0, pairs.last().1)) {
            pre
        } else {
            pre.push(pairs.last())
        }
    }
}

/// Corners `0..i` of `p` with the split point of every split side inserted after its
/// first corner: split sides are those whose edge is in `keys`, and the point of edge
/// `keys[k]` is vertex `nv + k`; `mid(c)` is the payload of the point inserted after
/// corner `c`.
pub open spec fn split_run<L>(p: Polygon<L>, keys: Seq<(usize, usize)>, nv: int, mid: Seq<L>, i: int) -> (Seq<usize>, Seq<L>)
    decreases i,
{
    if i <= 0 {
        (Seq::empty(), Seq::empty())
    } else {
        let pre = split_run(p, keys, nv, mid, i - 1);
        let c = i - 1;
        let key = side_key(p, c);
        let with_corner = (pre.0.push(p.corners[c]), pre.1.push(p.loops[c]));
        if keys.contains(key) {
            (with_corner.0.push((nv + slot_of(keys, key)) as usize), with_corner.1.push(mid[c]))
        } else {
            with_corner
        }
    }
}

/// `p` with the split points of its split sides inserted.
pub open spec fn split_polygon<L>(p: Polygon<L>, keys: Seq<(usize, usize)>, nv: int, mid: Seq<L>) -> Polygon<L> {
    let r = split_run(p, keys, nv, mid, p.corners.len() as int);
    Polygon { corners: r.0, loops: r.1, data: p.data }
}

/// Every polygon with its split points inserted; `ml[f]` gives the payloads for face `f`.
pub open spec fn split_all<L>(ps: Seq<Polygon<L>>, keys: Seq<(usize, usize)>, nv: int, ml: Seq<Seq<L>>) -> Seq<Polygon<L>> {
    Seq::new(ps.len(), |f: int| split_polygon(ps[f], keys, nv, ml[f]))
}

/// Side `c` of face `f` is split.
pub open spec fn side_split<L>(ps: Seq<Polygon<L>>, keys: Seq<(usize, usize)>, f: int, c: int) -> bool {
    keys.contains(side_key(ps[f], c))
}


proof fn lemma_split_run_prefix<L>(p: Polygon<L>, keys: Seq<(usize, usize)>, nv: int, m1: Seq<L>, m2: Seq<L>, i: int)
    requires
        0 <= i <= m1.len(),
        i <= m2.len(),
        forall|c: int| 0 <= c < i ==> m1[c] == m2[c],
    ensures
        split_run(p, keys, nv, m1, i) == split_run(p, keys, nv, m2, i),
    decreases i,
{
    if i > 0 {
        lemma_split_run_prefix(p, keys, nv, m1, m2, i - 1);
    }
}


/// What splitting the edges named by `pairs` leaves behind: the first pair naming an edge
/// wins and adds vertex `nv + k` with a payload `mv` gives for its ends; every face side
/// along a split edge gets that vertex with a payload `ml` gives for the side's corners;
/// then the mesh is rebuilt from the result.
pub open spec fn split_outcome<V, L, T, FV: Fn(V, V) -> V, FL: Fn(L, L) -> L>(
    before: HalfEdgeMesh<V, L>,
    after: HalfEdgeMesh<V, L>,
    r: Result<T, MeshError>,
    pairs: Seq<(usize, usize)>,
    mv: FV,
    ml: FL,
) -> bool {
    let u = unique_pairs(pairs);
    let keys = pair_keys(u);
    let vs = before.vertex_data_view();
    let ps = before.polygons();
    exists|np: Seq<V>, mids: Seq<Seq<L>>|
        #[trigger] rebuilt_from(before, after, r, vs + np, split_all(ps, keys, vs.len() as int, mids)) && np.len()
            == u.len() && mids.len() == ps.len() && (forall|k: int|
            0 <= k < u.len() ==> mv.ensures((vs[u[k].0 as int], vs[u[k].1 as int]), #[trigger] np[k])) && (forall|
            f: int,
            c: int,
        |
            0 <= f < ps.len() && 0 <= c < ps[f].corners.len() && side_split(ps, keys, f, c) ==> ml.ensures(
                (ps[f].loops[c], ps[f].loops[(c + 1) % (ps[f].corners.len() as int)]),
                #[trigger] mids[f][c],
            ))
}

/// `k` is the first of `edges` that names no edge of a mesh with `ne` edges.
pub open spec fn first_bad_edge(edges: Seq<crate::ids::EdgeId>, ne: int, k: int) -> bool {
    &&& 0 <= k < edges.len()
    &&& edges[k].idx() >= ne
    &&& forall|j: int| 0 <= j < k ==> (#[trigger] edges[j]).idx() < ne
}

/// The end vertices of each edge, as index pairs.
pub open spec fn edge_pairs<V: Copy, L: Copy>(m: HalfEdgeMesh<V, L>, edges: Seq<crate::ids::EdgeId>) -> Seq<(usize, usize)> {
    edges.map_values(|e: crate::ids::EdgeId| (m.edge_endpoints_spec(e.idx()).0.0 as usize, m.edge_endpoints_spec(e.idx()).1.0 as usize))
}


proof fn lemma_split_outcome_transfer<V, L, T, U, FV: Fn(V, V) -> V, FL: Fn(L, L) -> L>(
    before: HalfEdgeMesh<V, L>,
    after: HalfEdgeMesh<V, L>,
    r1: Result<T, MeshError>,
    r2: Result<U, MeshError>,
    pairs: Seq<(usize, usize)>,
    mv: FV,
    ml: FL,
)
    requires
        split_outcome(before, after, r1, pairs, mv, ml),
        r1 is Err <==> r2 is Err,
        r1 is Err ==> r1->Err_0 == r2->Err_0,
    ensures
        split_outcome(before, after, r2, pairs, mv, ml),
{
    let u = unique_pairs(pairs);
    let keys = pair_keys(u);
    let vs = before.vertex_data_view();
    let ps = before.polygons();
    let (np, mids) = choose|np: Seq<V>, mids: Seq<Seq<L>>|
        #[trigger] rebuilt_from(before, after, r1, vs + np, split_all(ps, keys, vs.len() as int, mids)) && np.len()
            == u.len() && mids.len() == ps.len() && (forall|k: int|
            0 <= k < u.len() ==> mv.ensures((vs[u[k].0 as int], vs[u[k].1 as int]), #[trigger] np[k])) && (forall|
            f: int,
            c: int,
        |
            0 <= f < ps.len() && 0 <= c < ps[f].corners.len() && side_split(ps, keys, f, c) ==> ml.ensures(
                (ps[f].loops[c], ps[f].loops[(c + 1) % (ps[f].corners.len() as int)]),
                #[trigger] mids[f][c],
            ));
    assert(rebuilt_from(before, after, r2, vs + np, split_all(ps, keys, vs.len() as int, mids)));
}

/// Appends copies of all of `src`.
pub(crate) fn append_all<T: Copy>(out: &mut Vec<T>, src: &Vec<T>)
    ensures
        final(out)@ == old(out)@ + src@,
{
    let ghost start = out@;
    let mut i: usize = 0;
    while i < src.len()
        invariant
            i <= src@.len(),
            out@ == start + src@.take(i as int),
        decreases src@.len() - i,
    {
        proof {
            assert(src@.take(i + 1) =~= src@.take(i as int).push(src@[i as int]));
            assert(start + src@.take(i + 1) =~= (start + src@.take(i as int)).push(src@[i as int]));
        }
        out.push(src[i]);
        i = i + 1;
    }
    proof {
        assert(src@.take(src@.len() as int) =~= src@);
    }
}

impl<V: Copy, L: Copy + Default> HalfEdgeMesh<V, L> {
    /// One Catmull-Clark step with the given payloads: the old vertices take
    /// `vertex_points`, one new vertex per edge (in `edge_keys` order) takes
    /// `edge_points`, one per face takes `face_points`; every corner of every face becomes
    /// a quad, and the face point's corners take that face's `center_loops` payload.
    pub fn catmull_clark_step(
        &mut self,
        vertex_points: Vec<V>,
        edge_points: Vec<V>,
        face_points: Vec<V>,
        center_loops: Vec<L>,
    ) -> (r: Result<(), MeshError>)
        requires
            vertex_points@.len() == old(self).nv(),
            edge_points@.len() == edge_keys(old(self).polygons()).len(),
            face_points@.len() == old(self).interior(),
            center_loops@.len() == old(self).interior(),
        ensures
            rebuilt_from(
                *old(self),
                *final(self),
                r,
                vertex_points@ + edge_points@ + face_points@,
                catmull_clark_polygons(old(self).polygons(), center_loops@, old(self).nv()),
            ),
    {
        proof {
            use_type_invariant(&*self);
        }
        let snapshot = self.to_snapshot();
        let ghost ps = self.polygons();
        let MeshSnapshot { vertices: _, faces } = snapshot;
        let (keys, sides) = edge_adjacency(&faces);
        let ghost sv = sides@.map_values(|v: Vec<usize>| v@);
        let nv = vertex_points.len();
        let nk = keys.len();
        let mut all: Vec<V> = Vec::new();
        append_all(&mut all, &vertex_points);
        append_all(&mut all, &edge_points);
        append_all(&mut all, &face_points);
        let ghost quads = Seq::new(ps.len(), |f: int| cc_quads(ps[f], keys@, nv as int, nv + nk + f, center_loops@[f]));
        proof {
            assert(quads == Seq::new(ps.len(), |f: int| cc_quads(ps[f], edge_keys(ps), nv as int, nv + edge_keys(ps).len() + f, center_loops@[f])));
        }
        let total = all.len();
        let mut out: Vec<PolygonFace<L>> = Vec::new();
        let nf = faces.len();
        let mut f: usize = 0;
        while f < nf
            invariant
                nf == faces@.len() == ps.len() == center_loops@.len(),
                views(faces@) == ps,
                forall|j: int| 0 <= j < faces@.len() ==> (#[trigger] faces@[j]).loops@.len() == faces@[j].vertices@.len(),
                is_adjacency(ps, keys@, sv),
                sv == sides@.map_values(|v: Vec<usize>| v@),
                sides@.len() == nf,
                nk == keys@.len(),
                all@.len() == nv + nk + nf,
                    total == nv + nk + nf,
                quads == Seq::new(ps.len(), |f: int| cc_quads(ps[f], keys@, nv as int, nv + nk + f, center_loops@[f])),
                f <= nf,
                views(out@) == joined(quads.take(f as int)),
            decreases nf - f,
        {
            let n = faces[f].vertices.len();
            let ghost p = ps[f as int];
            let ghost q = quads[f as int];
            let ghost base = views(out@);
            proof {
                assert(p == face_view(faces@[f as int]));
                assert(sv[f as int] == sides@[f as int]@);
            }
            let mut c: usize = 0;
            while c < n
                invariant
                    nf == faces@.len() == ps.len() == center_loops@.len(),
                    f < nf,
                    p == ps[f as int],
                    p == face_view(faces@[f as int]),
                    n == p.corners.len() == p.loops.len(),
                    n >= 0,
                    is_adjacency(ps, keys@, sv),
                    sv[f as int] == sides@[f as int]@,
                    sv == sides@.map_values(|v: Vec<usize>| v@),
                    sides@.len() == nf,
                    nk == keys@.len(),
                    all@.len() == nv + nk + nf,
                    total == nv + nk + nf,
                    q == cc_quads(p, keys@, nv as int, nv + nk + f, center_loops@[f as int]),
                    c <= n,
                    views(out@) == base + q.take(c as int),
                decreases n - c,
            {
                let prev = if c == 0 { n - 1 } else { c - 1 };
                proof {
                    if c == 0 {
                        vstd::arithmetic::div_mod::lemma_mod_add_multiples_vanish((n - 1) as int, n as int);
                        vstd::arithmetic::div_mod::lemma_small_mod((n - 1) as nat, n as nat);
                    } else {
                        vstd::arithmetic::div_mod::lemma_mod_add_multiples_vanish((c - 1) as int, n as int);
                        vstd::arithmetic::div_mod::lemma_small_mod((c - 1) as nat, n as nat);
                    }
                    assert((c + n - 1) % (n as int) == prev);
                    assert(first_at(keys@, side_key(p, c as int), sv[f as int][c as int] as int));
                    assert(first_at(keys@, side_key(p, prev as int), sv[f as int][prev as int] as int));
                    lemma_slot_of(keys@, side_key(p, c as int), sv[f as int][c as int] as int);
                    lemma_slot_of(keys@, side_key(p, prev as int), sv[f as int][prev as int] as int);
                    assert(sides@[f as int]@.len() == n);
                    assert(sv[f as int][c as int] < nk);
                    assert(sv[f as int][prev as int] < nk);
                }
                let e_next = nv + sides[f][c];
                let e_prev = nv + sides[f][prev];
                let fp = nv + nk + f;
                let quad = PolygonFace {
                    vertices: vec![faces[f].vertices[c], e_next, fp, e_prev],
                    loops: vec![faces[f].loops[c], faces[f].loops[c], center_loops[f], faces[f].loops[prev]],
                    data: faces[f].data,
                };
                proof {
                    assert(face_view(quad).corners =~= q[c as int].corners);
                    assert(face_view(quad).loops =~= q[c as int].loops);
                    lemma_views_push(out@, quad);
                    assert(q.take(c + 1) =~= q.take(c as int).push(q[c as int]));
                }
                out.push(quad);
                c = c + 1;
            }
            proof {
                assert(q.take(n as int) =~= q);
                assert(quads.take(f + 1) =~= quads.take(f as int).push(quads[f as int]));
                lemma_joined_push(quads.take(f as int), quads[f as int]);
            }
            f = f + 1;
        }
        proof {
            assert(quads.take(nf as int) =~= quads);
        }
        self.rebuild_in_place(MeshSnapshot { vertices: all, faces: out })
    }

    /// One Loop step with the given payloads on a triangle mesh: the old vertices take
    /// `vertex_points`, one new vertex per edge (in `edge_keys` order) takes
    /// `edge_points`; every triangle becomes four, the middle one taking that face's
    /// `center_loops` payload. A face that is not a triangle is refused.
    pub fn loop_step(&mut self, vertex_points: Vec<V>, edge_points: Vec<V>, center_loops: Vec<L>) -> (r: Result<(), MeshError>)
        requires
            vertex_points@.len() == old(self).nv(),
            edge_points@.len() == edge_keys(old(self).polygons()).len(),
            center_loops@.len() == old(self).interior(),
        ensures
            !all_triangles(old(self).polygons()) ==> r == Err::<(), MeshError>(
                MeshError::RequiresTriangleFaces { operation: "subdivide_loop" },
            ) && *final(self) == *old(self),
            all_triangles(old(self).polygons()) ==> rebuilt_from(
                *old(self),
                *final(self),
                r,
                vertex_points@ + edge_points@,
                loop_polygons(old(self).polygons(), center_loops@, old(self).nv()),
            ),
    {
        proof {
            use_type_invariant(&*self);
        }
        let snapshot = self.to_snapshot();
        let ghost ps = self.polygons();
        let MeshSnapshot { vertices: _, faces } = snapshot;
        let nf = faces.len();
        let mut g: usize = 0;
        while g < nf
            invariant
                nf == faces@.len() == ps.len(),
                views(faces@) == ps,
                ps == old(self).polygons(),
                g <= nf,
                forall|j: int| 0 <= j < g ==> (#[trigger] ps[j]).corners.len() == 3,
            decreases nf - g,
        {
            proof {
                assert(ps[g as int] == face_view(faces@[g as int]));
            }
            if faces[g].vertices.len() != 3 {
                proof {
                    assert(ps[g as int].corners.len() != 3);
                    assert(!all_triangles(ps));
                    assert(ps == old(self).polygons());
                }
                return Err(MeshError::RequiresTriangleFaces { operation: "subdivide_loop" });
            }
            g = g + 1;
        }
        let (keys, sides) = edge_adjacency(&faces);
        let ghost sv = sides@.map_values(|v: Vec<usize>| v@);
        let nv = vertex_points.len();
        let nk = keys.len();
        let mut all: Vec<V> = Vec::new();
        append_all(&mut all, &vertex_points);
        append_all(&mut all, &edge_points);
        assert(all@ =~= vertex_points@ + edge_points@);
        let total = all.len();
        let ghost tris = Seq::new(ps.len(), |f: int| loop_triangles(ps[f], keys@, nv as int, center_loops@[f]));
        let mut out: Vec<PolygonFace<L>> = Vec::new();
        let mut f: usize = 0;
        while f < nf
            invariant
                nf == faces@.len() == ps.len() == center_loops@.len(),
                views(faces@) == ps,
                forall|j: int| 0 <= j < faces@.len() ==> (#[trigger] faces@[j]).loops@.len() == faces@[j].vertices@.len(),
                forall|j: int| 0 <= j < nf ==> (#[trigger] ps[j]).corners.len() == 3,
                is_adjacency(ps, keys@, sv),
                sv == sides@.map_values(|v: Vec<usize>| v@),
                sides@.len() == nf,
                nk == keys@.len(),
                total == nv + nk,
                tris == Seq::new(ps.len(), |f: int| loop_triangles(ps[f], keys@, nv as int, center_loops@[f])),
                f <= nf,
                views(out@) == joined(tris.take(f as int)),
            decreases nf - f,
        {
            let ghost p = ps[f as int];
            proof {
                assert(p == face_view(faces@[f as int]));
                assert(sv[f as int] == sides@[f as int]@);
                assert(p.corners.len() == 3);
                assert(sides@[f as int]@.len() == 3);
                assert(first_at(keys@, side_key(p, 0), sv[f as int][0] as int));
                assert(first_at(keys@, side_key(p, 1), sv[f as int][1] as int));
                assert(first_at(keys@, side_key(p, 2), sv[f as int][2] as int));
                lemma_slot_of(keys@, side_key(p, 0), sv[f as int][0] as int);
                lemma_slot_of(keys@, side_key(p, 1), sv[f as int][1] as int);
                lemma_slot_of(keys@, side_key(p, 2), sv[f as int][2] as int);
            }
            let a = faces[f].vertices[0];
            let b = faces[f].vertices[1];
            let c = faces[f].vertices[2];
            let ab = nv + sides[f][0];
            let bc = nv + sides[f][1];
            let ca = nv + sides[f][2];
            let l0 = faces[f].loops[0];
            let l1 = faces[f].loops[1];
            let l2 = faces[f].loops[2];
            let cl = center_loops[f];
            let data = faces[f].data;
            let t0 = PolygonFace { vertices: vec![a, ab, ca], loops: vec![l0, l0, l0], data };
            let t1 = PolygonFace { vertices: vec![ab, b, bc], loops: vec![l1, l1, l1], data };
            let t2 = PolygonFace { vertices: vec![ca, bc, c], loops: vec![l2, l2, l2], data };
            let t3 = PolygonFace { vertices: vec![ab, bc, ca], loops: vec![cl, cl, cl], data };
            let ghost before = out@;
            out.push(t0);
            out.push(t1);
            out.push(t2);
            out.push(t3);
            proof {
                let q = tris[f as int];
                assert(face_view(t0).corners =~= q[0].corners);
                assert(face_view(t0).loops =~= q[0].loops);
                assert(face_view(t1).corners =~= q[1].corners);
                assert(face_view(t1).loops =~= q[1].loops);
                assert(face_view(t2).corners =~= q[2].corners);
                assert(face_view(t2).loops =~= q[2].loops);
                assert(face_view(t3).corners =~= q[3].corners);
                assert(face_view(t3).loops =~= q[3].loops);
                assert(views(out@) =~= views(before) + q);
                assert(tris.take(f + 1) =~= tris.take(f as int).push(tris[f as int]));
                lemma_joined_push(tris.take(f as int), tris[f as int]);
            }
            f = f + 1;
        }
        proof {
            assert(tris.take(nf as int) =~= tris);
            assert(keys@ == edge_keys(ps));
            assert(tris == Seq::new(ps.len(), |f: int| loop_triangles(ps[f], edge_keys(ps), nv as int, center_loops@[f])));
        }
        self.rebuild_in_place(MeshSnapshot { vertices: all, faces: out })
    }

    /// Inserts a new vertex on the edge of each pair, the first pair naming an edge
    /// winning: its payload is `mix_vertex` of the two ends' payloads, and every face side
    /// along a split edge gets the new vertex with payload `mix_loop` of the side's two
    /// corner payloads. Returns the new vertices in order.
    fn split_pairs<FV: Fn(V, V) -> V, FL: Fn(L, L) -> L>(
        &mut self,
        pairs: &Vec<(usize, usize)>,
        mix_vertex: &FV,
        mix_loop: &FL,
    ) -> (r: Result<Vec<usize>, MeshError>)
        requires
            forall|x: V, y: V| mix_vertex.requires((x, y)),
            forall|x: L, y: L| mix_loop.requires((x, y)),
            forall|k: int| 0 <= k < pairs@.len() ==> (#[trigger] pairs@[k]).0 < old(self).nv() && pairs@[k].1 < old(self).nv(),
        ensures
            split_outcome(*old(self), *final(self), r, pairs@, *mix_vertex, *mix_loop),
            r is Ok ==> r->Ok_0@ == Seq::new(unique_pairs(pairs@).len(), |k: int| (old(self).nv() + k) as usize),
    {
        proof {
            use_type_invariant(&*self);
        }
        let snapshot = self.to_snapshot();
        let ghost ps = self.polygons();
        let ghost vs = self.vertex_data_view();
        let MeshSnapshot { mut vertices, faces } = snapshot;
        let nv = vertices.len();
        let mut uniq: Vec<(usize, usize)> = Vec::new();
        let mut keys: Vec<(usize, usize)> = Vec::new();
        let mut i: usize = 0;
        while i < pairs.len()
            invariant
                i <= pairs@.len(),
                uniq@ == unique_pairs(pairs@.take(i as int)),
                keys@ == pair_keys(uniq@),
                forall|k: int| 0 <= k < uniq@.len() ==> (#[trigger] uniq@[k]).0 < nv && uniq@[k].1 < nv,
                nv == vs.len(),
                forall|k: int| 0 <= k < pairs@.len() ==> (#[trigger] pairs@[k]).0 < nv && pairs@[k].1 < nv,
            decreases pairs@.len() - i,
        {
            let (a, b) = pairs[i];
            let key = edge_key_of(a, b);
            proof {
                assert(pairs@.take(i + 1).drop_last() =~= pairs@.take(i as int));
                assert(pairs@.take(i + 1).last() == pairs@[i as int]);
            }
            match find_first(&keys, key) {
                Some(_) => {},
                None => {
                    uniq.push((a, b));
                    keys.push(key);
                    proof {
                        assert(pair_keys(uniq@) =~= keys@);
                    }
                },
            }
            i = i + 1;
        }
        proof {
            assert(pairs@.take(pairs@.len() as int) =~= pairs@);
        }
        let ghost u = uniq@;
        let mut created: Vec<usize> = Vec::new();
        let mut k: usize = 0;
        while k < uniq.len()
            invariant
                u == uniq@,
                forall|j: int| 0 <= j < u.len() ==> (#[trigger] u[j]).0 < nv && u[j].1 < nv,
                nv == vs.len(),
                forall|x: V, y: V| mix_vertex.requires((x, y)),
                k <= u.len(),
                vertices@.len() == nv + k,
                vertices@.take(nv as int) == vs,
                forall|j: int| 0 <= j < k ==> mix_vertex.ensures((vs[u[j].0 as int], vs[u[j].1 as int]), #[trigger] vertices@[nv + j]),
                created@ == Seq::new(k as nat, |j: int| (nv + j) as usize),
            decreases u.len() - k,
        {
            let (a, b) = uniq[k];
            proof {
                assert(vertices@[a as int] == vs[a as int]);
                assert(vertices@[b as int] == vs[b as int]);
            }
            let payload = mix_vertex(vertices[a], vertices[b]);
            let index = vertices.len();
            vertices.push(payload);
            created.push(index);
            proof {
                assert(vertices@.take(nv as int) =~= vs);
                assert(created@ =~= Seq::new((k + 1) as nat, |j: int| (nv + j) as usize));
            }
            k = k + 1;
        }
        let ghost np = vertices@.skip(nv as int);
        proof {
            assert(vertices@ =~= vs + np);
        }
        let ghost ks = keys@;
        let total = vertices.len();
        proof {
            assert(ks.len() == u.len());
        }
        let mut out: Vec<PolygonFace<L>> = Vec::new();
        let mut mids: Ghost<Seq<Seq<L>>> = Ghost(Seq::empty());
        let nf = faces.len();
        let mut f: usize = 0;
        while f < nf
            invariant
                nf == faces@.len() == ps.len(),
                views(faces@) == ps,
                forall|j: int| 0 <= j < faces@.len() ==> (#[trigger] faces@[j]).loops@.len() == faces@[j].vertices@.len(),
                ks == keys@,
                ks == pair_keys(u),
                nv == vs.len(),
                total == nv + ks.len(),
                forall|x: L, y: L| mix_loop.requires((x, y)),
                f <= nf,
                mids@.len() == f,
                views(out@) =~= Seq::new(f as nat, |g: int| split_polygon(ps[g], ks, nv as int, mids@[g])),
                forall|g: int, c: int|
                    0 <= g < f && 0 <= c < ps[g].corners.len() && side_split(ps, ks, g, c) ==> mix_loop.ensures(
                        (ps[g].loops[c], ps[g].loops[(c + 1) % (ps[g].corners.len() as int)]),
                        #[trigger] mids@[g][c],
                    ),
            decreases nf - f,
        {
            let ghost p = ps[f as int];
            proof {
                assert(p == face_view(faces@[f as int]));
            }
            let n = faces[f].vertices.len();
            let mut vs_out: Vec<usize> = Vec::new();
            let mut ls_out: Vec<L> = Vec::new();
            let mut row: Ghost<Seq<L>> = Ghost(Seq::empty());
            let mut c: usize = 0;
            while c < n
                invariant
                    f < nf,
                    nf == faces@.len() == ps.len(),
                    p == ps[f as int],
                    p == face_view(faces@[f as int]),
                    n == p.corners.len() == p.loops.len(),
                    ks == keys@,
                    total == nv + ks.len(),
                    forall|x: L, y: L| mix_loop.requires((x, y)),
                    c <= n,
                    row@.len() == c,
                    (vs_out@, ls_out@) == split_run(p, ks, nv as int, row@, c as int),
                    forall|c2: int| 0 <= c2 < c && ks.contains(side_key(p, c2)) ==> mix_loop.ensures(
                        (p.loops[c2], p.loops[(c2 + 1) % (n as int)]),
                        #[trigger] row@[c2],
                    ),
                decreases n - c,
            {
                let next = if c + 1 == n { 0 } else { c + 1 };
                proof {
                    if c + 1 == n {
                        vstd::arithmetic::div_mod::lemma_mod_self_0(n as int);
                    } else {
                        vstd::arithmetic::div_mod::lemma_small_mod((c + 1) as nat, n as nat);
                    }
                }
                let current = faces[f].vertices[c];
                let key = edge_key_of(current, faces[f].vertices[next]);
                let current_loop = faces[f].loops[c];
                vs_out.push(current);
                ls_out.push(current_loop);
                let ghost row_before = row@;
                match find_first(&keys, key) {
                    Some(slot) => {
                        proof {
                            lemma_slot_of(ks, key, slot as int);
                        }
                        let mid = mix_loop(current_loop, faces[f].loops[next]);
                        proof {
                            assert(slot < ks.len());
                        }
                        vs_out.push(nv + slot);
                        ls_out.push(mid);
                        proof {
                            row@ = row@.push(mid);
                        }
                    },
                    None => {
                        proof {
                            row@ = row@.push(current_loop);
                        }
                    },
                }
                proof {
                    assert(key == side_key(p, c as int));
                    assert(row@.take(c as int) =~= row_before);
                    assert(split_run(p, ks, nv as int, row@, c as int) == split_run(p, ks, nv as int, row_before, c as int)) by {
                        lemma_split_run_prefix(p, ks, nv as int, row@, row_before, c as int);
                    }
                }
                c = c + 1;
            }
            let new_face = PolygonFace { vertices: vs_out, loops: ls_out, data: faces[f].data };
            proof {
                lemma_views_push(out@, new_face);
                assert(face_view(new_face) == split_polygon(p, ks, nv as int, row@));
                let old_mids = mids@;
                mids@ = mids@.push(row@);
                assert forall|g: int| 0 <= g < f implies #[trigger] mids@[g] == old_mids[g] by {}
            }
            out.push(new_face);
            f = f + 1;
        }
        let ghost ml = mids@;
        proof {
            assert(split_all(ps, ks, nv as int, ml) =~= views(out@));
        }
        let rr = self.rebuild_in_place(MeshSnapshot { vertices, faces: out });
        let result = match rr {
            Ok(()) => Ok(created),
            Err(e) => Err(e),
        };
        proof {
            assert(rebuilt_from(*old(self), *self, result, vs + np, split_all(ps, ks, nv as int, ml)));
            assert forall|j: int| 0 <= j < u.len() implies mix_vertex.ensures((vs[u[j].0 as int], vs[u[j].1 as int]), #[trigger] np[j]) by {
                assert(np[j] == (vs + np)[nv + j]);
            }
        }
        result
    }

    /// Splits an edge at a new vertex (see `split_edge_ring`); returns the new vertex.
    pub fn split_edge<FV: Fn(V, V) -> V, FL: Fn(L, L) -> L>(&mut self, edge: EdgeId, mix_vertex: FV, mix_loop: FL) -> (r: Result<VertexId, MeshError>)
        requires
            forall|x: V, y: V| mix_vertex.requires((x, y)),
            forall|x: L, y: L| mix_loop.requires((x, y)),
        ensures
            edge.idx() >= old(self).ne() ==> r == Err::<VertexId, MeshError>(MeshError::InvalidEdge(edge)) && *final(self) == *old(self),
            edge.idx() < old(self).ne() ==> split_outcome(*old(self), *final(self), r, edge_pairs(*old(self), seq![edge]), mix_vertex, mix_loop),
            r is Ok ==> r->Ok_0 == VertexId(old(self).nv() as u32),
    {
        proof {
            use_type_invariant(&*self);
        }
        let (a, b) = self.edge_endpoints(edge)?;
        proof {
            assert(self.topology().link_ok(self.topology().edges[edge.idx()].idx()));
            assert(self.topology().link_ok(self.topology().links[self.topology().edges[edge.idx()].idx()].twin.idx()));
        }
        let pairs = vec![(a.index(), b.index())];
        proof {
            assert(pairs@ =~= edge_pairs(*self, seq![edge]));
            assert(pairs@.drop_last() =~= Seq::<(usize, usize)>::empty());
            assert(unique_pairs(pairs@.drop_last()) =~= Seq::<(usize, usize)>::empty());
            assert(!pair_keys(Seq::<(usize, usize)>::empty()).contains(edge_key(pairs@[0].0, pairs@[0].1)));
            assert(unique_pairs(pairs@) =~= pairs@);
        }
        let inner = self.split_pairs(&pairs, &mix_vertex, &mix_loop);
        let result = match inner {
            Ok(created) => Ok(VertexId(created[0] as u32)),
            Err(e) => Err(e),
        };
        proof {
            lemma_split_outcome_transfer(*old(self), *self, inner, result, pairs@, mix_vertex, mix_loop);
        }
        result
    }

    /// Splits each of the given edges at a new vertex: the first mention of an edge wins;
    /// the new vertex's payload is `mix_vertex` of its ends' payloads and each face side
    /// along the edge gets the vertex with payload `mix_loop` of the side's two corner
    /// payloads. Returns the new vertices in order.
    pub fn split_edge_ring<FV: Fn(V, V) -> V, FL: Fn(L, L) -> L>(&mut self, edges: &[EdgeId], mix_vertex: FV, mix_loop: FL) -> (r: Result<Vec<VertexId>, MeshError>)
        requires
            forall|x: V, y: V| mix_vertex.requires((x, y)),
            forall|x: L, y: L| mix_loop.requires((x, y)),
        ensures
            edges@.len() == 0 ==> r == Err::<Vec<VertexId>, MeshError>(MeshError::EmptySelection("split_edge_ring")) && *final(self) == *old(self),
            forall|k: int| #[trigger] first_bad_edge(edges@, old(self).ne(), k) ==> r == Err::<Vec<VertexId>, MeshError>(MeshError::InvalidEdge(edges@[k])) && *final(self) == *old(self),
            edges@.len() > 0 && (forall|k: int| 0 <= k < edges@.len() ==> (#[trigger] edges@[k]).idx() < old(self).ne()) ==> split_outcome(
                *old(self),
                *final(self),
                r,
                edge_pairs(*old(self), edges@),
                mix_vertex,
                mix_loop,
            ),
            r is Ok ==> r->Ok_0@ == Seq::new(unique_pairs(edge_pairs(*old(self), edges@)).len(), |k: int| VertexId((old(self).nv() + k) as u32)),
    {
        proof {
            use_type_invariant(&*self);
        }
        if edges.len() == 0 {
            return Err(MeshError::EmptySelection("split_edge_ring"));
        }
        let ghost t = self.topology();
        let mut pairs: Vec<(usize, usize)> = Vec::new();
        let mut i: usize = 0;
        while i < edges.len()
            invariant
                t == self.topology(),
                t.wf(),
                i <= edges@.len(),
                pairs@ == edge_pairs(*self, edges@.take(i as int)),
                forall|j: int| 0 <= j < i ==> (#[trigger] edges@[j]).idx() < self.ne(),
                forall|k: int| 0 <= k < pairs@.len() ==> (#[trigger] pairs@[k]).0 < self.nv() && pairs@[k].1 < self.nv(),
            decreases edges@.len() - i,
        {
            let e = edges[i];
            let (a, b) = match self.edge_endpoints(e) {
                Ok(ends) => ends,
                Err(err) => {
                    proof {
                        assert(first_bad_edge(edges@, self.ne(), i as int));
                        assert forall|k: int| #[trigger] first_bad_edge(edges@, self.ne(), k) implies k == i by {
                            if k < i {
                                assert(edges@[k].idx() < self.ne());
                            } else if k > i {
                                assert(edges@[i as int].idx() < self.ne());
                            }
                        }
                    }
                    return Err(err);
                },
            };
            proof {
                assert(t.link_ok(t.edges[e.idx()].idx()));
                assert(t.link_ok(t.links[t.edges[e.idx()].idx()].twin.idx()));
                assert(edge_pairs(*self, edges@.take(i + 1)) =~= edge_pairs(*self, edges@.take(i as int)).push((a.0 as usize, b.0 as usize)));
            }
            pairs.push((a.index(), b.index()));
            i = i + 1;
        }
        proof {
            assert(edges@.take(edges@.len() as int) =~= edges@);
            assert forall|k: int| !#[trigger] first_bad_edge(edges@, self.ne(), k) by {}
        }
        let inner = self.split_pairs(&pairs, &mix_vertex, &mix_loop);
        let created = match inner {
            Ok(c) => c,
            Err(e) => {
                let result: Result<Vec<VertexId>, MeshError> = Err(e);
                proof {
                    lemma_split_outcome_transfer(*old(self), *self, inner, result, pairs@, mix_vertex, mix_loop);
                }
                return result;
            },
        };
        let mut ids: Vec<VertexId> = Vec::new();
        let mut k: usize = 0;
        while k < created.len()
            invariant
                k <= created@.len(),
                created@ == Seq::new(unique_pairs(pairs@).len(), |j: int| (old(self).nv() + j) as usize),
                old(self).nv() + created@.len() < u32::MAX,
                ids@ == Seq::new(k as nat, |j: int| VertexId((old(self).nv() + j) as u32)),
            decreases created@.len() - k,
        {
            ids.push(VertexId(created[k] as u32));
            proof {
                assert(ids@ =~= Seq::new((k + 1) as nat, |j: int| VertexId((old(self).nv() + j) as u32)));
            }
            k = k + 1;
        }
        let result: Result<Vec<VertexId>, MeshError> = Ok(ids);
        proof {
            lemma_split_outcome_transfer(*old(self), *self, inner, result, pairs@, mix_vertex, mix_loop);
        }
        result
    }
}

} // verus!
