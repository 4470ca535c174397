//! Per-vertex corner signatures: the loop-payload keys of the corners around each vertex,
//! in a canonical order, so that two vertices whose corners carry the same keys compare
//! equal however their faces are numbered.
use crate::snapshot::{MeshSnapshot, PolygonFace};
use vstd::prelude::*;
use vstd::relations::{sorted_by, total_ordering};

verus! {

/// The bit patterns of one corner's loop payload: an optional uv pair, an optional normal
/// and an optional tangent. Keys are ordered as `Option` and tuples order in std: `None`
/// first, then lexicographically, field by field.
pub type CornerKey = (Option<(u32, u32)>, Option<(u32, u32, u32)>, Option<(u32, u32, u32, u32)>);

pub open spec fn pair_lt(a: (u32, u32), b: (u32, u32)) -> bool {
    a.0 < b.0 || (a.0 == b.0 && a.1 < b.1)
}

pub open spec fn triple_lt(a: (u32, u32, u32), b: (u32, u32, u32)) -> bool {
    a.0 < b.0 || (a.0 == b.0 && (a.1 < b.1 || (a.1 == b.1 && a.2 < b.2)))
}

pub open spec fn quad_lt(a: (u32, u32, u32, u32), b: (u32, u32, u32, u32)) -> bool {
    a.0 < b.0 || (a.0 == b.0 && (a.1 < b.1 || (a.1 == b.1 && (a.2 < b.2 || (a.2 == b.2 && a.3 < b.3)))))
}

pub open spec fn opt_pair_lt(a: Option<(u32, u32)>, b: Option<(u32, u32)>) -> bool {
    match (a, b) {
        (None, Some(_)) => true,
        (Some(x), Some(y)) => pair_lt(x, y),
        _ => false,
    }
}

pub open spec fn opt_triple_lt(a: Option<(u32, u32, u32)>, b: Option<(u32, u32, u32)>) -> bool {
    match (a, b) {
        (None, Some(_)) => true,
        (Some(x), Some(y)) => triple_lt(x, y),
        _ => false,
    }
}

pub open spec fn opt_quad_lt(a: Option<(u32, u32, u32, u32)>, b: Option<(u32, u32, u32, u32)>) -> bool {
    match (a, b) {
        (None, Some(_)) => true,
        (Some(x), Some(y)) => quad_lt(x, y),
        _ => false,
    }
}

/// `a` comes no later than `b`: lexicographic over the three optional parts.
pub open spec fn corner_key_le(a: CornerKey, b: CornerKey) -> bool {
    opt_pair_lt(a.0, b.0) || (a.0 == b.0 && (opt_triple_lt(a.1, b.1) || (a.1 == b.1 && (
    opt_quad_lt(a.2, b.2) || a.2 == b.2))))
}

/// The order on corner keys as a relation.
pub open spec fn corner_key_order() -> spec_fn(CornerKey, CornerKey) -> bool {
    |a: CornerKey, b: CornerKey| corner_key_le(a, b)
}

/// The order on corner keys is total.
pub proof fn lemma_corner_key_order_total()
    ensures
        total_ordering(corner_key_order()),
{
    let r = corner_key_order();
    assert forall|a: CornerKey, b: CornerKey, c: CornerKey|
        #[trigger] r(a, b) && #[trigger] r(b, c) implies r(a, c) by {}
    assert forall|a: CornerKey, b: CornerKey| #[trigger] r(a, b) && #[trigger] r(b, a) implies a == b by {}
    assert forall|a: CornerKey, b: CornerKey| #[trigger] r(a, b) || #[trigger] r(b, a) by {}
    assert forall|a: CornerKey| #[trigger] r(a, a) by {}
}

/// Three-way comparison of two optional pairs: -1, 0 or 1.
fn order_opt_pair(a: Option<(u32, u32)>, b: Option<(u32, u32)>) -> (r: i8)
    ensures
        (r < 0) == opt_pair_lt(a, b),
        (r == 0) == (a == b),
        (r > 0) == opt_pair_lt(b, a),
{
    match (a, b) {
        (None, None) => 0,
        (None, Some(_)) => -1,
        (Some(_), None) => 1,
        (Some(x), Some(y)) => {
            if x.0 < y.0 {
                -1
            } else if x.0 > y.0 {
                1
            } else if x.1 < y.1 {
                -1
            } else if x.1 > y.1 {
                1
            } else {
                0
            }
        },
    }
}

/// Three-way comparison of two optional triples: -1, 0 or 1.
fn order_opt_triple(a: Option<(u32, u32, u32)>, b: Option<(u32, u32, u32)>) -> (r: i8)
    ensures
        (r < 0) == opt_triple_lt(a, b),
        (r == 0) == (a == b),
        (r > 0) == opt_triple_lt(b, a),
{
    match (a, b) {
        (None, None) => 0,
        (None, Some(_)) => -1,
        (Some(_), None) => 1,
        (Some(x), Some(y)) => {
            if x.0 < y.0 {
                -1
            } else if x.0 > y.0 {
                1
            } else if x.1 < y.1 {
                -1
            } else if x.1 > y.1 {
                1
            } else if x.2 < y.2 {
                -1
            } else if x.2 > y.2 {
                1
            } else {
                0
            }
        },
    }
}

/// Three-way comparison of two optional quadruples: -1, 0 or 1.
fn order_opt_quad(a: Option<(u32, u32, u32, u32)>, b: Option<(u32, u32, u32, u32)>) -> (r: i8)
    ensures
        (r < 0) == opt_quad_lt(a, b),
        (r == 0) == (a == b),
        (r > 0) == opt_quad_lt(b, a),
{
    match (a, b) {
        (None, None) => 0,
        (None, Some(_)) => -1,
        (Some(_), None) => 1,
        (Some(x), Some(y)) => {
            if x.0 < y.0 {
                -1
            } else if x.0 > y.0 {
                1
            } else if x.1 < y.1 {
                -1
            } else if x.1 > y.1 {
                1
            } else if x.2 < y.2 {
                -1
            } else if x.2 > y.2 {
                1
            } else if x.3 < y.3 {
                -1
            } else if x.3 > y.3 {
                1
            } else {
                0
            }
        },
    }
}

/// Whether `a` comes no later than `b`.
fn corner_key_at_most(a: &CornerKey, b: &CornerKey) -> (r: bool)
    ensures
        r == corner_key_le(*a, *b),
{
    let first = order_opt_pair(a.0, b.0);
    if first != 0 {
        return first < 0;
    }
    let second = order_opt_triple(a.1, b.1);
    if second != 0 {
        return second < 0;
    }
    order_opt_quad(a.2, b.2) <= 0
}

/// Sorts corner keys into the canonical order.
pub fn sort_corner_keys(keys: &mut Vec<CornerKey>)
    ensures
        final(keys)@ == old(keys)@.sort_by(corner_key_order()),
{
    let ghost leq = corner_key_order();
    proof {
        lemma_corner_key_order_total();
    }
    let mut out: Vec<CornerKey> = Vec::new();
    let mut k: usize = 0;
    proof {
        assert(keys@.take(0) =~= out@);
    }
    while k < keys.len()
        invariant
            leq == corner_key_order(),
            total_ordering(leq),
            k <= keys.len(),
            sorted_by(out@, leq),
            out@.to_multiset() == keys@.take(k as int).to_multiset(),
        decreases keys.len() - k,
    {
        let x = keys[k];
        let mut j: usize = 0;
        while j < out.len() && corner_key_at_most(&out[j], &x)
            invariant
                leq == corner_key_order(),
                j <= out.len(),
                forall|i: int| 0 <= i < j ==> corner_key_le(#[trigger] out@[i], x),
            decreases out.len() - j,
        {
            j = j + 1;
        }
        proof {
            assert forall|i: int| j <= i < out.len() implies corner_key_le(x, #[trigger] out@[i]) by {
                assert(!corner_key_le(out@[j as int], x));
                assert(leq(x, out@[j as int]) || leq(out@[j as int], x));
                if i > j {
                    assert(leq(out@[j as int], out@[i]));
                    assert(leq(x, out@[j as int]) && leq(out@[j as int], out@[i]) ==> leq(x, out@[i]));
                }
            }
        }
        let ghost before = out@;
        out.insert(j, x);
        proof {
            assert(out@ == before.insert(j as int, x));
            assert forall|a: int, b: int| 0 <= a < b < out@.len() implies #[trigger] leq(out@[a], out@[b]) by {
                if b < j {
                    assert(leq(before[a], before[b]));
                } else if a < j && b == j {
                } else if a < j {
                    assert(leq(before[a], x));
                    assert(leq(x, before[b - 1]));
                    assert(leq(before[a], x) && leq(x, before[b - 1]) ==> leq(before[a], before[b - 1]));
                } else if a == j {
                    assert(corner_key_le(x, before[b - 1]));
                } else {
                    assert(leq(before[a - 1], before[b - 1]));
                }
            }
            vstd::seq_lib::to_multiset_insert(before, j as int, x);
            assert(keys@.take(k + 1) =~= keys@.take(k as int).push(x));
            vstd::seq_lib::to_multiset_build(keys@.take(k as int), x);
        }
        k = k + 1;
    }
    proof {
        assert(keys@.take(keys@.len() as int) =~= keys@);
        keys@.lemma_sort_by_ensures(leq);
        vstd::seq_lib::lemma_sorted_unique(out@, keys@.sort_by(leq), leq);
    }
    *keys = out;
}

/// The keys of the corners at vertex `v` among the first `n` corners of one face, in corner
/// order.
pub open spec fn face_keys_at(corners: Seq<usize>, keys: Seq<CornerKey>, v: int, n: int) -> Seq<CornerKey>
    decreases n,
{
    if n <= 0 {
        Seq::empty()
    } else {
        face_keys_at(corners, keys, v, n - 1) + if corners[n - 1] == v {
            seq![keys[n - 1]]
        } else {
            Seq::empty()
        }
    }
}

/// The keys of the corners at vertex `v` in the first `m` faces, face by face.
pub open spec fn vertex_keys_at(faces: Seq<Seq<usize>>, keys: Seq<Seq<CornerKey>>, v: int, m: int) -> Seq<
    CornerKey,
>
    decreases m,
{
    if m <= 0 {
        Seq::empty()
    } else {
        vertex_keys_at(faces, keys, v, m - 1) + face_keys_at(faces[m - 1], keys[m - 1], v, faces[m - 1].len() as int)
    }
}

/// The corner lists of a snapshot's faces.
pub open spec fn corner_lists<L>(faces: Seq<PolygonFace<L>>) -> Seq<Seq<usize>> {
    faces.map_values(|f: PolygonFace<L>| f.vertices@)
}

/// The per-face key lists.
pub open spec fn key_lists(keys: Seq<Vec<CornerKey>>) -> Seq<Seq<CornerKey>> {
    keys.map_values(|k: Vec<CornerKey>| k@)
}

/// All corners at vertex `v` of the snapshot, with their keys.
pub open spec fn corner_keys_of<V, L>(snapshot: MeshSnapshot<V, L>, keys: Seq<Vec<CornerKey>>, v: int) -> Seq<
    CornerKey,
> {
    vertex_keys_at(corner_lists(snapshot.faces@), key_lists(keys), v, snapshot.faces@.len() as int)
}

/// Two key lists sort to the same sequence exactly when they hold the same keys, each as
/// many times.
pub proof fn lemma_sorted_keys_equal_iff_same_keys(a: Seq<CornerKey>, b: Seq<CornerKey>)
    ensures
        (a.sort_by(corner_key_order()) == b.sort_by(corner_key_order())) <==> (a.to_multiset()
            == b.to_multiset()),
{
    let o = corner_key_order();
    lemma_corner_key_order_total();
    a.lemma_sort_by_ensures(o);
    b.lemma_sort_by_ensures(o);
    if a.to_multiset() == b.to_multiset() {
        vstd::seq_lib::lemma_sorted_unique(a.sort_by(o), b.sort_by(o), o);
    }
}

/// For each vertex of `snapshot`, the keys of its corners in canonical order; corner `c` of
/// face `f` carries the key `corner_keys[f][c]`. Two vertices get equal signatures exactly
/// when their corners carry the same keys, each as many times.
pub fn build_vertex_corner_signatures<V, L>(snapshot: &MeshSnapshot<V, L>, corner_keys: &Vec<Vec<CornerKey>>) -> (r: Vec<
    Vec<CornerKey>,
>)
    requires
        corner_keys.len() == snapshot.faces.len(),
        forall|f: int|
            0 <= f < snapshot.faces.len() ==> (#[trigger] corner_keys@[f]).len()
                == snapshot.faces@[f].vertices.len(),
        forall|f: int, c: int|
            0 <= f < snapshot.faces.len() && 0 <= c < snapshot.faces@[f].vertices.len() ==> #[trigger] snapshot.faces@[f].vertices@[c]
                < snapshot.vertices.len(),
    ensures
        r.len() == snapshot.vertices.len(),
        forall|v: int|
            0 <= v < r.len() ==> (#[trigger] r@[v])@ == corner_keys_of(*snapshot, corner_keys@, v).sort_by(
                corner_key_order(),
            ),
        forall|a: int, b: int|
            0 <= a < r.len() && 0 <= b < r.len() ==> ((#[trigger] r@[a])@ == (#[trigger] r@[b])@
                <==> corner_keys_of(*snapshot, corner_keys@, a).to_multiset() == corner_keys_of(
                *snapshot,
                corner_keys@,
                b,
            ).to_multiset()),
{
    let ghost fl = corner_lists(snapshot.faces@);
    let ghost kl = key_lists(corner_keys@);
    let nv = snapshot.vertices.len();
    let mut signatures: Vec<Vec<CornerKey>> = Vec::new();
    let mut v: usize = 0;
    while v < nv
        invariant
            v <= nv,
            signatures.len() == v,
            forall|u: int| 0 <= u < v ==> (#[trigger] signatures@[u])@ == vertex_keys_at(fl, kl, u, 0),
        decreases nv - v,
    {
        signatures.push(Vec::new());
        v = v + 1;
    }
    let mut f: usize = 0;
    while f < snapshot.faces.len()
        invariant
            fl == corner_lists(snapshot.faces@),
            kl == key_lists(corner_keys@),
            nv == snapshot.vertices.len(),
            corner_keys.len() == snapshot.faces.len(),
            forall|g: int|
                0 <= g < snapshot.faces.len() ==> (#[trigger] corner_keys@[g]).len()
                    == snapshot.faces@[g].vertices.len(),
            forall|g: int, c: int|
                0 <= g < snapshot.faces.len() && 0 <= c < snapshot.faces@[g].vertices.len() ==> #[trigger] snapshot.faces@[g].vertices@[c]
                    < snapshot.vertices.len(),
            f <= snapshot.faces.len(),
            signatures.len() == nv,
            forall|u: int| 0 <= u < nv ==> (#[trigger] signatures@[u])@ == vertex_keys_at(fl, kl, u, f as int),
        decreases snapshot.faces.len() - f,
    {
        let face = &snapshot.faces[f];
        let keys = &corner_keys[f];
        proof {
            assert(fl[f as int] == face.vertices@);
            assert(kl[f as int] == keys@);
        }
        let mut c: usize = 0;
        while c < face.vertices.len()
            invariant
                fl == corner_lists(snapshot.faces@),
                kl == key_lists(corner_keys@),
                fl[f as int] == face.vertices@,
                kl[f as int] == keys@,
                keys.len() == face.vertices.len(),
                forall|i: int| 0 <= i < face.vertices.len() ==> #[trigger] face.vertices@[i] < nv,
                c <= face.vertices.len(),
                signatures.len() == nv,
                forall|u: int|
                    0 <= u < nv ==> (#[trigger] signatures@[u])@ == vertex_keys_at(fl, kl, u, f as int)
                        + face_keys_at(fl[f as int], kl[f as int], u, c as int),
            decreases face.vertices.len() - c,
        {
            let vertex = face.vertices[c];
            let key = keys[c];
            let ghost before = signatures@;
            signatures[vertex].push(key);
            proof {
                assert forall|u: int| 0 <= u < nv implies (#[trigger] signatures@[u])@ == vertex_keys_at(
                    fl,
                    kl,
                    u,
                    f as int,
                ) + face_keys_at(fl[f as int], kl[f as int], u, c + 1) by {
                    let step = face_keys_at(fl[f as int], kl[f as int], u, c + 1);
                    assert(step == face_keys_at(fl[f as int], kl[f as int], u, c as int) + if fl[f as int][c as int]
                        == u {
                        seq![kl[f as int][c as int]]
                    } else {
                        Seq::empty()
                    });
                    if u == vertex as int {
                        assert(signatures@[u]@ == before[u]@.push(key));
                    } else {
                        assert(signatures@[u] == before[u]);
                    }
                }
            }
            c = c + 1;
        }
        proof {
            assert forall|u: int| 0 <= u < nv implies (#[trigger] signatures@[u])@ == vertex_keys_at(
                fl,
                kl,
                u,
                f + 1,
            ) by {
                assert(fl[f as int].len() == face.vertices.len());
            }
        }
        f = f + 1;
    }
    let ghost grouped = signatures@;
    let mut v: usize = 0;
    while v < nv
        invariant
            v <= nv,
            signatures.len() == nv,
            grouped.len() == nv,
            forall|u: int| 0 <= u < nv ==> (#[trigger] grouped[u])@ == corner_keys_of(*snapshot, corner_keys@, u),
            forall|u: int| 0 <= u < v ==> (#[trigger] signatures@[u])@ == grouped[u]@.sort_by(corner_key_order()),
            forall|u: int| v <= u < nv ==> #[trigger] signatures@[u] == grouped[u],
        decreases nv - v,
    {
        sort_corner_keys(&mut signatures[v]);
        v = v + 1;
    }
    proof {
        assert forall|a: int, b: int| 0 <= a < nv && 0 <= b < nv implies ((#[trigger] signatures@[a])@
            == (#[trigger] signatures@[b])@ <==> corner_keys_of(*snapshot, corner_keys@, a).to_multiset()
            == corner_keys_of(*snapshot, corner_keys@, b).to_multiset()) by {
            lemma_sorted_keys_equal_iff_same_keys(
                corner_keys_of(*snapshot, corner_keys@, a),
                corner_keys_of(*snapshot, corner_keys@, b),
            );
        }
    }
    signatures
}

} // verus!
