use crate::attributes::FacePayload;
use crate::error::MeshError;
use crate::ids::{EdgeId, FaceId};
use crate::mesh::{HalfEdgeMesh, Polygon};
use crate::ops::{
    compact_snapshot, is_compaction, joined, lemma_joined_push, lemma_snapshot_in_range, lemma_views_push, rebuilt_from,
    side_opposite, triangle_opposite, unsupported, unsupported_error,
};
use crate::snapshot::{corners_in_range, empty_face_payload};
use crate::rebuild::{face_view, views};
use crate::snapshot::{copy_vec, MeshSnapshot, PolygonFace};
use crate::subdivision::{edge_key_of, find_first, side_key};
use vstd::prelude::*;

verus! {

/// Face `f` is one of the selected faces.
pub open spec fn selected(sel: Seq<FaceId>, f: int) -> bool {
    exists|k: int| 0 <= k < sel.len() && sel[k].idx() == f
}

/// Two different sides of selected faces lie on the same edge.
pub open spec fn shares_selected_side<L>(ps: Seq<Polygon<L>>, sel: Seq<FaceId>) -> bool {
    exists|f1: int, c1: int, f2: int, c2: int|
        0 <= f1 < ps.len() && 0 <= f2 < ps.len() && 0 <= c1 < ps[f1].corners.len() && 0 <= c2 < ps[f2].corners.len()
            && selected(sel, f1) && selected(sel, f2) && (f1 != f2 || c1 != c2) && #[trigger] side_key(ps[f1], c1)
            == #[trigger] side_key(ps[f2], c2)
}

/// The number of corners of the selected faces among faces `0..f`.
pub open spec fn lifted_before<L>(ps: Seq<Polygon<L>>, sel: Seq<FaceId>, f: int) -> int
    decreases f,
{
    if f <= 0 {
        0
    } else {
        lifted_before(ps, sel, f - 1) + (if selected(sel, f - 1) {
            ps[f - 1].corners.len() as int
        } else {
            0
        })
    }
}

/// The faces that replace an extruded face: its copy on the new vertices `base..`, then
/// one quad per side, wound `a b b' a'` where `flips` says so and `a a' b' b` otherwise.
pub open spec fn extruded_face<L>(p: Polygon<L>, base: int, flips: Seq<bool>) -> Seq<Polygon<L>> {
    let n = p.corners.len() as int;
    let top = Polygon { corners: Seq::new(n as nat, |k: int| (base + k) as usize), loops: p.loops, data: p.data };
    let sides = Seq::new(
        n as nat,
        |k: int|
            {
                let a = p.corners[k];
                let b = p.corners[(k + 1) % n];
                let na = (base + k) as usize;
                let nb = (base + (k + 1) % n) as usize;
                Polygon {
                    corners: if flips[k] {
                        seq![a, b, nb, na]
                    } else {
                        seq![a, na, nb, b]
                    },
                    loops: Seq::empty(),
                    data: p.data,
                }
            },
    );
    seq![top] + sides
}

/// What face `g` becomes: extruded when selected, kept otherwise.
pub open spec fn extrude_part<L>(ps: Seq<Polygon<L>>, sel: Seq<FaceId>, nv: int, flips: Seq<Seq<bool>>, g: int) -> Seq<Polygon<L>> {
    if selected(sel, g) {
        extruded_face(ps[g], nv + lifted_before(ps, sel, g), flips[g])
    } else {
        seq![ps[g]]
    }
}

/// The new vertex payloads of face `g`: its `tops` row when selected, none otherwise.
pub open spec fn lift_row<V>(sel: Seq<FaceId>, tops: Seq<Seq<V>>, g: int) -> Seq<V> {
    if selected(sel, g) {
        tops[g]
    } else {
        Seq::empty()
    }
}

/// The closures' answers for face `g`, when it is selected.
pub open spec fn answered_face<V, L, FN: Fn(usize) -> bool, FT: Fn(usize, usize) -> V, FS: Fn(usize, usize) -> bool>(
    ps: Seq<Polygon<L>>,
    sel: Seq<FaceId>,
    normal_ok: FN,
    top: FT,
    outward: FS,
    tops: Seq<Seq<V>>,
    flips: Seq<Seq<bool>>,
    f: int,
) -> bool {
    selected(sel, f) ==> {
        &&& normal_ok.ensures((f as usize,), true)
        &&& tops[f].len() == ps[f].corners.len()
        &&& flips[f].len() == ps[f].corners.len()
        &&& forall|k: int| 0 <= k < ps[f].corners.len() ==> top.ensures((f as usize, k as usize), #[trigger] tops[f][k])
        &&& forall|k: int| 0 <= k < ps[f].corners.len() ==> outward.ensures((f as usize, k as usize), #[trigger] flips[f][k])
    }
}

/// What each face becomes: extruded when selected, kept otherwise.
pub open spec fn extrude_parts<L>(ps: Seq<Polygon<L>>, sel: Seq<FaceId>, nv: int, flips: Seq<Seq<bool>>) -> Seq<Seq<Polygon<L>>> {
    Seq::new(ps.len(), |f: int| extrude_part(ps, sel, nv, flips, f))
}

/// The new vertex payloads of the selected faces, face by face.
pub open spec fn lifted_rows<L, V>(ps: Seq<Polygon<L>>, sel: Seq<FaceId>, tops: Seq<Seq<V>>) -> Seq<Seq<V>> {
    Seq::new(ps.len(), |f: int| lift_row(sel, tops, f))
}

/// The closures answered for every selected face: the face is not flat, its new corners
/// take `tops`, and its sides take `flips`.
pub open spec fn extrude_answers<V, L, FN: Fn(usize) -> bool, FT: Fn(usize, usize) -> V, FS: Fn(usize, usize) -> bool>(
    ps: Seq<Polygon<L>>,
    sel: Seq<FaceId>,
    normal_ok: FN,
    top: FT,
    outward: FS,
    tops: Seq<Seq<V>>,
    flips: Seq<Seq<bool>>,
) -> bool {
    &&& tops.len() == ps.len()
    &&& flips.len() == ps.len()
    &&& forall|f: int| 0 <= f < ps.len() ==> #[trigger] answered_face(ps, sel, normal_ok, top, outward, tops, flips, f)
}

/// Corner `c` of face `g` is one of the listed corners.
pub open spec fn listed_corner(origins: Seq<(int, int)>, g: int, c: int) -> bool {
    exists|j: int| 0 <= j < origins.len() && origins[j] == (g, c)
}

proof fn lemma_answered_face_same<V, L, FN: Fn(usize) -> bool, FT: Fn(usize, usize) -> V, FS: Fn(usize, usize) -> bool>(
    ps: Seq<Polygon<L>>,
    sel: Seq<FaceId>,
    normal_ok: FN,
    top: FT,
    outward: FS,
    tops1: Seq<Seq<V>>,
    flips1: Seq<Seq<bool>>,
    tops2: Seq<Seq<V>>,
    flips2: Seq<Seq<bool>>,
    f: int,
)
    requires
        answered_face(ps, sel, normal_ok, top, outward, tops1, flips1, f),
        tops1[f] == tops2[f],
        flips1[f] == flips2[f],
    ensures
        answered_face(ps, sel, normal_ok, top, outward, tops2, flips2, f),
{
    if selected(sel, f) {
        assert forall|k: int| 0 <= k < ps[f].corners.len() implies top.ensures((f as usize, k as usize), #[trigger] tops2[f][k]) by {
            assert(tops1[f][k] == tops2[f][k]);
        }
        assert forall|k: int| 0 <= k < ps[f].corners.len() implies outward.ensures((f as usize, k as usize), #[trigger] flips2[f][k]) by {
            assert(flips1[f][k] == flips2[f][k]);
        }
    }
}


/// A bevel polygon over `corners`, reversed unless `keep` says the winding is right.
pub open spec fn oriented<L>(corners: Seq<usize>, keep: bool, data: FacePayload) -> Polygon<L> {
    Polygon { corners: if keep { corners } else { corners.reverse() }, loops: Seq::empty(), data }
}

/// The polygons other than `fa` and `fb`, in order.
pub open spec fn without_two<L>(ps: Seq<Polygon<L>>, fa: int, fb: int) -> Seq<Polygon<L>>
    decreases ps.len(),
{
    if ps.len() == 0 {
        Seq::empty()
    } else {
        let i = ps.len() - 1;
        without_two(ps.drop_last(), fa, fb) + (if i == fa || i == fb { Seq::empty() } else { seq![ps.last()] })
    }
}

/// The polygons after bevelling the edge `u - v` between triangles `fa` (apex `a`) and
/// `fb` (apex `b`): both triangles go, and three faces over the new vertices
/// `ua = nv, va = nv + 1, ub = nv + 2, vb = nv + 3` are appended.
pub open spec fn bevel_polygons<L>(ps: Seq<Polygon<L>>, fa: int, fb: int, a: usize, b: usize, nv: int, keeps: Seq<bool>) -> Seq<Polygon<L>> {
    let ua = nv as usize;
    let va = (nv + 1) as usize;
    let ub = (nv + 2) as usize;
    let vb = (nv + 3) as usize;
    without_two(ps, fa, fb) + seq![
        oriented(seq![a, va, ua], keeps[0], ps[fa].data),
        oriented(seq![b, ub, vb], keeps[1], ps[fb].data),
        oriented(seq![ua, va, vb, ub], keeps[2], empty_face_payload()),
    ]
}

/// The first ends of the bevel's new vertices, in order, and their far ends.
pub open spec fn bevel_moves(u: usize, v: usize, a: usize, b: usize) -> Seq<(usize, usize)> {
    seq![(u, a), (v, a), (u, b), (v, b)]
}

proof fn lemma_without_two_push<L>(ps: Seq<Polygon<L>>, fa: int, fb: int, p: Polygon<L>)
    ensures
        without_two(ps.push(p), fa, fb) == without_two(ps, fa, fb) + (if ps.len() == fa || ps.len() == fb {
            Seq::empty()
        } else {
            seq![p]
        }),
{
    assert(ps.push(p).drop_last() =~= ps);
}

/// Whether face `f` is among the selected faces.
fn is_selected(sel: &[FaceId], f: usize) -> (b: bool)
    ensures
        b == selected(sel@, f as int),
{
    let mut k: usize = 0;
    while k < sel.len()
        invariant
            k <= sel@.len(),
            forall|j: int| 0 <= j < k ==> sel@[j].idx() != f,
        decreases sel@.len() - k,
    {
        if sel[k].index() == f {
            return true;
        }
        k = k + 1;
    }
    false
}

impl<V: Copy, L: Copy + Default> HalfEdgeMesh<V, L> {
    /// Extrudes the selected interior faces: each gets a copy on new vertices (payloads
    /// from `top`) and a quad per side joining old and new corners (winding from
    /// `outward`); the first selected face, in face order, that `normal_ok` calls flat is
    /// refused, as are selected faces sharing an edge.
    pub fn extrude_faces<FN: Fn(usize) -> bool, FT: Fn(usize, usize) -> V, FS: Fn(usize, usize) -> bool>(
        &mut self,
        faces: &[FaceId],
        normal_ok: FN,
        top: FT,
        outward: FS,
    ) -> (r: Result<(), MeshError>)
        requires
            forall|f: usize| normal_ok.requires((f,)),
            forall|f: usize, k: usize| top.requires((f, k)),
            forall|f: usize, k: usize| outward.requires((f, k)),
        ensures
            faces@.len() == 0 ==> r == Err::<(), MeshError>(MeshError::EmptySelection("extrude_faces")) && *final(self)
                == *old(self),
            faces@.len() > 0 && shares_selected_side(old(self).polygons(), faces@) ==> r is Err && unsupported(
                r->Err_0,
                "extrude_faces",
            ) && *final(self) == *old(self),
            r is Err && r->Err_0 is DegenerateFace ==> selected(faces@, r->Err_0->DegenerateFace_0.idx())
                && normal_ok.ensures((r->Err_0->DegenerateFace_0.idx() as usize,), false) && *final(self) == *old(self),
            r is Err && r->Err_0 is DegenerateFace ==> forall|g: int|
                0 <= g < r->Err_0->DegenerateFace_0.idx() && #[trigger] selected(faces@, g) ==> normal_ok.ensures((g as usize,), true),
            faces@.len() > 0 && !shares_selected_side(old(self).polygons(), faces@) && !(r is Err && r->Err_0 is DegenerateFace)
                ==> exists|tops: Seq<Seq<V>>, flips: Seq<Seq<bool>>|
                #[trigger] rebuilt_from(
                    *old(self),
                    *final(self),
                    r,
                    old(self).vertex_data_view() + joined(lifted_rows(old(self).polygons(), faces@, tops)),
                    joined(extrude_parts(old(self).polygons(), faces@, old(self).nv(), flips)),
                ) && extrude_answers(old(self).polygons(), faces@, normal_ok, top, outward, tops, flips),
    {
        proof {
            use_type_invariant(&*self);
        }
        if faces.len() == 0 {
            return Err(MeshError::EmptySelection("extrude_faces"));
        }
        let snapshot = self.to_snapshot();
        let ghost ps = self.polygons();
        let MeshSnapshot { vertices, faces: polys } = snapshot;
        let nf = polys.len();
        let ghost vs = vertices@;
        // Refuse selected faces that share an edge.
        let mut seen: Vec<(usize, usize)> = Vec::new();
        let mut origins: Ghost<Seq<(int, int)>> = Ghost(Seq::empty());
        let mut f: usize = 0;
        while f < nf
            invariant
                nf == polys@.len() == ps.len(),
                views(polys@) == ps,
                ps == old(self).polygons(),
                f <= nf,
                seen@.len() == origins@.len(),
                forall|j: int|
                    0 <= j < origins@.len() ==> {
                        let o = #[trigger] origins@[j];
                        &&& 0 <= o.0 < f
                        &&& 0 <= o.1 < ps[o.0].corners.len()
                        &&& selected(faces@, o.0)
                        &&& seen@[j] == side_key(ps[o.0], o.1)
                    },
                forall|i: int, j: int| 0 <= i < j < seen@.len() ==> #[trigger] seen@[i] != #[trigger] seen@[j],
                forall|i: int, j: int| 0 <= i < j < origins@.len() ==> #[trigger] origins@[i] != #[trigger] origins@[j],
                forall|g: int, c: int|
                    0 <= g < f && 0 <= c < ps[g].corners.len() && selected(faces@, g) ==> #[trigger] listed_corner(origins@, g, c),
            decreases nf - f,
        {
            if is_selected(faces, f) {
                let n = polys[f].vertices.len();
                let ghost p = ps[f as int];
                proof {
                    assert(p == face_view(polys@[f as int]));
                }
                let mut c: usize = 0;
                while c < n
                    invariant
                        nf == polys@.len() == ps.len(),
                        ps == old(self).polygons(),
                        f < nf,
                        p == ps[f as int],
                        p == face_view(polys@[f as int]),
                        n == p.corners.len(),
                        selected(faces@, f as int),
                        c <= n,
                        seen@.len() == origins@.len(),
                        forall|j: int|
                            0 <= j < origins@.len() ==> {
                                let o = #[trigger] origins@[j];
                                &&& (0 <= o.0 < f || (o.0 == f && 0 <= o.1 < c))
                                &&& 0 <= o.1 < ps[o.0].corners.len()
                                &&& selected(faces@, o.0)
                                &&& seen@[j] == side_key(ps[o.0], o.1)
                            },
                        forall|i: int, j: int| 0 <= i < j < seen@.len() ==> #[trigger] seen@[i] != #[trigger] seen@[j],
                        forall|i: int, j: int| 0 <= i < j < origins@.len() ==> #[trigger] origins@[i] != #[trigger] origins@[j],
                        forall|g: int, c2: int|
                            ((0 <= g < f && 0 <= c2 < ps[g].corners.len()) || (g == f && 0 <= c2 < c)) && selected(faces@, g)
                                ==> #[trigger] listed_corner(origins@, g, c2),
                    decreases n - c,
                {
                    let next = if c + 1 == n { 0 } else { c + 1 };
                    proof {
                        if c + 1 == n {
                            vstd::arithmetic::div_mod::lemma_mod_self_0(n as int);
                        } else {
                            vstd::arithmetic::div_mod::lemma_small_mod((c + 1) as nat, n as nat);
                        }
                    }
                    let key = edge_key_of(polys[f].vertices[c], polys[f].vertices[next]);
                    proof {
                        assert(key == side_key(p, c as int));
                    }
                    match find_first(&seen, key) {
                        Some(j) => {
                            proof {
                                let o = origins@[j as int];
                                assert(side_key(ps[o.0], o.1) == side_key(ps[f as int], c as int));
                                assert(shares_selected_side(ps, faces@));
                            }
                            return Err(unsupported_error("extrude_faces", "adjacent selected faces are rejected in pass 1"));
                        },
                        None => {
                            let ghost before = origins@;
                            let ghost seen_before = seen@;
                            seen.push(key);
                            proof {
                                origins@ = origins@.push((f as int, c as int));
                                assert forall|i: int, j: int| 0 <= i < j < seen@.len() implies #[trigger] seen@[i] != #[trigger] seen@[j] by {
                                    if j == seen@.len() - 1 {
                                        assert(seen_before.contains(seen_before[i]));
                                    }
                                }
                                assert forall|i: int, j: int| 0 <= i < j < origins@.len() implies #[trigger] origins@[i] != #[trigger] origins@[j] by {
                                    if j == origins@.len() - 1 {
                                        assert(before[i].0 < f || before[i].1 < c);
                                    }
                                }
                                assert forall|g: int, c2: int|
                                    ((0 <= g < f && 0 <= c2 < ps[g].corners.len()) || (g == f && 0 <= c2 < c + 1)) && selected(faces@, g)
                                    implies #[trigger] listed_corner(origins@, g, c2) by {
                                    if g == f && c2 == c {
                                        assert(origins@[origins@.len() - 1] == (g, c2));
                                    } else {
                                        assert(listed_corner(before, g, c2));
                                        let j = choose|j: int| 0 <= j < before.len() && before[j] == (g, c2);
                                        assert(origins@[j] == (g, c2));
                                    }
                                }
                            }
                        },
                    }
                    c = c + 1;
                }
            }
            f = f + 1;
        }
        proof {
            if shares_selected_side(ps, faces@) {
                let (f1, c1, f2, c2) = choose|f1: int, c1: int, f2: int, c2: int|
                    0 <= f1 < ps.len() && 0 <= f2 < ps.len() && 0 <= c1 < ps[f1].corners.len() && 0 <= c2 < ps[f2].corners.len()
                        && selected(faces@, f1) && selected(faces@, f2) && (f1 != f2 || c1 != c2) && #[trigger] side_key(ps[f1], c1)
                        == #[trigger] side_key(ps[f2], c2);
                assert(listed_corner(origins@, f1, c1));
                assert(listed_corner(origins@, f2, c2));
                let j1 = choose|j: int| 0 <= j < origins@.len() && origins@[j] == (f1, c1);
                let j2 = choose|j: int| 0 <= j < origins@.len() && origins@[j] == (f2, c2);
                if j1 < j2 {
                    assert(seen@[j1] != seen@[j2]);
                } else if j2 < j1 {
                    assert(seen@[j2] != seen@[j1]);
                }
            }
        }
        // Build the extruded polygons.
        let mut out_vertices = copy_vec(&vertices);
        let mut out: Vec<PolygonFace<L>> = Vec::new();
        let mut tops: Ghost<Seq<Seq<V>>> = Ghost(Seq::empty());
        let mut flips: Ghost<Seq<Seq<bool>>> = Ghost(Seq::empty());
        let nv = vertices.len();
        let mut f: usize = 0;
        while f < nf
            invariant
                nf == polys@.len() == ps.len(),
                views(polys@) == ps,
                forall|j: int| 0 <= j < polys@.len() ==> (#[trigger] polys@[j]).loops@.len() == polys@[j].vertices@.len(),
                nv == vs.len(),
                ps == old(self).polygons(),
                vs == old(self).vertex_data_view(),
                nv == old(self).nv(),
                !shares_selected_side(ps, faces@),
                faces@.len() > 0,
                forall|x: usize| normal_ok.requires((x,)),
                forall|x: usize, k: usize| top.requires((x, k)),
                forall|x: usize, k: usize| outward.requires((x, k)),
                f <= nf,
                tops@.len() == f,
                flips@.len() == f,
                out_vertices@ == vs + joined(Seq::new(f as nat, |g: int| lift_row(faces@, tops@, g))),
                out_vertices@.len() == nv + lifted_before(ps, faces@, f as int),
                views(out@) == joined(Seq::new(f as nat, |g: int| extrude_part(ps, faces@, nv as int, flips@, g))),
                forall|g: int| 0 <= g < f ==> #[trigger] answered_face(ps, faces@, normal_ok, top, outward, tops@, flips@, g),
                nf < u32::MAX,
            decreases nf - f,
        {
            let ghost p = ps[f as int];
            let ghost ov0 = out_vertices@;
            let ghost out0 = views(out@);
            let ghost tops0 = tops@;
            let ghost flips0 = flips@;
            let ghost lifts0 = Seq::new(f as nat, |g: int| lift_row(faces@, tops0, g));
            let ghost parts0 = Seq::new(f as nat, |g: int| extrude_part(ps, faces@, nv as int, flips0, g));
            proof {
                assert(p == face_view(polys@[f as int]));
            }
            let sel = is_selected(faces, f);
            let ghost mut row: Seq<V> = Seq::empty();
            let ghost mut side_row: Seq<bool> = Seq::empty();
            let ghost mut done_face: bool = !sel;
            if !sel {
                let copy = polys[f].copy();
                proof {
                    lemma_views_push(out@, copy);
                }
                out.push(copy);
            } else {
                if !normal_ok(f) {
                    proof {
                        assert forall|g: int| 0 <= g < f && #[trigger] selected(faces@, g) implies normal_ok.ensures((g as usize,), true) by {
                            assert(answered_face(ps, faces@, normal_ok, top, outward, tops@, flips@, g));
                        }
                    }
                    return Err(MeshError::DegenerateFace(FaceId(f as u32)));
                }
                let n = polys[f].vertices.len();
                let base = out_vertices.len();
                let mut top_ids: Vec<usize> = Vec::new();
                let mut trow: Ghost<Seq<V>> = Ghost(Seq::empty());
                let mut k: usize = 0;
                while k < n
                    invariant
                        n == p.corners.len(),
                        forall|x: usize, j: usize| top.requires((x, j)),
                        k <= n,
                        base == ov0.len(),
                        out_vertices@ == ov0 + trow@,
                        trow@.len() == k,
                        top_ids@ == Seq::new(k as nat, |j: int| (base + j) as usize),
                        forall|j: int| 0 <= j < k ==> top.ensures((f, j as usize), #[trigger] trow@[j]),
                    decreases n - k,
                {
                    let payload = top(f, k);
                    let idx = out_vertices.len();
                    out_vertices.push(payload);
                    top_ids.push(idx);
                    proof {
                        trow@ = trow@.push(payload);
                        assert(out_vertices@ =~= ov0 + trow@);
                        assert(top_ids@ =~= Seq::new((k + 1) as nat, |j: int| (base + j) as usize));
                    }
                    k = k + 1;
                }
                let top_face = PolygonFace { vertices: copy_vec(&top_ids), loops: copy_vec(&polys[f].loops), data: polys[f].data };
                let mut sides: Vec<PolygonFace<L>> = Vec::new();
                let mut side_flips: Ghost<Seq<bool>> = Ghost(Seq::empty());
                let mut k: usize = 0;
                while k < n
                    invariant
                        n == p.corners.len(),
                        p == face_view(polys@[f as int]),
                        f < nf,
                        nf == polys@.len(),
                        forall|x: usize, j: usize| outward.requires((x, j)),
                        top_ids@ == Seq::new(n as nat, |j: int| (base + j) as usize),
                        k <= n,
                        side_flips@.len() == k,
                        forall|j: int| 0 <= j < k ==> outward.ensures((f, j as usize), #[trigger] side_flips@[j]),
                        forall|j: int| 0 <= j < k ==> #[trigger] views(sides@)[j] == extruded_face(p, base as int, side_flips@)[j + 1],
                        sides@.len() == k,
                    decreases n - k,
                {
                    let next = if k + 1 == n { 0 } else { k + 1 };
                    proof {
                        if k + 1 == n {
                            vstd::arithmetic::div_mod::lemma_mod_self_0(n as int);
                        } else {
                            vstd::arithmetic::div_mod::lemma_small_mod((k + 1) as nat, n as nat);
                        }
                    }
                    let flip = outward(f, k);
                    let a = polys[f].vertices[k];
                    let b = polys[f].vertices[next];
                    let na = top_ids[k];
                    let nb = top_ids[next];
                    let quad = if flip {
                        PolygonFace { vertices: vec![a, b, nb, na], loops: Vec::new(), data: polys[f].data }
                    } else {
                        PolygonFace { vertices: vec![a, na, nb, b], loops: Vec::new(), data: polys[f].data }
                    };
                    proof {
                        let old_flips = side_flips@;
                        side_flips@ = side_flips@.push(flip);
                        let e = extruded_face(p, base as int, side_flips@);
                        let e0 = extruded_face(p, base as int, old_flips);
                        assert(face_view(quad).corners =~= e[k + 1].corners);
                        assert(face_view(quad).loops =~= e[k + 1].loops);
                        assert forall|j: int| 0 <= j < k implies #[trigger] e[j + 1] == e0[j + 1] by {}
                        lemma_views_push(sides@, quad);
                    }
                    sides.push(quad);
                    k = k + 1;
                }
                let ghost e = extruded_face(p, base as int, side_flips@);
                proof {
                    lemma_views_push(out@, top_face);
                    assert(face_view(top_face).corners =~= e[0].corners);
                    assert(face_view(top_face) == e[0]);
                }
                out.push(top_face);
                let mut j: usize = 0;
                while j < sides.len()
                    invariant
                        j <= sides@.len(),
                        sides@.len() == n,
                        e.len() == n + 1,
                        forall|i: int| 0 <= i < n ==> #[trigger] views(sides@)[i] == e[i + 1],
                        views(out@) =~= out0 + e.take(j + 1),
                    decreases sides@.len() - j,
                {
                    let q = sides[j].copy();
                    proof {
                        lemma_views_push(out@, q);
                        assert(face_view(q) == views(sides@)[j as int]);
                        assert(e.take(j + 2) =~= e.take(j + 1).push(e[j + 1]));
                    }
                    out.push(q);
                    j = j + 1;
                }
                proof {
                    assert(e.take(n + 1) =~= e);
                    row = trow@;
                    side_row = side_flips@;
                    let t1 = tops0.push(row);
                    let f1 = flips0.push(side_row);
                    assert(t1[f as int] == row);
                    assert(f1[f as int] == side_row);
                    assert(answered_face(ps, faces@, normal_ok, top, outward, t1, f1, f as int));
                    done_face = answered_face(ps, faces@, normal_ok, top, outward, t1, f1, f as int);
                    assert(extrude_part(ps, faces@, nv as int, f1, f as int) == e);
                    assert(lift_row(faces@, t1, f as int) == row);
                }
            }
            proof {
                tops@ = tops0.push(row);
                flips@ = flips0.push(side_row);
                if sel {
                    assert(done_face);
                }
                assert(answered_face(ps, faces@, normal_ok, top, outward, tops@, flips@, f as int));
                assert forall|g: int| 0 <= g < f implies #[trigger] lift_row(faces@, tops@, g) == lifts0[g] by {
                    assert(tops@[g] == tops0[g]);
                }
                assert forall|g: int| 0 <= g < f implies #[trigger] extrude_part(ps, faces@, nv as int, flips@, g) == parts0[g] by {
                    assert(flips@[g] == flips0[g]);
                }
                let lifts1 = Seq::new((f + 1) as nat, |g: int| lift_row(faces@, tops@, g));
                let parts1 = Seq::new((f + 1) as nat, |g: int| extrude_part(ps, faces@, nv as int, flips@, g));
                assert(lifts1 =~= lifts0.push(lift_row(faces@, tops@, f as int)));
                assert(parts1 =~= parts0.push(extrude_part(ps, faces@, nv as int, flips@, f as int)));
                lemma_joined_push(lifts0, lift_row(faces@, tops@, f as int));
                lemma_joined_push(parts0, extrude_part(ps, faces@, nv as int, flips@, f as int));
                assert(out_vertices@ =~= vs + joined(lifts1));
                assert(views(out@) =~= joined(parts1));
                assert forall|g: int| 0 <= g < f + 1 implies #[trigger] answered_face(ps, faces@, normal_ok, top, outward, tops@, flips@, g) by {
                    if g < f {
                        assert(answered_face(ps, faces@, normal_ok, top, outward, tops0, flips0, g));
                        lemma_answered_face_same(ps, faces@, normal_ok, top, outward, tops0, flips0, tops@, flips@, g);
                    }
                }
            }
            f = f + 1;
        }
        proof {
            assert(Seq::new(nf as nat, |g: int| lift_row(faces@, tops@, g)) =~= lifted_rows(ps, faces@, tops@));
            assert(Seq::new(nf as nat, |g: int| extrude_part(ps, faces@, nv as int, flips@, g)) =~= extrude_parts(ps, faces@, nv as int, flips@));
            assert(extrude_answers(ps, faces@, normal_ok, top, outward, tops@, flips@));
        }
        let ghost tv = out_vertices@;
        let ghost tf = views(out@);
        let r = self.rebuild_in_place(MeshSnapshot { vertices: out_vertices, faces: out });
        proof {
            assert(rebuilt_from(*old(self), *self, r, vs + joined(lifted_rows(ps, faces@, tops@)), joined(extrude_parts(ps, faces@, nv as int, flips@))));
        }
        r
    }

    /// Bevels one interior edge shared by two triangles: both triangles are replaced by a
    /// narrower triangle each and a quad across the edge, over four new vertices whose
    /// payloads `toward(from, to)` gives for the edge's ends moved towards the two apexes;
    /// `keep_winding(0..3)` says whether each new face keeps its winding. Unused vertices
    /// are then compacted away.
    pub fn bevel_edges<FT: Fn(usize, usize) -> V, FK: Fn(usize) -> bool>(
        &mut self,
        edges: &[EdgeId],
        toward: FT,
        keep_winding: FK,
    ) -> (r: Result<(), MeshError>)
        requires
            forall|x: usize, y: usize| toward.requires((x, y)),
            forall|k: usize| keep_winding.requires((k,)),
        ensures
            r is Err && !(r->Err_0 is Validation) && !(r->Err_0 is FaceTooSmall) && !(r->Err_0 is DuplicateConsecutiveVertex)
                && !(r->Err_0 is DuplicateDirectedEdge) ==> *final(self) == *old(self),
            edges@.len() != 1 ==> r is Err && unsupported(r->Err_0, "bevel_edges"),
            edges@.len() == 1 && edges@[0].idx() >= old(self).ne() ==> r == Err::<(), MeshError>(MeshError::InvalidEdge(edges@[0])),
            edges@.len() == 1 && edges@[0].idx() < old(self).ne() && old(self).edge_on_boundary(edges@[0].idx()) ==> r
                == Err::<(), MeshError>(MeshError::BoundaryOperation { operation: "bevel_edges" }),
            edges@.len() == 1 && edges@[0].idx() < old(self).ne() && !old(self).edge_on_boundary(edges@[0].idx()) ==> {
                let t = old(self).topology();
                let h = t.edges[edges@[0].idx()].idx();
                let tw = t.links[h].twin.idx();
                let fa = t.links[h].face.idx();
                let fb = t.links[tw].face.idx();
                let ps = old(self).polygons();
                let u = t.links[h].origin.0 as usize;
                let v = t.links[tw].origin.0 as usize;
                let vs = old(self).vertex_data_view();
                &&& (ps[fa].corners.len() != 3 || ps[fb].corners.len() != 3) ==> r == Err::<(), MeshError>(
                    MeshError::RequiresTriangleFaces { operation: "bevel_edges" },
                )
                &&& ps[fa].corners.len() == 3 && ps[fb].corners.len() == 3 && (side_opposite(ps[fa], u, v) is None
                    || side_opposite(ps[fb], v, u) is None) ==> r is Err && r->Err_0 is InvalidTopology
                &&& ps[fa].corners.len() == 3 && ps[fb].corners.len() == 3 && side_opposite(ps[fa], u, v) is Some
                    && side_opposite(ps[fb], v, u) is Some ==> {
                    let a = side_opposite(ps[fa], u, v)->0;
                    let b = side_opposite(ps[fb], v, u)->0;
                    exists|moved: Seq<V>, keeps: Seq<bool>, remap: Seq<Option<usize>>, vs2: Seq<V>, fs2: Seq<Polygon<L>>|
                        #[trigger] is_compaction(remap, vs + moved, bevel_polygons(ps, fa, fb, a, b, vs.len() as int, keeps), vs2, fs2)
                            && rebuilt_from(*old(self), *final(self), r, vs2, fs2) && moved.len() == 4 && keeps.len() == 3
                            && (forall|k: int| 0 <= k < 4 ==> toward.ensures(bevel_moves(u, v, a, b)[k], #[trigger] moved[k]))
                            && (forall|k: int| 0 <= k < 3 ==> keep_winding.ensures((k as usize,), #[trigger] keeps[k]))
                }
            },
    {
        proof {
            use_type_invariant(&*self);
        }
        if edges.len() != 1 {
            return Err(unsupported_error("bevel_edges", "pass 1 supports a single two-triangle strip edge at a time"));
        }
        let edge = edges[0];
        let (halfedge, twin) = self.edge_halfedges(edge)?;
        let boundary = self.edge_is_boundary(edge)?;
        if boundary {
            return Err(MeshError::BoundaryOperation { operation: "bevel_edges" });
        }
        let ghost t = self.topology();
        proof {
            assert(t.link_ok(halfedge.idx()));
            assert(t.link_ok(twin.idx()));
        }
        let face_a = self.halfedge_face(halfedge)?;
        let face_b = self.halfedge_face(twin)?;
        let snapshot = self.to_snapshot();
        let ghost ps = self.polygons();
        let ghost vs = self.vertex_data_view();
        proof {
            lemma_snapshot_in_range(*self, snapshot);
        }
        let ia = face_a.index();
        let ib = face_b.index();
        proof {
            assert(views(snapshot.faces@)[ia as int] == face_view(snapshot.faces@[ia as int]));
            assert(views(snapshot.faces@)[ib as int] == face_view(snapshot.faces@[ib as int]));
        }
        if snapshot.faces[ia].vertices.len() != 3 || snapshot.faces[ib].vertices.len() != 3 {
            return Err(MeshError::RequiresTriangleFaces { operation: "bevel_edges" });
        }
        let u = self.halfedge_origin(halfedge)?.index();
        let v = self.halfedge_origin(twin)?.index();
        let a = match triangle_opposite(&snapshot.faces[ia], u, v) {
            Some(x) => x,
            None => {
                return Err(MeshError::InvalidTopology("triangle strip mismatch"));
            },
        };
        let b = match triangle_opposite(&snapshot.faces[ib], v, u) {
            Some(x) => x,
            None => {
                return Err(MeshError::InvalidTopology("triangle strip mismatch"));
            },
        };
        let MeshSnapshot { mut vertices, faces } = snapshot;
        let nv = vertices.len();
        proof {
            let i = choose|i: int| crate::ops::first_side(ps[ia as int], u, v, i);
            let j = choose|j: int| crate::ops::first_side(ps[ib as int], v, u, j);
            assert(ps[ia as int].corners[(i + 2) % 3] < nv);
            assert(ps[ib as int].corners[(j + 2) % 3] < nv);
        }
        let pua = toward(u, a);
        let pva = toward(v, a);
        let pub_ = toward(u, b);
        let pvb = toward(v, b);
        let ghost moved = seq![pua, pva, pub_, pvb];
        let ua = vertices.len();
        vertices.push(pua);
        let va = vertices.len();
        vertices.push(pva);
        let ub = vertices.len();
        vertices.push(pub_);
        let vb = vertices.len();
        vertices.push(pvb);
        let k0 = keep_winding(0);
        let k1 = keep_winding(1);
        let k2 = keep_winding(2);
        let ghost keeps = seq![k0, k1, k2];
        let tri_a = if k0 { vec![a, va, ua] } else { vec![ua, va, a] };
        let tri_b = if k1 { vec![b, ub, vb] } else { vec![vb, ub, b] };
        let quad = if k2 { vec![ua, va, vb, ub] } else { vec![ub, vb, va, ua] };
        let mut out: Vec<PolygonFace<L>> = Vec::new();
        let mut i: usize = 0;
        while i < faces.len()
            invariant
                views(faces@) == ps,
                i <= faces@.len(),
                corners_in_range(faces@, nv as int),
                corners_in_range(out@, nv as int),
                views(out@) == without_two(ps.take(i as int), ia as int, ib as int),
            decreases faces@.len() - i,
        {
            proof {
                assert(ps.take(i + 1) =~= ps.take(i as int).push(ps[i as int]));
                lemma_without_two_push(ps.take(i as int), ia as int, ib as int, ps[i as int]);
            }
            if i != ia && i != ib {
                let copy = faces[i].copy();
                proof {
                    lemma_views_push(out@, copy);
                    assert(face_view(copy) == ps[i as int]);
                }
                out.push(copy);
            }
            i = i + 1;
        }
        proof {
            assert(ps.take(faces@.len() as int) =~= ps);
        }
        let ghost kept_faces = views(out@);
        let fa_data = faces[ia].data;
        let fb_data = faces[ib].data;
        let f1 = PolygonFace { vertices: tri_a, loops: Vec::new(), data: fa_data };
        let f2 = PolygonFace { vertices: tri_b, loops: Vec::new(), data: fb_data };
        let f3 = PolygonFace { vertices: quad, loops: Vec::new(), data: FacePayload { material: None, region: None } };
        out.push(f1);
        out.push(f2);
        out.push(f3);
        let ghost target = bevel_polygons(ps, ia as int, ib as int, a, b, nv as int, keeps);
        proof {
            assert(face_view(f1).corners =~= target[kept_faces.len() as int].corners);
            assert(face_view(f2).corners =~= target[kept_faces.len() as int + 1].corners);
            assert(face_view(f3).corners =~= target[kept_faces.len() as int + 2].corners);
            assert(face_view(f1).loops =~= target[kept_faces.len() as int].loops);
            assert(face_view(f2).loops =~= target[kept_faces.len() as int + 1].loops);
            assert(face_view(f3).loops =~= target[kept_faces.len() as int + 2].loops);
            assert(views(out@) =~= target);
            assert(vertices@ =~= vs + moved);
            assert forall|f: int, k: int| 0 <= f < out@.len() && 0 <= k < out@[f].vertices@.len() implies (#[trigger] out@[f].vertices@[k]) < vertices@.len() by {
                if f < kept_faces.len() {
                } else {
                    assert(out@[f].vertices@[k] == target[f].corners[k]);
                }
            }
        }
        let (remap, compacted) = compact_snapshot(MeshSnapshot { vertices, faces: out });
        let ghost vs2 = compacted.vertices@;
        let ghost fs2 = views(compacted.faces@);
        let r = self.rebuild_in_place(compacted);
        proof {
            assert(is_compaction(remap@, vs + moved, target, vs2, fs2));
            assert(rebuilt_from(*old(self), *self, r, vs2, fs2));
            assert(forall|k: int| 0 <= k < 4 ==> toward.ensures(bevel_moves(u, v, a, b)[k], #[trigger] moved[k]));
            assert(forall|k: int| 0 <= k < 3 ==> keep_winding.ensures((k as usize,), #[trigger] keeps[k]));
        }
        r
    }
}

} // verus!
