use crate::error::MeshError;
use crate::ids::HalfEdgeId;
use crate::mesh::{lemma_face_loop_in_range, HalfEdgeMesh, Topology};
use crate::ops::{joined, lemma_joined_push};
use crate::subdivision::{first_at, first_keys, lemma_slot_of, slot_of};
use crate::topology::walk_face;
use vstd::prelude::*;

verus! {

/// The exact bit pattern of a position, used to weld corners that share a position.
pub type PositionKey = (u32, u32, u32);

/// How triangle corners of an indexed buffer weld into vertices.
#[derive(Debug)]
pub struct WeldPlan {
    /// For each welded vertex, the buffer entry that first carried its position.
    pub sources: Vec<usize>,
    /// For each index-buffer entry, the welded vertex it lands on.
    pub corners: Vec<usize>,
}

/// The position keys of the index-buffer entries, in order.
pub open spec fn corner_keys(keys: Seq<PositionKey>, indices: Seq<usize>) -> Seq<PositionKey> {
    indices.map_values(|i: usize| keys[i as int])
}

/// `k` is the first index-buffer entry that points past the position list.
pub open spec fn first_bad_index(n: int, indices: Seq<usize>, k: int) -> bool {
    &&& 0 <= k < indices.len()
    &&& indices[k] >= n
    &&& forall|j: int| 0 <= j < k ==> indices[j] < n
}

/// Entry `s` of the index buffer is the first whose position key is `key`.
pub open spec fn first_source(ck: Seq<PositionKey>, indices: Seq<usize>, key: PositionKey, s: usize) -> bool {
    exists|c: int| first_at(ck, key, c) && indices[c] == s
}

/// `plan` welds the corners of `indices` by position key: welded vertices are the keys in
/// order of first use, each vertex remembers the entry that first used it, and each entry
/// lands on the vertex of its key.
pub open spec fn is_weld(keys: Seq<PositionKey>, indices: Seq<usize>, sources: Seq<usize>, corners: Seq<usize>) -> bool {
    let ck = corner_keys(keys, indices);
    let welded = first_keys(ck);
    &&& sources.len() == welded.len()
    &&& forall|v: int| 0 <= v < sources.len() ==> #[trigger] sources[v] < keys.len() && keys[sources[v] as int] == welded[v]
    &&& forall|v: int| 0 <= v < sources.len() ==> first_source(ck, indices, welded[v], #[trigger] sources[v])
    &&& corners.len() == indices.len()
    &&& forall|c: int| 0 <= c < corners.len() ==> first_at(welded, ck[c], #[trigger] corners[c] as int)
}

/// The message for an index that points past the position list.
fn bad_index_message(index: usize) -> (s: String)
    ensures
        exists|digits: String|
            #[trigger] vstd::string::to_string_from_display_ensures::<usize>(&index, digits) && s@ == "index "@ + digits@
                + " points beyond the position attribute"@,
{
    let mut text = "index ".to_string();
    let number = index.to_string();
    text.append(number.as_str());
    text.append(" points beyond the position attribute");
    text
}

/// Welds the corners of a triangle index buffer by exact position: a buffer whose length
/// is not a multiple of three, or with an entry past the position list, is refused.
pub fn weld_positions(keys: &Vec<PositionKey>, indices: &Vec<usize>) -> (r: Result<WeldPlan, MeshError>)
    ensures
        indices@.len() % 3 != 0 ==> r is Err && r->Err_0 is UnsupportedMesh,
        forall|k: int| #[trigger] first_bad_index(keys@.len() as int, indices@, k) ==> r is Err && r->Err_0 is UnsupportedMesh,
        indices@.len() % 3 == 0 && (forall|k: int| 0 <= k < indices@.len() ==> #[trigger] indices@[k] < keys@.len()) ==> r is Ok
            && is_weld(keys@, indices@, r->Ok_0.sources@, r->Ok_0.corners@),
{
    if indices.len() % 3 != 0 {
        return Err(MeshError::UnsupportedMesh("triangle index buffer length must be divisible by 3".to_string()));
    }
    let ghost ck = corner_keys(keys@, indices@);
    let mut welded: Vec<PositionKey> = Vec::new();
    let mut sources: Vec<usize> = Vec::new();
    let mut corners: Vec<usize> = Vec::new();
    let mut c: usize = 0;
    while c < indices.len()
        invariant
            indices@.len() % 3 == 0,
            ck == corner_keys(keys@, indices@),
            c <= indices@.len(),
            forall|j: int| 0 <= j < c ==> #[trigger] indices@[j] < keys@.len(),
            welded@ == first_keys(ck.take(c as int)),
            sources@.len() == welded@.len(),
            forall|v: int| 0 <= v < sources@.len() ==> #[trigger] sources@[v] < keys@.len() && keys@[sources@[v] as int] == welded@[v],
            forall|v: int| 0 <= v < sources@.len() ==> first_source(ck, indices@, welded@[v], #[trigger] sources@[v]),
            corners@.len() == c,
            forall|j: int| 0 <= j < c ==> first_at(welded@, ck[j], #[trigger] corners@[j] as int),
            forall|x: PositionKey| #[trigger] welded@.contains(x) ==> exists|j: int| 0 <= j < c && ck[j] == x,
            forall|j: int| 0 <= j < c ==> #[trigger] welded@.contains(ck[j]),
        decreases indices@.len() - c,
    {
        let index = indices[c];
        if index >= keys.len() {
            proof {
                assert(first_bad_index(keys@.len() as int, indices@, c as int));
                assert forall|k: int| #[trigger] first_bad_index(keys@.len() as int, indices@, k) implies k == c by {
                    if k < c {
                        assert(indices@[k] < keys@.len());
                    } else if k > c {
                        assert(indices@[c as int] < keys@.len());
                    }
                }
            }
            return Err(MeshError::UnsupportedMesh(bad_index_message(index)));
        }
        let key = keys[index];
        proof {
            assert(ck[c as int] == key);
            assert(ck.take(c + 1).drop_last() =~= ck.take(c as int));
            assert(ck.take(c + 1).last() == key);
        }
        let mut v: usize = 0;
        let mut found = false;
        while v < welded.len() && !found
            invariant
                v <= welded@.len(),
                !found ==> forall|x: int| 0 <= x < v ==> welded@[x] != key,
                found ==> v > 0 && welded@[v - 1] == key && forall|x: int| 0 <= x < v - 1 ==> welded@[x] != key,
            decreases welded@.len() - v,
        {
            let w = welded[v];
            if w.0 == key.0 && w.1 == key.1 && w.2 == key.2 {
                found = true;
            }
            v = v + 1;
        }
        if found {
            proof {
                assert(first_at(welded@, key, v - 1));
            }
            corners.push(v - 1);
        } else {
            let ghost before = welded@;
            let slot = welded.len();
            welded.push(key);
            sources.push(index);
            corners.push(slot);
            proof {
                assert(!before.contains(key));
                assert(first_at(welded@, key, slot as int));
                assert forall|j: int| 0 <= j < c implies first_at(welded@, ck[j], #[trigger] corners@[j] as int) by {
                    assert(first_at(before, ck[j], corners@[j] as int));
                }
                assert forall|j: int| 0 <= j < c implies #[trigger] welded@.contains(ck[j]) by {
                    assert(before.contains(ck[j]));
                    let x = choose|x: int| 0 <= x < before.len() && before[x] == ck[j];
                    assert(welded@[x] == ck[j]);
                }
                assert(welded@[slot as int] == ck[c as int]);
                assert(first_at(ck, key, c as int)) by {
                    assert forall|j: int| 0 <= j < c implies ck[j] != key by {
                        assert(before.contains(ck[j]));
                    }
                }
                assert forall|w: int| 0 <= w < sources@.len() implies first_source(ck, indices@, welded@[w], #[trigger] sources@[w]) by {
                    if w == slot {
                        assert(first_at(ck, welded@[w], c as int) && indices@[c as int] == sources@[w]);
                    } else {
                        assert(welded@[w] == before[w]);
                    }
                }
                assert forall|x: PositionKey| #[trigger] welded@.contains(x) implies exists|j: int| 0 <= j < c + 1 && ck[j] == x by {
                    let y = choose|y: int| 0 <= y < welded@.len() && welded@[y] == x;
                    if y < before.len() {
                        assert(before.contains(x));
                    } else {
                        assert(ck[c as int] == x);
                    }
                }
            }
        }
        proof {
            assert(welded@.contains(ck[c as int])) by {
                assert(first_at(welded@, ck[c as int], corners@[c as int] as int));
            }
        }
        c = c + 1;
    }
    proof {
        assert(ck.take(indices@.len() as int) =~= ck);
        assert(welded@ == first_keys(ck));
    }
    Ok(WeldPlan { sources, corners })
}

/// Half-edges of the interior faces before face `f`, counted.
pub open spec fn corner_offset(t: Topology, f: int) -> int
    decreases f,
{
    if f <= 0 {
        0
    } else {
        corner_offset(t, f - 1) + t.face_loop(f - 1).len()
    }
}

/// The fan of triangles over the `n` export corners of a face that start at `base`.
pub open spec fn face_fan(base: int, n: int) -> Seq<u32> {
    joined(Seq::new((n - 2) as nat, |k: int| seq![base as u32, (base + k + 1) as u32, (base + k + 2) as u32]))
}

/// The export layout of a mesh: one corner per interior face corner, face by face, and
/// each face fanned into triangles over its corners.
pub open spec fn export_layout_of(t: Topology) -> (Seq<HalfEdgeId>, Seq<u32>) {
    (
        joined(Seq::new(t.interior as nat, |f: int| t.face_loop(f))),
        joined(Seq::new(t.interior as nat, |f: int| face_fan(corner_offset(t, f), t.face_loop(f).len() as int))),
    )
}

impl<V: Copy, L: Copy> HalfEdgeMesh<V, L> {
    /// The corners to export, face by face in loop order, and the triangle indices that
    /// fan each face over its own corners.
    pub fn export_layout(&self) -> (r: (Vec<HalfEdgeId>, Vec<u32>))
        ensures
            r.0@ == export_layout_of(self.topology()).0,
            r.1@ == export_layout_of(self.topology()).1,
    {
        proof {
            use_type_invariant(self);
        }
        let ghost t = self.topology();
        let ghost loops = Seq::new(t.interior as nat, |f: int| t.face_loop(f));
        let ghost fans = Seq::new(t.interior as nat, |f: int| face_fan(corner_offset(t, f), t.face_loop(f).len() as int));
        let mut corners: Vec<HalfEdgeId> = Vec::new();
        let mut indices: Vec<u32> = Vec::new();
        let nf = self.interior_face_count;
        let mut f: usize = 0;
        while f < nf
            invariant
                t == self.topology(),
                t.wf(),
                nf == t.interior,
                loops == Seq::new(t.interior as nat, |f: int| t.face_loop(f)),
                fans == Seq::new(t.interior as nat, |f: int| face_fan(corner_offset(t, f), t.face_loop(f).len() as int)),
                f <= nf,
                corners@ == joined(loops.take(f as int)),
                corners@.len() == corner_offset(t, f as int),
                indices@ == joined(fans.take(f as int)),
            decreases nf - f,
        {
            let hs = walk_face(self, f);
            proof {
                assert(t.loop_ok(f as int));
            }
            let n = hs.len();
            let base = corners.len();
            let ghost c0 = corners@;
            let ghost i0 = indices@;
            let mut j: usize = 0;
            while j < n
                invariant
                    n == hs@.len(),
                    j <= n,
                    corners@ == c0 + hs@.take(j as int),
                decreases n - j,
            {
                corners.push(hs[j]);
                proof {
                    assert(hs@.take(j + 1) =~= hs@.take(j as int).push(hs@[j as int]));
                }
                j = j + 1;
            }
            proof {
                assert(hs@.take(n as int) =~= hs@);
            }
            let total = corners.len();
            let ghost tris = Seq::new((n - 2) as nat, |k: int| seq![base as u32, (base + k + 1) as u32, (base + k + 2) as u32]);
            let mut k: usize = 1;
            while k + 1 < n
                invariant
                    3 <= n,
                    corners@.len() == base + n,
                    total == base + n,
                    1 <= k < n,
                    tris == Seq::new((n - 2) as nat, |k: int| seq![base as u32, (base + k + 1) as u32, (base + k + 2) as u32]),
                    indices@ == i0 + joined(tris.take(k - 1)),
                decreases n - k,
            {
                let a = base as u32;
                let b = (base + k) as u32;
                let c = (base + k + 1) as u32;
                indices.push(a);
                indices.push(b);
                indices.push(c);
                proof {
                    assert(tris.take(k as int) =~= tris.take(k - 1).push(tris[k - 1]));
                    lemma_joined_push(tris.take(k - 1), tris[k - 1]);
                    assert(tris[k - 1] =~= seq![a, b, c]);
                    assert(indices@ =~= i0 + joined(tris.take(k as int)));
                }
                k = k + 1;
            }
            proof {
                assert(tris.take(n - 2) =~= tris);
                assert(tris == Seq::new((n - 2) as nat, |k: int| seq![corner_offset(t, f as int) as u32, (corner_offset(t, f as int) + k + 1) as u32, (corner_offset(t, f as int) + k + 2) as u32]));
                assert(fans[f as int] == joined(tris));
                assert(loops[f as int] == hs@);
                assert(loops.take(f + 1) =~= loops.take(f as int).push(loops[f as int]));
                assert(fans.take(f + 1) =~= fans.take(f as int).push(fans[f as int]));
                lemma_joined_push(loops.take(f as int), loops[f as int]);
                lemma_joined_push(fans.take(f as int), fans[f as int]);
            }
            f = f + 1;
        }
        proof {
            assert(loops.take(nf as int) =~= loops);
            assert(fans.take(nf as int) =~= fans);
        }
        (corners, indices)
    }
}

} // verus!
