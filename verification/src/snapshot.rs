use crate::attributes::FacePayload;
use vstd::prelude::*;

verus! {

/// Copies a vector of plain values element by element.
pub fn copy_vec<T: Copy>(v: &Vec<T>) -> (r: Vec<T>)
    ensures
        r@ == v@,
{
    let mut r: Vec<T> = Vec::new();
    let mut i: usize = 0;
    while i < v.len()
        invariant
            i <= v.len(),
            r@ == v@.subrange(0, i as int),
        decreases v.len() - i,
    {
        r.push(v[i]);
        proof {
            assert(v@.subrange(0, i + 1) =~= v@.subrange(0, i as int).push(v@[i as int]));
        }
        i = i + 1;
    }
    proof {
        assert(v@.subrange(0, v.len() as int) =~= v@);
    }
    r
}

/// The metadata of a freshly authored face: no material, no region.
pub open spec fn empty_face_payload() -> FacePayload {
    FacePayload { material: None, region: None }
}

/// One polygon of a [`MeshSnapshot`]: vertex indices in loop order, optional per-corner
/// loop payloads (empty, or one per corner), and face metadata.
#[derive(Debug, Clone)]
pub struct PolygonFace<L> {
    pub vertices: Vec<usize>,
    pub loops: Vec<L>,
    pub data: FacePayload,
}

impl<L: Copy> PolygonFace<L> {
    /// A polygon with the given corners, no loop payloads and empty metadata.
    pub fn new(vertices: Vec<usize>) -> (f: Self)
        ensures
            f.vertices@ == vertices@,
            f.loops@.len() == 0,
            f.data == empty_face_payload(),
    {
        PolygonFace { vertices, loops: Vec::new(), data: FacePayload { material: None, region: None } }
    }

    /// An exact copy.
    pub fn copy(&self) -> (f: Self)
        ensures
            f.vertices@ == self.vertices@,
            f.loops@ == self.loops@,
            f.data == self.data,
    {
        PolygonFace { vertices: copy_vec(&self.vertices), loops: copy_vec(&self.loops), data: self.data }
    }
}

/// A mesh as plain polygons over an indexed vertex list: the rebuild format of every
/// topology-changing edit.
#[derive(Debug, Clone)]
pub struct MeshSnapshot<V, L> {
    pub vertices: Vec<V>,
    pub faces: Vec<PolygonFace<L>>,
}

/// Some old vertex is renumbered to `n`.
pub open spec fn remap_hits(remap: Seq<Option<usize>>, n: int) -> bool {
    exists|i: int| 0 <= i < remap.len() && remap[i] == Some(n as usize)
}

/// Vertex `i` is a corner of some face.
pub open spec fn vertex_used<L>(faces: Seq<PolygonFace<L>>, i: int) -> bool {
    exists|f: int, k: int|
        0 <= f < faces.len() && 0 <= k < faces[f].vertices@.len() && faces[f].vertices@[k] == i
}

/// Every corner of every face names one of the `nv` vertices.
pub open spec fn corners_in_range<L>(faces: Seq<PolygonFace<L>>, nv: int) -> bool {
    forall|f: int, k: int|
        0 <= f < faces.len() && 0 <= k < faces[f].vertices@.len() ==> (#[trigger] faces[f].vertices@[k]) < nv
}


/// `new_vertices`, `new_faces` are `old_vertices`, `old_faces` with the vertices no face
/// uses dropped and the rest renumbered in their old order; `remap` gives each old
/// vertex its new index.
pub open spec fn compacted_by<V, L>(
    remap: Seq<Option<usize>>,
    old_vertices: Seq<V>,
    old_faces: Seq<PolygonFace<L>>,
    new_vertices: Seq<V>,
    new_faces: Seq<PolygonFace<L>>,
) -> bool {
    &&& remap.len() == old_vertices.len()
    &&& forall|i: int| 0 <= i < remap.len() ==> ((#[trigger] remap[i]) is Some <==> vertex_used(old_faces, i))
    &&& forall|i: int|
        0 <= i < remap.len() && (#[trigger] remap[i]) is Some ==> {
            &&& remap[i]->0 < new_vertices.len()
            &&& new_vertices[remap[i]->0 as int] == old_vertices[i]
        }
    &&& forall|i: int, j: int|
        0 <= i < j < remap.len() && (#[trigger] remap[i]) is Some && (#[trigger] remap[j]) is Some ==> remap[i]->0
            < remap[j]->0
    &&& forall|n: int| 0 <= n < new_vertices.len() ==> #[trigger] remap_hits(remap, n)
    &&& new_faces.len() == old_faces.len()
    &&& forall|f: int|
        0 <= f < new_faces.len() ==> {
            &&& (#[trigger] new_faces[f]).loops@ == old_faces[f].loops@
            &&& new_faces[f].data == old_faces[f].data
            &&& new_faces[f].vertices@.len() == old_faces[f].vertices@.len()
            &&& forall|k: int|
                0 <= k < new_faces[f].vertices@.len() ==> remap[old_faces[f].vertices@[k] as int] == Some(
                    #[trigger] new_faces[f].vertices@[k],
                )
        }
}

impl<V: Copy, L: Copy> MeshSnapshot<V, L> {
    /// Drops the vertices that no face uses.
    pub fn compact(&mut self)
        requires
            corners_in_range(old(self).faces@, old(self).vertices@.len() as int),
        ensures
            exists|remap: Seq<Option<usize>>|
                #[trigger] compacted_by(remap, old(self).vertices@, old(self).faces@, final(self).vertices@, final(self).faces@),
            corners_in_range(final(self).faces@, final(self).vertices@.len() as int),
            forall|i: int| 0 <= i < final(self).vertices@.len() ==> vertex_used(final(self).faces@, i),
    {
        let remap = self.compact_with_map();
        proof {
            assert(compacted_by(remap@, old(self).vertices@, old(self).faces@, self.vertices@, self.faces@));
        }
    }

    /// Drops the vertices that no face uses, renumbers the rest in their old order, and
    /// returns for each old vertex its new index (`None` when it was dropped).
    pub fn compact_with_map(&mut self) -> (remap: Vec<Option<usize>>)
        requires
            corners_in_range(old(self).faces@, old(self).vertices@.len() as int),
        ensures
            remap@.len() == old(self).vertices@.len(),
            forall|i: int|
                0 <= i < remap@.len() ==> ((#[trigger] remap@[i]) is Some <==> vertex_used(
                    old(self).faces@,
                    i,
                )),
            forall|i: int|
                0 <= i < remap@.len() && (#[trigger] remap@[i]) is Some ==> {
                    &&& remap@[i]->0 < final(self).vertices@.len()
                    &&& final(self).vertices@[remap@[i]->0 as int] == old(self).vertices@[i]
                },
            forall|i: int, j: int|
                0 <= i < j < remap@.len() && (#[trigger] remap@[i]) is Some && (#[trigger] remap@[j]) is Some
                    ==> remap@[i]->0 < remap@[j]->0,
            forall|n: int| 0 <= n < final(self).vertices@.len() ==> #[trigger] remap_hits(remap@, n),
            final(self).faces@.len() == old(self).faces@.len(),
            forall|f: int|
                0 <= f < final(self).faces@.len() ==> {
                    &&& (#[trigger] final(self).faces@[f]).loops@ == old(self).faces@[f].loops@
                    &&& final(self).faces@[f].data == old(self).faces@[f].data
                    &&& final(self).faces@[f].vertices@.len() == old(self).faces@[f].vertices@.len()
                    &&& forall|k: int|
                        0 <= k < final(self).faces@[f].vertices@.len() ==> remap@[old(self).faces@[f].vertices@[k] as int]
                            == Some(#[trigger] final(self).faces@[f].vertices@[k])
                },
            corners_in_range(final(self).faces@, final(self).vertices@.len() as int),
            forall|i: int| 0 <= i < final(self).vertices@.len() ==> vertex_used(final(self).faces@, i),
    {
        let nv = self.vertices.len();
        let ghost old_faces = self.faces@;
        let ghost old_vertices = self.vertices@;
        let mut used: Vec<bool> = Vec::new();
        let mut i: usize = 0;
        while i < nv
            invariant
                i <= nv,
                used@.len() == i,
                forall|j: int| 0 <= j < i ==> !(#[trigger] used@[j]),
            decreases nv - i,
        {
            used.push(false);
            i = i + 1;
        }
        let nf = self.faces.len();
        let mut f: usize = 0;
        while f < nf
            invariant
                nf == self.faces@.len(),
                nv == self.vertices@.len(),
                self.faces@ == old_faces,
                self.vertices@ == old_vertices,
                corners_in_range(old_faces, nv as int),
                f <= nf,
                used@.len() == nv,
                forall|j: int|
                    0 <= j < nv ==> ((#[trigger] used@[j]) <==> exists|g: int, k: int|
                        0 <= g < f && 0 <= k < old_faces[g].vertices@.len()
                            && old_faces[g].vertices@[k] == j),
            decreases nf - f,
        {
            let count = self.faces[f].vertices.len();
            let mut k: usize = 0;
            while k < count
                invariant
                    nf == self.faces@.len(),
                    f < nf,
                    self.faces@ == old_faces,
                    count == old_faces[f as int].vertices@.len(),
                    corners_in_range(old_faces, nv as int),
                    k <= count,
                    used@.len() == nv,
                    forall|j: int|
                        0 <= j < nv ==> ((#[trigger] used@[j]) <==> (exists|g: int, k2: int|
                            0 <= g < f && 0 <= k2 < old_faces[g].vertices@.len()
                                && old_faces[g].vertices@[k2] == j) || (exists|k2: int|
                            0 <= k2 < k && old_faces[f as int].vertices@[k2] == j)),
                decreases count - k,
            {
                let vertex = self.faces[f].vertices[k];
                proof {
                    assert(old_faces[f as int].vertices@[k as int] < nv);
                }
                used.set(vertex, true);
                proof {
                    assert forall|j: int| 0 <= j < nv implies ((#[trigger] used@[j]) <==> (exists|g: int, k2: int|
                            0 <= g < f && 0 <= k2 < old_faces[g].vertices@.len()
                                && old_faces[g].vertices@[k2] == j) || (exists|k2: int|
                            0 <= k2 < k + 1 && old_faces[f as int].vertices@[k2] == j)) by {
                        if j == vertex {
                            assert(old_faces[f as int].vertices@[k as int] == j);
                        }
                    }
                }
                k = k + 1;
            }
            proof {
                assert forall|j: int| 0 <= j < nv implies ((#[trigger] used@[j]) <==> exists|g: int, k2: int|
                        0 <= g < f + 1 && 0 <= k2 < old_faces[g].vertices@.len()
                            && old_faces[g].vertices@[k2] == j) by {
                    if used@[j] {
                        if exists|k2: int| 0 <= k2 < count && old_faces[f as int].vertices@[k2] == j {
                            let k2 = choose|k2: int| 0 <= k2 < count && old_faces[f as int].vertices@[k2] == j;
                            assert(0 <= f < f + 1 && 0 <= k2 < old_faces[f as int].vertices@.len()
                                && old_faces[f as int].vertices@[k2] == j);
                        }
                    }
                    if exists|g: int, k2: int| 0 <= g < f + 1 && 0 <= k2 < old_faces[g].vertices@.len()
                            && old_faces[g].vertices@[k2] == j {
                        let (g, k2) = choose|g: int, k2: int| 0 <= g < f + 1 && 0 <= k2 < old_faces[g].vertices@.len()
                            && old_faces[g].vertices@[k2] == j;
                        if g == f {
                            assert(0 <= k2 < count && old_faces[f as int].vertices@[k2] == j);
                        } else {
                            assert(0 <= g < f && 0 <= k2 < old_faces[g].vertices@.len()
                                && old_faces[g].vertices@[k2] == j);
                        }
                    }
                }
            }
            f = f + 1;
        }
        let mut remap: Vec<Option<usize>> = Vec::new();
        let mut new_vertices: Vec<V> = Vec::new();
        let mut i: usize = 0;
        while i < nv
            invariant
                i <= nv,
                nv == old_vertices.len(),
                self.vertices@ == old_vertices,
                used@.len() == nv,
                forall|j: int| 0 <= j < nv ==> ((#[trigger] used@[j]) <==> vertex_used(old_faces, j)),
                remap@.len() == i,
                forall|j: int| 0 <= j < i ==> ((#[trigger] remap@[j]) is Some <==> used@[j]),
                forall|j: int|
                    0 <= j < i && (#[trigger] remap@[j]) is Some ==> {
                        &&& remap@[j]->0 < new_vertices@.len()
                        &&& new_vertices@[remap@[j]->0 as int] == old_vertices[j]
                    },
                forall|a: int, b: int|
                    0 <= a < b < i && (#[trigger] remap@[a]) is Some && (#[trigger] remap@[b]) is Some
                        ==> remap@[a]->0 < remap@[b]->0,
                forall|n: int| 0 <= n < new_vertices@.len() ==> #[trigger] remap_hits(remap@, n),
                new_vertices@.len() <= i,
            decreases nv - i,
        {
            if used[i] {
                let ghost before = remap@;
                remap.push(Some(new_vertices.len()));
                new_vertices.push(self.vertices[i]);
                proof {
                    assert forall|n: int| 0 <= n < new_vertices@.len() implies #[trigger] remap_hits(remap@, n) by {
                        if n == new_vertices@.len() - 1 {
                            assert(remap@[i as int] == Some(n as usize));
                        } else {
                            assert(remap_hits(before, n));
                            let j = choose|j: int| 0 <= j < before.len() && before[j] == Some(n as usize);
                            assert(remap@[j] == before[j]);
                        }
                    }
                }
            } else {
                let ghost before = remap@;
                remap.push(None);
                proof {
                    assert forall|n: int| 0 <= n < new_vertices@.len() implies #[trigger] remap_hits(remap@, n) by {
                        assert(remap_hits(before, n));
                        let j = choose|j: int| 0 <= j < before.len() && before[j] == Some(n as usize);
                        assert(remap@[j] == before[j]);
                    }
                }
            }
            i = i + 1;
        }
        let mut new_faces: Vec<PolygonFace<L>> = Vec::new();
        let mut f: usize = 0;
        while f < nf
            invariant
                nf == old_faces.len(),
                self.faces@ == old_faces,
                corners_in_range(old_faces, nv as int),
                remap@.len() == nv,
                forall|j: int| 0 <= j < nv ==> ((#[trigger] remap@[j]) is Some <==> vertex_used(old_faces, j)),
                forall|j: int|
                    0 <= j < nv && (#[trigger] remap@[j]) is Some ==> remap@[j]->0 < new_vertices@.len(),
                f <= nf,
                new_faces@.len() == f,
                forall|g: int|
                    0 <= g < f ==> {
                        &&& (#[trigger] new_faces@[g]).loops@ == old_faces[g].loops@
                        &&& new_faces@[g].data == old_faces[g].data
                        &&& new_faces@[g].vertices@.len() == old_faces[g].vertices@.len()
                        &&& forall|k: int|
                            0 <= k < new_faces@[g].vertices@.len() ==> remap@[old_faces[g].vertices@[k] as int]
                                == Some(#[trigger] new_faces@[g].vertices@[k])
                    },
            decreases nf - f,
        {
            let count = self.faces[f].vertices.len();
            let mut vs: Vec<usize> = Vec::new();
            let mut k: usize = 0;
            while k < count
                invariant
                    f < nf,
                    nf == old_faces.len(),
                    self.faces@ == old_faces,
                    count == old_faces[f as int].vertices@.len(),
                    corners_in_range(old_faces, nv as int),
                    remap@.len() == nv,
                    forall|j: int| 0 <= j < nv ==> ((#[trigger] remap@[j]) is Some <==> vertex_used(old_faces, j)),
                    k <= count,
                    vs@.len() == k,
                    forall|k2: int|
                        0 <= k2 < k ==> remap@[old_faces[f as int].vertices@[k2] as int] == Some(#[trigger] vs@[k2]),
                decreases count - k,
            {
                let old_vertex = self.faces[f].vertices[k];
                proof {
                    assert(old_faces[f as int].vertices@[k as int] < nv);
                    assert(vertex_used(old_faces, old_vertex as int)) by {
                        assert(0 <= f < old_faces.len() && 0 <= k < old_faces[f as int].vertices@.len()
                            && old_faces[f as int].vertices@[k as int] == old_vertex);
                    }
                }
                let mapped = match remap[old_vertex] {
                    Some(x) => x,
                    None => {
                        proof {
                            assert(false);
                        }
                        0
                    },
                };
                vs.push(mapped);
                k = k + 1;
            }
            new_faces.push(PolygonFace { vertices: vs, loops: copy_vec(&self.faces[f].loops), data: self.faces[f].data });
            f = f + 1;
        }
        self.vertices = new_vertices;
        self.faces = new_faces;
        proof {
            let fs = self.faces@;
            assert forall|g: int, k: int|
                0 <= g < fs.len() && 0 <= k < fs[g].vertices@.len() implies (#[trigger] fs[g].vertices@[k]) < self.vertices@.len() by {
                let j = old_faces[g].vertices@[k];
                assert(remap@[j as int] == Some(fs[g].vertices@[k]));
            }
            assert forall|n: int| 0 <= n < self.vertices@.len() implies vertex_used(fs, n) by {
                assert(remap_hits(remap@, n));
                let j = choose|j: int| 0 <= j < remap@.len() && remap@[j] == Some(n as usize);
                assert(vertex_used(old_faces, j));
                let (g, k) = choose|g: int, k: int|
                    0 <= g < old_faces.len() && 0 <= k < old_faces[g].vertices@.len() && old_faces[g].vertices@[k] == j;
                assert(remap@[old_faces[g].vertices@[k] as int] == Some(fs[g].vertices@[k]));
                assert(fs[g].vertices@[k] == n);
            }
        }
        remap
    }
}

} // verus!
