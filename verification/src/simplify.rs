use crate::error::MeshError;
use crate::ids::{EdgeId, VertexId};
use crate::mesh::HalfEdgeMesh;
use crate::ops::{collapse_outcome, unsupported};
use vstd::prelude::*;

verus! {

/// One level of a level-of-detail chain.
#[derive(Debug)]
pub struct MeshLodLevel<V, L> {
    pub level: u32,
    pub face_count: usize,
    pub edge_count: usize,
    pub vertex_count: usize,
    pub mesh: HalfEdgeMesh<V, L>,
}

/// The counts recorded for a level are those of its mesh.
pub open spec fn level_counts_ok<V, L>(l: MeshLodLevel<V, L>) -> bool {
    &&& l.face_count == l.mesh.interior()
    &&& l.edge_count == l.mesh.ne()
    &&& l.vertex_count == l.mesh.nv()
}

/// Two mesh values alike in connectivity and payloads.
pub open spec fn same_mesh<V, L>(a: HalfEdgeMesh<V, L>, b: HalfEdgeMesh<V, L>) -> bool {
    &&& a.topology() == b.topology()
    &&& a.vertex_data_view() == b.vertex_data_view()
    &&& a.loop_data_view() == b.loop_data_view()
}

/// `pick` may name `p` as the next edge to try on mesh `m`, given the edges `tried`.
pub open spec fn picks<V, L, FP: Fn(&HalfEdgeMesh<V, L>, &Vec<usize>) -> Option<EdgeId>>(
    pick: FP,
    m: HalfEdgeMesh<V, L>,
    tried: Seq<usize>,
    p: Option<EdgeId>,
) -> bool {
    exists|mr: &HalfEdgeMesh<V, L>, vr: &Vec<usize>| *mr == m && vr@ == tried && #[trigger] pick.ensures((mr, vr), p)
}

/// `merged` may give `payload` for the vertex kept when edge `e` of mesh `m` collapses.
pub open spec fn merges<V, L, FM: Fn(&HalfEdgeMesh<V, L>, EdgeId) -> V>(
    merged: FM,
    m: HalfEdgeMesh<V, L>,
    e: EdgeId,
    payload: V,
) -> bool {
    exists|mr: &HalfEdgeMesh<V, L>| *mr == m && #[trigger] merged.ensures((mr, e), payload)
}

/// Collapsing edge `e` with `payload` on a copy of `m` returns `r` and leaves `trial`.
pub open spec fn collapse_try<V: Copy, L: Copy>(
    m: HalfEdgeMesh<V, L>,
    e: EdgeId,
    payload: V,
    r: Result<VertexId, MeshError>,
    trial: HalfEdgeMesh<V, L>,
) -> bool {
    exists|d: HalfEdgeMesh<V, L>| same_mesh(d, m) && #[trigger] collapse_outcome(d, trial, r, e, payload)
}

/// A decimation that is at try `i` (of at most `limit`) on mesh `m`, with the edges
/// `tried` since the last success and `count` collapses made, ends on mesh `end` after
/// `total` collapses: it stops when the mesh has at most `target` faces, when the tries
/// are used up, or when `pick` names no edge; otherwise it collapses the edge `pick`
/// names with the payload `merged` gives, keeps the result when the collapse succeeds
/// and removes faces, and tries again.
pub open spec fn decimate_from<V: Copy, L: Copy, FP: Fn(&HalfEdgeMesh<V, L>, &Vec<usize>) -> Option<EdgeId>, FM: Fn(
    &HalfEdgeMesh<V, L>,
    EdgeId,
) -> V>(
    m: HalfEdgeMesh<V, L>,
    tried: Seq<usize>,
    count: nat,
    i: int,
    target: int,
    limit: int,
    pick: FP,
    merged: FM,
    end: HalfEdgeMesh<V, L>,
    total: nat,
) -> bool
    decreases limit - i,
{
    if i >= limit || m.interior() <= target {
        end == m && total == count
    } else {
        exists|p: Option<EdgeId>|
            #[trigger] picks(pick, m, tried, p) && match p {
                None => end == m && total == count,
                Some(e) => exists|payload: V, r: Result<VertexId, MeshError>, trial: HalfEdgeMesh<V, L>|
                    merges(merged, m, e, payload) && #[trigger] collapse_try(m, e, payload, r, trial) && (if r is Ok
                        && trial.interior() < m.interior() {
                        decimate_from(trial, Seq::empty(), count + 1, i + 1, target, limit, pick, merged, end, total)
                    } else {
                        decimate_from(m, tried.push(e.0 as usize), count, i + 1, target, limit, pick, merged, end, total)
                    }),
            }
    }
}

/// `n`, raised to `floor` when below it.
pub open spec fn no_less(n: usize, floor: usize) -> usize {
    if n < floor {
        floor
    } else {
        n
    }
}

/// A count, or one when it is zero.
pub open spec fn at_least_one(n: usize) -> int {
    if n == 0 {
        1
    } else {
        n as int
    }
}

/// The collapse counter, which stops at the largest `u32`.
pub open spec fn saturated(n: nat) -> u32 {
    if n > u32::MAX {
        u32::MAX
    } else {
        n as u32
    }
}

/// What a decimation towards `target_face_count` faces in at most `max_iterations` tries
/// leaves: a mesh already small enough is left alone with no collapse; otherwise the run
/// of `decimate_from` from the start, whose collapse count is returned, and which is
/// refused exactly when it made no collapse.
pub open spec fn decimated<V: Copy, L: Copy, FP: Fn(&HalfEdgeMesh<V, L>, &Vec<usize>) -> Option<EdgeId>, FM: Fn(
    &HalfEdgeMesh<V, L>,
    EdgeId,
) -> V>(
    before: HalfEdgeMesh<V, L>,
    after: HalfEdgeMesh<V, L>,
    r: Result<u32, MeshError>,
    target_face_count: usize,
    max_iterations: usize,
    pick: FP,
    merged: FM,
) -> bool {
    let target = at_least_one(target_face_count);
    &&& before.interior() <= target ==> r == Ok::<u32, MeshError>(0) && after == before
    &&& r is Err ==> unsupported(r->Err_0, "decimate") && after == before
    &&& r is Ok ==> after.interior() + r->Ok_0 <= before.interior()
    &&& r is Ok && r->Ok_0 == 0 ==> after == before
    &&& r is Ok && r->Ok_0 == 0 ==> before.interior() <= target
    &&& r is Err ==> before.interior() > target
    &&& r is Ok ==> r->Ok_0 <= at_least_one(max_iterations)
    &&& before.canonical() ==> after.canonical()
    &&& r is Ok && r->Ok_0 > 0 ==> after.canonical()
    &&& exists|total: nat|
        #[trigger] decimate_from(
            before,
            Seq::empty(),
            0,
            0,
            target,
            at_least_one(max_iterations),
            pick,
            merged,
            after,
            total,
        ) && (r is Ok ==> r->Ok_0 == saturated(total)) && (r is Err <==> total == 0 && before.interior() > target)
}

/// A level-of-detail chain that is at level `level` on mesh `cur` goes on with the meshes
/// `rest` and ends failed or not: it stops at `level_count` levels or once a mesh has at
/// most `floor` faces; otherwise `cur` is decimated towards the larger of `target_for`'s
/// answer for its face count and `floor`, and the result is the next level when the
/// decimation succeeds and leaves fewer faces but no fewer than `floor`; otherwise the
/// chain ends there, failed when the decimation was refused.
pub open spec fn lod_from<
    V: Copy,
    L: Copy,
    FT: Fn(usize) -> usize,
    FP: Fn(&HalfEdgeMesh<V, L>, &Vec<usize>) -> Option<EdgeId>,
    FM: Fn(&HalfEdgeMesh<V, L>, EdgeId) -> V,
>(
    cur: HalfEdgeMesh<V, L>,
    level: int,
    level_count: int,
    floor: usize,
    max_iterations: usize,
    target_for: FT,
    pick: FP,
    merged: FM,
    rest: Seq<HalfEdgeMesh<V, L>>,
    failed: bool,
) -> bool
    decreases level_count - level,
{
    if level >= level_count || cur.interior() <= floor {
        rest.len() == 0 && !failed
    } else {
        exists|proposed: usize, r: Result<u32, MeshError>, next: HalfEdgeMesh<V, L>|
            target_for.ensures((cur.interior() as usize,), proposed) && #[trigger] decimated(
                cur,
                next,
                r,
                no_less(proposed, floor),
                max_iterations,
                &pick,
                &merged,
            ) && (if r is Ok && next.interior() < cur.interior() && next.interior() >= floor {
                rest.len() >= 1 && rest[0] == next && lod_from(
                    next,
                    level + 1,
                    level_count,
                    floor,
                    max_iterations,
                    target_for,
                    pick,
                    merged,
                    rest.drop_first(),
                    failed,
                )
            } else {
                rest.len() == 0 && failed == (r is Err)
            })
    }
}

impl<V: Copy, L: Copy + Default> HalfEdgeMesh<V, L> {
    /// Collapses edges until at most `target_face_count` (at least one) faces remain, at
    /// most `max_iterations` (at least one) times: `pick` names the next edge to try
    /// given the edges already tried since the last success, `merged` gives the payload
    /// of the vertex a collapse keeps. A collapse counts only when it removes faces; a
    /// mesh already small enough is left alone. Returns how many collapses were made;
    /// none at all on a mesh that is still too large is refused.
    pub fn decimate_by<FP: Fn(&Self, &Vec<usize>) -> Option<EdgeId>, FM: Fn(&Self, EdgeId) -> V>(
        &mut self,
        target_face_count: usize,
        max_iterations: usize,
        pick: FP,
        merged: FM,
    ) -> (r: Result<u32, MeshError>)
        requires
            forall|m: &Self, tried: &Vec<usize>| pick.requires((m, tried)),
            forall|m: &Self, e: EdgeId| merged.requires((m, e)),
        ensures
            decimated(*old(self), *final(self), r, target_face_count, max_iterations, pick, merged),
    {
        let target = if target_face_count == 0 { 1 } else { target_face_count };
        let limit = if max_iterations == 0 { 1 } else { max_iterations };
        if self.face_count() <= target {
            proof {
                assert(decimate_from(*old(self), Seq::empty(), 0, 0, target as int, limit as int, pick, merged, *self, 0));
                assert(at_least_one(target_face_count) == target as int && at_least_one(max_iterations) == limit as int);
                assert(saturated(0) == 0);
            }
            return Ok(0);
        }
        let mut collapses: u32 = 0;
        let ghost mut count: nat = 0;
        let mut attempted: Vec<usize> = Vec::new();
        let mut i: usize = 0;
        while i < limit
            invariant
                forall|m: &Self, tried: &Vec<usize>| pick.requires((m, tried)),
                forall|m: &Self, e: EdgeId| merged.requires((m, e)),
                i <= limit,
                self.interior() + collapses <= old(self).interior(),
                collapses == 0 ==> *self == *old(self),
                collapses > 0 ==> self.canonical(),
                collapses <= i,
                collapses == saturated(count),
                count == 0 <==> collapses == 0,
                count <= i,
                count == 0 ==> attempted@.len() == i,
                forall|e2: Self, t2: nat|
                    #[trigger] decimate_from(*self, attempted@, count, i as int, target as int, limit as int, pick, merged, e2, t2)
                        ==> decimate_from(*old(self), Seq::empty(), 0, 0, target as int, limit as int, pick, merged, e2, t2),
            ensures
                decimate_from(*self, attempted@, count, i as int, target as int, limit as int, pick, merged, *self, count),
            decreases limit - i,
        {
            if self.face_count() <= target {
                proof {
                    assert(decimate_from(*self, attempted@, count, i as int, target as int, limit as int, pick, merged, *self, count));
                }
                break;
            }
            let ghost before = *self;
            let ghost tried = attempted@;
            let picked = pick(self, &attempted);
            proof {
                assert(picks(pick, before, tried, picked));
            }
            let candidate = match picked {
                Some(edge) => edge,
                None => {
                    proof {
                        assert(decimate_from(*self, attempted@, count, i as int, target as int, limit as int, pick, merged, *self, count));
                    }
                    break;
                },
            };
            let previous_faces = self.face_count();
            let payload = merged(self, candidate);
            proof {
                assert(merges(merged, before, candidate, payload));
            }
            let mut simplified = self.duplicate();
            let ghost copy = simplified;
            let collapsed = simplified.collapse_edge(candidate, payload);
            proof {
                assert(same_mesh(copy, before));
                assert(collapse_try(before, candidate, payload, collapsed, simplified));
            }
            let accepted = match collapsed {
                Ok(_) => simplified.face_count() < previous_faces && simplified.validate().is_ok(),
                Err(_) => false,
            };
            proof {
                if accepted {
                    assert(collapsed is Ok);
                }
                assert(accepted == (collapsed is Ok && simplified.interior() < before.interior()));
            }
            let ghost trial = simplified;
            if accepted {
                *self = simplified;
                if collapses < u32::MAX {
                    collapses = collapses + 1;
                }
                proof {
                    count = count + 1;
                }
                attempted = Vec::new();
            } else {
                attempted.push(candidate.index());
            }
            i = i + 1;
            proof {
                assert forall|e2: Self, t2: nat|
                    #[trigger] decimate_from(*self, attempted@, count, i as int, target as int, limit as int, pick, merged, e2, t2)
                        implies decimate_from(*old(self), Seq::empty(), 0, 0, target as int, limit as int, pick, merged, e2, t2) by {
                    if accepted {
                        assert(attempted@ =~= Seq::<usize>::empty());
                    } else {
                        assert(attempted@ =~= tried.push(candidate.0 as usize));
                    }
                    assert(decimate_from(before, tried, (if accepted { (count - 1) as nat } else { count }), (i - 1) as int, target as int, limit as int, pick, merged, e2, t2));
                }
            }
        }
        proof {
            assert(decimate_from(*old(self), Seq::empty(), 0, 0, target as int, limit as int, pick, merged, *self, count));
            assert(at_least_one(target_face_count) == target as int && at_least_one(max_iterations) == limit as int);
        }
        if collapses == 0 && self.face_count() > target {
            return Err(
                MeshError::UnsupportedOperation {
                    operation: "decimate",
                    detail: "no valid edge collapses were available for the requested target".to_string(),
                },
            );
        }
        Ok(collapses)
    }

    /// A chain of ever coarser meshes: level 0 is a copy of the mesh; each further level
    /// (up to `level_count`) decimates the previous one towards `target_for` of its face
    /// count (never below `minimum_face_count`, at least one) and is kept only when it
    /// has fewer faces and still at least `minimum_face_count` (at least one), the lower
    /// bound of every level; otherwise the chain ends. A failure at the first step is
    /// reported; later ones end the chain.
    #[verifier::spinoff_prover]
    #[verifier::rlimit(80)]
    pub fn build_lod_chain_by<
        FT: Fn(usize) -> usize,
        FP: Fn(&Self, &Vec<usize>) -> Option<EdgeId>,
        FM: Fn(&Self, EdgeId) -> V,
    >(
        &self,
        level_count: u32,
        minimum_face_count: usize,
        max_iterations_per_level: usize,
        target_for: FT,
        pick: FP,
        merged: FM,
    ) -> (r: Result<Vec<MeshLodLevel<V, L>>, MeshError>)
        requires
            forall|n: usize| target_for.requires((n,)),
            forall|m: &Self, tried: &Vec<usize>| pick.requires((m, tried)),
            forall|m: &Self, e: EdgeId| merged.requires((m, e)),
        ensures
            r is Err ==> unsupported(r->Err_0, "decimate"),
            r is Err ==> level_count >= 2 && self.interior() > (if minimum_face_count == 0 { 1 } else { minimum_face_count }),
            level_count <= 1 || self.interior() <= (if minimum_face_count == 0 { 1 } else { minimum_face_count }) ==> r is Ok
                && r->Ok_0@.len() == 1,
            r is Ok ==> {
                let levels = r->Ok_0@;
                &&& levels.len() >= 1
                &&& levels.len() <= (if level_count == 0 { 1 } else { level_count as int })
                &&& levels[0].level == 0
                &&& levels[0].mesh.topology() == self.topology()
                &&& levels[0].mesh.vertex_data_view() == self.vertex_data_view()
                &&& levels[0].mesh.loop_data_view() == self.loop_data_view()
                &&& forall|i: int| 0 <= i < levels.len() ==> #[trigger] level_counts_ok(levels[i])
                &&& forall|i: int| 0 < i < levels.len() ==> (#[trigger] levels[i]).face_count < levels[i - 1].face_count
                &&& forall|i: int| 0 < i < levels.len() ==> levels[i - 1].level < (#[trigger] levels[i]).level
                &&& forall|i: int| 0 <= i < levels.len() ==> (#[trigger] levels[i]).level == i
                &&& forall|i: int| 0 < i < levels.len() ==> (#[trigger] levels[i]).mesh.canonical()
                &&& self.canonical() ==> levels[0].mesh.canonical()
                &&& forall|i: int| 0 < i < levels.len() ==> (#[trigger] levels[i]).face_count >= no_less(minimum_face_count, 1)
            },
            exists|start: Self, rest: Seq<Self>, failed: bool|
                same_mesh(start, *self) && #[trigger] lod_from(
                    start,
                    1,
                    level_count as int,
                    no_less(minimum_face_count, 1),
                    max_iterations_per_level,
                    target_for,
                    pick,
                    merged,
                    rest,
                    failed,
                ) && (r is Err <==> failed && rest.len() == 0) && (r is Ok ==> r->Ok_0@.len() == rest.len() + 1 && forall|i: int|
                    0 < i < r->Ok_0@.len() ==> same_mesh((#[trigger] r->Ok_0@[i]).mesh, rest[i - 1])),
    {
        let mut levels: Vec<MeshLodLevel<V, L>> = Vec::new();
        let first = self.duplicate();
        proof {
            use_type_invariant(self);
            use_type_invariant(&first);
        }
        levels.push(
            MeshLodLevel {
                level: 0,
                face_count: self.face_count(),
                edge_count: self.edge_count(),
                vertex_count: self.vertex_count(),
                mesh: first,
            },
        );
        let floor = if minimum_face_count == 0 { 1 } else { minimum_face_count };
        let mut current = self.duplicate();
        let ghost start = current;
        let ghost mut kept: Seq<Self> = Seq::empty();
        let ghost mut failed: bool = false;
        let mut level: u32 = 1;
        proof {
            assert(floor == no_less(minimum_face_count, 1));
        }
        while level < level_count
            invariant_except_break
                !failed,
                levels@.last().face_count == current.interior(),
                level == 1 ==> current.interior() == self.interior(),
            invariant
                same_mesh(start, *self),
                floor == no_less(minimum_face_count, 1),
                levels@.len() == kept.len() + 1,
                forall|i: int| 0 < i < levels@.len() ==> same_mesh((#[trigger] levels@[i]).mesh, kept[i - 1]),
                forall|i: int| 0 < i < levels@.len() ==> (#[trigger] levels@[i]).face_count >= floor,
                forall|rest2: Seq<Self>, f2: bool|
                    #[trigger] lod_from(current, level as int, level_count as int, floor, max_iterations_per_level, target_for, pick, merged, rest2, f2)
                        ==> lod_from(start, 1, level_count as int, floor, max_iterations_per_level, target_for, pick, merged, kept + rest2, f2),
                failed ==> kept.len() > 0,
                forall|n: usize| target_for.requires((n,)),
                forall|m: &Self, tried: &Vec<usize>| pick.requires((m, tried)),
                forall|m: &Self, e: EdgeId| merged.requires((m, e)),
                1 <= level,
                level_count == 0 || level <= level_count,
                levels@.len() >= 1,
                levels@.len() <= (if level_count == 0 { 1 } else { level_count as int }),
                levels@.len() == level,
                (level_count <= 1 || self.interior() <= floor) ==> levels@.len() == 1,
                floor == (if minimum_face_count == 0 { 1 } else { minimum_face_count }),
                levels@[0].level == 0,
                levels@[0].mesh.topology() == self.topology(),
                levels@[0].mesh.vertex_data_view() == self.vertex_data_view(),
                levels@[0].mesh.loop_data_view() == self.loop_data_view(),
                forall|i: int| 0 <= i < levels@.len() ==> #[trigger] level_counts_ok(levels@[i]),
                forall|i: int| 0 < i < levels@.len() ==> (#[trigger] levels@[i]).face_count < levels@[i - 1].face_count,
                forall|i: int| 0 < i < levels@.len() ==> levels@[i - 1].level < (#[trigger] levels@[i]).level,
                forall|i: int| 0 <= i < levels@.len() ==> (#[trigger] levels@[i]).level < level,
                forall|i: int| 0 <= i < levels@.len() ==> (#[trigger] levels@[i]).level == i,
                forall|i: int| 0 < i < levels@.len() ==> (#[trigger] levels@[i]).mesh.canonical(),
                self.canonical() ==> levels@[0].mesh.canonical(),
            ensures
                lod_from(current, level as int, level_count as int, floor, max_iterations_per_level, target_for, pick, merged, Seq::empty(), failed),
            decreases level_count - level,
        {
            if current.face_count() <= floor {
                break;
            }
            let ghost cur = current;
            let proposed = target_for(current.face_count());
            let target = if proposed < floor { floor } else { proposed };
            proof {
                assert(target == no_less(proposed, floor));
            }
            let before_face_count = current.face_count();
            let res = current.decimate_by(target, max_iterations_per_level, &pick, &merged);
            let ghost next = current;
            match res {
                Ok(_) => {
                    if current.face_count() < before_face_count && current.face_count() >= floor {
                        let copy = current.duplicate();
                        proof {
                            use_type_invariant(&current);
                            use_type_invariant(&copy);
                        }
                        let ghost before = levels@;
                        levels.push(
                            MeshLodLevel {
                                level,
                                face_count: current.face_count(),
                                edge_count: current.edge_count(),
                                vertex_count: current.vertex_count(),
                                mesh: copy,
                            },
                        );
                        proof {
                            assert forall|i: int| 0 <= i < levels@.len() implies #[trigger] level_counts_ok(levels@[i]) by {
                                if i < before.len() {
                                    assert(levels@[i] == before[i]);
                                }
                            }
                            assert forall|i: int| 0 < i < levels@.len() implies (#[trigger] levels@[i]).mesh.canonical() by {
                                if i < before.len() {
                                    assert(levels@[i] == before[i]);
                                }
                            }
                            let kept_before = kept;
                            kept = kept.push(next);
                            assert forall|i: int| 0 < i < levels@.len() implies same_mesh((#[trigger] levels@[i]).mesh, kept[i - 1]) by {
                                if i < before.len() {
                                    assert(levels@[i] == before[i]);
                                }
                            }
                            assert forall|i: int| 0 < i < levels@.len() implies (#[trigger] levels@[i]).face_count >= floor by {
                                if i < before.len() {
                                    assert(levels@[i] == before[i]);
                                }
                            }
                            assert forall|rest2: Seq<Self>, f2: bool|
                                #[trigger] lod_from(next, level as int + 1, level_count as int, floor, max_iterations_per_level, target_for, pick, merged, rest2, f2)
                                    implies lod_from(start, 1, level_count as int, floor, max_iterations_per_level, target_for, pick, merged, kept + rest2, f2) by {
                                let whole = seq![next] + rest2;
                                assert(whole.drop_first() =~= rest2);
                                assert(lod_from(cur, level as int, level_count as int, floor, max_iterations_per_level, target_for, pick, merged, whole, f2));
                                assert(kept_before + whole =~= kept + rest2);
                            }
                        }
                    } else {
                        proof {
                            assert(lod_from(cur, level as int, level_count as int, floor, max_iterations_per_level, target_for, pick, merged, Seq::empty(), false));
                        }
                        break;
                    }
                },
                Err(error) => {
                    proof {
                        assert(lod_from(cur, level as int, level_count as int, floor, max_iterations_per_level, target_for, pick, merged, Seq::empty(), true));
                        assert(kept + Seq::<Self>::empty() =~= kept);
                    }
                    if levels.len() > 1 {
                        proof {
                            failed = true;
                        }
                        break;
                    }
                    return Err(error);
                },
            }
            level = level + 1;
        }
        proof {
            assert(kept + Seq::<Self>::empty() =~= kept);
            assert(lod_from(start, 1, level_count as int, floor, max_iterations_per_level, target_for, pick, merged, kept, failed));
        }
        proof {
            assert(levels@.len() >= 1);
            assert(levels@.len() <= (if level_count == 0 { 1 } else { level_count as int }));
            assert(levels@[0].level == 0);
            assert(levels@[0].mesh.topology() == self.topology());
        }
        Ok(levels)
    }
}

} // verus!
