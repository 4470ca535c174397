use crate::attributes::FacePayload;
use crate::error::MeshError;
use crate::mesh::{HalfEdgeMesh, Polygon};
use crate::ops::{authored, joined, lemma_joined_push};
use crate::rebuild::{face_view, input_problem, mesh_matches, problem_error, snapshot_fits, views};
use crate::snapshot::{MeshSnapshot, PolygonFace};
use crate::subdivision::{first_at, first_keys, lemma_slot_of, slot_of};
use crate::build_spec::{builds_manifold, built_topology};
use vstd::prelude::*;

verus! {

/// A corner of the voxel lattice.
pub type Lattice = (usize, usize, usize);

/// How two solids are combined.
#[derive(Debug, Clone, Copy, PartialEq, Eq, Structural)]
pub enum MeshBooleanOperation {
    Union,
    Intersection,
    Difference,
}

/// Whether a sample inside `a` (or not) and inside `b` (or not) lies in the result.
pub open spec fn combined(op: MeshBooleanOperation, a: bool, b: bool) -> bool {
    match op {
        MeshBooleanOperation::Union => a || b,
        MeshBooleanOperation::Intersection => a && b,
        MeshBooleanOperation::Difference => a && !b,
    }
}

/// Whether a sample belongs to the combined solid.
pub fn combine_inside(op: MeshBooleanOperation, inside_a: bool, inside_b: bool) -> (b: bool)
    ensures
        b == combined(op, inside_a, inside_b),
        op == MeshBooleanOperation::Union ==> b == (inside_a || inside_b),
        op == MeshBooleanOperation::Intersection ==> b == (inside_a && inside_b),
        op == MeshBooleanOperation::Difference ==> b == (inside_a && !inside_b),
{
    match op {
        MeshBooleanOperation::Union => inside_a || inside_b,
        MeshBooleanOperation::Intersection => inside_a && inside_b,
        MeshBooleanOperation::Difference => inside_a && !inside_b,
    }
}

/// The answer of a boolean with an empty operand.
#[derive(Debug, Clone, Copy, PartialEq, Eq, Structural)]
pub enum EmptyOperandResult {
    /// The first operand, unchanged.
    First,
    /// The second operand, unchanged.
    Second,
    /// An empty mesh.
    Nothing,
}

/// What a boolean answers when an operand is empty: nothing to decide when neither is;
/// a union keeps the non-empty side, an intersection is empty, a difference keeps the
/// first operand.
pub fn empty_operand_result(op: MeshBooleanOperation, first_empty: bool, second_empty: bool) -> (r: Option<EmptyOperandResult>)
    ensures
        !first_empty && !second_empty ==> r is None,
        (first_empty || second_empty) && op == MeshBooleanOperation::Union ==> r == Some(
            if first_empty { EmptyOperandResult::Second } else { EmptyOperandResult::First },
        ),
        (first_empty || second_empty) && op == MeshBooleanOperation::Intersection ==> r == Some(EmptyOperandResult::Nothing),
        (first_empty || second_empty) && op == MeshBooleanOperation::Difference ==> r == Some(EmptyOperandResult::First),
{
    if !first_empty && !second_empty {
        return None;
    }
    Some(
        match op {
            MeshBooleanOperation::Union => if first_empty {
                EmptyOperandResult::Second
            } else {
                EmptyOperandResult::First
            },
            MeshBooleanOperation::Intersection => EmptyOperandResult::Nothing,
            MeshBooleanOperation::Difference => EmptyOperandResult::First,
        },
    )
}

/// The position of cell `(x, y, z)` in an `nx` by `ny` by `nz` occupancy grid.
pub open spec fn cell(nx: int, ny: int, x: int, y: int, z: int) -> int {
    x + nx * (y + ny * z)
}

/// The grid dimensions and occupancy list agree.
pub open spec fn grid_ok(nx: int, ny: int, nz: int, occ: Seq<bool>) -> bool {
    nx >= 0 && ny >= 0 && nz >= 0 && occ.len() == nx * ny * nz
}

/// Cell `(x, y, z)` is filled.
pub open spec fn filled(nx: int, ny: int, occ: Seq<bool>, x: int, y: int, z: int) -> bool {
    occ[cell(nx, ny, x, y, z)]
}

/// Side `k` of cell `(x, y, z)` (in the order -x, +x, -y, +y, -z, +z) is on the surface:
/// the cell next to it is outside the grid or empty.
pub open spec fn side_exposed(nx: int, ny: int, nz: int, occ: Seq<bool>, k: int, x: int, y: int, z: int) -> bool {
    if k == 0 {
        x == 0 || !filled(nx, ny, occ, x - 1, y, z)
    } else if k == 1 {
        x + 1 >= nx || !filled(nx, ny, occ, x + 1, y, z)
    } else if k == 2 {
        y == 0 || !filled(nx, ny, occ, x, y - 1, z)
    } else if k == 3 {
        y + 1 >= ny || !filled(nx, ny, occ, x, y + 1, z)
    } else if k == 4 {
        z == 0 || !filled(nx, ny, occ, x, y, z - 1)
    } else {
        z + 1 >= nz || !filled(nx, ny, occ, x, y, z + 1)
    }
}

/// The lattice corners of side `k` of cell `(x, y, z)`, wound so that the side faces
/// out of the cell. (Listed from the cell's minimum corner, each side's corners turn
/// towards the inside; the list is taken in reverse.)
pub open spec fn side_corners(k: int, x: usize, y: usize, z: usize) -> Seq<Lattice> {
    let x1 = (x + 1) as usize;
    let y1 = (y + 1) as usize;
    let z1 = (z + 1) as usize;
    let inward: Seq<Lattice> = if k == 0 {
        seq![(x, y, z), (x, y1, z), (x, y1, z1), (x, y, z1)]
    } else if k == 1 {
        seq![(x1, y, z), (x1, y, z1), (x1, y1, z1), (x1, y1, z)]
    } else if k == 2 {
        seq![(x, y, z), (x, y, z1), (x1, y, z1), (x1, y, z)]
    } else if k == 3 {
        seq![(x, y1, z), (x1, y1, z), (x1, y1, z1), (x, y1, z1)]
    } else if k == 4 {
        seq![(x, y, z), (x1, y, z), (x1, y1, z), (x, y1, z)]
    } else {
        seq![(x, y, z1), (x, y1, z1), (x1, y1, z1), (x1, y, z1)]
    };
    inward.reverse()
}

/// The surface quads of cell `(x, y, z)`: none when it is empty, else one per exposed
/// side in side order.
pub open spec fn cell_quads(nx: int, ny: int, nz: int, occ: Seq<bool>, x: int, y: int, z: int) -> Seq<Seq<Lattice>> {
    if !filled(nx, ny, occ, x, y, z) {
        Seq::empty()
    } else {
        joined(
            Seq::new(
                6,
                |k: int|
                    if side_exposed(nx, ny, nz, occ, k, x, y, z) {
                        seq![side_corners(k, x as usize, y as usize, z as usize)]
                    } else {
                        Seq::empty()
                    },
            ),
        )
    }
}

/// The surface quads of row `y` of layer `z`, cell by cell.
pub open spec fn row_quads(nx: int, ny: int, nz: int, occ: Seq<bool>, y: int, z: int) -> Seq<Seq<Lattice>> {
    joined(Seq::new(nx as nat, |x: int| cell_quads(nx, ny, nz, occ, x, y, z)))
}

/// The surface quads of layer `z`, row by row.
pub open spec fn layer_quads(nx: int, ny: int, nz: int, occ: Seq<bool>, z: int) -> Seq<Seq<Lattice>> {
    joined(Seq::new(ny as nat, |y: int| row_quads(nx, ny, nz, occ, y, z)))
}

/// The surface quads of the whole grid, layer by layer.
pub open spec fn voxel_quads(nx: int, ny: int, nz: int, occ: Seq<bool>) -> Seq<Seq<Lattice>> {
    joined(Seq::new(nz as nat, |z: int| layer_quads(nx, ny, nz, occ, z)))
}

/// The lattice corners of the surface, each once, in order of first use.
pub open spec fn lattice_points(qs: Seq<Seq<Lattice>>) -> Seq<Lattice> {
    first_keys(joined(qs))
}

/// A surface quad as a polygon over the numbered lattice points.
pub open spec fn lattice_face<L>(points: Seq<Lattice>, q: Seq<Lattice>) -> Polygon<L> {
    authored(q.map_values(|p: Lattice| slot_of(points, p) as usize))
}

/// The surface quads as polygons over the lattice points in first-use order.
pub open spec fn surface_faces<L>(qs: Seq<Seq<Lattice>>) -> Seq<Polygon<L>> {
    qs.map_values(|q: Seq<Lattice>| lattice_face::<L>(lattice_points(qs), q))
}

/// What building a mesh from a vertex list and polygons over it answers.
pub open spec fn built_from<V, L>(r: Result<HalfEdgeMesh<V, L>, MeshError>, vertices: Seq<V>, faces: Seq<Polygon<L>>) -> bool {
    let nv = vertices.len() as int;
    &&& !snapshot_fits(nv, faces) ==> r is Err && r->Err_0 is Validation
    &&& snapshot_fits(nv, faces) && input_problem(nv, faces) is Some ==> r is Err && problem_error(
        input_problem(nv, faces)->0,
        r->Err_0,
    )
    &&& snapshot_fits(nv, faces) && input_problem(nv, faces) is None ==> (r is Err ==> r->Err_0 is Validation)
        && (r is Ok ==> mesh_matches(r->Ok_0, vertices, faces))
    &&& snapshot_fits(nv, faces) && input_problem(nv, faces) is None ==> (r is Ok <==> builds_manifold(nv, faces))
    &&& r is Ok ==> r->Ok_0.topology() == built_topology(nv, faces)->0 && r->Ok_0.canonical()
}

/// The surface built so far: lattice points in first-use order with their payloads, and
/// one authored quad per surface quad over those points.
pub open spec fn surface_so_far<L, V, FP: Fn(usize, usize, usize) -> V>(
    welded: Seq<Lattice>,
    payloads: Seq<V>,
    faces: Seq<PolygonFace<L>>,
    quads: Seq<Seq<Lattice>>,
    point: FP,
) -> bool {
    &&& welded == lattice_points(quads)
    &&& payloads.len() == welded.len()
    &&& forall|v: int| 0 <= v < welded.len() ==> point.ensures((welded[v].0, welded[v].1, welded[v].2), #[trigger] payloads[v])
    &&& faces.len() == quads.len()
    &&& forall|i: int|
        0 <= i < faces.len() ==> {
            &&& (#[trigger] faces[i]).loops@.len() == 0
            &&& faces[i].data == crate::snapshot::empty_face_payload()
            &&& faces[i].vertices@.len() == quads[i].len()
            &&& forall|c: int| 0 <= c < quads[i].len() ==> first_at(welded, quads[i][c], #[trigger] faces[i].vertices@[c] as int)
        }
}

proof fn lemma_cell_bound(nx: int, ny: int, nz: int, x: int, y: int, z: int)
    requires
        0 <= x < nx,
        0 <= y < ny,
        0 <= z < nz,
    ensures
        0 <= ny * z,
        ny * z + y < ny * nz,
        0 <= nx * (y + ny * z),
        cell(nx, ny, x, y, z) < nx * ny * nz,
        ny * nz <= nx * ny * nz,
{
    assert(0 <= ny * z) by (nonlinear_arith)
        requires
            0 <= ny,
            0 <= z,
    ;
    assert(ny * z + y < ny * nz) by (nonlinear_arith)
        requires
            0 <= y < ny,
            0 <= z < nz,
    ;
    assert(nx * (y + ny * z) <= nx * (ny * nz - 1)) by (nonlinear_arith)
        requires
            0 <= nx,
            0 <= y + ny * z <= ny * nz - 1,
    ;
    assert(nx * (ny * nz - 1) == nx * ny * nz - nx) by (nonlinear_arith);
    assert(0 <= nx * (y + ny * z)) by (nonlinear_arith)
        requires
            0 <= nx,
            0 <= y + ny * z,
    ;
    assert(ny * nz <= nx * ny * nz) by (nonlinear_arith)
        requires
            1 <= nx,
            0 <= ny * nz,
    ;
}

/// Whether cell `(x, y, z)` is filled.
fn filled_at(nx: usize, ny: usize, nz: usize, occupied: &Vec<bool>, x: usize, y: usize, z: usize) -> (b: bool)
    requires
        grid_ok(nx as int, ny as int, nz as int, occupied@),
        x < nx,
        y < ny,
        z < nz,
    ensures
        b == filled(nx as int, ny as int, occupied@, x as int, y as int, z as int),
{
    proof {
        lemma_cell_bound(nx as int, ny as int, nz as int, x as int, y as int, z as int);
    }
    let total = occupied.len();
    proof {
        assert(total == nx * ny * nz);
    }
    let plane = ny * z + y;
    let index = nx * plane + x;
    occupied[index]
}

/// Numbers a lattice point: its old number, or a new one with payload `point(p)`.
fn weld_point<V, FP: Fn(usize, usize, usize) -> V>(welded: &mut Vec<Lattice>, payloads: &mut Vec<V>, p: Lattice, point: &FP) -> (slot: usize)
    requires
        forall|a: usize, b: usize, c: usize| point.requires((a, b, c)),
        old(payloads)@.len() == old(welded)@.len(),
    ensures
        final(welded)@ == (if old(welded)@.contains(p) { old(welded)@ } else { old(welded)@.push(p) }),
        final(payloads)@.len() == final(welded)@.len(),
        final(payloads)@.take(old(payloads)@.len() as int) == old(payloads)@,
        !old(welded)@.contains(p) ==> point.ensures((p.0, p.1, p.2), final(payloads)@.last()),
        first_at(final(welded)@, p, slot as int),
{
    let mut v: usize = 0;
    while v < welded.len()
        invariant
            v <= welded@.len(),
            payloads@.len() == welded@.len(),
            welded@ == old(welded)@,
            payloads@ == old(payloads)@,
            forall|j: int| 0 <= j < v ==> welded@[j] != p,
        decreases welded@.len() - v,
    {
        let w = welded[v];
        if w.0 == p.0 && w.1 == p.1 && w.2 == p.2 {
            proof {
                assert(welded@.contains(p));
                assert(payloads@.take(payloads@.len() as int) =~= payloads@);
            }
            return v;
        }
        v = v + 1;
    }
    let payload = point(p.0, p.1, p.2);
    let slot = welded.len();
    let ghost before = payloads@;
    welded.push(p);
    payloads.push(payload);
    proof {
        assert(payloads@.take(before.len() as int) =~= before);
    }
    slot
}

/// Adds a surface quad: numbers its corners and appends an authored polygon over them.
fn emit_quad<L, V, FP: Fn(usize, usize, usize) -> V>(
    welded: &mut Vec<Lattice>,
    payloads: &mut Vec<V>,
    faces: &mut Vec<PolygonFace<L>>,
    quad: Vec<Lattice>,
    point: &FP,
    Ghost(quads): Ghost<Seq<Seq<Lattice>>>,
)
    requires
        forall|a: usize, b: usize, c: usize| point.requires((a, b, c)),
        surface_so_far(old(welded)@, old(payloads)@, old(faces)@, quads, *point),
    ensures
        surface_so_far(final(welded)@, final(payloads)@, final(faces)@, quads.push(quad@), *point),
{
    let ghost w0 = welded@;
    let mut corners: Vec<usize> = Vec::new();
    let mut c: usize = 0;
    while c < quad.len()
        invariant
            forall|a: usize, b: usize, c: usize| point.requires((a, b, c)),
            c <= quad@.len(),
            welded@ == first_keys(joined(quads) + quad@.take(c as int)),
            payloads@.len() == welded@.len(),
            forall|v: int| 0 <= v < welded@.len() ==> point.ensures((welded@[v].0, welded@[v].1, welded@[v].2), #[trigger] payloads@[v]),
            w0 == lattice_points(quads),
            welded@.take(w0.len() as int) == w0,
            w0.len() <= welded@.len(),
            corners@.len() == c,
            forall|j: int| 0 <= j < c ==> first_at(welded@, quad@[j], #[trigger] corners@[j] as int),
        decreases quad@.len() - c,
    {
        let ghost wb = welded@;
        let ghost pb = payloads@;
        let slot = weld_point(welded, payloads, quad[c], point);
        proof {
            let s = joined(quads) + quad@.take(c as int);
            assert((joined(quads) + quad@.take(c + 1)) =~= s.push(quad@[c as int]));
            assert(s.push(quad@[c as int]).drop_last() =~= s);
            assert forall|v: int| 0 <= v < welded@.len() implies point.ensures((welded@[v].0, welded@[v].1, welded@[v].2), #[trigger] payloads@[v]) by {
                if v < wb.len() {
                    assert(payloads@[v] == payloads@.take(pb.len() as int)[v]);
                    assert(welded@[v] == wb[v]);
                }
            }
            assert forall|j: int| 0 <= j < c implies first_at(welded@, quad@[j], #[trigger] corners@[j] as int) by {
                assert(first_at(wb, quad@[j], corners@[j] as int));
                if !wb.contains(quad@[c as int]) {
                    assert(welded@[corners@[j] as int] == wb[corners@[j] as int]);
                }
            }
            assert(welded@.take(w0.len() as int) =~= w0) by {
                if !wb.contains(quad@[c as int]) {
                    assert(welded@.take(w0.len() as int) =~= wb.take(w0.len() as int));
                }
            }
        }
        corners.push(slot);
        c = c + 1;
    }
    let ghost fs0 = faces@;
    let face = PolygonFace { vertices: corners, loops: Vec::new(), data: FacePayload { material: None, region: None } };
    faces.push(face);
    proof {
        let q2 = quads.push(quad@);
        assert(quad@.take(quad@.len() as int) =~= quad@);
        crate::ops::lemma_joined_push(quads, quad@);
        assert(welded@ == lattice_points(q2));
        assert forall|i: int| 0 <= i < faces@.len() implies {
            &&& (#[trigger] faces@[i]).loops@.len() == 0
            &&& faces@[i].data == crate::snapshot::empty_face_payload()
            &&& faces@[i].vertices@.len() == q2[i].len()
            &&& forall|k: int| 0 <= k < q2[i].len() ==> first_at(welded@, q2[i][k], #[trigger] faces@[i].vertices@[k] as int)
        } by {
            if i < fs0.len() {
                assert(faces@[i] == fs0[i]);
                assert(q2[i] == quads[i]);
                assert forall|k: int| 0 <= k < q2[i].len() implies first_at(welded@, q2[i][k], #[trigger] faces@[i].vertices@[k] as int) by {
                    let s = fs0[i].vertices@[k] as int;
                    assert(first_at(w0, quads[i][k], s));
                    assert(welded@[s] == welded@.take(w0.len() as int)[s]);
                    assert forall|j: int| 0 <= j < s implies welded@[j] != quads[i][k] by {
                        assert(welded@[j] == welded@.take(w0.len() as int)[j]);
                    }
                }
            }
        }
    }
}

/// Whether side `k` of cell `(x, y, z)` is on the surface.
fn side_is_exposed(nx: usize, ny: usize, nz: usize, occupied: &Vec<bool>, k: usize, x: usize, y: usize, z: usize) -> (b: bool)
    requires
        grid_ok(nx as int, ny as int, nz as int, occupied@),
        x < nx,
        y < ny,
        z < nz,
    ensures
        b == side_exposed(nx as int, ny as int, nz as int, occupied@, k as int, x as int, y as int, z as int),
{
    if k == 0 {
        x == 0 || !filled_at(nx, ny, nz, occupied, x - 1, y, z)
    } else if k == 1 {
        x + 1 >= nx || !filled_at(nx, ny, nz, occupied, x + 1, y, z)
    } else if k == 2 {
        y == 0 || !filled_at(nx, ny, nz, occupied, x, y - 1, z)
    } else if k == 3 {
        y + 1 >= ny || !filled_at(nx, ny, nz, occupied, x, y + 1, z)
    } else if k == 4 {
        z == 0 || !filled_at(nx, ny, nz, occupied, x, y, z - 1)
    } else {
        z + 1 >= nz || !filled_at(nx, ny, nz, occupied, x, y, z + 1)
    }
}

/// The outward-wound lattice corners of side `k` of cell `(x, y, z)`.
fn side_corner_list(k: usize, x: usize, y: usize, z: usize) -> (r: Vec<Lattice>)
    requires
        x < usize::MAX,
        y < usize::MAX,
        z < usize::MAX,
    ensures
        r@ == side_corners(k as int, x, y, z),
{
    let x1 = x + 1;
    let y1 = y + 1;
    let z1 = z + 1;
    let r = if k == 0 {
        vec![(x, y, z1), (x, y1, z1), (x, y1, z), (x, y, z)]
    } else if k == 1 {
        vec![(x1, y1, z), (x1, y1, z1), (x1, y, z1), (x1, y, z)]
    } else if k == 2 {
        vec![(x1, y, z), (x1, y, z1), (x, y, z1), (x, y, z)]
    } else if k == 3 {
        vec![(x, y1, z1), (x1, y1, z1), (x1, y1, z), (x, y1, z)]
    } else if k == 4 {
        vec![(x, y1, z), (x1, y1, z), (x1, y, z), (x, y, z)]
    } else {
        vec![(x1, y, z1), (x1, y1, z1), (x, y1, z1), (x, y, z1)]
    };
    proof {
        assert(r@ =~= side_corners(k as int, x, y, z));
    }
    r
}

/// Adds the surface quads of one cell.
fn emit_cell<L, V, FP: Fn(usize, usize, usize) -> V>(
    welded: &mut Vec<Lattice>,
    payloads: &mut Vec<V>,
    faces: &mut Vec<PolygonFace<L>>,
    nx: usize,
    ny: usize,
    nz: usize,
    occupied: &Vec<bool>,
    x: usize,
    y: usize,
    z: usize,
    point: &FP,
    Ghost(quads): Ghost<Seq<Seq<Lattice>>>,
)
    requires
        forall|a: usize, b: usize, c: usize| point.requires((a, b, c)),
        grid_ok(nx as int, ny as int, nz as int, occupied@),
        x < nx,
        y < ny,
        z < nz,
        surface_so_far(old(welded)@, old(payloads)@, old(faces)@, quads, *point),
    ensures
        surface_so_far(
            final(welded)@,
            final(payloads)@,
            final(faces)@,
            quads + cell_quads(nx as int, ny as int, nz as int, occupied@, x as int, y as int, z as int),
            *point,
        ),
{
    let ghost parts = Seq::new(
        6,
        |k: int|
            if side_exposed(nx as int, ny as int, nz as int, occupied@, k, x as int, y as int, z as int) {
                seq![side_corners(k, x, y, z)]
            } else {
                Seq::<Seq<Lattice>>::empty()
            },
    );
    if !filled_at(nx, ny, nz, occupied, x, y, z) {
        proof {
            assert(quads + cell_quads(nx as int, ny as int, nz as int, occupied@, x as int, y as int, z as int) =~= quads);
        }
        return;
    }
    let mut k: usize = 0;
    while k < 6
        invariant
            forall|a: usize, b: usize, c: usize| point.requires((a, b, c)),
            grid_ok(nx as int, ny as int, nz as int, occupied@),
            x < nx,
            y < ny,
            z < nz,
            k <= 6,
            parts == Seq::new(
                6,
                |k: int|
                    if side_exposed(nx as int, ny as int, nz as int, occupied@, k, x as int, y as int, z as int) {
                        seq![side_corners(k, x, y, z)]
                    } else {
                        Seq::<Seq<Lattice>>::empty()
                    },
            ),
            surface_so_far(welded@, payloads@, faces@, quads + joined(parts.take(k as int)), *point),
        decreases 6 - k,
    {
        let ghost before = quads + joined(parts.take(k as int));
        proof {
            assert(parts.take(k + 1) =~= parts.take(k as int).push(parts[k as int]));
            lemma_joined_push(parts.take(k as int), parts[k as int]);
        }
        if side_is_exposed(nx, ny, nz, occupied, k, x, y, z) {
            let quad = side_corner_list(k, x, y, z);
            emit_quad(welded, payloads, faces, quad, point, Ghost(before));
            proof {
                assert(before.push(side_corners(k as int, x, y, z)) =~= quads + joined(parts.take(k + 1)));
            }
        } else {
            proof {
                assert(before =~= quads + joined(parts.take(k + 1)));
            }
        }
        k = k + 1;
    }
    proof {
        assert(parts.take(6) =~= parts);
    }
}

impl<V: Copy, L: Copy + Default> HalfEdgeMesh<V, L> {
    /// The closed surface of the filled cells of an `nx` by `ny` by `nz` occupancy grid:
    /// one outward quad per filled cell side that faces an empty cell or the grid's edge,
    /// cells taken layer by layer, row by row; lattice corners are numbered in order of
    /// first use and take their payloads from `point`. No filled cell gives an empty mesh.
    pub fn build_voxel_surface<FP: Fn(usize, usize, usize) -> V>(
        nx: usize,
        ny: usize,
        nz: usize,
        occupied: &Vec<bool>,
        point: FP,
    ) -> (r: Result<Self, MeshError>)
        requires
            grid_ok(nx as int, ny as int, nz as int, occupied@),
            forall|a: usize, b: usize, c: usize| point.requires((a, b, c)),
        ensures
            ({
                let qs = voxel_quads(nx as int, ny as int, nz as int, occupied@);
                let pts = lattice_points(qs);
                &&& qs.len() == 0 ==> r is Ok && r->Ok_0.nv() == 0 && r->Ok_0.nf() == 0
                &&& qs.len() > 0 ==> exists|payloads: Seq<V>|
                    #[trigger] built_from(r, payloads, surface_faces::<L>(qs))
                        && payloads.len() == pts.len() && forall|v: int|
                        0 <= v < pts.len() ==> point.ensures((pts[v].0, pts[v].1, pts[v].2), #[trigger] payloads[v])
            }),
    {
        let mut welded: Vec<Lattice> = Vec::new();
        let mut payloads: Vec<V> = Vec::new();
        let mut faces: Vec<PolygonFace<L>> = Vec::new();
        let ghost layers = Seq::new(nz as nat, |z: int| layer_quads(nx as int, ny as int, nz as int, occupied@, z));
        proof {
            assert(lattice_points(Seq::<Seq<Lattice>>::empty()) =~= Seq::<Lattice>::empty());
        }
        let mut z: usize = 0;
        while z < nz
            invariant
                forall|a: usize, b: usize, c: usize| point.requires((a, b, c)),
                grid_ok(nx as int, ny as int, nz as int, occupied@),
                layers == Seq::new(nz as nat, |z: int| layer_quads(nx as int, ny as int, nz as int, occupied@, z)),
                z <= nz,
                surface_so_far(welded@, payloads@, faces@, joined(layers.take(z as int)), point),
            decreases nz - z,
        {
            let ghost base_z = joined(layers.take(z as int));
            let ghost rows = Seq::new(ny as nat, |y: int| row_quads(nx as int, ny as int, nz as int, occupied@, y, z as int));
            let mut y: usize = 0;
            while y < ny
                invariant
                    forall|a: usize, b: usize, c: usize| point.requires((a, b, c)),
                    grid_ok(nx as int, ny as int, nz as int, occupied@),
                    z < nz,
                    y <= ny,
                    rows == Seq::new(ny as nat, |y: int| row_quads(nx as int, ny as int, nz as int, occupied@, y, z as int)),
                    surface_so_far(welded@, payloads@, faces@, base_z + joined(rows.take(y as int)), point),
                decreases ny - y,
            {
                let ghost base_y = base_z + joined(rows.take(y as int));
                let ghost cells = Seq::new(nx as nat, |x: int| cell_quads(nx as int, ny as int, nz as int, occupied@, x, y as int, z as int));
                let mut x: usize = 0;
                while x < nx
                    invariant
                        forall|a: usize, b: usize, c: usize| point.requires((a, b, c)),
                        grid_ok(nx as int, ny as int, nz as int, occupied@),
                        z < nz,
                        y < ny,
                        x <= nx,
                        cells == Seq::new(nx as nat, |x: int| cell_quads(nx as int, ny as int, nz as int, occupied@, x, y as int, z as int)),
                        surface_so_far(welded@, payloads@, faces@, base_y + joined(cells.take(x as int)), point),
                    decreases nx - x,
                {
                    let ghost here = base_y + joined(cells.take(x as int));
                    emit_cell(&mut welded, &mut payloads, &mut faces, nx, ny, nz, occupied, x, y, z, &point, Ghost(here));
                    proof {
                        assert(cells.take(x + 1) =~= cells.take(x as int).push(cells[x as int]));
                        lemma_joined_push(cells.take(x as int), cells[x as int]);
                        assert(here + cells[x as int] =~= base_y + joined(cells.take(x + 1)));
                    }
                    x = x + 1;
                }
                proof {
                    assert(cells.take(nx as int) =~= cells);
                    assert(rows.take(y + 1) =~= rows.take(y as int).push(rows[y as int]));
                    lemma_joined_push(rows.take(y as int), rows[y as int]);
                    assert(base_y + joined(cells) =~= base_z + joined(rows.take(y + 1)));
                }
                y = y + 1;
            }
            proof {
                assert(rows.take(ny as int) =~= rows);
                assert(layers.take(z + 1) =~= layers.take(z as int).push(layers[z as int]));
                lemma_joined_push(layers.take(z as int), layers[z as int]);
                assert(base_z + joined(rows) =~= joined(layers.take(z + 1)));
            }
            z = z + 1;
        }
        let ghost qs = voxel_quads(nx as int, ny as int, nz as int, occupied@);
        proof {
            assert(layers.take(nz as int) =~= layers);
        }
        if faces.len() == 0 {
            return Ok(HalfEdgeMesh::new());
        }
        let ghost pts = welded@;
        let ghost fs = surface_faces::<L>(qs);
        proof {
            assert forall|i: int| 0 <= i < faces@.len() implies #[trigger] views(faces@)[i] == fs[i] by {
                assert(faces@[i].vertices@ =~= qs[i].map_values(|p: Lattice| slot_of(pts, p) as usize)) by {
                    assert forall|c: int| 0 <= c < qs[i].len() implies #[trigger] faces@[i].vertices@[c] == slot_of(pts, qs[i][c]) as usize by {
                        lemma_slot_of(pts, qs[i][c], faces@[i].vertices@[c] as int);
                    }
                }
                assert(faces@[i].loops@ =~= Seq::<L>::empty());
            }
            assert(views(faces@) =~= fs);
        }
        let ghost pl = payloads@;
        let r = Self::from_snapshot(MeshSnapshot { vertices: payloads, faces });
        proof {
            assert(built_from(r, pl, fs));
        }
        r
    }
}

} // verus!
