# saddle_procgen_mesh_ops

An editable half-edge mesh for procedural geometry, verified with Verus.

## Layout

- `src/` — the verified library. The mesh `HalfEdgeMesh<V, L>` is generic over vertex
  payloads `V` and per-corner loop payloads `L`; it owns connectivity, ids, ordering and
  failures, and takes every payload and every geometric decision from its caller (as
  values or closures). Every mesh value satisfies the storage and manifold invariants that
  `validate` checks; every topology edit rebuilds the mesh from a polygon snapshot, and a
  failed edit leaves the mesh unchanged. `build_spec.rs` states the construction as spec
  functions (`built_topology`), so a rebuild succeeds exactly when the construction over
  its polygons closes into a valid mesh (`builds_manifold`), and every mesh made by the
  constructors and edits is the build of its own polygons (`canonical`, part of the type
  invariant), which is why rebuilding a mesh from its own snapshot always succeeds.
  - `mesh.rs`, `ids.rs`, `attributes.rs` — storage, typed ids, the mathematical model
    (`Topology`, polygons) and accessors.
  - `rebuild.rs`, `build_spec.rs`, `validation.rs`, `snapshot.rs`, `topology.rs` —
    building from polygons, validation, snapshots, boundary loops, connected components,
    the unit shapes; `shape_builds.rs` evaluates the construction on the unit shapes.
  - `ops.rs`, `extrude.rs`, `subdivision.rs`, `simplify.rs` — local and high-level edits.
  - `conversion.rs`, `signatures.rs`, `voxel.rs`, `runtime.rs` — welding and export
    layout, the sorted corner-key signatures that attribute-aware welding compares, voxel
    surfaces and boolean rules, revision and job bookkeeping.
  - `laws.rs` — properties relating several operations.
- `tests/` — tests over `[f32; 3]` positions.
- `app/` — the Bevy integration: floating-point payloads and geometry, render-mesh
  import/export, components, messages, systems and the plugin.
