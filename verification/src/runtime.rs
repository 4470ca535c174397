use crate::error::MeshError;
use crate::mesh::HalfEdgeMesh;
use vstd::prelude::*;

verus! {

/// Runtime policy: when heavy edits go to background jobs, and what is refreshed after a
/// topology change.
#[derive(Debug, Clone, Copy, PartialEq, Eq, Structural)]
pub struct MeshOpsConfig {
    pub async_face_threshold: usize,
    pub allow_async_subdivision: bool,
    pub boolean_async_face_threshold: usize,
    pub allow_async_boolean_ops: bool,
    pub recompute_normals_after_topology_change: bool,
    pub recompute_tangents_after_topology_change: bool,
    pub refresh_aabb_on_sync: bool,
}

impl Default for MeshOpsConfig {
    fn default() -> (c: Self)
        ensures
            c.async_face_threshold == 24,
            c.allow_async_subdivision,
            c.boolean_async_face_threshold == 48,
            c.allow_async_boolean_ops,
            c.recompute_normals_after_topology_change,
            c.recompute_tangents_after_topology_change,
            c.refresh_aabb_on_sync,
    {
        MeshOpsConfig {
            async_face_threshold: 24,
            allow_async_subdivision: true,
            boolean_async_face_threshold: 48,
            allow_async_boolean_ops: true,
            recompute_normals_after_topology_change: true,
            recompute_tangents_after_topology_change: true,
            refresh_aabb_on_sync: true,
        }
    }
}

/// Which debug overlays an entity wants.
#[derive(Debug, Clone, Copy, PartialEq, Eq, Structural)]
pub struct MeshOpsDebugView {
    pub enabled: bool,
    pub draw_edges: bool,
    pub draw_boundary_edges: bool,
    pub draw_face_normals: bool,
    pub draw_vertex_normals: bool,
}

impl Default for MeshOpsDebugView {
    fn default() -> (v: Self)
        ensures
            !v.enabled,
            v.draw_edges,
            v.draw_boundary_edges,
            !v.draw_face_normals,
            !v.draw_vertex_normals,
    {
        MeshOpsDebugView {
            enabled: false,
            draw_edges: true,
            draw_boundary_edges: true,
            draw_face_normals: false,
            draw_vertex_normals: false,
        }
    }
}

/// How a requested edit is scheduled.
#[derive(Debug, Clone, Copy, PartialEq, Eq, Structural)]
pub enum CommandClass {
    /// Catmull-Clark or Loop subdivision.
    Subdivision,
    /// A boolean with another mesh of the given face count.
    Boolean { other_face_count: usize },
    /// Everything else: always applied inline.
    Inline,
}

/// Whether an edit should run as a background job.
pub open spec fn runs_async(class: CommandClass, face_count: int, config: MeshOpsConfig, prefer_async: bool) -> bool {
    match class {
        CommandClass::Subdivision => config.allow_async_subdivision && (prefer_async || face_count
            >= config.async_face_threshold),
        CommandClass::Boolean { other_face_count } => config.allow_async_boolean_ops && (prefer_async || face_count
            + other_face_count >= config.boolean_async_face_threshold),
        CommandClass::Inline => false,
    }
}

/// Decides whether an edit of the given class, on a mesh with `face_count` faces, goes to
/// a background job: subdivisions and booleans do when allowed and either preferred or
/// large enough; everything else runs inline.
pub fn should_run_async(class: CommandClass, face_count: usize, config: &MeshOpsConfig, prefer_async: bool) -> (b: bool)
    ensures
        b == runs_async(class, face_count as int, *config, prefer_async),
{
    match class {
        CommandClass::Subdivision => {
            if !config.allow_async_subdivision {
                return false;
            }
            prefer_async || face_count >= config.async_face_threshold
        },
        CommandClass::Boolean { other_face_count } => {
            if !config.allow_async_boolean_ops {
                return false;
            }
            prefer_async || match face_count.checked_add(other_face_count) {
                Some(total) => total >= config.boolean_async_face_threshold,
                None => true,
            }
        },
        CommandClass::Inline => false,
    }
}

/// The revision after one more change: one more, stopping at the largest value.
pub open spec fn next_revision(r: u64) -> u64 {
    if r < u64::MAX {
        (r + 1) as u64
    } else {
        r
    }
}

/// An editable mesh owned by an entity, with a revision counter that every change bumps.
#[derive(Debug)]
pub struct EditableMesh<V, L> {
    pub mesh: HalfEdgeMesh<V, L>,
    pub revision: u64,
    pub topology_dirty: bool,
}

/// What became of a finished background job.
#[derive(Debug)]
pub enum JobOutcome {
    /// The result replaced the mesh.
    Applied { topology_changed: bool },
    /// The mesh changed since the job started; the result was dropped.
    Stale,
    /// The job failed; the mesh is unchanged.
    Failed(MeshError),
}

impl<V, L> EditableMesh<V, L> {
    /// A freshly wrapped mesh: revision 0, topology dirty.
    pub fn new(mesh: HalfEdgeMesh<V, L>) -> (e: Self)
        ensures
            e.mesh == mesh,
            e.revision == 0,
            e.topology_dirty,
    {
        EditableMesh { mesh, revision: 0, topology_dirty: true }
    }

    /// Records a change: the revision goes up by one (saturating) and the topology flag
    /// is raised when the change touched the topology.
    pub fn mark_changed(&mut self, topology_dirty: bool)
        ensures
            final(self).revision == next_revision(old(self).revision),
            final(self).topology_dirty == (old(self).topology_dirty || topology_dirty),
            final(self).mesh == old(self).mesh,
    {
        self.revision = self.revision.saturating_add(1);
        self.topology_dirty = self.topology_dirty || topology_dirty;
    }

    /// Hands the result of a background job that started at `base_revision` to the mesh:
    /// a result for an older revision is dropped, a failure leaves the mesh as it is, and
    /// a success replaces the mesh and records the change.
    pub fn finish_job(&mut self, base_revision: u64, result: Result<(HalfEdgeMesh<V, L>, bool), MeshError>) -> (o: JobOutcome)
        ensures
            old(self).revision != base_revision ==> o is Stale && *final(self) == *old(self),
            old(self).revision == base_revision && result is Err ==> o == JobOutcome::Failed(result->Err_0) && *final(self)
                == *old(self),
            old(self).revision == base_revision && result is Ok ==> o == (JobOutcome::Applied {
                topology_changed: result->Ok_0.1,
            }) && final(self).mesh == result->Ok_0.0 && final(self).revision == next_revision(old(self).revision)
                && final(self).topology_dirty == (old(self).topology_dirty || result->Ok_0.1),
    {
        if self.revision != base_revision {
            return JobOutcome::Stale;
        }
        match result {
            Ok((mesh, topology_changed)) => {
                self.mesh = mesh;
                self.mark_changed(topology_changed);
                JobOutcome::Applied { topology_changed }
            },
            Err(error) => JobOutcome::Failed(error),
        }
    }
}

/// What an entity's render copy has caught up with.
#[derive(Debug, Clone, Copy, PartialEq, Eq, Structural)]
pub struct SyncState {
    pub synced_revision: u64,
    pub dirty: bool,
}

impl SyncState {
    /// Nothing synced yet.
    pub fn new() -> (s: Self)
        ensures
            s.synced_revision == 0,
            s.dirty,
    {
        SyncState { synced_revision: 0, dirty: true }
    }

    /// The render copy must be rebuilt: it is marked dirty or lags the mesh revision.
    pub fn needs_sync(&self, revision: u64) -> (b: bool)
        ensures
            b == (self.dirty || self.synced_revision != revision),
    {
        self.dirty || self.synced_revision != revision
    }

    /// Records a successful rebuild of the render copy at `revision`.
    pub fn mark_synced(&mut self, revision: u64)
        ensures
            final(self).synced_revision == revision,
            !final(self).dirty,
    {
        self.synced_revision = revision;
        self.dirty = false;
    }
}

} // verus!
