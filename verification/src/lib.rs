//! An editable half-edge mesh whose topology edits rebuild it from validated polygon
//! snapshots. Vertex payloads (`V`) and per-corner loop payloads (`L`) are generic; the
//! library decides connectivity, ordering, ids and failures, and takes every payload and
//! every geometric decision from its caller.

mod attributes;
mod build_spec;
mod components;
mod conversion;
mod error;
mod extrude;
mod ids;
pub mod laws;
mod mesh;
mod ops;
mod rebuild;
mod runtime;
mod shape_builds;
mod signatures;
mod simplify;
mod snapshot;
mod subdivision;
mod topology;
mod validation;
mod voxel;

pub use attributes::FacePayload;
pub use conversion::{weld_positions, PositionKey, WeldPlan};
pub use error::MeshError;
pub use ids::{EdgeId, FaceId, HalfEdgeId, VertexId, INVALID_INDEX};
pub use mesh::{FaceKind, HalfEdgeMesh};
pub use ops::MeshBridgeConfig;
pub use rebuild::FaceProblem;
pub use runtime::{should_run_async, CommandClass, EditableMesh, JobOutcome, MeshOpsConfig, MeshOpsDebugView, SyncState};
pub use snapshot::{MeshSnapshot, PolygonFace};
pub use signatures::{build_vertex_corner_signatures, sort_corner_keys, CornerKey};
pub use simplify::MeshLodLevel;
pub use subdivision::{edge_adjacency, edge_uses, triangle_opposite};
pub use voxel::{combine_inside, empty_operand_result, EmptyOperandResult, Lattice, MeshBooleanOperation};
