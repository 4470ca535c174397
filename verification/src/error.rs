use crate::ids::{EdgeId, FaceId, HalfEdgeId, VertexId};
use vstd::prelude::*;

verus! {

/// Every way a mesh operation, conversion or rebuild can fail.
#[derive(Debug, Clone, PartialEq)]
pub enum MeshError {
    InvalidVertex(VertexId),
    InvalidHalfEdge(HalfEdgeId),
    InvalidEdge(EdgeId),
    InvalidFace(FaceId),
    FaceTooSmall { count: usize },
    DuplicateConsecutiveVertex { corner: usize },
    DuplicateDirectedEdge { from: VertexId, to: VertexId },
    NonManifoldEdge { from: VertexId, to: VertexId },
    UnsupportedPrimitiveTopology(String),
    MissingAttribute(&'static str),
    MissingIndices,
    UnsupportedMesh(String),
    BoundaryOperation { operation: &'static str },
    RequiresTriangleFaces { operation: &'static str },
    RequiresClosedMesh { operation: &'static str },
    InvalidBooleanConfig(String),
    BooleanGridTooDense { x: u32, y: u32, z: u32, max_axis: u32 },
    UnsupportedOperation { operation: &'static str, detail: String },
    DegenerateFace(FaceId),
    InvalidTopology(&'static str),
    TriangulationFailed(FaceId),
    Validation(String),
    EmptySelection(&'static str),
    PendingAsyncJob,
}

} // verus!
