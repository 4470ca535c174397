use vstd::prelude::*;

verus! {

/// Index of a vertex in a [`crate::HalfEdgeMesh`].
#[derive(Debug, Clone, Copy, PartialEq, Eq, Structural, PartialOrd, Ord, Hash, Default)]
pub struct VertexId(pub u32);

/// Index of a directed half-edge in a [`crate::HalfEdgeMesh`].
#[derive(Debug, Clone, Copy, PartialEq, Eq, Structural, PartialOrd, Ord, Hash, Default)]
pub struct HalfEdgeId(pub u32);

/// Index of an undirected edge (a pair of twin half-edges).
#[derive(Debug, Clone, Copy, PartialEq, Eq, Structural, PartialOrd, Ord, Hash, Default)]
pub struct EdgeId(pub u32);

/// Index of a face; interior faces come first, boundary faces after them.
#[derive(Debug, Clone, Copy, PartialEq, Eq, Structural, PartialOrd, Ord, Hash, Default)]
pub struct FaceId(pub u32);

/// The raw value that marks an id as "no element".
pub const INVALID_INDEX: u32 = 4294967295u32;

impl VertexId {
    /// The id that marks "no element".
    pub fn invalid() -> (id: Self)
        ensures
            id.0 == INVALID_INDEX,
    {
        VertexId(INVALID_INDEX)
    }

    pub open spec fn idx(self) -> int {
        self.0 as int
    }

    pub open spec fn valid(self) -> bool {
        self.0 != INVALID_INDEX
    }

    pub fn new(index: u32) -> (id: Self)
        ensures
            id.0 == index,
    {
        VertexId(index)
    }

    pub fn index(self) -> (i: usize)
        ensures
            i == self.0,
    {
        self.0 as usize
    }

    pub fn is_valid(self) -> (b: bool)
        ensures
            b == self.valid(),
    {
        self.0 != INVALID_INDEX
    }
}

impl HalfEdgeId {
    /// The id that marks "no element".
    pub fn invalid() -> (id: Self)
        ensures
            id.0 == INVALID_INDEX,
    {
        HalfEdgeId(INVALID_INDEX)
    }

    pub open spec fn idx(self) -> int {
        self.0 as int
    }

    pub open spec fn valid(self) -> bool {
        self.0 != INVALID_INDEX
    }

    pub fn new(index: u32) -> (id: Self)
        ensures
            id.0 == index,
    {
        HalfEdgeId(index)
    }

    pub fn index(self) -> (i: usize)
        ensures
            i == self.0,
    {
        self.0 as usize
    }

    pub fn is_valid(self) -> (b: bool)
        ensures
            b == self.valid(),
    {
        self.0 != INVALID_INDEX
    }
}

impl EdgeId {
    /// The id that marks "no element".
    pub fn invalid() -> (id: Self)
        ensures
            id.0 == INVALID_INDEX,
    {
        EdgeId(INVALID_INDEX)
    }

    pub open spec fn idx(self) -> int {
        self.0 as int
    }

    pub open spec fn valid(self) -> bool {
        self.0 != INVALID_INDEX
    }

    pub fn new(index: u32) -> (id: Self)
        ensures
            id.0 == index,
    {
        EdgeId(index)
    }

    pub fn index(self) -> (i: usize)
        ensures
            i == self.0,
    {
        self.0 as usize
    }

    pub fn is_valid(self) -> (b: bool)
        ensures
            b == self.valid(),
    {
        self.0 != INVALID_INDEX
    }
}

impl FaceId {
    /// The id that marks "no element".
    pub fn invalid() -> (id: Self)
        ensures
            id.0 == INVALID_INDEX,
    {
        FaceId(INVALID_INDEX)
    }

    pub open spec fn idx(self) -> int {
        self.0 as int
    }

    pub open spec fn valid(self) -> bool {
        self.0 != INVALID_INDEX
    }

    pub fn new(index: u32) -> (id: Self)
        ensures
            id.0 == index,
    {
        FaceId(index)
    }

    pub fn index(self) -> (i: usize)
        ensures
            i == self.0,
    {
        self.0 as usize
    }

    pub fn is_valid(self) -> (b: bool)
        ensures
            b == self.valid(),
    {
        self.0 != INVALID_INDEX
    }
}

} // verus!
