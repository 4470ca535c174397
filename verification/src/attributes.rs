use vstd::prelude::*;

verus! {

/// Per-face metadata carried through every rebuild.
#[derive(Debug, Clone, Copy, PartialEq, Eq, Structural, Default)]
pub struct FacePayload {
    pub material: Option<u32>,
    pub region: Option<u32>,
}

} // verus!
