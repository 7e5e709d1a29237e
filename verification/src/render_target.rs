use crate::id_map::IdMapKey;
use vstd::prelude::*;

verus! {

/// Handle of a render target registered with the renderer.
#[derive(Default, Debug, PartialEq, Eq, Structural, PartialOrd, Ord, Clone, Copy, Hash)]
pub struct RenderTargetHandle(pub u64);

impl IdMapKey for RenderTargetHandle {
    open spec fn key_id(&self) -> u64 {
        self.0
    }

    fn from(id: u64) -> (key: Self) {
        RenderTargetHandle(id)
    }

    fn to(&self) -> (id: u64) {
        self.0
    }
}

} // verus!
