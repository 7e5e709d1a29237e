use crate::id_map::IdMapKey;
use std::collections::HashMap;
use vstd::prelude::*;

verus! {

broadcast use vstd::std_specs::hash::group_hash_axioms;

/// Handle of a sound effect loaded into the audio backend.
#[derive(Default, Eq, PartialEq, Structural, Clone, Copy, Hash, Debug)]
pub struct SfxHandle(pub u64);

impl IdMapKey for SfxHandle {
    open spec fn key_id(&self) -> u64 {
        self.0
    }

    fn from(id: u64) -> (key: Self) {
        SfxHandle(id)
    }

    fn to(&self) -> (id: u64) {
        self.0
    }
}

/// Where a loaded clip lies in the sound atlas: the index of its first sample and its
/// number of (mono) frames.
#[derive(Clone, Copy, Debug, PartialEq, Eq, Structural)]
pub struct ClipMap {
    pub offset: usize,
    pub frames_count: usize,
}

/// The clips of the sound atlas, by the id of their handle.
pub struct ClipTable {
    clips: HashMap<u64, ClipMap>,
}

impl View for ClipTable {
    type V = Map<u64, ClipMap>;

    closed spec fn view(&self) -> Map<u64, ClipMap> {
        self.clips@
    }
}

impl ClipTable {
    /// No clip.
    pub fn new() -> (t: Self)
        ensures
            t@ == Map::<u64, ClipMap>::empty(),
    {
        ClipTable { clips: HashMap::new() }
    }

    /// Records where the clip of `handle` lies.
    pub fn insert(&mut self, handle: SfxHandle, clip: ClipMap)
        ensures
            final(self)@ == old(self)@.insert(handle.0, clip),
    {
        self.clips.insert(handle.0, clip);
    }

    /// Where the clip of `handle` lies, if it is in the atlas.
    pub fn get(&self, handle: SfxHandle) -> (clip: Option<ClipMap>)
        ensures
            clip == (if self@.contains_key(handle.0) {
                Some(self@[handle.0])
            } else {
                None
            }),
    {
        match self.clips.get(&handle.0) {
            Some(c) => Some(*c),
            None => None,
        }
    }

    /// The number of clips.
    pub fn len(&self) -> (n: usize)
        ensures
            n == self@.len(),
    {
        self.clips.len()
    }
}

} // verus!
