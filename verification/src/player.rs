use crate::clip::SfxHandle;
use crate::id_map::{IdMap, IdMapKey};
use vstd::prelude::*;

verus! {

/// `anyhow::Error`, the error of a failed audio stream operation.
#[verifier::external_type_specification]
#[verifier::external_body]
pub struct ExAnyhowError(anyhow::Error);

/// What the contracts of an audio backend speak of: its stream, its loaded sounds and
/// its queue of play requests, which the audio thread empties as it plays them.
#[derive(Debug, Clone, Copy, PartialEq, Eq, Structural)]
pub struct BackendState {
    /// The output device was reported lost since the stream was built.
    pub device_lost: bool,
    /// A set of sounds is loaded (the sources a stream plays from).
    pub has_sources: bool,
    /// How many sounds are loaded; their handles carry the ids 1 to this number.
    pub sound_count: u64,
    /// An output stream is open.
    pub has_stream: bool,
    /// The play queue holds as many pending requests as it can.
    pub queue_full: bool,
    /// The last play request that the current queue accepted, if any.
    pub last_play: Option<SfxHandle>,
    /// How many play requests the current queue accepted (wrapping at `u64::MAX`).
    pub plays_accepted: u64,
    /// How many times a stream was set up from the loaded sounds (wrapping at `u64::MAX`).
    pub build_attempts: u64,
}

/// A counter after one more event, wrapping at `u64::MAX`.
pub open spec fn next_count(n: u64) -> u64 {
    if n == u64::MAX {
        0
    } else {
        (n + 1) as u64
    }
}

/// One `build_stream` that returned `Ok` (when `ok`) or an error: without loaded sounds it
/// does nothing and succeeds; with them it makes one attempt, which opens a stream when
/// it succeeds and leaves the stream as it was when it fails. The sounds and the play
/// queue stay.
pub open spec fn build_step(before: BackendState, after: BackendState, ok: bool) -> bool {
    &&& after.has_sources == before.has_sources
    &&& after.sound_count == before.sound_count
    &&& after.last_play == before.last_play
    &&& after.plays_accepted == before.plays_accepted
    &&& if before.has_sources {
        &&& after.build_attempts == next_count(before.build_attempts)
        &&& ok ==> after.has_stream
        &&& !ok ==> after.has_stream == before.has_stream
    } else {
        ok && after.build_attempts == before.build_attempts && after.has_stream
            == before.has_stream
    }
}

/// One `maintain_stream`, as `stream_plan` decides it: after a device loss the stream
/// (and the mixer and sound atlas it plays from) is dropped, the play queue is replaced by
/// an empty one and the loss is forgotten; then, if sounds are loaded and no stream is
/// left, exactly one attempt is made to build it. The loaded sounds stay.
pub open spec fn maintain_step(before: BackendState, after: BackendState) -> bool {
    let p = stream_plan(before.device_lost, before.has_sources, before.has_stream);
    &&& after.has_sources == before.has_sources
    &&& after.sound_count == before.sound_count
    &&& after.build_attempts == if p.build {
        next_count(before.build_attempts)
    } else {
        before.build_attempts
    }
    &&& if p.reset {
        &&& after.plays_accepted == 0
        &&& after.last_play is None
        &&& after.has_stream || !after.device_lost
    } else {
        after.plays_accepted == before.plays_accepted && after.last_play == before.last_play
    }
    &&& !p.build ==> after.has_stream == (before.has_stream && !p.reset)
}

/// One `init_load_sound` of `n` files that returned handles (when `loaded`) or `None`:
/// either a file could not be decoded, and nothing changed, or the `n` decoded files
/// replaced the loaded sounds and one attempt was made to build the stream, which is open
/// when handles were returned and as it was otherwise. The play queue stays.
pub open spec fn load_step(before: BackendState, after: BackendState, n: nat, loaded: bool) -> bool {
    &&& after.last_play == before.last_play
    &&& after.plays_accepted == before.plays_accepted
    &&& {
        ||| {
            &&& !loaded
            &&& after.build_attempts == before.build_attempts
            &&& after.has_sources == before.has_sources
            &&& after.sound_count == before.sound_count
            &&& after.has_stream == before.has_stream
        }
        ||| {
            &&& after.build_attempts == next_count(before.build_attempts)
            &&& after.has_sources
            &&& after.sound_count == n
            &&& loaded ==> after.has_stream
            &&& !loaded ==> after.has_stream == before.has_stream
        }
    }
}

/// One `play(handle)`: the queue accepts the request, which becomes its last one, or drops
/// it because it was full. Nothing else changes.
pub open spec fn play_step(before: BackendState, after: BackendState, handle: SfxHandle) -> bool {
    &&& {
        ||| after.last_play == Some(handle) && after.plays_accepted == next_count(
            before.plays_accepted,
        )
        ||| before.queue_full && after.last_play == before.last_play && after.plays_accepted
            == before.plays_accepted
    }
    &&& after.has_sources == before.has_sources
    &&& after.sound_count == before.sound_count
    &&& after.has_stream == before.has_stream
    &&& after.build_attempts == before.build_attempts
}

/// An audio output that plays loaded sound effects (one per platform). It is driven
/// from the game loop, which may move between threads.
pub trait AudioBackend: Send {
    /// The backend's stream, sounds and play queue, as the contracts see them.
    spec fn state(&self) -> BackendState;

    /// Builds the output stream from the loaded sounds (see `build_step`).
    fn build_stream(&mut self) -> (r: Result<(), anyhow::Error>)
        ensures
            build_step(old(self).state(), final(self).state(), r is Ok),
    ;

    /// Keeps the stream going (see `maintain_step`).
    fn maintain_stream(&mut self)
        ensures
            maintain_step(old(self).state(), final(self).state()),
    ;

    /// Decodes and loads the given sound files, which replace the sounds loaded before;
    /// returns their handles (ids 1 to the number of files, each once, in any order), or
    /// `None` if one cannot be decoded or the stream cannot be built (see `load_step`).
    fn init_load_sound(&mut self, datas: Vec<Vec<u8>>) -> (r: Option<Vec<SfxHandle>>)
        ensures
            r matches Some(hs) ==> handles_for(datas.len() as nat, hs@),
            load_step(old(self).state(), final(self).state(), datas.len() as nat, r is Some),
    ;

    /// Asks for the sound effect of `handle` to be played (see `play_step`).
    fn play(&mut self, handle: SfxHandle)
        ensures
            play_step(old(self).state(), final(self).state(), handle),
    ;
}

/// Whether `hs` are the handles of `n` freshly loaded sounds: ids 1 to `n`, each once.
pub open spec fn handles_for(n: nat, hs: Seq<SfxHandle>) -> bool {
    &&& hs.len() == n
    &&& forall|i: int, j: int| 0 <= i < j < hs.len() ==> #[trigger] hs[i].0 != #[trigger] hs[j].0
    &&& forall|i: int| 0 <= i < hs.len() ==> 1 <= #[trigger] hs[i].0 <= n
}

/// The game's access to sound effects, through the platform's audio backend.
pub struct SfxManager(Box<dyn AudioBackend>);

impl SfxManager {
    /// A manager over the platform's backend.
    pub fn new(backend: Box<dyn AudioBackend>) -> Self {
        SfxManager(backend)
    }

    /// The backend's stream, sounds and play queue.
    pub closed spec fn state(&self) -> BackendState {
        self.0.state()
    }

    /// Lets the backend rebuild its stream if needed (see `maintain_step`).
    pub fn maintain_stream(&mut self)
        ensures
            maintain_step(old(self).state(), final(self).state()),
    {
        self.0.maintain_stream()
    }

    /// Loads sound files, passed on unchanged to the backend; on success the handles are
    /// ids 1 to the number of files, each once (see `load_step`).
    pub fn init_load_sound(&mut self, datas: Vec<Vec<u8>>) -> (r: Option<Vec<SfxHandle>>)
        ensures
            r matches Some(hs) ==> handles_for(datas.len() as nat, hs@),
            load_step(old(self).state(), final(self).state(), datas.len() as nat, r is Some),
    {
        self.0.init_load_sound(datas)
    }

    /// Asks for the sound effect of `handle` to be played (see `play_step`).
    pub fn play(&mut self, handle: SfxHandle)
        ensures
            play_step(old(self).state(), final(self).state(), handle),
    {
        self.0.play(handle);
    }
}

/// What a backend's `maintain_stream` does this time.
#[derive(Debug, Clone, Copy, PartialEq, Eq, Structural)]
pub struct MaintainPlan {
    /// Drop the stream, the mixer and the atlas, and start a fresh request queue (the
    /// device was lost).
    pub reset: bool,
    /// Build the stream.
    pub build: bool,
}

/// What a backend's `maintain_stream` does: after a device loss everything built for the
/// stream is reset; then the stream is built again if sounds are loaded and no stream is
/// left.
pub open spec fn stream_plan(device_lost: bool, has_sources: bool, has_stream: bool) -> MaintainPlan {
    MaintainPlan { reset: device_lost, build: has_sources && (device_lost || !has_stream) }
}

/// The decisions of a backend's `maintain_stream` (see `stream_plan`).
pub fn maintain_plan(device_lost: bool, has_sources: bool, has_stream: bool) -> (p: MaintainPlan)
    ensures
        p == stream_plan(device_lost, has_sources, has_stream),
{
    let stream_left = has_stream && !device_lost;
    MaintainPlan { reset: device_lost, build: has_sources && !stream_left }
}

/// Registers decoded sound sources in a fresh map, in order, so that the `i`-th source
/// gets the handle with id `i + 1`; returns the map and every handle in it once.
pub fn register_sources<S>(sources: Vec<S>) -> (r: (IdMap<S, SfxHandle>, Vec<SfxHandle>))
    requires
        sources.len() < u64::MAX - 1,
    ensures
        r.0.wf(),
        r.0.next_id() == sources.len() + 1,
        r.0@.len() == sources.len(),
        forall|id: u64|
            #![trigger r.0@.contains_key(id)]
            #![trigger r.0@[id]]
            r.0@.contains_key(id) <==> 1 <= id <= sources.len(),
        forall|id: u64| 1 <= id <= sources.len() ==> #[trigger] r.0@[id] == sources@[id - 1],
        r.0.enumerates(r.1@.map_values(|h: SfxHandle| h.key_id())),
{
    let mut sounds: IdMap<S, SfxHandle> = IdMap::new();
    let ghost all = sources@;
    let mut rest = sources;
    let mut taken: usize = 0;
    assert(all.subrange(0, all.len() as int) =~= all);
    while rest.len() > 0
        invariant
            all.len() < u64::MAX - 1,
            all.len() <= usize::MAX,
            taken + rest.len() == all.len(),
            rest@ == all.subrange(taken as int, all.len() as int),
            sounds.wf(),
            sounds.next_id() == taken + 1,
            sounds@.len() == taken,
            forall|id: u64|
                #![trigger sounds@.contains_key(id)]
                #![trigger sounds@[id]]
                sounds@.contains_key(id) <==> 1 <= id <= taken,
            forall|id: u64| 1 <= id <= taken ==> #[trigger] sounds@[id] == all[id - 1],
        decreases rest.len(),
    {
        assert(taken < all.len());
        let ghost rest_before = rest@;
        let item = rest.remove(0);
        assert(rest@ == rest_before.remove(0));
        assert(item == all[taken as int]);
        let ghost before = sounds@;
        let h = sounds.insert(item);
        assert(h.key_id() == taken + 1);
        assert(sounds@ == before.insert((taken + 1) as u64, all[taken as int]));
        taken = taken + 1;
        assert(rest@ =~= all.subrange(taken as int, all.len() as int));
    }
    let handles = sounds.keys();
    (sounds, handles)
}

} // verus!
