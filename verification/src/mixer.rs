use crate::clip::{ClipMap, ClipTable, SfxHandle};
use vstd::prelude::*;

verus! {

/// A clip that is playing, and how many of its frames have been played.
#[derive(Clone, Copy, Debug, PartialEq, Eq, Structural)]
pub struct SoundState {
    pub clip: ClipMap,
    pub cursor: usize,
}

/// A part of one playing clip to add into the output buffer: `frames` samples of the
/// atlas from `source_start` go to output frames `0..frames`, each into every channel.
#[derive(Clone, Copy, Debug, PartialEq, Eq, Structural)]
pub struct MixSpan {
    pub source_start: usize,
    pub frames: usize,
}

/// Whether a playing sound is consistent: its cursor lies within its clip, and the clip's
/// samples can be indexed.
pub open spec fn sound_ok(s: SoundState) -> bool {
    &&& s.cursor <= s.clip.frames_count
    &&& s.clip.offset + s.clip.frames_count <= usize::MAX
}

/// How many frames of `s` an output buffer of `out_frames` frames takes.
pub open spec fn frames_to_mix(s: SoundState, out_frames: int) -> int {
    let left = s.clip.frames_count - s.cursor;
    if out_frames < left {
        out_frames
    } else {
        left
    }
}

/// `s` with its `i`-th element removed by moving the last one into its place.
pub open spec fn swap_removed(s: Seq<SoundState>, i: int) -> Seq<SoundState> {
    s.update(i, s.last()).drop_last()
}

/// One mixing pass over the playing sounds from position `i` on, for an output buffer of
/// `out_frames` frames: the sounds left afterwards and the spans to add, in order. Each
/// sound adds its next `frames_to_mix` frames; a sound with nothing left, or that reaches
/// its end, is dropped by moving the last sound into its place (which is visited next).
pub open spec fn mix_pass(sounds: Seq<SoundState>, i: int, out_frames: int) -> (Seq<
    SoundState,
>, Seq<MixSpan>)
    decreases sounds.len() - i,
{
    if i < 0 || i >= sounds.len() {
        (sounds, Seq::empty())
    } else {
        let s = sounds[i];
        let m = frames_to_mix(s, out_frames);
        if m <= 0 {
            mix_pass(swap_removed(sounds, i), i, out_frames)
        } else {
            let advanced = SoundState { clip: s.clip, cursor: (s.cursor + m) as usize };
            let span = MixSpan {
                source_start: (s.clip.offset + s.cursor) as usize,
                frames: m as usize,
            };
            let rest = if advanced.cursor >= s.clip.frames_count {
                mix_pass(swap_removed(sounds.update(i, advanced), i), i, out_frames)
            } else {
                mix_pass(sounds.update(i, advanced), i + 1, out_frames)
            };
            (rest.0, seq![span] + rest.1)
        }
    }
}

/// The sounds that are playing, mixed into each output buffer in turn.
pub struct Mixer {
    sounds: Vec<SoundState>,
}

impl View for Mixer {
    type V = Seq<SoundState>;

    closed spec fn view(&self) -> Seq<SoundState> {
        self.sounds@
    }
}

impl Mixer {
    /// Every playing sound is consistent.
    pub open spec fn wf(&self) -> bool {
        forall|i: int| 0 <= i < self@.len() ==> sound_ok(#[trigger] self@[i])
    }

    /// Nothing playing.
    pub fn new() -> (m: Self)
        ensures
            m@ == Seq::<SoundState>::empty(),
            m.wf(),
    {
        Mixer { sounds: Vec::with_capacity(128) }
    }

    /// Starts playing `clip` from its first frame.
    pub fn add_sound(&mut self, clip: ClipMap)
        requires
            old(self).wf(),
            clip.offset + clip.frames_count <= usize::MAX,
        ensures
            final(self)@ == old(self)@.push(SoundState { clip, cursor: 0 }),
            final(self).wf(),
    {
        self.sounds.push(SoundState { clip, cursor: 0 });
        proof {
            assert forall|i: int| 0 <= i < self@.len() implies sound_ok(#[trigger] self@[i]) by {
                if i < old(self)@.len() {
                    assert(self@[i] == old(self)@[i]);
                }
            }
        }
    }

    /// Starts playing the clip of `handle` if the atlas has one; an unknown handle is
    /// ignored. Returns whether a sound was started.
    pub fn play_handle(&mut self, handle: SfxHandle, clips: &ClipTable) -> (started: bool)
        requires
            old(self).wf(),
            forall|id: u64|
                #![trigger clips@[id]]
                clips@.contains_key(id) ==> clips@[id].offset + clips@[id].frames_count
                    <= usize::MAX,
        ensures
            final(self).wf(),
            started == clips@.contains_key(handle.0),
            final(self)@ == (if started {
                old(self)@.push(SoundState { clip: clips@[handle.0], cursor: 0 })
            } else {
                old(self)@
            }),
    {
        match clips.get(handle) {
            Some(clip) => {
                self.add_sound(clip);
                true
            },
            None => false,
        }
    }

    /// Plans the mixing of one output buffer of `out_len` samples of `channels`
    /// interleaved channels: advances every playing sound by what the buffer takes, drops
    /// the sounds that have finished, and returns the spans to add into the buffer, in
    /// order. Returns `None` when nothing is playing (the buffer is then left as it is).
    pub fn mix(&mut self, channels: usize, out_len: usize) -> (spans: Option<Vec<MixSpan>>)
        requires
            old(self).wf(),
            old(self)@.len() > 0 ==> channels > 0,
        ensures
            final(self).wf(),
            old(self)@.len() == 0 ==> spans is None && final(self)@ == old(self)@,
            old(self)@.len() > 0 ==> ({
                let pass = mix_pass(old(self)@, 0, (out_len / channels) as int);
                &&& spans matches Some(v) && v@ == pass.1
                &&& final(self)@ == pass.0
            }),
    {
        if self.sounds.len() == 0 {
            return None;
        }
        let out_frames = out_len / channels;
        let ghost total = mix_pass(self.sounds@, 0, out_frames as int);
        let mut spans: Vec<MixSpan> = Vec::new();
        let mut i: usize = 0;
        while i < self.sounds.len()
            invariant
                i <= self.sounds.len(),
                forall|k: int| 0 <= k < self.sounds.len() ==> sound_ok(#[trigger] self.sounds@[k]),
                total.0 == mix_pass(self.sounds@, i as int, out_frames as int).0,
                total.1 == spans@ + mix_pass(self.sounds@, i as int, out_frames as int).1,
            decreases self.sounds.len() - i,
        {
            let sound = self.sounds[i];
            let left = sound.clip.frames_count - sound.cursor;
            let mix_frames = if out_frames < left {
                out_frames
            } else {
                left
            };
            if mix_frames == 0 {
                self.sounds.swap_remove(i);
                continue ;
            }
            let ghost before = self.sounds@;
            let advanced = SoundState { clip: sound.clip, cursor: sound.cursor + mix_frames };
            spans.push(MixSpan { source_start: sound.clip.offset + sound.cursor, frames: mix_frames });
            self.sounds.set(i, advanced);
            if advanced.cursor >= sound.clip.frames_count {
                self.sounds.swap_remove(i);
            } else {
                i = i + 1;
            }
            proof {
                let span = MixSpan {
                    source_start: (sound.clip.offset + sound.cursor) as usize,
                    frames: mix_frames,
                };
                assert(spans@ =~= spans@.drop_last().push(span));
                let rest = mix_pass(self.sounds@, i as int, out_frames as int).1;
                assert(spans@.drop_last() + (seq![span] + rest) =~= spans@ + rest);
            }
        }
        Some(spans)
    }
}

/// What one mixing pass does to each sound: it takes at most the buffer's frames, never
/// reads past the end of its clip, and the sounds that stay are consistent and unfinished.
pub proof fn law_mix_pass_bounds(sounds: Seq<SoundState>, i: int, out_frames: int)
    requires
        0 <= i,
        0 <= out_frames,
        forall|k: int| 0 <= k < sounds.len() ==> sound_ok(#[trigger] sounds[k]),
    ensures
        forall|k: int|
            0 <= k < mix_pass(sounds, i, out_frames).0.len() ==> sound_ok(
                #[trigger] mix_pass(sounds, i, out_frames).0[k],
            ),
        forall|k: int|
            i <= k < mix_pass(sounds, i, out_frames).0.len() ==> #[trigger] mix_pass(
                sounds,
                i,
                out_frames,
            ).0[k].cursor < mix_pass(sounds, i, out_frames).0[k].clip.frames_count,
        mix_pass(sounds, i, out_frames).0.len() <= sounds.len(),
        forall|k: int|
            0 <= k < i && k < sounds.len() ==> #[trigger] mix_pass(sounds, i, out_frames).0[k]
                == sounds[k],
        i <= sounds.len() ==> i <= mix_pass(sounds, i, out_frames).0.len(),
        forall|k: int|
            0 <= k < mix_pass(sounds, i, out_frames).1.len() ==> {
                let sp = #[trigger] mix_pass(sounds, i, out_frames).1[k];
                0 < sp.frames <= out_frames
            },
    decreases sounds.len() - i,
{
    if i < sounds.len() {
        let s = sounds[i];
        let m = frames_to_mix(s, out_frames);
        if m <= 0 {
            law_mix_pass_bounds(swap_removed(sounds, i), i, out_frames);
        } else {
            let advanced = SoundState { clip: s.clip, cursor: (s.cursor + m) as usize };
            if advanced.cursor >= s.clip.frames_count {
                law_mix_pass_bounds(swap_removed(sounds.update(i, advanced), i), i, out_frames);
            } else {
                law_mix_pass_bounds(sounds.update(i, advanced), i + 1, out_frames);
            }
            let rest = if advanced.cursor >= s.clip.frames_count {
                mix_pass(swap_removed(sounds.update(i, advanced), i), i, out_frames)
            } else {
                mix_pass(sounds.update(i, advanced), i + 1, out_frames)
            };
            let span = MixSpan {
                source_start: (s.clip.offset + s.cursor) as usize,
                frames: m as usize,
            };
            assert forall|k: int|
                0 <= k < mix_pass(sounds, i, out_frames).1.len() implies {
                let sp = #[trigger] mix_pass(sounds, i, out_frames).1[k];
                0 < sp.frames <= out_frames
            } by {
                if k > 0 {
                    assert(mix_pass(sounds, i, out_frames).1[k] == rest.1[k - 1]);
                }
            }
        }
    }
}

} // verus!
