use crate::clip::{ClipMap, ClipTable, SfxHandle};
use vstd::prelude::*;

verus! {

/// `x` rounded up to a multiple of 16 samples (64 bytes of 32-bit samples, a cache line).
pub open spec fn align16(x: int) -> int {
    (x + 15) / 16 * 16
}

/// The length of the atlas that holds clips of these lengths, packed in this order, each
/// starting at a multiple of 16 samples (the gaps are filled with silence).
#[verifier::opaque]
pub open spec fn atlas_len(lengths: Seq<usize>) -> int
    decreases lengths.len(),
{
    if lengths.len() == 0 {
        0
    } else {
        align16(atlas_len(lengths.drop_last())) + lengths.last()
    }
}

/// Where the `i`-th clip starts in the atlas.
pub open spec fn clip_start(lengths: Seq<usize>, i: int) -> int {
    align16(atlas_len(lengths.take(i)))
}

proof fn lemma_align16(x: int)
    requires
        0 <= x,
    ensures
        x <= align16(x) <= x + 15,
        align16(x) % 16 == 0,
{
}

proof fn lemma_atlas_len_nonneg(lengths: Seq<usize>)
    ensures
        0 <= atlas_len(lengths),
    decreases lengths.len(),
{
    reveal(atlas_len);
    if lengths.len() > 0 {
        lemma_atlas_len_nonneg(lengths.drop_last());
    }
}

/// The atlas of the first `i + 1` clips is that of the first `i`, padded, and the
/// `i`-th clip.
proof fn lemma_atlas_len_step(lengths: Seq<usize>, i: int)
    requires
        0 <= i < lengths.len(),
    ensures
        atlas_len(lengths.take(i + 1)) == clip_start(lengths, i) + lengths[i],
{
    reveal(atlas_len);
    assert(lengths.take(i + 1).drop_last() =~= lengths.take(i));
}

proof fn lemma_atlas_len_empty(lengths: Seq<usize>)
    ensures
        atlas_len(lengths.take(0)) == 0,
{
    reveal(atlas_len);
}

proof fn lemma_atlas_len_monotone(lengths: Seq<usize>, a: int, b: int)
    requires
        0 <= a <= b <= lengths.len(),
    ensures
        atlas_len(lengths.take(a)) <= atlas_len(lengths.take(b)),
    decreases b - a,
{
    if a < b {
        lemma_atlas_len_monotone(lengths, a, b - 1);
        lemma_atlas_len_step(lengths, b - 1);
        lemma_atlas_len_nonneg(lengths.take(b - 1));
        lemma_align16(atlas_len(lengths.take(b - 1)));
    }
}

/// The clips of sound effects of these lengths (in mono frames), laid out one after the
/// other in this order, each from a multiple of 16 samples; returns where each lies and
/// the total length of the atlas.
pub fn plan_atlas(sources: &Vec<(SfxHandle, usize)>) -> (plan: (ClipTable, usize))
    requires
        forall|i: int, j: int| 0 <= i < j < sources.len() ==> sources[i].0 != sources[j].0,
        atlas_len(sources@.map_values(|s: (SfxHandle, usize)| s.1)) <= usize::MAX,
    ensures
        ({
            let lengths = sources@.map_values(|s: (SfxHandle, usize)| s.1);
            &&& plan.1 == atlas_len(lengths)
            &&& plan.0@.dom() == sources@.map_values(|s: (SfxHandle, usize)| s.0.0).to_set()
            &&& forall|i: int|
                #![trigger sources[i]]
                0 <= i < sources.len() ==> plan.0@[sources[i].0.0] == (ClipMap {
                    offset: clip_start(lengths, i) as usize,
                    frames_count: sources[i].1,
                })
        }),
{
    let ghost lengths = sources@.map_values(|s: (SfxHandle, usize)| s.1);
    let ghost ids = sources@.map_values(|s: (SfxHandle, usize)| s.0.0);
    let mut table = ClipTable::new();
    proof {
        lemma_atlas_len_empty(lengths);
    }
    let mut len: usize = 0;
    let mut i: usize = 0;
    while i < sources.len()
        invariant
            i <= sources.len(),
            lengths == sources@.map_values(|s: (SfxHandle, usize)| s.1),
            ids == sources@.map_values(|s: (SfxHandle, usize)| s.0.0),
            forall|a: int, b: int| 0 <= a < b < sources.len() ==> sources[a].0 != sources[b].0,
            atlas_len(lengths) <= usize::MAX,
            len == atlas_len(lengths.take(i as int)),
            forall|id: u64|
                #![trigger table@.contains_key(id)]
                table@.contains_key(id) <==> exists|a: int|
                    0 <= a < i && #[trigger] sources[a].0.0 == id,
            forall|a: int|
                #![trigger sources[a]]
                0 <= a < i ==> table@[sources[a].0.0] == (ClipMap {
                    offset: clip_start(lengths, a) as usize,
                    frames_count: sources[a].1,
                }),
        decreases sources.len() - i,
    {
        proof {
            lemma_atlas_len_monotone(lengths, i + 1, lengths.len() as int);
            assert(lengths.take(lengths.len() as int) =~= lengths);
            lemma_atlas_len_step(lengths, i as int);
            lemma_atlas_len_nonneg(lengths.take(i as int));
            lemma_align16(len as int);
            assert(lengths[i as int] == sources[i as int].1);
        }
        let offset = (len + 15) / 16 * 16;
        let frames = sources[i].1;
        table.insert(sources[i].0, ClipMap { offset, frames_count: frames });
        len = offset + frames;
        proof {
            assert forall|a: int| #![trigger sources[a]] 0 <= a < i implies sources[a].0.0
                != sources[i as int].0.0 by {
                assert(sources[a].0 != sources[i as int].0);
            }
            assert forall|id: u64| #![trigger table@.contains_key(id)]
                table@.contains_key(id) <==> exists|a: int|
                    0 <= a < i + 1 && #[trigger] sources[a].0.0 == id by {
                if id == sources[i as int].0.0 {
                    assert(sources[i as int].0.0 == id);
                }
            }
        }
        i = i + 1;
    }
    proof {
        assert(lengths.take(sources.len() as int) =~= lengths);
        assert forall|id: u64| table@.dom().contains(id) <==> #[trigger] ids.to_set().contains(
            id,
        ) by {
            if table@.dom().contains(id) {
                let a = choose|a: int| 0 <= a < sources.len() && #[trigger] sources[a].0.0 == id;
                assert(ids[a] == id);
            }
            if ids.to_set().contains(id) {
                let a = choose|a: int| 0 <= a < ids.len() && ids[a] == id;
                assert(sources[a].0.0 == id);
            }
        }
        assert(table@.dom() =~= ids.to_set());
    }
    (table, len)
}

/// Each clip of the atlas starts at a multiple of 16 samples, after the end of the clip
/// before it, and ends within the atlas.
pub proof fn law_atlas_clips_disjoint(lengths: Seq<usize>, i: int, j: int)
    requires
        0 <= i < j < lengths.len(),
    ensures
        clip_start(lengths, i) % 16 == 0,
        clip_start(lengths, i) + lengths[i] <= clip_start(lengths, j),
        clip_start(lengths, j) + lengths[j] <= atlas_len(lengths),
{
    lemma_atlas_len_nonneg(lengths.take(i));
    lemma_align16(atlas_len(lengths.take(i)));
    lemma_atlas_len_step(lengths, i);
    lemma_atlas_len_monotone(lengths, i + 1, j);
    lemma_atlas_len_nonneg(lengths.take(j));
    lemma_align16(atlas_len(lengths.take(j)));
    lemma_atlas_len_step(lengths, j);
    lemma_atlas_len_monotone(lengths, j + 1, lengths.len() as int);
    assert(lengths.take(lengths.len() as int) =~= lengths);
}

} // verus!
