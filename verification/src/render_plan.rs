use crate::render_target::RenderTargetHandle;
use crate::input::should_pause_rendering;
use std::collections::HashSet;
use vstd::prelude::*;

verus! {

broadcast use vstd::std_specs::hash::group_hash_axioms;

/// What the renderer does before a draw call, given the render passes recorded so far.
#[derive(Debug, Clone, Copy, PartialEq, Eq, Structural)]
pub struct PassStep {
    /// The open render pass (if any) is ended first.
    pub end_pass: bool,
    /// A new render pass is begun into the draw call's target; its depth is cleared if
    /// `Some(true)`, kept if `Some(false)`.
    pub begin_pass: Option<bool>,
    /// A render pass is open into the draw call's target afterwards, so the draw call
    /// can be recorded.
    pub can_draw: bool,
}

/// The render passes of a frame so far: the target of the open pass (if any) and the
/// targets whose depth has been cleared this frame.
pub struct PassTracker {
    current: Option<RenderTargetHandle>,
    open: bool,
    cleared: HashSet<u64>,
}

/// A pass tracker as plain values: the current target, whether a pass is open, and the
/// ids of the targets cleared this frame.
pub struct PassTrackerModel {
    pub current: Option<RenderTargetHandle>,
    pub open: bool,
    pub cleared: Set<u64>,
}

impl View for PassTracker {
    type V = PassTrackerModel;

    closed spec fn view(&self) -> PassTrackerModel {
        PassTrackerModel { current: self.current, open: self.open, cleared: self.cleared@ }
    }
}

/// The step before a draw call into `target`, and the tracker after it. `target_state` is
/// `None` when the renderer has no such target, else whether the target has a depth
/// texture. A draw call into the target of the open pass is drawn in it. Otherwise the open
/// pass ends; a target that is missing, or has no depth texture, gets no pass (its draw
/// calls are skipped); else a pass begins, clearing the target's depth the first time the
/// frame draws into it and keeping it afterwards.
pub open spec fn pass_step(
    s: PassTrackerModel,
    target: RenderTargetHandle,
    target_state: Option<bool>,
) -> (PassTrackerModel, PassStep) {
    if s.current == Some(target) {
        (s, PassStep { end_pass: false, begin_pass: None, can_draw: s.open })
    } else {
        match target_state {
            None => (
                PassTrackerModel { open: false, ..s },
                PassStep { end_pass: true, begin_pass: None, can_draw: false },
            ),
            Some(has_depth) => {
                let first = !s.cleared.contains(target.0);
                let cleared = s.cleared.insert(target.0);
                if has_depth {
                    (
                        PassTrackerModel { current: Some(target), open: true, cleared },
                        PassStep { end_pass: true, begin_pass: Some(first), can_draw: true },
                    )
                } else {
                    (
                        PassTrackerModel { open: false, cleared, ..s },
                        PassStep { end_pass: true, begin_pass: None, can_draw: false },
                    )
                }
            },
        }
    }
}

impl PassTracker {
    /// The start of a frame: no pass, nothing cleared.
    pub fn new() -> (t: Self)
        ensures
            t@.current is None,
            !t@.open,
            t@.cleared == Set::<u64>::empty(),
    {
        PassTracker { current: None, open: false, cleared: HashSet::new() }
    }

    /// Decides the step before a draw call into `target` (see `pass_step`) and records it.
    pub fn step(&mut self, target: RenderTargetHandle, target_state: Option<bool>) -> (step: PassStep)
        ensures
            (final(self)@, step) == pass_step(old(self)@, target, target_state),
    {
        if self.current == Some(target) {
            return PassStep { end_pass: false, begin_pass: None, can_draw: self.open };
        }
        match target_state {
            None => {
                self.open = false;
                PassStep { end_pass: true, begin_pass: None, can_draw: false }
            },
            Some(has_depth) => {
                let first = self.cleared.insert(target.0);
                if has_depth {
                    self.current = Some(target);
                    self.open = true;
                    PassStep { end_pass: true, begin_pass: Some(first), can_draw: true }
                } else {
                    self.open = false;
                    PassStep { end_pass: true, begin_pass: None, can_draw: false }
                }
            },
        }
    }
}

/// A target's depth is cleared by at most one pass a frame: a step clears it only if no
/// earlier step did, and the set of cleared targets only grows. A draw call is drawn only
/// in a pass into its own target.
pub proof fn law_depth_cleared_once(
    s: PassTrackerModel,
    target: RenderTargetHandle,
    target_state: Option<bool>,
)
    ensures
        ({
            let (next, step) = pass_step(s, target, target_state);
            &&& step.begin_pass == Some(true) ==> !s.cleared.contains(target.0)
            &&& step.begin_pass is Some ==> next.cleared.contains(target.0)
            &&& s.cleared.subset_of(next.cleared)
            &&& step.can_draw ==> next.current == Some(target) && next.open
        }),
{
    let (next, step) = pass_step(s, target, target_state);
    if s.current != Some(target) && target_state is Some {
        assert(s.cleared.subset_of(s.cleared.insert(target.0)));
    }
}

/// The size a growable GPU buffer of `current` bytes must be replaced with to take
/// `data_len` bytes: exactly `data_len` when it does not fit, else none (it is written in
/// place).
pub fn grown_size(current: usize, data_len: usize) -> (r: Option<usize>)
    ensures
        r == (if data_len > current {
            Some(data_len)
        } else {
            None::<usize>
        }),
{
    if data_len > current {
        Some(data_len)
    } else {
        None
    }
}

/// Which of the surface's formats (listed in its order, each marked whether it is
/// 8-bit RGBA or BGRA sRGB) the renderer takes: the first marked one, else the first one;
/// none when the surface has no format.
pub fn pick_surface_format(srgb_rgba8: &Vec<bool>) -> (r: Option<usize>)
    ensures
        srgb_rgba8.len() == 0 ==> r is None,
        srgb_rgba8.len() > 0 ==> (r matches Some(i) && i < srgb_rgba8.len() && (if exists|j: int|
            0 <= j < srgb_rgba8.len() && srgb_rgba8[j] {
            srgb_rgba8[i as int] && forall|j: int| 0 <= j < i ==> !srgb_rgba8[j]
        } else {
            i == 0
        })),
{
    if srgb_rgba8.len() == 0 {
        return None;
    }
    let mut i: usize = 0;
    while i < srgb_rgba8.len()
        invariant
            i <= srgb_rgba8.len(),
            forall|j: int| 0 <= j < i ==> !srgb_rgba8[j],
        decreases srgb_rgba8.len() - i,
    {
        if srgb_rgba8[i] {
            return Some(i);
        }
        i = i + 1;
    }
    Some(0)
}

/// A request that the window sends to the render task.
#[derive(Debug, Clone, Copy, PartialEq, Eq, Structural)]
pub enum FrameRequest {
    /// The window was resized to this width and height.
    Resize(u32, u32),
    /// The window closes: the render task ends.
    Close,
}

/// What the requests received before a frame ask for: the size to resize to (the last
/// one asked for) and whether to close.
#[derive(Debug, Clone, Copy)]
pub struct FrameRequests {
    pub new_size: Option<(u32, u32)>,
    pub close: bool,
}

/// The requests `reqs`, in the order they arrived, taken up to the first `Close` (after
/// which the render task reads no more): the last resize before it wins.
pub open spec fn fold_requests(reqs: Seq<FrameRequest>) -> FrameRequests
    decreases reqs.len(),
{
    if reqs.len() == 0 {
        FrameRequests { new_size: None, close: false }
    } else {
        let prev = fold_requests(reqs.drop_last());
        if prev.close {
            prev
        } else {
            match reqs.last() {
                FrameRequest::Resize(w, h) => FrameRequests { new_size: Some((w, h)), close: false },
                FrameRequest::Close => FrameRequests { close: true, ..prev },
            }
        }
    }
}

/// Folds the requests received before a frame (see `fold_requests`).
pub fn take_frame_requests(reqs: &Vec<FrameRequest>) -> (r: FrameRequests)
    ensures
        r == fold_requests(reqs@),
{
    let mut r = FrameRequests { new_size: None, close: false };
    let mut i: usize = 0;
    while i < reqs.len()
        invariant
            i <= reqs.len(),
            r == fold_requests(reqs@.take(i as int)),
        decreases reqs.len() - i,
    {
        assert(reqs@.take(i as int + 1).drop_last() =~= reqs@.take(i as int));
        if !r.close {
            match reqs[i] {
                FrameRequest::Resize(w, h) => {
                    r = FrameRequests { new_size: Some((w, h)), close: false };
                },
                FrameRequest::Close => {
                    r = FrameRequests { new_size: r.new_size, close: true };
                },
            }
        }
        i = i + 1;
    }
    assert(reqs@.take(reqs.len() as int) =~= reqs@);
    r
}

/// What the render task does in one turn of its loop.
#[derive(Debug, Clone, Copy)]
pub struct FramePlan {
    /// End the render task: no more frames.
    pub exit: bool,
    /// The window size that the game sees from now on.
    pub window_size: (u32, u32),
    /// The size to resize the surface to before drawing, if the window was resized.
    pub resize: Option<(u32, u32)>,
    /// Sleep instead of updating and drawing in this turn.
    pub pause: bool,
}

/// One turn of the render loop: the requests received since the last turn, the window
/// size the game saw so far and whether the game runs in the background decide whether
/// the task ends, which size the window has, whether the surface is resized and whether
/// the turn sleeps (see `should_pause_rendering`).
pub fn plan_frame(reqs: &Vec<FrameRequest>, window_size: (u32, u32), background_run_mode: bool) -> (p: FramePlan)
    ensures
        p.exit == fold_requests(reqs@).close,
        p.exit ==> p.resize is None && p.window_size == window_size && !p.pause,
        !p.exit ==> {
            &&& p.resize == fold_requests(reqs@).new_size
            &&& p.window_size == match p.resize {
                Some(s) => s,
                None => window_size,
            }
            &&& p.pause == (!background_run_mode && (p.window_size.0 <= 1 || p.window_size.1 <= 1))
        },
{
    let requests = take_frame_requests(reqs);
    if requests.close {
        return FramePlan { exit: true, window_size, resize: None, pause: false };
    }
    let size = match requests.new_size {
        Some(s) => s,
        None => window_size,
    };
    let pause = should_pause_rendering(background_run_mode, size.0, size.1);
    FramePlan { exit: false, window_size: size, resize: requests.new_size, pause }
}

} // verus!
