use std::collections::HashMap;
use vstd::prelude::*;
use vstd::std_specs::iter::IteratorSpec;

verus! {

broadcast use vstd::std_specs::hash::group_hash_axioms;

/// A mouse button, as the windowing layer reports it.
#[derive(Debug, Clone, Copy, PartialEq, Eq, Structural)]
pub enum MouseButton {
    Left,
    Right,
    Middle,
    Back,
    Forward,
    Other(u16),
}

/// Whether a mouse button is held down.
#[derive(Debug, Clone, Copy, PartialEq, Eq, Structural)]
pub enum MouseButtonState {
    Pressed,
    Released,
}

/// The buttons whose state `MouseInput` keeps: left, right and middle.
pub open spec fn is_tracked(button: MouseButton) -> bool {
    button is Left || button is Right || button is Middle
}

/// Which mouse buttons are held in the current frame and were held in the previous one.
#[derive(Debug, Default)]
pub struct MouseInput {
    left_button_current: bool,
    right_button_current: bool,
    middle_button_current: bool,
    left_button_previous: bool,
    right_button_previous: bool,
    middle_button_previous: bool,
}

impl MouseInput {
    /// Whether `button` is held in the current frame (false for a button that is not kept).
    pub closed spec fn held(&self, button: MouseButton) -> bool {
        match button {
            MouseButton::Left => self.left_button_current,
            MouseButton::Right => self.right_button_current,
            MouseButton::Middle => self.middle_button_current,
            _ => false,
        }
    }

    /// Whether `button` was held in the previous frame (false for a button that is not kept).
    pub closed spec fn was_held(&self, button: MouseButton) -> bool {
        match button {
            MouseButton::Left => self.left_button_previous,
            MouseButton::Right => self.right_button_previous,
            MouseButton::Middle => self.middle_button_previous,
            _ => false,
        }
    }

    /// No button held, now or in the previous frame.
    pub fn new() -> (m: Self)
        ensures
            forall|b: MouseButton| !m.held(b) && !m.was_held(b),
    {
        MouseInput {
            left_button_current: false,
            right_button_current: false,
            middle_button_current: false,
            left_button_previous: false,
            right_button_previous: false,
            middle_button_previous: false,
        }
    }

    /// Starts a new frame: what is held now becomes what was held in the previous frame.
    /// Call it before the frame's button events are applied.
    pub fn begin_frame(&mut self)
        ensures
            forall|b: MouseButton|
                #![trigger final(self).held(b)]
                #![trigger final(self).was_held(b)]
                final(self).held(b) == old(self).held(b) && final(self).was_held(b) == old(
                    self,
                ).held(b),
            mouse_step(*old(self), *final(self), MouseCall::BeginFrame),
    {
        self.left_button_previous = self.left_button_current;
        self.right_button_previous = self.right_button_current;
        self.middle_button_previous = self.middle_button_current;
    }

    /// Whether `button` is held (as `GetMouseButton`).
    pub fn get_mouse_button(&self, button: MouseButton) -> (r: bool)
        ensures
            r == self.held(button),
    {
        match button {
            MouseButton::Left => self.left_button_current,
            MouseButton::Right => self.right_button_current,
            MouseButton::Middle => self.middle_button_current,
            _ => false,
        }
    }

    /// Whether `button` went down in this frame (as `GetMouseButtonDown`).
    pub fn get_mouse_button_down(&self, button: MouseButton) -> (r: bool)
        ensures
            r == (self.held(button) && !self.was_held(button)),
    {
        match button {
            MouseButton::Left => self.left_button_current && !self.left_button_previous,
            MouseButton::Right => self.right_button_current && !self.right_button_previous,
            MouseButton::Middle => self.middle_button_current && !self.middle_button_previous,
            _ => false,
        }
    }

    /// Whether `button` went up in this frame (as `GetMouseButtonUp`).
    pub fn get_mouse_button_up(&self, button: MouseButton) -> (r: bool)
        ensures
            r == (!self.held(button) && self.was_held(button)),
    {
        match button {
            MouseButton::Left => !self.left_button_current && self.left_button_previous,
            MouseButton::Right => !self.right_button_current && self.right_button_previous,
            MouseButton::Middle => !self.middle_button_current && self.middle_button_previous,
            _ => false,
        }
    }

    /// Applies a button event to the current frame; an event for a button that is not kept
    /// changes nothing.
    pub fn update_button_state(&mut self, button: MouseButton, state: MouseButtonState)
        ensures
            forall|b: MouseButton|
                #![trigger final(self).held(b)]
                #![trigger final(self).was_held(b)]
                final(self).was_held(b) == old(self).was_held(b) && final(self).held(b) == (if b
                    == button && is_tracked(button) {
                    state == MouseButtonState::Pressed
                } else {
                    old(self).held(b)
                }),
            mouse_step(*old(self), *final(self), MouseCall::Update(button, state)),
    {
        match button {
            MouseButton::Left => self.left_button_current = state == MouseButtonState::Pressed,
            MouseButton::Right => self.right_button_current = state == MouseButtonState::Pressed,
            MouseButton::Middle => self.middle_button_current = state == MouseButtonState::Pressed,
            _ => {},
        }
    }
}

/// One call that changes a `MouseInput`, as the law over sequences of calls sees it.
#[derive(Debug, Clone, Copy)]
pub enum MouseCall {
    BeginFrame,
    Update(MouseButton, MouseButtonState),
}

/// How the button states `before` and `after` one call are related, as that call's
/// contract states it.
pub open spec fn mouse_step(before: MouseInput, after: MouseInput, call: MouseCall) -> bool {
    match call {
        MouseCall::BeginFrame => forall|b: MouseButton|
            #![trigger after.held(b)]
            #![trigger after.was_held(b)]
            after.held(b) == before.held(b) && after.was_held(b) == before.held(b),
        MouseCall::Update(button, state) => forall|b: MouseButton|
            #![trigger after.held(b)]
            #![trigger after.was_held(b)]
            after.was_held(b) == before.was_held(b) && after.held(b) == (if b == button
                && is_tracked(button) {
                state == MouseButtonState::Pressed
            } else {
                before.held(b)
            }),
    }
}

/// `states` are the button states from `MouseInput::new()` on, one more than `calls`,
/// each call leading from one state to the next.
pub open spec fn mouse_run(states: Seq<MouseInput>, calls: Seq<MouseCall>) -> bool {
    &&& states.len() == calls.len() + 1
    &&& forall|b: MouseButton| !states[0].held(b) && !states[0].was_held(b)
    &&& forall|i: int| 0 <= i < calls.len() ==> #[trigger] mouse_step(states[i], states[i + 1], calls[i])
}

/// Whether the last of the first `n` calls that updates `button` (a button that is kept)
/// pressed it; false if there is none.
pub open spec fn last_update_pressed(calls: Seq<MouseCall>, n: int, button: MouseButton) -> bool
    decreases n,
{
    if n <= 0 {
        false
    } else {
        match calls[n - 1] {
            MouseCall::Update(b, state) if b == button && is_tracked(button) => state
                == MouseButtonState::Pressed,
            _ => last_update_pressed(calls, n - 1, button),
        }
    }
}

/// Over any sequence of calls from `new`, a button is held exactly when the last event
/// for it pressed it; `begin_frame` never changes that.
pub proof fn law_mouse_held_is_last_event(
    states: Seq<MouseInput>,
    calls: Seq<MouseCall>,
    n: int,
    button: MouseButton,
)
    requires
        mouse_run(states, calls),
        0 <= n <= calls.len(),
    ensures
        states[n].held(button) == last_update_pressed(calls, n, button),
    decreases n,
{
    if n > 0 {
        law_mouse_held_is_last_event(states, calls, n - 1, button);
        lemma_mouse_run_step(states, calls, n - 1);
    }
}

/// The call at `i` of a run leads from the state before it to the state after it.
proof fn lemma_mouse_run_step(states: Seq<MouseInput>, calls: Seq<MouseCall>, i: int)
    requires
        mouse_run(states, calls),
        0 <= i < calls.len(),
    ensures
        mouse_step(states[i], states[i + 1], calls[i]),
{
}

/// Only the left, right and middle buttons are ever reported held, pressed or released;
/// the others always read as up.
pub proof fn law_untracked_buttons_never_held(m: MouseInput, b: MouseButton)
    ensures
        !is_tracked(b) ==> !m.held(b) && !m.was_held(b),
{
}

/// A button never goes down and up in the same frame; right after `begin_frame` no button
/// goes down or up; and a button pressed in one frame and still held in the next goes
/// down in the first frame only.
pub proof fn law_mouse_edges(m: MouseInput, after_frame: MouseInput, b: MouseButton)
    requires
        forall|x: MouseButton|
            after_frame.held(x) == m.held(x) && after_frame.was_held(x) == m.held(x),
    ensures
        !((m.held(b) && !m.was_held(b)) && (!m.held(b) && m.was_held(b))),
        !(after_frame.held(b) && !after_frame.was_held(b)),
        !(!after_frame.held(b) && after_frame.was_held(b)),
        m.held(b) ==> after_frame.held(b) && after_frame.was_held(b),
{
}

/// How a touch event is also reported as a left-button event (a phone has no other
/// buttons): a touch that begins presses, one that ends or is cancelled releases; other
/// touch events are not passed on at all.
pub fn touch_as_mouse_state(phase: TouchPhase) -> (r: Option<MouseButtonState>)
    ensures
        r == match phase {
            TouchPhase::Began => Some(MouseButtonState::Pressed),
            TouchPhase::Ended | TouchPhase::Cancelled => Some(MouseButtonState::Released),
            _ => None::<MouseButtonState>,
        },
{
    match phase {
        TouchPhase::Began => Some(MouseButtonState::Pressed),
        TouchPhase::Ended | TouchPhase::Cancelled => Some(MouseButtonState::Released),
        _ => None,
    }
}

/// The size that a window resize is passed on with: each side at least 1.
pub fn clamp_window_size(width: u32, height: u32) -> (r: (u32, u32))
    ensures
        r.0 == if width < 1 { 1 } else { width },
        r.1 == if height < 1 { 1 } else { height },
{
    (if width < 1 { 1 } else { width }, if height < 1 { 1 } else { height })
}

/// Whether the render loop sleeps instead of drawing: the window is too small (a side of
/// at most one pixel, as when minimised) and the game does not ask to run in the
/// background.
pub fn should_pause_rendering(background_run_mode: bool, width: u32, height: u32) -> (r: bool)
    ensures
        r == (!background_run_mode && (width <= 1 || height <= 1)),
{
    !background_run_mode && (width <= 1 || height <= 1)
}

/// The stage of a touch in its life, as in Unity's `TouchPhase`.
#[derive(Debug, Clone, Copy, PartialEq, Eq, Structural)]
pub enum TouchPhase {
    /// The finger touched the screen in this frame.
    Began,
    /// The finger moved.
    Moved,
    /// The finger rests on the screen.
    Stationary,
    /// The finger left the screen.
    Ended,
    /// The system cancelled the touch.
    Cancelled,
}

/// One touch point. `P` is the position type that the windowing layer hands in; the
/// input logic only stores and copies positions.
#[derive(Debug, Clone, Copy)]
pub struct Touch<P> {
    /// The touch point's unique id.
    pub id: u64,
    /// The position in the current frame.
    pub pos: P,
    /// The position in the previous frame.
    pub prev_pos: P,
    pub phase: TouchPhase,
    /// A phase that arrived while the touch was still in its `Began` frame; it takes
    /// effect at the next frame.
    pub pending_phase: Option<TouchPhase>,
}

/// Whether a touch has ended its life (it is dropped at the next frame).
pub open spec fn is_finished<P>(t: Touch<P>) -> bool {
    t.phase == TouchPhase::Ended || t.phase == TouchPhase::Cancelled
}

/// A touch as `begin_frame` carries it into the next frame: the current position becomes
/// the previous one; a pending phase takes effect, else `Began` and `Moved` become
/// `Stationary`.
pub open spec fn next_frame<P>(t: Touch<P>) -> Touch<P> {
    Touch {
        prev_pos: t.pos,
        phase: match t.pending_phase {
            Some(p) => p,
            None => if t.phase == TouchPhase::Began || t.phase == TouchPhase::Moved {
                TouchPhase::Stationary
            } else {
                t.phase
            },
        },
        pending_phase: None,
        ..t
    }
}

/// A touch that the windowing layer reports again at `pos` in `phase`. A touch in its
/// `Began` frame keeps that phase and stores a different new phase as pending; any other
/// touch takes the new phase.
pub open spec fn touch_event<P>(t: Touch<P>, pos: P, phase: TouchPhase) -> Touch<P> {
    if t.phase == TouchPhase::Began {
        Touch {
            pos: pos,
            pending_phase: if phase != TouchPhase::Began {
                Some(phase)
            } else {
                t.pending_phase
            },
            ..t
        }
    } else {
        Touch { pos: pos, phase: phase, ..t }
    }
}

/// A touch seen for the first time: it always begins, at `pos`, with no history.
pub open spec fn new_touch<P>(id: u64, pos: P) -> Touch<P> {
    Touch { id, pos, prev_pos: pos, phase: TouchPhase::Began, pending_phase: None }
}

/// The active touch points, keyed by touch id.
#[derive(Debug)]
pub struct TouchInput<P> {
    active_touches: HashMap<u64, Touch<P>>,
}

/// Whether a map of touches holds finitely many, each under its own id.
pub open spec fn keyed_by_id<P>(m: Map<u64, Touch<P>>) -> bool {
    &&& m.dom().finite()
    &&& forall|k: u64| #[trigger] m.contains_key(k) ==> m[k].id == k
}

impl<P> TouchInput<P> {
    #[verifier::type_invariant]
    spec fn inv(&self) -> bool {
        keyed_by_id(self.active_touches@)
    }
}

impl<P> View for TouchInput<P> {
    type V = Map<u64, Touch<P>>;

    closed spec fn view(&self) -> Map<u64, Touch<P>> {
        self.active_touches@
    }
}

impl<P: Copy> TouchInput<P> {
    /// No active touch.
    pub fn new() -> (t: Self)
        ensures
            t@ == Map::<u64, Touch<P>>::empty(),
            keyed_by_id(t@),
    {
        TouchInput { active_touches: HashMap::new() }
    }

    /// Starts a new frame: drops the touches that ended or were cancelled and carries the
    /// others into the frame with `next_frame`.
    pub fn begin_frame(&mut self)
        ensures
            final(self)@ == Map::new(
                |id: u64| old(self)@.contains_key(id) && !is_finished(old(self)@[id]),
                |id: u64| next_frame(old(self)@[id]),
            ),
            keyed_by_id(final(self)@),
    {
        proof {
            use_type_invariant(&*self);
        }
        let mut ids: Vec<u64> = Vec::new();
        let ghost keys = self.active_touches.keys().remaining();
        for k in it: self.active_touches.keys()
            invariant
                it.seq() == keys,
                ids.len() == it.index(),
                forall|i: int| 0 <= i < ids.len() ==> ids[i] == *keys[i],
        {
            ids.push(*k);
        }
        let mut touches: HashMap<u64, Touch<P>> = HashMap::new();
        std::mem::swap(&mut touches, &mut self.active_touches);
        let ghost old_map = touches@;
        proof {
            assert(keys.len() == ids.len());
            assert forall|i: int, j: int| 0 <= i < j < ids.len() implies ids[i] != ids[j] by {
                assert(keys.no_duplicates());
                if ids[i] == ids[j] {
                    assert(keys[i] == keys[j]);
                }
            }
            assert forall|id: u64| old_map.contains_key(id) implies ids@.contains(id) by {
                assert(keys.unref().to_set().contains(id));
                let i = choose|i: int| 0 <= i < keys.len() && keys.unref()[i] == id;
                assert(ids[i] == id);
            }
            assert forall|i: int| 0 <= i < ids.len() implies old_map.contains_key(#[trigger] ids[i]) by {
                assert(keys.unref().contains(keys.unref()[i]));
                assert(keys.unref().to_set().contains(keys.unref()[i]));
            }
        }
        let mut i: usize = 0;
        while i < ids.len()
            invariant
                i <= ids.len(),
                keyed_by_id(old_map),
                keyed_by_id(touches@),
                forall|a: int, b: int| 0 <= a < b < ids.len() ==> ids[a] != ids[b],
                forall|id: u64| old_map.contains_key(id) ==> ids@.contains(id),
                forall|a: int| 0 <= a < ids.len() ==> old_map.contains_key(#[trigger] ids[a]),
                forall|id: u64|
                    !old_map.contains_key(id) ==> !#[trigger] touches@.contains_key(
                        id,
                    ),
                forall|a: int|
                    #![trigger ids[a]]
                    0 <= a < i ==> (touches@.contains_key(ids[a]) <==> !is_finished(
                        old_map[ids[a]],
                    )) && (touches@.contains_key(ids[a])
                        ==> touches@[ids[a]] == next_frame(old_map[ids[a]])),
                forall|a: int|
                    #![trigger ids[a]]
                    i <= a < ids.len() ==> touches@.contains_key(ids[a])
                        && touches@[ids[a]] == old_map[ids[a]],
            decreases ids.len() - i,
        {
            let id = ids[i];
            let touch: Touch<P> = *touches.get(&id).unwrap();
            if touch.phase == TouchPhase::Ended || touch.phase == TouchPhase::Cancelled {
                touches.remove(&id);
            } else {
                let phase = match touch.pending_phase {
                    Some(p) => p,
                    None => if touch.phase == TouchPhase::Began || touch.phase
                        == TouchPhase::Moved {
                        TouchPhase::Stationary
                    } else {
                        touch.phase
                    },
                };
                let carried = Touch {
                    id: touch.id,
                    pos: touch.pos,
                    prev_pos: touch.pos,
                    phase,
                    pending_phase: None,
                };
                touches.insert(id, carried);
            }
            i = i + 1;
        }
        proof {
            let target = Map::new(
                |id: u64| old_map.contains_key(id) && !is_finished(old_map[id]),
                |id: u64| next_frame(old_map[id]),
            );
            assert forall|id: u64| #[trigger] old_map.contains_key(id) implies (
            touches@.contains_key(id) == target.contains_key(id) && (
            target.contains_key(id) ==> touches@[id] == target[id])) by {
                assert(ids@.contains(id));
                let a = choose|a: int| 0 <= a < ids.len() && ids[a] == id;
                assert(ids[a] == id);
            }
            assert(touches@ =~= target);
        }
        self.active_touches = touches;
    }

    /// Applies a touch event: a new id begins at `pos`; a known one is updated with
    /// `touch_event`.
    pub fn update_touch_event(&mut self, id: u64, pos: P, phase: TouchPhase)
        ensures
            final(self)@ == old(self)@.insert(
                id,
                if old(self)@.contains_key(id) {
                    touch_event(old(self)@[id], pos, phase)
                } else {
                    new_touch(id, pos)
                },
            ),
            keyed_by_id(final(self)@),
            final(self)@.len() <= old(self)@.len() + 1,
    {
        proof {
            use_type_invariant(&*self);
        }
        let mut touches: HashMap<u64, Touch<P>> = HashMap::new();
        std::mem::swap(&mut touches, &mut self.active_touches);
        if !touches.contains_key(&id) {
            touches.insert(
                id,
                Touch { id, pos, prev_pos: pos, phase: TouchPhase::Began, pending_phase: None },
            );
            self.active_touches = touches;
            return ;
        }
        let touch: Touch<P> = *touches.get(&id).unwrap();
        let updated = if touch.phase == TouchPhase::Began {
            let pending = if phase != TouchPhase::Began {
                Some(phase)
            } else {
                touch.pending_phase
            };
            Touch {
                id: touch.id,
                pos,
                prev_pos: touch.prev_pos,
                phase: touch.phase,
                pending_phase: pending,
            }
        } else {
            Touch {
                id: touch.id,
                pos,
                prev_pos: touch.prev_pos,
                phase,
                pending_phase: touch.pending_phase,
            }
        };
        touches.insert(id, updated);
        self.active_touches = touches;
    }

    /// Every active touch once, in the map's internal order (as Unity's `Input.touches`).
    pub fn get_touches(&self) -> (touches: Vec<&Touch<P>>)
        ensures
            exists|ids: Seq<u64>|
                {
                    &&& ids.len() == touches.len()
                    &&& ids.len() == self@.len()
                    &&& ids.no_duplicates()
                    &&& ids.to_set() == self@.dom()
                    &&& forall|i: int|
                        0 <= i < ids.len() ==> *touches[i] == self@[#[trigger] ids[i]]
                },
            forall|i: int, j: int|
                0 <= i < j < touches.len() ==> #[trigger] touches[i].id != #[trigger] touches[j].id,
            forall|i: int|
                0 <= i < touches.len() ==> self@.contains_key(#[trigger] touches[i].id)
                    && self@[touches[i].id] == *touches[i],
    {
        proof {
            use_type_invariant(self);
        }
        let mut out: Vec<&Touch<P>> = Vec::new();
        let ghost all = self.active_touches.iter().remaining();
        for pair in it: self.active_touches.iter()
            invariant
                it.seq() == all,
                out.len() == it.index(),
                forall|i: int| #![trigger out[i]] 0 <= i < out.len() ==> out[i] == all[i].1,
        {
            let (_, t) = pair;
            out.push(t);
        }
        let ghost ids = all.map_values(|e: (&u64, &Touch<P>)| *e.0);
        proof {
            assert(all.no_duplicates());
            assert forall|i: int, j: int|
                0 <= i < ids.len() && 0 <= j < ids.len() && i != j implies ids[i] != ids[j] by {
                if ids[i] == ids[j] {
                    assert(self@.contains_key(*all[i].0));
                    assert(self@.contains_key(*all[j].0));
                    assert(all[i] == all[j]);
                }
            }
            assert forall|id: u64| #[trigger] self@.contains_key(id) implies ids.contains(id) by {
                assert(all.contains((&id, &self@[id])));
                let i = choose|i: int| 0 <= i < all.len() && all[i] == (&id, &self@[id]);
                assert(ids[i] == id);
            }
            assert forall|id: u64| #[trigger] ids.contains(id) implies self@.contains_key(id) by {
                let i = choose|i: int| 0 <= i < ids.len() && ids[i] == id;
                assert(self@.contains_key(*all[i].0));
            }
            assert(ids.to_set() =~= self@.dom());
            assert forall|i: int| 0 <= i < ids.len() implies *out[i] == self@[#[trigger] ids[i]] by {
                assert(self@.contains_key(*all[i].0) && self@[*all[i].0] == *all[i].1);
            }
            assert forall|i: int| 0 <= i < out.len() implies self@.contains_key(#[trigger] out[i].id)
                && self@[out[i].id] == *out[i] by {
                assert(*out[i] == self@[ids[i]]);
                assert(self@.contains_key(ids[i]));
            }
            assert forall|i: int, j: int| 0 <= i < j < out.len() implies #[trigger] out[i].id
                != #[trigger] out[j].id by {
                assert(*out[i] == self@[ids[i]] && *out[j] == self@[ids[j]]);
                assert(ids[i] != ids[j]);
                assert(self@.contains_key(ids[i]) && self@.contains_key(ids[j]));
            }
        }
        out
    }

    /// The touch with this id, if it is active.
    pub fn get_touch_by_id(&self, id: u64) -> (t: Option<&Touch<P>>)
        ensures
            t == (if self@.contains_key(id) {
                Some(&self@[id])
            } else {
                None
            }),
            t matches Some(x) ==> x.id == id,
    {
        proof {
            use_type_invariant(self);
        }
        self.active_touches.get(&id)
    }

    /// The number of active touches.
    pub fn get_touch_count(&self) -> (n: usize)
        ensures
            n == self@.len(),
    {
        self.active_touches.len()
    }
}

/// A touch seen for the first time begins; its `Began` phase is never overwritten
/// within that frame; at the next frame it takes the phase that arrived meanwhile (or
/// rests), so a tap that begins and ends within one frame shows `Began` for a frame and
/// `Ended` for the next; and a touch that has ended is carried no further.
pub proof fn law_touch_lifecycle<P>(id: u64, pos: P, t: Touch<P>, pos2: P, phase: TouchPhase)
    ensures
        new_touch(id, pos).phase == TouchPhase::Began,
        t.phase == TouchPhase::Began ==> touch_event(t, pos2, phase).phase == TouchPhase::Began,
        t.phase != TouchPhase::Began ==> touch_event(t, pos2, phase).phase == phase,
        t.phase == TouchPhase::Began && phase != TouchPhase::Began ==> next_frame(
            touch_event(t, pos2, phase),
        ).phase == phase,
        next_frame(touch_event(new_touch(id, pos), pos2, TouchPhase::Ended)).phase
            == TouchPhase::Ended,
        is_finished(next_frame(touch_event(new_touch(id, pos), pos2, TouchPhase::Ended))),
        next_frame(t).pending_phase is None,
        next_frame(t).prev_pos == t.pos,
{
}

} // verus!
