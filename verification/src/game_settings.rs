use crate::graphics::msaa_change;
use crate::msaa::Msaa;
use vstd::prelude::*;

verus! {

/// The settings that a game changes while it runs. `E` is the channel to the window
/// thread (window title, fullscreen, size and icon requests go through it).
pub struct GameSettings<E> {
    event_loop: E,
    target_fps: i32,
    background_run_mode: bool,
    current_window_size: (u32, u32),
    msaa: Msaa,
    new_msaa: Option<Msaa>,
}

/// The settings as plain values.
pub struct GameSettingsModel {
    pub target_fps: i32,
    pub background_run_mode: bool,
    pub current_window_size: (u32, u32),
    pub msaa: Msaa,
    pub new_msaa: Option<Msaa>,
}

impl<E> View for GameSettings<E> {
    type V = GameSettingsModel;

    closed spec fn view(&self) -> GameSettingsModel {
        GameSettingsModel {
            target_fps: self.target_fps,
            background_run_mode: self.background_run_mode,
            current_window_size: self.current_window_size,
            msaa: self.msaa,
            new_msaa: self.new_msaa,
        }
    }
}

impl<E> GameSettings<E> {
    /// The channel to the window thread.
    pub closed spec fn channel(&self) -> E {
        self.event_loop
    }

    /// The settings a game starts with: frame rate following the display, no rendering in
    /// the background, a 1 by 1 window until the first resize, and 4× MSAA, asked for so
    /// that the renderer switches to it after the first frame.
    pub fn new(event_loop: E) -> (s: Self)
        ensures
            s.channel() == event_loop,
            s@ == (GameSettingsModel {
                target_fps: 0,
                background_run_mode: false,
                current_window_size: (1, 1),
                msaa: Msaa::Sample4,
                new_msaa: Some(Msaa::Sample4),
            }),
    {
        GameSettings {
            target_fps: 0,
            event_loop,
            background_run_mode: false,
            current_window_size: (1, 1),
            msaa: Msaa::Sample4,
            new_msaa: Some(Msaa::Sample4),
        }
    }

    /// The channel to the window thread.
    pub fn event_loop(&self) -> (e: &E)
        ensures
            *e == self.channel(),
    {
        &self.event_loop
    }

    /// Sets the target frame rate; at most zero follows the display's refresh rate.
    pub fn set_target_fps(&mut self, new_target_fps: i32)
        ensures
            final(self)@ == (GameSettingsModel { target_fps: new_target_fps, ..old(self)@ }),
            final(self).channel() == old(self).channel(),
    {
        self.target_fps = new_target_fps;
    }

    /// Whether the game keeps rendering while its window is minimised.
    pub fn set_background_run_mode(&mut self, background_run_mode: bool)
        ensures
            final(self)@ == (GameSettingsModel { background_run_mode, ..old(self)@ }),
            final(self).channel() == old(self).channel(),
    {
        self.background_run_mode = background_run_mode;
    }

    /// Asks for another MSAA level; the renderer switches at the end of the frame.
    pub fn set_msaa(&mut self, msaa: Msaa)
        ensures
            final(self)@ == (GameSettingsModel { new_msaa: Some(msaa), ..old(self)@ }),
            final(self).channel() == old(self).channel(),
    {
        self.new_msaa = Some(msaa);
    }

    /// Records the window's new size.
    pub fn set_window_size(&mut self, width: u32, height: u32)
        ensures
            final(self)@ == (GameSettingsModel { current_window_size: (width, height), ..old(self)@ }),
            final(self).channel() == old(self).channel(),
    {
        self.current_window_size = (width, height);
    }

    /// The target frame rate (at most zero: the display's).
    pub fn get_target_fps(&self) -> (n: i32)
        ensures
            n == self@.target_fps,
    {
        self.target_fps
    }

    /// Whether the game keeps rendering while its window is minimised.
    pub fn get_background_run_mode(&self) -> (b: bool)
        ensures
            b == self@.background_run_mode,
    {
        self.background_run_mode
    }

    /// The window's size (width, height) as last reported.
    pub fn get_window_size(&self) -> (size: (u32, u32))
        ensures
            size == self@.current_window_size,
    {
        self.current_window_size
    }

    /// The MSAA level in use.
    pub fn get_msaa(&self) -> (m: Msaa)
        ensures
            m == self@.msaa,
    {
        self.msaa
    }

    /// The end-of-frame hand-over of an MSAA request to a renderer at `renderer_msaa`:
    /// returns the level the renderer must switch to (see `msaa_change`), which the
    /// settings then record as in use; the request is consumed either way.
    pub fn take_msaa_request(&mut self, renderer_msaa: Msaa) -> (change: Option<Msaa>)
        ensures
            change == msaa_change_spec(renderer_msaa, old(self)@.new_msaa),
            final(self)@ == (GameSettingsModel {
                msaa: match change {
                    Some(m) => m,
                    None => old(self)@.msaa,
                },
                new_msaa: None,
                ..old(self)@
            }),
            final(self).channel() == old(self).channel(),
    {
        let change = msaa_change(renderer_msaa, self.new_msaa);
        if let Some(m) = change {
            self.msaa = m;
        }
        self.new_msaa = None;
        change
    }
}

/// The MSAA level a renderer at `current` must switch to for `requested`: the requested
/// level if it differs.
pub open spec fn msaa_change_spec(current: Msaa, requested: Option<Msaa>) -> Option<Msaa> {
    match requested {
        Some(m) => if m == current {
            None
        } else {
            Some(m)
        },
        None => None,
    }
}

/// An MSAA level asked for is in use once the frame ends, whether the renderer had to
/// switch or was already at it, and the request is gone.
pub proof fn law_msaa_request_applied(s: GameSettingsModel, asked: Msaa, renderer_msaa: Msaa)
    requires
        s.msaa == renderer_msaa,
    ensures
        ({
            let after_set = GameSettingsModel { new_msaa: Some(asked), ..s };
            let change = msaa_change_spec(renderer_msaa, after_set.new_msaa);
            let msaa = match change {
                Some(m) => m,
                None => after_set.msaa,
            };
            &&& msaa == asked
            &&& (change is Some <==> asked != renderer_msaa)
        }),
{
}

} // verus!
