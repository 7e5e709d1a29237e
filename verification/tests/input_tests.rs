use unm::input::{
    clamp_window_size, should_pause_rendering, touch_as_mouse_state, MouseButton,
    MouseButtonState, MouseInput, TouchInput, TouchPhase,
};

#[test]
fn mouse_button_down_then_held_then_up() {
    let mut m = MouseInput::new();
    assert!(!m.get_mouse_button(MouseButton::Left));
    m.begin_frame();
    m.update_button_state(MouseButton::Left, MouseButtonState::Pressed);
    assert!(m.get_mouse_button(MouseButton::Left));
    assert!(m.get_mouse_button_down(MouseButton::Left));
    assert!(!m.get_mouse_button_up(MouseButton::Left));
    m.begin_frame();
    assert!(m.get_mouse_button(MouseButton::Left));
    assert!(!m.get_mouse_button_down(MouseButton::Left));
    assert!(!m.get_mouse_button_up(MouseButton::Left));
    m.begin_frame();
    m.update_button_state(MouseButton::Left, MouseButtonState::Released);
    assert!(!m.get_mouse_button(MouseButton::Left));
    assert!(m.get_mouse_button_up(MouseButton::Left));
    assert!(!m.get_mouse_button_down(MouseButton::Left));
    m.begin_frame();
    assert!(!m.get_mouse_button_up(MouseButton::Left));
}

#[test]
fn buttons_are_independent_and_others_ignored() {
    let mut m = MouseInput::new();
    m.update_button_state(MouseButton::Right, MouseButtonState::Pressed);
    m.update_button_state(MouseButton::Back, MouseButtonState::Pressed);
    m.update_button_state(MouseButton::Other(7), MouseButtonState::Pressed);
    assert!(m.get_mouse_button(MouseButton::Right));
    assert!(!m.get_mouse_button(MouseButton::Left));
    assert!(!m.get_mouse_button(MouseButton::Middle));
    assert!(!m.get_mouse_button(MouseButton::Back));
    assert!(!m.get_mouse_button_down(MouseButton::Other(7)));
}

#[test]
fn touch_maps_to_left_button_events() {
    assert_eq!(touch_as_mouse_state(TouchPhase::Began), Some(MouseButtonState::Pressed));
    assert_eq!(touch_as_mouse_state(TouchPhase::Ended), Some(MouseButtonState::Released));
    assert_eq!(touch_as_mouse_state(TouchPhase::Cancelled), Some(MouseButtonState::Released));
    assert_eq!(touch_as_mouse_state(TouchPhase::Moved), None);
    assert_eq!(touch_as_mouse_state(TouchPhase::Stationary), None);
}

#[test]
fn window_size_helpers() {
    assert_eq!(clamp_window_size(0, 0), (1, 1));
    assert_eq!(clamp_window_size(800, 0), (800, 1));
    assert_eq!(clamp_window_size(640, 480), (640, 480));
    assert!(should_pause_rendering(false, 1, 600));
    assert!(should_pause_rendering(false, 0, 0));
    assert!(!should_pause_rendering(true, 0, 0));
    assert!(!should_pause_rendering(false, 2, 2));
}

#[test]
fn touch_begins_then_rests() {
    let mut t: TouchInput<(i32, i32)> = TouchInput::new();
    assert_eq!(t.get_touch_count(), 0);
    t.update_touch_event(7, (10, 20), TouchPhase::Moved);
    let touch = *t.get_touch_by_id(7).unwrap();
    assert_eq!(touch.phase, TouchPhase::Began);
    assert_eq!(touch.pos, (10, 20));
    assert_eq!(touch.prev_pos, (10, 20));
    t.begin_frame();
    let touch = *t.get_touch_by_id(7).unwrap();
    assert_eq!(touch.phase, TouchPhase::Stationary);
    t.update_touch_event(7, (12, 20), TouchPhase::Moved);
    let touch = *t.get_touch_by_id(7).unwrap();
    assert_eq!(touch.phase, TouchPhase::Moved);
    assert_eq!(touch.pos, (12, 20));
    assert_eq!(touch.prev_pos, (10, 20));
    t.begin_frame();
    let touch = *t.get_touch_by_id(7).unwrap();
    assert_eq!(touch.phase, TouchPhase::Stationary);
    assert_eq!(touch.prev_pos, (12, 20));
}

#[test]
fn tap_within_one_frame_shows_began_then_ended() {
    let mut t: TouchInput<(i32, i32)> = TouchInput::new();
    t.update_touch_event(1, (0, 0), TouchPhase::Began);
    t.update_touch_event(1, (1, 1), TouchPhase::Ended);
    let touch = *t.get_touch_by_id(1).unwrap();
    assert_eq!(touch.phase, TouchPhase::Began);
    assert_eq!(touch.pending_phase, Some(TouchPhase::Ended));
    assert_eq!(touch.pos, (1, 1));
    t.begin_frame();
    let touch = *t.get_touch_by_id(1).unwrap();
    assert_eq!(touch.phase, TouchPhase::Ended);
    assert_eq!(touch.pending_phase, None);
    t.begin_frame();
    assert!(t.get_touch_by_id(1).is_none());
    assert_eq!(t.get_touch_count(), 0);
}

#[test]
fn several_touches_are_listed_once() {
    let mut t: TouchInput<u8> = TouchInput::new();
    t.update_touch_event(3, 30, TouchPhase::Began);
    t.update_touch_event(4, 40, TouchPhase::Began);
    t.update_touch_event(5, 50, TouchPhase::Began);
    t.update_touch_event(4, 41, TouchPhase::Cancelled);
    assert_eq!(t.get_touch_count(), 3);
    let mut ids: Vec<u64> = t.get_touches().iter().map(|x| x.id).collect();
    ids.sort();
    assert_eq!(ids, vec![3, 4, 5]);
    t.begin_frame();
    t.begin_frame();
    let mut ids: Vec<u64> = t.get_touches().iter().map(|x| x.id).collect();
    ids.sort();
    assert_eq!(ids, vec![3, 5]);
}

#[test]
fn held_state_follows_the_last_event_across_frames() {
    let mut m = MouseInput::new();
    m.update_button_state(MouseButton::Right, MouseButtonState::Pressed);
    m.begin_frame();
    assert!(m.get_mouse_button(MouseButton::Right));
    m.update_button_state(MouseButton::Right, MouseButtonState::Released);
    m.update_button_state(MouseButton::Right, MouseButtonState::Pressed);
    m.begin_frame();
    m.begin_frame();
    assert!(m.get_mouse_button(MouseButton::Right));
    m.update_button_state(MouseButton::Right, MouseButtonState::Released);
    assert!(!m.get_mouse_button(MouseButton::Right));
    assert!(!m.get_mouse_button(MouseButton::Left));
}
