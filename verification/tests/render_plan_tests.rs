use unm::render_plan::{
    grown_size, pick_surface_format, plan_frame, take_frame_requests, FrameRequest, PassStep, PassTracker,
};
use unm::render_target::RenderTargetHandle;

fn step(end_pass: bool, begin_pass: Option<bool>, can_draw: bool) -> PassStep {
    PassStep { end_pass, begin_pass, can_draw }
}

#[test]
fn passes_follow_render_targets() {
    let a = RenderTargetHandle(1);
    let b = RenderTargetHandle(2);
    let mut t = PassTracker::new();
    // first draw into a: new pass, depth cleared
    assert_eq!(t.step(a, Some(true)), step(true, Some(true), true));
    // same target: drawn in the open pass
    assert_eq!(t.step(a, Some(true)), step(false, None, true));
    // another target: new pass, its depth cleared
    assert_eq!(t.step(b, Some(true)), step(true, Some(true), true));
    // back to a: new pass, depth kept
    assert_eq!(t.step(a, Some(true)), step(true, Some(false), true));
}

#[test]
fn missing_targets_and_depth_skip_draws() {
    let a = RenderTargetHandle(1);
    let b = RenderTargetHandle(2);
    let mut t = PassTracker::new();
    assert_eq!(t.step(a, Some(true)), step(true, Some(true), true));
    // b is not registered: the pass ends and nothing is drawn
    assert_eq!(t.step(b, None), step(true, None, false));
    assert_eq!(t.step(b, None), step(true, None, false));
    // a target without depth counts as cleared but gets no pass
    assert_eq!(t.step(b, Some(false)), step(true, None, false));
    assert_eq!(t.step(b, Some(true)), step(true, Some(false), true));
}

#[test]
fn buffers_grow_to_the_data() {
    assert_eq!(grown_size(1024, 100), None);
    assert_eq!(grown_size(1024, 1024), None);
    assert_eq!(grown_size(1024, 1025), Some(1025));
}

#[test]
fn surface_format_prefers_srgb() {
    assert_eq!(pick_surface_format(&vec![]), None);
    assert_eq!(pick_surface_format(&vec![false, false]), Some(0));
    assert_eq!(pick_surface_format(&vec![false, true, true]), Some(1));
    assert_eq!(pick_surface_format(&vec![true]), Some(0));
}

#[test]
fn last_resize_before_a_frame_wins() {
    let r = take_frame_requests(&vec![FrameRequest::Resize(10, 20), FrameRequest::Resize(30, 40)]);
    assert_eq!(r.new_size, Some((30, 40)));
    assert!(!r.close);
    let none = take_frame_requests(&Vec::new());
    assert_eq!(none.new_size, None);
    assert!(!none.close);
}

#[test]
fn close_ends_the_requests_read() {
    let r = take_frame_requests(&vec![
        FrameRequest::Resize(10, 20),
        FrameRequest::Close,
        FrameRequest::Resize(30, 40),
    ]);
    assert!(r.close);
    assert_eq!(r.new_size, Some((10, 20)));
}

#[test]
fn frame_plan_resizes_pauses_and_exits() {
    let p = plan_frame(&vec![FrameRequest::Resize(800, 600)], (1, 1), false);
    assert!(!p.exit && !p.pause);
    assert_eq!(p.window_size, (800, 600));
    assert_eq!(p.resize, Some((800, 600)));
    let p = plan_frame(&vec![FrameRequest::Resize(1, 600)], (800, 600), false);
    assert!(p.pause);
    assert_eq!(p.window_size, (1, 600));
    let p = plan_frame(&vec![FrameRequest::Resize(1, 600)], (800, 600), true);
    assert!(!p.pause);
    let p = plan_frame(&Vec::new(), (640, 480), false);
    assert_eq!((p.exit, p.pause, p.resize, p.window_size), (false, false, None, (640, 480)));
    let p = plan_frame(&vec![FrameRequest::Resize(2, 2), FrameRequest::Close], (640, 480), false);
    assert!(p.exit);
}
