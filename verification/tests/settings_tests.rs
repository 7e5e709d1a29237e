use unm::msaa::Msaa;
use unm::resolution::Resolution;

#[test]
fn resolution_sides() {
    let r = Resolution::Physical(800, 600);
    assert_eq!(r.width(), 800);
    assert_eq!(r.height(), 600);
    let l = Resolution::Logical(1024, 768);
    assert_eq!(l.width(), 1024);
    assert_eq!(l.height(), 768);
}

#[test]
fn ensure_non_zero_keeps_kind() {
    let mut r = Resolution::Physical(0, 600);
    assert_eq!(r.ensure_non_zero(), Resolution::Physical(1, 1));
    assert_eq!(r, Resolution::Physical(1, 1));
    let mut l = Resolution::Logical(640, 0);
    assert_eq!(l.ensure_non_zero(), Resolution::Logical(1, 1));
    let mut ok = Resolution::Logical(640, 480);
    assert_eq!(ok.ensure_non_zero(), Resolution::Logical(640, 480));
    assert_eq!(ok.ensure_non_zero(), Resolution::Logical(640, 480));
}

#[test]
fn msaa_sample_counts() {
    assert_eq!(u32::from(Msaa::Off), 1);
    assert_eq!(u32::from(Msaa::Sample2), 2);
    assert_eq!(u32::from(Msaa::Sample4), 4);
    assert_eq!(u32::from(Msaa::Sample8), 8);
    assert_eq!(Msaa::default(), Msaa::Sample4);
}

use unm::game_settings::GameSettings;

#[test]
fn game_settings_start_values() {
    let s = GameSettings::new("proxy");
    assert_eq!(*s.event_loop(), "proxy");
    assert_eq!(s.get_target_fps(), 0);
    assert!(!s.get_background_run_mode());
    assert_eq!(s.get_window_size(), (1, 1));
    assert_eq!(s.get_msaa(), Msaa::Sample4);
}

#[test]
fn game_settings_setters() {
    let mut s = GameSettings::new(());
    s.set_target_fps(120);
    s.set_background_run_mode(true);
    s.set_window_size(800, 600);
    assert_eq!(s.get_target_fps(), 120);
    assert!(s.get_background_run_mode());
    assert_eq!(s.get_window_size(), (800, 600));
}

#[test]
fn msaa_request_is_applied_at_frame_end() {
    let mut s = GameSettings::new(());
    // the first frame switches a renderer at Off to the default 4x
    assert_eq!(s.take_msaa_request(Msaa::Off), Some(Msaa::Sample4));
    assert_eq!(s.get_msaa(), Msaa::Sample4);
    assert_eq!(s.take_msaa_request(Msaa::Sample4), None);
    s.set_msaa(Msaa::Sample8);
    assert_eq!(s.get_msaa(), Msaa::Sample4);
    assert_eq!(s.take_msaa_request(Msaa::Sample4), Some(Msaa::Sample8));
    assert_eq!(s.get_msaa(), Msaa::Sample8);
    s.set_msaa(Msaa::Sample8);
    assert_eq!(s.take_msaa_request(Msaa::Sample8), None);
    assert_eq!(s.get_msaa(), Msaa::Sample8);
}
