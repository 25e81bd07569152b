use hilen::window::{refresh_rate_hz, FrameSettings, PresentMode};

#[test]
fn new_settings_sync_and_keep_two_frames() {
    let s = FrameSettings::new();
    assert!(!s.quit_on_escape());
    assert_eq!(s.render_frame(), 0);
    assert_eq!(s.max_frame_latency, 2);
    assert_eq!(s.present_mode(false), PresentMode::AutoVsync);
}

#[test]
fn switches_change_only_themselves() {
    let mut s = FrameSettings::new();
    s.set_quit_on_escape(true);
    s.set_vsync(false);
    s.set_max_frame_latency(3);
    assert!(s.quit_on_escape());
    assert!(!s.vsync);
    assert_eq!(s.max_frame_latency, 3);
    assert_eq!(s.present_mode(false), PresentMode::AutoNoVsync);
    assert_eq!(s.present_mode(true), PresentMode::AutoVsync);
}

#[test]
fn frame_counter_counts_and_wraps() {
    let mut s = FrameSettings::new();
    s.next_render_frame();
    s.next_render_frame();
    assert_eq!(s.render_frame(), 2);
    s.render_frame = u64::MAX;
    s.next_render_frame();
    assert_eq!(s.render_frame(), 0);
}

#[test]
fn title_prefix_goes_in_front_of_the_stats() {
    let mut s = FrameSettings::new();
    assert_eq!(s.stats_title("60 fps"), "60 fps");
    s.set_title_prefix("Press space".to_string());
    assert_eq!(s.stats_title("60 fps"), "Press space | 60 fps");
    assert!(s.vsync);
    s.set_vsync(false);
    s.set_quit_on_escape(true);
    s.set_max_frame_latency(1);
    s.next_render_frame();
    assert_eq!(s.stats_title("60 fps"), "Press space | 60 fps");
}

#[test]
fn refresh_rate_falls_back_to_sixty() {
    assert_eq!(refresh_rate_hz(None), 60);
    assert_eq!(refresh_rate_hz(Some(None)), 60);
    assert_eq!(refresh_rate_hz(Some(Some(143_999))), 143);
    assert_eq!(refresh_rate_hz(Some(Some(60_000))), 60);
}
