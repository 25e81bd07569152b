use hilen::redraw::{continuous_render_active, frame_pacing, Flow, Redraw, Visibility};

// Regression: a minimized window with a live animation used to keep the
// loop polling at full speed, drawing frames nobody could see.
#[test]
fn covered_window_holds_continuous_work() {
    assert_eq!(frame_pacing(Visibility::Covered, true, true), None);
    assert_eq!(frame_pacing(Visibility::Covered, false, true), None);
    assert_eq!(frame_pacing(Visibility::Covered, false, false), None);
}

// A screenshot of a covered window is drawn offscreen, so the request
// must still get its one frame, and only one, no polling.
#[test]
fn covered_window_still_answers_a_screenshot() {
    assert_eq!(frame_pacing(Visibility::CoveredScreenshot, true, true), Some(Flow::Wait));
    assert_eq!(frame_pacing(Visibility::CoveredScreenshot, false, false), Some(Flow::Wait));
}

#[test]
fn visible_window_paces_as_before() {
    assert_eq!(frame_pacing(Visibility::Visible, true, false), Some(Flow::Poll));
    assert_eq!(frame_pacing(Visibility::Visible, true, true), Some(Flow::Poll));
    assert_eq!(frame_pacing(Visibility::Visible, false, true), Some(Flow::Wait));
    assert_eq!(frame_pacing(Visibility::Visible, false, false), None);
}

#[test]
fn first_frame_is_pending_and_taken_once() {
    let mut redraw = Redraw::new();
    assert!(redraw.take_needs_render());
    assert!(!redraw.take_needs_render());
    assert!(!redraw.request_frame(true, false));
    assert!(redraw.take_needs_render());
    assert!(!redraw.take_needs_render());
}

#[test]
fn wake_is_sent_off_the_main_thread_and_on_ios() {
    let mut redraw = Redraw::new();
    assert!(redraw.request_frame(false, false));
    assert!(redraw.request_frame(true, true));
    assert!(!redraw.request_frame(true, false));
}

#[test]
fn occlusion_sets_visibility() {
    let mut redraw = Redraw::new();
    assert_eq!(redraw.visibility(true), Visibility::Visible);
    redraw.set_occluded(true);
    assert!(redraw.occluded());
    assert_eq!(redraw.visibility(false), Visibility::Covered);
    assert_eq!(redraw.visibility(true), Visibility::CoveredScreenshot);
    assert!(continuous_render_active(false, true));
    assert!(!continuous_render_active(false, false));
}
