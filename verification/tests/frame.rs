use hilen::frame::{frame_plan, target_action, FramePlan, ReadSource, SurfaceStatus, TargetAction};

#[test]
fn the_surface_status_picks_the_target() {
    assert_eq!(target_action(SurfaceStatus::Headless), TargetAction::Offscreen);
    assert_eq!(target_action(SurfaceStatus::NoSurface), TargetAction::Skip);
    assert_eq!(target_action(SurfaceStatus::Success), TargetAction::Surface);
    assert_eq!(target_action(SurfaceStatus::Occluded), TargetAction::Skip);
    assert_eq!(target_action(SurfaceStatus::Suboptimal), TargetAction::ReconfigureAndSkip);
    assert_eq!(target_action(SurfaceStatus::Outdated), TargetAction::ReconfigureAndSkip);
    assert_eq!(target_action(SurfaceStatus::Lost), TargetAction::RecreateAndSkip);
}

#[test]
fn no_frame_while_resizing_or_without_a_target() {
    assert_eq!(frame_plan(true, TargetAction::Surface, false, true, false), None);
    assert_eq!(frame_plan(false, TargetAction::Skip, true, true, true), None);
}

#[test]
fn a_plain_frame_goes_straight_to_the_surface() {
    assert_eq!(
        frame_plan(false, TargetAction::Surface, false, true, false),
        Some(FramePlan { through_scene: false, read_from: None })
    );
}

#[test]
fn a_screenshot_where_the_surface_cannot_be_copied_reads_the_scene() {
    assert_eq!(
        frame_plan(false, TargetAction::Surface, false, false, true),
        Some(FramePlan { through_scene: true, read_from: Some(ReadSource::Scene) })
    );
    assert_eq!(
        frame_plan(false, TargetAction::Surface, false, true, true),
        Some(FramePlan { through_scene: false, read_from: Some(ReadSource::Target) })
    );
    assert_eq!(
        frame_plan(false, TargetAction::Offscreen, true, false, true),
        Some(FramePlan { through_scene: false, read_from: Some(ReadSource::Target) })
    );
}
