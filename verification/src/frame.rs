//! The decisions of one rendered frame: what to draw into, whether the
//! frame goes through a sampleable scene texture, and where a pending
//! screenshot reads it from. The GPU work itself is the caller's.

use vstd::prelude::*;

verus! {

/// What acquiring the surface's next texture reported.
#[derive(Clone, Copy, Debug, PartialEq, Eq, Structural)]
pub enum SurfaceStatus {
    /// A headless window: there is no surface, frames go offscreen.
    Headless,
    /// A window whose surface is not made yet.
    NoSurface,
    Success,
    Timeout,
    Occluded,
    Suboptimal,
    Outdated,
    Lost,
    Validation,
}

/// What to do with the surface for this frame.
#[derive(Clone, Copy, Debug, PartialEq, Eq, Structural)]
pub enum TargetAction {
    /// Draw nothing this time.
    Skip,
    /// Draw into the offscreen texture.
    Offscreen,
    /// Draw into the acquired surface texture.
    Surface,
    /// Drop the texture, configure the surface again, draw nothing.
    ReconfigureAndSkip,
    /// Forget the surface and make it again at the window's size, draw
    /// nothing.
    RecreateAndSkip,
}

/// The action for what acquiring the surface texture reported. A
/// validation error is a bug, on which the engine stops.
pub open spec fn target_action_of(status: SurfaceStatus) -> TargetAction {
    match status {
        SurfaceStatus::Headless => TargetAction::Offscreen,
        SurfaceStatus::NoSurface => TargetAction::Skip,
        SurfaceStatus::Success => TargetAction::Surface,
        SurfaceStatus::Timeout => TargetAction::Skip,
        SurfaceStatus::Occluded => TargetAction::Skip,
        SurfaceStatus::Suboptimal => TargetAction::ReconfigureAndSkip,
        SurfaceStatus::Outdated => TargetAction::ReconfigureAndSkip,
        SurfaceStatus::Lost => TargetAction::RecreateAndSkip,
        SurfaceStatus::Validation => TargetAction::Skip,
    }
}

/// Only a texture that was acquired is drawn into, only a headless window
/// draws offscreen, only a suboptimal or outdated surface is configured
/// again, only a lost one is made again, and every other report (no
/// surface yet, a timeout, an occluded window) draws nothing and leaves
/// the surface alone.
pub proof fn law_surface_reports(status: SurfaceStatus)
    requires
        status != SurfaceStatus::Validation,
    ensures
        target_action_of(status) == TargetAction::Offscreen <==> status == SurfaceStatus::Headless,
        target_action_of(status) == TargetAction::Surface <==> status == SurfaceStatus::Success,
        target_action_of(status) == TargetAction::ReconfigureAndSkip <==> (status == SurfaceStatus::Suboptimal
            || status == SurfaceStatus::Outdated),
        target_action_of(status) == TargetAction::RecreateAndSkip <==> status == SurfaceStatus::Lost,
        target_action_of(status) == TargetAction::Skip <==> (status == SurfaceStatus::NoSurface || status
            == SurfaceStatus::Timeout || status == SurfaceStatus::Occluded),
{
}

/// What to do with the surface for this frame, given what acquiring its
/// texture reported.
pub fn target_action(status: SurfaceStatus) -> (r: TargetAction)
    requires
        status != SurfaceStatus::Validation,
    ensures
        r == target_action_of(status),
        r == TargetAction::Offscreen <==> status == SurfaceStatus::Headless,
        r == TargetAction::Surface <==> status == SurfaceStatus::Success,
        r == TargetAction::ReconfigureAndSkip <==> (status == SurfaceStatus::Suboptimal || status
            == SurfaceStatus::Outdated),
        r == TargetAction::RecreateAndSkip <==> status == SurfaceStatus::Lost,
        r == TargetAction::Skip <==> (status == SurfaceStatus::NoSurface || status == SurfaceStatus::Timeout
            || status == SurfaceStatus::Occluded),
{
    match status {
        SurfaceStatus::Headless => TargetAction::Offscreen,
        SurfaceStatus::NoSurface => TargetAction::Skip,
        SurfaceStatus::Success => TargetAction::Surface,
        SurfaceStatus::Timeout => TargetAction::Skip,
        SurfaceStatus::Occluded => TargetAction::Skip,
        SurfaceStatus::Suboptimal => TargetAction::ReconfigureAndSkip,
        SurfaceStatus::Outdated => TargetAction::ReconfigureAndSkip,
        SurfaceStatus::Lost => TargetAction::RecreateAndSkip,
        SurfaceStatus::Validation => TargetAction::Skip,
    }
}

/// Where a pending screenshot copies the frame from.
#[derive(Clone, Copy, Debug, PartialEq, Eq, Structural)]
pub enum ReadSource {
    /// The texture the frame was drawn into, surface or offscreen.
    Target,
    /// The scene texture the frame was drawn into before the copy to the
    /// surface.
    Scene,
}

/// How a frame is drawn.
#[derive(Clone, Copy, Debug, PartialEq, Eq, Structural)]
pub struct FramePlan {
    /// The frame goes into the sampleable scene texture, then is copied
    /// to the surface.
    pub through_scene: bool,
    /// Where a pending screenshot reads the frame, when one is pending.
    pub read_from: Option<ReadSource>,
}

/// Whether a frame has to be sampleable: something in it reads the frame
/// itself back, or a screenshot is pending where the surface cannot be
/// copied.
pub open spec fn needs_sampling(needs_sampleable: bool, surface_copy: bool, read_pending: bool) -> bool {
    needs_sampleable || (!surface_copy && read_pending)
}

/// The plan of a frame: none while the window is being resized or when
/// there is nothing to draw into (`target` is neither the surface nor
/// the offscreen texture). On the surface, a frame that must be
/// sampleable goes through the scene texture; the offscreen texture is
/// sampleable as is. A pending screenshot reads the drawn texture where
/// the surface can be copied or the frame is offscreen, the scene texture
/// otherwise.
pub fn frame_plan(
    resizing: bool,
    target: TargetAction,
    needs_sampleable: bool,
    surface_copy: bool,
    read_pending: bool,
) -> (r: Option<FramePlan>)
    ensures
        resizing || !(target == TargetAction::Surface || target == TargetAction::Offscreen) <==> r is None,
        r matches Some(p) ==> p.through_scene == (needs_sampling(needs_sampleable, surface_copy, read_pending)
            && target == TargetAction::Surface) && p.read_from == (if !read_pending {
            None
        } else if surface_copy || target == TargetAction::Offscreen {
            Some(ReadSource::Target)
        } else {
            Some(ReadSource::Scene)
        }),
{
    if resizing {
        return None;
    }
    let on_surface = match target {
        TargetAction::Surface => true,
        TargetAction::Offscreen => false,
        _ => return None,
    };
    let sampling = needs_sampleable || (!surface_copy && read_pending);
    let read_from = if !read_pending {
        None
    } else if surface_copy || !on_surface {
        Some(ReadSource::Target)
    } else {
        Some(ReadSource::Scene)
    };
    Some(FramePlan { through_scene: sampling && on_surface, read_from })
}

/// A screenshot read from the scene texture only where the frame went
/// through it: whenever a frame with a pending screenshot reads the scene
/// texture, that frame was drawn into it.
pub proof fn law_scene_read_only_after_scene_draw(
    resizing: bool,
    target: TargetAction,
    needs_sampleable: bool,
    surface_copy: bool,
    read_pending: bool,
    plan: FramePlan,
)
    requires
        !resizing,
        target == TargetAction::Surface || target == TargetAction::Offscreen,
        plan.through_scene == (needs_sampling(needs_sampleable, surface_copy, read_pending) && target
            == TargetAction::Surface),
        plan.read_from == (if !read_pending {
            None
        } else if surface_copy || target == TargetAction::Offscreen {
            Some(ReadSource::Target)
        } else {
            Some(ReadSource::Scene)
        }),
    ensures
        plan.read_from == Some(ReadSource::Scene) ==> plan.through_scene,
{
}

} // verus!
