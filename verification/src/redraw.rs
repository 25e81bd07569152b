//! When the native loop draws. A pending flag collects redraw requests
//! and is consumed once per rendered frame, an occluded flag says
//! whether anything drawn can reach a screen, and the pacing decision
//! combines them with the continuous work and a pending screenshot.

use vstd::prelude::*;

verus! {

/// Whether a drawn frame reaches the screen right now.
#[derive(Clone, Copy, Debug, PartialEq, Eq, Structural)]
pub enum Visibility {
    Visible,
    /// Minimized, fully covered or on another desktop.
    Covered,
    /// Covered, but a screenshot waits for one frame drawn offscreen.
    CoveredScreenshot,
}

/// How the loop goes on after drawing a frame: polling keeps drawing,
/// waiting sleeps until the next event.
#[derive(Clone, Copy, Debug, PartialEq, Eq, Structural)]
pub enum Flow {
    Poll,
    Wait,
}

/// The redraw flags of one loop.
#[derive(Debug)]
pub struct Redraw {
    /// A frame is pending. Starts true so the very first frame draws.
    pub needs_redraw: bool,
    /// Nothing drawn reaches a screen.
    pub occluded: bool,
}

impl Redraw {
    /// A frame pending, the window not occluded.
    pub fn new() -> (r: Self)
        ensures
            r.needs_redraw,
            !r.occluded,
    {
        Redraw { needs_redraw: true, occluded: false }
    }

    /// Asks for one more rendered frame. Returns whether the loop has
    /// to be woken as well: always off the main thread, and on the main
    /// thread only where the loop checks the flag before drawing
    /// (`main_thread_wakes`, iOS), since a request made while drawing
    /// would be missed there.
    pub fn request_frame(&mut self, on_main_thread: bool, main_thread_wakes: bool) -> (wake: bool)
        ensures
            *final(self) == requested(*old(self)),
            wake == (!on_main_thread || main_thread_wakes),
    {
        self.needs_redraw = true;
        !on_main_thread || main_thread_wakes
    }

    /// Consumes the pending flag: whether a frame was pending, and none
    /// is afterwards.
    pub fn take_needs_render(&mut self) -> (pending: bool)
        ensures
            (pending, *final(self)) == taken(*old(self)),
    {
        let pending = self.needs_redraw;
        self.needs_redraw = false;
        pending
    }

    pub fn set_occluded(&mut self, occluded: bool)
        ensures
            final(self).occluded == occluded,
            final(self).needs_redraw == old(self).needs_redraw,
    {
        self.occluded = occluded;
    }

    pub fn occluded(&self) -> (r: bool)
        ensures
            r == self.occluded,
    {
        self.occluded
    }

    /// Whether a drawn frame reaches the screen, given whether a
    /// screenshot waits for one.
    pub fn visibility(&self, screenshot_pending: bool) -> (v: Visibility)
        ensures
            v == visibility_of(self.occluded, screenshot_pending),
    {
        if !self.occluded {
            Visibility::Visible
        } else if !screenshot_pending {
            Visibility::Covered
        } else {
            Visibility::CoveredScreenshot
        }
    }
}

/// Visible unless occluded; an occluded window with a screenshot
/// pending still draws it offscreen.
pub open spec fn visibility_of(occluded: bool, screenshot_pending: bool) -> Visibility {
    if !occluded {
        Visibility::Visible
    } else if !screenshot_pending {
        Visibility::Covered
    } else {
        Visibility::CoveredScreenshot
    }
}

/// Something must redraw every frame: a live animation or a loaded level.
pub fn continuous_render_active(live_animations: bool, level_running: bool) -> (r: bool)
    ensures
        r == (live_animations || level_running),
{
    live_animations || level_running
}

/// What the native loop does after an iteration: `None` sleeps without
/// drawing, `Some(flow)` draws a frame and goes on under `flow`.
pub open spec fn pacing(visibility: Visibility, continuous: bool, pending: bool) -> Option<Flow> {
    match visibility {
        Visibility::Covered => None,
        Visibility::CoveredScreenshot => Some(Flow::Wait),
        Visibility::Visible => if continuous {
            Some(Flow::Poll)
        } else if pending {
            Some(Flow::Wait)
        } else {
            None
        },
    }
}

/// A covered window holds every frame, continuous work included, until
/// it shows again. A pending screenshot is the one exception, answered
/// with one frame drawn offscreen. A visible window polls for
/// continuous work and draws once for a pending request.
pub fn frame_pacing(visibility: Visibility, continuous: bool, pending: bool) -> (r: Option<Flow>)
    ensures
        r == pacing(visibility, continuous, pending),
{
    match visibility {
        Visibility::Covered => {
            return None;
        },
        Visibility::CoveredScreenshot => {
            return Some(Flow::Wait);
        },
        Visibility::Visible => {},
    }
    if continuous {
        return Some(Flow::Poll);
    }
    if pending {
        Some(Flow::Wait)
    } else {
        None
    }
}

/// A covered window never draws, whatever work waits; a covered window
/// with a screenshot pending draws exactly one frame and never polls.
pub proof fn law_covered_window_never_polls(continuous: bool, pending: bool)
    ensures
        pacing(Visibility::Covered, continuous, pending) is None,
        pacing(Visibility::CoveredScreenshot, continuous, pending) == Some(Flow::Wait),
{
}

/// The flags after a redraw request: a frame pending.
pub open spec fn requested(r: Redraw) -> Redraw {
    Redraw { needs_redraw: true, occluded: r.occluded }
}

/// What consuming the pending flag answers, and the flags after it.
pub open spec fn taken(r: Redraw) -> (bool, Redraw) {
    (r.needs_redraw, Redraw { needs_redraw: false, occluded: r.occluded })
}

/// A request is seen by exactly one consumer: after `request_frame` the
/// next `take_needs_render` answers true, and the one after it false
/// unless another request came in between. Neither touches occlusion.
pub proof fn law_request_is_consumed_once(r: Redraw)
    ensures
        taken(requested(r)).0,
        !taken(taken(requested(r)).1).0,
        taken(requested(r)).1.occluded == r.occluded,
{
}

} // verus!
