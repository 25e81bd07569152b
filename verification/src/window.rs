//! The window's frame settings: the switches the app flips, the frame
//! counter, and the decisions taken from them when the surface is
//! configured and the title is written.

use vstd::prelude::*;

verus! {

/// How the surface presents frames.
#[derive(Clone, Copy, Debug, PartialEq, Eq, Structural)]
pub enum PresentMode {
    AutoVsync,
    AutoNoVsync,
}

/// The switches of a window and the index of the frame being rendered.
pub struct FrameSettings {
    pub quit_on_escape: bool,
    pub vsync: bool,
    pub max_frame_latency: u32,
    pub render_frame: u64,
    pub title_prefix: Option<String>,
}

/// The title prefix as chars.
pub open spec fn prefix_view(p: Option<String>) -> Option<Seq<char>> {
    match p {
        Some(s) => Some(s@),
        None => None,
    }
}

/// The title for the frame stats `stats`: the prefix, ` | ` and the
/// stats when a prefix is set, the stats alone otherwise.
pub open spec fn stats_title_spec(prefix: Option<Seq<char>>, stats: Seq<char>) -> Seq<char> {
    match prefix {
        Some(p) => p + seq![' ', '|', ' '] + stats,
        None => stats,
    }
}

impl FrameSettings {
    /// Escape does not quit, vsync on, two frames buffered at most, frame 0,
    /// no title prefix.
    pub fn new() -> (s: Self)
        ensures
            !s.quit_on_escape,
            s.vsync,
            s.max_frame_latency == 2,
            s.render_frame == 0,
            s.title_prefix is None,
    {
        FrameSettings {
            quit_on_escape: false,
            vsync: true,
            max_frame_latency: 2,
            render_frame: 0,
            title_prefix: None,
        }
    }

    /// Close the app when Escape is pressed.
    pub fn set_quit_on_escape(&mut self, enable: bool)
        ensures
            final(self).quit_on_escape == enable,
            final(self).vsync == old(self).vsync,
            final(self).max_frame_latency == old(self).max_frame_latency,
            final(self).render_frame == old(self).render_frame,
            final(self).title_prefix == old(self).title_prefix,
    {
        self.quit_on_escape = enable;
    }

    pub fn quit_on_escape(&self) -> (r: bool)
        ensures
            r == self.quit_on_escape,
    {
        self.quit_on_escape
    }

    /// Vsync for the next configuration of the surface. Mobile platforms
    /// always sync.
    pub fn set_vsync(&mut self, enable: bool)
        ensures
            final(self).vsync == enable,
            final(self).quit_on_escape == old(self).quit_on_escape,
            final(self).max_frame_latency == old(self).max_frame_latency,
            final(self).render_frame == old(self).render_frame,
            final(self).title_prefix == old(self).title_prefix,
    {
        self.vsync = enable;
    }

    /// How many frames the GPU may buffer ahead of the display.
    pub fn set_max_frame_latency(&mut self, latency: u32)
        ensures
            final(self).max_frame_latency == latency,
            final(self).vsync == old(self).vsync,
            final(self).quit_on_escape == old(self).quit_on_escape,
            final(self).render_frame == old(self).render_frame,
            final(self).title_prefix == old(self).title_prefix,
    {
        self.max_frame_latency = latency;
    }

    /// Index of the frame being rendered.
    pub fn render_frame(&self) -> (r: u64)
        ensures
            r == self.render_frame,
    {
        self.render_frame
    }

    /// Bumps the frame index, once per rendered frame, wrapping around at
    /// the end of the range as the atomic counter does.
    pub fn next_render_frame(&mut self)
        ensures
            final(self).render_frame == (if old(self).render_frame == u64::MAX {
                0
            } else {
                (old(self).render_frame + 1) as u64
            }),
            final(self).vsync == old(self).vsync,
            final(self).quit_on_escape == old(self).quit_on_escape,
            final(self).max_frame_latency == old(self).max_frame_latency,
            final(self).title_prefix == old(self).title_prefix,
    {
        self.render_frame = if self.render_frame == u64::MAX {
            0
        } else {
            self.render_frame + 1
        };
    }

    /// Puts `prefix` in front of the frame stats in the title.
    pub fn set_title_prefix(&mut self, prefix: String)
        ensures
            prefix_view(final(self).title_prefix) == Some(prefix@),
            final(self).vsync == old(self).vsync,
            final(self).quit_on_escape == old(self).quit_on_escape,
            final(self).max_frame_latency == old(self).max_frame_latency,
            final(self).render_frame == old(self).render_frame,
    {
        self.title_prefix = Some(prefix);
    }

    /// The title text for the frame stats.
    pub fn stats_title(&self, stats: &str) -> (r: String)
        ensures
            r@ == stats_title_spec(prefix_view(self.title_prefix), stats@),
    {
        match &self.title_prefix {
            Some(prefix) => {
                let mut title = prefix.clone();
                title.append(" | ");
                proof {
                    reveal_strlit(" | ");
                }
                title.append(stats);
                title
            },
            None => stats.to_owned(),
        }
    }

    /// The present mode for the next surface configuration: synced when
    /// vsync is on or the platform is mobile.
    pub fn present_mode(&self, mobile: bool) -> (m: PresentMode)
        ensures
            m == (if self.vsync || mobile {
                PresentMode::AutoVsync
            } else {
                PresentMode::AutoNoVsync
            }),
    {
        if self.vsync || mobile {
            PresentMode::AutoVsync
        } else {
            PresentMode::AutoNoVsync
        }
    }
}

/// The display refresh rate in whole hertz from what the monitor
/// reports in millihertz: 60 when there is no monitor or no rate.
pub fn refresh_rate_hz(monitor: Option<Option<u32>>) -> (hz: u32)
    ensures
        hz == match monitor {
            None => 60,
            Some(None) => 60,
            Some(Some(mhz)) => mhz / 1000,
        },
{
    match monitor {
        None => 60,
        Some(rate) => match rate {
            Some(mhz) => mhz / 1000,
            None => 60_000 / 1000,
        },
    }
}

} // verus!
