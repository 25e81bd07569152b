//! Startup settings read from the environment, and where a window opens.

use vstd::prelude::*;

use crate::chars::{chars_of, parse_u32, parse_u32_exec};

verus! {

/// Why a `HILEN_MSAA` value cannot be used.
#[derive(Clone, Copy, Debug, PartialEq, Eq, Structural)]
pub enum MsaaError {
    /// Not a number.
    Unparsable,
    /// A number, but not 1, 2 or 4.
    Unsupported(u32),
}

/// The sample count a `HILEN_MSAA` value asks for: 4 when it is not set,
/// else the number it holds, which must be 1, 2 or 4.
pub open spec fn msaa_of(value: Option<Seq<char>>) -> Result<u32, MsaaError> {
    match value {
        None => Ok(4),
        Some(v) => match parse_u32(v) {
            None => Err(MsaaError::Unparsable),
            Some(n) => if n == 1 || n == 2 || n == 4 {
                Ok(n)
            } else {
                Err(MsaaError::Unsupported(n))
            },
        },
    }
}

/// The sample count rules: 4 when the setting is not there; a setting
/// that is no number is refused; 1, 2 and 4 are taken as they are; every
/// other number is refused as unsupported. So an accepted count is always
/// 1, 2 or 4, and every one of them can be asked for.
pub proof fn law_msaa_counts(value: Option<Seq<char>>, n: u32)
    ensures
        value is None ==> msaa_of(value) == Ok::<u32, MsaaError>(4),
        value matches Some(v) && parse_u32(v) is None ==> msaa_of(value) == Err::<u32, MsaaError>(
            MsaaError::Unparsable,
        ),
        value matches Some(v) && parse_u32(v) == Some(n) && (n == 1 || n == 2 || n == 4) ==> msaa_of(
            value,
        ) == Ok::<u32, MsaaError>(n),
        value matches Some(v) && parse_u32(v) == Some(n) && !(n == 1 || n == 2 || n == 4) ==> msaa_of(
            value,
        ) == Err::<u32, MsaaError>(MsaaError::Unsupported(n)),
        msaa_of(value) matches Ok(n) ==> n == 1 || n == 2 || n == 4,
{
}

/// Samples per pixel of the frame's render pass, from the `HILEN_MSAA`
/// value when there is one. 4 anti-aliases what the SDF pipelines cannot
/// smooth; 1 switches multisampling off.
pub fn msaa_sample_count_from(value: Option<&str>) -> (r: Result<u32, MsaaError>)
    ensures
        r == msaa_of(match value {
            Some(v) => Some(v@),
            None => None,
        }),
        value is None ==> r == Ok::<u32, MsaaError>(4),
        value matches Some(v) && parse_u32(v@) is None ==> r == Err::<u32, MsaaError>(MsaaError::Unparsable),
        forall|n: u32|
            value matches Some(v) && parse_u32(v@) == Some(n) && (n == 1 || n == 2 || n == 4) ==> r
                == Ok::<u32, MsaaError>(n),
        forall|n: u32|
            value matches Some(v) && parse_u32(v@) == Some(n) && !(n == 1 || n == 2 || n == 4) ==> r
                == Err::<u32, MsaaError>(MsaaError::Unsupported(n)),
{
    match value {
        None => Ok(4),
        Some(v) => {
            let chars = chars_of(v);
            assert(chars@.subrange(0, chars.len() as int) =~= chars@);
            match parse_u32_exec(&chars, 0, chars.len()) {
                None => Err(MsaaError::Unparsable),
                Some(n) => if n == 1 || n == 2 || n == 4 {
                    Ok(n)
                } else {
                    Err(MsaaError::Unsupported(n))
                },
            }
        },
    }
}

/// Where a window with a saved placement opens.
#[derive(Clone, Copy, Debug, PartialEq, Eq, Structural)]
pub enum PlacementChoice {
    /// As saved: its monitor is still attached, or none was saved.
    Saved,
    /// The saved monitor is gone and there is no primary display: the
    /// default size and position.
    Default,
    /// The saved monitor is gone: centered on the primary display at
    /// 80 percent of its size.
    CenterOnPrimary,
}

/// Whether the monitor a placement was saved on is attached: none was
/// saved, or some attached monitor has its name.
pub open spec fn monitor_present(saved: Option<Seq<char>>, monitors: Seq<Option<Seq<char>>>) -> bool {
    match saved {
        None => true,
        Some(name) => monitors.contains(Some(name)),
    }
}

pub open spec fn names_of(monitors: Seq<Option<String>>) -> Seq<Option<Seq<char>>> {
    monitors.map_values(
        |m: Option<String>|
            match m {
                Some(s) => Some(s@),
                None => None,
            },
    )
}

/// What to apply on launch for a placement saved on `saved` monitor,
/// with `monitors` attached, and a primary display when `has_primary`.
pub fn resolve_choice(saved: &Option<String>, monitors: &Vec<Option<String>>, has_primary: bool) -> (r: PlacementChoice)
    ensures
        ({
            let s = match saved {
                Some(n) => Some(n@),
                None => None,
            };
            &&& monitor_present(s, names_of(monitors@)) ==> r == PlacementChoice::Saved
            &&& !monitor_present(s, names_of(monitors@)) && !has_primary ==> r == PlacementChoice::Default
            &&& !monitor_present(s, names_of(monitors@)) && has_primary ==> r == PlacementChoice::CenterOnPrimary
        }),
{
    let present = match saved {
        None => true,
        Some(name) => {
            let mut found = false;
            let mut i: usize = 0;
            while i < monitors.len()
                invariant
                    i <= monitors.len(),
                    found == exists|k: int| 0 <= k < i && #[trigger] names_of(monitors@)[k] == Some(name@),
                decreases monitors.len() - i,
            {
                let matches = match &monitors[i] {
                    Some(m) => *m == *name,
                    None => false,
                };
                if matches {
                    assert(names_of(monitors@)[i as int] == Some(name@));
                }
                i = i + 1;
                found = found || matches;
            }
            proof {
                if found {
                    let k = choose|k: int| 0 <= k < i && #[trigger] names_of(monitors@)[k] == Some(name@);
                    assert(names_of(monitors@)[k] == Some(name@));
                }
            }
            found
        },
    };
    if present {
        PlacementChoice::Saved
    } else if !has_primary {
        PlacementChoice::Default
    } else {
        PlacementChoice::CenterOnPrimary
    }
}

} // verus!
