//! The system font fallback: the last resort for a char no label font
//! and no registered fallback covers. The system faces are ordered once,
//! each char's answer is remembered, a miss included, and the fonts that
//! answers point at are kept once each.

use vstd::prelude::*;

verus! {

/// Whether the fallback is on and whether the walk over the system fonts
/// has started.
pub struct FallbackSwitch {
    pub enabled: bool,
    pub started: bool,
}

impl FallbackSwitch {
    /// On, nothing walked yet.
    pub fn new() -> (s: Self)
        ensures
            s.enabled,
            !s.started,
    {
        FallbackSwitch { enabled: true, started: false }
    }

    /// Starts the walk unless it already started. Returns whether this
    /// call started it, so the caller spawns it exactly once.
    pub fn start_index(&mut self) -> (starts: bool)
        ensures
            starts == !old(self).started,
            final(self).started,
            final(self).enabled == old(self).enabled,
    {
        let starts = !self.started;
        self.started = true;
        starts
    }

    /// Turns the fallback on or off. Turning it on starts the walk if it
    /// has not started; returns whether this call started it.
    pub fn set_enabled(&mut self, enabled: bool) -> (starts: bool)
        ensures
            final(self).enabled == enabled,
            starts == (enabled && !old(self).started),
            final(self).started == (old(self).started || enabled),
    {
        self.enabled = enabled;
        if enabled {
            self.start_index()
        } else {
            false
        }
    }

    pub fn enabled(&self) -> (r: bool)
        ensures
            r == self.enabled,
    {
        self.enabled
    }
}

/// The position of `family` among the preferred families, their count
/// when it is none of them.
pub open spec fn preferred_rank(preferred: Seq<Seq<char>>, family: Seq<char>) -> int
    decreases preferred.len(),
{
    if preferred.len() == 0 {
        0
    } else if preferred[0] == family {
        0
    } else {
        1 + preferred_rank(preferred.drop_first(), family)
    }
}

/// The order key of a face: preferred families first, then upright
/// regular faces, then the weight nearest 400, then the family name, so
/// the order is the same on every run.
pub fn face_order(preferred: &Vec<String>, family: &String, upright: bool, weight: u16) -> (r: (
    usize,
    bool,
    u16,
    String,
))
    ensures
        r.0 == preferred_rank(preferred@.map_values(|s: String| s@), family@),
        r.1 == !upright,
        r.2 == (if weight >= 400 {
            weight - 400
        } else {
            400 - weight
        }),
        r.3@ == family@,
{
    let ghost pv = preferred@.map_values(|s: String| s@);
    let mut i: usize = 0;
    assert(pv.skip(0) =~= pv);
    while i < preferred.len()
        invariant
            i <= preferred.len(),
            pv == preferred@.map_values(|s: String| s@),
            preferred_rank(pv, family@) == i + preferred_rank(pv.skip(i as int), family@),
        decreases preferred.len() - i,
    {
        assert(pv.skip(i as int)[0] == preferred@[i as int]@);
        if preferred[i] == *family {
            return (i, !upright, if weight >= 400 {
                weight - 400
            } else {
                400 - weight
            }, family.clone());
        }
        assert(pv.skip(i as int).drop_first() =~= pv.skip(i + 1));
        i = i + 1;
    }
    assert(pv.skip(i as int) =~= Seq::<Seq<char>>::empty());
    (i, !upright, if weight >= 400 {
        weight - 400
    } else {
        400 - weight
    }, family.clone())
}

/// The answers found so far, per char: the name of the system font that
/// draws it, or none when no system font has it. And the fonts those
/// answers name, each once.
pub struct FontLookup {
    pub found: Vec<(char, Option<String>)>,
    pub loaded: Vec<String>,
}

pub open spec fn found_view(found: Seq<(char, Option<String>)>) -> Seq<(char, Option<Seq<char>>)> {
    found.map_values(
        |e: (char, Option<String>)|
            (
                e.0,
                match e.1 {
                    Some(s) => Some(s@),
                    None => None,
                },
            ),
    )
}

pub open spec fn loaded_view(loaded: Seq<String>) -> Seq<Seq<char>> {
    loaded.map_values(|s: String| s@)
}

/// The answer kept for `c`: the last one recorded for it, as a map's
/// insert keeps it.
pub open spec fn answer_of(found: Seq<(char, Option<Seq<char>>)>, c: char) -> Option<Option<Seq<char>>>
    decreases found.len(),
{
    if found.len() == 0 {
        None
    } else if found.last().0 == c {
        Some(found.last().1)
    } else {
        answer_of(found.drop_last(), c)
    }
}

impl FontLookup {
    pub fn new() -> (r: Self)
        ensures
            r.found@.len() == 0,
            r.loaded@.len() == 0,
    {
        FontLookup { found: Vec::new(), loaded: Vec::new() }
    }

    /// The answer kept for `c`: `Some(None)` is a remembered miss,
    /// `None` means `c` was never looked up.
    pub fn answer(&self, c: char) -> (r: Option<Option<String>>)
        ensures
            match r {
                Some(Some(s)) => answer_of(found_view(self.found@), c) == Some(Some(s@)),
                Some(None) => answer_of(found_view(self.found@), c) == Some(None::<Seq<char>>),
                None => answer_of(found_view(self.found@), c) is None,
            },
    {
        let ghost fv = found_view(self.found@);
        let mut i: usize = self.found.len();
        assert(fv.take(i as int) =~= fv);
        while i > 0
            invariant
                i <= self.found.len(),
                fv == found_view(self.found@),
                answer_of(fv, c) == answer_of(fv.take(i as int), c),
            decreases i,
        {
            assert(fv.take(i as int).drop_last() =~= fv.take(i - 1));
            assert(fv.take(i as int).last() == fv[i - 1]);
            if self.found[i - 1].0 == c {
                return Some(self.found[i - 1].1.clone());
            }
            i = i - 1;
        }
        None
    }

    /// Remembers the answer for `c`, and keeps the font it names unless
    /// one of that name is kept already.
    pub fn record(&mut self, c: char, font: Option<String>)
        ensures
            found_view(final(self).found@) == found_view(old(self).found@).push(
                (
                    c,
                    match font {
                        Some(s) => Some(s@),
                        None => None,
                    },
                ),
            ),
            match font {
                Some(s) => if loaded_view(old(self).loaded@).contains(s@) {
                    loaded_view(final(self).loaded@) == loaded_view(old(self).loaded@)
                } else {
                    loaded_view(final(self).loaded@) == loaded_view(old(self).loaded@).push(s@)
                },
                None => loaded_view(final(self).loaded@) == loaded_view(old(self).loaded@),
            },
    {
        let ghost lv = loaded_view(self.loaded@);
        let ghost fv = found_view(self.found@);
        match &font {
            Some(name) => {
                let mut known = false;
                let mut i: usize = 0;
                while i < self.loaded.len()
                    invariant
                        i <= self.loaded.len(),
                        lv == loaded_view(self.loaded@),
                        known == exists|k: int| 0 <= k < i && #[trigger] lv[k] == name@,
                    decreases self.loaded.len() - i,
                {
                    if self.loaded[i] == *name {
                        assert(lv[i as int] == name@);
                        known = true;
                    }
                    i = i + 1;
                }
                if !known {
                    self.loaded.push(name.clone());
                    assert(loaded_view(self.loaded@) =~= lv.push(name@));
                } else {
                    proof {
                        let k = choose|k: int| 0 <= k < i && #[trigger] lv[k] == name@;
                        assert(lv.contains(name@));
                    }
                }
            },
            None => {},
        }
        self.found.push((c, font));
        assert(found_view(self.found@) =~= fv.push(
            (
                c,
                match font {
                    Some(s) => Some(s@),
                    None => None,
                },
            ),
        ));
    }
}


/// The answer last recorded for a char is the one kept, as a map's insert
/// keeps it: the char is answered with it, a remembered miss included,
/// and every other char keeps its answer.
pub proof fn law_recorded_answer_is_kept(found: Seq<(char, Option<Seq<char>>)>, c: char, font: Option<Seq<char>>)
    ensures
        answer_of(found.push((c, font)), c) == Some(font),
        forall|d: char| d != c ==> #[trigger] answer_of(found.push((c, font)), d) == answer_of(found, d),
{
    assert(found.push((c, font)).drop_last() =~= found);
}

/// Recording keeps the kept fonts distinct.
pub proof fn law_loaded_fonts_stay_distinct(loaded: Seq<Seq<char>>, name: Seq<char>)
    requires
        forall|i: int, j: int| 0 <= i < j < loaded.len() ==> loaded[i] != loaded[j],
    ensures
        ({
            let after = if loaded.contains(name) {
                loaded
            } else {
                loaded.push(name)
            };
            forall|i: int, j: int| 0 <= i < j < after.len() ==> after[i] != after[j]
        }),
{
    if !loaded.contains(name) {
        let after = loaded.push(name);
        assert forall|i: int, j: int| 0 <= i < j < after.len() implies after[i] != after[j] by {
            if j == loaded.len() {
                assert(after[i] == loaded[i]);
                if loaded[i] == name {
                    assert(loaded.contains(name));
                }
            }
        }
    }
}

} // verus!
