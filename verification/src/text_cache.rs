//! The two caches of the text renderer. `MeasureCache` keeps the size
//! `Font::measure` found for a text and its parameters, `ShapeCache`
//! keeps the glyphs shaping gave a line. Both forget what went unused
//! for `KEEP_NS`, in a sweep that scans at most once per `SWEEP_EVERY_NS`.

use vstd::prelude::*;

use crate::cache::{CacheKey, TimedCache, fresh, sweep_due};

verus! {

/// How long an unused entry stays cached before a sweep drops it.
pub const KEEP_NS: u64 = 10_000_000_000;

/// How often a sweep actually scans.
pub const SWEEP_EVERY_NS: u64 = 1_000_000_000;

#[verifier::external_type_specification]
#[verifier::external_body]
pub struct ExInstant(web_time::Instant);

/// `web_time::Instant::now`. Nothing is stated of the instant.
#[verifier::external_body]
fn instant_now() -> web_time::Instant {
    web_time::Instant::now()
}

/// `web_time::Instant::elapsed` of `start`, in nanoseconds. The
/// result reads the machine's clock, so nothing is stated of it.
#[verifier::external_body]
fn nanos_since(start: &web_time::Instant) -> u64 {
    start.elapsed().as_nanos() as u64
}

/// Nanoseconds since the clock started, the time base of a cache.
pub struct Clock {
    start: web_time::Instant,
}

impl Clock {
    pub fn start() -> Clock {
        Clock { start: instant_now() }
    }

    pub fn now_ns(&self) -> u64 {
        nanos_since(&self.start)
    }
}

/// Everything `Font::measure` depends on. Float bits stand in for the
/// floats themselves. Runs are keyed by font name and byte range.
pub struct MeasureKey {
    pub text: String,
    pub size: u32,
    pub width: Option<u32>,
    pub tracking: u32,
    pub line_height: Option<u32>,
    pub runs: Vec<(String, usize, usize)>,
}

/// The runs as font names and byte ranges.
pub open spec fn runs_view(runs: Seq<(String, usize, usize)>) -> Seq<(Seq<char>, usize, usize)> {
    runs.map_values(|r: (String, usize, usize)| (r.0@, r.1, r.2))
}

impl View for MeasureKey {
    type V = (Seq<char>, u32, Option<u32>, u32, Option<u32>, Seq<(Seq<char>, usize, usize)>);

    open spec fn view(&self) -> Self::V {
        (self.text@, self.size, self.width, self.tracking, self.line_height, runs_view(self.runs@))
    }
}

fn same_option(a: Option<u32>, b: Option<u32>) -> (r: bool)
    ensures
        r == (a == b),
{
    match (a, b) {
        (Some(x), Some(y)) => x == y,
        (None, None) => true,
        _ => false,
    }
}

fn same_runs(a: &Vec<(String, usize, usize)>, b: &Vec<(String, usize, usize)>) -> (r: bool)
    ensures
        r == (runs_view(a@) == runs_view(b@)),
{
    if a.len() != b.len() {
        assert(runs_view(a@).len() != runs_view(b@).len());
        return false;
    }
    let mut i: usize = 0;
    while i < a.len()
        invariant
            a.len() == b.len(),
            i <= a.len(),
            forall|k: int| 0 <= k < i ==> #[trigger] runs_view(a@)[k] == runs_view(b@)[k],
        decreases a.len() - i,
    {
        let x = &a[i];
        let y = &b[i];
        if !(x.0 == y.0 && x.1 == y.1 && x.2 == y.2) {
            assert(runs_view(a@)[i as int] != runs_view(b@)[i as int]);
            return false;
        }
        i = i + 1;
    }
    assert(runs_view(a@) =~= runs_view(b@));
    true
}

impl CacheKey for MeasureKey {
    fn same_key(&self, other: &Self) -> (r: bool) {
        self.text == other.text && self.size == other.size && same_option(self.width, other.width)
            && self.tracking == other.tracking && same_option(
            self.line_height,
            other.line_height,
        ) && same_runs(&self.runs, &other.runs)
    }
}

/// The cache map after a hit on `key` at `now`: the entry marked used.
pub open spec fn touched<KV, V>(m: Map<KV, (V, u64)>, key: KV, now: u64) -> Map<KV, (V, u64)> {
    if m.contains_key(key) {
        m.insert(key, (m[key].0, now))
    } else {
        m
    }
}

/// What a lookup of `key` in `m` answers.
pub open spec fn lookup<KV, V>(m: Map<KV, (V, u64)>, key: KV) -> Option<V> {
    if m.contains_key(key) {
        Some(m[key].0)
    } else {
        None
    }
}

/// Caches `Font::measure` results, owned by a font. `S` is the size.
pub struct MeasureCache<S> {
    pub sizes: TimedCache<MeasureKey, S>,
    pub clock: Clock,
}

impl<S: Copy> MeasureCache<S> {
    pub open spec fn view(&self) -> Map<<MeasureKey as View>::V, (S, u64)> {
        self.sizes.view()
    }

    pub open spec fn wf(&self) -> bool {
        self.sizes.wf()
    }

    /// An empty cache whose clock starts now.
    pub fn new() -> (c: Self)
        ensures
            c.wf(),
            c.view() == Map::<<MeasureKey as View>::V, (S, u64)>::empty(),
            c.sizes.last_sweep is None,
    {
        MeasureCache { sizes: TimedCache::new(), clock: Clock::start() }
    }

    /// The size cached for `key`, marking it used at `now`.
    pub fn get_at(&mut self, key: &MeasureKey, now: u64) -> (r: Option<S>)
        requires
            old(self).wf(),
        ensures
            final(self).wf(),
            r == lookup(old(self).view(), key@),
            final(self).view() == touched(old(self).view(), key@, now),
            final(self).sizes.last_sweep == old(self).sizes.last_sweep,
    {
        match self.sizes.position(key) {
            Some(i) => {
                proof {
                    crate::cache::lemma_map_of_at(self.sizes.entries@, i as int);
                }
                self.sizes.touch(i, now);
                Some(self.sizes.entries[i].value)
            },
            None => None,
        }
    }

    /// The size cached for `key`, marking it used now.
    pub fn get(&mut self, key: &MeasureKey) -> (r: Option<S>)
        requires
            old(self).wf(),
        ensures
            final(self).wf(),
            r == lookup(old(self).view(), key@),
            exists|t: u64| final(self).view() == touched(old(self).view(), key@, t),
            final(self).sizes.last_sweep == old(self).sizes.last_sweep,
    {
        let now = self.clock.now_ns();
        self.get_at(key, now)
    }

    /// Caches `size` for `key`, used at `now`.
    pub fn insert_at(&mut self, key: MeasureKey, size: S, now: u64)
        requires
            old(self).wf(),
        ensures
            final(self).wf(),
            final(self).view() == old(self).view().insert(key@, (size, now)),
            final(self).sizes.last_sweep == old(self).sizes.last_sweep,
    {
        self.sizes.insert_at(key, size, now);
    }

    /// Caches `size` for `key`, used now.
    pub fn insert(&mut self, key: MeasureKey, size: S)
        requires
            old(self).wf(),
        ensures
            final(self).wf(),
            exists|t: u64| final(self).view() == old(self).view().insert(key@, (size, t)),
            final(self).sizes.last_sweep == old(self).sizes.last_sweep,
    {
        let now = self.clock.now_ns();
        self.insert_at(key, size, now);
    }

    /// Drops sizes unused for `KEEP_NS` before `now`, if the last scan is
    /// `SWEEP_EVERY_NS` old or there was none.
    pub fn sweep_at(&mut self, now: u64)
        requires
            old(self).wf(),
        ensures
            final(self).wf(),
            sweep_due(old(self).sizes.last_sweep, now, SWEEP_EVERY_NS) ==> final(self).sizes.last_sweep == Some(now) && final(self).view() == fresh(
                old(self).view(),
                now,
                KEEP_NS,
            ),
            !sweep_due(old(self).sizes.last_sweep, now, SWEEP_EVERY_NS) ==> final(self).sizes
                == old(self).sizes,
    {
        self.sizes.sweep_at(now, KEEP_NS, SWEEP_EVERY_NS);
    }

    /// Drops sizes unused for `KEEP_NS`, scanning at most once per
    /// `SWEEP_EVERY_NS`.
    pub fn sweep(&mut self)
        requires
            old(self).wf(),
        ensures
            final(self).wf(),
            exists|t: u64|
                (sweep_due(old(self).sizes.last_sweep, t, SWEEP_EVERY_NS) ==> final(self).view()
                    == fresh(old(self).view(), t, KEEP_NS) && final(self).sizes.last_sweep == Some(t))
                    && (!sweep_due(old(self).sizes.last_sweep, t, SWEEP_EVERY_NS) ==> final(self).view()
                    == old(self).view() && final(self).sizes.last_sweep == old(self).sizes.last_sweep),
    {
        let now = self.clock.now_ns();
        self.sweep_at(now);
    }
}

/// What shaping a line depends on: the scale and tracking as float
/// bits, and the line's text.
pub struct ShapeKey {
    pub px_per_unit: u32,
    pub tracking: u32,
    pub line: String,
}

impl View for ShapeKey {
    type V = (u32, u32, Seq<char>);

    open spec fn view(&self) -> Self::V {
        (self.px_per_unit, self.tracking, self.line@)
    }
}

impl CacheKey for ShapeKey {
    fn same_key(&self, other: &Self) -> (r: bool) {
        self.px_per_unit == other.px_per_unit && self.tracking == other.tracking && self.line
            == other.line
    }
}

/// A copy of `v`.
pub fn copy_vec<G: Copy>(v: &Vec<G>) -> (r: Vec<G>)
    ensures
        r@ == v@,
{
    let mut r: Vec<G> = Vec::new();
    let mut i: usize = 0;
    while i < v.len()
        invariant
            i <= v.len(),
            r@ == v@.take(i as int),
        decreases v.len() - i,
    {
        r.push(v[i]);
        assert(r@ =~= v@.take(i + 1));
        i = i + 1;
    }
    assert(v@.take(i as int) =~= v@);
    r
}

/// Caches the glyphs shaping gave each line, per scale and tracking,
/// owned by a font. `G` is a shaped glyph.
pub struct ShapeCache<G> {
    pub lines: TimedCache<ShapeKey, Vec<G>>,
    pub clock: Clock,
}

impl<G: Copy> ShapeCache<G> {
    pub open spec fn view(&self) -> Map<(u32, u32, Seq<char>), (Vec<G>, u64)> {
        self.lines.view()
    }

    pub open spec fn wf(&self) -> bool {
        self.lines.wf()
    }

    pub fn new() -> (c: Self)
        ensures
            c.wf(),
            c.view() == Map::<(u32, u32, Seq<char>), (Vec<G>, u64)>::empty(),
            c.lines.last_sweep is None,
    {
        ShapeCache { lines: TimedCache::new(), clock: Clock::start() }
    }

    /// The glyphs of `line` at the scale and tracking with these float
    /// bits, marked used at `now`. A miss shapes the line with `shape`,
    /// once, and caches what it gives.
    pub fn get_or_shape_at<F: FnOnce() -> Vec<G>>(
        &mut self,
        line: &str,
        px_per_unit: u32,
        tracking: u32,
        now: u64,
        shape: F,
    ) -> (r: Vec<G>)
        requires
            old(self).wf(),
            !old(self).view().contains_key((px_per_unit, tracking, line@)) ==> shape.requires(()),
        ensures
            final(self).wf(),
            final(self).lines.last_sweep == old(self).lines.last_sweep,
            final(self).view().contains_key((px_per_unit, tracking, line@)),
            final(self).view()[(px_per_unit, tracking, line@)].0@ == r@,
            final(self).view()[(px_per_unit, tracking, line@)].1 == now,
            final(self).view().remove((px_per_unit, tracking, line@)) == old(self).view().remove(
                (px_per_unit, tracking, line@),
            ),
            old(self).view().contains_key((px_per_unit, tracking, line@)) ==> r@ == old(self).view()[(px_per_unit, tracking, line@)].0@,
            !old(self).view().contains_key((px_per_unit, tracking, line@)) ==> shape.ensures(
                (),
                r,
            ),
    {
        let key = ShapeKey { px_per_unit, tracking, line: line.to_owned() };
        let ghost k = key@;
        match self.lines.position(&key) {
            Some(i) => {
                proof {
                    crate::cache::lemma_map_of_at(self.lines.entries@, i as int);
                }
                self.lines.touch(i, now);
                let glyphs = copy_vec(&self.lines.entries[i].value);
                proof {
                    assert(self.view().remove(k) =~= old(self).view().remove(k));
                }
                glyphs
            },
            None => {
                let glyphs = shape();
                let stored = copy_vec(&glyphs);
                self.lines.insert_at(key, stored, now);
                proof {
                    assert(self.view().remove(k) =~= old(self).view().remove(k));
                }
                glyphs
            },
        }
    }

    /// `get_or_shape_at` at the clock's current time.
    pub fn get_or_shape<F: FnOnce() -> Vec<G>>(
        &mut self,
        line: &str,
        px_per_unit: u32,
        tracking: u32,
        shape: F,
    ) -> (r: Vec<G>)
        requires
            old(self).wf(),
            !old(self).view().contains_key((px_per_unit, tracking, line@)) ==> shape.requires(()),
        ensures
            final(self).wf(),
            final(self).lines.last_sweep == old(self).lines.last_sweep,
            final(self).view().contains_key((px_per_unit, tracking, line@)),
            final(self).view()[(px_per_unit, tracking, line@)].0@ == r@,
            final(self).view().remove((px_per_unit, tracking, line@)) == old(self).view().remove(
                (px_per_unit, tracking, line@),
            ),
            old(self).view().contains_key((px_per_unit, tracking, line@)) ==> r@ == old(self).view()[(px_per_unit, tracking, line@)].0@,
            !old(self).view().contains_key((px_per_unit, tracking, line@)) ==> shape.ensures(
                (),
                r,
            ),
    {
        let now = self.clock.now_ns();
        self.get_or_shape_at(line, px_per_unit, tracking, now, shape)
    }

    /// Drops lines unused for `KEEP_NS` before `now`, if the last scan is
    /// `SWEEP_EVERY_NS` old or there was none.
    pub fn sweep_at(&mut self, now: u64)
        requires
            old(self).wf(),
        ensures
            final(self).wf(),
            sweep_due(old(self).lines.last_sweep, now, SWEEP_EVERY_NS) ==> final(self).lines.last_sweep == Some(now) && final(self).view() == fresh(
                old(self).view(),
                now,
                KEEP_NS,
            ),
            !sweep_due(old(self).lines.last_sweep, now, SWEEP_EVERY_NS) ==> final(self).lines
                == old(self).lines,
    {
        self.lines.sweep_at(now, KEEP_NS, SWEEP_EVERY_NS);
    }

    /// Drops lines unused for `KEEP_NS`, scanning at most once per
    /// `SWEEP_EVERY_NS`.
    pub fn sweep(&mut self)
        requires
            old(self).wf(),
        ensures
            final(self).wf(),
            exists|t: u64|
                (sweep_due(old(self).lines.last_sweep, t, SWEEP_EVERY_NS) ==> final(self).view()
                    == fresh(old(self).view(), t, KEEP_NS) && final(self).lines.last_sweep == Some(t))
                    && (!sweep_due(old(self).lines.last_sweep, t, SWEEP_EVERY_NS) ==> final(self).view()
                    == old(self).view() && final(self).lines.last_sweep == old(self).lines.last_sweep),
    {
        let now = self.clock.now_ns();
        self.sweep_at(now);
    }
}

/// Sweeps scan at most once per `SWEEP_EVERY_NS`: after a scan at
/// `last`, a sweep sooner than that is not due and changes nothing, and
/// one that late or later is due.
pub proof fn law_sweep_at_most_once_a_second(last: u64, now: u64)
    ensures
        last <= now < last + SWEEP_EVERY_NS ==> !sweep_due(Some(last), now, SWEEP_EVERY_NS),
        now >= last + SWEEP_EVERY_NS ==> sweep_due(Some(last), now, SWEEP_EVERY_NS),
{
}

/// A lookup right after storing a value under a key answers that value.
pub proof fn law_hit_returns_what_was_stored<KV, V>(m: Map<KV, (V, u64)>, key: KV, value: V, now: u64)
    ensures
        lookup(m.insert(key, (value, now)), key) == Some(value),
{
}

/// Storing under one key leaves what every other key answers as it was.
pub proof fn law_other_keys_unaffected<KV, V>(m: Map<KV, (V, u64)>, key: KV, other: KV, value: V, now: u64)
    requires
        key != other,
    ensures
        lookup(m.insert(key, (value, now)), other) == lookup(m, other),
{
}

/// A hit changes no answer, it only marks the entry used.
pub proof fn law_hit_changes_no_answer<KV, V>(m: Map<KV, (V, u64)>, key: KV, other: KV, now: u64)
    ensures
        lookup(touched(m, key, now), other) == lookup(m, other),
{
}

/// A sweep keeps exactly the entries used less than `KEEP_NS` before it,
/// with what they hold.
pub proof fn law_sweep_keeps_exactly_the_recent<KV, V>(m: Map<KV, (V, u64)>, key: KV, now: u64)
    ensures
        m.contains_key(key) && crate::cache::elapsed(now, m[key].1) < KEEP_NS ==> lookup(
            fresh(m, now, KEEP_NS),
            key,
        ) == lookup(m, key),
        !(m.contains_key(key) && crate::cache::elapsed(now, m[key].1) < KEEP_NS) ==> lookup(
            fresh(m, now, KEEP_NS),
            key,
        ) is None,
{
}

} // verus!
