//! Font runs over the bytes of a text: which font covers a byte, how the
//! per char fonts of fallback shaping merge back into runs, and how a
//! line is cut into segments that each shape with one font.

use vstd::prelude::*;
use vstd::string::StringSliceAdditionalSpecFns;

verus! {

/// A byte range of the text drawn with the font named `font`.
pub struct FontRun {
    pub start: usize,
    pub end: usize,
    pub font: String,
}

/// A run as its range and font name.
pub open spec fn run_view(r: FontRun) -> (usize, usize, Seq<char>) {
    (r.start, r.end, r.font@)
}

pub open spec fn runs_view(runs: Seq<FontRun>) -> Seq<(usize, usize, Seq<char>)> {
    runs.map_values(|r: FontRun| run_view(r))
}

/// The font of the first run whose range holds `byte`, the base font
/// when none does.
pub open spec fn effective(runs: Seq<(usize, usize, Seq<char>)>, byte: int, base: Seq<char>) -> Seq<char>
    decreases runs.len(),
{
    if runs.len() == 0 {
        base
    } else if runs[0].0 <= byte < runs[0].1 {
        runs[0].2
    } else {
        effective(runs.drop_first(), byte, base)
    }
}

/// The font that draws `byte`: the first run holding it, else `base`.
pub fn effective_font(runs: &Vec<FontRun>, byte: usize, base: &String) -> (r: String)
    ensures
        r@ == effective(runs_view(runs@), byte as int, base@),
{
    let mut i: usize = 0;
    assert(runs_view(runs@).skip(0) =~= runs_view(runs@));
    while i < runs.len()
        invariant
            i <= runs.len(),
            effective(runs_view(runs@), byte as int, base@) == effective(
                runs_view(runs@).skip(i as int),
                byte as int,
                base@,
            ),
        decreases runs.len() - i,
    {
        assert(runs_view(runs@).skip(i as int).drop_first() =~= runs_view(runs@).skip(i + 1));
        assert(runs_view(runs@).skip(i as int)[0] == run_view(runs@[i as int]));
        if runs[i].start <= byte && byte < runs[i].end {
            return runs[i].font.clone();
        }
        i = i + 1;
    }
    assert(runs_view(runs@).skip(i as int) =~= Seq::<(usize, usize, Seq<char>)>::empty());
    base.clone()
}

/// `acc` with the span `s` pushed: a span right after the last run and
/// in the same font extends it, any other starts a run of its own.
pub open spec fn push_span(acc: Seq<(usize, usize, Seq<char>)>, s: (usize, usize, Seq<char>)) -> Seq<
    (usize, usize, Seq<char>),
> {
    if acc.len() > 0 && acc.last().2 == s.2 && acc.last().1 == s.0 {
        acc.update(acc.len() - 1, (acc.last().0, s.1, s.2))
    } else {
        acc.push(s)
    }
}

/// The runs the spans `spans` merge into, pushed in order.
pub open spec fn merged(spans: Seq<(usize, usize, Seq<char>)>) -> Seq<(usize, usize, Seq<char>)>
    decreases spans.len(),
{
    if spans.len() == 0 {
        seq![]
    } else {
        push_span(merged(spans.drop_last()), spans.last())
    }
}

/// The merged runs, without those in the base font: absence of a run
/// means the base font.
pub open spec fn fallback_runs(spans: Seq<(usize, usize, Seq<char>)>, base: Seq<char>) -> Seq<
    (usize, usize, Seq<char>),
> {
    merged(spans).filter(not_font(base))
}

/// Whether a run is in another font than `base`.
pub open spec fn not_font(base: Seq<char>) -> spec_fn((usize, usize, Seq<char>)) -> bool {
    |r: (usize, usize, Seq<char>)| r.2 != base
}

/// Merges the per char spans of a text, each a byte range and the font
/// that draws it, into runs, and drops the runs of the base font.
pub fn merge_runs(spans: &Vec<FontRun>, base: &String) -> (r: Vec<FontRun>)
    ensures
        runs_view(r@) == fallback_runs(runs_view(spans@), base@),
{
    let mut acc: Vec<FontRun> = Vec::new();
    let mut i: usize = 0;
    while i < spans.len()
        invariant
            i <= spans.len(),
            runs_view(acc@) == merged(runs_view(spans@).take(i as int)),
        decreases spans.len() - i,
    {
        let ghost sv = runs_view(spans@).take(i + 1);
        assert(sv.drop_last() =~= runs_view(spans@).take(i as int));
        assert(sv.last() == run_view(spans@[i as int]));
        let s = &spans[i];
        let n = acc.len();
        if n > 0 && acc[n - 1].font == s.font && acc[n - 1].end == s.start {
            let mut last = acc.pop().unwrap();
            last.end = s.end;
            let ghost before = acc@;
            acc.push(last);
            assert(runs_view(acc@) =~= push_span(merged(runs_view(spans@).take(i as int)), run_view(*s)));
        } else {
            acc.push(FontRun { start: s.start, end: s.end, font: s.font.clone() });
            assert(runs_view(acc@) =~= push_span(merged(runs_view(spans@).take(i as int)), run_view(*s)));
        }
        i = i + 1;
    }
    assert(runs_view(spans@).take(i as int) =~= runs_view(spans@));
    let mut out: Vec<FontRun> = Vec::new();
    let ghost m = runs_view(acc@);
    let mut k: usize = 0;
    let mut rest = acc;
    let total = rest.len();
    proof {
        reveal_with_fuel(Seq::<_>::filter, 1);
        assert(m.take(0) =~= Seq::<(usize, usize, Seq<char>)>::empty());
        assert(runs_view(rest@) =~= m.skip(0));
        assert(m.len() == total);
    }
    while rest.len() > 0
        invariant
            k + rest.len() == m.len(),
            m.len() <= usize::MAX,
            runs_view(rest@) == m.skip(k as int),
            runs_view(out@) == m.take(k as int).filter(not_font(base@)),
        decreases rest.len(),
    {
        let ghost r0 = rest@;
        proof {
            reveal_with_fuel(Seq::<_>::filter, 1);
        }
        let run = rest.remove(0);
        assert(m.take(k + 1).drop_last() =~= m.take(k as int));
        assert(runs_view(r0)[0] == run_view(run));
        assert(m.skip(k as int)[0] == m[k as int]);
        assert(m[k as int] == run_view(run));
        assert(rest@ =~= r0.skip(1));
        assert forall|j: int| 0 <= j < rest@.len() implies #[trigger] runs_view(rest@)[j] == m.skip(k + 1)[j] by {
            assert(rest@[j] == r0[j + 1]);
            assert(runs_view(r0)[j + 1] == m.skip(k as int)[j + 1]);
        }
        assert(runs_view(rest@) =~= m.skip(k + 1));
        let ghost tk = m.take(k + 1);
        assert(tk.last() == run_view(run));
        assert(not_font(base@)(tk.last()) == (run.font@ != base@));
        assert(tk.filter(not_font(base@)) == (if not_font(base@)(tk.last()) {
            tk.drop_last().filter(not_font(base@)).push(tk.last())
        } else {
            tk.drop_last().filter(not_font(base@))
        }));
        if !(run.font == *base) {
            out.push(run);
            assert(runs_view(out@) =~= m.take(k + 1).filter(not_font(base@)));
        } else {
            assert(runs_view(out@) =~= m.take(k + 1).filter(not_font(base@)));
        }
        k = k + 1;
    }
    assert(m.take(k as int) =~= m);
    out
}

/// The segments a line `start..end` shapes in, each a byte range and a
/// source, 0 for the base font and `i + 1` for the font of `runs[i]`,
/// from run `i` on with the text up to `cursor` done: the part of each
/// run that lies in the line, and the gaps between them.
pub open spec fn segments(runs: Seq<(usize, usize)>, i: int, cursor: int, end: int) -> Seq<
    (int, int, int),
>
    decreases runs.len() - i,
{
    if i < 0 || i >= runs.len() {
        if cursor < end {
            seq![(cursor, end, 0)]
        } else {
            seq![]
        }
    } else {
        let s = if runs[i].0 > cursor {
            runs[i].0 as int
        } else {
            cursor
        };
        let t = if runs[i].1 < end {
            runs[i].1 as int
        } else {
            end
        };
        if s >= t {
            segments(runs, i + 1, cursor, end)
        } else {
            (if cursor < s {
                seq![(cursor, s, 0)]
            } else {
                seq![]
            }) + seq![(s, t, i + 1)] + segments(runs, i + 1, t, end)
        }
    }
}

/// Cuts the line `start..end` into the segments that shape with one font
/// each: every part of a run inside the line with that run's font, and
/// every gap between them with the base font.
pub fn line_segments(runs: &Vec<(usize, usize)>, start: usize, end: usize) -> (r: Vec<(usize, usize, usize)>)
    ensures
        r@.map_values(|x: (usize, usize, usize)| (x.0 as int, x.1 as int, x.2 as int)) == segments(
            runs@,
            0,
            start as int,
            end as int,
        ),
{
    let mut out: Vec<(usize, usize, usize)> = Vec::new();
    let mut cursor = start;
    let mut i: usize = 0;
    let ghost full = segments(runs@, 0, start as int, end as int);
    while i < runs.len()
        invariant
            i <= runs.len(),
            full == out@.map_values(|x: (usize, usize, usize)| (x.0 as int, x.1 as int, x.2 as int))
                + segments(runs@, i as int, cursor as int, end as int),
        decreases runs.len() - i,
    {
        let ghost prev = out@;
        let (rs, re) = runs[i];
        let s = if rs > cursor {
            rs
        } else {
            cursor
        };
        let t = if re < end {
            re
        } else {
            end
        };
        if s < t {
            if cursor < s {
                out.push((cursor, s, 0));
            }
            out.push((s, t, i + 1));
            cursor = t;
        }
        assert(full =~= out@.map_values(|x: (usize, usize, usize)| (x.0 as int, x.1 as int, x.2 as int))
            + segments(runs@, i + 1, cursor as int, end as int));
        i = i + 1;
    }
    if cursor < end {
        out.push((cursor, end, 0));
    }
    assert(full =~= out@.map_values(|x: (usize, usize, usize)| (x.0 as int, x.1 as int, x.2 as int)));
    out
}

/// The segments of a line tile it: each is non empty, the first starts
/// where the line does, each next one starts where the one before ends,
/// and the last ends where the line ends.
pub proof fn law_segments_tile_the_line(runs: Seq<(usize, usize)>, i: int, cursor: int, end: int)
    requires
        0 <= i,
    ensures
        ({
            let s = segments(runs, i, cursor, end);
            &&& forall|k: int| 0 <= k < s.len() ==> (#[trigger] s[k]).0 < s[k].1
            &&& forall|k: int| 0 < k < s.len() ==> (#[trigger] s[k]).0 == s[k - 1].1
            &&& s.len() > 0 ==> s[0].0 == cursor && s[s.len() - 1].1 == end
            &&& s.len() == 0 ==> cursor >= end
        }),
    decreases runs.len() - i,
{
    if i >= runs.len() {
    } else {
        let s0 = if runs[i].0 > cursor {
            runs[i].0 as int
        } else {
            cursor
        };
        let t = if runs[i].1 < end {
            runs[i].1 as int
        } else {
            end
        };
        if s0 >= t {
            law_segments_tile_the_line(runs, i + 1, cursor, end);
        } else {
            law_segments_tile_the_line(runs, i + 1, t, end);
            let head = (if cursor < s0 {
                seq![(cursor, s0, 0)]
            } else {
                seq![]
            }) + seq![(s0, t, i + 1)];
            let tail = segments(runs, i + 1, t, end);
            let s = head + tail;
            assert(s == segments(runs, i, cursor, end));
            assert forall|k: int| 0 <= k < s.len() implies (#[trigger] s[k]).0 < s[k].1 by {
                if k >= head.len() {
                    assert(s[k] == tail[k - head.len()]);
                }
            }
            assert forall|k: int| 0 < k < s.len() implies (#[trigger] s[k]).0 == s[k - 1].1 by {
                if k > head.len() {
                    assert(s[k] == tail[k - head.len()]);
                    assert(s[k - 1] == tail[k - 1 - head.len()]);
                } else if k == head.len() {
                    assert(s[k] == tail[0]);
                }
            }
            if tail.len() > 0 {
                assert(s[s.len() - 1] == tail[tail.len() - 1]);
            }
        }
    }
}

/// The byte ranges of the lines of `b` from byte `i` on, the current
/// line starting at `start`: split at each `\n`, the last line running
/// to the end, so `n` newlines give `n + 1` lines.
pub open spec fn split_ranges_from(b: Seq<u8>, i: int, start: int) -> Seq<(int, int)>
    decreases b.len() - i,
{
    if i < 0 || i >= b.len() {
        seq![(start, b.len() as int)]
    } else if b[i] == 10 {
        seq![(start, i)] + split_ranges_from(b, i + 1, i + 1)
    } else {
        split_ranges_from(b, i + 1, start)
    }
}

/// The byte range of every line of `text`, as `split('\n')` cuts it.
pub fn line_ranges(text: &str) -> (r: Vec<(usize, usize)>)
    ensures
        r@.map_values(|x: (usize, usize)| (x.0 as int, x.1 as int)) == split_ranges_from(
            text.spec_bytes(),
            0,
            0,
        ),
{
    let b = text.as_bytes();
    let ghost full = split_ranges_from(b@, 0, 0);
    let mut out: Vec<(usize, usize)> = Vec::new();
    let mut start: usize = 0;
    let mut i: usize = 0;
    while i < b.len()
        invariant
            start <= i <= b.len(),
            full == split_ranges_from(b@, 0, 0),
            full == out@.map_values(|x: (usize, usize)| (x.0 as int, x.1 as int))
                + split_ranges_from(b@, i as int, start as int),
        decreases b.len() - i,
    {
        if b[i] == 10 {
            out.push((start, i));
            start = i + 1;
        }
        assert(full =~= out@.map_values(|x: (usize, usize)| (x.0 as int, x.1 as int))
            + split_ranges_from(b@, i + 1, start as int));
        i = i + 1;
    }
    out.push((start, b.len()));
    assert(full =~= out@.map_values(|x: (usize, usize)| (x.0 as int, x.1 as int)));
    out
}

/// The lines of a text tile it around its newlines: the first starts at
/// 0, each next one starts one byte, the newline, after the one before
/// ends, that byte is a newline, and the last ends at the text's end.
pub proof fn law_lines_tile_the_text(b: Seq<u8>, i: int, start: int)
    requires
        0 <= start <= i <= b.len(),
    ensures
        ({
            let r = split_ranges_from(b, i, start);
            &&& r.len() > 0
            &&& r[0].0 == start
            &&& r[r.len() - 1].1 == b.len()
            &&& forall|k: int| 0 < k < r.len() ==> (#[trigger] r[k]).0 == r[k - 1].1 + 1 && b[r[k
                - 1].1] == 10
            &&& forall|k: int| 0 <= k < r.len() ==> (#[trigger] r[k]).0 <= r[k].1
        }),
    decreases b.len() - i,
{
    if i >= b.len() {
    } else if b[i] == 10 {
        law_lines_tile_the_text(b, i + 1, i + 1);
        let tail = split_ranges_from(b, i + 1, i + 1);
        let r = seq![(start, i)] + tail;
        assert(r == split_ranges_from(b, i, start));
        assert forall|k: int| 0 < k < r.len() implies (#[trigger] r[k]).0 == r[k - 1].1 + 1 && b[r[k
            - 1].1] == 10 by {
            assert(r[k] == tail[k - 1]);
            if k > 1 {
                assert(r[k - 1] == tail[k - 2]);
            }
        }
        assert forall|k: int| 0 <= k < r.len() implies (#[trigger] r[k]).0 <= r[k].1 by {
            if k > 0 {
                assert(r[k] == tail[k - 1]);
            }
        }
    } else {
        law_lines_tile_the_text(b, i + 1, start);
    }
}

/// A wrapped line's chunks before their ends are known: every chunk but
/// the last of a line ends at 0 until fixed up.
pub open spec fn fixed_end(lines: Seq<(usize, usize)>, i: int) -> usize {
    if i + 1 < lines.len() && lines[i].1 == 0 {
        if lines[i + 1].0 >= 1 {
            (lines[i + 1].0 - 1) as usize
        } else {
            0
        }
    } else {
        lines[i].1
    }
}

/// A wrapped chunk ends at the space the break removed, one byte before
/// the next chunk starts: every line but the last whose end is still 0
/// gets that end.
pub fn fix_chunk_ends(lines: &mut Vec<(usize, usize)>)
    ensures
        final(lines)@.len() == old(lines)@.len(),
        forall|i: int|
            0 <= i < old(lines)@.len() ==> #[trigger] final(lines)@[i] == (
                old(lines)@[i].0,
                fixed_end(old(lines)@, i),
            ),
{
    let ghost before = lines@;
    let n = lines.len();
    let last = if n > 0 {
        n - 1
    } else {
        0
    };
    let mut i: usize = 0;
    while i < last
        invariant
            last == (if n > 0 {
                n - 1
            } else {
                0
            }),
            i <= n,
            n == before.len(),
            lines@.len() == n,
            i <= n,
            forall|k: int| 0 <= k < i ==> #[trigger] lines@[k] == (before[k].0, fixed_end(before, k)),
            forall|k: int| i <= k < n ==> #[trigger] lines@[k] == before[k],
        decreases n - i,
    {
        let (start, end) = lines[i];
        if end == 0 {
            let next = lines[i + 1].0;
            let fixed = if next >= 1 {
                next - 1
            } else {
                0
            };
            lines.set(i, (start, fixed));
        }
        i = i + 1;
    }
}

/// The sum of the first `k` lengths.
pub open spec fn prefix_sum(lengths: Seq<usize>, k: int) -> int
    decreases k,
{
    if k <= 0 {
        0
    } else {
        prefix_sum(lengths, k - 1) + lengths[k - 1]
    }
}

/// Where each section starts in the text the sections make together:
/// the sum of the lengths before it.
pub fn section_starts(lengths: &Vec<usize>) -> (starts: Vec<usize>)
    requires
        prefix_sum(lengths@, lengths.len() as int) <= usize::MAX,
    ensures
        starts@.len() == lengths.len(),
        forall|k: int| 0 <= k < lengths.len() ==> #[trigger] starts@[k] == prefix_sum(lengths@, k),
{
    let mut starts: Vec<usize> = Vec::new();
    let mut start: usize = 0;
    let mut k: usize = 0;
    while k < lengths.len()
        invariant
            k <= lengths.len(),
            starts@.len() == k,
            start == prefix_sum(lengths@, k as int),
            prefix_sum(lengths@, lengths.len() as int) <= usize::MAX,
            forall|j: int| 0 <= j < k ==> #[trigger] starts@[j] == prefix_sum(lengths@, j),
        decreases lengths.len() - k,
    {
        starts.push(start);
        proof {
            lemma_prefix_sum_grows(lengths@, k + 1, lengths.len() as int);
        }
        start = start + lengths[k];
        k = k + 1;
    }
    starts
}

proof fn lemma_prefix_sum_grows(lengths: Seq<usize>, a: int, b: int)
    requires
        0 <= a <= b <= lengths.len(),
    ensures
        prefix_sum(lengths, a) <= prefix_sum(lengths, b),
    decreases b - a,
{
    if a < b {
        lemma_prefix_sum_grows(lengths, a, b - 1);
    }
}

/// The first position from `i` on whose start is past `byte`, as
/// `partition_point` finds it in ascending starts.
pub open spec fn first_past(starts: Seq<usize>, i: int, byte: int) -> int
    decreases starts.len() - i,
{
    if i < 0 || i >= starts.len() {
        starts.len() as int
    } else if starts[i] > byte {
        i
    } else {
        first_past(starts, i + 1, byte)
    }
}

/// The section a byte of the whole text falls in, and the byte's index
/// inside that section: the last section starting at or before it.
pub fn section_of(starts: &Vec<usize>, byte: usize) -> (r: (usize, usize))
    requires
        starts.len() > 0,
        starts@[0] <= byte,
    ensures
        r.0 == first_past(starts@, 0, byte as int) - 1,
        r.1 == byte - starts@[r.0 as int],
{
    let mut i: usize = 0;
    while i < starts.len() && starts[i] <= byte
        invariant
            i <= starts.len(),
            first_past(starts@, 0, byte as int) == first_past(starts@, i as int, byte as int),
            i > 0 ==> starts@[i - 1] <= byte,
        decreases starts.len() - i,
    {
        i = i + 1;
    }
    let index = i - 1;
    (index, byte - starts[index])
}

/// A control char, general category `Cc`.
pub open spec fn is_control(c: char) -> bool {
    (c as u32) <= 0x1F || (0x7F <= (c as u32) && (c as u32) <= 0x9F)
}

/// Whether a char stays with its effective font: shapers handle white
/// space and control chars without a glyph, and a font that has a glyph
/// for the char draws it.
pub fn keeps_own_font(c: char, font_has_glyph: bool) -> (r: bool)
    ensures
        r == (crate::chars::is_white(c) || is_control(c) || font_has_glyph),
{
    let u = c as u32;
    let white = (9 <= u && u <= 13) || u == 32 || u == 0x85 || u == 0xA0 || u == 0x1680 || (0x2000
        <= u && u <= 0x200A) || u == 0x2028 || u == 0x2029 || u == 0x202F || u == 0x205F || u
        == 0x3000;
    let control = u <= 0x1F || (0x7F <= u && u <= 0x9F);
    white || control || font_has_glyph
}

/// The index of the first fallback from `i` on that covers the char.
pub open spec fn first_covering(covers: Seq<bool>, i: int) -> Option<int>
    decreases covers.len() - i,
{
    if i < 0 || i >= covers.len() {
        None
    } else if covers[i] {
        Some(i)
    } else {
        first_covering(covers, i + 1)
    }
}

/// The font a char is drawn with: its effective font when it keeps it,
/// else the first fallback that covers it, else still the effective
/// font. `covers[i]` tells whether `fallbacks[i]` has a glyph for it.
pub fn pick_font(effective: &String, keeps_own: bool, fallbacks: &Vec<String>, covers: &Vec<bool>) -> (r: String)
    requires
        covers.len() == fallbacks.len(),
    ensures
        keeps_own ==> r@ == effective@,
        !keeps_own ==> r@ == match first_covering(covers@, 0) {
            Some(i) => fallbacks@[i]@,
            None => effective@,
        },
{
    if keeps_own {
        return effective.clone();
    }
    let mut i: usize = 0;
    while i < covers.len()
        invariant
            i <= covers.len(),
            !keeps_own,
            covers.len() == fallbacks.len(),
            first_covering(covers@, 0) == first_covering(covers@, i as int),
        decreases covers.len() - i,
    {
        if covers[i] {
            return fallbacks[i].clone();
        }
        i = i + 1;
    }
    effective.clone()
}


/// The fallback found covers the char, and comes no earlier than `i`.
pub proof fn lemma_first_covering_in_range(covers: Seq<bool>, i: int)
    ensures
        first_covering(covers, i) matches Some(j) ==> i <= j < covers.len() && covers[j],
    decreases covers.len() - i,
{
    if 0 <= i < covers.len() && !covers[i] {
        lemma_first_covering_in_range(covers, i + 1);
    }
}

/// Runs merge as far as they can: no run ends where the next one starts
/// in the same font.
pub proof fn law_merged_runs_are_maximal(spans: Seq<(usize, usize, Seq<char>)>)
    ensures
        forall|k: int|
            0 <= k < merged(spans).len() - 1 ==> !(#[trigger] merged(spans)[k].2 == merged(spans)[k
                + 1].2 && merged(spans)[k].1 == merged(spans)[k + 1].0),
    decreases spans.len(),
{
    if spans.len() > 0 {
        law_merged_runs_are_maximal(spans.drop_last());
        let acc = merged(spans.drop_last());
        let m = merged(spans);
        let sp = spans.last();
        assert forall|k: int| 0 <= k < m.len() - 1 implies !(#[trigger] m[k].2 == m[k + 1].2 && m[k].1
            == m[k + 1].0) by {
            if acc.len() > 0 && acc.last().2 == sp.2 && acc.last().1 == sp.0 {
                assert(m[k] == acc[k]);
                if k + 1 < acc.len() - 1 {
                    assert(m[k + 1] == acc[k + 1]);
                } else {
                    assert(m[k + 1].0 == acc[k + 1].0 && m[k + 1].2 == acc[k + 1].2);
                }
            } else {
                assert(m[k] == acc.push(sp)[k]);
                assert(m[k + 1] == acc.push(sp)[k + 1]);
            }
        }
    }
}

/// No run left after dropping the base font's runs is in the base font.
pub proof fn law_fallback_runs_leave_out_the_base(spans: Seq<(usize, usize, Seq<char>)>, base: Seq<char>)
    ensures
        forall|k: int|
            0 <= k < fallback_runs(spans, base).len() ==> (#[trigger] fallback_runs(spans, base)[k]).2
                != base,
{
    let m = merged(spans);
    assert forall|k: int| 0 <= k < fallback_runs(spans, base).len() implies (#[trigger] fallback_runs(
        spans,
        base,
    )[k]).2 != base by {
        m.lemma_filter_pred(not_font(base), k);
    }
}

/// How many bytes `c` takes in UTF-8.
pub open spec fn utf8_len(c: char) -> int {
    let u = c as u32;
    if u < 0x80 {
        1
    } else if u < 0x800 {
        2
    } else if u < 0x10000 {
        3
    } else {
        4
    }
}

/// How many bytes `c` takes in UTF-8.
pub fn char_len_utf8(c: char) -> (n: usize)
    ensures
        n == utf8_len(c),
{
    let u = c as u32;
    if u < 0x80 {
        1
    } else if u < 0x800 {
        2
    } else if u < 0x10000 {
        3
    } else {
        4
    }
}

/// The font a char is drawn with: `effective`, the font its byte is in,
/// when the char keeps it (white space, a control char, or a glyph in
/// that font, `own`); else the first fallback that covers it, `covers[j]`
/// telling whether `fallbacks[j]` does; else still `effective`.
pub open spec fn char_font(c: char, effective: Seq<char>, own: bool, fallbacks: Seq<Seq<char>>, covers: Seq<bool>) -> Seq<char> {
    if crate::chars::is_white(c) || is_control(c) || own {
        effective
    } else {
        match first_covering(covers, 0) {
            Some(j) => fallbacks[j],
            None => effective,
        }
    }
}

/// The font names as chars.
pub open spec fn names_view(names: Seq<String>) -> Seq<Seq<char>> {
    names.map_values(|n: String| n@)
}

/// The span of char `i` of the text, at byte `chars[i].0`: its bytes and
/// the font that draws it.
pub open spec fn char_span(
    chars: Seq<(usize, char)>,
    i: int,
    runs: Seq<(usize, usize, Seq<char>)>,
    base: Seq<char>,
    own: Seq<bool>,
    fallbacks: Seq<Seq<char>>,
    covers: Seq<Vec<bool>>,
) -> (usize, usize, Seq<char>) {
    let (byte, c) = chars[i];
    (
        byte,
        (byte + utf8_len(c)) as usize,
        char_font(c, effective(runs, byte as int, base), own[i], fallbacks, covers[i]@),
    )
}

/// Rebuilds `runs` so every char an effective font misses is drawn with
/// the first fallback that covers it. `chars` are the text's chars with
/// their byte offsets; `own[i]` tells whether the font char `i` is in
/// has a glyph for it, and `covers[i][j]` whether fallback `j` does. With
/// no fallbacks or no text the runs come back untouched; else each char
/// gets the span of its bytes in its font, the spans merge into runs, and
/// the base font's runs are dropped, absence of a run meaning the base
/// font.
pub fn runs_with_fallbacks(
    chars: &Vec<(usize, char)>,
    base: &String,
    runs: Vec<FontRun>,
    fallbacks: &Vec<String>,
    own: &Vec<bool>,
    covers: &Vec<Vec<bool>>,
) -> (r: Vec<FontRun>)
    requires
        own.len() == chars.len(),
        covers.len() == chars.len(),
        forall|i: int| 0 <= i < covers.len() ==> (#[trigger] covers[i]).len() == fallbacks.len(),
        forall|i: int| 0 <= i < chars.len() ==> (#[trigger] chars[i]).0 + utf8_len(chars[i].1) <= usize::MAX,
    ensures
        fallbacks.len() == 0 || chars.len() == 0 ==> runs_view(r@) == runs_view(runs@),
        fallbacks.len() > 0 && chars.len() > 0 ==> runs_view(r@) == fallback_runs(
            Seq::new(
                chars.len() as nat,
                |i: int|
                    char_span(
                        chars@,
                        i,
                        runs_view(runs@),
                        base@,
                        own@,
                        names_view(fallbacks@),
                        covers@,
                    ),
            ),
            base@,
        ),
{
    if fallbacks.len() == 0 || chars.len() == 0 {
        return runs;
    }
    let ghost want = Seq::new(
        chars.len() as nat,
        |i: int| char_span(chars@, i, runs_view(runs@), base@, own@, names_view(fallbacks@), covers@),
    );
    let mut spans: Vec<FontRun> = Vec::new();
    let mut i: usize = 0;
    while i < chars.len()
        invariant
            i <= chars.len(),
            own.len() == chars.len(),
            covers.len() == chars.len(),
            forall|k: int| 0 <= k < covers.len() ==> (#[trigger] covers[k]).len() == fallbacks.len(),
            forall|k: int| 0 <= k < chars.len() ==> (#[trigger] chars[k]).0 + utf8_len(chars[k].1) <= usize::MAX,
            want == Seq::new(
                chars.len() as nat,
                |k: int| char_span(chars@, k, runs_view(runs@), base@, own@, names_view(fallbacks@), covers@),
            ),
            runs_view(spans@) == want.take(i as int),
        decreases chars.len() - i,
    {
        let (byte, c) = chars[i];
        let effective = effective_font(&runs, byte, base);
        let keeps = keeps_own_font(c, own[i]);
        assert(covers[i as int].len() == fallbacks.len());
        let font = pick_font(&effective, keeps, fallbacks, &covers[i]);
        let len = char_len_utf8(c);
        assert(chars[i as int].0 + utf8_len(chars[i as int].1) <= usize::MAX);
        let ghost before = spans@;
        proof {
            assert(runs_view(before).len() == before.len());
            assert(before.len() == i);
        }
        spans.push(FontRun { start: byte, end: byte + len, font });
        proof {
            assert(font@ == char_font(c, effective@, own@[i as int], names_view(fallbacks@), covers@[i as int]@)) by {
                if !keeps {
                    match first_covering(covers@[i as int]@, 0) {
                        Some(j) => {
                            lemma_first_covering_in_range(covers@[i as int]@, 0);
                            assert(names_view(fallbacks@)[j] == fallbacks@[j]@);
                        },
                        None => {},
                    }
                }
            }
            assert(want[i as int] == (byte, (byte + len) as usize, font@));
            assert(runs_view(spans@)[i as int] == want[i as int]);
            assert forall|k: int| 0 <= k < i implies #[trigger] runs_view(spans@)[k] == want.take(i + 1)[k] by {
                assert(spans@[k] == before[k]);
                assert(runs_view(before)[k] == want.take(i as int)[k]);
            }
            assert(runs_view(spans@) =~= want.take(i + 1));
        }
        i = i + 1;
    }
    assert(want.take(i as int) =~= want);
    merge_runs(&spans, base)
}

} // verus!
