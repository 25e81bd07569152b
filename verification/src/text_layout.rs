//! Where the glyphs of a laid out text land: its lines, the byte range
//! each shows and the caret positions on it. What the caret and the tap
//! to caret mapping read. `X` is an x offset in pixels.

use vstd::prelude::*;

verus! {

/// One laid out line: the byte range of the text it shows and, for every
/// position a caret can take, the line end included, the byte index and
/// the x offset from the line start.
pub struct TextLine<X> {
    pub start: usize,
    pub end: usize,
    pub boundaries: Vec<(usize, X)>,
    pub width: X,
}

/// The lines of a text and the metrics of the font it was shaped with.
pub struct TextLayout<X> {
    pub lines: Vec<TextLine<X>>,
    pub ascent: X,
    pub descent: X,
    pub line_height: X,
    /// The base font's underline: its offset above the baseline and its
    /// thickness.
    pub underline: (X, X),
}

/// The index of the first line from `i` on whose end is at or after
/// `byte`, `None` when no line is.
pub open spec fn first_line_from<X>(lines: Seq<TextLine<X>>, i: int, byte: int) -> Option<int>
    decreases lines.len() - i,
{
    if i < 0 || i >= lines.len() {
        None
    } else if byte <= lines[i].end {
        Some(i)
    } else {
        first_line_from(lines, i + 1, byte)
    }
}

/// The line `byte` is on: the first whose end is at or after it, the
/// last line for a byte past the text, line 0 when there are none.
pub open spec fn line_of_spec<X>(lines: Seq<TextLine<X>>, byte: int) -> int {
    match first_line_from(lines, 0, byte) {
        Some(i) => i,
        None => if lines.len() > 0 {
            lines.len() - 1
        } else {
            0
        },
    }
}

/// The x offset of the first caret position at or after `byte`, from
/// position `i` on.
pub open spec fn boundary_from<X>(boundaries: Seq<(usize, X)>, i: int, byte: int) -> Option<X>
    decreases boundaries.len() - i,
{
    if i < 0 || i >= boundaries.len() {
        None
    } else if boundaries[i].0 >= byte {
        Some(boundaries[i].1)
    } else {
        boundary_from(boundaries, i + 1, byte)
    }
}

/// The x offset of `byte` on a line: that of the first caret position at
/// or after it, the line end for a byte past it, none when the line has
/// no caret positions.
pub open spec fn x_of<X>(boundaries: Seq<(usize, X)>, byte: int) -> Option<X> {
    match boundary_from(boundaries, 0, byte) {
        Some(x) => Some(x),
        None => if boundaries.len() > 0 {
            Some(boundaries.last().1)
        } else {
            None
        },
    }
}

proof fn lemma_first_line_bound<X>(lines: Seq<TextLine<X>>, i: int, byte: int)
    ensures
        first_line_from(lines, i, byte) matches Some(k) ==> i <= k < lines.len(),
    decreases lines.len() - i,
{
    if 0 <= i < lines.len() && !(byte <= lines[i].end) {
        lemma_first_line_bound(lines, i + 1, byte);
    }
}

impl<X: Copy> TextLayout<X> {
    /// The line `byte` is on.
    pub fn line_of(&self, byte: usize) -> (r: usize)
        ensures
            r == line_of_spec(self.lines@, byte as int),
            self.lines.len() > 0 ==> r < self.lines.len(),
    {
        proof {
            lemma_first_line_bound(self.lines@, 0, byte as int);
        }
        let mut i: usize = 0;
        while i < self.lines.len()
            invariant
                i <= self.lines.len(),
                first_line_from(self.lines@, 0, byte as int) == first_line_from(
                    self.lines@,
                    i as int,
                    byte as int,
                ),
            decreases self.lines.len() - i,
        {
            if byte <= self.lines[i].end {
                return i;
            }
            i = i + 1;
        }
        if self.lines.len() > 0 {
            self.lines.len() - 1
        } else {
            0
        }
    }

    /// The x offset of `byte` on `line`, `None` when the line has no
    /// caret positions.
    pub fn x_on_line(&self, line: usize, byte: usize) -> (r: Option<X>)
        requires
            line < self.lines.len(),
        ensures
            r == x_of(self.lines@[line as int].boundaries@, byte as int),
    {
        let boundaries = &self.lines[line].boundaries;
        let mut i: usize = 0;
        while i < boundaries.len()
            invariant
                i <= boundaries.len(),
                line < self.lines.len(),
                boundaries@ == self.lines@[line as int].boundaries@,
                boundary_from(boundaries@, 0, byte as int) == boundary_from(
                    boundaries@,
                    i as int,
                    byte as int,
                ),
            decreases boundaries.len() - i,
        {
            if boundaries[i].0 >= byte {
                return Some(boundaries[i].1);
            }
            i = i + 1;
        }
        if boundaries.len() > 0 {
            Some(boundaries[boundaries.len() - 1].1)
        } else {
            None
        }
    }

    /// Where the caret sits for `byte`: the line index, and the x offset
    /// from the line start, `None` when that line has no caret positions.
    pub fn position_of(&self, byte: usize) -> (r: (usize, Option<X>))
        requires
            self.lines.len() > 0,
        ensures
            r.0 == line_of_spec(self.lines@, byte as int),
            r.1 == x_of(self.lines@[r.0 as int].boundaries@, byte as int),
    {
        let index = self.line_of(byte);
        let x = self.x_on_line(index, byte);
        (index, x)
    }
}


/// The caret positions the first `n` glyphs of a line give: one at each
/// glyph that starts a new cluster, at that glyph's x offset.
pub open spec fn cluster_starts<X>(clusters: Seq<usize>, xs: Seq<X>, n: nat) -> Seq<(usize, X)>
    decreases n,
{
    if n == 0 {
        Seq::empty()
    } else {
        let b = cluster_starts(clusters, xs, (n - 1) as nat);
        if b.len() > 0 && b.last().0 == clusters[n - 1] {
            b
        } else {
            b.push((clusters[n - 1], xs[n - 1]))
        }
    }
}

/// The caret positions of a shaped line: glyph `i` starts the text at
/// byte `clusters[i]` at x offset `xs[i]`. A position goes at the first
/// glyph of each cluster, and the last at the line's `end`, `width` from
/// its start.
pub fn caret_boundaries<X: Copy>(clusters: &Vec<usize>, xs: &Vec<X>, end: usize, width: X) -> (r: Vec<(usize, X)>)
    requires
        clusters.len() == xs.len(),
    ensures
        r@ == cluster_starts(clusters@, xs@, clusters.len() as nat).push((end, width)),
{
    let mut r: Vec<(usize, X)> = Vec::new();
    let mut i: usize = 0;
    while i < clusters.len()
        invariant
            clusters.len() == xs.len(),
            i <= clusters.len(),
            r@ == cluster_starts(clusters@, xs@, i as nat),
        decreases clusters.len() - i,
    {
        let n = r.len();
        if n == 0 || r[n - 1].0 != clusters[i] {
            r.push((clusters[i], xs[i]));
        }
        i = i + 1;
    }
    r.push((end, width));
    r
}

} // verus!
