//! Running on Windows through WSL. `WSLg` reports scale 1 for every
//! monitor whatever Windows is set to, so the scale Windows applies is
//! read from the line its compositor logs when the RDP client reports
//! its monitors, and exported for winit's X11 backend.

use vstd::prelude::*;

use crate::chars::{
    chars_of, contains, find, find_exec, parse_u32, parse_u32_exec, trim, trim_exec,
};

verus! {

/// The lines of `s` the way `str::lines` splits them: at each `\n`,
/// with a `\r` right before it dropped, and no empty line after a final
/// `\n`. `current` is the unfinished line read so far.
pub open spec fn lines_from(s: Seq<char>, current: Seq<char>) -> Seq<Seq<char>>
    decreases s.len(),
{
    if s.len() == 0 {
        if current.len() == 0 {
            seq![]
        } else {
            seq![current]
        }
    } else if s[0] == '\n' {
        seq![strip_cr(current)] + lines_from(s.drop_first(), seq![])
    } else {
        lines_from(s.drop_first(), current.push(s[0]))
    }
}

/// `line` without one trailing `\r`.
pub open spec fn strip_cr(line: Seq<char>) -> Seq<char> {
    if line.len() > 0 && line.last() == '\r' {
        line.drop_last()
    } else {
        line
    }
}

/// The lines of `s`, as `str::lines` yields them.
pub open spec fn lines(s: Seq<char>) -> Seq<Seq<char>> {
    lines_from(s, seq![])
}

/// The marker of the line that reports the first monitor.
pub open spec fn monitor_marker() -> Seq<char> {
    seq!['r', 'd', 'p', 'M', 'o', 'n', 'i', 't', 'o', 'r', '[', '0', ']', ':']
}

/// The key in front of the scale percent on that line.
pub open spec fn scale_key() -> Seq<char> {
    seq![
        'd', 'e', 's', 'k', 't', 'o', 'p', 'S', 'c', 'a', 'l', 'e', 'F', 'a', 'c', 't', 'o', 'r', ':'
    ]
}

/// `s` up to its first `,`, the first item `split(',')` yields.
pub open spec fn before_comma(s: Seq<char>) -> Seq<char> {
    match find(s, seq![',']) {
        Some(i) => s.take(i),
        None => s,
    }
}

/// The scale percent one log line reports: the line names monitor 0,
/// holds `desktopScaleFactor:`, and what follows it up to the next
/// comma, trimmed, is a `u32`.
pub open spec fn scale_of_line(line: Seq<char>) -> Option<u32> {
    if !contains(line, monitor_marker()) {
        None
    } else {
        match find(line, scale_key()) {
            None => None,
            Some(i) => parse_u32(trim(before_comma(line.skip(i + scale_key().len())))),
        }
    }
}

/// `later` when it holds a value, `earlier` otherwise.
pub open spec fn or_else(later: Option<u32>, earlier: Option<u32>) -> Option<u32> {
    match later {
        Some(v) => Some(v),
        None => earlier,
    }
}

/// The scale of the last line in `lines` that reports one.
pub open spec fn last_scale(lines: Seq<Seq<char>>) -> Option<u32>
    decreases lines.len(),
{
    if lines.len() == 0 {
        None
    } else {
        or_else(last_scale(lines.drop_first()), scale_of_line(lines[0]))
    }
}

proof fn lemma_last_scale_cons(line: Seq<char>, rest: Seq<Seq<char>>)
    ensures
        last_scale(seq![line] + rest) == or_else(last_scale(rest), scale_of_line(line)),
{
    assert((seq![line] + rest).drop_first() =~= rest);
}

/// The scale of the line `s[from..to]`, which has no `\n` in it.
fn scale_of_line_exec(s: &Vec<char>, from: usize, to: usize) -> (r: Option<u32>)
    requires
        from <= to <= s.len(),
    ensures
        r == scale_of_line(s@.subrange(from as int, to as int)),
{
    let mut line: Vec<char> = Vec::new();
    let mut k = from;
    while k < to
        invariant
            from <= k <= to <= s.len(),
            line@ == s@.subrange(from as int, k as int),
        decreases to - k,
    {
        line.push(s[k]);
        assert(line@ =~= s@.subrange(from as int, k + 1));
        k = k + 1;
    }
    let marker = vec!['r', 'd', 'p', 'M', 'o', 'n', 'i', 't', 'o', 'r', '[', '0', ']', ':'];
    assert(marker@ =~= monitor_marker());
    if find_exec(&line, &marker).is_none() {
        return None;
    }
    let key = vec![
        'd', 'e', 's', 'k', 't', 'o', 'p', 'S', 'c', 'a', 'l', 'e', 'F', 'a', 'c', 't', 'o', 'r', ':'
    ];
    assert(key@ =~= scale_key());
    match find_exec(&line, &key) {
        None => None,
        Some(i) => {
            let start = i + key.len();
            let mut rest: Vec<char> = Vec::new();
            let mut k = start;
            while k < line.len()
                invariant
                    start <= k <= line.len(),
                    rest@ == line@.subrange(start as int, k as int),
                decreases line.len() - k,
            {
                rest.push(line[k]);
                assert(rest@ =~= line@.subrange(start as int, k + 1));
                k = k + 1;
            }
            assert(rest@ =~= line@.skip(start as int));
            let comma = vec![','];
            assert(comma@ =~= seq![',']);
            let end = match find_exec(&rest, &comma) {
                Some(c) => c,
                None => rest.len(),
            };
            assert(rest@.subrange(0, end as int) =~= before_comma(rest@));
            let trimmed = trim_exec(&rest, 0, end);
            assert(trimmed@.subrange(0, trimmed.len() as int) =~= trimmed@);
            parse_u32_exec(&trimmed, 0, trimmed.len())
        },
    }
}

/// The scale percent Windows applies to the first monitor, from the
/// lines the compositor logs, such as
/// `rdpMonitor[0]: desktopScaleFactor:150, deviceScaleFactor:140`.
/// The last one wins, the client reports again on every change.
pub fn windows_scale(log: &str) -> (r: Option<u32>)
    ensures
        r == last_scale(lines(log@)),
{
    let v = chars_of(log);
    let mut result: Option<u32> = None;
    let mut start: usize = 0;
    let mut i: usize = 0;
    assert(v@.skip(0) =~= v@);
    assert(v@.subrange(0, 0) =~= Seq::<char>::empty());
    while i < v.len()
        invariant
            start <= i <= v.len(),
            v@ == log@,
            last_scale(lines(log@)) == or_else(
                last_scale(lines_from(v@.skip(i as int), v@.subrange(start as int, i as int))),
                result,
            ),
        decreases v.len() - i,
    {
        let ghost cur = v@.subrange(start as int, i as int);
        assert(v@.skip(i as int).drop_first() =~= v@.skip(i + 1));
        assert(v@.skip(i as int)[0] == v@[i as int]);
        if v[i] == '\n' {
            let end = if i > start && v[i - 1] == '\r' {
                i - 1
            } else {
                i
            };
            assert(v@.subrange(start as int, end as int) =~= strip_cr(cur));
            let found = scale_of_line_exec(&v, start, end);
            proof {
                lemma_last_scale_cons(strip_cr(cur), lines_from(v@.skip(i + 1), seq![]));
                assert(v@.subrange(i + 1, i + 1) =~= Seq::<char>::empty());
            }
            if found.is_some() {
                result = found;
            }
            start = i + 1;
        } else {
            assert(cur.push(v@[i as int]) =~= v@.subrange(start as int, i + 1));
        }
        i = i + 1;
    }
    assert(v@.skip(i as int) =~= Seq::<char>::empty());
    if start < v.len() {
        let found = scale_of_line_exec(&v, start, v.len());
        proof {
            let cur = v@.subrange(start as int, i as int);
            lemma_last_scale_cons(cur, seq![]);
            assert(seq![cur] + Seq::<Seq<char>>::empty() =~= seq![cur]);
        }
        if found.is_some() {
            result = found;
        }
    }
    result
}

/// The scale percent to export: none when the user already set one, or
/// when there is no log, or the log has none to offer.
pub fn scale_to_set(preset: Option<&str>, log: Option<&str>) -> (r: Option<u32>)
    ensures
        preset is Some ==> r is None,
        preset is None ==> r == match log {
            Some(l) => last_scale(lines(l@)),
            None => None,
        },
{
    if preset.is_some() {
        return None;
    }
    match log {
        Some(l) => windows_scale(l),
        None => None,
    }
}

} // verus!
