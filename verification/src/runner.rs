//! The decisions of the level test runner: which display modes go
//! together, which tests a `--test-name` list picks, which of them are
//! not registered, and which failures a report lists.

use vstd::prelude::*;

use crate::chars::{chars_of, trim, trim_exec};
use crate::pixels::string_of;

verus! {

/// The display and recording switches of a run.
pub struct Modes {
    pub human: bool,
    pub headless: bool,
    pub screenshot: bool,
    pub record_colors: bool,
    pub present: bool,
}

/// Why a set of switches cannot run.
#[derive(Clone, Copy, Debug, PartialEq, Eq, Structural)]
pub enum ModeError {
    /// `--human` requires a window, not `--headless` or `--screenshot`.
    HumanNeedsWindow,
    /// `--screenshot` requires exactly one `--test-name`.
    ScreenshotNeedsOneTest,
    /// `--present` is its own mode, not with `--headless`, `--screenshot`
    /// or `--human`.
    PresentIsOwnMode,
    /// `--present` requires exactly one `--test-name`.
    PresentNeedsOneTest,
}

/// What the runner prints for a mode error.
pub open spec fn mode_message(e: ModeError) -> Seq<char> {
    match e {
        ModeError::HumanNeedsWindow => "--human requires a window, remove --headless and --screenshot"@,
        ModeError::ScreenshotNeedsOneTest => "--screenshot requires exactly one --test-name"@,
        ModeError::PresentIsOwnMode => "--present is its own mode, remove --headless, --screenshot and --human"@,
        ModeError::PresentNeedsOneTest => "--present requires exactly one --test-name"@,
    }
}

impl ModeError {
    /// The message the runner stops with.
    pub fn message(&self) -> (r: String)
        ensures
            r@ == mode_message(*self),
    {
        match self {
            ModeError::HumanNeedsWindow => "--human requires a window, remove --headless and --screenshot".to_owned(),
            ModeError::ScreenshotNeedsOneTest => "--screenshot requires exactly one --test-name".to_owned(),
            ModeError::PresentIsOwnMode => "--present is its own mode, remove --headless, --screenshot and --human".to_owned(),
            ModeError::PresentNeedsOneTest => "--present requires exactly one --test-name".to_owned(),
        }
    }
}

/// Whether a `--test-name` value names exactly one test: there is one
/// and it holds no comma.
pub open spec fn names_one(test_name: Option<Seq<char>>) -> bool {
    match test_name {
        Some(n) => !n.contains(','),
        None => false,
    }
}

/// The chars of an optional name.
pub open spec fn name_view(name: Option<&str>) -> Option<Seq<char>> {
    match name {
        Some(n) => Some(n@),
        None => None,
    }
}

/// The first rule the switches break, checked in the runner's order.
pub open spec fn mode_error(m: Modes, one_test: bool) -> Option<ModeError> {
    if m.human && (m.headless || m.screenshot) {
        Some(ModeError::HumanNeedsWindow)
    } else if m.screenshot && !one_test {
        Some(ModeError::ScreenshotNeedsOneTest)
    } else if m.present && (m.headless || m.screenshot || m.human) {
        Some(ModeError::PresentIsOwnMode)
    } else if m.present && !one_test {
        Some(ModeError::PresentNeedsOneTest)
    } else {
        None
    }
}

/// The switches' rules: `--human` needs a window, so it never goes with
/// `--headless` or `--screenshot`; `--screenshot` and `--present` each need
/// exactly one test; `--present` goes with none of `--headless`,
/// `--screenshot` and `--human`. Switches that break no rule are accepted,
/// and any that break one are refused with a rule they break, the window
/// rule of `--human` first.
pub proof fn law_mode_rules(m: Modes, one_test: bool)
    ensures
        m.human && (m.headless || m.screenshot) ==> mode_error(m, one_test) == Some(ModeError::HumanNeedsWindow),
        mode_error(m, one_test) is None <==> !(m.human && (m.headless || m.screenshot)) && !(m.screenshot
            && !one_test) && !(m.present && (m.headless || m.screenshot || m.human)) && !(m.present
            && !one_test),
        mode_error(m, one_test) == Some(ModeError::HumanNeedsWindow) ==> m.human && (m.headless
            || m.screenshot),
        mode_error(m, one_test) == Some(ModeError::ScreenshotNeedsOneTest) ==> m.screenshot && !one_test,
        mode_error(m, one_test) == Some(ModeError::PresentIsOwnMode) ==> m.present && (m.headless
            || m.screenshot || m.human),
        mode_error(m, one_test) == Some(ModeError::PresentNeedsOneTest) ==> m.present && !one_test,
{
}

/// Whether `s` holds a comma.
fn has_comma(s: &str) -> (r: bool)
    ensures
        r == s@.contains(','),
{
    let v = chars_of(s);
    let mut i: usize = 0;
    while i < v.len()
        invariant
            i <= v.len(),
            v@ == s@,
            forall|k: int| 0 <= k < i ==> v@[k] != ',',
        decreases v.len() - i,
    {
        if v[i] == ',' {
            return true;
        }
        i = i + 1;
    }
    false
}

/// Checks that the switches go together.
pub fn check_modes(m: &Modes, test_name: Option<&str>) -> (r: Result<(), ModeError>)
    ensures
        r is Ok <==> mode_error(*m, names_one(name_view(test_name))) is None,
        r matches Err(e) ==> mode_error(*m, names_one(name_view(test_name))) == Some(e),
        m.human && (m.headless || m.screenshot) ==> r == Err::<(), ModeError>(ModeError::HumanNeedsWindow),
        r is Ok ==> !(m.screenshot && !names_one(name_view(test_name))) && !(m.present && (m.headless
            || m.screenshot || m.human)) && !(m.present && !names_one(name_view(test_name))),
{
    let one_test = match test_name {
        Some(n) => !has_comma(n),
        None => false,
    };
    if m.human && (m.headless || m.screenshot) {
        return Err(ModeError::HumanNeedsWindow);
    }
    if m.screenshot && !one_test {
        return Err(ModeError::ScreenshotNeedsOneTest);
    }
    if m.present && (m.headless || m.screenshot || m.human) {
        return Err(ModeError::PresentIsOwnMode);
    }
    if m.present && !one_test {
        return Err(ModeError::PresentNeedsOneTest);
    }
    Ok(())
}

/// The pieces of `s` between its commas, from the unfinished piece
/// `current` on.
pub open spec fn split_commas_from(s: Seq<char>, current: Seq<char>) -> Seq<Seq<char>>
    decreases s.len(),
{
    if s.len() == 0 {
        seq![current]
    } else if s[0] == ',' {
        seq![current] + split_commas_from(s.drop_first(), seq![])
    } else {
        split_commas_from(s.drop_first(), current.push(s[0]))
    }
}

/// The test names a comma separated list gives: each piece trimmed.
pub open spec fn requested_names_spec(list: Seq<char>) -> Seq<Seq<char>> {
    split_commas_from(list, seq![]).map_values(|p: Seq<char>| trim(p))
}

/// The names a `--test-name` list asks for, split at each comma and
/// trimmed.
pub fn requested_names(list: &str) -> (r: Vec<String>)
    ensures
        r@.map_values(|s: String| s@) == requested_names_spec(list@),
{
    let v = chars_of(list);
    let mut out: Vec<String> = Vec::new();
    let mut start: usize = 0;
    let mut i: usize = 0;
    assert(v@.skip(0) =~= v@);
    assert(v@.subrange(0, 0) =~= Seq::<char>::empty());
    while i < v.len()
        invariant
            start <= i <= v.len(),
            v@ == list@,
            out@.map_values(|s: String| s@) + split_commas_from(
                v@.skip(i as int),
                v@.subrange(start as int, i as int),
            ).map_values(|p: Seq<char>| trim(p)) == requested_names_spec(list@),
        decreases v.len() - i,
    {
        let ghost cur = v@.subrange(start as int, i as int);
        assert(v@.skip(i as int).drop_first() =~= v@.skip(i + 1));
        assert(v@.skip(i as int)[0] == v@[i as int]);
        if v[i] == ',' {
            let piece = trim_exec(&v, start, i);
            let ghost before = out@;
            out.push(string_of(&piece));
            proof {
                let rest = split_commas_from(v@.skip(i + 1), seq![]);
                assert(v@.subrange(i + 1, i + 1) =~= Seq::<char>::empty());
                assert((seq![cur] + rest).map_values(|p: Seq<char>| trim(p)) =~= seq![trim(cur)]
                    + rest.map_values(|p: Seq<char>| trim(p)));
                assert(out@.map_values(|s: String| s@) =~= before.map_values(|s: String| s@).push(
                    trim(cur),
                ));
                assert(out@.map_values(|s: String| s@) + rest.map_values(|p: Seq<char>| trim(p))
                    =~= before.map_values(|s: String| s@) + (seq![trim(cur)] + rest.map_values(
                    |p: Seq<char>| trim(p),
                )));
            }
            start = i + 1;
        } else {
            assert(cur.push(v@[i as int]) =~= v@.subrange(start as int, i + 1));
        }
        i = i + 1;
    }
    let piece = trim_exec(&v, start, v.len());
    let ghost before = out@;
    out.push(string_of(&piece));
    proof {
        let cur = v@.subrange(start as int, i as int);
        assert(v@.skip(i as int) =~= Seq::<char>::empty());
        assert(seq![cur].map_values(|p: Seq<char>| trim(p)) =~= seq![trim(cur)]);
        assert(out@.map_values(|s: String| s@) =~= before.map_values(|s: String| s@).push(
            trim(cur),
        ));
        assert(out@.map_values(|s: String| s@) =~= before.map_values(|s: String| s@) + seq![
            trim(cur),
        ]);
    }
    out
}

/// Whether `name` is among `known`.
fn is_known(known: &Vec<String>, name: &String) -> (r: bool)
    ensures
        r == exists|k: int| 0 <= k < known@.len() && #[trigger] known@[k]@ == name@,
{
    let mut i: usize = 0;
    while i < known.len()
        invariant
            i <= known.len(),
            forall|k: int| 0 <= k < i ==> #[trigger] known@[k]@ != name@,
        decreases known.len() - i,
    {
        if known[i] == *name {
            return true;
        }
        i = i + 1;
    }
    false
}

/// The chars of each string.
pub open spec fn names_view(v: Seq<String>) -> Seq<Seq<char>> {
    v.map_values(|s: String| s@)
}

/// Whether a name is not among `known`.
pub open spec fn unknown(known: Seq<Seq<char>>) -> spec_fn(Seq<char>) -> bool {
    |n: Seq<char>| !known.contains(n)
}

/// Whether `v` holds `name`.
fn holds(v: &Vec<String>, name: &String) -> (r: bool)
    ensures
        r == names_view(v@).contains(name@),
{
    let mut i: usize = 0;
    while i < v.len()
        invariant
            i <= v.len(),
            forall|k: int| 0 <= k < i ==> names_view(v@)[k] != name@,
        decreases v.len() - i,
    {
        if v[i] == *name {
            assert(names_view(v@)[i as int] == name@);
            return true;
        }
        i = i + 1;
    }
    false
}

/// The requested names no registered test has, in order.
pub fn missing_names(names: &Vec<String>, known: &Vec<String>) -> (r: Vec<String>)
    ensures
        names_view(r@) == names_view(names@).filter(unknown(names_view(known@))),
{
    let mut out: Vec<String> = Vec::new();
    let mut i: usize = 0;
    let ghost all = names_view(names@);
    let ghost keep = unknown(names_view(known@));
    proof {
        reveal_with_fuel(Seq::<_>::filter, 1);
        assert(all.take(0) =~= Seq::<Seq<char>>::empty());
    }
    while i < names.len()
        invariant
            i <= names.len(),
            all == names_view(names@),
            keep == unknown(names_view(known@)),
            names_view(out@) == all.take(i as int).filter(keep),
        decreases names.len() - i,
    {
        proof {
            reveal_with_fuel(Seq::<_>::filter, 1);
        }
        let ghost tk = all.take(i + 1);
        assert(tk.drop_last() =~= all.take(i as int));
        assert(tk.last() == names@[i as int]@);
        let ghost before = out@;
        if !holds(known, &names[i]) {
            out.push(names[i].clone());
            assert(names_view(out@) =~= names_view(before).push(names@[i as int]@));
        }
        assert(names_view(out@) =~= tk.filter(keep));
        i = i + 1;
    }
    assert(all.take(i as int) =~= all);
    out
}

/// `s` without repeats, each value at its first position.
pub open spec fn first_occurrences(s: Seq<Seq<char>>) -> Seq<Seq<char>>
    decreases s.len(),
{
    if s.len() == 0 {
        seq![]
    } else {
        let d = first_occurrences(s.drop_last());
        if d.contains(s.last()) {
            d
        } else {
            d.push(s.last())
        }
    }
}

/// The names of the failed tests, each once, in the order they first
/// failed: a test that failed twice is reported once.
pub fn unique_failures(names: &Vec<String>) -> (r: Vec<String>)
    ensures
        names_view(r@) == first_occurrences(names_view(names@)),
{
    let mut out: Vec<String> = Vec::new();
    let mut i: usize = 0;
    let ghost all = names_view(names@);
    assert(all.take(0) =~= Seq::<Seq<char>>::empty());
    while i < names.len()
        invariant
            i <= names.len(),
            all == names_view(names@),
            names_view(out@) == first_occurrences(all.take(i as int)),
        decreases names.len() - i,
    {
        let ghost tk = all.take(i + 1);
        assert(tk.drop_last() =~= all.take(i as int));
        assert(tk.last() == names@[i as int]@);
        let ghost before = out@;
        if !holds(&out, &names[i]) {
            out.push(names[i].clone());
            assert(names_view(out@) =~= names_view(before).push(names@[i as int]@));
        }
        i = i + 1;
    }
    assert(all.take(i as int) =~= all);
    out
}


/// Every failed test is reported, and none twice.
pub proof fn law_each_failure_reported_once(names: Seq<Seq<char>>)
    ensures
        forall|i: int, j: int|
            0 <= i < j < first_occurrences(names).len() ==> first_occurrences(names)[i]
                != first_occurrences(names)[j],
        forall|k: int| 0 <= k < names.len() ==> first_occurrences(names).contains(#[trigger] names[k]),
        forall|n: Seq<char>| #[trigger] first_occurrences(names).contains(n) ==> names.contains(n),
    decreases names.len(),
{
    if names.len() > 0 {
        let rest = names.drop_last();
        law_each_failure_reported_once(rest);
        let d = first_occurrences(rest);
        let last = names.last();
        let f = first_occurrences(names);
        assert forall|k: int| 0 <= k < names.len() implies f.contains(#[trigger] names[k]) by {
            if k < names.len() - 1 {
                assert(rest[k] == names[k]);
                assert(d.contains(rest[k]));
                if !d.contains(last) {
                    let w = choose|w: int| 0 <= w < d.len() && d[w] == names[k];
                    assert(f[w] == names[k]);
                }
            } else {
                if !d.contains(last) {
                    assert(f[d.len() as int] == last);
                }
            }
        }
        assert forall|n: Seq<char>| #[trigger] f.contains(n) implies names.contains(n) by {
            let w = choose|w: int| 0 <= w < f.len() && f[w] == n;
            if w < d.len() {
                assert(d.contains(n));
                let v = choose|v: int| 0 <= v < rest.len() && rest[v] == n;
                assert(names[v] == n);
            } else {
                assert(names[names.len() - 1] == n);
            }
        }
        assert forall|i: int, j: int| 0 <= i < j < f.len() implies f[i] != f[j] by {
            if j == d.len() && !d.contains(last) {
                assert(d[i] == f[i]);
            }
        }
    }
}

} // verus!
