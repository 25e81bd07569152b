//! Tinted SVG images. The tinting is naive on purpose: every `#000000`
//! in the SVG text becomes the tint's hex, so every element meant to
//! take the tint is drawn black in the file.

use vstd::prelude::*;
use vstd::string::StrSliceExecFns;
use vstd::utf8::{decode_utf8, encode_utf8, valid_utf8};

use crate::chars::{occurs_at, occurs_at_exec};
use crate::pixels::{U8Color, hex_of, string_of};

verus! {

/// An SVG image name and the color its black turns into.
pub struct Tinted {
    pub tint: U8Color,
    pub name: String,
}

/// The name a tinted image is stored under: the image name, a colon,
/// and the tint's hex.
pub open spec fn tinted_name_spec(name: Seq<char>, tint: U8Color) -> Seq<char> {
    name + seq![':'] + hex_of(tint)
}

/// The name the image `name` tinted with `tint` is cached under.
pub fn tinted_name(name: &str, tint: U8Color) -> (r: String)
    ensures
        r@ == tinted_name_spec(name@, tint),
{
    let mut s = name.to_owned();
    s.append(":");
    proof {
        reveal_strlit(":");
    }
    let hex = tint.as_hex();
    s.append(hex.as_str());
    s
}

/// `s` from position `i` on with every occurrence of `pat` replaced by
/// `rep`, left to right, occurrences not overlapping.
pub open spec fn replace_from(s: Seq<char>, pat: Seq<char>, rep: Seq<char>, i: int) -> Seq<char>
    decreases s.len() - i,
{
    if i < 0 || i >= s.len() {
        seq![]
    } else if pat.len() > 0 && occurs_at(s, pat, i) {
        rep + replace_from(s, pat, rep, i + pat.len())
    } else {
        seq![s[i]] + replace_from(s, pat, rep, i + 1)
    }
}

/// `str::replace` for a pattern that is not empty.
pub open spec fn replace_all(s: Seq<char>, pat: Seq<char>, rep: Seq<char>) -> Seq<char> {
    replace_from(s, pat, rep, 0)
}

/// The black every tinted element is drawn in.
pub open spec fn black_hex() -> Seq<char> {
    seq!['#', '0', '0', '0', '0', '0', '0']
}

/// `s` with every `pat` replaced by `rep`.
pub fn replace_exec(s: &Vec<char>, pat: &Vec<char>, rep: &Vec<char>) -> (r: Vec<char>)
    requires
        pat.len() > 0,
    ensures
        r@ == replace_all(s@, pat@, rep@),
{
    let mut out: Vec<char> = Vec::new();
    let mut i: usize = 0;
    while i < s.len()
        invariant
            pat.len() > 0,
            i <= s.len(),
            replace_all(s@, pat@, rep@) == out@ + replace_from(s@, pat@, rep@, i as int),
        decreases s.len() - i,
    {
        let here = pat.len() <= s.len() - i && occurs_at_exec(s, pat, i);
        if here {
            let mut k: usize = 0;
            let ghost before = out@;
            while k < rep.len()
                invariant
                    k <= rep.len(),
                    out@ == before + rep@.take(k as int),
                decreases rep.len() - k,
            {
                out.push(rep[k]);
                assert(out@ =~= before + rep@.take(k + 1));
                k = k + 1;
            }
            assert(rep@.take(k as int) =~= rep@);
            assert(out@ + replace_from(s@, pat@, rep@, i + pat.len()) =~= before + (rep@
                + replace_from(s@, pat@, rep@, i + pat.len())));
            i = i + pat.len();
        } else {
            let ghost before = out@;
            out.push(s[i]);
            assert(out@ + replace_from(s@, pat@, rep@, i + 1) =~= before + (seq![s@[i as int]]
                + replace_from(s@, pat@, rep@, i + 1)));
            i = i + 1;
        }
    }
    assert(out@ + replace_from(s@, pat@, rep@, i as int) =~= out@);
    out
}

/// `std::str::from_utf8`: text exactly for valid UTF-8 bytes, the text
/// they decode to.
#[verifier::external_body]
fn str_from_utf8(data: &[u8]) -> (r: Option<&str>)
    ensures
        r is Some <==> valid_utf8(data@),
        r matches Some(s) ==> s@ == decode_utf8(data@),
{
    std::str::from_utf8(data).ok()
}

/// The SVG text `data` with its black turned into `tint`. `None` when the
/// data is not text at all, most likely not an SVG.
pub fn tint_svg(data: &[u8], tint: U8Color) -> (r: Option<String>)
    ensures
        r is Some <==> valid_utf8(data@),
        r matches Some(s) ==> s@ == replace_all(decode_utf8(data@), black_hex(), hex_of(tint)),
{
    match str_from_utf8(data) {
        Some(text) => {
            let chars = crate::chars::chars_of(text);
            let black = vec!['#', '0', '0', '0', '0', '0', '0'];
            assert(black@ =~= black_hex());
            let hex = crate::chars::chars_of(tint.as_hex().as_str());
            let tinted = replace_exec(&chars, &black, &hex);
            Some(string_of(&tinted))
        },
        None => None,
    }
}


/// The bytes of the image an SVG tinted with `tint` is made from: the
/// SVG text with its black turned into the tint, as UTF-8; or, when
/// `data` is not text at all, most likely not an SVG, the bytes of the
/// default image, `default`.
pub fn tinted_svg_data(data: &[u8], tint: U8Color, default: &[u8]) -> (r: Vec<u8>)
    ensures
        valid_utf8(data@) ==> r@ == encode_utf8(
            replace_all(decode_utf8(data@), black_hex(), hex_of(tint)),
        ),
        !valid_utf8(data@) ==> r@ == default@,
{
    match tint_svg(data, tint) {
        Some(text) => text.as_str().as_bytes_vec(),
        None => bytes_of(default),
    }
}

/// What `std::path::Path::extension` gives for the path `name`, as
/// text.
pub uninterp spec fn path_extension(name: Seq<char>) -> Option<Seq<char>>;

/// The text as chars, when there is one.
pub open spec fn text_view(t: Option<String>) -> Option<Seq<char>> {
    match t {
        Some(s) => Some(s@),
        None => None,
    }
}

/// `std::path::Path::extension` of the path `name`: the part of its last
/// component after the final dot, as the standard library finds it.
#[verifier::external_body]
fn extension_of(name: &str) -> (r: Option<String>)
    ensures
        text_view(r) == path_extension(name@),
{
    std::path::Path::new(name).extension().map(|e| e.to_string_lossy().into_owned())
}

/// `c` with an ASCII capital letter made small.
pub open spec fn ascii_lower(c: char) -> char {
    if 'A' <= c <= 'Z' {
        ((c as u32) + 32) as char
    } else {
        c
    }
}

/// `a` and `b` are equal ignoring the case of ASCII letters.
pub open spec fn eq_ignore_ascii_case(a: Seq<char>, b: Seq<char>) -> bool {
    a.len() == b.len() && forall|i: int| 0 <= i < a.len() ==> ascii_lower(#[trigger] a[i]) == ascii_lower(b[i])
}

/// Whether the file `name` is an SVG by its extension, in any case.
pub open spec fn is_svg(name: Seq<char>) -> bool {
    path_extension(name) matches Some(ext) && eq_ignore_ascii_case(ext, seq!['s', 'v', 'g'])
}

fn lower(c: char) -> (r: char)
    ensures
        r == ascii_lower(c),
{
    if 'A' <= c && c <= 'Z' {
        ((c as u8) + 32) as char
    } else {
        c
    }
}

/// Whether the file `name` has the extension `svg`, in any case.
pub fn svg_name(name: &str) -> (r: bool)
    ensures
        r == is_svg(name@),
{
    match extension_of(name) {
        Some(ext) => {
            let e = crate::chars::chars_of(ext.as_str());
            let svg = vec!['s', 'v', 'g'];
            assert(path_extension(name@) == Some(e@));
            assert(svg@ =~= seq!['s', 'v', 'g']);
            if e.len() != 3 {
                assert(seq!['s', 'v', 'g'].len() == 3);
                return false;
            }
            let mut i: usize = 0;
            while i < 3
                invariant
                    e.len() == 3,
                    path_extension(name@) == Some(e@),
                    svg@ == seq!['s', 'v', 'g'],
                    i <= 3,
                    forall|k: int| 0 <= k < i ==> ascii_lower(#[trigger] e@[k]) == ascii_lower(svg@[k]),
                decreases 3 - i,
            {
                if lower(e[i]) != lower(svg[i]) {
                    assert(!eq_ignore_ascii_case(e@, seq!['s', 'v', 'g'])) by {
                        assert(ascii_lower(e@[i as int]) != ascii_lower(svg@[i as int]));
                    }
                    return false;
                }
                i = i + 1;
            }
            assert(eq_ignore_ascii_case(e@, seq!['s', 'v', 'g']));
            true
        },
        None => false,
    }
}

/// A copy of the bytes.
fn bytes_of(data: &[u8]) -> (r: Vec<u8>)
    ensures
        r@ == data@,
{
    let mut r: Vec<u8> = Vec::new();
    let mut i: usize = 0;
    while i < data.len()
        invariant
            i <= data.len(),
            r@ == data@.take(i as int),
        decreases data.len() - i,
    {
        r.push(data[i]);
        assert(r@ =~= data@.take(i + 1));
        i = i + 1;
    }
    assert(data@.take(i as int) =~= data@);
    r
}

/// The data stored under `name`: the first entry with that name.
pub open spec fn source_of(entries: Seq<(Seq<char>, Seq<u8>)>, name: Seq<char>) -> Option<Seq<u8>>
    decreases entries.len(),
{
    if entries.len() == 0 {
        None
    } else if entries[0].0 == name {
        Some(entries[0].1)
    } else {
        source_of(entries.drop_first(), name)
    }
}

/// The raw bytes of every SVG downloaded so far, by name. Where there is
/// no file system to read an SVG from again, these are what gets tinted.
pub struct SvgSources {
    pub entries: Vec<(String, Vec<u8>)>,
}

pub open spec fn sources_view(entries: Seq<(String, Vec<u8>)>) -> Seq<(Seq<char>, Seq<u8>)> {
    entries.map_values(|e: (String, Vec<u8>)| (e.0@, e.1@))
}

proof fn lemma_source_of_update(s: Seq<(Seq<char>, Seq<u8>)>, i: int, name: Seq<char>, data: Seq<u8>, n: Seq<char>)
    requires
        0 <= i < s.len(),
        s[i].0 == name,
        forall|j: int| 0 <= j < i ==> s[j].0 != name,
    ensures
        source_of(s.update(i, (name, data)), n) == (if n == name {
            Some(data)
        } else {
            source_of(s, n)
        }),
    decreases i,
{
    let u = s.update(i, (name, data));
    if i > 0 {
        lemma_source_of_update(s.drop_first(), i - 1, name, data, n);
        assert(u.drop_first() =~= s.drop_first().update(i - 1, (name, data)));
        assert(u[0] == s[0]);
    } else {
        assert(u.drop_first() =~= s.drop_first());
        assert(u[0] == (name, data));
    }
}

proof fn lemma_source_of_push(s: Seq<(Seq<char>, Seq<u8>)>, name: Seq<char>, data: Seq<u8>, n: Seq<char>)
    requires
        forall|j: int| 0 <= j < s.len() ==> s[j].0 != name,
    ensures
        source_of(s.push((name, data)), n) == (if n == name {
            Some(data)
        } else {
            source_of(s, n)
        }),
    decreases s.len(),
{
    let p = s.push((name, data));
    if s.len() > 0 {
        assert forall|j: int| 0 <= j < s.drop_first().len() implies s.drop_first()[j].0 != name by {
            assert(s.drop_first()[j] == s[j + 1]);
        }
        assert(s[0].0 != name);
        lemma_source_of_push(s.drop_first(), name, data, n);
        assert(p.drop_first() =~= s.drop_first().push((name, data)));
        assert(p[0] == s[0]);
        if n == s[0].0 {
            assert(source_of(p, n) == Some(s[0].1));
            assert(source_of(s, n) == Some(s[0].1));
        } else {
            assert(source_of(p, n) == source_of(p.drop_first(), n));
            assert(source_of(s, n) == source_of(s.drop_first(), n));
        }
    } else {
        assert(p.drop_first() =~= Seq::<(Seq<char>, Seq<u8>)>::empty());
        assert(p[0] == (name, data));
    }
}

proof fn lemma_source_of_absent(s: Seq<(Seq<char>, Seq<u8>)>, name: Seq<char>)
    requires
        forall|j: int| 0 <= j < s.len() ==> s[j].0 != name,
    ensures
        source_of(s, name) is None,
    decreases s.len(),
{
    if s.len() > 0 {
        lemma_source_of_absent(s.drop_first(), name);
    }
}

proof fn lemma_source_of_first(s: Seq<(Seq<char>, Seq<u8>)>, i: int, name: Seq<char>)
    requires
        0 <= i < s.len(),
        s[i].0 == name,
        forall|j: int| 0 <= j < i ==> s[j].0 != name,
    ensures
        source_of(s, name) == Some(s[i].1),
    decreases i,
{
    if i > 0 {
        lemma_source_of_first(s.drop_first(), i - 1, name);
    }
}

impl SvgSources {
    pub open spec fn view(&self) -> Seq<(Seq<char>, Seq<u8>)> {
        sources_view(self.entries@)
    }

    pub fn new() -> (r: Self)
        ensures
            r.view() == Seq::<(Seq<char>, Seq<u8>)>::empty(),
            forall|n: Seq<char>| source_of(r.view(), n) is None,
    {
        let r = SvgSources { entries: Vec::new() };
        assert(r.view() =~= Seq::<(Seq<char>, Seq<u8>)>::empty());
        r
    }

    /// Where the first entry named `name` is.
    fn find(&self, name: &str) -> (r: Option<usize>)
        ensures
            r matches Some(i) ==> i < self.entries.len() && self.view()[i as int].0 == name@ && forall|j: int|
                0 <= j < i ==> self.view()[j].0 != name@,
            r is None ==> forall|j: int| 0 <= j < self.entries.len() ==> self.view()[j].0 != name@,
    {
        let key = name.to_owned();
        let mut i: usize = 0;
        while i < self.entries.len()
            invariant
                i <= self.entries.len(),
                key@ == name@,
                forall|j: int| 0 <= j < i ==> self.view()[j].0 != name@,
            decreases self.entries.len() - i,
        {
            if self.entries[i].0 == key {
                return Some(i);
            }
            i = i + 1;
        }
        None
    }

    /// Keeps `data` under `name` when it names an SVG; other files are not
    /// kept.
    pub fn store(&mut self, name: &str, data: &[u8])
        ensures
            forall|n: Seq<char>|
                #![trigger source_of(final(self).view(), n)]
                source_of(final(self).view(), n) == (if is_svg(name@) && n == name@ {
                    Some(data@)
                } else {
                    source_of(old(self).view(), n)
                }),
    {
        if !svg_name(name) {
            return;
        }
        let bytes = bytes_of(data);
        let ghost before = self.view();
        match self.find(name) {
            Some(i) => {
                let _gone = self.entries.remove(i);
                self.entries.insert(i, (name.to_owned(), bytes));
                proof {
                    assert(self.view() =~= before.update(i as int, (name@, data@)));
                    assert forall|n: Seq<char>| #[trigger] source_of(self.view(), n) == (if n == name@ {
                        Some(data@)
                    } else {
                        source_of(before, n)
                    }) by {
                        lemma_source_of_update(before, i as int, name@, data@, n);
                    }
                }
            },
            None => {
                self.entries.push((name.to_owned(), bytes));
                proof {
                    assert(self.view() =~= before.push((name@, data@)));
                    assert forall|n: Seq<char>| #[trigger] source_of(self.view(), n) == (if n == name@ {
                        Some(data@)
                    } else {
                        source_of(before, n)
                    }) by {
                        lemma_source_of_push(before, name@, data@, n);
                    }
                }
            },
        }
    }

    /// The bytes kept under `name`.
    pub fn get(&self, name: &str) -> (r: Option<Vec<u8>>)
        ensures
            match r {
                Some(v) => source_of(self.view(), name@) == Some(v@),
                None => source_of(self.view(), name@) is None,
            },
    {
        match self.find(name) {
            Some(i) => {
                proof {
                    lemma_source_of_first(self.view(), i as int, name@);
                }
                Some(crate::text_cache::copy_vec(&self.entries[i].1))
            },
            None => {
                proof {
                    lemma_source_of_absent(self.view(), name@);
                }
                None
            },
        }
    }
}

} // verus!
