use hilen::chars::{chars_of, find_exec, occurs_at_exec, parse_u32_exec, trim_exec};
use hilen::pixels::string_of;
use hilen::tint::replace_exec;

fn cs(s: &str) -> Vec<char> {
    chars_of(s)
}

#[test]
fn chars_of_keeps_every_char() {
    assert_eq!(cs("a✓b"), vec!['a', '✓', 'b']);
    assert_eq!(string_of(&cs("a✓b")), "a✓b");
}

#[test]
fn find_gives_the_first_occurrence() {
    assert_eq!(find_exec(&cs("abcabc"), &cs("ca")), Some(2));
    assert_eq!(find_exec(&cs("abc"), &cs("x")), None);
    assert_eq!(find_exec(&cs("abc"), &cs("")), Some(0));
    assert!(occurs_at_exec(&cs("abcabc"), &cs("bc"), 4));
    assert!(!occurs_at_exec(&cs("abcabc"), &cs("bc"), 3));
}

#[test]
fn trim_drops_white_space_at_both_ends() {
    let s = cs("x \t 150 \n y");
    assert_eq!(trim_exec(&s, 1, 9), cs("150"));
    assert_eq!(trim_exec(&s, 1, 3), cs(""));
}

#[test]
fn parse_takes_digits_and_a_plus() {
    let s = cs("+150 99999999999 1a");
    assert_eq!(parse_u32_exec(&s, 0, 4), Some(150));
    assert_eq!(parse_u32_exec(&s, 1, 4), Some(150));
    assert_eq!(parse_u32_exec(&s, 5, 16), None);
    assert_eq!(parse_u32_exec(&s, 17, 19), None);
    assert_eq!(parse_u32_exec(&s, 0, 0), None);
    assert_eq!(parse_u32_exec(&s, 0, 1), None);
}

#[test]
fn replace_swaps_every_occurrence() {
    assert_eq!(replace_exec(&cs("#000 and #000"), &cs("#000"), &cs("#fff")), cs("#fff and #fff"));
    assert_eq!(replace_exec(&cs("aaa"), &cs("aa"), &cs("b")), cs("ba"));
}
