use hilen::runs::{
    char_len_utf8, keeps_own_font, pick_font, runs_with_fallbacks, section_of, section_starts,
    FontRun,
};

fn run(start: usize, end: usize, font: &str) -> FontRun {
    FontRun { start, end, font: font.to_string() }
}

fn view(runs: &[FontRun]) -> Vec<(usize, usize, String)> {
    runs.iter().map(|r| (r.start, r.end, r.font.clone())).collect()
}

/// What the fallback pass needs to know of a text: its chars and, for
/// each, whether its own font and each fallback have a glyph for it.
fn coverage(
    text: &str,
    runs: &Vec<FontRun>,
    base: &str,
    fallbacks: &[&str],
    has_glyph: impl Fn(&str, char) -> bool,
) -> (Vec<(usize, char)>, Vec<bool>, Vec<Vec<bool>>) {
    let chars: Vec<(usize, char)> = text.char_indices().collect();
    let own = chars
        .iter()
        .map(|&(b, c)| {
            let font = hilen::runs::effective_font(runs, b, &base.to_string());
            has_glyph(&font, c)
        })
        .collect();
    let covers = chars.iter().map(|&(_, c)| fallbacks.iter().map(|f| has_glyph(f, c)).collect()).collect();
    (chars, own, covers)
}

/// The base font draws ASCII, the emoji font draws everything else, the
/// symbols font only the check mark.
fn fonts(font: &str, c: char) -> bool {
    match font {
        "Base" | "Bold" => c.is_ascii(),
        "Emoji" => !c.is_ascii(),
        "Symbols" => c == '✓',
        _ => false,
    }
}

#[test]
fn missing_glyphs_go_to_the_first_covering_fallback() {
    let text = "a✓b😀";
    let fallbacks = ["Symbols", "Emoji"];
    let (chars, own, covers) = coverage(text, &vec![], "Base", &fallbacks, fonts);
    let names: Vec<String> = fallbacks.iter().map(|f| f.to_string()).collect();
    let r = runs_with_fallbacks(&chars, &"Base".to_string(), vec![], &names, &own, &covers);
    assert_eq!(view(&r), vec![(1, 4, "Symbols".to_string()), (5, 9, "Emoji".to_string())]);
}

#[test]
fn no_fallbacks_keep_the_runs() {
    let runs = vec![run(0, 2, "Bold")];
    let text = "ab😀";
    let (chars, own, covers) = coverage(text, &runs, "Base", &[], fonts);
    let r = runs_with_fallbacks(&chars, &"Base".to_string(), runs, &vec![], &own, &covers);
    assert_eq!(view(&r), vec![(0, 2, "Bold".to_string())]);
}

#[test]
fn empty_text_keeps_the_runs() {
    let runs = vec![run(0, 2, "Bold")];
    let names = vec!["Emoji".to_string()];
    let r = runs_with_fallbacks(&vec![], &"Base".to_string(), runs, &names, &vec![], &vec![]);
    assert_eq!(view(&r), vec![(0, 2, "Bold".to_string())]);
}

#[test]
fn explicit_runs_merge_with_their_neighbours() {
    let runs = vec![run(0, 3, "Bold")];
    let text = "ab😀 cd";
    let fallbacks = ["Emoji"];
    let (chars, own, covers) = coverage(text, &runs, "Base", &fallbacks, fonts);
    let names = vec!["Emoji".to_string()];
    let r = runs_with_fallbacks(&chars, &"Base".to_string(), runs, &names, &own, &covers);
    // The emoji leaves the bold run, the space after it stays with the
    // base font it is in, so it gets no run.
    assert_eq!(
        view(&r),
        vec![(0, 2, "Bold".to_string()), (2, 6, "Emoji".to_string())]
    );
}

#[test]
fn white_space_and_control_chars_keep_their_font() {
    assert!(keeps_own_font(' ', false));
    assert!(keeps_own_font('\u{3000}', false));
    assert!(keeps_own_font('\u{7}', false));
    assert!(keeps_own_font('x', true));
    assert!(!keeps_own_font('x', false));
}

#[test]
fn a_char_nobody_covers_stays_in_its_font() {
    let names = vec!["A".to_string(), "B".to_string()];
    let own = "Base".to_string();
    assert_eq!(pick_font(&own, false, &names, &vec![false, true]), "B");
    assert_eq!(pick_font(&own, false, &names, &vec![false, false]), "Base");
    assert_eq!(pick_font(&own, true, &names, &vec![true, true]), "Base");
}

#[test]
fn utf8_lengths() {
    assert_eq!(char_len_utf8('a'), 1);
    assert_eq!(char_len_utf8('é'), 2);
    assert_eq!(char_len_utf8('✓'), 3);
    assert_eq!(char_len_utf8('😀'), 4);
}

#[test]
fn sections_start_after_the_ones_before() {
    let starts = section_starts(&vec![3, 0, 4]);
    assert_eq!(starts, vec![0, 3, 3]);
    assert_eq!(section_of(&starts, 0), (0, 0));
    assert_eq!(section_of(&starts, 2), (0, 2));
    assert_eq!(section_of(&starts, 3), (2, 0));
    assert_eq!(section_of(&starts, 9), (2, 6));
}
