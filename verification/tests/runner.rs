use hilen::fonts::{face_order, FallbackSwitch, FontLookup};
use hilen::runner::{check_modes, missing_names, requested_names, unique_failures, ModeError, Modes};
use hilen::settings::{resolve_choice, PlacementChoice};

fn modes() -> Modes {
    Modes { human: false, headless: false, screenshot: false, record_colors: false, present: false }
}

#[test]
fn modes_that_go_together() {
    assert_eq!(check_modes(&modes(), None), Ok(()));
    let human = Modes { human: true, headless: true, ..modes() };
    assert_eq!(check_modes(&human, None), Err(ModeError::HumanNeedsWindow));
    let shot = Modes { screenshot: true, ..modes() };
    assert_eq!(check_modes(&shot, Some("a,b")), Err(ModeError::ScreenshotNeedsOneTest));
    assert_eq!(check_modes(&shot, Some("a")), Ok(()));
    let present = Modes { present: true, headless: true, ..modes() };
    assert_eq!(check_modes(&present, Some("a")), Err(ModeError::PresentIsOwnMode));
    let present = Modes { present: true, ..modes() };
    assert_eq!(check_modes(&present, None), Err(ModeError::PresentNeedsOneTest));
    assert_eq!(check_modes(&present, Some("a")), Ok(()));
}

#[test]
fn names_split_and_trim() {
    assert_eq!(requested_names(" Tile layers, Pixel art ,x"), vec![
        "Tile layers".to_string(),
        "Pixel art".to_string(),
        "x".to_string()
    ]);
    assert_eq!(requested_names(""), vec![String::new()]);
}

#[test]
fn missing_and_unique() {
    let known = vec!["a".to_string(), "b".to_string()];
    let names = vec!["b".to_string(), "c".to_string(), "d".to_string()];
    assert_eq!(missing_names(&names, &known), vec!["c".to_string(), "d".to_string()]);
    let failures = vec!["x".to_string(), "y".to_string(), "x".to_string()];
    assert_eq!(unique_failures(&failures), vec!["x".to_string(), "y".to_string()]);
}

#[test]
fn placement_choices() {
    let monitors = vec![Some("Built-in".to_string()), Some("External".to_string())];
    assert_eq!(resolve_choice(&Some("External".to_string()), &monitors, true), PlacementChoice::Saved);
    assert_eq!(resolve_choice(&None, &monitors, true), PlacementChoice::Saved);
    let one = vec![Some("Built-in".to_string())];
    assert_eq!(resolve_choice(&Some("External".to_string()), &one, true), PlacementChoice::CenterOnPrimary);
    assert_eq!(resolve_choice(&Some("External".to_string()), &vec![], false), PlacementChoice::Default);
}

#[test]
fn font_fallback_bookkeeping() {
    let mut switch = FallbackSwitch::new();
    assert!(switch.start_index());
    assert!(!switch.start_index());
    assert!(!switch.set_enabled(true));
    assert!(!switch.set_enabled(false));
    assert!(!switch.enabled());
    let mut fresh = FallbackSwitch::new();
    assert!(fresh.set_enabled(true));

    let preferred = vec!["Noto Sans".to_string(), "DejaVu Sans".to_string()];
    let (rank, slanted, distance, family) = face_order(&preferred, &"DejaVu Sans".to_string(), true, 700);
    assert_eq!((rank, slanted, distance, family.as_str()), (1, false, 300, "DejaVu Sans"));
    assert_eq!(face_order(&preferred, &"Other".to_string(), false, 300).0, 2);

    let mut lookup = FontLookup::new();
    assert_eq!(lookup.answer('a'), None);
    lookup.record('a', Some("system Noto".to_string()));
    lookup.record('b', Some("system Noto".to_string()));
    lookup.record('c', None);
    assert_eq!(lookup.answer('a'), Some(Some("system Noto".to_string())));
    assert_eq!(lookup.answer('c'), Some(None));
    assert_eq!(lookup.loaded, vec!["system Noto".to_string()]);
    // A later answer for a char replaces the one kept.
    lookup.record('c', Some("system Symbols".to_string()));
    assert_eq!(lookup.answer('c'), Some(Some("system Symbols".to_string())));
    assert_eq!(lookup.answer('b'), Some(Some("system Noto".to_string())));
    assert_eq!(lookup.loaded, vec!["system Noto".to_string(), "system Symbols".to_string()]);
}

#[test]
fn mode_errors_say_what_to_change() {
    assert_eq!(
        ModeError::PresentNeedsOneTest.message(),
        "--present requires exactly one --test-name"
    );
    assert_eq!(
        ModeError::HumanNeedsWindow.message(),
        "--human requires a window, remove --headless and --screenshot"
    );
}
