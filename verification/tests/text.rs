use hilen::pixels::U8Color;
use hilen::runs::{effective_font, fix_chunk_ends, line_ranges, line_segments, merge_runs, FontRun};
use hilen::text_layout::{caret_boundaries, TextLayout, TextLine};
use hilen::tint::{svg_name, tint_svg, tinted_name, tinted_svg_data, SvgSources, Tinted};

fn run(start: usize, end: usize, font: &str) -> FontRun {
    FontRun { start, end, font: font.to_string() }
}

fn view(runs: &[FontRun]) -> Vec<(usize, usize, String)> {
    runs.iter().map(|r| (r.start, r.end, r.font.clone())).collect()
}

#[test]
fn effective_font_is_the_first_covering_run() {
    let runs = vec![run(0, 3, "Bold"), run(2, 6, "Mono")];
    let base = "Base".to_string();
    assert_eq!(effective_font(&runs, 2, &base), "Bold");
    assert_eq!(effective_font(&runs, 4, &base), "Mono");
    assert_eq!(effective_font(&runs, 6, &base), "Base");
}

#[test]
fn spans_merge_and_base_spans_drop() {
    let spans = vec![
        run(0, 1, "Base"),
        run(1, 2, "Emoji"),
        run(2, 6, "Emoji"),
        run(6, 7, "Base"),
        run(7, 8, "Emoji"),
        run(9, 10, "Emoji"),
    ];
    let merged = merge_runs(&spans, &"Base".to_string());
    assert_eq!(view(&merged), vec![
        (1, 6, "Emoji".to_string()),
        (7, 8, "Emoji".to_string()),
        (9, 10, "Emoji".to_string()),
    ]);
}

#[test]
fn segments_cover_the_line() {
    let runs = vec![(2, 4), (6, 20)];
    assert_eq!(line_segments(&runs, 0, 10), vec![(0, 2, 0), (2, 4, 1), (4, 6, 0), (6, 10, 2)]);
    assert_eq!(line_segments(&runs, 3, 5), vec![(3, 4, 1), (4, 5, 0)]);
    assert_eq!(line_segments(&vec![], 0, 3), vec![(0, 3, 0)]);
    assert_eq!(line_segments(&runs, 4, 4), vec![]);
}

#[test]
fn lines_split_at_newlines() {
    assert_eq!(line_ranges("ab\ncd"), vec![(0, 2), (3, 5)]);
    assert_eq!(line_ranges("ab\n"), vec![(0, 2), (3, 3)]);
    assert_eq!(line_ranges(""), vec![(0, 0)]);
    assert_eq!(line_ranges("é\n"), vec![(0, 2), (3, 3)]);
}

#[test]
fn wrapped_chunks_end_before_the_next_one() {
    let mut lines = vec![(0, 0), (6, 0), (12, 15), (16, 0)];
    fix_chunk_ends(&mut lines);
    assert_eq!(lines, vec![(0, 5), (6, 11), (12, 15), (16, 0)]);
}

fn layout() -> TextLayout<f32> {
    TextLayout {
        lines: vec![
            TextLine { start: 0, end: 3, boundaries: vec![(0, 0.0), (1, 5.0), (3, 12.0)], width: 12.0 },
            TextLine { start: 4, end: 6, boundaries: vec![(4, 0.0), (6, 8.0)], width: 8.0 },
            TextLine { start: 7, end: 7, boundaries: vec![], width: 0.0 },
        ],
        ascent: 10.0,
        descent: -3.0,
        line_height: 14.0,
        underline: (-1.0, 1.0),
    }
}

#[test]
fn caret_positions() {
    let layout = layout();
    assert_eq!(layout.line_of(2), 0);
    assert_eq!(layout.line_of(3), 0);
    assert_eq!(layout.line_of(5), 1);
    assert_eq!(layout.line_of(100), 2);
    assert_eq!(layout.x_on_line(0, 2), Some(12.0));
    assert_eq!(layout.x_on_line(0, 1), Some(5.0));
    assert_eq!(layout.x_on_line(1, 9), Some(8.0));
    assert_eq!(layout.x_on_line(2, 7), None);
    assert_eq!(layout.position_of(5), (1, Some(8.0)));
    let empty: TextLayout<f32> = TextLayout {
        lines: vec![],
        ascent: 0.0,
        descent: 0.0,
        line_height: 0.0,
        underline: (0.0, 0.0),
    };
    assert_eq!(empty.line_of(3), 0);
}

#[test]
fn tinted_names_and_svg() {
    let tint = U8Color::const_rgb(255, 16, 0);
    assert_eq!(tint.as_hex(), "#ff1000");
    assert_eq!(tinted_name("icons/close.svg", tint), "icons/close.svg:#ff1000");
    let svg = br##"<path fill="#000000"/><path fill="#0000001"/><path fill="#fff"/>"##;
    assert_eq!(
        tint_svg(svg, tint).unwrap(),
        r##"<path fill="#ff1000"/><path fill="#ff10001"/><path fill="#fff"/>"##
    );
    assert_eq!(tint_svg(&[0xff, 0xfe], tint), None);
    let tinted = Tinted { tint, name: "x.svg".to_string() };
    assert_eq!(tinted_name(&tinted.name, tinted.tint), "x.svg:#ff1000");
}

#[test]
fn only_svg_files_are_kept_for_tinting() {
    assert!(svg_name("icons/gear.svg"));
    assert!(svg_name("GEAR.SVG"));
    assert!(!svg_name("gear.png"));
    assert!(!svg_name(".svg"));
    assert!(!svg_name("svg"));
    let mut sources = SvgSources::new();
    sources.store("gear.svg", b"<svg/>");
    sources.store("gear.png", b"png");
    assert_eq!(sources.get("gear.svg"), Some(b"<svg/>".to_vec()));
    assert_eq!(sources.get("gear.png"), None);
    sources.store("gear.svg", b"<svg></svg>");
    assert_eq!(sources.get("gear.svg"), Some(b"<svg></svg>".to_vec()));
    assert_eq!(sources.entries.len(), 1);
}

#[test]
fn a_caret_position_per_cluster_and_one_at_the_end() {
    let clusters = vec![0, 0, 1, 3, 3];
    let xs = vec![0.0f32, 1.0, 2.0, 3.0, 4.0];
    assert_eq!(
        caret_boundaries(&clusters, &xs, 5, 6.0),
        vec![(0, 0.0), (1, 2.0), (3, 3.0), (5, 6.0)]
    );
    assert_eq!(caret_boundaries::<f32>(&vec![], &vec![], 0, 0.0), vec![(0, 0.0)]);
}

#[test]
fn data_that_is_no_text_gives_the_default_image() {
    let tint = U8Color::const_rgb(255, 0, 0);
    assert_eq!(
        tinted_svg_data(b"<path fill=\"#000000\"/>", tint, b"DEFAULT"),
        b"<path fill=\"#ff0000\"/>".to_vec()
    );
    assert_eq!(tinted_svg_data(&[0xff, 0xfe], tint, b"DEFAULT"), b"DEFAULT".to_vec());
}
