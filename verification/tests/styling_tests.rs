use lint_report::styling::{paint, paint_all, Segment, Style};
use lint_report::{FileEntry, Results, Span, Text, Violation};

fn segment(text: &str, style: Style) -> Segment {
    Segment { text: text.to_string(), style }
}

#[test]
fn painting_with_colours_wraps_the_text() {
    colored::control::set_override(true);
    assert_eq!(paint("ab", Style::Plain), "ab");
    assert_eq!(paint("ab", Style::Bold), "\u{1b}[1mab\u{1b}[0m");
    assert_eq!(paint("ab", Style::BlueBold), "\u{1b}[1;34mab\u{1b}[0m");
    assert_eq!(paint("ab", Style::RedBold), "\u{1b}[1;31mab\u{1b}[0m");
    assert_eq!(paint("ab", Style::YellowBold), "\u{1b}[1;33mab\u{1b}[0m");
    assert_eq!(paint("", Style::Bold), "\u{1b}[1m\u{1b}[0m");
}

#[test]
fn painting_with_colours_restores_the_style_after_a_reset() {
    colored::control::set_override(true);
    assert_eq!(
        paint("a\u{1b}[0mb", Style::BlueBold),
        "\u{1b}[1;34ma\u{1b}[0m\u{1b}[1;34mb\u{1b}[0m"
    );
    assert_eq!(
        paint("\u{1b}[0m\u{1b}[0m", Style::Bold),
        "\u{1b}[1m\u{1b}[0m\u{1b}[1m\u{1b}[0m\u{1b}[1m\u{1b}[0m"
    );
    assert_eq!(paint("a\u{1b}[0b", Style::Bold), "\u{1b}[1ma\u{1b}[0b\u{1b}[0m");
}

#[test]
fn painting_a_run_of_segments_with_colours() {
    colored::control::set_override(true);
    let segments = vec![
        segment("a.rs", Style::BlueBold),
        segment(", detected ", Style::Plain),
        segment("2", Style::RedBold),
        segment(" violations:\n", Style::Plain),
    ];
    assert_eq!(
        paint_all(&segments),
        "\u{1b}[1;34ma.rs\u{1b}[0m, detected \u{1b}[1;31m2\u{1b}[0m violations:\n"
    );
    assert_eq!(paint_all(&vec![]), "");
}

#[test]
fn listing_with_colours() {
    colored::control::set_override(true);
    let results = Results {
        files: vec![FileEntry {
            path: "src/a.rs".to_string(),
            violations: vec![Violation {
                rule: "E1".to_string(),
                suggestion: "use x".to_string(),
                span: Span { line: 3, column: 7 },
                line: "let a = 1;".to_string(),
            }],
        }],
        codes_count: vec![],
        total_files_count: 1,
        duration: None,
    };
    let out = Text::output_files_with_violations(results);
    assert_eq!(
        out,
        "\u{1b}[1;34msrc/a.rs\u{1b}[0m, detected \u{1b}[1;31m1\u{1b}[0m violations:\n  \
         \u{1b}[1;33mE1\u{1b}[0m:\t\u{1b}[1muse x\u{1b}[0m\n  \
         \u{1b}[1;34m3:7\u{1b}[0m\t\u{1b}[1;34m|\u{1b}[0m let a = 1;\n\n"
    );
}
