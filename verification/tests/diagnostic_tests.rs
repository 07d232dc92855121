use glacier::diagnostic::{
    annotate, find_line_end, locate, Diagnostic, DiagnosticLevel, DiagnosticReporter, SourceFile,
};
use glacier::style::{paint, paint_all, paint_each, Piece, Style};
use glacier::text::{blank, char_width, chars_of, join_all, string_of, to_decimal};
use glacier::utils::Span;

fn error(message: &str, start: usize, end: usize, file_id: usize) -> Diagnostic {
    Diagnostic::new(DiagnosticLevel::Error, message.to_string(), Span::new(start, end, file_id))
}

fn file(name: &str, text: &str) -> SourceFile {
    SourceFile { name: name.to_string(), text: text.to_string() }
}

fn plain(text: &str) -> Piece {
    Piece::plain(text.to_string())
}

fn strong(text: &str) -> Piece {
    Piece::new(text.to_string(), Style::Strong)
}

#[test]
fn new_diagnostic_has_no_annotations() {
    let diagnostic = Diagnostic::new(
        DiagnosticLevel::Warning,
        "unused".to_string(),
        Span::new(1, 2, 3),
    );
    assert_eq!(diagnostic.level, DiagnosticLevel::Warning);
    assert_eq!(diagnostic.message, "unused");
    assert_eq!(diagnostic.span, Span::new(1, 2, 3));
    assert!(diagnostic.note.is_empty());
    assert!(diagnostic.hint.is_empty());
}

#[test]
fn annotations_are_added_in_order() {
    let diagnostic = error("bad", 0, 1, 0)
        .with_note("first".to_string())
        .with_hint("try this".to_string())
        .with_note("second".to_string());
    assert_eq!(diagnostic.note, vec!["first".to_string(), "second".to_string()]);
    assert_eq!(diagnostic.hint, vec!["try this".to_string()]);
    assert_eq!(diagnostic.message, "bad");
    assert_eq!(diagnostic.span, Span::new(0, 1, 0));
    assert_eq!(diagnostic.level, DiagnosticLevel::Error);
}

#[test]
fn reporter_counts_errors_only() {
    let mut reporter = DiagnosticReporter::new();
    assert!(!reporter.has_error());
    assert_eq!(reporter.errors(), 0);
    assert!(reporter.diagnostics().is_empty());
    reporter.add(Diagnostic::new(DiagnosticLevel::Warning, "w".to_string(), Span::new(0, 0, 0)));
    assert!(!reporter.has_error());
    assert_eq!(reporter.errors(), 0);
    reporter.add(error("e1", 0, 0, 0));
    assert!(reporter.has_error());
    assert_eq!(reporter.errors(), 1);
    reporter.add(Diagnostic::new(DiagnosticLevel::Warning, "w2".to_string(), Span::new(0, 0, 0)));
    reporter.add(error("e2", 0, 0, 0));
    assert_eq!(reporter.errors(), 2);
    let messages: Vec<&str> = reporter.diagnostics().iter().map(|d| d.message.as_str()).collect();
    assert_eq!(messages, vec!["w", "e1", "w2", "e2"]);
}

#[test]
fn line_and_column_on_the_first_line() {
    let reporter = DiagnosticReporter::new();
    let source = "hello world\nsecond line";
    assert_eq!(reporter.get_line_and_column(source, 5), (1, 6));
    assert_eq!(reporter.get_line_and_column(source, 0), (1, 1));
    assert_eq!(reporter.get_line_and_column(source, 11), (1, 12));
}

#[test]
fn line_and_column_after_line_breaks() {
    let reporter = DiagnosticReporter::new();
    let source = "ab\ncd\n\nef";
    assert_eq!(reporter.get_line_and_column(source, 2), (1, 3));
    assert_eq!(reporter.get_line_and_column(source, 3), (2, 1));
    assert_eq!(reporter.get_line_and_column(source, 4), (2, 2));
    assert_eq!(reporter.get_line_and_column(source, 6), (3, 1));
    assert_eq!(reporter.get_line_and_column(source, 7), (4, 1));
    assert_eq!(reporter.get_line_and_column(source, 8), (4, 2));
    // At and past the end of the text.
    assert_eq!(reporter.get_line_and_column(source, 9), (4, 3));
    assert_eq!(reporter.get_line_and_column(source, 1000), (4, 3));
    assert_eq!(reporter.get_line_and_column("", 0), (1, 1));
    assert_eq!(reporter.get_line_and_column("", 5), (1, 1));
}

#[test]
fn columns_count_characters_and_offsets_count_bytes() {
    let reporter = DiagnosticReporter::new();
    let source = "\u{e9}\u{1F600}x\ny";
    assert_eq!(reporter.get_line_and_column(source, 0), (1, 1));
    assert_eq!(reporter.get_line_and_column(source, 2), (1, 2));
    assert_eq!(reporter.get_line_and_column(source, 6), (1, 3));
    assert_eq!(reporter.get_line_and_column(source, 7), (1, 4));
    assert_eq!(reporter.get_line_and_column(source, 8), (2, 1));
    // An offset inside a character is placed at that character.
    assert_eq!(reporter.get_line_and_column(source, 1), (1, 1));
    assert_eq!(reporter.get_line_and_column(source, 4), (1, 2));
}

#[test]
fn places_and_line_ends() {
    let chars = chars_of("ab\ncde\nf");
    let place = locate(&chars, 5);
    assert_eq!((place.index, place.line, place.column, place.start), (5, 2, 3, 3));
    assert_eq!(find_line_end(&chars, 5), 6);
    assert_eq!(find_line_end(&chars, 0), 2);
    assert_eq!(find_line_end(&chars, 2), 2);
    assert_eq!(find_line_end(&chars, 7), 8);
    assert_eq!(find_line_end(&chars, 8), 8);
}

#[test]
fn text_helpers() {
    assert_eq!(to_decimal(0), "0");
    assert_eq!(to_decimal(7), "7");
    assert_eq!(to_decimal(10), "10");
    assert_eq!(to_decimal(1234567890), "1234567890");
    assert_eq!(to_decimal(usize::MAX), usize::MAX.to_string());
    assert_eq!(blank(0), "");
    assert_eq!(blank(3), "   ");
    assert_eq!(char_width('a'), 1);
    assert_eq!(char_width('\u{7f}'), 1);
    assert_eq!(char_width('\u{80}'), 2);
    assert_eq!(char_width('\u{7ff}'), 2);
    assert_eq!(char_width('\u{800}'), 3);
    assert_eq!(char_width('\u{ffff}'), 3);
    assert_eq!(char_width('\u{10000}'), 4);
    assert_eq!(char_width('\u{10ffff}'), 4);
    for c in ['a', '\u{e9}', '\u{20ac}', '\u{1F600}'] {
        assert_eq!(char_width(c), c.len_utf8());
    }
    let chars = chars_of("h\u{e9}llo");
    assert_eq!(chars, vec!['h', '\u{e9}', 'l', 'l', 'o']);
    assert_eq!(string_of(&chars, 1, 4), "\u{e9}ll");
    assert_eq!(string_of(&chars, 2, 2), "");
    assert_eq!(annotate(&vec![]), "");
    assert_eq!(annotate(&vec!["a".to_string(), "b c".to_string()]), " a b c");
}

#[test]
fn rendering_an_error() {
    let mut reporter = DiagnosticReporter::new();
    reporter.add(error("Unexpected token found", 5, 6, 0));
    let files = vec![file("main.gl", "hello world\nsecond line")];
    let pieces = reporter.render(&files);
    assert_eq!(
        pieces,
        vec![
            Piece::new("Error".to_string(), Style::Alert),
            plain(": "),
            strong("Unexpected token found"),
            plain("\n"),
            plain("\t"),
            strong("main.gl:1:6"),
            plain("\n"),
            plain("  |\n"),
            plain("1 |  hello world\n"),
            plain("  |       ^\n"),
            strong("1 error(s) have been emitted"),
            plain("\n"),
        ]
    );
}

#[test]
fn caret_stands_under_the_column() {
    let mut reporter = DiagnosticReporter::new();
    reporter.add(error("bad", 5, 6, 0));
    let files = vec![file("f", "hello world\nsecond line")];
    let pieces = reporter.render(&files);
    let quoted = &pieces[8].text;
    let caret = &pieces[9].text;
    assert_eq!(quoted, "1 |  hello world\n");
    assert_eq!(caret.find('^'), quoted.find("hello").map(|at| at + 5));
    assert_eq!(quoted.as_bytes()[caret.find('^').unwrap()], b' ');
}

#[test]
fn rendering_on_a_later_line_with_annotations() {
    let mut reporter = DiagnosticReporter::new();
    reporter.add(
        error("bad name", 13, 14, 1)
            .with_note("declared here".to_string())
            .with_hint("rename it".to_string())
            .with_note("twice".to_string()),
    );
    let mut text = String::new();
    for _ in 0..11 {
        text.push('\n');
    }
    text.push_str("  x = 1;\nrest");
    let files = vec![file("a.gl", "unused"), file("b.gl", &text)];
    let pieces = reporter.render(&files);
    assert_eq!(
        pieces,
        vec![
            Piece::new("Error".to_string(), Style::Alert),
            plain(": "),
            strong("bad name"),
            plain("\n"),
            plain("\t"),
            strong("b.gl:12:3"),
            plain("\n"),
            plain("   |\n"),
            plain("12 |    x = 1;\n"),
            plain("   |    ^ declared here twice rename it\n"),
            strong("1 error(s) have been emitted"),
            plain("\n"),
        ]
    );
}

#[test]
fn rendering_a_warning_and_a_missing_file() {
    let mut reporter = DiagnosticReporter::new();
    reporter.add(Diagnostic::new(
        DiagnosticLevel::Warning,
        "unused variable".to_string(),
        Span::new(4, 5, 0),
    ));
    reporter.add(error("lost", 0, 1, 9));
    let files = vec![file("w.gl", "var x;")];
    let pieces = reporter.render(&files);
    assert_eq!(
        pieces,
        vec![
            plain("Warning: unused variable"),
            plain("\n"),
            plain("\t"),
            strong("w.gl:1:5"),
            plain("\n"),
            plain("  |\n"),
            plain("1 |  var x;\n"),
            plain("  |      ^\n"),
            Piece::new("Error".to_string(), Style::Alert),
            plain(": "),
            strong("lost"),
            plain("\n"),
            strong("1 error(s) have been emitted"),
            plain("\n"),
        ]
    );
}

#[test]
fn rendering_nothing_gives_the_summary() {
    let reporter = DiagnosticReporter::new();
    let pieces = reporter.render(&vec![]);
    assert_eq!(pieces, vec![strong("0 error(s) have been emitted"), plain("\n")]);
}

#[test]
fn rendering_keeps_the_order_of_insertion() {
    let mut reporter = DiagnosticReporter::new();
    reporter.add(error("second place", 4, 5, 0));
    reporter.add(error("first place", 0, 1, 0));
    let files = vec![file("f", "ab\ncd")];
    let pieces = reporter.render(&files);
    let texts: Vec<&str> = pieces.iter().map(|p| p.text.as_str()).collect();
    let second = texts.iter().position(|t| *t == "second place").unwrap();
    let first = texts.iter().position(|t| *t == "first place").unwrap();
    assert!(second < first);
    assert!(texts.contains(&"f:2:2"));
    assert!(texts.contains(&"f:1:1"));
    assert_eq!(texts[texts.len() - 2], "2 error(s) have been emitted");
}

#[test]
fn a_single_diagnostic_is_rendered_alone() {
    let diagnostic = error("bad", 0, 1, 0);
    let mut out = vec![plain("before")];
    diagnostic.render(&vec![file("f", "x")], &mut out);
    assert_eq!(out.len(), 11);
    assert_eq!(out[0], plain("before"));
    assert_eq!(out[9], plain("1 |  x\n"));
    assert_eq!(out[10], plain("  |  ^\n"));
}

#[test]
fn report_holds_the_plain_lines() {
    let mut reporter = DiagnosticReporter::new();
    reporter.add(error("Unexpected token found", 5, 6, 0));
    let files = vec![file("main.gl", "hello world\nsecond line")];
    let report = reporter.report(&files);
    assert!(report.contains("Error"));
    assert!(report.contains("Unexpected token found"));
    assert!(report.contains("main.gl:1:6"));
    assert!(report.contains("\n  |\n1 |  hello world\n  |       ^\n"));
    assert!(report.contains("1 error(s) have been emitted"));
    assert!(report.ends_with("\n"));
}

#[test]
fn strings_are_joined_in_order() {
    assert_eq!(join_all(&vec![]), "");
    assert_eq!(join_all(&vec!["ab".to_string(), "".to_string(), "c\n".to_string()]), "abc\n");
    assert_eq!(join_all(&vec!["\u{e9}".to_string(), "\u{1F600}".to_string()]), "\u{e9}\u{1F600}");
}

#[test]
fn each_piece_is_painted() {
    let pieces = vec![plain("a"), strong("b"), plain("c")];
    let painted = paint_each(&pieces);
    assert_eq!(painted.len(), 3);
    assert_eq!(painted[0], "a");
    assert!(painted[1].contains("b"));
    assert_eq!(painted[2], "c");
    assert_eq!(paint_all(&pieces), join_all(&painted));
}

#[test]
fn plain_pieces_are_painted_as_they_are() {
    assert_eq!(paint(&plain("as it is")), "as it is");
    assert_eq!(paint(&plain("\u{1b}[0m")), "\u{1b}[0m");
    assert_eq!(paint_all(&vec![plain("a"), plain(""), plain("b\n")]), "ab\n");
    assert_eq!(paint_all(&vec![]), "");
    for style in [Style::Alert, Style::Strong, Style::Number, Style::Text] {
        let painted = paint(&Piece::new("text".to_string(), style));
        assert!(painted.contains("text"));
    }
}

#[test]
fn styled_pieces_with_colors_switched_on() {
    colored::control::set_override(true);
    let painted = [
        paint(&Piece::new("Error".to_string(), Style::Alert)),
        paint(&Piece::new("main.gl:1:6".to_string(), Style::Strong)),
        paint(&Piece::new("42".to_string(), Style::Number)),
        paint(&Piece::new("'c'".to_string(), Style::Text)),
        paint(&Piece::new("".to_string(), Style::Text)),
    ];
    colored::control::unset_override();
    assert_eq!(painted[0], "\u{1b}[1;31mError\u{1b}[0m");
    assert_eq!(painted[1], "\u{1b}[1;97mmain.gl:1:6\u{1b}[0m");
    assert_eq!(painted[2], "\u{1b}[36m42\u{1b}[0m");
    assert_eq!(painted[3], "\u{1b}[32m'c'\u{1b}[0m");
    assert_eq!(painted[4], "\u{1b}[32m\u{1b}[0m");
}

#[test]
fn styled_pieces_with_colors_switched_off() {
    colored::control::set_override(false);
    let painted = [
        paint(&Piece::new("Error".to_string(), Style::Alert)),
        paint(&Piece::new("main.gl:1:6".to_string(), Style::Strong)),
        paint(&Piece::new("42".to_string(), Style::Number)),
        paint(&Piece::new("'c'".to_string(), Style::Text)),
    ];
    colored::control::unset_override();
    assert_eq!(painted, ["Error", "main.gl:1:6", "42", "'c'"]);
}

#[test]
fn a_text_with_a_reset_code_loses_nothing() {
    let text = "a\u{1b}[0mb";
    colored::control::set_override(true);
    let on = paint(&Piece::new(text.to_string(), Style::Number));
    colored::control::set_override(false);
    let off = paint(&Piece::new(text.to_string(), Style::Number));
    colored::control::unset_override();
    assert_eq!(on, "\u{1b}[36ma\u{1b}[0m\u{1b}[36mb\u{1b}[0m");
    assert!(on.chars().count() >= text.chars().count());
    assert_eq!(off, text);
}

#[test]
fn a_report_with_colors_switched_on() {
    let mut reporter = DiagnosticReporter::new();
    reporter.add(error("Unexpected token found", 5, 6, 0));
    let files = vec![file("main.gl", "hello world\nsecond line")];
    colored::control::set_override(true);
    let report = reporter.report(&files);
    colored::control::unset_override();
    assert_eq!(
        report,
        "\u{1b}[1;31mError\u{1b}[0m: \u{1b}[1;97mUnexpected token found\u{1b}[0m\n\
         \t\u{1b}[1;97mmain.gl:1:6\u{1b}[0m\n  |\n1 |  hello world\n  |       ^\n\
         \u{1b}[1;97m1 error(s) have been emitted\u{1b}[0m\n"
    );
}

#[test]
fn a_report_with_colors_switched_off() {
    let mut reporter = DiagnosticReporter::new();
    reporter.add(error("Unexpected token found", 5, 6, 0));
    let files = vec![file("main.gl", "hello world\nsecond line")];
    colored::control::set_override(false);
    let report = reporter.report(&files);
    colored::control::unset_override();
    assert_eq!(
        report,
        "Error: Unexpected token found\n\tmain.gl:1:6\n  |\n1 |  hello world\n  |       ^\n\
         1 error(s) have been emitted\n"
    );
}
