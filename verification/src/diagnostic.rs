//! Diagnostics and the reporter that collects them.

use vstd::prelude::*;
use vstd::string::*;
use crate::style::{paint_all, paints, piece_views, plain, styled, Piece, PieceView, Style};
use crate::text::{
    blank, char_index, char_width, chars_of, decimal, spaces, string_of, texts, to_decimal,
};
use crate::utils::Span;

verus! {

/// How severe a diagnostic is.
#[derive(Debug, PartialEq, Eq, Clone, Copy, Structural)]
pub enum DiagnosticLevel {
    Error,
    Warning,
}

/// A message about one place in the source, with the annotations that were
/// added to it.
#[derive(Debug, PartialEq, Eq, Clone)]
pub struct Diagnostic {
    pub level: DiagnosticLevel,
    pub message: String,
    pub span: Span,
    pub note: Vec<String>,
    pub hint: Vec<String>,
}

/// Mathematical model of a [`Diagnostic`].
pub struct DiagnosticView {
    pub level: DiagnosticLevel,
    pub message: Seq<char>,
    pub span: Span,
    pub note: Seq<Seq<char>>,
    pub hint: Seq<Seq<char>>,
}

impl View for Diagnostic {
    type V = DiagnosticView;

    open spec fn view(&self) -> DiagnosticView {
        DiagnosticView {
            level: self.level,
            message: self.message@,
            span: self.span,
            note: texts(self.note@),
            hint: texts(self.hint@),
        }
    }
}

/// An error at `span` without annotations.
pub open spec fn error_at(message: Seq<char>, span: Span) -> DiagnosticView {
    DiagnosticView {
        level: DiagnosticLevel::Error,
        message,
        span,
        note: Seq::empty(),
        hint: Seq::empty(),
    }
}

impl Diagnostic {
    /// A diagnostic without annotations.
    pub fn new(level: DiagnosticLevel, message: String, span: Span) -> (diagnostic: Self)
        ensures
            diagnostic@ == (DiagnosticView {
                level,
                message: message@,
                span,
                note: Seq::empty(),
                hint: Seq::empty(),
            }),
    {
        let diagnostic = Self { level, message, span, note: Vec::new(), hint: Vec::new() };
        assert(diagnostic@.note =~= Seq::empty());
        diagnostic
    }

    /// The same diagnostic with `note` added after the notes it has.
    pub fn with_note(self, note: String) -> (diagnostic: Self)
        ensures
            diagnostic@ == (DiagnosticView { note: self@.note.push(note@), ..self@ }),
    {
        let mut diagnostic = self;
        diagnostic.note.push(note);
        assert(diagnostic@.note =~= self@.note.push(note@));
        diagnostic
    }

    /// The same diagnostic with `hint` added after the hints it has.
    pub fn with_hint(self, hint: String) -> (diagnostic: Self)
        ensures
            diagnostic@ == (DiagnosticView { hint: self@.hint.push(hint@), ..self@ }),
    {
        let mut diagnostic = self;
        diagnostic.hint.push(hint);
        assert(diagnostic@.hint =~= self@.hint.push(hint@));
        diagnostic
    }
}

/// The models of a sequence of diagnostics, in order.
pub open spec fn diagnostic_views(diagnostics: Seq<Diagnostic>) -> Seq<DiagnosticView> {
    diagnostics.map_values(|d: Diagnostic| d@)
}

/// Number of diagnostics in `diagnostics` whose level is `Error`.
pub open spec fn error_count(diagnostics: Seq<DiagnosticView>) -> nat
    decreases diagnostics.len(),
{
    if diagnostics.len() == 0 {
        0
    } else {
        error_count(diagnostics.drop_last()) + if diagnostics.last().level
            == DiagnosticLevel::Error {
            1nat
        } else {
            0nat
        }
    }
}

/// There are no more errors than diagnostics.
pub proof fn lemma_error_count_bound(diagnostics: Seq<DiagnosticView>)
    ensures
        error_count(diagnostics) <= diagnostics.len(),
    decreases diagnostics.len(),
{
    if diagnostics.len() > 0 {
        lemma_error_count_bound(diagnostics.drop_last());
    }
}

/// The diagnostics of one run, in the order in which they were added, and the
/// number of errors among them.
#[derive(Debug, PartialEq, Eq, Clone)]
pub struct DiagnosticReporter {
    diagnostics: Vec<Diagnostic>,
    error: usize,
}

impl View for DiagnosticReporter {
    type V = Seq<DiagnosticView>;

    closed spec fn view(&self) -> Seq<DiagnosticView> {
        diagnostic_views(self.diagnostics@)
    }
}

impl DiagnosticReporter {
    /// The running count agrees with the diagnostics held.
    pub closed spec fn wf(&self) -> bool {
        self.error == error_count(self@)
    }

    /// A reporter that holds nothing.
    pub fn new() -> (reporter: Self)
        ensures
            reporter.wf(),
            reporter@ == Seq::<DiagnosticView>::empty(),
    {
        let reporter = Self { diagnostics: Vec::new(), error: 0 };
        reporter
    }

    /// Appends `diagnostic`; it counts as an error exactly when its level
    /// says so.
    pub fn add(&mut self, diagnostic: Diagnostic)
        requires
            old(self).wf(),
        ensures
            final(self).wf(),
            final(self)@ == old(self)@.push(diagnostic@),
    {
        let is_error = diagnostic.level == DiagnosticLevel::Error;
        self.diagnostics.push(diagnostic);
        proof {
            assert(self@.drop_last() =~= old(self)@);
            lemma_error_count_bound(old(self)@);
            assert(self.diagnostics.len() == old(self)@.len() + 1);
        }
        if is_error {
            self.error = self.error + 1;
        }
    }

    /// Whether an error was added.
    pub fn has_error(&self) -> (answer: bool)
        requires
            self.wf(),
        ensures
            answer == (error_count(self@) > 0),
    {
        self.error > 0
    }

    /// Number of errors that were added.
    pub fn errors(&self) -> (count: usize)
        requires
            self.wf(),
        ensures
            count == error_count(self@),
    {
        self.error
    }

    /// Number of diagnostics that were added.
    pub fn len(&self) -> (count: usize)
        ensures
            count == self@.len(),
    {
        self.diagnostics.len()
    }

    /// The diagnostics in the order in which they were added.
    pub fn diagnostics(&self) -> (all: &Vec<Diagnostic>)
        ensures
            diagnostic_views(all@) == self@,
    {
        &self.diagnostics
    }
}

/// A source file: its name and its text.
#[derive(Debug, PartialEq, Eq, Clone)]
pub struct SourceFile {
    pub name: String,
    pub text: String,
}

/// Mathematical model of a [`SourceFile`].
pub struct SourceFileView {
    pub name: Seq<char>,
    pub text: Seq<char>,
}

impl View for SourceFile {
    type V = SourceFileView;

    open spec fn view(&self) -> SourceFileView {
        SourceFileView { name: self.name@, text: self.text@ }
    }
}

/// The models of a sequence of source files, in order.
pub open spec fn file_views(files: Seq<SourceFile>) -> Seq<SourceFileView> {
    files.map_values(|f: SourceFile| f@)
}

/// Whether the lines and columns of every file can be counted in a `usize`.
pub open spec fn countable(files: Seq<SourceFileView>) -> bool {
    forall|i: int| 0 <= i < files.len() ==> (#[trigger] files[i]).text.len() < usize::MAX
}

/// Number of line breaks among the first `p` characters of `s`.
pub open spec fn newlines_before(s: Seq<char>, p: int) -> nat
    decreases p,
{
    if p <= 0 {
        0
    } else {
        newlines_before(s, p - 1) + if s[p - 1] == '\n' {
            1nat
        } else {
            0nat
        }
    }
}

/// Index of the first character of the line that the character `p` is on:
/// the one after the nearest line break before `p`, or 0.
pub open spec fn line_start(s: Seq<char>, p: int) -> int
    decreases p,
{
    if p <= 0 {
        0
    } else if s[p - 1] == '\n' {
        p
    } else {
        line_start(s, p - 1)
    }
}

/// Index of the line break that ends the line that the character `p` is on:
/// the nearest one at or after `p`, or the length of `s`.
pub open spec fn line_end(s: Seq<char>, p: int) -> int
    decreases s.len() - p,
{
    if p >= s.len() {
        s.len() as int
    } else if p >= 0 && s[p] == '\n' {
        p
    } else {
        line_end(s, p + 1)
    }
}

/// The line of the byte offset `offset` in `s`, counted from 1.
pub open spec fn line_of(s: Seq<char>, offset: nat) -> nat {
    newlines_before(s, char_index(s, offset) as int) + 1
}

/// The column of the byte offset `offset` in `s`: the place of its
/// character in its line, counted from 1.
pub open spec fn column_of(s: Seq<char>, offset: nat) -> nat {
    (char_index(s, offset) - line_start(s, char_index(s, offset) as int) + 1) as nat
}

/// The text of the line that the byte offset `offset` is on, without its
/// line break.
pub open spec fn line_text(s: Seq<char>, offset: nat) -> Seq<char> {
    s.subrange(
        line_start(s, char_index(s, offset) as int),
        line_end(s, char_index(s, offset) as int),
    )
}

/// The start of a line lies at or before the character it is asked for.
pub proof fn lemma_line_start_bounds(s: Seq<char>, p: int)
    requires
        0 <= p,
    ensures
        0 <= line_start(s, p) <= p,
        newlines_before(s, p) <= p,
    decreases p,
{
    if p > 0 {
        lemma_line_start_bounds(s, p - 1);
    }
}

/// Each of `items` after a space, in order.
pub open spec fn annotations(items: Seq<Seq<char>>) -> Seq<char>
    decreases items.len(),
{
    if items.len() == 0 {
        Seq::empty()
    } else {
        annotations(items.drop_last()) + seq![' '] + items.last()
    }
}

/// The first line of a rendered diagnostic: what it is, and its message.
pub open spec fn header(d: DiagnosticView) -> Seq<PieceView> {
    match d.level {
        DiagnosticLevel::Error => seq![
            styled("Error"@, Style::Alert),
            plain(": "@),
            styled(d.message, Style::Strong),
            plain("\n"@),
        ],
        DiagnosticLevel::Warning => seq![plain("Warning: "@ + d.message), plain("\n"@)],
    }
}

/// The lines that show where in `file` the diagnostic `d` is: the name of
/// the file with the line and the column, the line of the source, and
/// under it a caret at the column, with the notes and then the hints of the
/// diagnostic after it.
pub open spec fn excerpt(d: DiagnosticView, file: SourceFileView) -> Seq<PieceView> {
    let offset = d.span.start as nat;
    let line = decimal(line_of(file.text, offset));
    let column = column_of(file.text, offset);
    let gutter = spaces(line.len());
    seq![
        plain("\t"@),
        styled(file.name + ":"@ + line + ":"@ + decimal(column), Style::Strong),
        plain("\n"@),
        plain(gutter + " |\n"@),
        plain(line + " |  "@ + line_text(file.text, offset) + "\n"@),
        plain(
            gutter + " |  "@ + spaces((column - 1) as nat) + "^"@ + annotations(d.note)
                + annotations(d.hint) + "\n"@,
        ),
    ]
}

/// One diagnostic as it is rendered: its header, and where its file is
/// among `files`, the excerpt of that file.
pub open spec fn rendered(d: DiagnosticView, files: Seq<SourceFileView>) -> Seq<PieceView> {
    if d.span.file_id < files.len() {
        header(d) + excerpt(d, files[d.span.file_id as int])
    } else {
        header(d)
    }
}

/// The diagnostics `ds` as they are rendered, one after the other.
pub open spec fn rendered_all(ds: Seq<DiagnosticView>, files: Seq<SourceFileView>) -> Seq<
    PieceView,
>
    decreases ds.len(),
{
    if ds.len() == 0 {
        Seq::empty()
    } else {
        rendered_all(ds.drop_last(), files) + rendered(ds.last(), files)
    }
}

/// The line that closes a report: how many errors there were.
pub open spec fn summary(errors: nat) -> Seq<PieceView> {
    seq![styled(decimal(errors) + " error(s) have been emitted"@, Style::Strong), plain("\n"@)]
}

/// The report of the diagnostics `ds`: each of them as it is rendered, in
/// order, and the summary.
pub open spec fn report_layout(ds: Seq<DiagnosticView>, files: Seq<SourceFileView>) -> Seq<
    PieceView,
> {
    rendered_all(ds, files) + summary(error_count(ds))
}

/// Where a byte offset lies in a text.
#[derive(Debug, Clone, Copy, PartialEq, Eq)]
pub struct Place {
    /// Index of the character.
    pub index: usize,
    /// Line, counted from 1.
    pub line: usize,
    /// Column, counted from 1.
    pub column: usize,
    /// Index of the first character of the line.
    pub start: usize,
}

/// The place of the byte offset `offset` in `chars`.
pub fn locate(chars: &Vec<char>, offset: usize) -> (place: Place)
    requires
        chars@.len() < usize::MAX,
    ensures
        place.index == char_index(chars@, offset as nat),
        place.line == line_of(chars@, offset as nat),
        place.column == column_of(chars@, offset as nat),
        place.start == line_start(chars@, place.index as int),
        place.start <= place.index <= chars@.len(),
{
    let mut index: usize = 0;
    let mut passed: usize = 0;
    let mut line: usize = 1;
    let mut start: usize = 0;
    let ghost s = chars@;
    proof {
        assert(s.skip(0) =~= s);
    }
    while index < chars.len()
        invariant_except_break
            index + char_index(s.skip(index as int), (offset - passed) as nat) == char_index(
                s,
                offset as nat,
            ),
        invariant
            s == chars@,
            s.len() < usize::MAX,
            index <= s.len(),
            passed <= offset,
            line == newlines_before(s, index as int) + 1,
            start == line_start(s, index as int),
        ensures
            index <= s.len(),
            index == char_index(s, offset as nat),
            line == newlines_before(s, index as int) + 1,
            start == line_start(s, index as int),
        decreases s.len() - index,
    {
        let c = chars[index];
        let width = char_width(c);
        proof {
            assert(s.skip(index as int).drop_first() =~= s.skip(index + 1));
            lemma_line_start_bounds(s, index as int);
        }
        if offset - passed < width {
            break ;
        }
        passed = passed + width;
        index = index + 1;
        if c == '\n' {
            line = line + 1;
            start = index;
        }
    }
    proof {
        lemma_line_start_bounds(s, index as int);
    }
    Place { index, line, column: index - start + 1, start }
}

/// Index of the line break that ends the line of the character `index`, or
/// the length of the text.
pub fn find_line_end(chars: &Vec<char>, index: usize) -> (end: usize)
    requires
        index <= chars@.len(),
    ensures
        end == line_end(chars@, index as int),
        index <= end <= chars@.len(),
{
    let mut end: usize = index;
    while end < chars.len() && chars[end] != '\n'
        invariant
            index <= end <= chars@.len(),
            line_end(chars@, end as int) == line_end(chars@, index as int),
        decreases chars@.len() - end,
    {
        end = end + 1;
    }
    end
}

/// Each of `items` after a space, in order.
pub fn annotate(items: &Vec<String>) -> (out: String)
    ensures
        out@ == annotations(texts(items@)),
{
    let mut out = String::new();
    let mut i: usize = 0;
    while i < items.len()
        invariant
            i <= items.len(),
            out@ == annotations(texts(items@).take(i as int)),
        decreases items.len() - i,
    {
        out.append(" ");
        out.append(items[i].as_str());
        proof {
            reveal_strlit(" ");
            let now = texts(items@).take(i + 1);
            assert(now.drop_last() =~= texts(items@).take(i as int));
        }
        i = i + 1;
    }
    proof {
        assert(texts(items@).take(i as int) =~= texts(items@));
    }
    out
}

impl Diagnostic {
    /// Appends the header of this diagnostic to `out`.
    fn render_header(&self, out: &mut Vec<Piece>)
        ensures
            piece_views(final(out)@) == piece_views(old(out)@) + header(self@),
    {
        match self.level {
            DiagnosticLevel::Error => {
                out.push(Piece::new(String::from_str("Error"), Style::Alert));
                out.push(Piece::plain(String::from_str(": ")));
                out.push(Piece::new(self.message.clone(), Style::Strong));
                out.push(Piece::plain(String::from_str("\n")));
            },
            DiagnosticLevel::Warning => {
                let mut text = String::from_str("Warning: ");
                text.append(self.message.as_str());
                out.push(Piece::plain(text));
                out.push(Piece::plain(String::from_str("\n")));
            },
        }
    }

    /// Appends the excerpt of `file` for this diagnostic to `out`.
    fn render_excerpt(&self, file: &SourceFile, out: &mut Vec<Piece>)
        requires
            file@.text.len() < usize::MAX,
        ensures
            piece_views(final(out)@) == piece_views(old(out)@) + excerpt(self@, file@),
    {
        let chars = chars_of(file.text.as_str());
        let place = locate(&chars, self.span.start);
        let end = find_line_end(&chars, place.index);
        let line = to_decimal(place.line);
        let column = to_decimal(place.column);
        let gutter = blank(line.as_str().unicode_len());

        let mut location = file.name.clone();
        location.append(":");
        location.append(line.as_str());
        location.append(":");
        location.append(column.as_str());

        let mut rule = gutter.clone();
        rule.append(" |\n");

        let mut quoted = line.clone();
        quoted.append(" |  ");
        quoted.append(string_of(&chars, place.start, end).as_str());
        quoted.append("\n");

        let mut caret = gutter.clone();
        caret.append(" |  ");
        caret.append(blank(place.column - 1).as_str());
        caret.append("^");
        caret.append(annotate(&self.note).as_str());
        caret.append(annotate(&self.hint).as_str());
        caret.append("\n");

        out.push(Piece::plain(String::from_str("\t")));
        out.push(Piece::new(location, Style::Strong));
        out.push(Piece::plain(String::from_str("\n")));
        out.push(Piece::plain(rule));
        out.push(Piece::plain(quoted));
        out.push(Piece::plain(caret));
    }

    /// Appends this diagnostic, as it is rendered against `files`, to `out`.
    pub fn render(&self, files: &Vec<SourceFile>, out: &mut Vec<Piece>)
        requires
            countable(file_views(files@)),
        ensures
            piece_views(final(out)@) == piece_views(old(out)@) + rendered(
                self@,
                file_views(files@),
            ),
    {
        self.render_header(out);
        if self.span.file_id < files.len() {
            let file = &files[self.span.file_id];
            assert(file_views(files@)[self.span.file_id as int] == file@);
            self.render_excerpt(file, out);
            assert(piece_views(out@) =~= piece_views(old(out)@) + rendered(
                self@,
                file_views(files@),
            ));
        }
    }
}

impl DiagnosticReporter {
    /// The line and the column, both counted from 1, of the byte offset
    /// `index` in `source`.
    pub fn get_line_and_column(&self, source: &str, index: usize) -> (place: (usize, usize))
        requires
            source@.len() < usize::MAX,
        ensures
            place.0 == line_of(source@, index as nat),
            place.1 == column_of(source@, index as nat),
    {
        let chars = chars_of(source);
        let found = locate(&chars, index);
        (found.line, found.column)
    }

    /// The report of the diagnostics held, as pieces of styled text: each
    /// diagnostic in the order in which it was added, then the summary.
    pub fn render(&self, files: &Vec<SourceFile>) -> (out: Vec<Piece>)
        requires
            self.wf(),
            countable(file_views(files@)),
        ensures
            piece_views(out@) == report_layout(self@, file_views(files@)),
    {
        let mut out: Vec<Piece> = Vec::new();
        let mut i: usize = 0;
        let ghost fs = file_views(files@);
        while i < self.diagnostics.len()
            invariant
                i <= self.diagnostics.len(),
                fs == file_views(files@),
                countable(fs),
                piece_views(out@) == rendered_all(self@.take(i as int), fs),
            decreases self.diagnostics.len() - i,
        {
            self.diagnostics[i].render(files, &mut out);
            proof {
                let now = self@.take(i + 1);
                assert(now.drop_last() =~= self@.take(i as int));
            }
            i = i + 1;
        }
        proof {
            assert(self@.take(i as int) =~= self@);
        }
        let mut total = to_decimal(self.error);
        total.append(" error(s) have been emitted");
        out.push(Piece::new(total, Style::Strong));
        out.push(Piece::plain(String::from_str("\n")));
        out
    }

    /// The report of the diagnostics held, as it is written to a terminal.
    /// It is the text of [`DiagnosticReporter::render`] with each styled
    /// piece painted.
    pub fn report(&self, files: &Vec<SourceFile>) -> (out: String)
        requires
            self.wf(),
            countable(file_views(files@)),
        ensures
            exists|painted: Seq<Seq<char>>|
                paints(painted, report_layout(self@, file_views(files@))) && out@
                    == painted.flatten(),
    {
        let pieces = self.render(files);
        paint_all(&pieces)
    }
}

} // verus!
