//! Lexical and syntax errors, their aggregate, and how they are reported.
use vstd::prelude::*;

use crate::common::{identifier_text, Identifier, IdentifierView};
use crate::location::{caret_of, line_start, Position, Span};
use crate::text::{chars_of, decimal_of, push_char, push_decimal};

verus! {

/// An error found while lexing or parsing.
#[derive(Debug, Clone, PartialEq, Eq)]
pub enum SyntaxError {
    ExpectedNewline(Span),
    ExpectedToken(String, Span),
    IdentifierParseError(String),
    InvalidNumber(String, Span),
    InvalidUnicodeEscape(String, Span),
    UnexpectedChar(Span),
    UnexpectedEof,
    UnexpectedToken(Span),
}

/// The model of a [`SyntaxError`], with its texts as character sequences.
pub enum SyntaxErrorView {
    ExpectedNewline(Span),
    ExpectedToken(Seq<char>, Span),
    IdentifierParseError(Seq<char>),
    InvalidNumber(Seq<char>, Span),
    InvalidUnicodeEscape(Seq<char>, Span),
    UnexpectedChar(Span),
    UnexpectedEof,
    UnexpectedToken(Span),
}

impl View for SyntaxError {
    type V = SyntaxErrorView;

    open spec fn view(&self) -> SyntaxErrorView {
        match self {
            SyntaxError::ExpectedNewline(s) => SyntaxErrorView::ExpectedNewline(*s),
            SyntaxError::ExpectedToken(d, s) => SyntaxErrorView::ExpectedToken(d@, *s),
            SyntaxError::IdentifierParseError(t) => SyntaxErrorView::IdentifierParseError(t@),
            SyntaxError::InvalidNumber(t, s) => SyntaxErrorView::InvalidNumber(t@, *s),
            SyntaxError::InvalidUnicodeEscape(t, s) => SyntaxErrorView::InvalidUnicodeEscape(t@, *s),
            SyntaxError::UnexpectedChar(s) => SyntaxErrorView::UnexpectedChar(*s),
            SyntaxError::UnexpectedEof => SyntaxErrorView::UnexpectedEof,
            SyntaxError::UnexpectedToken(s) => SyntaxErrorView::UnexpectedToken(*s),
        }
    }
}

/// The models of a list of syntax errors.
pub open spec fn errors_view(v: Seq<SyntaxError>) -> Seq<SyntaxErrorView> {
    v.map_values(|e: SyntaxError| e@)
}

/// The failure of a whole parse.
#[derive(Debug, Clone, PartialEq, Eq)]
pub enum RolError {
    /// One error that stopped the work at once.
    Syntax(SyntaxError),
    /// Every error that statement-level recovery collected, in source order.
    Multiple(Vec<SyntaxError>),
    /// A declaration whose name is qualified by a package; such a name can
    /// never be declared, so parsing stops there.
    QualifiedDeclaration(Identifier, Span),
}

/// The model of a [`RolError`].
pub enum RolErrorView {
    Syntax(SyntaxErrorView),
    Multiple(Seq<SyntaxErrorView>),
    QualifiedDeclaration(IdentifierView, Span),
}

impl View for RolError {
    type V = RolErrorView;

    open spec fn view(&self) -> RolErrorView {
        match self {
            RolError::Syntax(e) => RolErrorView::Syntax(e@),
            RolError::Multiple(v) => RolErrorView::Multiple(errors_view(v@)),
            RolError::QualifiedDeclaration(id, s) => RolErrorView::QualifiedDeclaration(id@, *s),
        }
    }
}

/// The message of a syntax error.
pub open spec fn message_of(e: SyntaxErrorView) -> Seq<char> {
    match e {
        SyntaxErrorView::ExpectedNewline(_) => "Expected a new line"@,
        SyntaxErrorView::ExpectedToken(d, _) => "Expected "@ + d,
        SyntaxErrorView::IdentifierParseError(t) => "Failed to parse the identifier '"@ + t
            + "' (this shouldn't happen)"@,
        SyntaxErrorView::InvalidNumber(t, _) => "Invalid number '"@ + t + "'"@,
        SyntaxErrorView::InvalidUnicodeEscape(t, _) => "Invalid Unicode escape sequence '"@ + t
            + "'"@,
        SyntaxErrorView::UnexpectedChar(_) => "Unexpected character"@,
        SyntaxErrorView::UnexpectedEof => "Unexpected end of file"@,
        SyntaxErrorView::UnexpectedToken(_) => "Unexpected token"@,
    }
}

/// Where a syntax error points, if anywhere.
pub open spec fn location_of(e: SyntaxErrorView) -> Option<Span> {
    match e {
        SyntaxErrorView::ExpectedNewline(s) => Some(s),
        SyntaxErrorView::ExpectedToken(_, s) => Some(s),
        SyntaxErrorView::IdentifierParseError(_) => None,
        SyntaxErrorView::InvalidNumber(_, s) => Some(s),
        SyntaxErrorView::InvalidUnicodeEscape(_, s) => Some(s),
        SyntaxErrorView::UnexpectedChar(s) => Some(s),
        SyntaxErrorView::UnexpectedEof => None,
        SyntaxErrorView::UnexpectedToken(s) => Some(s),
    }
}

/// The message for a declaration of the package-qualified name `id`.
pub open spec fn qualified_message(id: IdentifierView) -> Seq<char> {
    "Cannot declare the package-qualified name '"@ + identifier_text(id) + "'"@
}

/// The index of the first line feed in `t` from `i`, or the end of `t`.
pub open spec fn line_end(t: Seq<char>, i: int) -> int
    decreases t.len() - i,
{
    if 0 <= i < t.len() && t[i] != '\n' {
        line_end(t, i + 1)
    } else {
        i
    }
}

/// The text of line `line` (counted from 1) of `t`, without its line break.
pub open spec fn line_text(t: Seq<char>, line: nat) -> Seq<char> {
    let raw = t.subrange(line_start(t, line) as int, line_end(t, line_start(t, line) as int));
    if raw.len() > 0 && raw.last() == '\r' {
        raw.drop_last()
    } else {
        raw
    }
}

/// The span has an underline.
pub open spec fn has_caret(s: Span) -> bool {
    s.start.line == s.end.line && s.start.column <= s.end.column
}

/// The report of an error with this message and location, in `file` whose
/// text is `content`: the message; then where it is, and for a span on one
/// line that line of the source and the span's underline.
pub open spec fn report_of(
    message: Seq<char>,
    loc: Option<Span>,
    file: Seq<char>,
    content: Seq<char>,
) -> Seq<Seq<char>> {
    let head = "Syntax error: "@ + message;
    match loc {
        None => seq![head, "  --> "@ + file],
        Some(s) => {
            let at = "  --> "@ + file + ":"@ + decimal_of(s.start.line as nat) + ":"@ + decimal_of(
                s.start.column as nat,
            );
            if has_caret(s) && s.start.line >= 1 {
                seq![
                    head,
                    at,
                    "   | "@ + line_text(content, s.start.line as nat),
                    "   | "@ + caret_of(s)->0,
                ]
            } else {
                seq![head, at]
            }
        },
    }
}

/// The reports of the errors `v`, one after another.
pub open spec fn reports_of(v: Seq<SyntaxErrorView>, file: Seq<char>, content: Seq<char>) -> Seq<
    Seq<char>,
>
    decreases v.len(),
{
    if v.len() == 0 {
        Seq::empty()
    } else {
        reports_of(v.drop_last(), file, content) + report_of(
            message_of(v.last()),
            location_of(v.last()),
            file,
            content,
        )
    }
}

/// The report of a failed parse.
pub open spec fn rol_report_of(e: RolErrorView, file: Seq<char>, content: Seq<char>) -> Seq<
    Seq<char>,
> {
    match e {
        RolErrorView::Syntax(s) => report_of(message_of(s), location_of(s), file, content),
        RolErrorView::Multiple(v) => reports_of(v, file, content),
        RolErrorView::QualifiedDeclaration(id, s) => report_of(
            qualified_message(id),
            Some(s),
            file,
            content,
        ),
    }
}

/// The models of a list of lines.
pub open spec fn lines_view(v: Seq<String>) -> Seq<Seq<char>> {
    v.map_values(|s: String| s@)
}

proof fn lemma_line_start_bound(t: Seq<char>, line: nat)
    ensures
        line_start(t, line) <= t.len(),
    decreases t.len(),
{
    if line > 1 && t.len() > 0 {
        if t[0] == '\n' {
            lemma_line_start_bound(t.drop_first(), (line - 1) as nat);
        } else {
            lemma_line_start_bound(t.drop_first(), line);
        }
    }
}

/// Line `line` of `content`, without its line break.
fn source_line(content: &str, line: usize) -> (r: String)
    requires
        line >= 1,
    ensures
        r@ == line_text(content@, line as nat),
{
    let cs = chars_of(content);
    let n = cs.len();
    proof {
        lemma_line_start_bound(content@, line as nat);
    }
    let start = Position { line, column: 1 }.location_in(content);
    let mut end = start;
    while end < n && cs[end] != '\n'
        invariant
            cs@ == content@,
            n == cs@.len(),
            start <= end <= n,
            line_end(content@, start as int) == line_end(content@, end as int),
        decreases n - end,
    {
        end = end + 1;
    }
    let mut stop = end;
    if stop > start && cs[stop - 1] == '\r' {
        stop = stop - 1;
    }
    let mut out = String::new();
    let mut i = start;
    while i < stop
        invariant
            cs@ == content@,
            start <= i <= stop <= n,
            n == cs@.len(),
            out@ == cs@.subrange(start as int, i as int),
        decreases stop - i,
    {
        push_char(&mut out, cs[i]);
        i = i + 1;
        assert(out@ =~= cs@.subrange(start as int, i as int));
    }
    proof {
        let raw = content@.subrange(start as int, end as int);
        if raw.len() > 0 && raw.last() == '\r' {
            assert(raw.drop_last() =~= cs@.subrange(start as int, stop as int));
        } else {
            assert(raw =~= cs@.subrange(start as int, stop as int));
        }
    }
    out
}

/// A string holding `prefix` followed by `rest`.
fn joined(prefix: &str, rest: &String) -> (r: String)
    ensures
        r@ == prefix@ + rest@,
{
    let mut s = String::from_str(prefix);
    s.append(rest.as_str());
    s
}

/// The report of an error with this message and location; see [`report_of`].
fn report_lines(message: String, loc: Option<Span>, file: &str, content: &str) -> (r: Vec<String>)
    ensures
        lines_view(r@) == report_of(message@, loc, file@, content@),
{
    let mut r: Vec<String> = Vec::new();
    r.push(joined("Syntax error: ", &message));
    match loc {
        None => {
            r.push(joined("  --> ", &String::from_str(file)));
            assert(lines_view(r@) =~= report_of(message@, loc, file@, content@));
        },
        Some(s) => {
            let mut at = joined("  --> ", &String::from_str(file));
            at.append(":");
            push_decimal(&mut at, s.start.line as u64);
            at.append(":");
            push_decimal(&mut at, s.start.column as u64);
            r.push(at);
            if s.start.line == s.end.line && s.start.column <= s.end.column && s.start.line >= 1 {
                r.push(joined("   | ", &source_line(content, s.start.line)));
                match s.caret() {
                    Some(c) => r.push(joined("   | ", &c)),
                    None => {},
                }
            }
            assert(lines_view(r@) =~= report_of(message@, loc, file@, content@));
        },
    }
    r
}

impl SyntaxError {
    /// Where the error points, if anywhere.
    pub fn location(&self) -> (r: Option<Span>)
        ensures
            r == location_of(self@),
    {
        match self {
            SyntaxError::ExpectedNewline(pos) => Some(*pos),
            SyntaxError::ExpectedToken(_, pos) => Some(*pos),
            SyntaxError::IdentifierParseError(_) => None,
            SyntaxError::InvalidNumber(_, pos) => Some(*pos),
            SyntaxError::InvalidUnicodeEscape(_, pos) => Some(*pos),
            SyntaxError::UnexpectedChar(pos) => Some(*pos),
            SyntaxError::UnexpectedEof => None,
            SyntaxError::UnexpectedToken(pos) => Some(*pos),
        }
    }

    /// The error's message.
    pub fn message(&self) -> (r: String)
        ensures
            r@ == message_of(self@),
    {
        match self {
            SyntaxError::ExpectedNewline(_) => String::from_str("Expected a new line"),
            SyntaxError::ExpectedToken(d, _) => joined("Expected ", d),
            SyntaxError::IdentifierParseError(t) => {
                let mut s = joined("Failed to parse the identifier '", t);
                s.append("' (this shouldn't happen)");
                s
            },
            SyntaxError::InvalidNumber(t, _) => {
                let mut s = joined("Invalid number '", t);
                s.append("'");
                s
            },
            SyntaxError::InvalidUnicodeEscape(t, _) => {
                let mut s = joined("Invalid Unicode escape sequence '", t);
                s.append("'");
                s
            },
            SyntaxError::UnexpectedChar(_) => String::from_str("Unexpected character"),
            SyntaxError::UnexpectedEof => String::from_str("Unexpected end of file"),
            SyntaxError::UnexpectedToken(_) => String::from_str("Unexpected token"),
        }
    }

    /// The lines that report this error in `file`, whose text is `content`.
    pub fn report(&self, file: &str, content: &str) -> (r: Vec<String>)
        ensures
            lines_view(r@) == report_of(message_of(self@), location_of(self@), file@, content@),
    {
        report_lines(self.message(), self.location(), file, content)
    }
}

impl RolError {
    /// A one-line summary of the failure.
    pub fn message(&self) -> (r: String)
        ensures
            r@ == match self@ {
                RolErrorView::Syntax(_) => "Syntax error"@,
                RolErrorView::Multiple(_) => "Multiple errors"@,
                RolErrorView::QualifiedDeclaration(id, _) => qualified_message(id),
            },
    {
        match self {
            RolError::Syntax(_) => String::from_str("Syntax error"),
            RolError::Multiple(_) => String::from_str("Multiple errors"),
            RolError::QualifiedDeclaration(id, _) => {
                let mut s = joined("Cannot declare the package-qualified name '", &id.render());
                s.append("'");
                s
            },
        }
    }

    /// The lines that report every error held here, in order, in `file`,
    /// whose text is `content`.
    pub fn report(&self, file: &str, content: &str) -> (r: Vec<String>)
        ensures
            lines_view(r@) == rol_report_of(self@, file@, content@),
    {
        match self {
            RolError::Syntax(err) => err.report(file, content),
            RolError::Multiple(errors) => {
                let mut out: Vec<String> = Vec::new();
                let mut i: usize = 0;
                assert(lines_view(out@) =~= Seq::<Seq<char>>::empty());
                while i < errors.len()
                    invariant
                        i <= errors@.len(),
                        lines_view(out@) == reports_of(
                            errors_view(errors@).take(i as int),
                            file@,
                            content@,
                        ),
                    decreases errors@.len() - i,
                {
                    let mut more = errors[i].report(file, content);
                    let ghost before = out@;
                    let ghost added = more@;
                    out.append(&mut more);
                    assert(errors_view(errors@).take(i + 1).drop_last() =~= errors_view(
                        errors@,
                    ).take(i as int));
                    assert(lines_view(out@) =~= lines_view(before) + lines_view(added));
                    i = i + 1;
                }
                assert(errors_view(errors@).take(i as int) =~= errors_view(errors@));
                out
            },
            RolError::QualifiedDeclaration(id, span) => {
                let mut m = joined("Cannot declare the package-qualified name '", &id.render());
                m.append("'");
                report_lines(m, Some(*span), file, content)
            },
        }
    }
}

} // verus!
