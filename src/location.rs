//! Source locations: positions, text spans and token spans.
use std::rc::Rc;

use vstd::prelude::*;

use crate::lexer::{tokens_view, Token, TokenView};
use crate::text::{chars_of, opt_view, push_char, push_repeat, repeat, string_of};

verus! {

/// A place in the source text. Lines and columns count from 1; columns count
/// characters.
#[derive(Debug, Clone, Copy, PartialEq, Eq, Structural, PartialOrd, Ord)]
pub struct Position {
    pub line: usize,
    pub column: usize,
}

/// Lexicographic order on (line, column).
pub open spec fn pos_le(a: Position, b: Position) -> bool {
    a.line < b.line || (a.line == b.line && a.column <= b.column)
}

pub open spec fn pos_min(a: Position, b: Position) -> Position {
    if pos_le(a, b) { a } else { b }
}

pub open spec fn pos_max(a: Position, b: Position) -> Position {
    if pos_le(a, b) { b } else { a }
}

/// The position that follows character `c` when `c` stands at `p`.
pub open spec fn step(p: Position, c: char) -> Position {
    if c == '\n' {
        Position { line: (p.line + 1) as usize, column: 1 }
    } else {
        Position { line: p.line, column: (p.column + 1) as usize }
    }
}

/// The position that follows the text `t` when `t` starts at `p`.
pub open spec fn pos_after(p: Position, t: Seq<char>) -> Position
    decreases t.len(),
{
    if t.len() == 0 {
        p
    } else {
        step(pos_after(p, t.drop_last()), t.last())
    }
}

/// Position arithmetic over `t` from `p` stays within `usize`.
pub open spec fn fits(p: Position, t: Seq<char>) -> bool {
    p.line + t.len() <= usize::MAX && p.column + t.len() <= usize::MAX
}

/// The span that the text `t` covers when it starts at `p`: from `p` to the
/// position of its last character (`p` itself for empty text).
pub open spec fn span_of(p: Position, t: Seq<char>) -> Span {
    Span { start: p, end: if t.len() == 0 { p } else { pos_after(p, t.drop_last()) } }
}

pub proof fn lemma_pos_after_bounds(p: Position, t: Seq<char>)
    requires
        fits(p, t),
    ensures
        pos_after(p, t).line <= p.line + t.len(),
        pos_after(p, t).column <= p.column + t.len(),
        pos_le(p, pos_after(p, t)),
    decreases t.len(),
{
    if t.len() > 0 {
        lemma_pos_after_bounds(p, t.drop_last());
    }
}

impl Position {
    /// The span of `text` when it starts here.
    pub fn to_span(&self, text: &str) -> (r: Span)
        requires
            fits(*self, text@),
        ensures
            r == span_of(*self, text@),
    {
        Span::from_pos(*self, text)
    }

    /// The character offset of this position in `text`: the start of the
    /// line (just after the `line - 1`th line feed) plus `column - 1`.
    pub fn location_in(&self, text: &str) -> (r: usize)
        requires
            self.line >= 1,
            self.column >= 1,
            line_start(text@, self.line as nat) + self.column - 1 <= usize::MAX,
        ensures
            r == line_start(text@, self.line as nat) + self.column - 1,
    {
        let cs = chars_of(text);
        let mut i: usize = 0;
        let mut seen: usize = 1;
        assert(text@.skip(0) =~= text@);
        while i < cs.len() && seen < self.line
            invariant
                cs@ == text@,
                i <= cs@.len(),
                1 <= seen <= self.line,
                line_start(text@, self.line as nat) == i + line_start(
                    text@.skip(i as int),
                    (self.line - seen + 1) as nat,
                ),
            decreases cs@.len() - i,
        {
            let ghost rest = text@.skip(i as int);
            assert(rest.drop_first() =~= text@.skip(i + 1));
            if cs[i] == '\n' {
                seen = seen + 1;
            }
            i = i + 1;
        }
        proof {
            let rest = text@.skip(i as int);
            if i == cs.len() {
                assert(rest.len() == 0);
            }
        }
        i + (self.column - 1)
    }
}

/// The offset of the start of line `line` (counted from 1) in `t`: just after
/// its `line - 1`th line feed, or the end of `t` if it has fewer.
pub open spec fn line_start(t: Seq<char>, line: nat) -> nat
    decreases t.len(),
{
    if line <= 1 || t.len() == 0 {
        0
    } else if t[0] == '\n' {
        1 + line_start(t.drop_first(), (line - 1) as nat)
    } else {
        1 + line_start(t.drop_first(), line)
    }
}

/// A range of source text, from `start` to `end` inclusive.
#[derive(Debug, Clone, Copy, PartialEq, Eq, Structural)]
pub struct Span {
    pub start: Position,
    pub end: Position,
}

/// The smallest span that covers both `a` and `b`.
pub open spec fn span_merge(a: Span, b: Span) -> Span {
    Span { start: pos_min(a.start, b.start), end: pos_max(a.end, b.end) }
}

/// Leading blanks before a caret at `column`.
pub open spec fn caret_pad(column: usize) -> nat {
    if column == 0 { 0 } else { (column - 1) as nat }
}

/// The underline of a span: `^` under a single column, `^-…-^` under a
/// range on one line; nothing for a span over several lines.
pub open spec fn caret_of(s: Span) -> Option<Seq<char>> {
    if s.start.line != s.end.line {
        None
    } else if s.start.column == s.end.column {
        Some(repeat(' ', caret_pad(s.start.column)).push('^'))
    } else {
        Some(
            repeat(' ', caret_pad(s.start.column)).push('^') + repeat(
                '-',
                (s.end.column - s.start.column - 1) as nat,
            ).push('^'),
        )
    }
}

/// Compares two positions in (line, column) order.
fn pos_le_exec(a: Position, b: Position) -> (r: bool)
    ensures
        r == pos_le(a, b),
{
    a.line < b.line || (a.line == b.line && a.column <= b.column)
}

impl Span {
    pub fn new(start: Position, end: Position) -> (r: Span)
        ensures
            r.start == start,
            r.end == end,
    {
        Span { start, end }
    }

    /// The span that `text` covers when it starts at `position`.
    pub fn from_pos(position: Position, text: &str) -> (r: Span)
        requires
            fits(position, text@),
        ensures
            r == span_of(position, text@),
    {
        let cs = chars_of(text);
        if cs.len() == 0 {
            return Span { start: position, end: position };
        }
        let mut end = position;
        let mut i: usize = 0;
        while i < cs.len() && i + 1 < cs.len()
            invariant
                fits(position, text@),
                cs@ == text@,
                cs@.len() >= 1,
                i < cs@.len(),
                end == pos_after(position, cs@.take(i as int)),
            decreases cs@.len() - i,
        {
            proof {
                assert(cs@.take(i as int).len() == i);
                lemma_pos_after_bounds(position, cs@.take(i as int));
                assert(cs@.take(i + 1).drop_last() =~= cs@.take(i as int));
            }
            if cs[i] == '\n' {
                end = Position { line: end.line + 1, column: 1 };
            } else {
                end = Position { line: end.line, column: end.column + 1 };
            }
            i = i + 1;
        }
        assert(cs@.take(i as int) =~= text@.drop_last());
        Span { start: position, end }
    }

    /// The underline of this span, for a span on one line.
    pub fn caret(&self) -> (r: Option<String>)
        requires
            self.start.line == self.end.line ==> self.start.column <= self.end.column,
        ensures
            opt_view(r) == caret_of(*self),
    {
        if self.start.line != self.end.line {
            return None;
        }
        let mut s = String::new();
        let pad: usize = if self.start.column == 0 { 0 } else { self.start.column - 1 };
        push_repeat(&mut s, ' ', pad);
        push_char(&mut s, '^');
        if self.start.column != self.end.column {
            push_repeat(&mut s, '-', self.end.column - self.start.column - 1);
            push_char(&mut s, '^');
            assert(s@ =~= repeat(' ', caret_pad(self.start.column)).push('^') + repeat(
                '-',
                (self.end.column - self.start.column - 1) as nat,
            ).push('^'));
        }
        Some(s)
    }

    /// The part of `text` that this span covers.
    pub fn text(&self, text: &str) -> (r: String)
        requires
            self.start.line >= 1,
            self.start.column >= 1,
            self.end.line >= 1,
            self.end.column >= 1,
            line_start(text@, self.start.line as nat) + self.start.column - 1
                <= line_start(text@, self.end.line as nat) + self.end.column - 1 < text@.len(),
        ensures
            r@ == text@.subrange(
                line_start(text@, self.start.line as nat) + self.start.column - 1,
                line_start(text@, self.end.line as nat) + self.end.column,
            ),
    {
        let cs = chars_of(text);
        let n = cs.len();
        let a = self.start.location_in(text);
        let b = self.end.location_in(text);
        let mut out: Vec<char> = Vec::new();
        let mut i: usize = a;
        while i <= b
            invariant
                cs@ == text@,
                a <= i <= b + 1,
                b < cs@.len(),
                n == cs@.len(),
                out@ == cs@.subrange(a as int, i as int),
            decreases b + 1 - i,
        {
            out.push(cs[i]);
            i = i + 1;
            assert(out@ =~= cs@.subrange(a as int, i as int));
        }
        string_of(&out)
    }

    /// The smallest span that covers this one and `other`.
    pub fn merge(&self, other: &Self) -> (r: Span)
        ensures
            r == span_merge(*self, *other),
    {
        Span {
            start: if pos_le_exec(self.start, other.start) { self.start } else { other.start },
            end: if pos_le_exec(self.end, other.end) { other.end } else { self.end },
        }
    }
}

/// Merging spans is commutative.
pub proof fn lemma_span_merge_commutative(a: Span, b: Span)
    ensures
        span_merge(a, b) == span_merge(b, a),
{
}

/// Merging spans is associative.
pub proof fn lemma_span_merge_associative(a: Span, b: Span, c: Span)
    ensures
        span_merge(a, span_merge(b, c)) == span_merge(span_merge(a, b), c),
{
}

/// A range of token indices, `start` to `end` inclusive, into a token buffer
/// that every span of one parse shares.
#[derive(Debug, Clone, PartialEq, Eq)]
pub struct TokenSpan {
    pub start: usize,
    pub end: usize,
    tokens: Rc<Vec<Token>>,
}

/// Relies on `Rc::clone`: the new handle refers to the same value.
#[verifier::external_body]
pub(crate) fn share(rc: &Rc<Vec<Token>>) -> (r: Rc<Vec<Token>>)
    ensures
        *r == **rc,
{
    Rc::clone(rc)
}

/// The model of a [`TokenSpan`]: its index range and the buffer it indexes.
pub struct TokenSpanView {
    pub start: nat,
    pub end: nat,
    pub tokens: Seq<TokenView>,
}

impl View for TokenSpan {
    type V = TokenSpanView;

    closed spec fn view(&self) -> TokenSpanView {
        TokenSpanView { start: self.start as nat, end: self.end as nat, tokens: tokens_view(self.tokens@) }
    }
}

impl TokenSpan {
    pub fn new(start: usize, end: usize, tokens: Rc<Vec<Token>>) -> (r: TokenSpan)
        ensures
            r@ == (TokenSpanView { start: start as nat, end: end as nat, tokens: tokens_view(tokens@) }),
    {
        TokenSpan { start, end, tokens }
    }

    /// The index of the first token.
    pub fn start_index(&self) -> (r: usize)
        ensures
            r == self@.start,
    {
        self.start
    }

    /// The index of the last token.
    pub fn end_index(&self) -> (r: usize)
        ensures
            r == self@.end,
    {
        self.end
    }

    /// The span that no token backs: indices 0 and an empty buffer.
    pub fn none() -> (r: TokenSpan)
        ensures
            r@ == (TokenSpanView { start: 0, end: 0, tokens: Seq::<TokenView>::empty() }),
    {
        let r = TokenSpan { start: 0, end: 0, tokens: Rc::new(Vec::new()) };
        assert(tokens_view(r.tokens@) =~= Seq::<TokenView>::empty());
        r
    }

    /// The tokens that this span covers; none for a span over an empty
    /// buffer, such as [`TokenSpan::none`].
    pub fn tokens(&self) -> (r: &[Token])
        requires
            self@.tokens.len() == 0 || self@.start <= self@.end < self@.tokens.len(),
        ensures
            self@.tokens.len() == 0 ==> r@.len() == 0,
            self@.tokens.len() > 0 ==> tokens_view(r@) == self@.tokens.subrange(
                self@.start as int,
                self@.end + 1 as int,
            ),
    {
        let v: &Vec<Token> = &*self.tokens;
        let n = v.len();
        if n == 0 {
            return vstd::slice::slice_subrange(v.as_slice(), 0, 0);
        }
        assert(self.end < n);
        let r = vstd::slice::slice_subrange(v.as_slice(), self.start, self.end + 1);
        assert(tokens_view(r@) =~= tokens_view(v@).subrange(self.start as int, self.end + 1 as int));
        r
    }

    /// The smallest span that covers this one and `other`, on this span's
    /// buffer.
    pub fn merge(&self, other: &Self) -> (r: TokenSpan)
        ensures
            r@ == (TokenSpanView {
                start: if self@.start <= other@.start { self@.start } else { other@.start },
                end: if self@.end >= other@.end { self@.end } else { other@.end },
                tokens: self@.tokens,
            }),
    {
        TokenSpan {
            start: if self.start <= other.start { self.start } else { other.start },
            end: if self.end >= other.end { self.end } else { other.end },
            tokens: share(&self.tokens),
        }
    }
}

/// Something that points into source text: where it starts, and how to
/// underline it.
pub trait SourceLocation {
    /// Where it starts.
    spec fn first_position(&self) -> Position;

    /// Whether it can be underlined.
    spec fn has_underline(&self) -> bool;

    /// Its underline, when it stands on one line.
    spec fn underline(&self) -> Option<Seq<char>>;

    /// The underline, with blanks before it up to its column.
    fn caret(&self) -> (r: Option<String>)
        requires
            self.has_underline(),
        ensures
            opt_view(r) == self.underline(),
    ;

    /// The line where it starts.
    fn line(&self) -> (r: usize)
        ensures
            r == self.first_position().line,
    ;

    /// The column where it starts.
    fn column(&self) -> (r: usize)
        ensures
            r == self.first_position().column,
    ;
}

impl SourceLocation for Position {
    open spec fn first_position(&self) -> Position {
        *self
    }

    open spec fn has_underline(&self) -> bool {
        true
    }

    open spec fn underline(&self) -> Option<Seq<char>> {
        caret_of(Span { start: *self, end: *self })
    }

    fn caret(&self) -> (r: Option<String>) {
        Span { start: *self, end: *self }.caret()
    }

    fn line(&self) -> (r: usize) {
        self.line
    }

    fn column(&self) -> (r: usize) {
        self.column
    }
}

impl SourceLocation for Span {
    open spec fn first_position(&self) -> Position {
        self.start
    }

    open spec fn has_underline(&self) -> bool {
        self.start.line == self.end.line ==> self.start.column <= self.end.column
    }

    open spec fn underline(&self) -> Option<Seq<char>> {
        caret_of(*self)
    }

    fn caret(&self) -> (r: Option<String>) {
        Span::caret(self)
    }

    fn line(&self) -> (r: usize) {
        self.start.line
    }

    fn column(&self) -> (r: usize) {
        self.start.column
    }
}

} // verus!
