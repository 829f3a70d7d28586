//! The lexer: source text to an ordered sequence of tokens.
use vstd::prelude::*;

use unicode_normalization::UnicodeNormalization;

use crate::error::{SyntaxError, SyntaxErrorView};
use crate::location::{fits, lemma_pos_after_bounds, pos_after, span_of, Position, Span};
use crate::text::{chars_of, push_char};

verus! {

/// A token: its kind, the source span it covers and its text, which is the
/// source text it was read from (normalized, for a name or keyword).
#[derive(Debug, Clone, PartialEq, Eq)]
pub struct Token {
    pub token_type: TokenType,
    pub span: Span,
    pub text: String,
}

/// The kinds of token.
#[derive(Debug, Clone, PartialEq, Eq)]
pub enum TokenType {
    And,
    DoubleColon,
    DoubleEquals,
    GreaterThanEquals,
    Identifier,
    Keyword(RolKeyword),
    LessThanEquals,
    Newline,
    NotEquals,
    Number,
    Or,
    SingleChar(SingleChar),
    DoubleStar,
    /// A string literal, with its `\u` escapes decoded.
    String(String),
}

/// The reserved words.
#[derive(Debug, Clone, Copy, PartialEq, Eq, Structural)]
pub enum RolKeyword {
    Else,
    If,
    Val,
    Var,
}

/// The one-character punctuation tokens.
#[derive(Debug, Clone, Copy, PartialEq, Eq, Structural)]
pub enum SingleChar {
    Comma,
    Equals,
    GreaterThan,
    LessThan,
    Minus,
    Not,
    OpenParen,
    CloseParen,
    Percent,
    Plus,
    Slash,
    Star,
}

/// The model of a [`TokenType`].
pub enum TokenTypeView {
    And,
    DoubleColon,
    DoubleEquals,
    GreaterThanEquals,
    Identifier,
    Keyword(RolKeyword),
    LessThanEquals,
    Newline,
    NotEquals,
    Number,
    Or,
    SingleChar(SingleChar),
    DoubleStar,
    String(Seq<char>),
}

impl View for TokenType {
    type V = TokenTypeView;

    open spec fn view(&self) -> TokenTypeView {
        match self {
            TokenType::And => TokenTypeView::And,
            TokenType::DoubleColon => TokenTypeView::DoubleColon,
            TokenType::DoubleEquals => TokenTypeView::DoubleEquals,
            TokenType::GreaterThanEquals => TokenTypeView::GreaterThanEquals,
            TokenType::Identifier => TokenTypeView::Identifier,
            TokenType::Keyword(k) => TokenTypeView::Keyword(*k),
            TokenType::LessThanEquals => TokenTypeView::LessThanEquals,
            TokenType::Newline => TokenTypeView::Newline,
            TokenType::NotEquals => TokenTypeView::NotEquals,
            TokenType::Number => TokenTypeView::Number,
            TokenType::Or => TokenTypeView::Or,
            TokenType::SingleChar(c) => TokenTypeView::SingleChar(*c),
            TokenType::DoubleStar => TokenTypeView::DoubleStar,
            TokenType::String(s) => TokenTypeView::String(s@),
        }
    }
}

/// The model of a [`Token`].
pub struct TokenView {
    pub token_type: TokenTypeView,
    pub span: Span,
    pub text: Seq<char>,
}

impl View for Token {
    type V = TokenView;

    open spec fn view(&self) -> TokenView {
        TokenView { token_type: self.token_type@, span: self.span, text: self.text@ }
    }
}

/// The models of a token sequence.
pub open spec fn tokens_view(v: Seq<Token>) -> Seq<TokenView> {
    v.map_values(|t: Token| t@)
}

/// The keyword that `t` spells, if any.
pub open spec fn keyword_of(t: Seq<char>) -> Option<RolKeyword> {
    if t =~= seq!['e', 'l', 's', 'e'] {
        Some(RolKeyword::Else)
    } else if t =~= seq!['i', 'f'] {
        Some(RolKeyword::If)
    } else if t =~= seq!['v', 'a', 'l'] {
        Some(RolKeyword::Val)
    } else if t =~= seq!['v', 'a', 'r'] {
        Some(RolKeyword::Var)
    } else {
        None
    }
}

impl RolKeyword {
    /// The keyword that `s` spells, if any.
    pub fn from_str(s: &str) -> (r: Option<RolKeyword>)
        ensures
            r == keyword_of(s@),
    {
        let cs = chars_of(s);
        keyword_in(&cs)
    }
}

/// The keyword that `cs` spells, if any.
fn keyword_in(cs: &Vec<char>) -> (r: Option<RolKeyword>)
    ensures
        r == keyword_of(cs@),
{
    let n = cs.len();
    if n == 4 && cs[0] == 'e' && cs[1] == 'l' && cs[2] == 's' && cs[3] == 'e' {
        assert(cs@ =~= seq!['e', 'l', 's', 'e']);
        Some(RolKeyword::Else)
    } else if n == 2 && cs[0] == 'i' && cs[1] == 'f' {
        assert(cs@ =~= seq!['i', 'f']);
        Some(RolKeyword::If)
    } else if n == 3 && cs[0] == 'v' && cs[1] == 'a' && cs[2] == 'l' {
        assert(cs@ =~= seq!['v', 'a', 'l']);
        Some(RolKeyword::Val)
    } else if n == 3 && cs[0] == 'v' && cs[1] == 'a' && cs[2] == 'r' {
        assert(cs@ =~= seq!['v', 'a', 'r']);
        Some(RolKeyword::Var)
    } else {
        proof {
            if cs@ =~= seq!['e', 'l', 's', 'e'] {
                assert(cs@[0] == 'e' && cs@[1] == 'l' && cs@[2] == 's' && cs@[3] == 'e');
            }
            if cs@ =~= seq!['i', 'f'] {
                assert(cs@[0] == 'i' && cs@[1] == 'f');
            }
            if cs@ =~= seq!['v', 'a', 'l'] {
                assert(cs@[0] == 'v' && cs@[1] == 'a' && cs@[2] == 'l');
            }
            if cs@ =~= seq!['v', 'a', 'r'] {
                assert(cs@[0] == 'v' && cs@[1] == 'a' && cs@[2] == 'r');
            }
        }
        None
    }
}

/// The punctuation token that the character `c` stands for on its own, for
/// the characters that never start a longer token.
pub open spec fn single_char_of(c: char) -> Option<SingleChar> {
    if c == ',' {
        Some(SingleChar::Comma)
    } else if c == '>' {
        Some(SingleChar::GreaterThan)
    } else if c == '<' {
        Some(SingleChar::LessThan)
    } else if c == '-' {
        Some(SingleChar::Minus)
    } else if c == '!' {
        Some(SingleChar::Not)
    } else if c == '(' {
        Some(SingleChar::OpenParen)
    } else if c == ')' {
        Some(SingleChar::CloseParen)
    } else if c == '+' {
        Some(SingleChar::Plus)
    } else if c == '%' {
        Some(SingleChar::Percent)
    } else if c == '/' {
        Some(SingleChar::Slash)
    } else {
        None
    }
}

impl SingleChar {
    pub fn from_char(c: char) -> (r: Option<SingleChar>)
        ensures
            r == single_char_of(c),
    {
        match c {
            ',' => Some(SingleChar::Comma),
            '>' => Some(SingleChar::GreaterThan),
            '<' => Some(SingleChar::LessThan),
            '-' => Some(SingleChar::Minus),
            '!' => Some(SingleChar::Not),
            '(' => Some(SingleChar::OpenParen),
            ')' => Some(SingleChar::CloseParen),
            '+' => Some(SingleChar::Plus),
            '%' => Some(SingleChar::Percent),
            '/' => Some(SingleChar::Slash),
            _ => None,
        }
    }
}

/// Whether `c` may start an identifier: the Unicode XID_Start property.
pub uninterp spec fn xid_start(c: char) -> bool;

/// Whether `c` may continue an identifier: the Unicode XID_Continue property.
pub uninterp spec fn xid_continue(c: char) -> bool;

/// The Unicode canonical composition (NFC) of `t`.
pub uninterp spec fn nfc_of(t: Seq<char>) -> Seq<char>;

/// Relies on `unicode_ident::is_xid_start`: whether `c` is XID_Start.
#[verifier::external_body]
fn is_ident_start(c: char) -> (r: bool)
    ensures
        r == xid_start(c),
{
    unicode_ident::is_xid_start(c)
}

/// Relies on `unicode_ident::is_xid_continue`: whether `c` is XID_Continue.
#[verifier::external_body]
fn is_ident_continue(c: char) -> (r: bool)
    ensures
        r == xid_continue(c),
{
    unicode_ident::is_xid_continue(c)
}

/// Relies on `UnicodeNormalization::nfc` of unicode-normalization: the
/// canonical composition of `s`, collected into a string.
#[verifier::external_body]
fn normalize(s: &str) -> (r: String)
    ensures
        r@ == nfc_of(s@),
{
    s.nfc().collect::<String>()
}

/// The character whose scalar value is `v`, if `v` is a Unicode scalar value.
pub open spec fn scalar_of(v: u32) -> Option<char> {
    if v < 0xD800 || (0xE000 <= v && v <= 0x10FFFF) {
        Some(v as char)
    } else {
        None
    }
}

/// Relies on `char::from_u32`: `None` exactly for values that are not
/// Unicode scalar values (surrogates and values above 0x10FFFF).
#[verifier::external_body]
fn char_from(v: u32) -> (r: Option<char>)
    ensures
        r == scalar_of(v),
{
    char::from_u32(v)
}

pub open spec fn is_digit(c: char) -> bool {
    '0' <= c && c <= '9'
}

/// The Unicode White_Space property.
pub open spec fn is_blank(c: char) -> bool {
    let v = c as u32;
    (0x9 <= v && v <= 0xD) || v == 0x20 || v == 0x85 || v == 0xA0 || v == 0x1680 || (0x2000 <= v
        && v <= 0x200A) || v == 0x2028 || v == 0x2029 || v == 0x202F || v == 0x205F || v == 0x3000
}

fn blank(c: char) -> (r: bool)
    ensures
        r == is_blank(c),
{
    let v = c as u32;
    (0x9 <= v && v <= 0xD) || v == 0x20 || v == 0x85 || v == 0xA0 || v == 0x1680 || (0x2000 <= v
        && v <= 0x200A) || v == 0x2028 || v == 0x2029 || v == 0x202F || v == 0x205F || v == 0x3000
}

/// The value of the hexadecimal digit `c`.
pub open spec fn hex_digit(c: char) -> Option<u32> {
    if '0' <= c && c <= '9' {
        Some((c as u32 - '0' as u32) as u32)
    } else if 'a' <= c && c <= 'f' {
        Some((c as u32 - 'a' as u32 + 10) as u32)
    } else if 'A' <= c && c <= 'F' {
        Some((c as u32 - 'A' as u32 + 10) as u32)
    } else {
        None
    }
}

/// The value of the four hexadecimal digits `t[0..4]`.
pub open spec fn hex4(t: Seq<char>) -> Option<u32> {
    match (hex_digit(t[0]), hex_digit(t[1]), hex_digit(t[2]), hex_digit(t[3])) {
        (Some(a), Some(b), Some(c), Some(d)) => Some((a * 4096 + b * 256 + c * 16 + d) as u32),
        _ => None,
    }
}

/// The end of the run of identifier-continue characters from `j`.
pub open spec fn ident_end(s: Seq<char>, j: int) -> int
    decreases s.len() - j,
{
    if 0 <= j < s.len() && xid_continue(s[j]) {
        ident_end(s, j + 1)
    } else {
        j
    }
}

/// The end of the run of digits and `.` from `j`.
pub open spec fn number_end(s: Seq<char>, j: int) -> int
    decreases s.len() - j,
{
    if 0 <= j < s.len() && (is_digit(s[j]) || s[j] == '.') {
        number_end(s, j + 1)
    } else {
        j
    }
}

/// How many `.` the text `t` holds.
pub open spec fn dot_count(t: Seq<char>) -> nat
    decreases t.len(),
{
    if t.len() == 0 {
        0
    } else {
        dot_count(t.drop_last()) + if t.last() == '.' { 1nat } else { 0nat }
    }
}

/// How the body of a string literal ends.
pub enum StringScan {
    /// The decoded text, and the index just after the closing quote.
    Closed(Seq<char>, int),
    /// The text ended first.
    Eof,
    /// A `\u` escape whose four characters, from this index, are no scalar value.
    BadEscape(int),
}

/// Scans a string literal's body from index `k`, with `acc` decoded so far.
/// `\u` and four hex digits decode to that character; any other escape is
/// kept as it is written.
pub open spec fn string_body(s: Seq<char>, k: int, acc: Seq<char>) -> StringScan
    decreases s.len() - k,
{
    if k < 0 || k >= s.len() {
        StringScan::Eof
    } else if s[k] == '"' {
        StringScan::Closed(acc, k + 1)
    } else if s[k] == '\\' {
        if k + 1 >= s.len() {
            StringScan::Eof
        } else if s[k + 1] == 'u' {
            if k + 6 > s.len() {
                StringScan::Eof
            } else {
                match hex4(s.subrange(k + 2, k + 6)) {
                    Some(v) => match scalar_of(v) {
                        Some(c) => string_body(s, k + 6, acc.push(c)),
                        None => StringScan::BadEscape(k + 2),
                    },
                    None => StringScan::BadEscape(k + 2),
                }
            }
        } else {
            string_body(s, k + 2, acc.push('\\').push(s[k + 1]))
        }
    } else {
        string_body(s, k + 1, acc.push(s[k]))
    }
}

/// What the lexer does at one index.
pub enum Scan {
    /// A token of this kind and text, ending before the index.
    Emit(TokenTypeView, Seq<char>, int),
    /// Whitespace up to the index.
    Skip(int),
    /// A line break up to the index.
    Break(int),
    /// Lexing fails.
    Fail(SyntaxErrorView),
}

/// A token of `len` characters from `i`, whose text is the source text.
pub open spec fn emit_raw(s: Seq<char>, i: int, len: int, kind: TokenTypeView) -> Scan {
    Scan::Emit(kind, s.subrange(i, i + len), i + len)
}

/// `s[i]` followed by `second` is the token `long`; alone it is `short`.
pub open spec fn scan_pair(
    s: Seq<char>,
    i: int,
    second: char,
    long: TokenTypeView,
    short: TokenTypeView,
) -> Scan {
    if i + 1 < s.len() && s[i + 1] == second {
        emit_raw(s, i, 2, long)
    } else {
        emit_raw(s, i, 1, short)
    }
}

/// `s[i]` doubled is the token `long`; alone it is an error.
pub open spec fn scan_double(s: Seq<char>, i: int, p: Position, long: TokenTypeView) -> Scan {
    if i + 1 < s.len() && s[i + 1] == s[i] {
        emit_raw(s, i, 2, long)
    } else {
        Scan::Fail(SyntaxErrorView::UnexpectedChar(span_of(p, Seq::empty())))
    }
}

/// The kind of token that the identifier text `t` makes.
pub open spec fn word_kind(t: Seq<char>) -> TokenTypeView {
    match keyword_of(t) {
        Some(k) => TokenTypeView::Keyword(k),
        None => TokenTypeView::Identifier,
    }
}

/// An identifier or keyword from `i`: its text is normalized first.
pub open spec fn scan_word(s: Seq<char>, i: int) -> Scan {
    let j = ident_end(s, i + 1);
    let t = nfc_of(s.subrange(i, j));
    Scan::Emit(word_kind(t), t, j)
}

/// A string literal whose opening quote stands at `i`, at position `p`.
pub open spec fn scan_string(s: Seq<char>, i: int, p: Position) -> Scan {
    match string_body(s, i + 1, Seq::empty()) {
        StringScan::Closed(d, j) => Scan::Emit(TokenTypeView::String(d), s.subrange(i, j), j),
        StringScan::Eof => Scan::Fail(SyntaxErrorView::UnexpectedEof),
        StringScan::BadEscape(h) => Scan::Fail(
            SyntaxErrorView::InvalidUnicodeEscape(
                s.subrange(h, h + 4),
                span_of(pos_after(p, s.subrange(i, h)), s.subrange(h, h + 4)),
            ),
        ),
    }
}

/// A number from `i`, at position `p`: the run of digits and `.` must hold
/// at most one `.`, which is what makes it a valid decimal literal.
pub open spec fn scan_number(s: Seq<char>, i: int, p: Position) -> Scan {
    let j = number_end(s, i + 1);
    let t = s.subrange(i, j);
    if dot_count(t) <= 1 {
        Scan::Emit(TokenTypeView::Number, t, j)
    } else {
        Scan::Fail(SyntaxErrorView::InvalidNumber(t, span_of(p, t)))
    }
}

/// What the lexer does at index `i` of `s`, standing at position `p`.
pub open spec fn scan_at(s: Seq<char>, i: int, p: Position) -> Scan {
    let c = s[i];
    if xid_start(c) {
        scan_word(s, i)
    } else if c == ':' {
        scan_double(s, i, p, TokenTypeView::DoubleColon)
    } else if c == '|' {
        scan_double(s, i, p, TokenTypeView::Or)
    } else if c == '&' {
        scan_double(s, i, p, TokenTypeView::And)
    } else if c == '\r' {
        Scan::Break(if i + 1 < s.len() && s[i + 1] == '\n' { i + 2 } else { i + 1 })
    } else if c == '\n' {
        Scan::Break(i + 1)
    } else if c == '"' {
        scan_string(s, i, p)
    } else if is_digit(c) {
        scan_number(s, i, p)
    } else if c == '=' {
        scan_pair(
            s,
            i,
            '=',
            TokenTypeView::DoubleEquals,
            TokenTypeView::SingleChar(SingleChar::Equals),
        )
    } else if c == '<' {
        scan_pair(
            s,
            i,
            '=',
            TokenTypeView::LessThanEquals,
            TokenTypeView::SingleChar(SingleChar::LessThan),
        )
    } else if c == '>' {
        scan_pair(
            s,
            i,
            '=',
            TokenTypeView::GreaterThanEquals,
            TokenTypeView::SingleChar(SingleChar::GreaterThan),
        )
    } else if c == '*' {
        scan_pair(
            s,
            i,
            '*',
            TokenTypeView::DoubleStar,
            TokenTypeView::SingleChar(SingleChar::Star),
        )
    } else if c == '!' {
        scan_pair(s, i, '=', TokenTypeView::NotEquals, TokenTypeView::SingleChar(SingleChar::Not))
    } else if single_char_of(c) is Some {
        emit_raw(s, i, 1, TokenTypeView::SingleChar(single_char_of(c)->0))
    } else if is_blank(c) {
        Scan::Skip(i + 1)
    } else {
        Scan::Fail(SyntaxErrorView::UnexpectedChar(span_of(p, Seq::empty())))
    }
}

/// The start of the line after a line break at `p`.
pub open spec fn next_line(p: Position) -> Position {
    Position { line: (p.line + 1) as usize, column: 1 }
}

/// The last of `toks` is a line break.
pub open spec fn ends_with_newline(toks: Seq<TokenView>) -> bool {
    toks.len() > 0 && toks.last().token_type is Newline
}

/// Lexes `s` from index `i`, standing at position `p`, after the tokens
/// `toks`.
pub open spec fn lex_from(s: Seq<char>, i: int, p: Position, toks: Seq<TokenView>) -> Result<
    Seq<TokenView>,
    SyntaxErrorView,
>
    decreases s.len() - i,
{
    if i < 0 || i >= s.len() {
        Ok(toks)
    } else {
        match scan_at(s, i, p) {
            Scan::Fail(e) => Err(e),
            Scan::Skip(j) => if i < j <= s.len() {
                lex_from(s, j, pos_after(p, s.subrange(i, j)), toks)
            } else {
                Ok(toks)
            },
            Scan::Break(j) => if i < j <= s.len() {
                if ends_with_newline(toks) {
                    lex_from(s, j, next_line(p), toks)
                } else {
                    let raw = s.subrange(i, j);
                    let tok = TokenView {
                        token_type: TokenTypeView::Newline,
                        span: span_of(p, raw),
                        text: raw,
                    };
                    lex_from(s, j, next_line(p), toks.push(tok))
                }
            } else {
                Ok(toks)
            },
            Scan::Emit(kind, text, j) => if i < j <= s.len() {
                let raw = s.subrange(i, j);
                let tok = TokenView { token_type: kind, span: span_of(p, raw), text };
                lex_from(s, j, pos_after(p, raw), toks.push(tok))
            } else {
                Ok(toks)
            },
        }
    }
}

/// The tokens of `s`, or the first lexical error in it.
pub open spec fn lex_spec(s: Seq<char>) -> Result<Seq<TokenView>, SyntaxErrorView> {
    lex_from(s, 0, Position { line: 1, column: 1 }, Seq::empty())
}

/// The model of a lexer result.
pub open spec fn lex_result_view(r: Result<Vec<Token>, SyntaxError>) -> Result<
    Seq<TokenView>,
    SyntaxErrorView,
> {
    match r {
        Ok(v) => Ok(tokens_view(v@)),
        Err(e) => Err(e@),
    }
}

/// One step of the lexer, as the scanner found it.
enum Step {
    Emit(TokenType, String, usize),
    Skip(usize),
    Break(usize),
    Fail(SyntaxError),
}

spec fn step_view(st: Step) -> Scan {
    match st {
        Step::Emit(k, t, j) => Scan::Emit(k@, t@, j as int),
        Step::Skip(j) => Scan::Skip(j as int),
        Step::Break(j) => Scan::Break(j as int),
        Step::Fail(e) => Scan::Fail(e@),
    }
}

/// The step ends after `i` and within `n` characters.
spec fn step_in(st: Step, i: int, n: int) -> bool {
    match st {
        Step::Emit(_, _, j) => i < j <= n,
        Step::Skip(j) => i < j <= n,
        Step::Break(j) => i < j <= n,
        Step::Fail(_) => true,
    }
}

/// The lexer's position stays within what `i` characters can reach.
spec fn pos_in(p: Position, i: int) -> bool {
    p.line <= i + 1 && p.column <= i + 1
}

/// The position after `cs[i..j]` when it starts at `p`.
fn advance(p: Position, cs: &Vec<char>, i: usize, j: usize) -> (r: Position)
    requires
        i <= j <= cs@.len(),
        fits(p, cs@.subrange(i as int, j as int)),
    ensures
        r == pos_after(p, cs@.subrange(i as int, j as int)),
{
    let mut q = p;
    let mut k = i;
    assert(cs@.subrange(i as int, i as int) =~= Seq::<char>::empty());
    while k < j
        invariant
            i <= k <= j,
            j <= cs@.len(),
            fits(p, cs@.subrange(i as int, j as int)),
            q == pos_after(p, cs@.subrange(i as int, k as int)),
        decreases j - k,
    {
        proof {
            lemma_pos_after_bounds(p, cs@.subrange(i as int, k as int));
            assert(cs@.subrange(i as int, k + 1).drop_last() =~= cs@.subrange(i as int, k as int));
        }
        if cs[k] == '\n' {
            q = Position { line: q.line + 1, column: 1 };
        } else {
            q = Position { line: q.line, column: q.column + 1 };
        }
        k = k + 1;
    }
    q
}

/// The span of `cs[i..j]` when it starts at `p`.
fn span_over(p: Position, cs: &Vec<char>, i: usize, j: usize) -> (r: Span)
    requires
        i <= j <= cs@.len(),
        fits(p, cs@.subrange(i as int, j as int)),
    ensures
        r == span_of(p, cs@.subrange(i as int, j as int)),
{
    if i == j {
        Span { start: p, end: p }
    } else {
        assert(cs@.subrange(i as int, j as int).drop_last() =~= cs@.subrange(i as int, j - 1));
        Span { start: p, end: advance(p, cs, i, j - 1) }
    }
}

/// The characters `cs[i..j]` as a string.
fn slice_string(cs: &Vec<char>, i: usize, j: usize) -> (r: String)
    requires
        i <= j <= cs@.len(),
    ensures
        r@ == cs@.subrange(i as int, j as int),
{
    let mut s = String::new();
    let mut k = i;
    while k < j
        invariant
            i <= k <= j,
            j <= cs@.len(),
            s@ == cs@.subrange(i as int, k as int),
        decreases j - k,
    {
        push_char(&mut s, cs[k]);
        k = k + 1;
        assert(s@ =~= cs@.subrange(i as int, k as int));
    }
    s
}

/// The fail step for an unexpected character at `p`.
fn unexpected_char(p: Position) -> (r: Step)
    ensures
        step_view(r) == Scan::Fail(SyntaxErrorView::UnexpectedChar(span_of(p, Seq::empty()))),
{
    Step::Fail(SyntaxError::UnexpectedChar(Span { start: p, end: p }))
}

/// A token of `len` characters from `i`, its text the source text.
fn emit_raw_exec(cs: &Vec<char>, i: usize, len: usize, kind: TokenType) -> (r: Step)
    requires
        i + len <= cs@.len() < usize::MAX,
        len >= 1,
    ensures
        step_view(r) == emit_raw(cs@, i as int, len as int, kind@),
        step_in(r, i as int, cs@.len() as int),
{
    Step::Emit(kind, slice_string(cs, i, i + len), i + len)
}

/// An identifier or keyword from `i`.
fn lex_word(cs: &Vec<char>, i: usize) -> (r: Step)
    requires
        i < cs@.len() < usize::MAX,
    ensures
        step_view(r) == scan_word(cs@, i as int),
        step_in(r, i as int, cs@.len() as int),
{
    let mut j = i + 1;
    while j < cs.len() && is_ident_continue(cs[j])
        invariant
            i < j <= cs@.len(),
            ident_end(cs@, i + 1) == ident_end(cs@, j as int),
        decreases cs@.len() - j,
    {
        j = j + 1;
    }
    let raw = slice_string(cs, i, j);
    let text = normalize(raw.as_str());
    let ncs = chars_of(text.as_str());
    let kind = match keyword_in(&ncs) {
        Some(k) => TokenType::Keyword(k),
        None => TokenType::Identifier,
    };
    Step::Emit(kind, text, j)
}

proof fn lemma_dot_count_bound(t: Seq<char>)
    ensures
        dot_count(t) <= t.len(),
    decreases t.len(),
{
    if t.len() > 0 {
        lemma_dot_count_bound(t.drop_last());
    }
}

/// A number from `i`, at position `p`.
fn lex_number(cs: &Vec<char>, i: usize, p: Position) -> (r: Step)
    requires
        i < cs@.len() < usize::MAX,
        pos_in(p, i as int),
    ensures
        step_view(r) == scan_number(cs@, i as int, p),
        step_in(r, i as int, cs@.len() as int),
{
    let mut j = i + 1;
    let mut dots: usize = if cs[i] == '.' { 1 } else { 0 };
    assert(cs@.subrange(i as int, i + 1).drop_last() =~= Seq::<char>::empty());
    assert(dot_count(Seq::<char>::empty()) == 0);
    while j < cs.len() && (('0' <= cs[j] && cs[j] <= '9') || cs[j] == '.')
        invariant
            i < j <= cs@.len(),
            number_end(cs@, i + 1) == number_end(cs@, j as int),
            dots == dot_count(cs@.subrange(i as int, j as int)),
        decreases cs@.len() - j,
    {
        proof {
            assert(cs@.subrange(i as int, j + 1).drop_last() =~= cs@.subrange(i as int, j as int));
            lemma_dot_count_bound(cs@.subrange(i as int, j as int));
        }
        if cs[j] == '.' {
            dots = dots + 1;
        }
        j = j + 1;
    }
    let text = slice_string(cs, i, j);
    if dots <= 1 {
        Step::Emit(TokenType::Number, text, j)
    } else {
        let span = span_over(p, cs, i, j);
        Step::Fail(SyntaxError::InvalidNumber(text, span))
    }
}

/// The value of the hexadecimal digit `c`.
fn hex_value(c: char) -> (r: Option<u32>)
    ensures
        r == hex_digit(c),
        r matches Some(v) ==> v < 16,
{
    if '0' <= c && c <= '9' {
        Some(c as u32 - '0' as u32)
    } else if 'a' <= c && c <= 'f' {
        Some(c as u32 - 'a' as u32 + 10)
    } else if 'A' <= c && c <= 'F' {
        Some(c as u32 - 'A' as u32 + 10)
    } else {
        None
    }
}

/// The value of the four hexadecimal digits from `h`.
fn hex_at(cs: &Vec<char>, h: usize) -> (r: Option<u32>)
    requires
        h + 4 <= cs@.len() < usize::MAX,
    ensures
        r == hex4(cs@.subrange(h as int, h + 4)),
{
    let t = Ghost(cs@.subrange(h as int, h + 4));
    assert(t@[0] == cs@[h as int] && t@[1] == cs@[h + 1] && t@[2] == cs@[h + 2] && t@[3]
        == cs@[h + 3]);
    match (hex_value(cs[h]), hex_value(cs[h + 1]), hex_value(cs[h + 2]), hex_value(cs[h + 3])) {
        (Some(a), Some(b), Some(c), Some(d)) => Some(a * 4096 + b * 256 + c * 16 + d),
        _ => None,
    }
}

/// A string literal whose opening quote stands at `i`, at position `p`.
fn lex_string(cs: &Vec<char>, i: usize, p: Position) -> (r: Step)
    requires
        i < cs@.len() < usize::MAX,
        pos_in(p, i as int),
    ensures
        step_view(r) == scan_string(cs@, i as int, p),
        step_in(r, i as int, cs@.len() as int),
{
    let mut acc = String::new();
    let mut k = i + 1;
    loop
        invariant
            i < k <= cs@.len(),
            cs@.len() < usize::MAX,
            pos_in(p, i as int),
            string_body(cs@, i + 1, Seq::empty()) == string_body(cs@, k as int, acc@),
        decreases cs@.len() - k,
    {
        if k >= cs.len() {
            return Step::Fail(SyntaxError::UnexpectedEof);
        }
        let c = cs[k];
        if c == '"' {
            let text = slice_string(cs, i, k + 1);
            return Step::Emit(TokenType::String(acc), text, k + 1);
        } else if c == '\\' {
            if k + 1 >= cs.len() {
                return Step::Fail(SyntaxError::UnexpectedEof);
            }
            if cs[k + 1] == 'u' {
                if cs.len() - k < 6 {
                    return Step::Fail(SyntaxError::UnexpectedEof);
                }
                let h = k + 2;
                match hex_at(cs, h) {
                    Some(v) => match char_from(v) {
                        Some(ch) => {
                            push_char(&mut acc, ch);
                            k = k + 6;
                            continue;
                        },
                        None => {},
                    },
                    None => {},
                }
                proof {
                    lemma_pos_after_bounds(p, cs@.subrange(i as int, h as int));
                }
                let start = advance(p, cs, i, h);
                let span = span_over(start, cs, h, h + 4);
                return Step::Fail(SyntaxError::InvalidUnicodeEscape(slice_string(cs, h, h + 4), span));
            } else {
                push_char(&mut acc, '\\');
                push_char(&mut acc, cs[k + 1]);
                k = k + 2;
            }
        } else {
            push_char(&mut acc, c);
            k = k + 1;
        }
    }
}

/// `cs[i]` followed by `second` is `long`; alone it is `short`.
fn lex_pair(cs: &Vec<char>, i: usize, second: char, long: TokenType, short: TokenType) -> (r: Step)
    requires
        i < cs@.len() < usize::MAX,
    ensures
        step_view(r) == scan_pair(cs@, i as int, second, long@, short@),
        step_in(r, i as int, cs@.len() as int),
{
    if i + 1 < cs.len() && cs[i + 1] == second {
        emit_raw_exec(cs, i, 2, long)
    } else {
        emit_raw_exec(cs, i, 1, short)
    }
}

/// `cs[i]` doubled is `long`; alone it is an error.
fn lex_double(cs: &Vec<char>, i: usize, p: Position, long: TokenType) -> (r: Step)
    requires
        i < cs@.len() < usize::MAX,
    ensures
        step_view(r) == scan_double(cs@, i as int, p, long@),
        step_in(r, i as int, cs@.len() as int),
{
    if i + 1 < cs.len() && cs[i + 1] == cs[i] {
        emit_raw_exec(cs, i, 2, long)
    } else {
        unexpected_char(p)
    }
}

/// What the lexer does at index `i`, standing at `p`.
fn scan_one(cs: &Vec<char>, i: usize, p: Position) -> (r: Step)
    requires
        i < cs@.len() < usize::MAX,
        pos_in(p, i as int),
    ensures
        step_view(r) == scan_at(cs@, i as int, p),
        step_in(r, i as int, cs@.len() as int),
{
    let c = cs[i];
    if is_ident_start(c) {
        lex_word(cs, i)
    } else if c == ':' {
        lex_double(cs, i, p, TokenType::DoubleColon)
    } else if c == '|' {
        lex_double(cs, i, p, TokenType::Or)
    } else if c == '&' {
        lex_double(cs, i, p, TokenType::And)
    } else if c == '\r' {
        Step::Break(if i + 1 < cs.len() && cs[i + 1] == '\n' { i + 2 } else { i + 1 })
    } else if c == '\n' {
        Step::Break(i + 1)
    } else if c == '"' {
        lex_string(cs, i, p)
    } else if '0' <= c && c <= '9' {
        lex_number(cs, i, p)
    } else if c == '=' {
        lex_pair(cs, i, '=', TokenType::DoubleEquals, TokenType::SingleChar(SingleChar::Equals))
    } else if c == '<' {
        lex_pair(cs, i, '=', TokenType::LessThanEquals, TokenType::SingleChar(SingleChar::LessThan))
    } else if c == '>' {
        lex_pair(
            cs,
            i,
            '=',
            TokenType::GreaterThanEquals,
            TokenType::SingleChar(SingleChar::GreaterThan),
        )
    } else if c == '*' {
        lex_pair(cs, i, '*', TokenType::DoubleStar, TokenType::SingleChar(SingleChar::Star))
    } else if c == '!' {
        lex_pair(cs, i, '=', TokenType::NotEquals, TokenType::SingleChar(SingleChar::Not))
    } else {
        match SingleChar::from_char(c) {
            Some(single) => emit_raw_exec(cs, i, 1, TokenType::SingleChar(single)),
            None => if blank(c) {
                Step::Skip(i + 1)
            } else {
                unexpected_char(p)
            },
        }
    }
}

/// Splits `code` into tokens. Runs of line breaks become one `Newline`
/// token; whitespace is skipped; the first lexical error stops the work.
pub fn lex(code: &str) -> (r: Result<Vec<Token>, SyntaxError>)
    requires
        code@.len() < usize::MAX,
    ensures
        lex_result_view(r) == lex_spec(code@),
{
    let cs = chars_of(code);
    let mut toks: Vec<Token> = Vec::new();
    let mut p = Position { line: 1, column: 1 };
    let mut i: usize = 0;
    assert(tokens_view(toks@) =~= Seq::<TokenView>::empty());
    while i < cs.len()
        invariant
            cs@ == code@,
            cs@.len() < usize::MAX,
            i <= cs@.len(),
            pos_in(p, i as int),
            lex_from(cs@, i as int, p, tokens_view(toks@)) == lex_spec(code@),
        decreases cs@.len() - i,
    {
        let st = scan_one(&cs, i, p);
        match st {
            Step::Fail(e) => {
                return Err(e);
            },
            Step::Skip(j) => {
                proof {
                    lemma_pos_after_bounds(p, cs@.subrange(i as int, j as int));
                }
                p = advance(p, &cs, i, j);
                i = j;
            },
            Step::Break(j) => {
                let n = toks.len();
                let after_newline = n > 0 && match toks[n - 1].token_type {
                    TokenType::Newline => true,
                    _ => false,
                };
                if !after_newline {
                    let span = span_over(p, &cs, i, j);
                    let text = slice_string(&cs, i, j);
                    let tok = Token { token_type: TokenType::Newline, span, text };
                    proof {
                        assert(tokens_view(toks@.push(tok)) =~= tokens_view(toks@).push(tok@));
                    }
                    toks.push(tok);
                }
                p = Position { line: p.line + 1, column: 1 };
                i = j;
            },
            Step::Emit(kind, text, j) => {
                proof {
                    lemma_pos_after_bounds(p, cs@.subrange(i as int, j as int));
                }
                let span = span_over(p, &cs, i, j);
                let tok = Token { token_type: kind, span, text };
                proof {
                    assert(tokens_view(toks@.push(tok)) =~= tokens_view(toks@).push(tok@));
                }
                toks.push(tok);
                p = advance(p, &cs, i, j);
                i = j;
            },
        }
    }
    Ok(toks)
}

/// No two neighbouring tokens of `toks` are both line breaks.
pub open spec fn newlines_collapsed(toks: Seq<TokenView>) -> bool {
    forall|i: int|
        0 <= i && i + 1 < toks.len() ==> !(#[trigger] toks[i].token_type is Newline && toks[i
            + 1].token_type is Newline)
}

proof fn lemma_lex_from_collapsed(s: Seq<char>, i: int, p: Position, toks: Seq<TokenView>)
    requires
        newlines_collapsed(toks),
    ensures
        lex_from(s, i, p, toks) matches Ok(t) ==> newlines_collapsed(t),
    decreases s.len() - i,
{
    if 0 <= i < s.len() {
        match scan_at(s, i, p) {
            Scan::Fail(_) => {},
            Scan::Skip(j) => {
                if i < j <= s.len() {
                    lemma_lex_from_collapsed(s, j, pos_after(p, s.subrange(i, j)), toks);
                }
            },
            Scan::Break(j) => {
                if i < j <= s.len() {
                    if ends_with_newline(toks) {
                        lemma_lex_from_collapsed(s, j, next_line(p), toks);
                    } else {
                        let raw = s.subrange(i, j);
                        let tok = TokenView {
                            token_type: TokenTypeView::Newline,
                            span: span_of(p, raw),
                            text: raw,
                        };
                        assert(newlines_collapsed(toks.push(tok))) by {
                            assert forall|k: int|
                                0 <= k && k + 1 < toks.push(tok).len() implies !(
                                #[trigger] toks.push(tok)[k].token_type is Newline && toks.push(
                                    tok,
                                )[k + 1].token_type is Newline) by {
                                if k + 1 < toks.len() {
                                    assert(toks.push(tok)[k] == toks[k]);
                                    assert(toks.push(tok)[k + 1] == toks[k + 1]);
                                }
                            }
                        }
                        lemma_lex_from_collapsed(s, j, next_line(p), toks.push(tok));
                    }
                }
            },
            Scan::Emit(kind, text, j) => {
                if i < j <= s.len() {
                    let raw = s.subrange(i, j);
                    let tok = TokenView { token_type: kind, span: span_of(p, raw), text };
                    assert(!(kind is Newline)) by {
                        lemma_scan_emits_no_newline(s, i, p);
                    }
                    assert(newlines_collapsed(toks.push(tok))) by {
                        assert forall|k: int|
                            0 <= k && k + 1 < toks.push(tok).len() implies !(
                            #[trigger] toks.push(tok)[k].token_type is Newline && toks.push(
                                tok,
                            )[k + 1].token_type is Newline) by {
                            if k + 1 < toks.len() {
                                assert(toks.push(tok)[k] == toks[k]);
                                assert(toks.push(tok)[k + 1] == toks[k + 1]);
                            }
                        }
                    }
                    lemma_lex_from_collapsed(s, j, pos_after(p, raw), toks.push(tok));
                }
            },
        }
    }
}

proof fn lemma_scan_emits_no_newline(s: Seq<char>, i: int, p: Position)
    requires
        0 <= i < s.len(),
    ensures
        scan_at(s, i, p) matches Scan::Emit(kind, _, _) ==> !(kind is Newline),
{
    let c = s[i];
    if xid_start(c) {
        let t = nfc_of(s.subrange(i, ident_end(s, i + 1)));
        match keyword_of(t) {
            Some(_) => {},
            None => {},
        }
    } else if c == '"' {
        match string_body(s, i + 1, Seq::empty()) {
            StringScan::Closed(_, _) => {},
            _ => {},
        }
    }
}

/// A run of line breaks lexes to a single `Newline` token: no two
/// neighbouring tokens of a successful lex are both line breaks.
pub proof fn lemma_newlines_collapse(s: Seq<char>)
    ensures
        lex_spec(s) matches Ok(t) ==> newlines_collapsed(t),
{
    lemma_lex_from_collapsed(s, 0, Position { line: 1, column: 1 }, Seq::empty());
}

/// Lexing a text twice gives structurally identical results: any two results
/// that meet `lex`'s contract on equal texts have equal models (the same
/// tokens, or the same error).
pub proof fn lemma_lex_idempotent(
    a: Seq<char>,
    b: Seq<char>,
    r1: Result<Vec<Token>, SyntaxError>,
    r2: Result<Vec<Token>, SyntaxError>,
)
    requires
        a == b,
        lex_result_view(r1) == lex_spec(a),
        lex_result_view(r2) == lex_spec(b),
    ensures
        lex_result_view(r1) == lex_result_view(r2),
{
}

} // verus!
