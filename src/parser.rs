//! The parser: tokens to a syntax tree, by recursive descent over statements
//! and a precedence ladder over expressions, with recovery at statement
//! level so that one pass reports every independent error.
use std::rc::Rc;

use vstd::prelude::*;

use crate::ast::{
    exprs_model, expr_extra, expr_model, model_span, node_extra, nodes_model, node_model, AstModel,
    AstNode, BinOp, Expr, ExprModel, LiteralView, Literal, Modifier, ModifierSet, PostfixOp,
    PrefixOp,
};
use crate::common::{identifier_of, Identifier, IdentifierView};
use crate::error::{errors_view, RolError, RolErrorView, SyntaxError, SyntaxErrorView};
use crate::lexer::{
    lex, lex_spec, tokens_view, RolKeyword, SingleChar, Token, TokenType, TokenTypeView, TokenView,
};
use crate::location::{share, Span, TokenSpan, TokenSpanView};
use crate::text::push_char;

verus! {

/// The outcome of parsing from a token index: the result and the index after
/// it, or the errors and the index where parsing stopped.
pub type Parsed<T> = Result<(T, int), (Seq<SyntaxErrorView>, int)>;

/// The token span from `a` to `b` over the buffer `ts`.
pub open spec fn tsp(ts: Seq<TokenView>, a: int, b: int) -> TokenSpanView {
    TokenSpanView { start: a as nat, end: b as nat, tokens: ts }
}

pub open spec fn start_of(m: ExprModel) -> int {
    model_span(m).start as int
}

pub open spec fn end_of(m: ExprModel) -> int {
    model_span(m).end as int
}

/// The binary operator that `t` stands for at precedence level `level`:
/// 0 or, 1 and, 2 equality, 3 comparison, 4 additive, 5 multiplicative.
pub open spec fn binop_at(level: nat, t: TokenTypeView) -> Option<BinOp> {
    match t {
        TokenTypeView::Or => if level == 0 { Some(BinOp::Or) } else { None },
        TokenTypeView::And => if level == 1 { Some(BinOp::And) } else { None },
        TokenTypeView::DoubleEquals => if level == 2 { Some(BinOp::Equals) } else { None },
        TokenTypeView::NotEquals => if level == 2 { Some(BinOp::NotEquals) } else { None },
        TokenTypeView::SingleChar(SingleChar::LessThan) => if level == 3 {
            Some(BinOp::LessThan)
        } else {
            None
        },
        TokenTypeView::LessThanEquals => if level == 3 { Some(BinOp::LessThanOrEqual) } else { None },
        TokenTypeView::SingleChar(SingleChar::GreaterThan) => if level == 3 {
            Some(BinOp::GreaterThan)
        } else {
            None
        },
        TokenTypeView::GreaterThanEquals => if level == 3 {
            Some(BinOp::GreaterThanOrEqual)
        } else {
            None
        },
        TokenTypeView::SingleChar(SingleChar::Plus) => if level == 4 { Some(BinOp::Plus) } else { None },
        TokenTypeView::SingleChar(SingleChar::Minus) => if level == 4 {
            Some(BinOp::Minus)
        } else {
            None
        },
        TokenTypeView::SingleChar(SingleChar::Star) => if level == 5 { Some(BinOp::Times) } else { None },
        TokenTypeView::SingleChar(SingleChar::Slash) => if level == 5 {
            Some(BinOp::Divide)
        } else {
            None
        },
        TokenTypeView::SingleChar(SingleChar::Percent) => if level == 5 {
            Some(BinOp::Modulo)
        } else {
            None
        },
        _ => None,
    }
}

/// The prefix operator that `t` stands for.
pub open spec fn prefix_of(t: TokenTypeView) -> Option<PrefixOp> {
    match t {
        TokenTypeView::SingleChar(SingleChar::Minus) => Some(PrefixOp::Negate),
        TokenTypeView::SingleChar(SingleChar::Not) => Some(PrefixOp::Not),
        _ => None,
    }
}

/// The token at `k` is a closing parenthesis.
pub open spec fn is_close(ts: Seq<TokenView>, k: int) -> bool {
    0 <= k < ts.len() && ts[k].token_type is SingleChar && ts[k].token_type->SingleChar_0
        == SingleChar::CloseParen
}

pub open spec fn is_open(ts: Seq<TokenView>, k: int) -> bool {
    0 <= k < ts.len() && ts[k].token_type is SingleChar && ts[k].token_type->SingleChar_0
        == SingleChar::OpenParen
}

pub open spec fn is_comma(ts: Seq<TokenView>, k: int) -> bool {
    0 <= k < ts.len() && ts[k].token_type is SingleChar && ts[k].token_type->SingleChar_0
        == SingleChar::Comma
}

pub open spec fn is_equals(ts: Seq<TokenView>, k: int) -> bool {
    0 <= k < ts.len() && ts[k].token_type is SingleChar && ts[k].token_type->SingleChar_0
        == SingleChar::Equals
}

pub open spec fn is_newline(ts: Seq<TokenView>, k: int) -> bool {
    0 <= k < ts.len() && ts[k].token_type is Newline
}

/// A binary level: an operand, then operators of the level, each followed
/// by an operand, folded to the left.
pub open spec fn binary_from(ts: Seq<TokenView>, level: nat, k: int) -> Parsed<ExprModel>
    decreases ts.len() - k, 20 - 2 * level,
{
    if level > 5 {
        Err((Seq::empty(), k))
    } else {
        match operand_from(ts, level, k) {
            Err(e) => Err(e),
            Ok((left, k1)) => if k < k1 <= ts.len() {
                binary_rest_from(ts, level, left, k1)
            } else {
                Err((Seq::empty(), k1))
            },
        }
    }
}

/// An operand of a binary level: the next level up, or a prefix expression.
pub open spec fn operand_from(ts: Seq<TokenView>, level: nat, k: int) -> Parsed<ExprModel>
    decreases ts.len() - k, 19 - 2 * level,
{
    if level < 5 {
        binary_from(ts, level + 1, k)
    } else if level == 5 {
        power_from(ts, k)
    } else {
        Err((Seq::empty(), k))
    }
}

/// The operators of a binary level after the operand `left`, from `k`.
pub open spec fn binary_rest_from(ts: Seq<TokenView>, level: nat, left: ExprModel, k: int) -> Parsed<
    ExprModel,
>
    decreases ts.len() - k, 3int,
{
    if 0 <= k < ts.len() && level <= 5 && binop_at(level, ts[k].token_type) is Some {
        let op = binop_at(level, ts[k].token_type)->0;
        match operand_from(ts, level, k + 1) {
            Err(e) => Err(e),
            Ok((right, k2)) => if k + 1 < k2 <= ts.len() {
                binary_rest_from(
                    ts,
                    level,
                    ExprModel::BinOp(
                        Box::new(left),
                        op,
                        Box::new(right),
                        tsp(ts, start_of(left), end_of(right)),
                    ),
                    k2,
                )
            } else {
                Err((Seq::empty(), k2))
            },
        }
    } else {
        Ok((left, k))
    }
}

/// A run of `-` and `!` applied to a postfix expression.
pub open spec fn unary_from(ts: Seq<TokenView>, k: int) -> Parsed<ExprModel>
    decreases ts.len() - k, 7int,
{
    if 0 <= k < ts.len() && prefix_of(ts[k].token_type) is Some {
        match unary_from(ts, k + 1) {
            Err(e) => Err(e),
            Ok((e, k2)) => Ok(
                (
                    ExprModel::PrefixOp(
                        prefix_of(ts[k].token_type)->0,
                        Box::new(e),
                        tsp(ts, k, end_of(e)),
                    ),
                    k2,
                ),
            ),
        }
    } else {
        postfix_from(ts, k)
    }
}

/// A prefix expression, raised by `**` to a power expression: the right
/// side recurses, so `**` associates to the right, and prefix operators bind
/// tighter than `**`.
pub open spec fn power_from(ts: Seq<TokenView>, k: int) -> Parsed<ExprModel>
    decreases ts.len() - k, 8int,
{
    match unary_from(ts, k) {
        Err(e) => Err(e),
        Ok((left, k1)) => if k <= k1 < ts.len() && ts[k1].token_type is DoubleStar {
            match power_from(ts, k1 + 1) {
                Err(e) => Err(e),
                Ok((right, k2)) => Ok(
                    (
                        ExprModel::BinOp(
                            Box::new(left),
                            BinOp::Power,
                            Box::new(right),
                            tsp(ts, start_of(left), end_of(right)),
                        ),
                        k2,
                    ),
                ),
            }
        } else {
            Ok((left, k1))
        },
    }
}

/// A primary expression followed by any number of calls.
pub open spec fn postfix_from(ts: Seq<TokenView>, k: int) -> Parsed<ExprModel>
    decreases ts.len() - k, 6int,
{
    match primary_from(ts, k) {
        Err(e) => Err(e),
        Ok((left, k1)) => if k < k1 <= ts.len() {
            postfix_rest_from(ts, left, k1, Seq::empty())
        } else {
            Err((Seq::empty(), k1))
        },
    }
}

/// The calls after `left`, from `k`, with the missing commas found so far.
pub open spec fn postfix_rest_from(
    ts: Seq<TokenView>,
    left: ExprModel,
    k: int,
    errs: Seq<SyntaxErrorView>,
) -> Parsed<ExprModel>
    decreases ts.len() - k, 4int,
{
    if is_open(ts, k) {
        if is_close(ts, k + 1) {
            postfix_rest_from(
                ts,
                ExprModel::Call(Box::new(left), Seq::empty(), tsp(ts, start_of(left), k + 1)),
                k + 2,
                errs,
            )
        } else {
            call_args_from(ts, left, k + 1, Seq::empty(), errs)
        }
    } else if errs.len() > 0 {
        Err((errs, k))
    } else {
        Ok((left, k))
    }
}

/// The description of an expected comma.
pub open spec fn comma_text() -> Seq<char> {
    seq!['\'', ',', '\'']
}

/// The arguments of a call of `left` from `k`, after `args`.
pub open spec fn call_args_from(
    ts: Seq<TokenView>,
    left: ExprModel,
    k: int,
    args: Seq<ExprModel>,
    errs: Seq<SyntaxErrorView>,
) -> Parsed<ExprModel>
    decreases ts.len() - k, 30int,
{
    match binary_from(ts, 0, k) {
        Err((e, k1)) => Err((errs + e, k1)),
        Ok((a, k1)) => if k < k1 <= ts.len() {
            let args2 = args.push(a);
            if k1 == ts.len() {
                Err((errs.push(SyntaxErrorView::UnexpectedEof), k1))
            } else if is_close(ts, k1) {
                postfix_rest_from(
                    ts,
                    ExprModel::Call(Box::new(left), args2, tsp(ts, start_of(left), k1)),
                    k1 + 1,
                    errs,
                )
            } else if is_comma(ts, k1) {
                call_args_from(ts, left, k1 + 1, args2, errs)
            } else {
                call_args_from(
                    ts,
                    left,
                    k1 + 1,
                    args2,
                    errs.push(SyntaxErrorView::ExpectedToken(comma_text(), ts[k1].span)),
                )
            }
        } else {
            Err((errs, k1))
        },
    }
}

/// A name or a number. A rejected token is read past, but a rejected line
/// break is left for the statement level, so the next line is kept.
pub open spec fn primary_from(ts: Seq<TokenView>, k: int) -> Parsed<ExprModel>
    decreases ts.len() - k, 5int,
{
    if k < 0 || k >= ts.len() {
        Err((seq![SyntaxErrorView::UnexpectedEof], k))
    } else if ts[k].token_type is Identifier {
        Ok((ExprModel::VarAccess(identifier_of(ts[k].text), tsp(ts, k, k)), k + 1))
    } else if ts[k].token_type is Number {
        Ok((ExprModel::Literal(LiteralView::Float(ts[k].text), tsp(ts, k, k)), k + 1))
    } else if ts[k].token_type is Newline {
        Err((seq![SyntaxErrorView::UnexpectedToken(ts[k].span)], k))
    } else {
        Err((seq![SyntaxErrorView::UnexpectedToken(ts[k].span)], k + 1))
    }
}

/// An expression: the lowest precedence level.
pub open spec fn expr_from(ts: Seq<TokenView>, k: int) -> Parsed<ExprModel> {
    binary_from(ts, 0, k)
}

/// A linear reading head over the token buffer of one parse.
struct TokenStream {
    tokens: Rc<Vec<Token>>,
    pos: usize,
}

impl TokenStream {
    spec fn toks(&self) -> Seq<TokenView> {
        tokens_view(self.tokens@)
    }

    spec fn wf(&self) -> bool {
        self.pos <= self.tokens@.len() <= usize::MAX
    }

    fn len(&self) -> (r: usize)
        ensures
            r == self.tokens@.len(),
    {
        self.tokens.len()
    }

    /// The token at index `k`.
    fn token(&self, k: usize) -> (r: &Token)
        requires
            k < self.tokens@.len(),
        ensures
            *r == self.tokens@[k as int],
    {
        let v: &Vec<Token> = &self.tokens;
        &v[k]
    }

    /// The `n`th token ahead, counting the current one as the first.
    fn peek(&self, n: usize) -> (r: Option<&Token>)
        requires
            n >= 1,
            self.wf(),
        ensures
            self.pos + n - 1 < self.tokens@.len() ==> (r matches Some(t) && *t == self.tokens@[self.pos
                + n - 1]),
            self.pos + n - 1 >= self.tokens@.len() ==> r is None,
    {
        let v: &Vec<Token> = &self.tokens;
        if n - 1 < v.len() - self.pos {
            Some(&v[self.pos + (n - 1)])
        } else {
            None
        }
    }

    /// Moves past the current token.
    fn next(&mut self)
        requires
            old(self).wf(),
            old(self).pos < old(self).tokens@.len(),
        ensures
            final(self).tokens == old(self).tokens,
            final(self).pos == old(self).pos + 1,
    {
        self.pos = self.pos + 1;
    }

    /// The span from token `start` to token `end` over this buffer.
    fn span(&self, start: usize, end: usize) -> (r: TokenSpan)
        ensures
            r@ == tsp(self.toks(), start as int, end as int),
    {
        TokenSpan::new(start, end, share(&self.tokens))
    }
}

type ExprResult = Result<Expr<TokenSpan>, Vec<SyntaxError>>;

/// The result `r`, with the head left at `pos`, is the outcome `p`.
spec fn outcome(r: ExprResult, pos: usize, p: Parsed<ExprModel>) -> bool {
    match r {
        Ok(e) => p == Parsed::<ExprModel>::Ok((expr_model(e), pos as int)),
        Err(v) => p == Parsed::<ExprModel>::Err((errors_view(v@), pos as int)),
    }
}

/// The head moved forward over the same buffer; a success read something.
spec fn moved(a: TokenStream, b: TokenStream, ok: bool) -> bool {
    &&& b.tokens == a.tokens
    &&& b.wf()
    &&& a.pos <= b.pos
    &&& ok ==> a.pos < b.pos
}

proof fn lemma_model_span(e: Expr<TokenSpan>)
    ensures
        model_span(expr_model(e)) == expr_extra(e)@,
{
}

fn binop_of(level: usize, t: &TokenType) -> (r: Option<BinOp>)
    ensures
        r == binop_at(level as nat, t@),
{
    match t {
        TokenType::Or => if level == 0 { Some(BinOp::Or) } else { None },
        TokenType::And => if level == 1 { Some(BinOp::And) } else { None },
        TokenType::DoubleEquals => if level == 2 { Some(BinOp::Equals) } else { None },
        TokenType::NotEquals => if level == 2 { Some(BinOp::NotEquals) } else { None },
        TokenType::SingleChar(SingleChar::LessThan) => if level == 3 {
            Some(BinOp::LessThan)
        } else {
            None
        },
        TokenType::LessThanEquals => if level == 3 { Some(BinOp::LessThanOrEqual) } else { None },
        TokenType::SingleChar(SingleChar::GreaterThan) => if level == 3 {
            Some(BinOp::GreaterThan)
        } else {
            None
        },
        TokenType::GreaterThanEquals => if level == 3 {
            Some(BinOp::GreaterThanOrEqual)
        } else {
            None
        },
        TokenType::SingleChar(SingleChar::Plus) => if level == 4 { Some(BinOp::Plus) } else { None },
        TokenType::SingleChar(SingleChar::Minus) => if level == 4 {
            Some(BinOp::Minus)
        } else {
            None
        },
        TokenType::SingleChar(SingleChar::Star) => if level == 5 { Some(BinOp::Times) } else { None },
        TokenType::SingleChar(SingleChar::Slash) => if level == 5 {
            Some(BinOp::Divide)
        } else {
            None
        },
        TokenType::SingleChar(SingleChar::Percent) => if level == 5 {
            Some(BinOp::Modulo)
        } else {
            None
        },
        _ => None,
    }
}

fn prefix_op_of(t: &TokenType) -> (r: Option<PrefixOp>)
    ensures
        r == prefix_of(t@),
{
    match t {
        TokenType::SingleChar(SingleChar::Minus) => Some(PrefixOp::Negate),
        TokenType::SingleChar(SingleChar::Not) => Some(PrefixOp::Not),
        _ => None,
    }
}

/// Whether the token at `k` is the punctuation `c`.
fn is_char_at(ts: &TokenStream, k: usize, c: SingleChar) -> (r: bool)
    ensures
        r == (k < ts.tokens@.len() && ts.tokens@[k as int].token_type is SingleChar
            && ts.tokens@[k as int].token_type->SingleChar_0 == c),
{
    if k < ts.len() {
        match &ts.token(k).token_type {
            TokenType::SingleChar(d) => *d == c,
            _ => false,
        }
    } else {
        false
    }
}

/// Appends the errors `more` to `errs`.
fn append_errors(errs: &mut Vec<SyntaxError>, more: Vec<SyntaxError>)
    ensures
        errors_view(final(errs)@) == errors_view(old(errs)@) + errors_view(more@),
{
    let mut more = more;
    let ghost all = old(errs)@ + more@;
    errs.append(&mut more);
    assert(errors_view(final(errs)@) =~= errors_view(old(errs)@) + errors_view(
        all.subrange(old(errs)@.len() as int, all.len() as int),
    ));
    assert(all.subrange(old(errs)@.len() as int, all.len() as int) =~= all.skip(
        old(errs)@.len() as int,
    ));
}

/// A binary precedence level (0 or, 1 and, 2 equality, 3 comparison,
/// 4 additive, 5 multiplicative), folded to the left.
fn parse_binary(ts: &mut TokenStream, level: usize) -> (r: ExprResult)
    requires
        old(ts).wf(),
        level <= 5,
    ensures
        moved(*old(ts), *final(ts), r is Ok),
        outcome(r, final(ts).pos, binary_from(old(ts).toks(), level as nat, old(ts).pos as int)),
    decreases old(ts).tokens@.len() - old(ts).pos, 20 - 2 * level,
{
    let ghost toks = ts.toks();
    let start = ts.pos;
    let mut left = match parse_operand(ts, level) {
        Err(e) => {
            return Err(e);
        },
        Ok(l) => l,
    };
    loop
        invariant
            ts.wf(),
            ts.tokens == old(ts).tokens,
            toks == ts.toks(),
            start == old(ts).pos,
            start < ts.pos,
            level <= 5,
            binary_from(toks, level as nat, start as int) == binary_rest_from(
                toks,
                level as nat,
                expr_model(left),
                ts.pos as int,
            ),
        decreases ts.tokens@.len() - ts.pos,
    {
        let k = ts.pos;
        let op = if k < ts.len() {
            binop_of(level, &ts.token(k).token_type)
        } else {
            None
        };
        match op {
            None => {
                return Ok(left);
            },
            Some(op) => {
                ts.next();
                let right = match parse_operand(ts, level) {
                    Err(e) => {
                        return Err(e);
                    },
                    Ok(r) => r,
                };
                proof {
                    lemma_model_span(left);
                    lemma_model_span(right);
                }
                let span = ts.span(left.extra_data().start_index(), right.extra_data().end_index());
                left = Expr::BinOp(Box::new(left), op, Box::new(right), span);
            },
        }
    }
}

/// An operand of binary level `level`.
fn parse_operand(ts: &mut TokenStream, level: usize) -> (r: ExprResult)
    requires
        old(ts).wf(),
        level <= 5,
    ensures
        moved(*old(ts), *final(ts), r is Ok),
        outcome(r, final(ts).pos, operand_from(old(ts).toks(), level as nat, old(ts).pos as int)),
    decreases old(ts).tokens@.len() - old(ts).pos, 19 - 2 * level,
{
    if level < 5 {
        parse_binary(ts, level + 1)
    } else {
        parse_power(ts)
    }
}

/// An expression.
fn parse_expr(ts: &mut TokenStream) -> (r: ExprResult)
    requires
        old(ts).wf(),
    ensures
        moved(*old(ts), *final(ts), r is Ok),
        outcome(r, final(ts).pos, expr_from(old(ts).toks(), old(ts).pos as int)),
    decreases old(ts).tokens@.len() - old(ts).pos, 21int,
{
    parse_binary(ts, 0)
}

/// A run of prefix operators applied to a postfix expression.
fn parse_unary(ts: &mut TokenStream) -> (r: ExprResult)
    requires
        old(ts).wf(),
    ensures
        moved(*old(ts), *final(ts), r is Ok),
        outcome(r, final(ts).pos, unary_from(old(ts).toks(), old(ts).pos as int)),
    decreases old(ts).tokens@.len() - old(ts).pos, 7int,
{
    let k = ts.pos;
    if k < ts.len() {
        match prefix_op_of(&ts.token(k).token_type) {
            Some(op) => {
                ts.next();
                let right = match parse_unary(ts) {
                    Err(e) => {
                        return Err(e);
                    },
                    Ok(r) => r,
                };
                proof {
                    lemma_model_span(right);
                }
                let span = ts.span(k, right.extra_data().end_index());
                return Ok(Expr::PrefixOp(op, Box::new(right), span));
            },
            None => {},
        }
    }
    parse_postfix(ts)
}

/// A prefix expression, optionally raised by `**` to a power expression.
fn parse_power(ts: &mut TokenStream) -> (r: ExprResult)
    requires
        old(ts).wf(),
    ensures
        moved(*old(ts), *final(ts), r is Ok),
        outcome(r, final(ts).pos, power_from(old(ts).toks(), old(ts).pos as int)),
    decreases old(ts).tokens@.len() - old(ts).pos, 8int,
{
    let left = match parse_unary(ts) {
        Err(e) => {
            return Err(e);
        },
        Ok(l) => l,
    };
    let k1 = ts.pos;
    let is_power = k1 < ts.len() && match &ts.token(k1).token_type {
        TokenType::DoubleStar => true,
        _ => false,
    };
    if is_power {
        ts.next();
        let right = match parse_power(ts) {
            Err(e) => {
                return Err(e);
            },
            Ok(r) => r,
        };
        proof {
            lemma_model_span(left);
            lemma_model_span(right);
        }
        let span = ts.span(left.extra_data().start_index(), right.extra_data().end_index());
        Ok(Expr::BinOp(Box::new(left), BinOp::Power, Box::new(right), span))
    } else {
        Ok(left)
    }
}

/// A primary expression followed by any number of calls.
fn parse_postfix(ts: &mut TokenStream) -> (r: ExprResult)
    requires
        old(ts).wf(),
    ensures
        moved(*old(ts), *final(ts), r is Ok),
        outcome(r, final(ts).pos, postfix_from(old(ts).toks(), old(ts).pos as int)),
    decreases old(ts).tokens@.len() - old(ts).pos, 6int,
{
    let ghost toks = ts.toks();
    let start = ts.pos;
    let mut left = match parse_primary(ts) {
        Err(e) => {
            return Err(e);
        },
        Ok(l) => l,
    };
    let mut errs: Vec<SyntaxError> = Vec::new();
    assert(errors_view(errs@) =~= Seq::<SyntaxErrorView>::empty());
    loop
        invariant
            ts.wf(),
            ts.tokens == old(ts).tokens,
            toks == ts.toks(),
            start == old(ts).pos,
            start < ts.pos,
            postfix_from(toks, start as int) == postfix_rest_from(
                toks,
                expr_model(left),
                ts.pos as int,
                errors_view(errs@),
            ),
        decreases ts.tokens@.len() - ts.pos,
    {
        let k = ts.pos;
        if !is_char_at(ts, k, SingleChar::OpenParen) {
            if errs.len() > 0 {
                return Err(errs);
            } else {
                return Ok(left);
            }
        }
        proof {
            lemma_model_span(left);
        }
        if is_char_at(ts, k + 1, SingleChar::CloseParen) {
            let span = ts.span(left.extra_data().start_index(), k + 1);
            left = Expr::PostfixOp(Box::new(left), PostfixOp::FunctionCall(Vec::new()), span);
            ts.next();
            ts.next();
            assert(exprs_model(Seq::<Expr<TokenSpan>>::empty()) =~= Seq::<ExprModel>::empty());
        } else {
            ts.next();
            let mut args: Vec<Expr<TokenSpan>> = Vec::new();
            let ghost callee = expr_model(left);
            loop
                invariant_except_break
                    callee == expr_model(left),
                    postfix_from(toks, start as int) == call_args_from(
                        toks,
                        callee,
                        ts.pos as int,
                        exprs_model(args@),
                        errors_view(errs@),
                    ),
                invariant
                    ts.wf(),
                    ts.tokens == old(ts).tokens,
                    toks == ts.toks(),
                    start == old(ts).pos,
                    start < ts.pos,
                    k < ts.pos,
                ensures
                    ts.wf(),
                    ts.tokens == old(ts).tokens,
                    start < ts.pos,
                    k < ts.pos,
                    postfix_from(toks, start as int) == postfix_rest_from(
                        toks,
                        expr_model(left),
                        ts.pos as int,
                        errors_view(errs@),
                    ),
                decreases ts.tokens@.len() - ts.pos,
            {
                let a = match parse_expr(ts) {
                    Err(e) => {
                        append_errors(&mut errs, e);
                        return Err(errs);
                    },
                    Ok(a) => a,
                };
                let k1 = ts.pos;
                let ghost before = args@;
                args.push(a);
                assert(args@.drop_last() =~= before);
                if k1 == ts.len() {
                    let ghost old_errs = errs@;
                    errs.push(SyntaxError::UnexpectedEof);
                    assert(errors_view(errs@) =~= errors_view(old_errs).push(
                        SyntaxErrorView::UnexpectedEof,
                    ));
                    return Err(errs);
                }
                if is_char_at(ts, k1, SingleChar::CloseParen) {
                    proof {
                        lemma_model_span(left);
                    }
                    let span = ts.span(left.extra_data().start_index(), k1);
                    left = Expr::PostfixOp(Box::new(left), PostfixOp::FunctionCall(args), span);
                    ts.next();
                    break ;
                }
                if !is_char_at(ts, k1, SingleChar::Comma) {
                    let ghost old_errs = errs@;
                    let e = SyntaxError::ExpectedToken(comma_string(), ts.token(k1).span);
                    errs.push(e);
                    assert(errors_view(errs@) =~= errors_view(old_errs).push(e@));
                }
                ts.next();
            }
        }
    }
}

/// The description of an expected comma.
fn comma_string() -> (r: String)
    ensures
        r@ == comma_text(),
{
    let mut s = String::new();
    push_char(&mut s, '\'');
    push_char(&mut s, ',');
    push_char(&mut s, '\'');
    assert(s@ =~= comma_text());
    s
}

/// A name or a number.
fn parse_primary(ts: &mut TokenStream) -> (r: ExprResult)
    requires
        old(ts).wf(),
    ensures
        moved(*old(ts), *final(ts), r is Ok),
        outcome(r, final(ts).pos, primary_from(old(ts).toks(), old(ts).pos as int)),
    decreases old(ts).tokens@.len() - old(ts).pos, 5int,
{
    let k = ts.pos;
    if k >= ts.len() {
        let errs = vec![SyntaxError::UnexpectedEof];
        assert(errors_view(errs@) =~= seq![SyntaxErrorView::UnexpectedEof]);
        return Err(errs);
    }
    let span = ts.span(k, k);
    let tok = ts.token(k);
    match &tok.token_type {
        TokenType::Identifier => {
            let id = Identifier::from_str(tok.text.as_str());
            ts.next();
            Ok(Expr::VarAccess(id, span))
        },
        TokenType::Number => {
            let text = tok.text.clone();
            ts.next();
            Ok(Expr::Literal(Literal::Float(text), span))
        },
        TokenType::Newline => {
            let errs = vec![SyntaxError::UnexpectedToken(tok.span)];
            assert(errors_view(errs@) =~= seq![SyntaxErrorView::UnexpectedToken(tok.span)]);
            Err(errs)
        },
        _ => {
            let errs = vec![SyntaxError::UnexpectedToken(tok.span)];
            assert(errors_view(errs@) =~= seq![SyntaxErrorView::UnexpectedToken(tok.span)]);
            ts.next();
            Err(errs)
        },
    }
}

/// The index of the first token from `k` that is not a line break.
pub open spec fn skip_newlines(ts: Seq<TokenView>, k: int) -> int
    decreases ts.len() - k,
{
    if is_newline(ts, k) {
        skip_newlines(ts, k + 1)
    } else {
        k
    }
}

/// The index just after the next line break from `k`, or the end.
pub open spec fn skip_line(ts: Seq<TokenView>, k: int) -> int
    decreases ts.len() - k,
{
    if 0 <= k < ts.len() {
        if ts[k].token_type is Newline {
            k + 1
        } else {
            skip_line(ts, k + 1)
        }
    } else {
        k
    }
}

/// A name's text, extended from `k` by each `::` and identifier that follow.
pub open spec fn qualified_from(ts: Seq<TokenView>, k: int, text: Seq<char>) -> (Seq<char>, int)
    decreases ts.len() - k,
{
    if 0 <= k && k + 1 < ts.len() && ts[k].token_type is DoubleColon && ts[k
        + 1].token_type is Identifier {
        qualified_from(ts, k + 2, text + seq![':', ':'] + ts[k + 1].text)
    } else {
        (text, k)
    }
}

/// How parsing one statement ends.
pub enum StatementOutcome {
    /// The statement's node, and the index after it.
    Parsed(AstModel, int),
    /// A complete statement not followed by a line break: the offending
    /// token's span, and its index, where parsing goes on.
    MissingNewline(Span, int),
    /// Syntax errors, and the index where parsing stopped.
    Failed(Seq<SyntaxErrorView>, int),
    /// A declaration of a package-qualified name.
    Qualified(IdentifierView, Span),
}

pub open spec fn keyword_text() -> Seq<char> {
    "'val' or 'var'"@
}

pub open spec fn identifier_text() -> Seq<char> {
    "an identifier"@
}

pub open spec fn equals_text() -> Seq<char> {
    "'='"@
}

/// The modifiers that a declaration keyword gives: `val` is final.
pub open spec fn modifiers_of(k: RolKeyword) -> Set<Modifier> {
    if k == RolKeyword::Val {
        Set::empty().insert(Modifier::Final)
    } else {
        Set::empty()
    }
}

/// The token at `k` is `val` or `var`.
pub open spec fn is_decl_keyword(ts: Seq<TokenView>, k: int) -> bool {
    0 <= k < ts.len() && ts[k].token_type is Keyword && (ts[k].token_type->Keyword_0
        == RolKeyword::Val || ts[k].token_type->Keyword_0 == RolKeyword::Var)
}

/// A declaration from `k`: `val`/`var`, a name, `=` and an expression, line
/// breaks allowed before the name, before `=` and after it. It becomes a
/// `VarDecl` and a `VarAssign` of the same name.
pub open spec fn decl_from(ts: Seq<TokenView>, k: int) -> StatementOutcome {
    if !is_decl_keyword(ts, k) {
        if 0 <= k < ts.len() {
            StatementOutcome::Failed(
                seq![SyntaxErrorView::ExpectedToken(keyword_text(), ts[k].span)],
                k + 1,
            )
        } else {
            StatementOutcome::Failed(seq![SyntaxErrorView::UnexpectedEof], k)
        }
    } else {
        let mods = modifiers_of(ts[k].token_type->Keyword_0);
        let k1 = skip_newlines(ts, k + 1);
        if !(0 <= k1 < ts.len()) {
            StatementOutcome::Failed(seq![SyntaxErrorView::UnexpectedEof], k1)
        } else if !(ts[k1].token_type is Identifier) {
            StatementOutcome::Failed(
                seq![SyntaxErrorView::ExpectedToken(identifier_text(), ts[k1].span)],
                k1 + 1,
            )
        } else {
            let q = qualified_from(ts, k1 + 1, ts[k1].text);
            let name = identifier_of(q.0);
            if name.package is Some {
                StatementOutcome::Qualified(
                    name,
                    Span { start: ts[k1].span.start, end: ts[q.1 - 1].span.end },
                )
            } else {
                let k2 = skip_newlines(ts, q.1);
                if !(0 <= k2 < ts.len()) {
                    StatementOutcome::Failed(seq![SyntaxErrorView::UnexpectedEof], k2)
                } else {
                    let errs = if is_equals(ts, k2) {
                        Seq::empty()
                    } else {
                        seq![SyntaxErrorView::ExpectedToken(equals_text(), ts[k2].span)]
                    };
                    match expr_from(ts, skip_newlines(ts, k2 + 1)) {
                        Err((e, k4)) => StatementOutcome::Failed(errs + e, k4),
                        Ok((x, k4)) => if errs.len() > 0 {
                            StatementOutcome::Failed(errs, k4)
                        } else {
                            StatementOutcome::Parsed(
                                AstModel::Statements(
                                    seq![
                                        AstModel::VarDecl(mods, name, tsp(ts, k, k2)),
                                        AstModel::VarAssign(name, x, tsp(ts, k1, end_of(x))),
                                    ],
                                    tsp(ts, k, end_of(x)),
                                ),
                                k4,
                            )
                        },
                    }
                }
            }
        }
    }
}

/// A statement from `k`: a declaration, then a line break or the end.
pub open spec fn statement_from(ts: Seq<TokenView>, k: int) -> StatementOutcome {
    match decl_from(ts, k) {
        StatementOutcome::Parsed(node, k4) => if 0 <= k4 < ts.len() {
            if ts[k4].token_type is Newline {
                StatementOutcome::Parsed(node, k4 + 1)
            } else {
                StatementOutcome::MissingNewline(ts[k4].span, k4)
            }
        } else {
            StatementOutcome::Parsed(node, k4)
        },
        other => other,
    }
}

/// The nodes that a parsed statement adds to the file's list.
pub open spec fn children(node: AstModel) -> Seq<AstModel> {
    match node {
        AstModel::Statements(v, _) => v,
        other => seq![other],
    }
}

/// The token span of a statement-level model.
pub open spec fn node_span(n: AstModel) -> TokenSpanView {
    match n {
        AstModel::Statements(_, s) => s,
        AstModel::VarDecl(_, _, s) => s,
        AstModel::VarAssign(_, _, s) => s,
        AstModel::Expr(x) => model_span(x),
    }
}

/// The span of a statement list: from its first node to its last, or the
/// empty span for no nodes.
pub open spec fn list_span(v: Seq<AstModel>) -> TokenSpanView {
    if v.len() == 0 {
        TokenSpanView { start: 0, end: 0, tokens: Seq::empty() }
    } else {
        let a = node_span(v[0]);
        let b = node_span(v.last());
        TokenSpanView {
            start: if a.start <= b.start { a.start } else { b.start },
            end: if a.end >= b.end { a.end } else { b.end },
            tokens: a.tokens,
        }
    }
}

/// Parses the statements from `k`, after the nodes `stmts` and the errors
/// `errs` found so far. A failed statement is recorded and the rest of its
/// line skipped; a missing line break is recorded and parsing goes on at the
/// token that stood in its place; a package-qualified declaration stops
/// everything.
pub open spec fn statements_from(
    ts: Seq<TokenView>,
    k: int,
    stmts: Seq<AstModel>,
    errs: Seq<SyntaxErrorView>,
) -> Result<AstModel, RolErrorView>
    decreases ts.len() - k,
{
    let k0 = skip_newlines(ts, k);
    if !(0 <= k0 < ts.len()) {
        if errs.len() > 0 {
            Err(RolErrorView::Multiple(errs))
        } else {
            Ok(AstModel::Statements(stmts, list_span(stmts)))
        }
    } else {
        match statement_from(ts, k0) {
            StatementOutcome::Parsed(node, k5) => if k < k5 <= ts.len() {
                statements_from(ts, k5, stmts + children(node), errs)
            } else {
                Err(RolErrorView::Multiple(errs))
            },
            StatementOutcome::MissingNewline(sp, k5) => if k < k5 <= ts.len() {
                statements_from(ts, k5, stmts, errs.push(SyntaxErrorView::ExpectedNewline(sp)))
            } else {
                Err(RolErrorView::Multiple(errs))
            },
            StatementOutcome::Failed(e, k5) => if k < skip_line(ts, k5) <= ts.len() {
                statements_from(ts, skip_line(ts, k5), stmts, errs + e)
            } else {
                Err(RolErrorView::Multiple(errs))
            },
            StatementOutcome::Qualified(name, sp) => Err(
                RolErrorView::QualifiedDeclaration(name, sp),
            ),
        }
    }
}

/// The syntax tree of the tokens `ts`, or every recoverable error in them,
/// or the first package-qualified declaration.
pub open spec fn parse_spec(ts: Seq<TokenView>) -> Result<AstModel, RolErrorView> {
    statements_from(ts, 0, Seq::empty(), Seq::empty())
}

/// The model of a parse result.
pub open spec fn parse_result_model(r: Result<AstNode<TokenSpan>, RolError>) -> Result<
    AstModel,
    RolErrorView,
> {
    match r {
        Ok(n) => Ok(node_model(n)),
        Err(e) => Err(e@),
    }
}

/// The result `r`, with the head left at `pos`, is the statement outcome `o`.
spec fn stmt_result(r: Result<AstNode<TokenSpan>, RolError>, pos: usize, o: StatementOutcome) -> bool {
    match o {
        StatementOutcome::Parsed(m, k) => r is Ok && node_model(r->Ok_0) == m && pos == k,
        StatementOutcome::MissingNewline(sp, k) => r is Err && r->Err_0 == RolError::Syntax(
            SyntaxError::ExpectedNewline(sp),
        ) && pos == k,
        StatementOutcome::Failed(es, k) => r is Err && r->Err_0 is Multiple && errors_view(
            r->Err_0->Multiple_0@,
        ) == es && pos == k,
        StatementOutcome::Qualified(id, sp) => r is Err && r->Err_0 is QualifiedDeclaration
            && r->Err_0->QualifiedDeclaration_0@ == id && r->Err_0->QualifiedDeclaration_1 == sp,
    }
}

/// A list holding the one error `e`.
fn one_error(e: SyntaxError) -> (r: Vec<SyntaxError>)
    ensures
        errors_view(r@) == seq![e@],
{
    let r = vec![e];
    assert(errors_view(r@) =~= seq![e@]);
    r
}

/// A copy of `id`.
fn copy_identifier(id: &Identifier) -> (r: Identifier)
    ensures
        r@ == id@,
{
    let package = match &id.package {
        Some(p) => Some(p.clone()),
        None => None,
    };
    Identifier { package, name: id.name.clone() }
}

/// Moves past any line breaks.
fn ignore_newlines(ts: &mut TokenStream)
    requires
        old(ts).wf(),
    ensures
        moved(*old(ts), *final(ts), false),
        final(ts).pos == skip_newlines(old(ts).toks(), old(ts).pos as int),
{
    loop
        invariant
            ts.wf(),
            ts.tokens == old(ts).tokens,
            old(ts).pos <= ts.pos,
            skip_newlines(old(ts).toks(), old(ts).pos as int) == skip_newlines(
                ts.toks(),
                ts.pos as int,
            ),
        decreases ts.tokens@.len() - ts.pos,
    {
        match ts.peek(1) {
            Some(t) => match t.token_type {
                TokenType::Newline => {},
                _ => {
                    return;
                },
            },
            None => {
                return;
            },
        }
        ts.next();
    }
}

/// Moves past the next line break, or to the end.
fn skip_to_next_line(ts: &mut TokenStream)
    requires
        old(ts).wf(),
    ensures
        moved(*old(ts), *final(ts), false),
        final(ts).pos == skip_line(old(ts).toks(), old(ts).pos as int),
{
    loop
        invariant
            ts.wf(),
            ts.tokens == old(ts).tokens,
            old(ts).pos <= ts.pos,
            skip_line(old(ts).toks(), old(ts).pos as int) == skip_line(ts.toks(), ts.pos as int),
        decreases ts.tokens@.len() - ts.pos,
    {
        let k = ts.pos;
        if k >= ts.len() {
            return;
        }
        let is_newline = match &ts.token(k).token_type {
            TokenType::Newline => true,
            _ => false,
        };
        ts.next();
        if is_newline {
            return;
        }
    }
}

/// A declaration; see [`decl_from`].
fn parse_var_decl(ts: &mut TokenStream) -> (r: Result<AstNode<TokenSpan>, RolError>)
    requires
        old(ts).wf(),
        old(ts).pos < old(ts).tokens@.len(),
    ensures
        final(ts).tokens == old(ts).tokens,
        final(ts).wf(),
        old(ts).pos < final(ts).pos,
        stmt_result(r, final(ts).pos, decl_from(old(ts).toks(), old(ts).pos as int)),
{
    let ghost toks = ts.toks();
    let start = ts.pos;
    let keyword = match &ts.token(start).token_type {
        TokenType::Keyword(RolKeyword::Val) => Some(RolKeyword::Val),
        TokenType::Keyword(RolKeyword::Var) => Some(RolKeyword::Var),
        _ => None,
    };
    ts.next();
    let keyword = match keyword {
        None => {
            let e = SyntaxError::ExpectedToken(
                String::from_str("'val' or 'var'"),
                ts.token(start).span,
            );
            return Err(RolError::Multiple(one_error(e)));
        },
        Some(k) => k,
    };
    let mut modifiers = ModifierSet::empty();
    match keyword {
        RolKeyword::Val => modifiers.insert(Modifier::Final),
        _ => {},
    }
    ignore_newlines(ts);
    let first_start = ts.pos;
    if first_start >= ts.len() {
        return Err(RolError::Multiple(one_error(SyntaxError::UnexpectedEof)));
    }
    let is_identifier = match &ts.token(first_start).token_type {
        TokenType::Identifier => true,
        _ => false,
    };
    ts.next();
    if !is_identifier {
        let e = SyntaxError::ExpectedToken(
            String::from_str("an identifier"),
            ts.token(first_start).span,
        );
        return Err(RolError::Multiple(one_error(e)));
    }
    let mut text = ts.token(first_start).text.clone();
    loop
        invariant
            ts.wf(),
            ts.tokens == old(ts).tokens,
            toks == ts.toks(),
            first_start < ts.pos,
            qualified_from(toks, first_start + 1, toks[first_start as int].text) == qualified_from(
                toks,
                ts.pos as int,
                text@,
            ),
        ensures
            ts.wf(),
            ts.tokens == old(ts).tokens,
            toks == ts.toks(),
            first_start < ts.pos,
            qualified_from(toks, first_start + 1, toks[first_start as int].text) == (
            text@,
            ts.pos as int,
            ),
        decreases ts.tokens@.len() - ts.pos,
    {
        let k = ts.pos;
        if k >= ts.len() || k + 1 >= ts.len() {
            break ;
        }
        let qualified = match (&ts.token(k).token_type, &ts.token(k + 1).token_type) {
            (TokenType::DoubleColon, TokenType::Identifier) => true,
            _ => false,
        };
        if !qualified {
            break ;
        }
        let ghost before = text@;
        push_char(&mut text, ':');
        push_char(&mut text, ':');
        text.append(ts.token(k + 1).text.as_str());
        assert(text@ =~= before + seq![':', ':'] + toks[k + 1].text);
        ts.next();
        ts.next();
    }
    let name = Identifier::from_str(text.as_str());
    if name.package.is_some() {
        let span = Span::new(ts.token(first_start).span.start, ts.token(ts.pos - 1).span.end);
        return Err(RolError::QualifiedDeclaration(name, span));
    }
    ignore_newlines(ts);
    let end = ts.pos;
    if end >= ts.len() {
        return Err(RolError::Multiple(one_error(SyntaxError::UnexpectedEof)));
    }
    let mut errors: Vec<SyntaxError> = Vec::new();
    if !is_char_at(ts, end, SingleChar::Equals) {
        errors = one_error(SyntaxError::ExpectedToken(String::from_str("'='"), ts.token(end).span));
    }
    assert(errors_view(errors@) == (if is_equals(toks, end as int) {
        Seq::<SyntaxErrorView>::empty()
    } else {
        seq![SyntaxErrorView::ExpectedToken(equals_text(), toks[end as int].span)]
    }));
    ts.next();
    ignore_newlines(ts);
    let expr = match parse_expr(ts) {
        Err(e) => {
            append_errors(&mut errors, e);
            return Err(RolError::Multiple(errors));
        },
        Ok(x) => x,
    };
    if errors.len() > 0 {
        assert(errors_view(errors@).len() > 0);
        return Err(RolError::Multiple(errors));
    }
    proof {
        lemma_model_span(expr);
    }
    let expr_end = expr.extra_data().end_index();
    let decl = AstNode::VarDecl(modifiers, copy_identifier(&name), ts.span(start, end));
    let assign = AstNode::VarAssign(name, expr, ts.span(first_start, expr_end));
    let nodes = vec![decl, assign];
    proof {
        lemma_nodes_model(nodes@);
        assert(nodes_model(nodes@) =~= seq![node_model(decl), node_model(assign)]);
    }
    Ok(AstNode::Statements(nodes, ts.span(start, expr_end)))
}

/// A statement; see [`statement_from`].
fn parse_statement(ts: &mut TokenStream) -> (r: Result<AstNode<TokenSpan>, RolError>)
    requires
        old(ts).wf(),
        old(ts).pos < old(ts).tokens@.len(),
    ensures
        final(ts).tokens == old(ts).tokens,
        final(ts).wf(),
        old(ts).pos < final(ts).pos,
        stmt_result(r, final(ts).pos, statement_from(old(ts).toks(), old(ts).pos as int)),
{
    let stmt = match parse_var_decl(ts) {
        Err(e) => {
            return Err(e);
        },
        Ok(s) => s,
    };
    let k = ts.pos;
    if k < ts.len() {
        let is_newline = match &ts.token(k).token_type {
            TokenType::Newline => true,
            _ => false,
        };
        if !is_newline {
            return Err(RolError::Syntax(SyntaxError::ExpectedNewline(ts.token(k).span)));
        }
        ts.next();
    }
    Ok(stmt)
}

proof fn lemma_nodes_model(v: Seq<AstNode<TokenSpan>>)
    ensures
        nodes_model(v).len() == v.len(),
        forall|i: int| 0 <= i < v.len() ==> #[trigger] nodes_model(v)[i] == node_model(v[i]),
    decreases v.len(),
{
    if v.len() > 0 {
        lemma_nodes_model(v.drop_last());
    }
}

proof fn lemma_nodes_model_append(a: Seq<AstNode<TokenSpan>>, b: Seq<AstNode<TokenSpan>>)
    ensures
        nodes_model(a + b) == nodes_model(a) + nodes_model(b),
    decreases b.len(),
{
    if b.len() == 0 {
        assert(a + b =~= a);
        assert(nodes_model(a) + nodes_model(b) =~= nodes_model(a));
    } else {
        assert((a + b).drop_last() =~= a + b.drop_last());
        lemma_nodes_model_append(a, b.drop_last());
        assert(nodes_model(a + b) =~= nodes_model(a) + nodes_model(b));
    }
}

proof fn lemma_node_span(n: AstNode<TokenSpan>)
    ensures
        node_span(node_model(n)) == node_extra(n)@,
{
    match n {
        AstNode::Expr(e) => lemma_model_span(e),
        _ => {},
    }
}

/// Every statement of the file; see [`statements_from`].
fn parse_statements(ts: &mut TokenStream) -> (r: Result<AstNode<TokenSpan>, RolError>)
    requires
        old(ts).wf(),
        old(ts).pos == 0,
    ensures
        parse_result_model(r) == parse_spec(old(ts).toks()),
{
    let ghost toks = ts.toks();
    let mut statements: Vec<AstNode<TokenSpan>> = Vec::new();
    let mut errors: Vec<SyntaxError> = Vec::new();
    assert(nodes_model(statements@) =~= Seq::<AstModel>::empty());
    assert(errors_view(errors@) =~= Seq::<SyntaxErrorView>::empty());
    loop
        invariant
            ts.wf(),
            ts.tokens == old(ts).tokens,
            toks == ts.toks(),
            parse_spec(toks) == statements_from(
                toks,
                ts.pos as int,
                nodes_model(statements@),
                errors_view(errors@),
            ),
        decreases ts.tokens@.len() - ts.pos,
    {
        ignore_newlines(ts);
        if ts.pos >= ts.len() {
            if errors.len() > 0 {
                return Err(RolError::Multiple(errors));
            }
            let n = statements.len();
            let span = if n > 0 {
                proof {
                    lemma_nodes_model(statements@);
                    lemma_node_span(statements@[0]);
                    lemma_node_span(statements@[n - 1]);
                }
                statements[0].extra_data().merge(statements[n - 1].extra_data())
            } else {
                TokenSpan::none()
            };
            return Ok(AstNode::Statements(statements, span));
        }
        match parse_statement(ts) {
            Ok(stmt) => match stmt {
                AstNode::Statements(v, _) => {
                    let mut v = v;
                    let ghost before = statements@;
                    let ghost added = v@;
                    statements.append(&mut v);
                    proof {
                        lemma_nodes_model_append(before, added);
                    }
                },
                other => {
                    let ghost before = statements@;
                    statements.push(other);
                    assert(statements@.drop_last() =~= before);
                },
            },
            Err(e) => match e {
                RolError::Syntax(se) => {
                    let ghost before = errors@;
                    errors.push(se);
                    assert(errors_view(errors@) =~= errors_view(before).push(se@));
                },
                RolError::Multiple(v) => {
                    append_errors(&mut errors, v);
                    skip_to_next_line(ts);
                },
                RolError::QualifiedDeclaration(id, sp) => {
                    return Err(RolError::QualifiedDeclaration(id, sp));
                },
            },
        }
    }
}

/// Parses a token sequence into one `Statements` node holding every
/// statement, or fails with every recoverable syntax error in it (in source
/// order), or with the first declaration of a package-qualified name.
pub fn parse(tokens: Vec<Token>) -> (r: Result<AstNode<TokenSpan>, RolError>)
    ensures
        parse_result_model(r) == parse_spec(tokens_view(tokens@)),
{
    // Reading the length tells the cursor that it fits a `usize`.
    let _len = tokens.len();
    let raw = Rc::new(tokens);
    let mut ts = TokenStream { tokens: raw, pos: 0 };
    parse_statements(&mut ts)
}

/// The syntax tree of the source text `s`, or why there is none: its first
/// lexical error, or what parsing its tokens reports.
pub open spec fn source_spec(s: Seq<char>) -> Result<AstModel, RolErrorView> {
    match lex_spec(s) {
        Err(e) => Err(RolErrorView::Syntax(e)),
        Ok(toks) => parse_spec(toks),
    }
}

/// Lexes and parses `code`.
pub fn parse_source(code: &str) -> (r: Result<AstNode<TokenSpan>, RolError>)
    requires
        code@.len() < usize::MAX,
    ensures
        parse_result_model(r) == source_spec(code@),
{
    match lex(code) {
        Err(e) => Err(RolError::Syntax(e)),
        Ok(tokens) => parse(tokens),
    }
}

/// Lexing and parsing a text twice gives structurally identical results:
/// any two results that meet `parse_source`'s contract on equal texts have
/// equal models.
pub proof fn lemma_parse_idempotent(
    a: Seq<char>,
    b: Seq<char>,
    r1: Result<AstNode<TokenSpan>, RolError>,
    r2: Result<AstNode<TokenSpan>, RolError>,
)
    requires
        a == b,
        parse_result_model(r1) == source_spec(a),
        parse_result_model(r2) == source_spec(b),
    ensures
        parse_result_model(r1) == parse_result_model(r2),
{
}

/// Every binary node of `m` spans from the first token of its left operand
/// to the last token of its right operand.
pub open spec fn spans_merged(m: ExprModel) -> bool
    decreases m,
{
    match m {
        ExprModel::BinOp(l, _, r, s) => s.start == model_span(*l).start && s.end == model_span(
            *r,
        ).end && spans_merged(*l) && spans_merged(*r),
        ExprModel::PrefixOp(_, x, _) => spans_merged(*x),
        ExprModel::Call(x, args, _) => spans_merged(*x) && all_spans_merged(args),
        ExprModel::VarAccess(_, _) => true,
        ExprModel::Literal(_, _) => true,
    }
}

/// [`spans_merged`] holds of every expression of `v`.
pub open spec fn all_spans_merged(v: Seq<ExprModel>) -> bool
    decreases v,
{
    if v.len() == 0 {
        true
    } else {
        all_spans_merged(v.drop_last()) && spans_merged(v.last())
    }
}

/// [`spans_merged`] holds of every expression in the statement-level node `n`.
pub open spec fn node_spans_merged(n: AstModel) -> bool
    decreases n,
{
    match n {
        AstModel::Statements(v, _) => nodes_spans_merged(v),
        AstModel::VarDecl(_, _, _) => true,
        AstModel::VarAssign(_, x, _) => spans_merged(x),
        AstModel::Expr(x) => spans_merged(x),
    }
}

/// [`node_spans_merged`] holds of every node of `v`.
pub open spec fn nodes_spans_merged(v: Seq<AstModel>) -> bool
    decreases v,
{
    if v.len() == 0 {
        true
    } else {
        nodes_spans_merged(v.drop_last()) && node_spans_merged(v.last())
    }
}

proof fn lemma_binary_spans(ts: Seq<TokenView>, level: nat, k: int)
    ensures
        binary_from(ts, level, k) matches Ok((m, _)) ==> spans_merged(m),
    decreases ts.len() - k, 20 - 2 * level,
{
    if level <= 5 {
        lemma_operand_spans(ts, level, k);
        match operand_from(ts, level, k) {
            Ok((left, k1)) => if k < k1 <= ts.len() {
                lemma_binary_rest_spans(ts, level, left, k1);
            },
            Err(_) => {},
        }
    }
}

proof fn lemma_operand_spans(ts: Seq<TokenView>, level: nat, k: int)
    ensures
        operand_from(ts, level, k) matches Ok((m, _)) ==> spans_merged(m),
    decreases ts.len() - k, 19 - 2 * level,
{
    if level < 5 {
        lemma_binary_spans(ts, level + 1, k);
    } else if level == 5 {
        lemma_power_spans(ts, k);
    }
}

proof fn lemma_binary_rest_spans(ts: Seq<TokenView>, level: nat, left: ExprModel, k: int)
    requires
        spans_merged(left),
    ensures
        binary_rest_from(ts, level, left, k) matches Ok((m, _)) ==> spans_merged(m),
    decreases ts.len() - k, 3int,
{
    if 0 <= k < ts.len() && level <= 5 && binop_at(level, ts[k].token_type) is Some {
        let op = binop_at(level, ts[k].token_type)->0;
        lemma_operand_spans(ts, level, k + 1);
        match operand_from(ts, level, k + 1) {
            Ok((right, k2)) => if k + 1 < k2 <= ts.len() {
                lemma_binary_rest_spans(
                    ts,
                    level,
                    ExprModel::BinOp(
                        Box::new(left),
                        op,
                        Box::new(right),
                        tsp(ts, start_of(left), end_of(right)),
                    ),
                    k2,
                );
            },
            Err(_) => {},
        }
    }
}

proof fn lemma_unary_spans(ts: Seq<TokenView>, k: int)
    ensures
        unary_from(ts, k) matches Ok((m, _)) ==> spans_merged(m),
    decreases ts.len() - k, 7int,
{
    if 0 <= k < ts.len() && prefix_of(ts[k].token_type) is Some {
        lemma_unary_spans(ts, k + 1);
    } else {
        lemma_postfix_spans(ts, k);
    }
}

proof fn lemma_power_spans(ts: Seq<TokenView>, k: int)
    ensures
        power_from(ts, k) matches Ok((m, _)) ==> spans_merged(m),
    decreases ts.len() - k, 8int,
{
    lemma_unary_spans(ts, k);
    match unary_from(ts, k) {
        Ok((left, k1)) => if k <= k1 < ts.len() && ts[k1].token_type is DoubleStar {
            lemma_power_spans(ts, k1 + 1);
        },
        Err(_) => {},
    }
}

proof fn lemma_postfix_spans(ts: Seq<TokenView>, k: int)
    ensures
        postfix_from(ts, k) matches Ok((m, _)) ==> spans_merged(m),
    decreases ts.len() - k, 6int,
{
    match primary_from(ts, k) {
        Ok((left, k1)) => if k < k1 <= ts.len() {
            lemma_postfix_rest_spans(ts, left, k1, Seq::empty());
        },
        Err(_) => {},
    }
}

proof fn lemma_postfix_rest_spans(
    ts: Seq<TokenView>,
    left: ExprModel,
    k: int,
    errs: Seq<SyntaxErrorView>,
)
    requires
        spans_merged(left),
    ensures
        postfix_rest_from(ts, left, k, errs) matches Ok((m, _)) ==> spans_merged(m),
    decreases ts.len() - k, 4int,
{
    if is_open(ts, k) {
        if is_close(ts, k + 1) {
            let call = ExprModel::Call(Box::new(left), Seq::empty(), tsp(ts, start_of(left), k + 1));
            assert(all_spans_merged(Seq::<ExprModel>::empty()));
            assert(spans_merged(call));
            lemma_postfix_rest_spans(ts, call, k + 2, errs);
        } else {
            lemma_call_args_spans(ts, left, k + 1, Seq::empty(), errs);
        }
    }
}

proof fn lemma_call_args_spans(
    ts: Seq<TokenView>,
    left: ExprModel,
    k: int,
    args: Seq<ExprModel>,
    errs: Seq<SyntaxErrorView>,
)
    requires
        spans_merged(left),
        all_spans_merged(args),
    ensures
        call_args_from(ts, left, k, args, errs) matches Ok((m, _)) ==> spans_merged(m),
    decreases ts.len() - k, 30int,
{
    lemma_binary_spans(ts, 0, k);
    match binary_from(ts, 0, k) {
        Ok((a, k1)) => if k < k1 <= ts.len() {
            let args2 = args.push(a);
            assert(args2.drop_last() =~= args);
            assert(all_spans_merged(args2));
            if k1 == ts.len() {
            } else if is_close(ts, k1) {
                let call = ExprModel::Call(Box::new(left), args2, tsp(ts, start_of(left), k1));
                assert(spans_merged(call));
                lemma_postfix_rest_spans(ts, call, k1 + 1, errs);
            } else if is_comma(ts, k1) {
                lemma_call_args_spans(ts, left, k1 + 1, args2, errs);
            } else {
                lemma_call_args_spans(
                    ts,
                    left,
                    k1 + 1,
                    args2,
                    errs.push(SyntaxErrorView::ExpectedToken(comma_text(), ts[k1].span)),
                );
            }
        },
        Err(_) => {},
    }
}

proof fn lemma_statement_spans(ts: Seq<TokenView>, k: int)
    ensures
        statement_from(ts, k) matches StatementOutcome::Parsed(n, _) ==> node_spans_merged(n),
{
    if is_decl_keyword(ts, k) {
        let k1 = skip_newlines(ts, k + 1);
        if 0 <= k1 < ts.len() && ts[k1].token_type is Identifier {
            let q = qualified_from(ts, k1 + 1, ts[k1].text);
            let k2 = skip_newlines(ts, q.1);
            let k3 = skip_newlines(ts, k2 + 1);
            lemma_binary_spans(ts, 0, k3);
            match decl_from(ts, k) {
                StatementOutcome::Parsed(n, _) => {
                    let v = n->Statements_0;
                    assert(v.drop_last().drop_last() =~= Seq::<AstModel>::empty());
                    assert(nodes_spans_merged(v.drop_last().drop_last()));
                    assert(node_spans_merged(v[0]));
                    assert(nodes_spans_merged(v.drop_last()));
                    assert(node_spans_merged(v[1]));
                    assert(nodes_spans_merged(v));
                },
                _ => {},
            }
        }
    }
}

proof fn lemma_nodes_spans_concat(a: Seq<AstModel>, b: Seq<AstModel>)
    requires
        nodes_spans_merged(a),
        nodes_spans_merged(b),
    ensures
        nodes_spans_merged(a + b),
    decreases b.len(),
{
    if b.len() == 0 {
        assert(a + b =~= a);
    } else {
        assert((a + b).drop_last() =~= a + b.drop_last());
        lemma_nodes_spans_concat(a, b.drop_last());
    }
}

proof fn lemma_statements_spans(
    ts: Seq<TokenView>,
    k: int,
    stmts: Seq<AstModel>,
    errs: Seq<SyntaxErrorView>,
)
    requires
        nodes_spans_merged(stmts),
    ensures
        statements_from(ts, k, stmts, errs) matches Ok(t) ==> node_spans_merged(t),
    decreases ts.len() - k,
{
    let k0 = skip_newlines(ts, k);
    if 0 <= k0 < ts.len() {
        lemma_statement_spans(ts, k0);
        match statement_from(ts, k0) {
            StatementOutcome::Parsed(node, k5) => if k < k5 <= ts.len() {
                let c = children(node);
                match node {
                    AstModel::Statements(_, _) => {},
                    _ => {
                        assert(c.drop_last() =~= Seq::<AstModel>::empty());
                    },
                }
                lemma_nodes_spans_concat(stmts, c);
                lemma_statements_spans(ts, k5, stmts + c, errs);
            },
            StatementOutcome::MissingNewline(sp, k5) => if k < k5 <= ts.len() {
                lemma_statements_spans(
                    ts,
                    k5,
                    stmts,
                    errs.push(SyntaxErrorView::ExpectedNewline(sp)),
                );
            },
            StatementOutcome::Failed(e, k5) => if k < skip_line(ts, k5) <= ts.len() {
                lemma_statements_spans(ts, skip_line(ts, k5), stmts, errs + e);
            },
            StatementOutcome::Qualified(_, _) => {},
        }
    }
}

/// Span merge is correct on every parse: each binary operator node of a
/// parsed tree spans from the first token of its left operand to the last
/// token of its right operand.
pub proof fn lemma_binop_spans(s: Seq<char>)
    ensures
        source_spec(s) matches Ok(t) ==> node_spans_merged(t),
{
    match lex_spec(s) {
        Ok(toks) => lemma_statements_spans(toks, 0, Seq::empty(), Seq::empty()),
        Err(_) => {},
    }
}

} // verus!
