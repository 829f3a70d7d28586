//! The syntax tree: statements and expressions, each carrying extra data of
//! the caller's choice (the parser attaches a `TokenSpan`).
use vstd::prelude::*;

use crate::common::{Identifier, IdentifierView};
use crate::location::{TokenSpan, TokenSpanView};

verus! {

/// A statement-level node.
#[derive(Debug, PartialEq, Eq)]
pub enum AstNode<E> {
    Statements(Vec<AstNode<E>>, E),
    VarDecl(ModifierSet, Identifier, E),
    VarAssign(Identifier, Expr<E>, E),
    Expr(Expr<E>),
}

/// An expression.
#[derive(Debug, PartialEq, Eq)]
pub enum Expr<E> {
    BinOp(Box<Expr<E>>, BinOp, Box<Expr<E>>, E),
    PrefixOp(PrefixOp, Box<Expr<E>>, E),
    PostfixOp(Box<Expr<E>>, PostfixOp<E>, E),
    VarAccess(Identifier, E),
    Literal(Literal, E),
}

/// The binary operators.
#[derive(Debug, Clone, Copy, PartialEq, Eq, Structural)]
pub enum BinOp {
    Plus,
    Minus,
    Times,
    Divide,
    Modulo,
    Power,
    Equals,
    NotEquals,
    And,
    Or,
    LessThan,
    LessThanOrEqual,
    GreaterThan,
    GreaterThanOrEqual,
}

/// The prefix operators.
#[derive(Debug, Clone, Copy, PartialEq, Eq, Structural)]
pub enum PrefixOp {
    Negate,
    Not,
}

/// The postfix operations: a call with its arguments.
#[derive(Debug, PartialEq, Eq)]
pub enum PostfixOp<E> {
    FunctionCall(Vec<Expr<E>>),
}

/// A literal. A number keeps its source text: reading its value is left to
/// a later stage.
#[derive(Debug, Clone, PartialEq, Eq)]
pub enum Literal {
    Int(i64),
    Float(String),
    String(String),
    Bool(bool),
    Null,
}

/// The declaration modifiers.
#[derive(Debug, Clone, Copy, PartialEq, Eq, Structural)]
pub enum Modifier {
    Public,
    Private,
    Package,
    Final,
}

/// The bit that stands for `m` in a [`ModifierSet`].
pub open spec fn modifier_bit(m: Modifier) -> u8 {
    match m {
        Modifier::Public => 1,
        Modifier::Private => 2,
        Modifier::Package => 4,
        Modifier::Final => 8,
    }
}

/// A set of modifiers, one bit each.
#[derive(Debug, Clone, Copy, PartialEq, Eq, Structural)]
pub struct ModifierSet {
    bits: u8,
}

impl View for ModifierSet {
    type V = Set<Modifier>;

    closed spec fn view(&self) -> Set<Modifier> {
        Set::new(|m: Modifier| self.bits & modifier_bit(m) != 0)
    }
}

fn bit_of(m: Modifier) -> (r: u8)
    ensures
        r == modifier_bit(m),
{
    match m {
        Modifier::Public => 1,
        Modifier::Private => 2,
        Modifier::Package => 4,
        Modifier::Final => 8,
    }
}

proof fn lemma_bits(b: u8)
    ensures
        0u8 & b == 0,
        (b | 1) & 1 != 0,
        (b | 2) & 2 != 0,
        (b | 4) & 4 != 0,
        (b | 8) & 8 != 0,
        (b | 1) & 2 == b & 2,
        (b | 1) & 4 == b & 4,
        (b | 1) & 8 == b & 8,
        (b | 2) & 1 == b & 1,
        (b | 2) & 4 == b & 4,
        (b | 2) & 8 == b & 8,
        (b | 4) & 1 == b & 1,
        (b | 4) & 2 == b & 2,
        (b | 4) & 8 == b & 8,
        (b | 8) & 1 == b & 1,
        (b | 8) & 2 == b & 2,
        (b | 8) & 4 == b & 4,
{
    assert(0u8 & b == 0) by (bit_vector);
    assert((b | 1) & 1 != 0) by (bit_vector);
    assert((b | 2) & 2 != 0) by (bit_vector);
    assert((b | 4) & 4 != 0) by (bit_vector);
    assert((b | 8) & 8 != 0) by (bit_vector);
    assert((b | 1) & 2 == b & 2) by (bit_vector);
    assert((b | 1) & 4 == b & 4) by (bit_vector);
    assert((b | 1) & 8 == b & 8) by (bit_vector);
    assert((b | 2) & 1 == b & 1) by (bit_vector);
    assert((b | 2) & 4 == b & 4) by (bit_vector);
    assert((b | 2) & 8 == b & 8) by (bit_vector);
    assert((b | 4) & 1 == b & 1) by (bit_vector);
    assert((b | 4) & 2 == b & 2) by (bit_vector);
    assert((b | 4) & 8 == b & 8) by (bit_vector);
    assert((b | 8) & 1 == b & 1) by (bit_vector);
    assert((b | 8) & 2 == b & 2) by (bit_vector);
    assert((b | 8) & 4 == b & 4) by (bit_vector);
}

impl ModifierSet {
    /// The empty set.
    pub fn empty() -> (r: ModifierSet)
        ensures
            r@ == Set::<Modifier>::empty(),
    {
        let r = ModifierSet { bits: 0 };
        proof {
            assert forall|m: Modifier| !r@.contains(m) by {
                lemma_bits(modifier_bit(m));
            }
            assert(r@ =~= Set::<Modifier>::empty());
        }
        r
    }

    /// Adds `m` to the set.
    pub fn insert(&mut self, m: Modifier)
        ensures
            final(self)@ == old(self)@.insert(m),
    {
        let b = self.bits;
        self.bits = b | bit_of(m);
        proof {
            lemma_bits(b);
            assert(final(self)@ =~= old(self)@.insert(m));
        }
    }

    /// Whether `m` is in the set.
    pub fn contains(&self, m: Modifier) -> (r: bool)
        ensures
            r == self@.contains(m),
    {
        self.bits & bit_of(m) != 0
    }
}

/// The data attached to an expression node.
pub open spec fn expr_extra<E>(e: Expr<E>) -> E {
    match e {
        Expr::BinOp(_, _, _, d) => d,
        Expr::PrefixOp(_, _, d) => d,
        Expr::PostfixOp(_, _, d) => d,
        Expr::VarAccess(_, d) => d,
        Expr::Literal(_, d) => d,
    }
}

/// The data attached to a statement-level node.
pub open spec fn node_extra<E>(n: AstNode<E>) -> E {
    match n {
        AstNode::Statements(_, d) => d,
        AstNode::VarDecl(_, _, d) => d,
        AstNode::VarAssign(_, _, d) => d,
        AstNode::Expr(e) => expr_extra(e),
    }
}

impl<E> Expr<E> {
    /// The data attached to this node.
    pub fn extra_data(&self) -> (r: &E)
        ensures
            *r == expr_extra(*self),
    {
        match self {
            Expr::BinOp(_, _, _, data) => data,
            Expr::PrefixOp(_, _, data) => data,
            Expr::PostfixOp(_, _, data) => data,
            Expr::VarAccess(_, data) => data,
            Expr::Literal(_, data) => data,
        }
    }
}

impl<E> AstNode<E> {
    /// The data attached to this node; an expression statement's is its
    /// expression's.
    pub fn extra_data(&self) -> (r: &E)
        ensures
            *r == node_extra(*self),
    {
        match self {
            AstNode::Statements(_, e) => e,
            AstNode::VarDecl(_, _, e) => e,
            AstNode::VarAssign(_, _, e) => e,
            AstNode::Expr(e) => e.extra_data(),
        }
    }
}

/// The model of a [`Literal`].
pub enum LiteralView {
    Int(i64),
    Float(Seq<char>),
    String(Seq<char>),
    Bool(bool),
    Null,
}

impl View for Literal {
    type V = LiteralView;

    open spec fn view(&self) -> LiteralView {
        match self {
            Literal::Int(i) => LiteralView::Int(*i),
            Literal::Float(s) => LiteralView::Float(s@),
            Literal::String(s) => LiteralView::String(s@),
            Literal::Bool(b) => LiteralView::Bool(*b),
            Literal::Null => LiteralView::Null,
        }
    }
}

/// The model of a parsed expression: its shape, with each node's token span.
pub enum ExprModel {
    BinOp(Box<ExprModel>, BinOp, Box<ExprModel>, TokenSpanView),
    PrefixOp(PrefixOp, Box<ExprModel>, TokenSpanView),
    Call(Box<ExprModel>, Seq<ExprModel>, TokenSpanView),
    VarAccess(IdentifierView, TokenSpanView),
    Literal(LiteralView, TokenSpanView),
}

/// The token span of an expression model.
pub open spec fn model_span(m: ExprModel) -> TokenSpanView {
    match m {
        ExprModel::BinOp(_, _, _, s) => s,
        ExprModel::PrefixOp(_, _, s) => s,
        ExprModel::Call(_, _, s) => s,
        ExprModel::VarAccess(_, s) => s,
        ExprModel::Literal(_, s) => s,
    }
}

/// The model of a parsed expression.
pub open spec fn expr_model(e: Expr<TokenSpan>) -> ExprModel
    decreases e,
{
    match e {
        Expr::BinOp(l, op, r, s) => ExprModel::BinOp(
            Box::new(expr_model(*l)),
            op,
            Box::new(expr_model(*r)),
            s@,
        ),
        Expr::PrefixOp(op, x, s) => ExprModel::PrefixOp(op, Box::new(expr_model(*x)), s@),
        Expr::PostfixOp(x, PostfixOp::FunctionCall(args), s) => ExprModel::Call(
            Box::new(expr_model(*x)),
            exprs_model(args@),
            s@,
        ),
        Expr::VarAccess(id, s) => ExprModel::VarAccess(id@, s@),
        Expr::Literal(lit, s) => ExprModel::Literal(lit@, s@),
    }
}

/// The models of a list of expressions.
pub open spec fn exprs_model(v: Seq<Expr<TokenSpan>>) -> Seq<ExprModel>
    decreases v,
{
    if v.len() == 0 {
        Seq::empty()
    } else {
        exprs_model(v.drop_last()).push(expr_model(v.last()))
    }
}

/// The model of a parsed statement-level node.
pub enum AstModel {
    Statements(Seq<AstModel>, TokenSpanView),
    VarDecl(Set<Modifier>, IdentifierView, TokenSpanView),
    VarAssign(IdentifierView, ExprModel, TokenSpanView),
    Expr(ExprModel),
}

/// The model of a parsed statement-level node.
pub open spec fn node_model(n: AstNode<TokenSpan>) -> AstModel
    decreases n,
{
    match n {
        AstNode::Statements(v, s) => AstModel::Statements(nodes_model(v@), s@),
        AstNode::VarDecl(m, id, s) => AstModel::VarDecl(m@, id@, s@),
        AstNode::VarAssign(id, e, s) => AstModel::VarAssign(id@, expr_model(e), s@),
        AstNode::Expr(e) => AstModel::Expr(expr_model(e)),
    }
}

/// The models of a list of statement-level nodes.
pub open spec fn nodes_model(v: Seq<AstNode<TokenSpan>>) -> Seq<AstModel>
    decreases v,
{
    if v.len() == 0 {
        Seq::empty()
    } else {
        nodes_model(v.drop_last()).push(node_model(v.last()))
    }
}

} // verus!
