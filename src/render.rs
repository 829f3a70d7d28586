//! The textual form of syntax trees: operators by name, literals as written,
//! every compound expression in parentheses.
use vstd::prelude::*;

use crate::ast::{AstNode, BinOp, Expr, Literal, LiteralView, Modifier, ModifierSet, PostfixOp, PrefixOp};
use crate::common::identifier_text;
use crate::text::{decimal_of, push_char, push_decimal};

verus! {

pub open spec fn binop_name(op: BinOp) -> Seq<char> {
    match op {
        BinOp::Plus => "Plus"@,
        BinOp::Minus => "Minus"@,
        BinOp::Times => "Times"@,
        BinOp::Divide => "Divide"@,
        BinOp::Modulo => "Modulo"@,
        BinOp::Power => "Power"@,
        BinOp::Equals => "Equals"@,
        BinOp::NotEquals => "NotEquals"@,
        BinOp::And => "And"@,
        BinOp::Or => "Or"@,
        BinOp::LessThan => "LessThan"@,
        BinOp::LessThanOrEqual => "LessThanOrEqual"@,
        BinOp::GreaterThan => "GreaterThan"@,
        BinOp::GreaterThanOrEqual => "GreaterThanOrEqual"@,
    }
}

pub open spec fn prefix_name(op: PrefixOp) -> Seq<char> {
    match op {
        PrefixOp::Negate => "Negate"@,
        PrefixOp::Not => "Not"@,
    }
}

pub open spec fn modifier_name(m: Modifier) -> Seq<char> {
    match m {
        Modifier::Public => "Public"@,
        Modifier::Private => "Private"@,
        Modifier::Package => "Package"@,
        Modifier::Final => "Final"@,
    }
}

/// The decimal form of `i`, with a sign when negative.
pub open spec fn int_text(i: i64) -> Seq<char> {
    if i < 0 {
        seq!['-'] + decimal_of((-i) as nat)
    } else {
        decimal_of(i as nat)
    }
}

/// A literal as it is written.
pub open spec fn literal_text(l: LiteralView) -> Seq<char> {
    match l {
        LiteralView::Int(i) => int_text(i),
        LiteralView::Float(s) => s,
        LiteralView::String(s) => seq!['"'] + s + seq!['"'],
        LiteralView::Bool(b) => if b {
            "true"@
        } else {
            "false"@
        },
        LiteralView::Null => "null"@,
    }
}

/// `words` joined by `sep`.
pub open spec fn join(words: Seq<Seq<char>>, sep: Seq<char>) -> Seq<char>
    decreases words.len(),
{
    if words.len() == 0 {
        Seq::empty()
    } else if words.len() == 1 {
        words[0]
    } else {
        join(words.drop_last(), sep) + sep + words.last()
    }
}

/// The names of the modifiers in `m`, in declaration order.
pub open spec fn modifier_words(m: Set<Modifier>) -> Seq<Seq<char>> {
    (if m.contains(Modifier::Public) { seq![modifier_name(Modifier::Public)] } else { seq![] }) + (
    if m.contains(Modifier::Private) {
        seq![modifier_name(Modifier::Private)]
    } else {
        seq![]
    }) + (if m.contains(Modifier::Package) {
        seq![modifier_name(Modifier::Package)]
    } else {
        seq![]
    }) + (if m.contains(Modifier::Final) { seq![modifier_name(Modifier::Final)] } else { seq![] })
}

/// The text of an expression.
pub open spec fn expr_text<E>(e: Expr<E>) -> Seq<char>
    decreases e,
{
    match e {
        Expr::BinOp(l, op, r, _) => "("@ + expr_text(*l) + " "@ + binop_name(op) + " "@ + expr_text(
            *r,
        ) + ")"@,
        Expr::PrefixOp(op, x, _) => "("@ + prefix_name(op) + expr_text(*x) + ")"@,
        Expr::PostfixOp(x, PostfixOp::FunctionCall(args), _) => "("@ + expr_text(*x) + "("@
            + join(exprs_text(args@), ", "@) + ")"@ + ")"@,
        Expr::VarAccess(id, _) => identifier_text(id@),
        Expr::Literal(lit, _) => literal_text(lit@),
    }
}

/// The texts of a list of expressions.
pub open spec fn exprs_text<E>(v: Seq<Expr<E>>) -> Seq<Seq<char>>
    decreases v,
{
    if v.len() == 0 {
        Seq::empty()
    } else {
        exprs_text(v.drop_last()).push(expr_text(v.last()))
    }
}

/// The text of a statement-level node.
pub open spec fn node_text<E>(n: AstNode<E>) -> Seq<char>
    decreases n,
{
    match n {
        AstNode::Statements(v, _) => "{ "@ + join(nodes_text(v@), "; "@) + " }"@,
        AstNode::VarDecl(m, id, _) => "VarDecl("@ + join(modifier_words(m@), " "@) + ", "@
            + identifier_text(id@) + ")"@,
        AstNode::VarAssign(id, e, _) => identifier_text(id@) + " = "@ + expr_text(e),
        AstNode::Expr(e) => expr_text(e),
    }
}

/// The texts of a list of statement-level nodes.
pub open spec fn nodes_text<E>(v: Seq<AstNode<E>>) -> Seq<Seq<char>>
    decreases v,
{
    if v.len() == 0 {
        Seq::empty()
    } else {
        nodes_text(v.drop_last()).push(node_text(v.last()))
    }
}

fn binop_str(op: BinOp) -> (r: &'static str)
    ensures
        r@ == binop_name(op),
{
    match op {
        BinOp::Plus => "Plus",
        BinOp::Minus => "Minus",
        BinOp::Times => "Times",
        BinOp::Divide => "Divide",
        BinOp::Modulo => "Modulo",
        BinOp::Power => "Power",
        BinOp::Equals => "Equals",
        BinOp::NotEquals => "NotEquals",
        BinOp::And => "And",
        BinOp::Or => "Or",
        BinOp::LessThan => "LessThan",
        BinOp::LessThanOrEqual => "LessThanOrEqual",
        BinOp::GreaterThan => "GreaterThan",
        BinOp::GreaterThanOrEqual => "GreaterThanOrEqual",
    }
}

fn prefix_str(op: PrefixOp) -> (r: &'static str)
    ensures
        r@ == prefix_name(op),
{
    match op {
        PrefixOp::Negate => "Negate",
        PrefixOp::Not => "Not",
    }
}

/// Appends `words` joined by `sep` to `s`.
fn push_joined(s: &mut String, words: &Vec<String>, sep: &str)
    ensures
        final(s)@ == old(s)@ + join(words@.map_values(|w: String| w@), sep@),
{
    let ghost ws = words@.map_values(|w: String| w@);
    let mut i: usize = 0;
    assert(ws.take(0) =~= Seq::<Seq<char>>::empty());
    while i < words.len()
        invariant
            i <= words@.len(),
            ws == words@.map_values(|w: String| w@),
            s@ == old(s)@ + join(ws.take(i as int), sep@),
        decreases words@.len() - i,
    {
        let ghost before = s@;
        if i > 0 {
            s.append(sep);
        }
        s.append(words[i].as_str());
        proof {
            assert(ws.take(i + 1).drop_last() =~= ws.take(i as int));
            if i == 0 {
                assert(s@ =~= old(s)@ + join(ws.take(i + 1), sep@));
            } else {
                assert(s@ =~= old(s)@ + join(ws.take(i + 1), sep@));
            }
        }
        i = i + 1;
    }
    assert(ws.take(i as int) =~= ws);
}

impl Literal {
    /// The literal as it is written.
    pub fn render(&self) -> (r: String)
        ensures
            r@ == literal_text(self@),
    {
        match self {
            Literal::Int(i) => {
                let mut s = String::new();
                if *i < 0 {
                    push_char(&mut s, '-');
                    push_decimal(&mut s, (0 - (*i as i128)) as u64);
                } else {
                    push_decimal(&mut s, *i as u64);
                }
                assert(s@ =~= int_text(*i));
                s
            },
            Literal::Float(t) => t.clone(),
            Literal::String(t) => {
                let mut s = String::new();
                push_char(&mut s, '"');
                s.append(t.as_str());
                push_char(&mut s, '"');
                assert(s@ =~= seq!['"'] + t@ + seq!['"']);
                s
            },
            Literal::Bool(b) => if *b {
                String::from_str("true")
            } else {
                String::from_str("false")
            },
            Literal::Null => String::from_str("null"),
        }
    }
}

impl ModifierSet {
    /// The names of the modifiers held, in declaration order, joined by
    /// spaces.
    pub fn render(&self) -> (r: String)
        ensures
            r@ == join(modifier_words(self@), " "@),
    {
        let mut words: Vec<String> = Vec::new();
        let all = [Modifier::Public, Modifier::Private, Modifier::Package, Modifier::Final];
        let ghost expected = modifier_words(self@);
        if self.contains(Modifier::Public) {
            words.push(String::from_str("Public"));
        }
        let ghost w1 = words@.map_values(|w: String| w@);
        if self.contains(Modifier::Private) {
            words.push(String::from_str("Private"));
        }
        let ghost w2 = words@.map_values(|w: String| w@);
        if self.contains(Modifier::Package) {
            words.push(String::from_str("Package"));
        }
        let ghost w3 = words@.map_values(|w: String| w@);
        if self.contains(Modifier::Final) {
            words.push(String::from_str("Final"));
        }
        assert(words@.map_values(|w: String| w@) =~= expected);
        let mut s = String::new();
        push_joined(&mut s, &words, " ");
        s
    }
}

impl<E> Expr<E> {
    /// The expression's text: `(left Op right)`, `(Op operand)`,
    /// `(callee(arg, ...))`, a name, or a literal.
    pub fn render(&self) -> (r: String)
        ensures
            r@ == expr_text(*self),
        decreases self,
    {
        match self {
            Expr::BinOp(l, op, r, _) => {
                let mut s = String::from_str("(");
                s.append(l.render().as_str());
                s.append(" ");
                s.append(binop_str(*op));
                s.append(" ");
                s.append(r.render().as_str());
                s.append(")");
                s
            },
            Expr::PrefixOp(op, x, _) => {
                let mut s = String::from_str("(");
                s.append(prefix_str(*op));
                s.append(x.render().as_str());
                s.append(")");
                s
            },
            Expr::PostfixOp(x, op, _) => {
                let PostfixOp::FunctionCall(args) = op;
                let mut texts: Vec<String> = Vec::new();
                let mut i: usize = 0;
                proof {
                    assert(decreases_to!(*self => self->PostfixOp_1));
                    assert(decreases_to!(*op => op->FunctionCall_0));
                    assert(decreases_to!(*args => args@));
                }
                while i < args.len()
                    invariant
                        i <= args@.len(),
                        decreases_to!(*self => args@),
                        texts@.map_values(|w: String| w@) == exprs_text(args@.take(i as int)),
                    decreases args@.len() - i,
                {
                    proof {
                        assert(decreases_to!(args@ => args@[i as int]));
                    }
                    let t = args[i].render();
                    let ghost before = texts@;
                    texts.push(t);
                    assert(args@.take(i + 1).drop_last() =~= args@.take(i as int));
                    assert(texts@.map_values(|w: String| w@) =~= before.map_values(|w: String| w@).push(t@));
                    i = i + 1;
                }
                assert(args@.take(i as int) =~= args@);
                let mut s = String::from_str("(");
                s.append(x.render().as_str());
                s.append("(");
                push_joined(&mut s, &texts, ", ");
                s.append(")");
                s.append(")");
                s
            },
            Expr::VarAccess(id, _) => id.render(),
            Expr::Literal(lit, _) => lit.render(),
        }
    }
}

impl<E> AstNode<E> {
    /// The node's text: `{ stmt; ... }`, `VarDecl(mods, name)`,
    /// `name = expr`, or an expression.
    pub fn render(&self) -> (r: String)
        ensures
            r@ == node_text(*self),
        decreases self,
    {
        match self {
            AstNode::Statements(v, _) => {
                let mut texts: Vec<String> = Vec::new();
                let mut i: usize = 0;
                proof {
                    assert(decreases_to!(*self => self->Statements_0));
                    assert(decreases_to!(*v => v@));
                }
                while i < v.len()
                    invariant
                        i <= v@.len(),
                        decreases_to!(*self => v@),
                        texts@.map_values(|w: String| w@) == nodes_text(v@.take(i as int)),
                    decreases v@.len() - i,
                {
                    proof {
                        assert(decreases_to!(v@ => v@[i as int]));
                    }
                    let t = v[i].render();
                    let ghost before = texts@;
                    texts.push(t);
                    assert(v@.take(i + 1).drop_last() =~= v@.take(i as int));
                    assert(texts@.map_values(|w: String| w@) =~= before.map_values(|w: String| w@).push(t@));
                    i = i + 1;
                }
                assert(v@.take(i as int) =~= v@);
                let mut s = String::from_str("{ ");
                push_joined(&mut s, &texts, "; ");
                s.append(" }");
                s
            },
            AstNode::VarDecl(m, id, _) => {
                let mut s = String::from_str("VarDecl(");
                s.append(m.render().as_str());
                s.append(", ");
                s.append(id.render().as_str());
                s.append(")");
                s
            },
            AstNode::VarAssign(id, e, _) => {
                let mut s = id.render();
                s.append(" = ");
                s.append(e.render().as_str());
                s
            },
            AstNode::Expr(e) => e.render(),
        }
    }
}

} // verus!
