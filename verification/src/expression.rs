use crate::statement::Statement;
use crate::statement::StmtM;
use vstd::prelude::*;

verus! {

/// An expression of the language. `If`, `While` and `Function` carry their
/// bodies as `Statement` blocks, making the two node kinds mutually
/// recursive.
#[derive(Debug, PartialEq)]
pub enum Expression {
    Null,
    Ident(String),
    String(String),
    Integer(i32),
    Prefix(Prefix, Box<Expression>),
    Infix(Box<Expression>, Operator, Box<Expression>),
    Boolean(bool),
    If(Box<Expression>, Statement, Option<Statement>),
    While(Box<Expression>, Statement),
    Function(Vec<String>, Statement),
    FunctionCall(Box<Expression>, Vec<Expression>),
    Array(Vec<Expression>),
    ArrayIndex(Box<Expression>, Box<Expression>),
}

/// The two prefix operators.
#[derive(Debug, Clone, Copy, PartialEq, Eq, Structural)]
pub enum Prefix {
    Minus,
    Bang,
}

/// The infix operators. `Assign` is produced by the parser like any other
/// infix operator and is resolved specially by the evaluator.
#[derive(Debug, Clone, Copy, PartialEq, Eq, Structural)]
pub enum Operator {
    Plus,
    Minus,
    Multiply,
    Divide,
    Greaterthan,
    Lessthan,
    Equals,
    Notequals,
    Assign,
}

/// The mathematical model of an expression: names and string literals are
/// sequences of characters, lists are `Seq`.
pub enum ExprM {
    Null,
    Ident(Seq<char>),
    String(Seq<char>),
    Integer(i32),
    Prefix(Prefix, Box<ExprM>),
    Infix(Box<ExprM>, Operator, Box<ExprM>),
    Boolean(bool),
    If(Box<ExprM>, Box<StmtM>, Option<Box<StmtM>>),
    While(Box<ExprM>, Box<StmtM>),
    Function(Seq<Seq<char>>, Box<StmtM>),
    FunctionCall(Box<ExprM>, Seq<ExprM>),
    Array(Seq<ExprM>),
    ArrayIndex(Box<ExprM>, Box<ExprM>),
}

/// The models of a list of parameter names.
pub open spec fn params_model(ps: Seq<String>) -> Seq<Seq<char>> {
    ps.map(|i: int, p: String| p@)
}

/// The models of a list of expressions, elementwise.
pub open spec fn exprs_model(es: Seq<Expression>) -> Seq<ExprM>
    decreases es,
{
    if es.len() == 0 {
        Seq::empty()
    } else {
        exprs_model(es.drop_last()).push(es.last().model())
    }
}

pub broadcast proof fn lemma_exprs_model_len(es: Seq<Expression>)
    ensures
        (#[trigger] exprs_model(es)).len() == es.len(),
    decreases es,
{
    if es.len() > 0 {
        lemma_exprs_model_len(es.drop_last());
    }
}

pub broadcast proof fn lemma_exprs_model_index(es: Seq<Expression>, i: int)
    requires
        0 <= i < es.len(),
    ensures
        #[trigger] exprs_model(es)[i] == es[i].model(),
    decreases es,
{
    lemma_exprs_model_len(es);
    if i < es.len() - 1 {
        lemma_exprs_model_index(es.drop_last(), i);
    }
}

/// A structural copy of a parameter list: same models, elementwise.
pub fn duplicate_params(ps: &Vec<String>) -> (r: Vec<String>)
    ensures
        params_model(r@) == params_model(ps@),
{
    let mut out: Vec<String> = Vec::new();
    let n = ps.len();
    let mut i: usize = 0;
    while i < n
        invariant
            n == ps.len(),
            i <= n,
            out@.len() == i,
            forall|j: int| 0 <= j < i ==> (#[trigger] out@[j])@ == ps@[j]@,
        decreases n - i,
    {
        out.push(ps[i].clone());
        i = i + 1;
    }
    proof {
        assert(params_model(out@) =~= params_model(ps@));
    }
    out
}

/// A structural copy of an expression list: same models, elementwise.
pub fn duplicate_exprs(es: &Vec<Expression>) -> (r: Vec<Expression>)
    ensures
        exprs_model(r@) == exprs_model(es@),
    decreases es@,
{
    broadcast use lemma_exprs_model_len, lemma_exprs_model_index;

    let mut out: Vec<Expression> = Vec::new();
    let n = es.len();
    let mut i: usize = 0;
    while i < n
        invariant
            n == es.len(),
            i <= n,
            out@.len() == i,
            forall|j: int| 0 <= j < i ==> (#[trigger] out@[j]).model() == es@[j].model(),
        decreases n - i,
    {
        out.push(es[i].duplicate());
        i = i + 1;
    }
    proof {
        assert(exprs_model(out@) =~= exprs_model(es@));
    }
    out
}

impl Expression {
    /// A structural copy: the copy has the same model as the original.
    pub fn duplicate(&self) -> (r: Expression)
        ensures
            r.model() == self.model(),
        decreases *self,
    {
        match self {
            Expression::Null => Expression::Null,
            Expression::Ident(name) => Expression::Ident(name.clone()),
            Expression::String(text) => Expression::String(text.clone()),
            Expression::Integer(i) => Expression::Integer(*i),
            Expression::Prefix(op, e) => Expression::Prefix(*op, Box::new(e.duplicate())),
            Expression::Infix(l, op, r) => Expression::Infix(
                Box::new(l.duplicate()),
                *op,
                Box::new(r.duplicate()),
            ),
            Expression::Boolean(b) => Expression::Boolean(*b),
            Expression::If(c, t, e) => Expression::If(
                Box::new(c.duplicate()),
                t.duplicate(),
                match e {
                    Some(s) => Some(s.duplicate()),
                    None => None,
                },
            ),
            Expression::While(c, body) => Expression::While(
                Box::new(c.duplicate()),
                body.duplicate(),
            ),
            Expression::Function(ps, body) => Expression::Function(
                duplicate_params(ps),
                body.duplicate(),
            ),
            Expression::FunctionCall(callee, args) => Expression::FunctionCall(
                Box::new(callee.duplicate()),
                duplicate_exprs(args),
            ),
            Expression::Array(elems) => Expression::Array(duplicate_exprs(elems)),
            Expression::ArrayIndex(a, i) => Expression::ArrayIndex(
                Box::new(a.duplicate()),
                Box::new(i.duplicate()),
            ),
        }
    }

    pub open spec fn model(self) -> ExprM
        decreases self,
    {
        match self {
            Expression::Null => ExprM::Null,
            Expression::Ident(name) => ExprM::Ident(name@),
            Expression::String(text) => ExprM::String(text@),
            Expression::Integer(i) => ExprM::Integer(i),
            Expression::Prefix(op, e) => ExprM::Prefix(op, Box::new(e.model())),
            Expression::Infix(l, op, r) => ExprM::Infix(
                Box::new(l.model()),
                op,
                Box::new(r.model()),
            ),
            Expression::Boolean(b) => ExprM::Boolean(b),
            Expression::If(c, t, e) => ExprM::If(
                Box::new(c.model()),
                Box::new(t.model()),
                match e {
                    Some(s) => Some(Box::new(s.model())),
                    None => None,
                },
            ),
            Expression::While(c, body) => ExprM::While(Box::new(c.model()), Box::new(body.model())),
            Expression::Function(ps, body) => ExprM::Function(
                params_model(ps@),
                Box::new(body.model()),
            ),
            Expression::FunctionCall(callee, args) => ExprM::FunctionCall(
                Box::new(callee.model()),
                exprs_model(args@),
            ),
            Expression::Array(elems) => ExprM::Array(exprs_model(elems@)),
            Expression::ArrayIndex(a, i) => ExprM::ArrayIndex(
                Box::new(a.model()),
                Box::new(i.model()),
            ),
        }
    }
}

} // verus!
