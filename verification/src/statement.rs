use crate::expression::ExprM;
use crate::expression::Expression;
use vstd::prelude::*;

verus! {

/// A statement of the language. `Program` is the unique root of a parsed
/// translation unit; `BlockStatement` is a `{ ... }` block.
#[derive(Debug, PartialEq)]
pub enum Statement {
    Let(String, Box<Expression>),
    Return(Box<Expression>),
    ExpressionStatement(Box<Expression>),
    BlockStatement(Vec<Statement>),
    Reassignment(String, Box<Expression>),
    Program(Vec<Statement>),
}

/// The mathematical model of a statement.
pub enum StmtM {
    Let(Seq<char>, Box<ExprM>),
    Return(Box<ExprM>),
    ExpressionStatement(Box<ExprM>),
    BlockStatement(Seq<StmtM>),
    Reassignment(Seq<char>, Box<ExprM>),
    Program(Seq<StmtM>),
}

/// The models of a list of statements, elementwise.
pub open spec fn stmts_model(ss: Seq<Statement>) -> Seq<StmtM>
    decreases ss,
{
    if ss.len() == 0 {
        Seq::empty()
    } else {
        stmts_model(ss.drop_last()).push(ss.last().model())
    }
}

pub broadcast proof fn lemma_stmts_model_len(ss: Seq<Statement>)
    ensures
        (#[trigger] stmts_model(ss)).len() == ss.len(),
    decreases ss,
{
    if ss.len() > 0 {
        lemma_stmts_model_len(ss.drop_last());
    }
}

pub broadcast proof fn lemma_stmts_model_index(ss: Seq<Statement>, i: int)
    requires
        0 <= i < ss.len(),
    ensures
        #[trigger] stmts_model(ss)[i] == ss[i].model(),
    decreases ss,
{
    lemma_stmts_model_len(ss);
    if i < ss.len() - 1 {
        lemma_stmts_model_index(ss.drop_last(), i);
    }
}

/// A structural copy of a statement list: same models, elementwise.
pub fn duplicate_stmts(ss: &Vec<Statement>) -> (r: Vec<Statement>)
    ensures
        stmts_model(r@) == stmts_model(ss@),
    decreases ss@,
{
    broadcast use lemma_stmts_model_len, lemma_stmts_model_index;

    let mut out: Vec<Statement> = Vec::new();
    let n = ss.len();
    let mut i: usize = 0;
    while i < n
        invariant
            n == ss.len(),
            i <= n,
            out@.len() == i,
            forall|j: int| 0 <= j < i ==> (#[trigger] out@[j]).model() == ss@[j].model(),
        decreases n - i,
    {
        out.push(ss[i].duplicate());
        i = i + 1;
    }
    proof {
        assert(stmts_model(out@) =~= stmts_model(ss@));
    }
    out
}

impl Statement {
    /// A structural copy: the copy has the same model as the original.
    pub fn duplicate(&self) -> (r: Statement)
        ensures
            r.model() == self.model(),
        decreases *self,
    {
        match self {
            Statement::Let(name, e) => Statement::Let(name.clone(), Box::new(e.duplicate())),
            Statement::Return(e) => Statement::Return(Box::new(e.duplicate())),
            Statement::ExpressionStatement(e) => Statement::ExpressionStatement(
                Box::new(e.duplicate()),
            ),
            Statement::BlockStatement(ss) => Statement::BlockStatement(duplicate_stmts(ss)),
            Statement::Reassignment(name, e) => Statement::Reassignment(
                name.clone(),
                Box::new(e.duplicate()),
            ),
            Statement::Program(ss) => Statement::Program(duplicate_stmts(ss)),
        }
    }

    pub open spec fn model(self) -> StmtM
        decreases self,
    {
        match self {
            Statement::Let(name, e) => StmtM::Let(name@, Box::new(e.model())),
            Statement::Return(e) => StmtM::Return(Box::new(e.model())),
            Statement::ExpressionStatement(e) => StmtM::ExpressionStatement(Box::new(e.model())),
            Statement::BlockStatement(ss) => StmtM::BlockStatement(stmts_model(ss@)),
            Statement::Reassignment(name, e) => StmtM::Reassignment(name@, Box::new(e.model())),
            Statement::Program(ss) => StmtM::Program(stmts_model(ss@)),
        }
    }
}

} // verus!
