use crate::enviornment::EnvM;
use crate::enviornment::Enviornment;
use crate::statement::Statement;
use crate::statement::StmtM;
use vstd::prelude::*;

verus! {

/// A user function value: parameter names, body, and the environment
/// captured where the function literal was evaluated (closure capture by
/// value).
#[derive(Debug, PartialEq)]
pub struct Function(pub Vec<String>, pub Statement, pub Box<Enviornment>);

/// The handles of the built-in library functions.
#[derive(Debug, Clone, Copy, PartialEq, Eq, Structural)]
pub enum Buildin {
    Len,
    Push,
    Print,
}

/// A runtime value. `Return`, `Print` and `Error` are control-flow
/// sentinels threaded through evaluation rather than user-observable
/// values.
#[derive(Debug, PartialEq)]
pub enum ChaiObject {
    Integer(i32),
    Boolean(bool),
    String(String),
    Return(Box<ChaiObject>),
    Error(String),
    Function(Function),
    BuildinFunction(Buildin),
    Array(Vec<ChaiObject>),
    Print(String),
    Null,
}

/// The mathematical model of a runtime value. A function value carries the
/// model of its captured environment.
pub enum ValM {
    Integer(i32),
    Boolean(bool),
    String(Seq<char>),
    Return(Box<ValM>),
    Error(Seq<char>),
    Function(Seq<Seq<char>>, Box<StmtM>, Box<EnvM>),
    BuildinFunction(Buildin),
    Array(Seq<ValM>),
    Print(Seq<char>),
    Null,
}

/// The models of a list of values, elementwise.
pub open spec fn vals_model(vs: Seq<ChaiObject>) -> Seq<ValM>
    decreases vs,
{
    if vs.len() == 0 {
        Seq::empty()
    } else {
        vals_model(vs.drop_last()).push(vs.last().model())
    }
}

pub broadcast proof fn lemma_vals_model_len(vs: Seq<ChaiObject>)
    ensures
        (#[trigger] vals_model(vs)).len() == vs.len(),
    decreases vs,
{
    if vs.len() > 0 {
        lemma_vals_model_len(vs.drop_last());
    }
}

pub broadcast proof fn lemma_vals_model_index(vs: Seq<ChaiObject>, i: int)
    requires
        0 <= i < vs.len(),
    ensures
        #[trigger] vals_model(vs)[i] == vs[i].model(),
    decreases vs,
{
    lemma_vals_model_len(vs);
    if i < vs.len() - 1 {
        lemma_vals_model_index(vs.drop_last(), i);
    }
}

/// A structural copy of a value list: same models, elementwise.
pub fn duplicate_vals(vs: &Vec<ChaiObject>) -> (r: Vec<ChaiObject>)
    ensures
        vals_model(r@) == vals_model(vs@),
    decreases vs@,
{
    broadcast use lemma_vals_model_len, lemma_vals_model_index;

    let mut out: Vec<ChaiObject> = Vec::new();
    let n = vs.len();
    let mut i: usize = 0;
    while i < n
        invariant
            n == vs.len(),
            i <= n,
            out@.len() == i,
            forall|j: int| 0 <= j < i ==> (#[trigger] out@[j]).model() == vs@[j].model(),
        decreases n - i,
    {
        out.push(vs[i].duplicate());
        i = i + 1;
    }
    proof {
        assert(vals_model(out@) =~= vals_model(vs@));
    }
    out
}

impl ChaiObject {
    pub open spec fn model(self) -> ValM
        decreases self,
    {
        match self {
            ChaiObject::Integer(i) => ValM::Integer(i),
            ChaiObject::Boolean(b) => ValM::Boolean(b),
            ChaiObject::String(s) => ValM::String(s@),
            ChaiObject::Return(v) => ValM::Return(Box::new(v.model())),
            ChaiObject::Error(s) => ValM::Error(s@),
            ChaiObject::Function(f) => ValM::Function(
                crate::expression::params_model(f.0@),
                Box::new(f.1.model()),
                Box::new(f.2.model()),
            ),
            ChaiObject::BuildinFunction(b) => ValM::BuildinFunction(b),
            ChaiObject::Array(vs) => ValM::Array(vals_model(vs@)),
            ChaiObject::Print(s) => ValM::Print(s@),
            ChaiObject::Null => ValM::Null,
        }
    }

    /// A structural copy: the copy has the same model as the original.
    pub fn duplicate(&self) -> (r: ChaiObject)
        ensures
            r.model() == self.model(),
        decreases *self,
    {
        broadcast use lemma_vals_model_len, lemma_vals_model_index;

        match self {
            ChaiObject::Integer(i) => ChaiObject::Integer(*i),
            ChaiObject::Boolean(b) => ChaiObject::Boolean(*b),
            ChaiObject::String(s) => ChaiObject::String(s.clone()),
            ChaiObject::Return(v) => ChaiObject::Return(Box::new(v.duplicate())),
            ChaiObject::Error(s) => ChaiObject::Error(s.clone()),
            ChaiObject::Function(f) => ChaiObject::Function(
                Function(
                    crate::expression::duplicate_params(&f.0),
                    f.1.duplicate(),
                    Box::new(f.2.duplicate()),
                ),
            ),
            ChaiObject::BuildinFunction(b) => ChaiObject::BuildinFunction(*b),
            ChaiObject::Array(vs) => ChaiObject::Array(duplicate_vals(vs)),
            ChaiObject::Print(s) => ChaiObject::Print(s.clone()),
            ChaiObject::Null => ChaiObject::Null,
        }
    }
}

} // verus!
