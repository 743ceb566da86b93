use crate::statement::Statement;
use vstd::prelude::*;

verus! {

/// A parsed translation unit as a bare list of top-level statements.
#[derive(Debug)]
pub struct Program {
    pub statements: Vec<Statement>,
}

impl Default for Program {
    fn default() -> (r: Self)
        ensures
            r.statements@.len() == 0,
    {
        Program { statements: Vec::new() }
    }
}

} // verus!
