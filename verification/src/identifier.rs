use crate::token::Token;
use vstd::prelude::*;

verus! {

/// An identifier together with the token it was read from.
#[derive(Debug, Clone, PartialEq)]
pub struct Identifier {
    pub token: Token,
    pub value: String,
}

} // verus!
