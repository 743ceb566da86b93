use vstd::prelude::*;

verus! {

/// The source position and exact source slice of a token.
///
/// `line` and `col` are 1-based; `col` counts within the current line.
#[derive(Clone, Debug, PartialEq)]
pub struct TokenInfo {
    pub literal: String,
    pub line: usize,
    pub col: usize,
}

impl Default for TokenInfo {
    /// The position used by tokens that carry none, such as `Eof`.
    fn default() -> (r: Self)
        ensures
            r.literal@ == Seq::<char>::empty(),
            r.line == 0,
            r.col == 0,
    {
        TokenInfo { literal: String::new(), line: 0, col: 0 }
    }
}

} // verus!
