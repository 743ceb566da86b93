use crate::expression::ExprM;
use crate::expression::Expression;
use crate::lexer::Lexer;
use crate::statement::Statement;
use crate::token::Token;
use crate::expression::Operator;
use crate::expression::Prefix;
use crate::statement::StmtM;
use crate::stdchai::dec_digits;
use crate::stdchai::u64_to_string;
use vstd::string::StrSliceExecFns;
use vstd::string::StringExecFns;
use crate::token::TokenM;
use crate::token::TokenType;
use vstd::prelude::*;

verus! {

broadcast use
    crate::expression::lemma_exprs_model_len,
    crate::expression::lemma_exprs_model_index,
    crate::statement::lemma_stmts_model_len,
    crate::statement::lemma_stmts_model_index,
;

/// The precedence levels of the Pratt parser, from loosest to tightest
/// binding. Assignment binds loosest of all binary operators; calls and
/// indexing bind via the postfix-as-infix trick.
#[derive(Debug, Clone, Copy, PartialEq, Eq, Structural)]
pub enum Precedence {
    Lowest,
    Assign,
    Equals,
    Lessgreater,
    Sum,
    Product,
    Prefix,
    Call,
    Index,
}

impl Precedence {
    /// The numeric rank of the level; comparisons between levels go by rank.
    pub open spec fn spec_rank(self) -> u8 {
        match self {
            Precedence::Lowest => 0,
            Precedence::Assign => 1,
            Precedence::Equals => 2,
            Precedence::Lessgreater => 3,
            Precedence::Sum => 4,
            Precedence::Product => 5,
            Precedence::Prefix => 6,
            Precedence::Call => 7,
            Precedence::Index => 8,
        }
    }

    pub fn rank(&self) -> (r: u8)
        ensures
            r == self.spec_rank(),
    {
        match self {
            Precedence::Lowest => 0,
            Precedence::Assign => 1,
            Precedence::Equals => 2,
            Precedence::Lessgreater => 3,
            Precedence::Sum => 4,
            Precedence::Product => 5,
            Precedence::Prefix => 6,
            Precedence::Call => 7,
            Precedence::Index => 8,
        }
    }
}

/// The token at position `p`, with `Eof` standing in past the end of the
/// stream.
pub open spec fn cur(ts: Seq<TokenM>, p: int) -> TokenM {
    if 0 <= p < ts.len() {
        ts[p]
    } else {
        crate::lexer::eof_tok()
    }
}

/// The position one token further, staying put at the end of the stream.
pub open spec fn nxt(ts: Seq<TokenM>, p: int) -> int {
    if 0 <= p < ts.len() {
        p + 1
    } else {
        p
    }
}

/// A parse diagnostic: the line and column of the token one past `p` (the
/// parser's peek token), then the message.
pub open spec fn err_m(ts: Seq<TokenM>, p: int, msg: Seq<char>) -> Seq<char> {
    "Line:"@ + dec_digits(cur(ts, p + 1).line as nat) + " Col:"@ + dec_digits(
        cur(ts, p + 1).col as nat,
    ) + " "@ + msg
}

/// A parsed expression (or the first diagnostic) and the position of the
/// last token it consumed.
pub struct PE {
    pub r: Result<ExprM, Seq<char>>,
    pub pos: int,
}

/// A parsed statement and the position of the last token it consumed.
pub struct PS {
    pub r: Result<StmtM, Seq<char>>,
    pub pos: int,
}

/// A parsed name list and the position of the last token it consumed.
pub struct PNames {
    pub r: Result<Seq<Seq<char>>, Seq<char>>,
    pub pos: int,
}

/// A parsed expression list and the position of the last token it consumed.
pub struct PL {
    pub r: Result<Seq<ExprM>, Seq<char>>,
    pub pos: int,
}

/// Whether a token kind starts an infix expression when seen in peek
/// position: the binary operators, assignment, call and index.
pub open spec fn is_infix_kind(k: TokenType) -> bool {
    ||| k == TokenType::Plus
    ||| k == TokenType::Minus
    ||| k == TokenType::Asterisk
    ||| k == TokenType::Slash
    ||| k == TokenType::Equal
    ||| k == TokenType::Notequal
    ||| k == TokenType::Greaterthan
    ||| k == TokenType::Lessthan
    ||| k == TokenType::Assign
    ||| k == TokenType::Lparen
    ||| k == TokenType::Lbracket
}

/// The infix operator a token stands for.
pub open spec fn infix_op_of(k: TokenType) -> Operator {
    if k == TokenType::Plus {
        Operator::Plus
    } else if k == TokenType::Minus {
        Operator::Minus
    } else if k == TokenType::Asterisk {
        Operator::Multiply
    } else if k == TokenType::Slash {
        Operator::Divide
    } else if k == TokenType::Equal {
        Operator::Equals
    } else if k == TokenType::Notequal {
        Operator::Notequals
    } else if k == TokenType::Greaterthan {
        Operator::Greaterthan
    } else if k == TokenType::Lessthan {
        Operator::Lessthan
    } else {
        Operator::Assign
    }
}

/// An integer literal: a non-empty digit run whose value fits an `i32`.
pub open spec fn all_digits(s: Seq<char>) -> bool {
    forall|i: int| 0 <= i < s.len() ==> crate::lexer::spec_is_digit(#[trigger] s[i])
}

/// What parsing an integer lexeme gives: its value, or a diagnostic for a
/// lexeme that is no digit run or does not fit.
pub open spec fn int_lit_m(s: Seq<char>) -> Result<i32, Seq<char>> {
    if s.len() == 0 || !all_digits(s) {
        Err("invalid integer literal"@)
    } else if digits_val_h(s, 0, 0) > i32::MAX {
        Err("integer literal out of range"@)
    } else {
        Ok(digits_val_h(s, 0, 0) as i32)
    }
}

/// The fuel the parser starts with: more than it can ever burn on its
/// token stream, since every step consumes a token or descends into a
/// strictly smaller piece of the stream.
pub open spec fn parser_fuel(ts: Seq<TokenM>) -> nat {
    if 64 + 16 * ts.len() <= u64::MAX {
        (64 + 16 * ts.len()) as nat
    } else {
        u64::MAX as nat
    }
}

/// The diagnostic when the fuel nevertheless runs out.
pub open spec fn depth_err_m() -> Seq<char> {
    "program nesting too deep"@
}

/// One statement: `let` and `return` have their own forms; anything else
/// is an expression statement. A trailing semicolon is optional.
pub open spec fn parse_statement_m(ts: Seq<TokenM>, p: int, fuel: nat) -> PS
    decreases fuel,
{
    if fuel == 0 {
        PS { r: Err(depth_err_m()), pos: p }
    } else {
        let f = (fuel - 1) as nat;
        let k = cur(ts, p).kind;
        if k == TokenType::Let {
            parse_let_statement_m(ts, p, f)
        } else if k == TokenType::Return {
            parse_return_statement_m(ts, p, f)
        } else {
            parse_expression_statement_m(ts, p, f)
        }
    }
}

/// `let IDENT = EXPR ;?`.
pub open spec fn parse_let_statement_m(ts: Seq<TokenM>, p: int, fuel: nat) -> PS
    decreases fuel,
{
    if fuel == 0 {
        PS { r: Err(depth_err_m()), pos: p }
    } else {
        let f = (fuel - 1) as nat;
        let name = cur(ts, p + 1).literal;
        if cur(ts, p + 1).kind != TokenType::Ident {
            PS { r: Err(err_m(ts, p, "Expected an Identifier"@)), pos: p }
        } else {
            let p1 = nxt(ts, p);
            if cur(ts, p1 + 1).kind != TokenType::Assign {
                PS { r: Err(err_m(ts, p1, "Expected ="@)), pos: p1 }
            } else {
                let p2 = nxt(ts, nxt(ts, p1));
                let e = parse_expression_m(ts, p2, Precedence::Lowest, f);
                match e.r {
                    Err(msg) => PS { r: Err(msg), pos: e.pos },
                    Ok(expr) => {
                        let stmt = StmtM::Let(name, Box::new(expr));
                        if cur(ts, e.pos + 1).kind == TokenType::Semicolon {
                            PS { r: Ok(stmt), pos: nxt(ts, e.pos) }
                        } else {
                            PS { r: Ok(stmt), pos: e.pos }
                        }
                    },
                }
            }
        }
    }
}

/// `return EXPR ;?`.
pub open spec fn parse_return_statement_m(ts: Seq<TokenM>, p: int, fuel: nat) -> PS
    decreases fuel,
{
    if fuel == 0 {
        PS { r: Err(depth_err_m()), pos: p }
    } else {
        let f = (fuel - 1) as nat;
        let p1 = nxt(ts, p);
        let e = parse_expression_m(ts, p1, Precedence::Lowest, f);
        match e.r {
            Err(msg) => PS { r: Err(msg), pos: e.pos },
            Ok(expr) => {
                let stmt = StmtM::Return(Box::new(expr));
                if cur(ts, e.pos + 1).kind == TokenType::Semicolon {
                    PS { r: Ok(stmt), pos: nxt(ts, e.pos) }
                } else {
                    PS { r: Ok(stmt), pos: e.pos }
                }
            },
        }
    }
}

/// An expression as a statement, optional semicolon consumed.
pub open spec fn parse_expression_statement_m(ts: Seq<TokenM>, p: int, fuel: nat) -> PS
    decreases fuel,
{
    if fuel == 0 {
        PS { r: Err(depth_err_m()), pos: p }
    } else {
        let f = (fuel - 1) as nat;
        let e = parse_expression_m(ts, p, Precedence::Lowest, f);
        match e.r {
            Err(msg) => PS { r: Err(msg), pos: e.pos },
            Ok(expr) => {
                let stmt = StmtM::ExpressionStatement(Box::new(expr));
                if cur(ts, e.pos + 1).kind == TokenType::Semicolon {
                    PS { r: Ok(stmt), pos: nxt(ts, e.pos) }
                } else {
                    PS { r: Ok(stmt), pos: e.pos }
                }
            },
        }
    }
}

/// Pratt expression parsing at a precedence: a prefix form first, then
/// infix operators folded in while the next token binds tighter.
pub open spec fn parse_expression_m(ts: Seq<TokenM>, p: int, prec: Precedence, fuel: nat) -> PE
    decreases fuel,
{
    if fuel == 0 {
        PE { r: Err(depth_err_m()), pos: p }
    } else {
        let f = (fuel - 1) as nat;
        let first = parse_prefix_dispatch_m(ts, p, f);
        match first.r {
            Err(msg) => first,
            Ok(left) => parse_infix_loop_m(ts, first.pos, left, prec, f),
        }
    }
}

/// The prefix dispatch table as a function of the current token kind.
pub open spec fn parse_prefix_dispatch_m(ts: Seq<TokenM>, p: int, fuel: nat) -> PE
    decreases fuel,
{
    if fuel == 0 {
        PE { r: Err(depth_err_m()), pos: p }
    } else {
        let f = (fuel - 1) as nat;
        let t = cur(ts, p);
        let k = t.kind;
        if k == TokenType::Ident {
            PE { r: Ok(ExprM::Ident(t.literal)), pos: p }
        } else if k == TokenType::Int {
            match int_lit_m(t.literal) {
                Ok(v) => PE { r: Ok(ExprM::Integer(v)), pos: p },
                Err(msg) => PE { r: Err(msg), pos: p },
            }
        } else if k == TokenType::True || k == TokenType::False {
            PE { r: Ok(ExprM::Boolean(k == TokenType::True)), pos: p }
        } else if k == TokenType::String {
            PE { r: Ok(ExprM::String(t.literal)), pos: p }
        } else if k == TokenType::Minus || k == TokenType::Bang {
            let op = if k == TokenType::Minus {
                Prefix::Minus
            } else {
                Prefix::Bang
            };
            let e = parse_expression_m(ts, nxt(ts, p), Precedence::Prefix, f);
            match e.r {
                Err(msg) => e,
                Ok(inner) => PE { r: Ok(ExprM::Prefix(op, Box::new(inner))), pos: e.pos },
            }
        } else if k == TokenType::Lparen {
            let e = parse_expression_m(ts, nxt(ts, p), Precedence::Lowest, f);
            match e.r {
                Err(msg) => e,
                Ok(inner) => if cur(ts, e.pos + 1).kind == TokenType::Rparen {
                    PE { r: Ok(inner), pos: nxt(ts, e.pos) }
                } else {
                    PE { r: Err(err_m(ts, e.pos, "Expected closing )"@)), pos: e.pos }
                },
            }
        } else if k == TokenType::If {
            parse_if_m(ts, p, f)
        } else if k == TokenType::While {
            parse_while_m(ts, p, f)
        } else if k == TokenType::Function {
            parse_function_literal_m(ts, p, f)
        } else if k == TokenType::Lbracket {
            let l = parse_expr_list_m(ts, p, TokenType::Rbracket, "Expected ]"@, f);
            match l.r {
                Err(msg) => PE { r: Err(msg), pos: l.pos },
                Ok(elems) => PE { r: Ok(ExprM::Array(elems)), pos: l.pos },
            }
        } else {
            PE { r: Err(err_m(ts, p, "Unknown prefix expression : "@ + t.literal)), pos: p }
        }
    }
}

/// The Pratt fold: while the peek token is a non-semicolon infix operator
/// binding strictly tighter than the context, consume it and extend the
/// left expression.
pub open spec fn parse_infix_loop_m(
    ts: Seq<TokenM>,
    p: int,
    left: ExprM,
    prec: Precedence,
    fuel: nat,
) -> PE
    decreases fuel,
{
    if fuel == 0 {
        PE { r: Err(depth_err_m()), pos: p }
    } else {
        let f = (fuel - 1) as nat;
        let pk = cur(ts, p + 1).kind;
        if pk != TokenType::Semicolon && prec.spec_rank() < TokenType::spec_precedence(
            pk,
        ).spec_rank() && is_infix_kind(pk) {
            let p1 = nxt(ts, p);
            let step = if pk == TokenType::Lparen {
                parse_call_m(ts, p1, left, f)
            } else if pk == TokenType::Lbracket {
                parse_index_m(ts, p1, left, f)
            } else {
                parse_infix_expression_m(ts, p1, left, f)
            };
            match step.r {
                Err(msg) => step,
                Ok(bigger) => parse_infix_loop_m(ts, step.pos, bigger, prec, f),
            }
        } else {
            PE { r: Ok(left), pos: p }
        }
    }
}

/// One infix operator and its right operand. Assignment recurses at the
/// lowest precedence so that `a = b = 1` associates to the right; every
/// other operator recurses at its own precedence, associating to the left.
pub open spec fn parse_infix_expression_m(ts: Seq<TokenM>, p: int, left: ExprM, fuel: nat) -> PE
    decreases fuel,
{
    if fuel == 0 {
        PE { r: Err(depth_err_m()), pos: p }
    } else {
        let f = (fuel - 1) as nat;
        let k = cur(ts, p).kind;
        let op = infix_op_of(k);
        let rhs_prec = if op == Operator::Assign {
            Precedence::Lowest
        } else {
            TokenType::spec_precedence(k)
        };
        let e = parse_expression_m(ts, nxt(ts, p), rhs_prec, f);
        match e.r {
            Err(msg) => e,
            Ok(right) => PE {
                r: Ok(ExprM::Infix(Box::new(left), op, Box::new(right))),
                pos: e.pos,
            },
        }
    }
}

/// A call: the arguments between `(` and `)`, comma-separated.
pub open spec fn parse_call_m(ts: Seq<TokenM>, p: int, callee: ExprM, fuel: nat) -> PE
    decreases fuel,
{
    if fuel == 0 {
        PE { r: Err(depth_err_m()), pos: p }
    } else {
        let f = (fuel - 1) as nat;
        let l = parse_expr_list_m(ts, p, TokenType::Rparen, "Expected )"@, f);
        match l.r {
            Err(msg) => PE { r: Err(msg), pos: l.pos },
            Ok(args) => PE { r: Ok(ExprM::FunctionCall(Box::new(callee), args)), pos: l.pos },
        }
    }
}

/// An index: `[ EXPR ]` after an array expression.
pub open spec fn parse_index_m(ts: Seq<TokenM>, p: int, left: ExprM, fuel: nat) -> PE
    decreases fuel,
{
    if fuel == 0 {
        PE { r: Err(depth_err_m()), pos: p }
    } else {
        let f = (fuel - 1) as nat;
        let e = parse_expression_m(ts, nxt(ts, p), Precedence::Lowest, f);
        match e.r {
            Err(msg) => e,
            Ok(idx) => if cur(ts, e.pos + 1).kind == TokenType::Rbracket {
                PE {
                    r: Ok(ExprM::ArrayIndex(Box::new(left), Box::new(idx))),
                    pos: nxt(ts, e.pos),
                }
            } else {
                PE { r: Err(err_m(ts, e.pos, "Expected ]"@)), pos: e.pos }
            },
        }
    }
}

/// A comma-separated expression list opened at the current token and closed
/// by `term`; empty lists allowed.
pub open spec fn parse_expr_list_m(
    ts: Seq<TokenM>,
    p: int,
    term: TokenType,
    msg: Seq<char>,
    fuel: nat,
) -> PL
    decreases fuel,
{
    if fuel == 0 {
        PL { r: Err(depth_err_m()), pos: p }
    } else {
        let f = (fuel - 1) as nat;
        if cur(ts, p + 1).kind == term {
            PL { r: Ok(Seq::empty()), pos: nxt(ts, p) }
        } else {
            let p1 = nxt(ts, p);
            let e = parse_expression_m(ts, p1, Precedence::Lowest, f);
            match e.r {
                Err(m2) => PL { r: Err(m2), pos: e.pos },
                Ok(first) => parse_expr_list_loop_m(ts, e.pos, seq![first], term, msg, f),
            }
        }
    }
}

pub open spec fn parse_expr_list_loop_m(
    ts: Seq<TokenM>,
    p: int,
    acc: Seq<ExprM>,
    term: TokenType,
    msg: Seq<char>,
    fuel: nat,
) -> PL
    decreases fuel,
{
    if fuel == 0 {
        PL { r: Err(depth_err_m()), pos: p }
    } else {
        let f = (fuel - 1) as nat;
        if cur(ts, p + 1).kind == TokenType::Comma {
            let p2 = nxt(ts, nxt(ts, p));
            let e = parse_expression_m(ts, p2, Precedence::Lowest, f);
            match e.r {
                Err(m2) => PL { r: Err(m2), pos: e.pos },
                Ok(next_e) => parse_expr_list_loop_m(ts, e.pos, acc.push(next_e), term, msg, f),
            }
        } else if cur(ts, p + 1).kind == term {
            PL { r: Ok(acc), pos: nxt(ts, p) }
        } else {
            PL { r: Err(err_m(ts, p, msg)), pos: p }
        }
    }
}

/// `if ( EXPR ) { BLOCK } (else { BLOCK })?`.
pub open spec fn parse_if_m(ts: Seq<TokenM>, p: int, fuel: nat) -> PE
    decreases fuel,
{
    if fuel == 0 {
        PE { r: Err(depth_err_m()), pos: p }
    } else {
        let f = (fuel - 1) as nat;
        if cur(ts, p + 1).kind != TokenType::Lparen {
            PE { r: Err(err_m(ts, p, "Expected a ("@)), pos: p }
        } else {
            let p1 = nxt(ts, p);
            let p2 = nxt(ts, p1);
            let c = parse_expression_m(ts, p2, Precedence::Lowest, f);
            match c.r {
                Err(m2) => c,
                Ok(cond) => if cur(ts, c.pos + 1).kind != TokenType::Rparen {
                    PE { r: Err(err_m(ts, c.pos, "Expected a )"@)), pos: c.pos }
                } else {
                    let p3 = nxt(ts, c.pos);
                    if cur(ts, p3 + 1).kind != TokenType::Lbrace {
                        PE { r: Err(err_m(ts, p3, "Expected a {"@)), pos: p3 }
                    } else {
                        let p4 = nxt(ts, p3);
                        let b = parse_block_m(ts, p4, f);
                        match b.r {
                            Err(m2) => PE { r: Err(m2), pos: b.pos },
                            Ok(then_block) => if cur(ts, b.pos + 1).kind == TokenType::Else {
                                let p5 = nxt(ts, b.pos);
                                if cur(ts, p5 + 1).kind != TokenType::Lbrace {
                                    PE { r: Err(err_m(ts, p5, "Expected a {"@)), pos: p5 }
                                } else {
                                    let p6 = nxt(ts, p5);
                                    let eb = parse_block_m(ts, p6, f);
                                    match eb.r {
                                        Err(m2) => PE { r: Err(m2), pos: eb.pos },
                                        Ok(else_block) => PE {
                                            r: Ok(
                                                ExprM::If(
                                                    Box::new(cond),
                                                    Box::new(then_block),
                                                    Some(Box::new(else_block)),
                                                ),
                                            ),
                                            pos: eb.pos,
                                        },
                                    }
                                }
                            } else {
                                PE {
                                    r: Ok(ExprM::If(Box::new(cond), Box::new(then_block), None)),
                                    pos: b.pos,
                                }
                            },
                        }
                    }
                },
            }
        }
    }
}

/// `while ( EXPR ) { BLOCK }`.
pub open spec fn parse_while_m(ts: Seq<TokenM>, p: int, fuel: nat) -> PE
    decreases fuel,
{
    if fuel == 0 {
        PE { r: Err(depth_err_m()), pos: p }
    } else {
        let f = (fuel - 1) as nat;
        if cur(ts, p + 1).kind != TokenType::Lparen {
            PE { r: Err(err_m(ts, p, "Expected a ("@)), pos: p }
        } else {
            let p1 = nxt(ts, p);
            let p2 = nxt(ts, p1);
            let c = parse_expression_m(ts, p2, Precedence::Lowest, f);
            match c.r {
                Err(m2) => c,
                Ok(cond) => if cur(ts, c.pos + 1).kind != TokenType::Rparen {
                    PE { r: Err(err_m(ts, c.pos, "Expected a )"@)), pos: c.pos }
                } else {
                    let p3 = nxt(ts, c.pos);
                    if cur(ts, p3 + 1).kind != TokenType::Lbrace {
                        PE { r: Err(err_m(ts, p3, "Expected a {"@)), pos: p3 }
                    } else {
                        let p4 = nxt(ts, p3);
                        let b = parse_block_m(ts, p4, f);
                        match b.r {
                            Err(m2) => PE { r: Err(m2), pos: b.pos },
                            Ok(body) => PE {
                                r: Ok(ExprM::While(Box::new(cond), Box::new(body))),
                                pos: b.pos,
                            },
                        }
                    }
                },
            }
        }
    }
}

/// `fn ( PARAMS ) { BLOCK }`.
pub open spec fn parse_function_literal_m(ts: Seq<TokenM>, p: int, fuel: nat) -> PE
    decreases fuel,
{
    if fuel == 0 {
        PE { r: Err(depth_err_m()), pos: p }
    } else {
        let f = (fuel - 1) as nat;
        if cur(ts, p + 1).kind != TokenType::Lparen {
            PE { r: Err(err_m(ts, p, "Expected a ("@)), pos: p }
        } else {
            let p1 = nxt(ts, p);
            let ps = parse_function_parameters_m(ts, p1, f);
            match ps.r {
                Err(m2) => PE { r: Err(m2), pos: ps.pos },
                Ok(names) => if cur(ts, ps.pos + 1).kind != TokenType::Lbrace {
                    PE { r: Err(err_m(ts, ps.pos, "Expected a {"@)), pos: ps.pos }
                } else {
                    let p3 = nxt(ts, ps.pos);
                    let b = parse_block_m(ts, p3, f);
                    match b.r {
                        Err(m2) => PE { r: Err(m2), pos: b.pos },
                        Ok(body) => PE {
                            r: Ok(ExprM::Function(names, Box::new(body))),
                            pos: b.pos,
                        },
                    }
                },
            }
        }
    }
}

/// A comma-separated parameter name list between `(` and `)`.
pub open spec fn parse_function_parameters_m(ts: Seq<TokenM>, p: int, fuel: nat) -> PNames
    decreases fuel,
{
    if fuel == 0 {
        PNames { r: Err(depth_err_m()), pos: p }
    } else {
        let f = (fuel - 1) as nat;
        if cur(ts, p + 1).kind == TokenType::Rparen {
            PNames { r: Ok(Seq::empty()), pos: nxt(ts, p) }
        } else {
            let p1 = nxt(ts, p);
            parse_params_loop_m(ts, p1, seq![cur(ts, p1).literal], f)
        }
    }
}

pub open spec fn parse_params_loop_m(
    ts: Seq<TokenM>,
    p: int,
    acc: Seq<Seq<char>>,
    fuel: nat,
) -> PNames
    decreases fuel,
{
    if fuel == 0 {
        PNames { r: Err(depth_err_m()), pos: p }
    } else {
        let f = (fuel - 1) as nat;
        if cur(ts, p + 1).kind == TokenType::Comma {
            let p2 = nxt(ts, nxt(ts, p));
            parse_params_loop_m(ts, p2, acc.push(cur(ts, p2).literal), f)
        } else if cur(ts, p + 1).kind == TokenType::Rparen {
            PNames { r: Ok(acc), pos: nxt(ts, p) }
        } else {
            PNames { r: Err(err_m(ts, p, "Expected a )"@)), pos: p }
        }
    }
}

/// `{ STMT* }`: statements until the closing brace or the end of input.
/// The position entering is the opening brace; the position leaving is the
/// closing brace.
pub open spec fn parse_block_m(ts: Seq<TokenM>, p: int, fuel: nat) -> PS
    decreases fuel,
{
    if fuel == 0 {
        PS { r: Err(depth_err_m()), pos: p }
    } else {
        parse_block_loop_m(ts, nxt(ts, p), Seq::empty(), (fuel - 1) as nat)
    }
}

pub open spec fn parse_block_loop_m(ts: Seq<TokenM>, p: int, acc: Seq<StmtM>, fuel: nat) -> PS
    decreases fuel,
{
    if fuel == 0 {
        PS { r: Err(depth_err_m()), pos: p }
    } else {
        let f = (fuel - 1) as nat;
        let k = cur(ts, p).kind;
        if k == TokenType::Rbrace || k == TokenType::Eof {
            PS { r: Ok(StmtM::BlockStatement(acc)), pos: p }
        } else {
            let s = parse_statement_m(ts, p, f);
            match s.r {
                Err(m2) => s,
                Ok(stmt) => parse_block_loop_m(ts, nxt(ts, s.pos), acc.push(stmt), f),
            }
        }
    }
}

/// The whole program: statements until `Eof`, under the root `Program`
/// node.
pub open spec fn parse_program_loop_m(ts: Seq<TokenM>, p: int, acc: Seq<StmtM>, fuel: nat) -> PS
    decreases fuel,
{
    if fuel == 0 {
        PS { r: Err(depth_err_m()), pos: p }
    } else {
        let f = (fuel - 1) as nat;
        if cur(ts, p).kind == TokenType::Eof {
            PS { r: Ok(StmtM::Program(acc)), pos: p }
        } else {
            let s = parse_statement_m(ts, p, f);
            match s.r {
                Err(m2) => s,
                Ok(stmt) => parse_program_loop_m(ts, nxt(ts, s.pos), acc.push(stmt), f),
            }
        }
    }
}

/// What parsing a token stream gives: the program of `parse_program`, run
/// with more fuel than any parse of the stream can burn.
pub open spec fn parse_program_m(ts: Seq<TokenM>) -> Result<StmtM, Seq<char>> {
    parse_program_loop_m(ts, 0, Seq::empty(), parser_fuel(ts)).r
}

/// Value of an all-digits lexeme folded from the left.
pub open spec fn digits_val_h(s: Seq<char>, i: int, acc: int) -> int
    decreases s.len() - i,
{
    if i < 0 || i >= s.len() {
        acc
    } else {
        digits_val_h(s, i + 1, acc * 10 + ((s[i] as int) - ('0' as int)))
    }
}

/// The folded value never shrinks below its accumulator on a digit run.
proof fn lemma_digits_val_h_ge(s: Seq<char>, i: int, acc: int)
    requires
        all_digits(s),
        acc >= 0,
    ensures
        digits_val_h(s, i, acc) >= acc,
    decreases s.len() - i,
{
    if 0 <= i < s.len() {
        lemma_digits_val_h_ge(s, i + 1, acc * 10 + ((s[i] as int) - ('0' as int)));
    }
}

/// The parser over a pre-lexed token stream: `pos` indexes the current
/// token, the one after it is the peek token, and the stream is read as if
/// padded with `Eof` past its end.
#[derive(Debug, Clone, PartialEq)]
pub struct Parser {
    pub tokens: Vec<Token>,
    pub pos: usize,
}

impl Parser {
    /// The models of the parser's tokens.
    pub open spec fn ts(self) -> Seq<TokenM> {
        Lexer::tokens_model(self.tokens@)
    }

    /// A parser over the whole token stream of `lexer`.
    pub fn new(lexer: Lexer) -> (r: Self)
        requires
            lexer.wf(),
        ensures
            r.ts() == crate::lexer::spec_tokens_from(lexer.input@, lexer.st()),
            r.pos == 0,
    {
        let mut lx = lexer;
        let tokens = lx.tokens();
        Parser { tokens, pos: 0 }
    }

    /// The kind of the current token.
    fn current_kind(&self) -> (k: TokenType)
        ensures
            k == cur(self.ts(), self.pos as int).kind,
    {
        if self.pos < self.tokens.len() {
            self.tokens[self.pos].token_type
        } else {
            TokenType::Eof
        }
    }

    /// The lexeme of the current token.
    fn current_literal(&self) -> (r: String)
        ensures
            r@ == cur(self.ts(), self.pos as int).literal,
    {
        if self.pos < self.tokens.len() {
            self.tokens[self.pos].token_info.literal.clone()
        } else {
            String::new()
        }
    }

    /// The kind of the peek token.
    fn peek_kind(&self) -> (k: TokenType)
        ensures
            k == cur(self.ts(), self.pos + 1).kind,
    {
        if self.pos < self.tokens.len() && self.pos + 1 < self.tokens.len() {
            self.tokens[self.pos + 1].token_type
        } else {
            TokenType::Eof
        }
    }

    /// The lexeme of the peek token.
    fn peek_literal(&self) -> (r: String)
        ensures
            r@ == cur(self.ts(), self.pos + 1).literal,
    {
        if self.pos < self.tokens.len() && self.pos + 1 < self.tokens.len() {
            self.tokens[self.pos + 1].token_info.literal.clone()
        } else {
            String::new()
        }
    }

    /// Step to the next token; at the end of the stream, stay.
    fn next_token(&mut self)
        ensures
            final(self).tokens == old(self).tokens,
            final(self).pos == nxt(old(self).ts(), old(self).pos as int),
    {
        if self.pos < self.tokens.len() {
            self.pos = self.pos + 1;
        }
    }

    fn current_token_is(&self, token_type: TokenType) -> (r: bool)
        ensures
            r == (cur(self.ts(), self.pos as int).kind == token_type),
    {
        self.current_kind() == token_type
    }

    fn peek_token_is(&self, token_type: TokenType) -> (r: bool)
        ensures
            r == (cur(self.ts(), self.pos + 1).kind == token_type),
    {
        self.peek_kind() == token_type
    }

    /// Step over the peek token when it has the expected kind.
    fn expect_peek_token(&mut self, token_type: TokenType) -> (r: bool)
        ensures
            final(self).tokens == old(self).tokens,
            r == (cur(old(self).ts(), old(self).pos + 1).kind == token_type),
            final(self).pos == if r {
                nxt(old(self).ts(), old(self).pos as int)
            } else {
                old(self).pos as int
            },
    {
        if self.peek_token_is(token_type) {
            self.next_token();
            true
        } else {
            false
        }
    }

    fn peek_precedence(&self) -> (r: Precedence)
        ensures
            r == TokenType::spec_precedence(cur(self.ts(), self.pos + 1).kind),
    {
        TokenType::precedence(&self.peek_kind())
    }

    fn current_precedence(&self) -> (r: Precedence)
        ensures
            r == TokenType::spec_precedence(cur(self.ts(), self.pos as int).kind),
    {
        TokenType::precedence(&self.current_kind())
    }

    /// A diagnostic at the peek token's position.
    fn parsing_error(&self, msg: &str) -> (r: String)
        ensures
            r@ == err_m(self.ts(), self.pos as int, msg@),
    {
        let (line, col) = if self.pos < self.tokens.len() && self.pos + 1 < self.tokens.len() {
            (self.tokens[self.pos + 1].token_info.line, self.tokens[self.pos + 1].token_info.col)
        } else {
            (0, 0)
        };
        let mut r = "Line:".to_owned();
        let lstr = u64_to_string(line as u64);
        r.append(lstr.as_str());
        r.append(" Col:");
        let cstr = u64_to_string(col as u64);
        r.append(cstr.as_str());
        r.append(" ");
        r.append(msg);
        r
    }

    /// `let IDENT = EXPR ;?`.
    #[verifier::rlimit(100)]
    fn parse_let_statement(&mut self, fuel: u64) -> (r: Result<Statement, String>)
        ensures
            ({
                let m = parse_let_statement_m(old(self).ts(), old(self).pos as int, fuel as nat);
                &&& (match r {
                    Ok(st) => m.r is Ok && st.model() == m.r->Ok_0,
                    Err(e) => m.r is Err && e@ == m.r->Err_0,
                })
                &&& final(self).tokens == old(self).tokens
                &&& final(self).pos == m.pos
            }),
        decreases fuel, 3int,
    {
        if fuel == 0 {
            return Err("program nesting too deep".to_owned());
        }
        let f = fuel - 1;
        let name = self.peek_literal();
        if !self.expect_peek_token(TokenType::Ident) {
            return Err(self.parsing_error("Expected an Identifier"));
        }
        if !self.expect_peek_token(TokenType::Assign) {
            return Err(self.parsing_error("Expected ="));
        }
        self.next_token();
        let expression = match self.parse_expression(Precedence::Lowest, f) {
            Ok(e) => e,
            Err(e) => {
                return Err(e);
            },
        };
        let let_statement = Statement::Let(name, Box::new(expression));
        if self.peek_token_is(TokenType::Semicolon) {
            self.next_token();
        }
        Ok(let_statement)
    }

    /// `return EXPR ;?`.
    fn parse_return_statement(&mut self, fuel: u64) -> (r: Result<Statement, String>)
        ensures
            ({
                let m = parse_return_statement_m(old(self).ts(), old(self).pos as int, fuel as nat);
                &&& (match r {
                    Ok(st) => m.r is Ok && st.model() == m.r->Ok_0,
                    Err(e) => m.r is Err && e@ == m.r->Err_0,
                })
                &&& final(self).tokens == old(self).tokens
                &&& final(self).pos == m.pos
            }),
        decreases fuel, 3int,
    {
        if fuel == 0 {
            return Err("program nesting too deep".to_owned());
        }
        let f = fuel - 1;
        self.next_token();
        let expression = match self.parse_expression(Precedence::Lowest, f) {
            Ok(e) => e,
            Err(e) => {
                return Err(e);
            },
        };
        let return_statement = Statement::Return(Box::new(expression));
        if self.peek_token_is(TokenType::Semicolon) {
            self.next_token();
        }
        Ok(return_statement)
    }

    /// The current identifier as an expression.
    fn parse_identifier(&mut self) -> (r: Result<Expression, String>)
        ensures
            *final(self) == *old(self),
            r is Ok,
            r->Ok_0.model() == ExprM::Ident(cur(old(self).ts(), old(self).pos as int).literal),
    {
        Ok(Expression::Ident(self.current_literal()))
    }

    /// The current integer lexeme as an expression; a lexeme that is no
    /// digit run or does not fit 32 bits is a parse error.
    #[verifier::loop_isolation(false)]
    fn parse_integer_literal(&mut self) -> (r: Result<Expression, String>)
        ensures
            *final(self) == *old(self),
            ({
                let m = int_lit_m(cur(old(self).ts(), old(self).pos as int).literal);
                match r {
                    Ok(e) => m is Ok && e.model() == ExprM::Integer(m->Ok_0),
                    Err(msg) => m is Err && msg@ == m->Err_0,
                }
            }),
    {
        let lexeme = self.current_literal();
        let ghost sv = lexeme@;
        let n = lexeme.as_str().unicode_len();
        if n == 0 {
            proof {
                assert(sv.len() == 0);
                assert(int_lit_m(sv) is Err);
                assert(int_lit_m(sv)->Err_0 == "invalid integer literal"@);
            }
            return Err("invalid integer literal".to_owned());
        }
        let mut i: usize = 0;
        while i < n
            invariant
                n == sv.len(),
                sv == lexeme@,
                i <= n,
                forall|j: int| 0 <= j < i ==> crate::lexer::spec_is_digit(#[trigger] sv[j]),
            decreases n - i,
        {
            let c = lexeme.as_str().get_char(i);
            if !Lexer::is_digit(c) {
                proof {
                    assert(!crate::lexer::spec_is_digit(sv[i as int]));
                    assert(!all_digits(sv));
                    assert(int_lit_m(sv) is Err);
                    assert(int_lit_m(sv)->Err_0 == "invalid integer literal"@);
                }
                return Err("invalid integer literal".to_owned());
            }
            i = i + 1;
        }
        proof {
            assert(all_digits(sv));
        }
        let mut acc: u64 = 0;
        let mut k: usize = 0;
        while k < n
            invariant
                n == sv.len(),
                sv == lexeme@,
                all_digits(sv),
                k <= n,
                0 <= acc <= 0x7fff_ffff,
                digits_val_h(sv, k as int, acc as int) == digits_val_h(sv, 0, 0),
            decreases n - k,
        {
            let c = lexeme.as_str().get_char(k);
            proof {
                assert(crate::lexer::spec_is_digit(sv[k as int]));
            }
            let d: u64 = (c as u64) - ('0' as u64);
            let ghost old_acc = acc as int;
            let ghost old_k = k as int;
            acc = acc * 10 + d;
            k = k + 1;
            proof {
                assert(digits_val_h(sv, old_k, old_acc) == digits_val_h(
                    sv,
                    old_k + 1,
                    old_acc * 10 + ((sv[old_k] as int) - ('0' as int)),
                ));
                assert(digits_val_h(sv, k as int, acc as int) == digits_val_h(sv, 0, 0));
            }
            if acc > 0x7fff_ffff {
                proof {
                    lemma_digits_val_h_ge(sv, k as int, acc as int);
                    assert(digits_val_h(sv, 0, 0) > i32::MAX);
                    assert(int_lit_m(sv) is Err);
                    assert(int_lit_m(sv)->Err_0 == "integer literal out of range"@);
                }
                return Err("integer literal out of range".to_owned());
            }
        }
        proof {
            assert(digits_val_h(sv, 0, 0) == acc as int);
        }
        Ok(Expression::Integer(acc as i32))
    }

    /// `true` or `false` as an expression.
    fn parse_boolean_literal(&mut self) -> (r: Result<Expression, String>)
        ensures
            *final(self) == *old(self),
            r is Ok,
            r->Ok_0.model() == ExprM::Boolean(
                cur(old(self).ts(), old(self).pos as int).kind == TokenType::True,
            ),
    {
        Ok(Expression::Boolean(self.current_token_is(TokenType::True)))
    }

    /// The current string lexeme as an expression.
    fn parse_string_literal(&mut self) -> (r: Result<Expression, String>)
        ensures
            *final(self) == *old(self),
            r is Ok,
            r->Ok_0.model() == ExprM::String(cur(old(self).ts(), old(self).pos as int).literal),
    {
        Ok(Expression::String(self.current_literal()))
    }

    /// `( EXPR )`.
    fn parse_grouped_expression(&mut self, fuel: u64) -> (r: Result<Expression, String>)
        ensures
            ({
                let m = parse_prefix_dispatch_m(old(self).ts(), old(self).pos as int, fuel as nat);
                cur(old(self).ts(), old(self).pos as int).kind == TokenType::Lparen && fuel > 0
                    ==> {
                    &&& (match r {
                        Ok(e) => m.r is Ok && e.model() == m.r->Ok_0,
                        Err(msg) => m.r is Err && msg@ == m.r->Err_0,
                    })
                    &&& final(self).tokens == old(self).tokens
                    &&& final(self).pos == m.pos
                }
            }),
        decreases fuel, 2int,
    {
        if fuel == 0 {
            return Err("program nesting too deep".to_owned());
        }
        let f = fuel - 1;
        self.next_token();
        let grouped_expression = match self.parse_expression(Precedence::Lowest, f) {
            Ok(e) => e,
            Err(e) => {
                return Err(e);
            },
        };
        if !self.expect_peek_token(TokenType::Rparen) {
            return Err(self.parsing_error("Expected closing )"));
        }
        Ok(grouped_expression)
    }

    /// `if ( EXPR ) { BLOCK } (else { BLOCK })?`.
    #[verifier::rlimit(100)]
    fn parse_if_expression(&mut self, fuel: u64) -> (r: Result<Expression, String>)
        ensures
            ({
                let m = parse_if_m(old(self).ts(), old(self).pos as int, fuel as nat);
                &&& (match r {
                    Ok(e) => m.r is Ok && e.model() == m.r->Ok_0,
                    Err(msg) => m.r is Err && msg@ == m.r->Err_0,
                })
                &&& final(self).tokens == old(self).tokens
                &&& final(self).pos == m.pos
            }),
        decreases fuel, 3int,
    {
        if fuel == 0 {
            return Err("program nesting too deep".to_owned());
        }
        let f = fuel - 1;
        if !self.expect_peek_token(TokenType::Lparen) {
            return Err(self.parsing_error("Expected a ("));
        }
        self.next_token();
        let condition = match self.parse_expression(Precedence::Lowest, f) {
            Ok(e) => e,
            Err(e) => {
                return Err(e);
            },
        };
        if !self.expect_peek_token(TokenType::Rparen) {
            return Err(self.parsing_error("Expected a )"));
        }
        if !self.expect_peek_token(TokenType::Lbrace) {
            return Err(self.parsing_error("Expected a {"));
        }
        let then_statement = match self.parse_block_statement(f) {
            Ok(b) => b,
            Err(e) => {
                return Err(e);
            },
        };
        if self.peek_token_is(TokenType::Else) {
            self.next_token();
            if !self.expect_peek_token(TokenType::Lbrace) {
                return Err(self.parsing_error("Expected a {"));
            }
            let else_statement = match self.parse_block_statement(f) {
                Ok(b) => b,
                Err(e) => {
                    return Err(e);
                },
            };
            return Ok(
                Expression::If(Box::new(condition), then_statement, Some(else_statement)),
            );
        }
        Ok(Expression::If(Box::new(condition), then_statement, None))
    }

    /// `while ( EXPR ) { BLOCK }`.
    fn parse_while_expression(&mut self, fuel: u64) -> (r: Result<Expression, String>)
        ensures
            ({
                let m = parse_while_m(old(self).ts(), old(self).pos as int, fuel as nat);
                &&& (match r {
                    Ok(e) => m.r is Ok && e.model() == m.r->Ok_0,
                    Err(msg) => m.r is Err && msg@ == m.r->Err_0,
                })
                &&& final(self).tokens == old(self).tokens
                &&& final(self).pos == m.pos
            }),
        decreases fuel, 3int,
    {
        if fuel == 0 {
            return Err("program nesting too deep".to_owned());
        }
        let f = fuel - 1;
        if !self.expect_peek_token(TokenType::Lparen) {
            return Err(self.parsing_error("Expected a ("));
        }
        self.next_token();
        let condition = match self.parse_expression(Precedence::Lowest, f) {
            Ok(e) => e,
            Err(e) => {
                return Err(e);
            },
        };
        if !self.expect_peek_token(TokenType::Rparen) {
            return Err(self.parsing_error("Expected a )"));
        }
        if !self.expect_peek_token(TokenType::Lbrace) {
            return Err(self.parsing_error("Expected a {"));
        }
        let while_statement = match self.parse_block_statement(f) {
            Ok(b) => b,
            Err(e) => {
                return Err(e);
            },
        };
        Ok(Expression::While(Box::new(condition), while_statement))
    }

    /// The comma-separated parameter names of a function literal.
    fn parse_function_parameters(&mut self, fuel: u64) -> (r: Result<Vec<String>, String>)
        ensures
            ({
                let m = parse_function_parameters_m(
                    old(self).ts(),
                    old(self).pos as int,
                    fuel as nat,
                );
                &&& (match r {
                    Ok(ps) => m.r is Ok && crate::expression::params_model(ps@) == m.r->Ok_0,
                    Err(msg) => m.r is Err && msg@ == m.r->Err_0,
                })
                &&& final(self).tokens == old(self).tokens
                &&& final(self).pos == m.pos
            }),
        decreases fuel, 3int,
    {
        if fuel == 0 {
            return Err("program nesting too deep".to_owned());
        }
        let f = fuel - 1;
        let mut parameters: Vec<String> = Vec::new();
        if self.peek_token_is(TokenType::Rparen) {
            self.next_token();
            proof {
                assert(crate::expression::params_model(parameters@) =~= Seq::<Seq<char>>::empty());
            }
            return Ok(parameters);
        }
        self.next_token();
        parameters.push(self.current_literal());
        proof {
            assert(crate::expression::params_model(parameters@) =~= seq![
                cur(self.ts(), self.pos as int).literal,
            ]);
        }
        self.parse_params_rest(parameters, Ghost(crate::expression::params_model(parameters@)), f)
    }

    /// The tail of a parameter list: `, IDENT`* then `)`.
    fn parse_params_rest(
        &mut self,
        acc: Vec<String>,
        Ghost(a0): Ghost<Seq<Seq<char>>>,
        fuel: u64,
    ) -> (r: Result<Vec<String>, String>)
        requires
            crate::expression::params_model(acc@) == a0,
        ensures
            ({
                let m = parse_params_loop_m(
                    old(self).ts(),
                    old(self).pos as int,
                    a0,
                    fuel as nat,
                );
                &&& (match r {
                    Ok(ps) => m.r is Ok && crate::expression::params_model(ps@) == m.r->Ok_0,
                    Err(msg) => m.r is Err && msg@ == m.r->Err_0,
                })
                &&& final(self).tokens == old(self).tokens
                &&& final(self).pos == m.pos
            }),
        decreases fuel, 3int,
    {
        if fuel == 0 {
            return Err("program nesting too deep".to_owned());
        }
        let f = fuel - 1;
        if self.peek_token_is(TokenType::Comma) {
            self.next_token();
            self.next_token();
            let mut acc2 = acc;
            let lit = self.current_literal();
            let ghost lm = lit@;
            acc2.push(lit);
            proof {
                let ts0 = old(self).ts();
                let p0 = old(self).pos as int;
                assert(crate::expression::params_model(acc2@) =~= a0.push(lm));
                assert(self.pos == nxt(ts0, nxt(ts0, p0)));
                assert(lm == cur(ts0, nxt(ts0, nxt(ts0, p0))).literal);
                assert(parse_params_loop_m(ts0, p0, a0, fuel as nat) == parse_params_loop_m(
                    ts0,
                    nxt(ts0, nxt(ts0, p0)),
                    a0.push(lm),
                    f as nat,
                ));
            }
            self.parse_params_rest(acc2, Ghost(crate::expression::params_model(acc2@)), f)
        } else if self.peek_token_is(TokenType::Rparen) {
            self.next_token();
            Ok(acc)
        } else {
            Err(self.parsing_error("Expected a )"))
        }
    }

    /// `fn ( PARAMS ) { BLOCK }`.
    fn parse_function_literal(&mut self, fuel: u64) -> (r: Result<Expression, String>)
        ensures
            ({
                let m = parse_function_literal_m(old(self).ts(), old(self).pos as int, fuel as nat);
                &&& (match r {
                    Ok(e) => m.r is Ok && e.model() == m.r->Ok_0,
                    Err(msg) => m.r is Err && msg@ == m.r->Err_0,
                })
                &&& final(self).tokens == old(self).tokens
                &&& final(self).pos == m.pos
            }),
        decreases fuel, 3int,
    {
        if fuel == 0 {
            return Err("program nesting too deep".to_owned());
        }
        let f = fuel - 1;
        if !self.expect_peek_token(TokenType::Lparen) {
            return Err(self.parsing_error("Expected a ("));
        }
        let parameter = match self.parse_function_parameters(f) {
            Ok(ps) => ps,
            Err(e) => {
                return Err(e);
            },
        };
        if !self.expect_peek_token(TokenType::Lbrace) {
            return Err(self.parsing_error("Expected a {"));
        }
        let body = match self.parse_block_statement(f) {
            Ok(b) => b,
            Err(e) => {
                return Err(e);
            },
        };
        Ok(Expression::Function(parameter, body))
    }

    /// The elements of an array literal, comma-separated up to `]`.
    fn parse_expression_array(&mut self, fuel: u64) -> (r: Result<Vec<Expression>, String>)
        ensures
            ({
                let m = parse_expr_list_m(
                    old(self).ts(),
                    old(self).pos as int,
                    TokenType::Rbracket,
                    "Expected ]"@,
                    fuel as nat,
                );
                &&& (match r {
                    Ok(es) => m.r is Ok && crate::expression::exprs_model(es@) == m.r->Ok_0,
                    Err(msg) => m.r is Err && msg@ == m.r->Err_0,
                })
                &&& final(self).tokens == old(self).tokens
                &&& final(self).pos == m.pos
            }),
        decreases fuel, 1int,
    {
        self.parse_expression_list(TokenType::Rbracket, "Expected ]", fuel)
    }

    /// The arguments of a call, comma-separated up to `)`.
    fn parse_call_arguments(&mut self, fuel: u64) -> (r: Result<Vec<Expression>, String>)
        ensures
            ({
                let m = parse_expr_list_m(
                    old(self).ts(),
                    old(self).pos as int,
                    TokenType::Rparen,
                    "Expected )"@,
                    fuel as nat,
                );
                &&& (match r {
                    Ok(es) => m.r is Ok && crate::expression::exprs_model(es@) == m.r->Ok_0,
                    Err(msg) => m.r is Err && msg@ == m.r->Err_0,
                })
                &&& final(self).tokens == old(self).tokens
                &&& final(self).pos == m.pos
            }),
        decreases fuel, 1int,
    {
        self.parse_expression_list(TokenType::Rparen, "Expected )", fuel)
    }

    /// A comma-separated expression list closed by `term`.
    fn parse_expression_list(&mut self, term: TokenType, msg: &str, fuel: u64) -> (r: Result<
        Vec<Expression>,
        String,
    >)
        ensures
            ({
                let m = parse_expr_list_m(
                    old(self).ts(),
                    old(self).pos as int,
                    term,
                    msg@,
                    fuel as nat,
                );
                &&& (match r {
                    Ok(es) => m.r is Ok && crate::expression::exprs_model(es@) == m.r->Ok_0,
                    Err(e) => m.r is Err && e@ == m.r->Err_0,
                })
                &&& final(self).tokens == old(self).tokens
                &&& final(self).pos == m.pos
            }),
        decreases fuel, 0int,
    {
        if fuel == 0 {
            return Err("program nesting too deep".to_owned());
        }
        let f = fuel - 1;
        let mut array: Vec<Expression> = Vec::new();
        if self.peek_token_is(term) {
            self.next_token();
            proof {
                assert(crate::expression::exprs_model(array@) =~= Seq::<ExprM>::empty());
            }
            return Ok(array);
        }
        self.next_token();
        let first = match self.parse_expression(Precedence::Lowest, f) {
            Ok(e) => e,
            Err(e) => {
                return Err(e);
            },
        };
        let ghost fm = first.model();
        array.push(first);
        proof {
            assert(array@.drop_last() =~= Seq::<Expression>::empty());
            assert(crate::expression::exprs_model(array@) =~= seq![fm]);
        }
        self.parse_expression_list_rest(array, Ghost(crate::expression::exprs_model(array@)), term, msg, f)
    }

    /// The tail of an expression list: `, EXPR`* then the terminator.
    fn parse_expression_list_rest(
        &mut self,
        acc: Vec<Expression>,
        Ghost(a0): Ghost<Seq<ExprM>>,
        term: TokenType,
        msg: &str,
        fuel: u64,
    ) -> (r: Result<Vec<Expression>, String>)
        requires
            crate::expression::exprs_model(acc@) == a0,
        ensures
            ({
                let m = parse_expr_list_loop_m(
                    old(self).ts(),
                    old(self).pos as int,
                    a0,
                    term,
                    msg@,
                    fuel as nat,
                );
                &&& (match r {
                    Ok(es) => m.r is Ok && crate::expression::exprs_model(es@) == m.r->Ok_0,
                    Err(e) => m.r is Err && e@ == m.r->Err_0,
                })
                &&& final(self).tokens == old(self).tokens
                &&& final(self).pos == m.pos
            }),
        decreases fuel, 3int,
    {
        if fuel == 0 {
            return Err("program nesting too deep".to_owned());
        }
        let f = fuel - 1;
        if self.peek_token_is(TokenType::Comma) {
            self.next_token();
            self.next_token();
            let e = match self.parse_expression(Precedence::Lowest, f) {
                Ok(e) => e,
                Err(e2) => {
                    return Err(e2);
                },
            };
            let ghost em = e.model();
            let mut acc2 = acc;
            acc2.push(e);
            proof {
                let ts0 = old(self).ts();
                let p0 = old(self).pos as int;
                assert(crate::expression::exprs_model(acc2@) =~= a0.push(em));
                let eres = parse_expression_m(ts0, nxt(ts0, nxt(ts0, p0)), Precedence::Lowest, f as nat);
                assert(eres.r is Ok && eres.r->Ok_0 == em);
                assert(self.pos == eres.pos);
                assert(parse_expr_list_loop_m(ts0, p0, a0, term, msg@, fuel as nat)
                    == parse_expr_list_loop_m(ts0, eres.pos, a0.push(em), term, msg@, f as nat));
            }
            self.parse_expression_list_rest(acc2, Ghost(crate::expression::exprs_model(acc2@)), term, msg, f)
        } else if self.peek_token_is(term) {
            self.next_token();
            Ok(acc)
        } else {
            Err(self.parsing_error(msg))
        }
    }

    /// `[ ELEMS ]` as an array literal.
    fn parse_array_literal(&mut self, fuel: u64) -> (r: Result<Expression, String>)
        ensures
            ({
                let m = parse_expr_list_m(
                    old(self).ts(),
                    old(self).pos as int,
                    TokenType::Rbracket,
                    "Expected ]"@,
                    fuel as nat,
                );
                &&& (match r {
                    Ok(e) => m.r is Ok && e.model() == ExprM::Array(m.r->Ok_0),
                    Err(msg) => m.r is Err && msg@ == m.r->Err_0,
                })
                &&& final(self).tokens == old(self).tokens
                &&& final(self).pos == m.pos
            }),
        decreases fuel, 2int,
    {
        let array_elements = match self.parse_expression_array(fuel) {
            Ok(es) => es,
            Err(e) => {
                return Err(e);
            },
        };
        Ok(Expression::Array(array_elements))
    }

    /// One infix operator and its right operand; assignment recurses at the
    /// lowest precedence so that it associates to the right.
    fn parse_infix_expression(&mut self, left: Expression, fuel: u64) -> (r: Result<
        Expression,
        String,
    >)
        ensures
            ({
                let m = parse_infix_expression_m(
                    old(self).ts(),
                    old(self).pos as int,
                    left.model(),
                    fuel as nat,
                );
                &&& (match r {
                    Ok(e) => m.r is Ok && e.model() == m.r->Ok_0,
                    Err(msg) => m.r is Err && msg@ == m.r->Err_0,
                })
                &&& final(self).tokens == old(self).tokens
                &&& final(self).pos == m.pos
            }),
        decreases fuel, 3int,
    {
        if fuel == 0 {
            return Err("program nesting too deep".to_owned());
        }
        let f = fuel - 1;
        let k = self.current_kind();
        let operator = match k {
            TokenType::Plus => Operator::Plus,
            TokenType::Minus => Operator::Minus,
            TokenType::Asterisk => Operator::Multiply,
            TokenType::Slash => Operator::Divide,
            TokenType::Equal => Operator::Equals,
            TokenType::Notequal => Operator::Notequals,
            TokenType::Greaterthan => Operator::Greaterthan,
            TokenType::Lessthan => Operator::Lessthan,
            _ => Operator::Assign,
        };
        let precedence = if operator == Operator::Assign {
            Precedence::Lowest
        } else {
            self.current_precedence()
        };
        self.next_token();
        let right = match self.parse_expression(precedence, f) {
            Ok(e) => e,
            Err(e) => {
                return Err(e);
            },
        };
        Ok(Expression::Infix(Box::new(left), operator, Box::new(right)))
    }

    /// `CALLEE ( ARGS )`.
    fn parse_call_expression(&mut self, function: Expression, fuel: u64) -> (r: Result<
        Expression,
        String,
    >)
        ensures
            ({
                let m = parse_call_m(
                    old(self).ts(),
                    old(self).pos as int,
                    function.model(),
                    fuel as nat,
                );
                &&& (match r {
                    Ok(e) => m.r is Ok && e.model() == m.r->Ok_0,
                    Err(msg) => m.r is Err && msg@ == m.r->Err_0,
                })
                &&& final(self).tokens == old(self).tokens
                &&& final(self).pos == m.pos
            }),
        decreases fuel, 3int,
    {
        if fuel == 0 {
            return Err("program nesting too deep".to_owned());
        }
        let f = fuel - 1;
        let arguments = match self.parse_call_arguments(f) {
            Ok(a) => a,
            Err(e) => {
                return Err(e);
            },
        };
        Ok(Expression::FunctionCall(Box::new(function), arguments))
    }

    /// `ARRAY [ EXPR ]`.
    fn parse_array_index_expression(&mut self, array: Expression, fuel: u64) -> (r: Result<
        Expression,
        String,
    >)
        ensures
            ({
                let m = parse_index_m(
                    old(self).ts(),
                    old(self).pos as int,
                    array.model(),
                    fuel as nat,
                );
                &&& (match r {
                    Ok(e) => m.r is Ok && e.model() == m.r->Ok_0,
                    Err(msg) => m.r is Err && msg@ == m.r->Err_0,
                })
                &&& final(self).tokens == old(self).tokens
                &&& final(self).pos == m.pos
            }),
        decreases fuel, 3int,
    {
        if fuel == 0 {
            return Err("program nesting too deep".to_owned());
        }
        let f = fuel - 1;
        self.next_token();
        let index = match self.parse_expression(Precedence::Lowest, f) {
            Ok(e) => e,
            Err(e) => {
                return Err(e);
            },
        };
        if !self.expect_peek_token(TokenType::Rbracket) {
            return Err(self.parsing_error("Expected ]"));
        }
        Ok(Expression::ArrayIndex(Box::new(array), Box::new(index)))
    }

    /// `- EXPR` or `! EXPR`.
    fn parse_prefix_expression(&mut self, fuel: u64) -> (r: Result<Expression, String>)
        requires
            cur(old(self).ts(), old(self).pos as int).kind == TokenType::Minus || cur(
                old(self).ts(),
                old(self).pos as int,
            ).kind == TokenType::Bang,
        ensures
            ({
                let m = parse_prefix_dispatch_m(old(self).ts(), old(self).pos as int, fuel as nat);
                fuel > 0 ==> {
                    &&& (match r {
                        Ok(e) => m.r is Ok && e.model() == m.r->Ok_0,
                        Err(msg) => m.r is Err && msg@ == m.r->Err_0,
                    })
                    &&& final(self).tokens == old(self).tokens
                    &&& final(self).pos == m.pos
                }
            }),
        decreases fuel, 2int,
    {
        if fuel == 0 {
            return Err("program nesting too deep".to_owned());
        }
        let f = fuel - 1;
        let prefix = match self.current_kind() {
            TokenType::Minus => Prefix::Minus,
            TokenType::Bang => Prefix::Bang,
            _ => {
                return Err(self.parsing_error("only ! and - allowed as prefix"));
            },
        };
        self.next_token();
        let expression = match self.parse_expression(Precedence::Prefix, f) {
            Ok(e) => e,
            Err(e) => {
                return Err(e);
            },
        };
        Ok(Expression::Prefix(prefix, Box::new(expression)))
    }

    /// The prefix dispatch on the current token kind.
    #[verifier::rlimit(100)]
    fn parse_prefix_dispatch(&mut self, fuel: u64) -> (r: Result<Expression, String>)
        ensures
            ({
                let m = parse_prefix_dispatch_m(old(self).ts(), old(self).pos as int, fuel as nat);
                &&& (match r {
                    Ok(e) => m.r is Ok && e.model() == m.r->Ok_0,
                    Err(msg) => m.r is Err && msg@ == m.r->Err_0,
                })
                &&& final(self).tokens == old(self).tokens
                &&& final(self).pos == m.pos
            }),
        decreases fuel, 3int,
    {
        if fuel == 0 {
            return Err("program nesting too deep".to_owned());
        }
        let f = fuel - 1;
        match self.current_kind() {
            TokenType::Ident => self.parse_identifier(),
            TokenType::Int => self.parse_integer_literal(),
            TokenType::True => self.parse_boolean_literal(),
            TokenType::False => self.parse_boolean_literal(),
            TokenType::String => self.parse_string_literal(),
            TokenType::Minus => self.parse_prefix_expression(fuel),
            TokenType::Bang => self.parse_prefix_expression(fuel),
            TokenType::Lparen => self.parse_grouped_expression(fuel),
            TokenType::If => self.parse_if_expression(f),
            TokenType::While => self.parse_while_expression(f),
            TokenType::Function => self.parse_function_literal(f),
            TokenType::Lbracket => self.parse_array_literal(f),
            _ => {
                let mut msg = "Unknown prefix expression : ".to_owned();
                let lit = self.current_literal();
                msg.append(lit.as_str());
                Err(self.parsing_error(msg.as_str()))
            },
        }
    }

    /// Pratt expression parsing at a precedence.
    #[verifier::rlimit(100)]
    fn parse_expression(&mut self, precedence: Precedence, fuel: u64) -> (r: Result<
        Expression,
        String,
    >)
        ensures
            ({
                let m = parse_expression_m(
                    old(self).ts(),
                    old(self).pos as int,
                    precedence,
                    fuel as nat,
                );
                &&& (match r {
                    Ok(e) => m.r is Ok && e.model() == m.r->Ok_0,
                    Err(msg) => m.r is Err && msg@ == m.r->Err_0,
                })
                &&& final(self).tokens == old(self).tokens
                &&& final(self).pos == m.pos
            }),
        decreases fuel, 3int,
    {
        if fuel == 0 {
            return Err("program nesting too deep".to_owned());
        }
        let f = fuel - 1;
        let left = match self.parse_prefix_dispatch(f) {
            Ok(e) => e,
            Err(e) => {
                return Err(e);
            },
        };
        self.parse_infix_fold(left, precedence, f)
    }

    /// The Pratt fold: extend the left expression while the peek token is a
    /// non-semicolon infix operator binding strictly tighter.
    #[verifier::rlimit(100)]
    fn parse_infix_fold(&mut self, left: Expression, precedence: Precedence, fuel: u64) -> (r:
        Result<Expression, String>)
        ensures
            ({
                let m = parse_infix_loop_m(
                    old(self).ts(),
                    old(self).pos as int,
                    left.model(),
                    precedence,
                    fuel as nat,
                );
                &&& (match r {
                    Ok(e) => m.r is Ok && e.model() == m.r->Ok_0,
                    Err(msg) => m.r is Err && msg@ == m.r->Err_0,
                })
                &&& final(self).tokens == old(self).tokens
                &&& final(self).pos == m.pos
            }),
        decreases fuel, 3int,
    {
        if fuel == 0 {
            return Err("program nesting too deep".to_owned());
        }
        let f = fuel - 1;
        let pk = self.peek_kind();
        let is_infix = match pk {
            TokenType::Plus => true,
            TokenType::Minus => true,
            TokenType::Asterisk => true,
            TokenType::Slash => true,
            TokenType::Equal => true,
            TokenType::Notequal => true,
            TokenType::Greaterthan => true,
            TokenType::Lessthan => true,
            TokenType::Assign => true,
            TokenType::Lparen => true,
            TokenType::Lbracket => true,
            _ => false,
        };
        if pk != TokenType::Semicolon && precedence.rank() < self.peek_precedence().rank()
            && is_infix {
            self.next_token();
            let step = if pk == TokenType::Lparen {
                self.parse_call_expression(left, f)
            } else if pk == TokenType::Lbracket {
                self.parse_array_index_expression(left, f)
            } else {
                self.parse_infix_expression(left, f)
            };
            let bigger = match step {
                Ok(e) => e,
                Err(e) => {
                    return Err(e);
                },
            };
            self.parse_infix_fold(bigger, precedence, f)
        } else {
            Ok(left)
        }
    }

    /// An expression as a statement, optional semicolon consumed.
    fn parse_expression_statement(&mut self, fuel: u64) -> (r: Result<Statement, String>)
        ensures
            ({
                let m = parse_expression_statement_m(
                    old(self).ts(),
                    old(self).pos as int,
                    fuel as nat,
                );
                &&& (match r {
                    Ok(st) => m.r is Ok && st.model() == m.r->Ok_0,
                    Err(e) => m.r is Err && e@ == m.r->Err_0,
                })
                &&& final(self).tokens == old(self).tokens
                &&& final(self).pos == m.pos
            }),
        decreases fuel, 3int,
    {
        if fuel == 0 {
            return Err("program nesting too deep".to_owned());
        }
        let f = fuel - 1;
        let expression = match self.parse_expression(Precedence::Lowest, f) {
            Ok(e) => e,
            Err(e) => {
                return Err(e);
            },
        };
        let expression_statement = Statement::ExpressionStatement(Box::new(expression));
        if self.peek_token_is(TokenType::Semicolon) {
            self.next_token();
        }
        Ok(expression_statement)
    }

    /// `{ STMT* }`, ending on the closing brace or the end of input.
    fn parse_block_statement(&mut self, fuel: u64) -> (r: Result<Statement, String>)
        ensures
            ({
                let m = parse_block_m(old(self).ts(), old(self).pos as int, fuel as nat);
                &&& (match r {
                    Ok(st) => m.r is Ok && st.model() == m.r->Ok_0,
                    Err(e) => m.r is Err && e@ == m.r->Err_0,
                })
                &&& final(self).tokens == old(self).tokens
                &&& final(self).pos == m.pos
            }),
        decreases fuel, 3int,
    {
        if fuel == 0 {
            return Err("program nesting too deep".to_owned());
        }
        let f = fuel - 1;
        self.next_token();
        let statements: Vec<Statement> = Vec::new();
        proof {
            assert(crate::statement::stmts_model(statements@) =~= Seq::<StmtM>::empty());
        }
        self.parse_block_rest(statements, Ghost(crate::statement::stmts_model(statements@)), f)
    }

    /// The statements of a block up to its closing brace.
    #[verifier::rlimit(100)]
    fn parse_block_rest(
        &mut self,
        acc: Vec<Statement>,
        Ghost(a0): Ghost<Seq<StmtM>>,
        fuel: u64,
    ) -> (r: Result<Statement, String>)
        requires
            crate::statement::stmts_model(acc@) == a0,
        ensures
            ({
                let m = parse_block_loop_m(
                    old(self).ts(),
                    old(self).pos as int,
                    a0,
                    fuel as nat,
                );
                &&& (match r {
                    Ok(st) => m.r is Ok && st.model() == m.r->Ok_0,
                    Err(e) => m.r is Err && e@ == m.r->Err_0,
                })
                &&& final(self).tokens == old(self).tokens
                &&& final(self).pos == m.pos
            }),
        decreases fuel, 3int,
    {
        if fuel == 0 {
            return Err("program nesting too deep".to_owned());
        }
        let f = fuel - 1;
        if self.current_token_is(TokenType::Rbrace) || self.current_token_is(TokenType::Eof) {
            return Ok(Statement::BlockStatement(acc));
        }
        let statement = match self.parse_statement(f) {
            Ok(st) => st,
            Err(e) => {
                return Err(e);
            },
        };
        let ghost sm = statement.model();
        let mut acc2 = acc;
        acc2.push(statement);
        proof {
            assert(crate::statement::stmts_model(acc2@) =~= crate::statement::stmts_model(
                acc2@.drop_last(),
            ).push(sm));
        }
        self.next_token();
        proof {
            let ts0 = old(self).ts();
            let p0 = old(self).pos as int;
            assert(crate::statement::stmts_model(acc2@) =~= a0.push(sm));
            let sres = parse_statement_m(ts0, p0, f as nat);
            assert(sres.r is Ok && sres.r->Ok_0 == sm);
            assert(self.pos == nxt(ts0, sres.pos));
            assert(parse_block_loop_m(ts0, p0, a0, fuel as nat) == parse_block_loop_m(
                ts0,
                nxt(ts0, sres.pos),
                a0.push(sm),
                f as nat,
            ));
        }
        self.parse_block_rest(acc2, Ghost(crate::statement::stmts_model(acc2@)), f)
    }

    /// One statement: `let`, `return`, or an expression statement.
    fn parse_statement(&mut self, fuel: u64) -> (r: Result<Statement, String>)
        ensures
            ({
                let m = parse_statement_m(old(self).ts(), old(self).pos as int, fuel as nat);
                &&& (match r {
                    Ok(st) => m.r is Ok && st.model() == m.r->Ok_0,
                    Err(e) => m.r is Err && e@ == m.r->Err_0,
                })
                &&& final(self).tokens == old(self).tokens
                &&& final(self).pos == m.pos
            }),
        decreases fuel, 3int,
    {
        if fuel == 0 {
            return Err("program nesting too deep".to_owned());
        }
        let f = fuel - 1;
        match self.current_kind() {
            TokenType::Let => self.parse_let_statement(f),
            TokenType::Return => self.parse_return_statement(f),
            _ => self.parse_expression_statement(f),
        }
    }

    /// Parse the whole translation unit: the `Program` statement the
    /// specification-level parser describes, or its first diagnostic.
    #[verifier::rlimit(100)]
    pub fn parse_program(&mut self) -> (r: Result<Statement, String>)
        ensures
            ({
                let m = parse_program_loop_m(
                    old(self).ts(),
                    old(self).pos as int,
                    Seq::empty(),
                    parser_fuel(old(self).ts()),
                );
                match r {
                    Ok(st) => m.r is Ok && st.model() == m.r->Ok_0,
                    Err(e) => m.r is Err && e@ == m.r->Err_0,
                }
            }),
    {
        let n: u64 = self.tokens.len() as u64;
        let fuel: u64 = if n <= (u64::MAX - 64) / 16 {
            64 + 16 * n
        } else {
            u64::MAX
        };
        proof {
            assert(fuel as nat == parser_fuel(self.ts()));
        }
        let program: Vec<Statement> = Vec::new();
        proof {
            assert(crate::statement::stmts_model(program@) =~= Seq::<StmtM>::empty());
        }
        self.parse_program_rest(program, Ghost(crate::statement::stmts_model(program@)), fuel)
    }

    /// The statements of the program up to `Eof`.
    #[verifier::rlimit(100)]
    fn parse_program_rest(
        &mut self,
        acc: Vec<Statement>,
        Ghost(a0): Ghost<Seq<StmtM>>,
        fuel: u64,
    ) -> (r: Result<Statement, String>)
        requires
            crate::statement::stmts_model(acc@) == a0,
        ensures
            ({
                let m = parse_program_loop_m(
                    old(self).ts(),
                    old(self).pos as int,
                    a0,
                    fuel as nat,
                );
                &&& (match r {
                    Ok(st) => m.r is Ok && st.model() == m.r->Ok_0,
                    Err(e) => m.r is Err && e@ == m.r->Err_0,
                })
                &&& final(self).tokens == old(self).tokens
                &&& final(self).pos == m.pos
            }),
        decreases fuel, 3int,
    {
        if fuel == 0 {
            return Err("program nesting too deep".to_owned());
        }
        let f = fuel - 1;
        if self.current_token_is(TokenType::Eof) {
            return Ok(Statement::Program(acc));
        }
        let statement = match self.parse_statement(f) {
            Ok(st) => st,
            Err(e) => {
                return Err(e);
            },
        };
        let ghost sm = statement.model();
        let mut acc2 = acc;
        acc2.push(statement);
        proof {
            assert(crate::statement::stmts_model(acc2@) =~= crate::statement::stmts_model(
                acc2@.drop_last(),
            ).push(sm));
        }
        self.next_token();
        proof {
            let ts0 = old(self).ts();
            let p0 = old(self).pos as int;
            assert(crate::statement::stmts_model(acc2@) =~= a0.push(sm));
            let sres = parse_statement_m(ts0, p0, f as nat);
            assert(sres.r is Ok && sres.r->Ok_0 == sm);
            assert(self.pos == nxt(ts0, sres.pos));
            assert(parse_program_loop_m(ts0, p0, a0, fuel as nat) == parse_program_loop_m(
                ts0,
                nxt(ts0, sres.pos),
                a0.push(sm),
                f as nat,
            ));
        }
        self.parse_program_rest(acc2, Ghost(crate::statement::stmts_model(acc2@)), f)
    }
}


} // verus!
