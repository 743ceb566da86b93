use crate::token::Token;
use crate::token::TokenM;
use crate::token::TokenType;
use crate::tokeninfo::TokenInfo;
use vstd::prelude::*;
use vstd::string::StrSliceExecFns;

verus! {

/// The lexer: a cursor over the source text.
///
/// `position` indexes the current character `ch`; `read_position` is one
/// past it while characters remain and equal to it at the end of input.
/// `line` is the 1-based line of the cursor and `col` the index of the
/// first character of that line, so a token starting at index `s` sits at
/// 1-based column `s + 1 - col`.
#[derive(Debug, Clone, PartialEq)]
pub struct Lexer {
    pub input: String,
    pub position: usize,
    pub read_position: usize,
    pub line: usize,
    pub ch: char,
    pub col: usize,
}

/// The model of the lexer's cursor: its position, line, and line start.
pub struct LexSt {
    pub pos: int,
    pub line: int,
    pub col: int,
}

/// The character at `pos`, with NUL standing for the end of the input.
pub open spec fn char_at(input: Seq<char>, pos: int) -> char {
    if 0 <= pos < input.len() {
        input[pos]
    } else {
        '\0'
    }
}

/// Whitespace skipped between tokens: spaces, tabs, and line ends.
pub open spec fn spec_is_ws(c: char) -> bool {
    c == ' ' || c == '\t' || c == '\n' || c == '\r'
}

/// Identifier characters: ASCII letters and underscore, no digits.
pub open spec fn spec_is_letter(c: char) -> bool {
    ('A' <= c && c <= 'Z') || ('a' <= c && c <= 'z') || c == '_'
}

pub open spec fn spec_is_digit(c: char) -> bool {
    '0' <= c && c <= '9'
}

/// A well-formed cursor: inside the input, on a line that started at or
/// before it.
pub open spec fn st_wf(input: Seq<char>, st: LexSt) -> bool {
    &&& 0 <= st.pos <= input.len()
    &&& 1 <= st.line <= st.pos + 1
    &&& 0 <= st.col <= st.pos
}

/// Skipping whitespace: advance until the current character is not
/// whitespace, counting lines and recording each line's start.
pub open spec fn spec_skip_ws(input: Seq<char>, st: LexSt) -> LexSt
    decreases input.len() - st.pos,
{
    let c = char_at(input, st.pos);
    if spec_is_ws(c) && 0 <= st.pos < input.len() {
        let st2 = if c == '\n' {
            LexSt { pos: st.pos + 1, line: st.line + 1, col: st.pos + 1 }
        } else {
            LexSt { pos: st.pos + 1, line: st.line, col: st.col }
        };
        spec_skip_ws(input, st2)
    } else {
        st
    }
}

/// The end of the letter run starting at `pos`.
pub open spec fn letter_run_end(input: Seq<char>, pos: int) -> int
    decreases input.len() - pos,
{
    if 0 <= pos < input.len() && spec_is_letter(input[pos]) {
        letter_run_end(input, pos + 1)
    } else {
        pos
    }
}

/// The end of the digit run starting at `pos`.
pub open spec fn digit_run_end(input: Seq<char>, pos: int) -> int
    decreases input.len() - pos,
{
    if 0 <= pos < input.len() && spec_is_digit(input[pos]) {
        digit_run_end(input, pos + 1)
    } else {
        pos
    }
}

/// The index of the character that terminates a string literal whose body
/// starts at `pos`: the next quote, or a NUL, or the end of the input.
pub open spec fn string_run_end(input: Seq<char>, pos: int) -> int
    decreases input.len() - pos,
{
    if 0 <= pos < input.len() && input[pos] != '"' && input[pos] != '\0' {
        string_run_end(input, pos + 1)
    } else {
        pos
    }
}

/// Keyword disambiguation: the eight keywords produce their keyword kinds;
/// any other lexeme is an `Ident`.
pub open spec fn keyword_kind(lexeme: Seq<char>) -> TokenType {
    if lexeme == "let"@ {
        TokenType::Let
    } else if lexeme == "fn"@ {
        TokenType::Function
    } else if lexeme == "true"@ {
        TokenType::True
    } else if lexeme == "false"@ {
        TokenType::False
    } else if lexeme == "if"@ {
        TokenType::If
    } else if lexeme == "else"@ {
        TokenType::Else
    } else if lexeme == "return"@ {
        TokenType::Return
    } else if lexeme == "while"@ {
        TokenType::While
    } else {
        TokenType::Ident
    }
}

/// The token whose lexeme is `input[start .. end]`, read on the line
/// described by `st`.
pub open spec fn tok_at(
    input: Seq<char>,
    st: LexSt,
    kind: TokenType,
    start: int,
    end: int,
) -> TokenM {
    TokenM { kind, literal: input.subrange(start, end), line: st.line, col: start + 1 - st.col }
}

/// The `Eof` token carries no lexeme and no position.
pub open spec fn eof_tok() -> TokenM {
    TokenM { kind: TokenType::Eof, literal: Seq::empty(), line: 0, col: 0 }
}

/// One token together with the cursor left after it.
pub struct TokRes {
    pub tok: TokenM,
    pub st: LexSt,
}

/// The single-token step of the lexer: skip whitespace, then read one token
/// at the cursor. `=` and `!` look one character ahead for `==` and `!=`;
/// letter runs become keywords or identifiers; digit runs become `Int`;
/// a quote opens a string literal whose closing quote is consumed but not
/// part of the lexeme; NUL (and hence the end of input) yields `Eof`; any
/// other character is an `Illegal` token.
pub open spec fn spec_next_token(input: Seq<char>, st: LexSt) -> TokRes {
    let st1 = spec_skip_ws(input, st);
    let p = st1.pos;
    let c = char_at(input, p);
    if c == '\0' {
        TokRes { tok: eof_tok(), st: st1 }
    } else if c == '=' {
        if char_at(input, p + 1) == '=' {
            TokRes {
                tok: tok_at(input, st1, TokenType::Equal, p, p + 2),
                st: LexSt { pos: p + 2, ..st1 },
            }
        } else {
            TokRes {
                tok: tok_at(input, st1, TokenType::Assign, p, p + 1),
                st: LexSt { pos: p + 1, ..st1 },
            }
        }
    } else if c == '!' {
        if char_at(input, p + 1) == '=' {
            TokRes {
                tok: tok_at(input, st1, TokenType::Notequal, p, p + 2),
                st: LexSt { pos: p + 2, ..st1 },
            }
        } else {
            TokRes {
                tok: tok_at(input, st1, TokenType::Bang, p, p + 1),
                st: LexSt { pos: p + 1, ..st1 },
            }
        }
    } else if c == '"' {
        let start = p + 1;
        let e = string_run_end(input, start);
        let after = if e < input.len() {
            e + 1
        } else {
            e
        };
        TokRes {
            tok: tok_at(input, st1, TokenType::String, start, e),
            st: LexSt { pos: after, ..st1 },
        }
    } else if spec_is_letter(c) {
        let e = letter_run_end(input, p);
        TokRes {
            tok: tok_at(input, st1, keyword_kind(input.subrange(p, e)), p, e),
            st: LexSt { pos: e, ..st1 },
        }
    } else if spec_is_digit(c) {
        let e = digit_run_end(input, p);
        TokRes {
            tok: tok_at(input, st1, TokenType::Int, p, e),
            st: LexSt { pos: e, ..st1 },
        }
    } else {
        let kind = if c == ';' {
            TokenType::Semicolon
        } else if c == '(' {
            TokenType::Lparen
        } else if c == ')' {
            TokenType::Rparen
        } else if c == ',' {
            TokenType::Comma
        } else if c == '+' {
            TokenType::Plus
        } else if c == '-' {
            TokenType::Minus
        } else if c == '*' {
            TokenType::Asterisk
        } else if c == '/' {
            TokenType::Slash
        } else if c == '<' {
            TokenType::Lessthan
        } else if c == '>' {
            TokenType::Greaterthan
        } else if c == '{' {
            TokenType::Lbrace
        } else if c == '}' {
            TokenType::Rbrace
        } else if c == '[' {
            TokenType::Lbracket
        } else if c == ']' {
            TokenType::Rbracket
        } else {
            TokenType::Illegal
        };
        TokRes { tok: tok_at(input, st1, kind, p, p + 1), st: LexSt { pos: p + 1, ..st1 } }
    }
}

pub proof fn lemma_skip_ws(input: Seq<char>, st: LexSt)
    requires
        st_wf(input, st),
    ensures
        ({
            let st1 = spec_skip_ws(input, st);
            &&& st_wf(input, st1)
            &&& st.pos <= st1.pos
            &&& !spec_is_ws(char_at(input, st1.pos))
        }),
    decreases input.len() - st.pos,
{
    let c = char_at(input, st.pos);
    if spec_is_ws(c) && 0 <= st.pos < input.len() {
        let st2 = if c == '\n' {
            LexSt { pos: st.pos + 1, line: st.line + 1, col: st.pos + 1 }
        } else {
            LexSt { pos: st.pos + 1, line: st.line, col: st.col }
        };
        lemma_skip_ws(input, st2);
    }
}

pub proof fn lemma_letter_run_end(input: Seq<char>, pos: int)
    requires
        0 <= pos <= input.len(),
    ensures
        pos <= letter_run_end(input, pos) <= input.len(),
    decreases input.len() - pos,
{
    if 0 <= pos < input.len() && spec_is_letter(input[pos]) {
        lemma_letter_run_end(input, pos + 1);
    }
}

pub proof fn lemma_digit_run_end(input: Seq<char>, pos: int)
    requires
        0 <= pos <= input.len(),
    ensures
        pos <= digit_run_end(input, pos) <= input.len(),
    decreases input.len() - pos,
{
    if 0 <= pos < input.len() && spec_is_digit(input[pos]) {
        lemma_digit_run_end(input, pos + 1);
    }
}

pub proof fn lemma_string_run_end(input: Seq<char>, pos: int)
    requires
        0 <= pos <= input.len(),
    ensures
        pos <= string_run_end(input, pos) <= input.len(),
    decreases input.len() - pos,
{
    if 0 <= pos < input.len() && input[pos] != '"' && input[pos] != '\0' {
        lemma_string_run_end(input, pos + 1);
    }
}

/// Lexing makes progress: each token leaves a well-formed cursor, never
/// moves backwards, and moves strictly forwards unless it produced `Eof`.
pub proof fn lemma_next_token_progress(input: Seq<char>, st: LexSt)
    requires
        st_wf(input, st),
    ensures
        ({
            let r = spec_next_token(input, st);
            &&& st_wf(input, r.st)
            &&& st.pos <= r.st.pos
            &&& (r.tok.kind != TokenType::Eof ==> r.st.pos > st.pos)
        }),
{
    lemma_skip_ws(input, st);
    let st1 = spec_skip_ws(input, st);
    let p = st1.pos;
    let c = char_at(input, p);
    if c == '\0' {
    } else if c == '=' || c == '!' {
    } else if c == '"' {
        lemma_string_run_end(input, p + 1);
    } else if spec_is_letter(c) {
        lemma_letter_run_end(input, p + 1);
    } else if spec_is_digit(c) {
        lemma_digit_run_end(input, p + 1);
    }
}

/// The whole token stream from a cursor: tokens up to and including the
/// first `Eof`.
pub open spec fn spec_tokens_from(input: Seq<char>, st: LexSt) -> Seq<TokenM>
    decreases input.len() - st.pos,
        when st_wf(input, st)
        via spec_tokens_from_decreases
{
    let r = spec_next_token(input, st);
    if r.tok.kind == TokenType::Eof {
        seq![r.tok]
    } else {
        seq![r.tok] + spec_tokens_from(input, r.st)
    }
}

#[via_fn]
proof fn spec_tokens_from_decreases(input: Seq<char>, st: LexSt) {
    lemma_next_token_progress(input, st);
}

/// The cursor at the start of a source string.
pub open spec fn initial_st() -> LexSt {
    LexSt { pos: 0, line: 1, col: 0 }
}

/// The token stream of a whole source string.
pub open spec fn spec_tokens(input: Seq<char>) -> Seq<TokenM> {
    spec_tokens_from(input, initial_st())
}

/// The token stream of every source string ends with exactly one `Eof`.
pub proof fn lemma_tokens_end_with_one_eof(input: Seq<char>)
    ensures
        spec_tokens(input).len() >= 1,
        spec_tokens(input).last().kind == TokenType::Eof,
        forall|i: int|
            0 <= i < spec_tokens(input).len() - 1 ==> (#[trigger] spec_tokens(
                input,
            )[i]).kind != TokenType::Eof,
{
    lemma_tokens_from_end_with_one_eof(input, initial_st());
}

pub proof fn lemma_tokens_from_end_with_one_eof(input: Seq<char>, st: LexSt)
    requires
        st_wf(input, st),
    ensures
        spec_tokens_from(input, st).len() >= 1,
        spec_tokens_from(input, st).last().kind == TokenType::Eof,
        forall|i: int|
            0 <= i < spec_tokens_from(input, st).len() - 1 ==> (#[trigger] spec_tokens_from(
                input,
                st,
            )[i]).kind != TokenType::Eof,
    decreases input.len() - st.pos,
{
    lemma_next_token_progress(input, st);
    let r = spec_next_token(input, st);
    if r.tok.kind != TokenType::Eof {
        lemma_tokens_from_end_with_one_eof(input, r.st);
    }
}

/// Keyword disambiguation over the lexer itself: wherever the cursor rests
/// on a letter, the token read is the maximal letter run, classified by
/// `keyword_kind` — the eight keywords map to their kinds and every other
/// run stays an `Ident` with the exact lexeme.
pub proof fn lemma_keyword_disambiguation(input: Seq<char>, st: LexSt)
    requires
        st_wf(input, st),
        !spec_is_ws(char_at(input, st.pos)),
        spec_is_letter(char_at(input, st.pos)),
    ensures
        ({
            let r = spec_next_token(input, st);
            let e = letter_run_end(input, st.pos);
            &&& r.tok.kind == keyword_kind(input.subrange(st.pos, e))
            &&& r.tok.literal == input.subrange(st.pos, e)
            &&& r.st.pos == e
        }),
{
}

/// `==` is lexed as a single two-character token wherever it appears.
pub proof fn lemma_double_equal_single_token(input: Seq<char>, st: LexSt)
    requires
        st_wf(input, st),
        !spec_is_ws(char_at(input, st.pos)),
        char_at(input, st.pos) == '=',
        char_at(input, st.pos + 1) == '=',
    ensures
        spec_next_token(input, st).tok.kind == TokenType::Equal,
        spec_next_token(input, st).st.pos == st.pos + 2,
{
}

/// `!=` is lexed as a single two-character token wherever it appears.
pub proof fn lemma_bang_equal_single_token(input: Seq<char>, st: LexSt)
    requires
        st_wf(input, st),
        !spec_is_ws(char_at(input, st.pos)),
        char_at(input, st.pos) == '!',
        char_at(input, st.pos + 1) == '=',
    ensures
        spec_next_token(input, st).tok.kind == TokenType::Notequal,
        spec_next_token(input, st).st.pos == st.pos + 2,
{
}

/// `=!` is lexed as `Assign` followed by `Bang`.
pub proof fn lemma_equal_bang_two_tokens(input: Seq<char>, st: LexSt)
    requires
        st_wf(input, st),
        !spec_is_ws(char_at(input, st.pos)),
        char_at(input, st.pos) == '=',
        char_at(input, st.pos + 1) == '!',
        char_at(input, st.pos + 2) != '=',
    ensures
        ({
            let r1 = spec_next_token(input, st);
            let r2 = spec_next_token(input, r1.st);
            &&& r1.tok.kind == TokenType::Assign
            &&& r2.tok.kind == TokenType::Bang
        }),
{
}

impl Lexer {
    /// The cursor described by the lexer's fields.
    pub open spec fn st(self) -> LexSt {
        LexSt { pos: self.position as int, line: self.line as int, col: self.col as int }
    }

    /// The derived fields agree with the cursor: `ch` is the character at
    /// `position` and `read_position` trails one past it.
    pub open spec fn wf(self) -> bool {
        &&& self.input@.len() < usize::MAX
        &&& st_wf(self.input@, self.st())
        &&& self.ch == char_at(self.input@, self.position as int)
        &&& self.read_position == if self.position < self.input@.len() {
            self.position + 1
        } else {
            self.position as int
        }
    }

    /// A lexer at the start of `input`, with the first character loaded.
    pub fn new(input: String) -> (r: Self)
        requires
            input@.len() < usize::MAX,
        ensures
            r.wf(),
            r.input@ == input@,
            r.st() == initial_st(),
    {
        let mut lexer = Lexer {
            input,
            position: 0,
            read_position: 0,
            line: 1,
            col: 0,
            ch: '\0',
        };
        lexer.read_char();
        lexer
    }

    /// Reset the lexer to the start of a new source string.
    pub fn initial_state(&mut self, src: &str)
        requires
            src@.len() < usize::MAX,
        ensures
            final(self).wf(),
            final(self).input@ == src@,
            final(self).st() == initial_st(),
    {
        self.input = src.to_owned();
        self.position = 0;
        self.read_position = 0;
        self.line = 1;
        self.col = 0;
        self.ch = '\0';
        self.read_char();
    }

    /// Advance the cursor one character; at the end of the input, load NUL
    /// and stay.
    pub fn read_char(&mut self)
        requires
            old(self).read_position <= old(self).input@.len(),
        ensures
            final(self).input == old(self).input,
            final(self).line == old(self).line,
            final(self).col == old(self).col,
            final(self).position == old(self).read_position,
            final(self).ch == char_at(final(self).input@, final(self).position as int),
            final(self).read_position == if final(self).position < final(self).input@.len() {
                final(self).position + 1
            } else {
                final(self).position as int
            },
    {
        let n = self.input.as_str().unicode_len();
        if self.read_position >= n {
            self.ch = '\0';
            self.position = self.read_position;
        } else {
            self.ch = self.input.as_str().get_char(self.read_position);
            self.position = self.read_position;
            self.read_position = self.read_position + 1;
        }
        assert(self.ch == char_at(self.input@, self.position as int));
    }

    /// The character one past the cursor, NUL at the end of the input.
    fn peek_char(&self) -> (r: char)
        requires
            self.wf(),
        ensures
            r == char_at(self.input@, self.position + 1),
    {
        let n = self.input.as_str().unicode_len();
        if self.read_position >= n || self.position >= n {
            '\0'
        } else {
            self.input.as_str().get_char(self.read_position)
        }
    }

    /// Build the token whose lexeme is `input[start .. end]` at the current
    /// line and column base.
    fn create_token(&self, token_type: TokenType, start: usize, end: usize) -> (r: Token)
        requires
            self.col <= start <= end <= self.input@.len() < usize::MAX,
            1 <= self.line,
        ensures
            r.model() == tok_at(self.input@, self.st(), token_type, start as int, end as int),
    {
        let literal = self.input.as_str().substring_char(start, end).to_owned();
        Token {
            token_type,
            token_info: TokenInfo { literal, line: self.line, col: start + 1 - self.col },
        }
    }

    /// The `Eof` token.
    fn create_eof(&self) -> (r: Token)
        ensures
            r.model() == eof_tok(),
    {
        Token { token_type: TokenType::Eof, token_info: TokenInfo::default() }
    }

    /// Skip whitespace, counting lines.
    fn skip_whitespace(&mut self)
        requires
            old(self).wf(),
        ensures
            final(self).wf(),
            final(self).input == old(self).input,
            final(self).st() == spec_skip_ws(old(self).input@, old(self).st()),
            !spec_is_ws(final(self).ch),
    {
        while self.ch == ' ' || self.ch == '\t' || self.ch == '\n' || self.ch == '\r'
            invariant
                self.wf(),
                self.input == old(self).input,
                spec_skip_ws(self.input@, self.st()) == spec_skip_ws(
                    old(self).input@,
                    old(self).st(),
                ),
            decreases self.input@.len() - self.position,
        {
            if self.ch == '\n' {
                self.col = self.read_position;
                self.line = self.line + 1;
            }
            self.read_char();
        }
    }

    /// Whether `ch` can appear in an identifier.
    pub fn is_letter(ch: char) -> (r: bool)
        ensures
            r == spec_is_letter(ch),
    {
        ('A' <= ch && ch <= 'Z') || ('a' <= ch && ch <= 'z') || ch == '_'
    }

    /// Whether `ch` is a decimal digit.
    pub fn is_digit(ch: char) -> (r: bool)
        ensures
            r == spec_is_digit(ch),
    {
        '0' <= ch && ch <= '9'
    }

    /// Advance over a letter run; the bounds of the run come back.
    fn read_identifier(&mut self) -> (r: (usize, usize))
        requires
            old(self).wf(),
        ensures
            final(self).wf(),
            final(self).input == old(self).input,
            final(self).line == old(self).line,
            final(self).col == old(self).col,
            r.0 == old(self).position,
            r.1 == final(self).position,
            old(self).position <= final(self).position,
            final(self).position as int == letter_run_end(
                final(self).input@,
                old(self).position as int,
            ),
    {
        let position = self.position;
        while Lexer::is_letter(self.ch)
            invariant
                self.wf(),
                self.input == old(self).input,
                self.line == old(self).line,
                self.col == old(self).col,
                old(self).position <= self.position,
                letter_run_end(self.input@, self.position as int) == letter_run_end(
                    self.input@,
                    old(self).position as int,
                ),
            decreases self.input@.len() - self.position,
        {
            self.read_char();
        }
        (position, self.position)
    }

    /// Advance over a digit run; the bounds of the run come back.
    fn read_number(&mut self) -> (r: (usize, usize))
        requires
            old(self).wf(),
        ensures
            final(self).wf(),
            final(self).input == old(self).input,
            final(self).line == old(self).line,
            final(self).col == old(self).col,
            r.0 == old(self).position,
            r.1 == final(self).position,
            old(self).position <= final(self).position,
            final(self).position as int == digit_run_end(
                final(self).input@,
                old(self).position as int,
            ),
    {
        let position = self.position;
        while Lexer::is_digit(self.ch)
            invariant
                self.wf(),
                self.input == old(self).input,
                self.line == old(self).line,
                self.col == old(self).col,
                old(self).position <= self.position,
                digit_run_end(self.input@, self.position as int) == digit_run_end(
                    self.input@,
                    old(self).position as int,
                ),
            decreases self.input@.len() - self.position,
        {
            self.read_char();
        }
        (position, self.position)
    }

    /// Advance over a string literal body, starting on the opening quote;
    /// the bounds of the body, quotes excluded, come back. The cursor rests
    /// on the terminating quote, or on the NUL or input end of an
    /// unterminated literal.
    fn read_string(&mut self) -> (r: (usize, usize))
        requires
            old(self).wf(),
            old(self).position < old(self).input@.len(),
        ensures
            final(self).wf(),
            final(self).input == old(self).input,
            final(self).line == old(self).line,
            final(self).col == old(self).col,
            r.0 == old(self).position + 1,
            r.1 == final(self).position,
            old(self).position + 1 <= final(self).position,
            final(self).position as int == string_run_end(final(self).input@, old(self).position + 1),
    {
        let position = self.position + 1;
        self.read_char();
        while self.ch != '"' && self.ch != '\0'
            invariant
                self.wf(),
                self.input == old(self).input,
                self.line == old(self).line,
                self.col == old(self).col,
                old(self).position + 1 <= self.position,
                string_run_end(self.input@, self.position as int) == string_run_end(
                    self.input@,
                    old(self).position + 1,
                ),
            decreases self.input@.len() - self.position,
        {
            self.read_char();
        }
        (position, self.position)
    }

    /// Read the next token and leave the cursor after it.
    pub fn next_token(&mut self) -> (r: Token)
        requires
            old(self).wf(),
        ensures
            final(self).wf(),
            final(self).input == old(self).input,
            r.model() == spec_next_token(old(self).input@, old(self).st()).tok,
            final(self).st() == spec_next_token(old(self).input@, old(self).st()).st,
    {
        self.skip_whitespace();
        let token: Token;
        if self.ch == '\0' {
            return self.create_eof();
        } else if self.ch == '=' {
            if self.peek_char() == '=' {
                self.read_char();
                token = self.create_token(TokenType::Equal, self.position - 1, self.read_position);
            } else {
                token = self.create_token(TokenType::Assign, self.position, self.read_position);
            }
        } else if self.ch == '!' {
            if self.peek_char() == '=' {
                self.read_char();
                token = self.create_token(
                    TokenType::Notequal,
                    self.position - 1,
                    self.read_position,
                );
            } else {
                token = self.create_token(TokenType::Bang, self.position, self.read_position);
            }
        } else if self.ch == '"' {
            let (start, end) = self.read_string();
            token = self.create_token(TokenType::String, start, end);
        } else if Lexer::is_letter(self.ch) {
            let (start, end) = self.read_identifier();
            let lexeme = self.input.as_str().substring_char(start, end).to_owned();
            let kind = Lexer::keyword_lookup(&lexeme);
            return self.create_token(kind, start, end);
        } else if Lexer::is_digit(self.ch) {
            let (start, end) = self.read_number();
            return self.create_token(TokenType::Int, start, end);
        } else {
            let kind = if self.ch == ';' {
                TokenType::Semicolon
            } else if self.ch == '(' {
                TokenType::Lparen
            } else if self.ch == ')' {
                TokenType::Rparen
            } else if self.ch == ',' {
                TokenType::Comma
            } else if self.ch == '+' {
                TokenType::Plus
            } else if self.ch == '-' {
                TokenType::Minus
            } else if self.ch == '*' {
                TokenType::Asterisk
            } else if self.ch == '/' {
                TokenType::Slash
            } else if self.ch == '<' {
                TokenType::Lessthan
            } else if self.ch == '>' {
                TokenType::Greaterthan
            } else if self.ch == '{' {
                TokenType::Lbrace
            } else if self.ch == '}' {
                TokenType::Rbrace
            } else if self.ch == '[' {
                TokenType::Lbracket
            } else if self.ch == ']' {
                TokenType::Rbracket
            } else {
                TokenType::Illegal
            };
            token = self.create_token(kind, self.position, self.read_position);
        }
        self.read_char();
        token
    }

    /// Classify a letter run as a keyword or an identifier.
    fn keyword_lookup(lexeme: &String) -> (r: TokenType)
        ensures
            r == keyword_kind(lexeme@),
    {
        if *lexeme == "let".to_owned() {
            TokenType::Let
        } else if *lexeme == "fn".to_owned() {
            TokenType::Function
        } else if *lexeme == "true".to_owned() {
            TokenType::True
        } else if *lexeme == "false".to_owned() {
            TokenType::False
        } else if *lexeme == "if".to_owned() {
            TokenType::If
        } else if *lexeme == "else".to_owned() {
            TokenType::Else
        } else if *lexeme == "return".to_owned() {
            TokenType::Return
        } else if *lexeme == "while".to_owned() {
            TokenType::While
        } else {
            TokenType::Ident
        }
    }

    /// The models of a vector of tokens, elementwise.
    pub open spec fn tokens_model(ts: Seq<Token>) -> Seq<TokenM> {
        ts.map(|i: int, t: Token| t.model())
    }

    /// Lex the whole remaining input: the resulting stream is exactly the
    /// one the spec-level lexer describes, and in particular ends with
    /// exactly one `Eof`.
    pub fn tokens(&mut self) -> (r: Vec<Token>)
        requires
            old(self).wf(),
        ensures
            final(self).wf(),
            Lexer::tokens_model(r@) == spec_tokens_from(old(self).input@, old(self).st()),
    {
        let ghost input = self.input@;
        let ghost st0 = self.st();
        let mut token: Vec<Token> = Vec::new();
        let mut done = false;
        while !done
            invariant
                self.wf(),
                self.input@ == input,
                st_wf(input, st0),
                !done ==> spec_tokens_from(input, st0) == Lexer::tokens_model(token@)
                    + spec_tokens_from(input, self.st()),
                done ==> spec_tokens_from(input, st0) == Lexer::tokens_model(token@),
            decreases input.len() - self.st().pos + (if done { 0int } else { 1 }),
        {
            proof {
                lemma_next_token_progress(input, self.st());
            }
            let ghost st_before = self.st();
            let ghost earlier = token@;
            let t = self.next_token();
            let ghost tm = t.model();
            let is_eof = t.token_type == TokenType::Eof;
            token.push(t);
            proof {
                assert(Lexer::tokens_model(token@) =~= Lexer::tokens_model(earlier).push(tm));
                if is_eof {
                    assert(spec_tokens_from(input, st_before) =~= seq![tm]);
                    assert(spec_tokens_from(input, st0) =~= Lexer::tokens_model(token@));
                } else {
                    assert(spec_tokens_from(input, st_before) =~= seq![tm] + spec_tokens_from(
                        input,
                        self.st(),
                    ));
                    assert(Lexer::tokens_model(token@) + spec_tokens_from(input, self.st())
                        =~= Lexer::tokens_model(earlier) + spec_tokens_from(input, st_before));
                }
            }
            done = is_eof;
        }
        token
    }
}

} // verus!
