use newchai::enviornment::Enviornment;
use newchai::expression::Expression;
use newchai::expression::Operator;
use newchai::expression::Prefix;
use newchai::interpreter::eval;
use newchai::lexer::Lexer;
use newchai::object::ChaiObject;
use newchai::parser::Parser;
use newchai::statement::Statement;
use newchai::stdchai::Std;
use newchai::token::Token;
use newchai::token::TokenType;

fn lex_kinds(src: &str) -> Vec<TokenType> {
    let mut lexer = Lexer::new(String::from(src));
    lexer.tokens().into_iter().map(|t| t.token_type).collect()
}

fn parse(src: &str) -> Statement {
    let lexer = Lexer::new(String::from(src));
    let mut parser = Parser::new(lexer);
    parser.parse_program().expect("parse failed")
}

fn run(src: &str) -> (ChaiObject, Vec<String>) {
    let program = parse(src);
    let mut env = Enviornment::new();
    let lib = Std::load();
    let mut out: Vec<String> = Vec::new();
    let value = eval(&program, &mut env, &lib, &mut out, 1_000_000);
    (value, out)
}

/// A canonical pretty-printer over the public AST, used to exercise the
/// parse-print round trip.
fn print_expr(e: &Expression) -> String {
    match e {
        Expression::Null => String::from("null"),
        Expression::Ident(n) => n.clone(),
        Expression::String(s) => format!("\"{}\"", s),
        Expression::Integer(i) => format!("{}", i),
        Expression::Boolean(b) => {
            if *b {
                String::from("true")
            } else {
                String::from("false")
            }
        }
        Expression::Prefix(op, x) => {
            let o = match op {
                Prefix::Minus => "-",
                Prefix::Bang => "!",
            };
            format!("({}{})", o, print_expr(x))
        }
        Expression::Infix(l, op, r) => {
            let o = match op {
                Operator::Plus => "+",
                Operator::Minus => "-",
                Operator::Multiply => "*",
                Operator::Divide => "/",
                Operator::Greaterthan => ">",
                Operator::Lessthan => "<",
                Operator::Equals => "==",
                Operator::Notequals => "!=",
                Operator::Assign => "=",
            };
            format!("({} {} {})", print_expr(l), o, print_expr(r))
        }
        Expression::If(c, t, e2) => match e2 {
            Some(other) => format!(
                "if ({}) {} else {}",
                print_expr(c),
                print_block(t),
                print_block(other)
            ),
            None => format!("if ({}) {}", print_expr(c), print_block(t)),
        },
        Expression::While(c, body) => {
            format!("while ({}) {}", print_expr(c), print_block(body))
        }
        Expression::Function(ps, body) => {
            format!("fn ({}) {}", ps.join(", "), print_block(body))
        }
        Expression::FunctionCall(callee, args) => {
            let rendered: Vec<String> = args.iter().map(print_expr).collect();
            format!("{}({})", print_expr(callee), rendered.join(", "))
        }
        Expression::Array(elems) => {
            let rendered: Vec<String> = elems.iter().map(print_expr).collect();
            format!("[{}]", rendered.join(", "))
        }
        Expression::ArrayIndex(a, i) => format!("({}[{}])", print_expr(a), print_expr(i)),
    }
}

fn print_block(s: &Statement) -> String {
    match s {
        Statement::BlockStatement(ss) => {
            let rendered: Vec<String> = ss.iter().map(print_stmt).collect();
            format!("{{ {} }}", rendered.join(" "))
        }
        other => print_stmt(other),
    }
}

fn print_stmt(s: &Statement) -> String {
    match s {
        Statement::Let(n, e) => format!("let {} = {};", n, print_expr(e)),
        Statement::Return(e) => format!("return {};", print_expr(e)),
        Statement::ExpressionStatement(e) => format!("{};", print_expr(e)),
        Statement::BlockStatement(_) => print_block(s),
        Statement::Reassignment(n, e) => format!("{} = {};", n, print_expr(e)),
        Statement::Program(ss) => {
            let rendered: Vec<String> = ss.iter().map(print_stmt).collect();
            rendered.join(" ")
        }
    }
}

fn print_ast(s: &Statement) -> String {
    print_stmt(s)
}

#[test]
fn lexer_init() {
    let src = String::from("let a;");
    let lexer = Lexer::new(src);
    let expected_lexer = Lexer {
        input: String::from("let a;"),
        read_position: 1,
        position: 0,
        line: 1,
        col: 0,
        ch: 'l',
    };
    assert_eq!(lexer, expected_lexer);
}

#[test]
fn is_char() {
    assert_eq!(Lexer::is_letter('a'), true);
    assert_eq!(Lexer::is_letter('_'), true);
    assert_eq!(Lexer::is_letter('1'), false);
    assert_eq!(Lexer::is_letter('['), false);
}

#[test]
fn is_digit() {
    assert_eq!(Lexer::is_digit('1'), true);
    assert_eq!(Lexer::is_digit('2'), true);
    assert_eq!(Lexer::is_digit('a'), false);
}

#[test]
fn read_identifier() {
    let src = String::from("let");
    let mut lexer = Lexer::new(src);
    assert_eq!(lexer.next_token().token_type, TokenType::Let);
}

#[test]
fn compare_tokens() {
    let assign_1 = Token::new(TokenType::Assign);
    let assign_2 = Token::new(TokenType::Assign);
    assert_eq!(assign_1, assign_2);
}

#[test]
fn stream_ends_with_exactly_one_eof() {
    for src in ["", "let a = 1;", "   ", "a b c", "\"unterminated", "let a;  "] {
        let kinds = lex_kinds(src);
        assert!(kinds.len() >= 1);
        assert_eq!(kinds[kinds.len() - 1], TokenType::Eof);
        for k in &kinds[..kinds.len() - 1] {
            assert_ne!(*k, TokenType::Eof);
        }
    }
}

#[test]
fn keywords_and_identifiers() {
    let kinds = lex_kinds("let fn true false if else return while foo let_ letx");
    assert_eq!(
        kinds,
        vec![
            TokenType::Let,
            TokenType::Function,
            TokenType::True,
            TokenType::False,
            TokenType::If,
            TokenType::Else,
            TokenType::Return,
            TokenType::While,
            TokenType::Ident,
            TokenType::Ident,
            TokenType::Ident,
            TokenType::Eof,
        ]
    );
}

#[test]
fn two_char_operators_lex_as_single_tokens() {
    assert_eq!(
        lex_kinds("=="),
        vec![TokenType::Equal, TokenType::Eof]
    );
    assert_eq!(
        lex_kinds("!="),
        vec![TokenType::Notequal, TokenType::Eof]
    );
    assert_eq!(
        lex_kinds("=!"),
        vec![TokenType::Assign, TokenType::Bang, TokenType::Eof]
    );
    assert_eq!(
        lex_kinds("a == b != c"),
        vec![
            TokenType::Ident,
            TokenType::Equal,
            TokenType::Ident,
            TokenType::Notequal,
            TokenType::Ident,
            TokenType::Eof,
        ]
    );
}

#[test]
fn precedence_product_over_sum() {
    let expected = Statement::Program(vec![Statement::ExpressionStatement(Box::new(
        Expression::Infix(
            Box::new(Expression::Integer(1)),
            Operator::Plus,
            Box::new(Expression::Infix(
                Box::new(Expression::Integer(2)),
                Operator::Multiply,
                Box::new(Expression::Integer(3)),
            )),
        ),
    ))]);
    assert_eq!(parse("1 + 2 * 3"), expected);
}

#[test]
fn assignment_is_right_associative() {
    let expected = Statement::Program(vec![Statement::ExpressionStatement(Box::new(
        Expression::Infix(
            Box::new(Expression::Ident(String::from("a"))),
            Operator::Assign,
            Box::new(Expression::Infix(
                Box::new(Expression::Ident(String::from("b"))),
                Operator::Assign,
                Box::new(Expression::Integer(1)),
            )),
        ),
    ))]);
    assert_eq!(parse("a = b = 1"), expected);
}

#[test]
fn nested_prefix_operators() {
    let expected = Statement::Program(vec![Statement::ExpressionStatement(Box::new(
        Expression::Prefix(
            Prefix::Bang,
            Box::new(Expression::Prefix(
                Prefix::Minus,
                Box::new(Expression::Ident(String::from("a"))),
            )),
        ),
    ))]);
    assert_eq!(parse("!-a"), expected);
}

#[test]
fn calls_bind_tighter_than_sum() {
    let expected = Statement::Program(vec![Statement::ExpressionStatement(Box::new(
        Expression::Infix(
            Box::new(Expression::FunctionCall(
                Box::new(Expression::Ident(String::from("f"))),
                vec![Expression::Integer(1)],
            )),
            Operator::Plus,
            Box::new(Expression::Integer(2)),
        ),
    ))]);
    assert_eq!(parse("f(1) + 2"), expected);
}

#[test]
fn parse_print_round_trip() {
    let sources = [
        "1 + 2 * 3",
        "a = b = 1",
        "!-a",
        "f(1) + 2",
        "let add = fn(a, b) { return a + b; }; print(add(2, 3));",
        "let arr = [1, 2, 3]; arr[1 + 1];",
        "if (a < b) { a } else { b }",
        "let i = 0; while (i < 3) { print(i); i = i + 1; }",
        "let s = \"foo\" + \"bar\"; print(len(s));",
    ];
    for src in sources {
        let once = parse(src);
        let twice = parse(&print_ast(&once));
        assert_eq!(once, twice, "round trip differs for {}", src);
    }
}

#[test]
fn program_returns_integer_value() {
    let (value, out) = run("let a = 5; let b = a * 2; return b + 1;");
    assert_eq!(value, ChaiObject::Integer(11));
    assert!(out.is_empty());
}

#[test]
fn function_call_prints_sum() {
    let (value, out) = run("let add = fn(a, b) { return a + b; }; print(add(2, 3));");
    assert_eq!(out, vec![String::from("5")]);
    assert_eq!(value, ChaiObject::Null);
}

#[test]
fn closures_capture_definition_environment() {
    // Identifiers are letter runs (digits are deliberately not identifier
    // characters), so the captured adder is named without the `5`.
    let (_, out) = run(
        "let make = fn(x) { fn(y) { x + y } }; let add_five = make(5); print(add_five(7));",
    );
    assert_eq!(out, vec![String::from("12")]);
}

#[test]
fn push_copies_instead_of_mutating() {
    let (_, out) = run("let arr = [1, 2, 3]; print(push(arr, 4)); print(arr);");
    assert_eq!(out, vec![String::from("[1,2,3,4]"), String::from("[1,2,3]")]);
}

#[test]
fn while_loop_counts_to_three() {
    let (value, out) = run("let i = 0; while (i < 3) { print(i); i = i + 1; }");
    assert_eq!(
        out,
        vec![String::from("0"), String::from("1"), String::from("2")]
    );
    assert_eq!(value, ChaiObject::Null);
}

#[test]
fn string_concat_and_len() {
    let (_, out) = run("let s = \"foo\" + \"bar\"; print(len(s));");
    assert_eq!(out, vec![String::from("6")]);
}

#[test]
fn type_mismatch_is_an_error() {
    let (value, _) = run("1 + true;");
    match value {
        ChaiObject::Error(msg) => assert!(msg.contains("Type mismatch"), "got {}", msg),
        other => panic!("expected an error, got {:?}", other),
    }
}

#[test]
fn index_out_of_bounds_is_an_error() {
    let (value, _) = run("[1,2,3][5];");
    assert_eq!(value, ChaiObject::Error(String::from("Array out of bound")));
    let (negative, _) = run("[1,2,3][-1];");
    assert_eq!(
        negative,
        ChaiObject::Error(String::from("Array out of bound"))
    );
}

#[test]
fn division_by_zero_is_an_error() {
    let (value, _) = run("1 / 0;");
    assert_eq!(value, ChaiObject::Error(String::from("division by zero")));
}

#[test]
fn arity_mismatch_is_an_error() {
    let (value, _) = run("let f = fn(a, b) { a + b }; f(1);");
    assert_eq!(
        value,
        ChaiObject::Error(String::from("arity mismatch: expected 2, got 1"))
    );
}

#[test]
fn unbound_variable_is_an_error() {
    let (value, _) = run("missing;");
    assert_eq!(
        value,
        ChaiObject::Error(String::from("Variable : missing not found"))
    );
}

#[test]
fn reassignment_updates_owning_scope() {
    let (_, out) = run(
        "let x = 1; let f = fn() { x = 41; x + 1 }; print(f()); print(x);",
    );
    assert_eq!(out, vec![String::from("42"), String::from("1")]);
}

#[test]
fn truthiness_of_zero_and_null() {
    let (value, _) = run("if (0) { 1 } else { 2 }");
    assert_eq!(value, ChaiObject::Integer(1));
    let (bang, _) = run("![];");
    assert_eq!(bang, ChaiObject::Boolean(false));
}

#[test]
fn parse_error_carries_line_and_column() {
    let lexer = Lexer::new(String::from("let a 5;"));
    let mut parser = Parser::new(lexer);
    let err = parser.parse_program().expect_err("should fail");
    assert!(err.contains("Expected ="), "got {}", err);
    assert!(err.starts_with("Line:1"), "got {}", err);
}

#[test]
fn integer_literal_bounds() {
    let (value, _) = run("2147483647;");
    assert_eq!(value, ChaiObject::Integer(2147483647));
    let lexer = Lexer::new(String::from("2147483648;"));
    let mut parser = Parser::new(lexer);
    let err = parser.parse_program().expect_err("should overflow");
    assert_eq!(err, String::from("integer literal out of range"));
}

#[test]
fn print_with_several_arguments_and_empty_array() {
    let (_, out) = run("print(1, \"a\", true, []);");
    assert_eq!(out, vec![String::from("1 a true []")]);
}
