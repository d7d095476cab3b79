use lox::ast::{Expr, Literal, Statement};
use lox::interpreter::{ArithOp, Interpreter, RuntimeErrorKind, Value};
use lox::lox::{Lox, Outcome};
use lox::parser::{ParseErrorKind, Parser};
use lox::scanner::{LexErrorKind, Scanner};
use lox::token::{Token, TokenType};

fn number(text: &str) -> u64 {
    text.parse::<f64>().unwrap().to_bits()
}

fn arith(op: ArithOp, a: u64, b: u64) -> u64 {
    let (x, y) = (f64::from_bits(a), f64::from_bits(b));
    let r = match op {
        ArithOp::Add => x + y,
        ArithOp::Sub => x - y,
        ArithOp::Mul => x * y,
        ArithOp::Div => x / y,
    };
    r.to_bits()
}

fn run(src: &str) -> Outcome {
    Lox::run(src, &number, &arith)
}

fn scan(src: &str) -> Vec<Token> {
    let (tokens, errors) = Scanner::new(src).scan_tokens();
    assert!(errors.is_empty());
    tokens
}

fn kinds(src: &str) -> Vec<TokenType> {
    scan(src).iter().map(|t| t.ty).collect()
}

fn single_value(src: &str) -> Value {
    let out = run(src);
    assert!(out.lex_errors.is_empty() && out.parse_errors.is_empty());
    assert!(out.runtime_error.is_none());
    assert_eq!(out.printed.len(), 1);
    out.printed[0].clone()
}

fn as_number(v: &Value) -> f64 {
    match v {
        Value::Number(bits) => f64::from_bits(*bits),
        other => panic!("not a number: {:?}", other),
    }
}

fn runtime_error(src: &str) -> RuntimeErrorKind {
    let out = run(src);
    assert!(out.lex_errors.is_empty() && out.parse_errors.is_empty());
    out.runtime_error.expect("a runtime error").kind
}

#[test]
fn operators_scan_to_one_token() {
    let cases = [
        ("(", TokenType::LeftParen),
        (")", TokenType::RightParen),
        ("{", TokenType::LeftBrace),
        ("}", TokenType::RightBrace),
        (",", TokenType::Comma),
        (".", TokenType::Dot),
        ("-", TokenType::Minus),
        ("+", TokenType::Plus),
        (";", TokenType::Semicolon),
        ("*", TokenType::Star),
        ("/", TokenType::Slash),
        ("!", TokenType::Bang),
        ("!=", TokenType::BangEqual),
        ("=", TokenType::Equal),
        ("==", TokenType::EqualEqual),
        ("<", TokenType::Less),
        ("<=", TokenType::LessEqual),
        (">", TokenType::Greater),
        (">=", TokenType::GreaterEqual),
    ];
    for (text, kind) in cases {
        let tokens = scan(text);
        assert_eq!(tokens.len(), 2, "{text}");
        assert_eq!(tokens[0].ty, kind);
        assert_eq!(tokens[0].lexeme, text);
        assert_eq!(tokens[1].ty, TokenType::Eof);
    }
}

#[test]
fn precedence_of_product_over_sum() {
    let (tokens, _) = Scanner::new("1 + 2 * 3;").scan_tokens();
    let (stmts, errors) = Parser::new(&tokens).parse();
    assert!(errors.is_empty());
    assert_eq!(stmts.len(), 1);
    let e = match &stmts[0] {
        Statement::Expression(s) => &s.expr,
        other => panic!("unexpected statement {:?}", other),
    };
    let num = |e: &Expr| match e {
        Expr::Literal(Literal::Number(t)) => t.clone(),
        other => panic!("not a number literal: {:?}", other),
    };
    match e {
        Expr::Binary(b) => {
            assert_eq!(b.op.ty, TokenType::Plus);
            assert_eq!(num(&b.left), "1");
            match &*b.right {
                Expr::Binary(inner) => {
                    assert_eq!(inner.op.ty, TokenType::Star);
                    assert_eq!(num(&inner.left), "2");
                    assert_eq!(num(&inner.right), "3");
                }
                other => panic!("unexpected {:?}", other),
            }
        }
        other => panic!("unexpected {:?}", other),
    }
    assert_eq!(as_number(&single_value("print 1 + 2 * 3;")), 7.0);
}

#[test]
fn subtraction_is_left_associative() {
    assert_eq!(as_number(&single_value("print 8 - 4 - 2;")), 2.0);
}

#[test]
fn grouping_overrides_precedence() {
    assert_eq!(as_number(&single_value("print (1 + 2) * 3;")), 9.0);
    assert_eq!(as_number(&single_value("print 8 - (4 - 2);")), 6.0);
}

#[test]
fn string_concatenation() {
    match single_value("print \"a\" + \"b\";") {
        Value::String(s) => assert_eq!(s, "ab"),
        other => panic!("unexpected {:?}", other),
    }
    assert_eq!(
        runtime_error("1 + \"a\";"),
        RuntimeErrorKind::OperandsMustBeNumbersOrStrings
    );
}

#[test]
fn equality_across_kinds_is_false() {
    let values = ["nil", "true", "false", "0", "1", "\"\"", "\"a\""];
    for (i, a) in values.iter().enumerate() {
        for (j, b) in values.iter().enumerate() {
            let v = single_value(&format!("print {a} == {b};"));
            match v {
                Value::Bool(eq) => assert_eq!(eq, i == j, "{a} == {b}"),
                other => panic!("unexpected {:?}", other),
            }
            let v = single_value(&format!("print {a} != {b};"));
            match v {
                Value::Bool(ne) => assert_eq!(ne, i != j, "{a} != {b}"),
                other => panic!("unexpected {:?}", other),
            }
        }
    }
}

#[test]
fn ieee_equality_of_numbers() {
    assert!(matches!(single_value("print 0 == -0;"), Value::Bool(true)));
    assert!(matches!(single_value("print 0 / 0 == 0 / 0;"), Value::Bool(false)));
    assert!(matches!(single_value("print 0 / 0 != 0 / 0;"), Value::Bool(true)));
}

#[test]
fn truthiness_of_not() {
    assert!(matches!(single_value("print !nil;"), Value::Bool(true)));
    assert!(matches!(single_value("print !false;"), Value::Bool(true)));
    assert!(matches!(single_value("print !0;"), Value::Bool(false)));
    assert!(matches!(single_value("print !\"\";"), Value::Bool(false)));
    assert!(matches!(single_value("print !true;"), Value::Bool(false)));
}

#[test]
fn comparisons() {
    assert!(matches!(single_value("print 1 < 2;"), Value::Bool(true)));
    assert!(matches!(single_value("print 2 <= 2;"), Value::Bool(true)));
    assert!(matches!(single_value("print -3 > -2;"), Value::Bool(false)));
    assert!(matches!(single_value("print -2 >= -3;"), Value::Bool(true)));
    assert!(matches!(single_value("print -0 < 0;"), Value::Bool(false)));
    assert!(matches!(single_value("print 0 / 0 < 1;"), Value::Bool(false)));
    assert!(matches!(single_value("print 0 / 0 >= 1;"), Value::Bool(false)));
}

#[test]
fn negation_and_arithmetic() {
    assert_eq!(as_number(&single_value("print -(3);")), -3.0);
    assert_eq!(as_number(&single_value("print --2.5;")), 2.5);
    assert_eq!(as_number(&single_value("print 7 / 2;")), 3.5);
    assert_eq!(as_number(&single_value("print 1.5 * 4;")), 6.0);
}

#[test]
fn recovery_reports_each_bad_statement() {
    let out = run("1 +; )2;");
    assert!(out.lex_errors.is_empty());
    assert_eq!(out.parse_errors.len(), 2);
    assert_eq!(out.parse_errors[0].kind, ParseErrorKind::ExpectExpression);
    assert_eq!(out.parse_errors[0].token.ty, TokenType::Semicolon);
    assert_eq!(out.parse_errors[1].token.ty, TokenType::RightParen);
    assert!(out.runtime_error.is_none());
    assert!(out.printed.is_empty());
}

#[test]
fn recovery_resumes_at_statement_keyword() {
    let out = run("1 2 print 3; print;");
    assert_eq!(out.parse_errors.len(), 2);
    assert_eq!(out.parse_errors[0].kind, ParseErrorKind::ExpectSemicolonAfterExpression);
    assert_eq!(out.parse_errors[1].kind, ParseErrorKind::ExpectExpression);
}

#[test]
fn unterminated_string() {
    let (tokens, errors) = Scanner::new("\"abc").scan_tokens();
    assert_eq!(errors.len(), 1);
    assert_eq!(errors[0].kind, LexErrorKind::UnterminatedString);
    assert_eq!(tokens.len(), 1);
    assert_eq!(tokens[0].ty, TokenType::Eof);
}

#[test]
fn unexpected_character() {
    let (tokens, errors) = Scanner::new("1 @ 2").scan_tokens();
    assert_eq!(errors.len(), 1);
    assert_eq!(errors[0].kind, LexErrorKind::UnexpectedCharacter);
    assert_eq!(errors[0].ln, 1);
    assert_eq!(tokens.len(), 3);
    assert!(run("print 1; @").printed.is_empty());
}

#[test]
fn missing_right_paren_is_reported_at_found_token() {
    let out = run("(1;");
    assert_eq!(out.parse_errors.len(), 1);
    assert_eq!(out.parse_errors[0].kind, ParseErrorKind::ExpectRightParen);
    assert_eq!(out.parse_errors[0].token.ty, TokenType::Semicolon);
    let out = run("print 1");
    assert_eq!(out.parse_errors.len(), 1);
    assert_eq!(out.parse_errors[0].kind, ParseErrorKind::ExpectSemicolonAfterValue);
    assert_eq!(out.parse_errors[0].token.ty, TokenType::Eof);
}

#[test]
fn runtime_errors_name_the_operator() {
    assert_eq!(runtime_error("-\"a\";"), RuntimeErrorKind::OperandMustBeNumber);
    assert_eq!(runtime_error("\"a\" - \"b\";"), RuntimeErrorKind::OperandsMustBeNumbers);
    assert_eq!(runtime_error("true < 1;"), RuntimeErrorKind::OperandsMustBeNumbers);
    let out = run("print 1;\nprint nil * 2;\nprint 3;");
    let err = out.runtime_error.expect("a runtime error");
    assert_eq!(err.token.ty, TokenType::Star);
    assert_eq!(err.token.ln, 2);
    assert_eq!(out.printed.len(), 1);
}

#[test]
fn strings_comments_and_lines() {
    let tokens = scan("// note\n\"a\nb\" x1y");
    assert_eq!(tokens[0].ty, TokenType::String);
    assert_eq!(tokens[0].lexeme, "a\nb");
    assert_eq!(tokens[0].ln, 3);
    assert_eq!(tokens[1].ty, TokenType::Id);
    assert_eq!(tokens[1].lexeme, "x1y");
    assert_eq!(tokens[2].ln, 3);
}

#[test]
fn numbers_keep_trailing_dot_apart() {
    assert_eq!(kinds("1.5"), vec![TokenType::Number, TokenType::Eof]);
    let tokens = scan("12.");
    assert_eq!(tokens[0].lexeme, "12");
    assert_eq!(tokens[1].ty, TokenType::Dot);
}

#[test]
fn keywords_and_identifiers() {
    assert_eq!(
        kinds("and class else false for fn if nil or print return super this true var while"),
        vec![
            TokenType::And,
            TokenType::Class,
            TokenType::Else,
            TokenType::False,
            TokenType::For,
            TokenType::Fn,
            TokenType::If,
            TokenType::Nil,
            TokenType::Or,
            TokenType::Print,
            TokenType::Return,
            TokenType::Super,
            TokenType::This,
            TokenType::True,
            TokenType::Var,
            TokenType::While,
            TokenType::Eof,
        ]
    );
    let tokens = scan("fun éa");
    assert_eq!(tokens[0].ty, TokenType::Id);
    assert_eq!(tokens[1].ty, TokenType::Id);
    assert_eq!(tokens[1].lexeme, "éa");
}

#[test]
fn expression_statements_print_nothing() {
    let out = run("1 + 2; \"x\";");
    assert!(out.printed.is_empty());
    assert!(out.runtime_error.is_none());
    let i = Interpreter {};
    assert!(i.is_equal(&Value::Nil, &Value::Nil));
    assert!(!i.is_equal(&Value::Nil, &Value::Bool(false)));
}

#[test]
fn error_reports() {
    assert_eq!(Lox::error(12, "Unexpected character."), "[line 12] Error : Unexpected character.");
    assert_eq!(Lox::report(0, "at end", "m"), "[line 0] Error at end: m");
    let out = run("print (1;\n@");
    assert_eq!(Lox::lex_error_report(&out.lex_errors[0]), "[line 2] Error : Unexpected character.");
    assert_eq!(
        Lox::parse_error_report(&out.parse_errors[0]),
        "[line 1] Error at ';': Expect ')' after expression."
    );
    let out = run("print 1");
    assert_eq!(
        Lox::parse_error_report(&out.parse_errors[0]),
        "[line 1] Error at end: Expect ';' after value."
    );
}

#[test]
fn runtime_error_report_names_line() {
    let out = run("\n-nil;");
    let e = out.runtime_error.expect("a runtime error");
    assert_eq!(Lox::runtime_error_report(&e), "Operand must be a number. [line 2]");
}
