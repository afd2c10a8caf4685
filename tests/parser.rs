use frontend::ast::{BinaryOperator, Expression, Literal, Program, Span, Spanned, Statement};
use frontend::grammar::{Construct, ParseError};
use frontend::parser::Parser;
use frontend::token::{Keyword, Token, TokenClass, TokenKind};

fn sp(a: (usize, usize), b: (usize, usize)) -> Span {
    Span { start: a, end: b }
}

fn lit(l: Literal, p: (usize, usize)) -> Spanned<Expression> {
    Spanned { node: Expression::Literal(l), span: sp(p, p) }
}

fn ident(n: &str, p: (usize, usize)) -> Spanned<Expression> {
    Spanned { node: Expression::Identifier(n.to_string()), span: sp(p, p) }
}

fn bin(l: Spanned<Expression>, op: BinaryOperator, r: Spanned<Expression>) -> Spanned<Expression> {
    let span = sp(l.span.start, r.span.end);
    Spanned { node: Expression::Binary { left: Box::new(l), operator: op, right: Box::new(r) }, span }
}

fn expr_stmt(e: Spanned<Expression>, start: (usize, usize), end: (usize, usize)) -> Spanned<Statement> {
    Spanned { node: Statement::Expression(e), span: sp(start, end) }
}

fn float(v: f64) -> u64 {
    v.to_bits()
}

/// Tokens from space-separated words on line 1, one column per word.
fn words(src: &str) -> Vec<Token> {
    let mut out = Vec::new();
    for (i, w) in src.split_whitespace().enumerate() {
        let kind = match w {
            "+" => TokenKind::Plus,
            "-" => TokenKind::Minus,
            "*" => TokenKind::Asterisk,
            "/" => TokenKind::Slash,
            "(" => TokenKind::LeftParen,
            ")" => TokenKind::RightParen,
            "{" => TokenKind::LeftBrace,
            "}" => TokenKind::RightBrace,
            "," => TokenKind::Comma,
            "." => TokenKind::Dot,
            "=" => TokenKind::Equals,
            "==" => TokenKind::DoubleEquals,
            "!=" => TokenKind::NotEquals,
            "<" => TokenKind::LessThan,
            ">" => TokenKind::GreaterThan,
            "<=" => TokenKind::LessThanOrEqual,
            ">=" => TokenKind::GreaterThanOrEqual,
            "&&" => TokenKind::And,
            "||" => TokenKind::Or,
            "!" => TokenKind::Bang,
            ";" => TokenKind::Semicolon,
            "true" => TokenKind::Boolean(true),
            "false" => TokenKind::Boolean(false),
            "if" => TokenKind::Keyword(Keyword::If),
            "else" => TokenKind::Keyword(Keyword::Else),
            "while" => TokenKind::Keyword(Keyword::While),
            "return" => TokenKind::Keyword(Keyword::Return),
            "class" => TokenKind::Keyword(Keyword::Class),
            "static" => TokenKind::Keyword(Keyword::Static),
            "self" => TokenKind::Keyword(Keyword::SelfValue),
            "Self" => TokenKind::Keyword(Keyword::SelfType),
            _ => {
                if let Ok(v) = w.parse::<i64>() {
                    TokenKind::Integer(v)
                } else if w.starts_with('"') {
                    TokenKind::String(w.trim_matches('"').to_string())
                } else {
                    TokenKind::Identifier(w.to_string())
                }
            }
        };
        out.push(Token::new(kind, 1, i + 1));
    }
    let n = out.len();
    out.push(Token::new(TokenKind::EndOfFile, 1, n + 1));
    out
}

#[test]
fn simple_addition() {
    // 2 + 3.4;
    let tokens: Vec<Token> = vec![
        Token::new(TokenKind::Integer(2), 0, 1),
        Token::new(TokenKind::Plus, 0, 3),
        Token::new(TokenKind::Float(float(3.4)), 0, 5),
        Token::new(TokenKind::Semicolon, 0, 8),
        Token::new(TokenKind::EndOfFile, 0, 9),
    ];
    let program: Program = Parser::parse(tokens).unwrap();
    let expected = Program {
        statements: vec![expr_stmt(
            bin(lit(Literal::Integer(2), (0, 1)), BinaryOperator::Add, lit(Literal::Float(float(3.4)), (0, 5))),
            (0, 1),
            (0, 8),
        )],
    };
    assert_eq!(program, expected);
}

#[test]
fn simple_subtraction() {
    // 5.0 - 1;
    let tokens: Vec<Token> = vec![
        Token::new(TokenKind::Float(float(5.0)), 0, 1),
        Token::new(TokenKind::Minus, 0, 5),
        Token::new(TokenKind::Integer(1), 0, 7),
        Token::new(TokenKind::Semicolon, 0, 8),
        Token::new(TokenKind::EndOfFile, 0, 9),
    ];
    let program: Program = Parser::parse(tokens).unwrap();
    let expected = Program {
        statements: vec![expr_stmt(
            bin(lit(Literal::Float(float(5.0)), (0, 1)), BinaryOperator::Subtract, lit(Literal::Integer(1), (0, 7))),
            (0, 1),
            (0, 8),
        )],
    };
    assert_eq!(program, expected);
}

#[test]
fn simple_multiplication() {
    // 4 * 2;
    let tokens: Vec<Token> = vec![
        Token::new(TokenKind::Integer(4), 0, 1),
        Token::new(TokenKind::Asterisk, 0, 3),
        Token::new(TokenKind::Integer(2), 0, 5),
        Token::new(TokenKind::Semicolon, 0, 6),
        Token::new(TokenKind::EndOfFile, 0, 7),
    ];
    let program: Program = Parser::parse(tokens).unwrap();
    let expected = Program {
        statements: vec![expr_stmt(
            bin(lit(Literal::Integer(4), (0, 1)), BinaryOperator::Multiply, lit(Literal::Integer(2), (0, 5))),
            (0, 1),
            (0, 6),
        )],
    };
    assert_eq!(program, expected);
}

#[test]
fn simple_division() {
    // 8 / 4.0;
    let tokens: Vec<Token> = vec![
        Token::new(TokenKind::Integer(8), 0, 1),
        Token::new(TokenKind::Slash, 0, 3),
        Token::new(TokenKind::Float(float(4.0)), 0, 5),
        Token::new(TokenKind::Semicolon, 0, 8),
        Token::new(TokenKind::EndOfFile, 0, 9),
    ];
    let program: Program = Parser::parse(tokens).unwrap();
    let expected = Program {
        statements: vec![expr_stmt(
            bin(lit(Literal::Integer(8), (0, 1)), BinaryOperator::Divide, lit(Literal::Float(float(4.0)), (0, 5))),
            (0, 1),
            (0, 8),
        )],
    };
    assert_eq!(program, expected);
}

#[test]
fn integer_literal() {
    // 42;
    let tokens: Vec<Token> = vec![
        Token::new(TokenKind::Integer(42), 0, 1),
        Token::new(TokenKind::Semicolon, 0, 3),
        Token::new(TokenKind::EndOfFile, 0, 4),
    ];
    let program: Program = Parser::parse(tokens).unwrap();
    let expected = Program { statements: vec![expr_stmt(lit(Literal::Integer(42), (0, 1)), (0, 1), (0, 3))] };
    assert_eq!(program, expected);
}

#[test]
fn float_literal() {
    // 3.24;
    let tokens: Vec<Token> = vec![
        Token::new(TokenKind::Float(float(3.24)), 0, 1),
        Token::new(TokenKind::Semicolon, 0, 5),
        Token::new(TokenKind::EndOfFile, 0, 6),
    ];
    let program: Program = Parser::parse(tokens).unwrap();
    let expected = Program { statements: vec![expr_stmt(lit(Literal::Float(float(3.24)), (0, 1)), (0, 1), (0, 5))] };
    assert_eq!(program, expected);
}

#[test]
fn parenthesized_addition() {
    // (1 + 2);
    let tokens: Vec<Token> = vec![
        Token::new(TokenKind::LeftParen, 0, 1),
        Token::new(TokenKind::Integer(1), 0, 2),
        Token::new(TokenKind::Plus, 0, 4),
        Token::new(TokenKind::Integer(2), 0, 6),
        Token::new(TokenKind::RightParen, 0, 7),
        Token::new(TokenKind::Semicolon, 0, 8),
        Token::new(TokenKind::EndOfFile, 0, 9),
    ];
    let program: Program = Parser::parse(tokens).unwrap();
    let mut inner = bin(lit(Literal::Integer(1), (0, 2)), BinaryOperator::Add, lit(Literal::Integer(2), (0, 6)));
    inner.span = sp((0, 1), (0, 7));
    let expected = Program { statements: vec![expr_stmt(inner, (0, 1), (0, 8))] };
    assert_eq!(program, expected);
}

#[test]
fn operator_precedence() {
    // 2 + 3.3 * 4;
    let tokens: Vec<Token> = vec![
        Token::new(TokenKind::Integer(2), 0, 1),
        Token::new(TokenKind::Plus, 0, 3),
        Token::new(TokenKind::Float(float(3.3)), 0, 5),
        Token::new(TokenKind::Asterisk, 0, 9),
        Token::new(TokenKind::Integer(4), 0, 11),
        Token::new(TokenKind::Semicolon, 0, 12),
        Token::new(TokenKind::EndOfFile, 0, 13),
    ];
    let program: Program = Parser::parse(tokens).unwrap();
    let product = bin(lit(Literal::Float(float(3.3)), (0, 5)), BinaryOperator::Multiply, lit(Literal::Integer(4), (0, 11)));
    let expected = Program {
        statements: vec![expr_stmt(bin(lit(Literal::Integer(2), (0, 1)), BinaryOperator::Add, product), (0, 1), (0, 12))],
    };
    assert_eq!(program, expected);
}

#[test]
fn parenthesized_precedence() {
    // (2.7 + 3) * 4;
    let tokens: Vec<Token> = vec![
        Token::new(TokenKind::LeftParen, 0, 1),
        Token::new(TokenKind::Float(float(2.7)), 0, 2),
        Token::new(TokenKind::Plus, 0, 6),
        Token::new(TokenKind::Integer(3), 0, 8),
        Token::new(TokenKind::RightParen, 0, 9),
        Token::new(TokenKind::Asterisk, 0, 11),
        Token::new(TokenKind::Integer(4), 0, 13),
        Token::new(TokenKind::Semicolon, 0, 14),
        Token::new(TokenKind::EndOfFile, 0, 15),
    ];
    let program: Program = Parser::parse(tokens).unwrap();
    let mut sum = bin(lit(Literal::Float(float(2.7)), (0, 2)), BinaryOperator::Add, lit(Literal::Integer(3), (0, 8)));
    sum.span = sp((0, 1), (0, 9));
    let expected = Program {
        statements: vec![expr_stmt(bin(sum, BinaryOperator::Multiply, lit(Literal::Integer(4), (0, 13))), (0, 1), (0, 14))],
    };
    assert_eq!(program, expected);
}

#[test]
fn consecutive_literals() {
    // 1 2 3
    let tokens: Vec<Token> = vec![
        Token::new(TokenKind::Integer(1), 0, 1),
        Token::new(TokenKind::Integer(2), 0, 3),
        Token::new(TokenKind::Integer(3), 0, 5),
        Token::new(TokenKind::EndOfFile, 0, 6),
    ];
    let result = Parser::parse(tokens).err().unwrap();
    assert_eq!(
        result,
        ParseError::ExpectedToken { expected: TokenClass::Semicolon, found: TokenKind::Integer(2), position: (0, 3) }
    );
}

#[test]
fn missing_right_paren() {
    // (1 + 2
    let tokens: Vec<Token> = vec![
        Token::new(TokenKind::LeftParen, 0, 1),
        Token::new(TokenKind::Integer(1), 0, 2),
        Token::new(TokenKind::Plus, 0, 4),
        Token::new(TokenKind::Integer(2), 0, 6),
        Token::new(TokenKind::EndOfFile, 0, 7),
    ];
    let result = Parser::parse(tokens).err().unwrap();
    assert_eq!(
        result,
        ParseError::ExpectedToken { expected: TokenClass::RightParen, found: TokenKind::EndOfFile, position: (0, 7) }
    );
}

#[test]
fn lib_string_literal() {
    // "Hello";
    let tokens: Vec<Token> = vec![
        Token::new(TokenKind::String("Hello".to_string()), 0, 1),
        Token::new(TokenKind::Semicolon, 0, 8),
        Token::new(TokenKind::EndOfFile, 0, 9),
    ];
    let result: Program = Parser::parse(tokens).unwrap();
    let expected = Program {
        statements: vec![expr_stmt(lit(Literal::String("Hello".to_string()), (0, 1)), (0, 1), (0, 8))],
    };
    assert_eq!(result, expected);
}

#[test]
fn lib_string_escape_sequences() {
    // "\n\u{21A0}\x45"
    let tokens: Vec<Token> = vec![
        Token::new(TokenKind::String("\n↠E".to_string()), 0, 1),
        Token::new(TokenKind::Semicolon, 0, 15),
        Token::new(TokenKind::EndOfFile, 0, 16),
    ];
    let result: Program = Parser::parse(tokens).unwrap();
    let expected = Program {
        statements: vec![expr_stmt(lit(Literal::String("\n↠E".to_string()), (0, 1)), (0, 1), (0, 15))],
    };
    assert_eq!(result, expected);
}

#[test]
fn chained_comparison_is_refused() {
    // 1 < 2 < 3;
    let err = Parser::parse(words("1 < 2 < 3 ;")).err().unwrap();
    assert_eq!(err, ParseError::ChainedComparison { position: (1, 4) });
}

#[test]
fn chained_equality_in_assignment_is_refused() {
    let err = Parser::parse(words("x = a == b != c ;")).err().unwrap();
    assert_eq!(err, ParseError::ChainedComparison { position: (1, 6) });
}

#[test]
fn comparisons_joined_by_and_are_accepted() {
    let program = Parser::parse(words("1 < 2 && 3 < 4 ;")).unwrap();
    let left = bin(lit(Literal::Integer(1), (1, 1)), BinaryOperator::LessThan, lit(Literal::Integer(2), (1, 3)));
    let right = bin(lit(Literal::Integer(3), (1, 5)), BinaryOperator::LessThan, lit(Literal::Integer(4), (1, 7)));
    let expected = Program { statements: vec![expr_stmt(bin(left, BinaryOperator::And, right), (1, 1), (1, 8))] };
    assert_eq!(program, expected);
}

#[test]
fn parenthesized_comparison_may_be_compared() {
    assert!(Parser::parse(words("( 1 < 2 ) == true ;")).is_ok());
}

#[test]
fn multiplication_binds_tighter_than_addition() {
    let program = Parser::parse(words("1 * 2 + 3 ;")).unwrap();
    let product = bin(lit(Literal::Integer(1), (1, 1)), BinaryOperator::Multiply, lit(Literal::Integer(2), (1, 3)));
    let expected = Program {
        statements: vec![expr_stmt(bin(product, BinaryOperator::Add, lit(Literal::Integer(3), (1, 5))), (1, 1), (1, 6))],
    };
    assert_eq!(program, expected);
}

#[test]
fn subtraction_is_left_associative() {
    let program = Parser::parse(words("9 - 2 - 3 ;")).unwrap();
    let first = bin(lit(Literal::Integer(9), (1, 1)), BinaryOperator::Subtract, lit(Literal::Integer(2), (1, 3)));
    let expected = Program {
        statements: vec![expr_stmt(bin(first, BinaryOperator::Subtract, lit(Literal::Integer(3), (1, 5))), (1, 1), (1, 6))],
    };
    assert_eq!(program, expected);
}

#[test]
fn and_binds_tighter_than_or() {
    let program = Parser::parse(words("true || false && true ;")).unwrap();
    let conj = bin(lit(Literal::Boolean(false), (1, 3)), BinaryOperator::And, lit(Literal::Boolean(true), (1, 5)));
    let expected = Program {
        statements: vec![expr_stmt(bin(lit(Literal::Boolean(true), (1, 1)), BinaryOperator::Or, conj), (1, 1), (1, 6))],
    };
    assert_eq!(program, expected);
}

#[test]
fn addition_binds_tighter_than_comparison() {
    let program = Parser::parse(words("1 + 2 < 4 ;")).unwrap();
    let sum = bin(lit(Literal::Integer(1), (1, 1)), BinaryOperator::Add, lit(Literal::Integer(2), (1, 3)));
    let expected = Program {
        statements: vec![expr_stmt(bin(sum, BinaryOperator::LessThan, lit(Literal::Integer(4), (1, 5))), (1, 1), (1, 6))],
    };
    assert_eq!(program, expected);
}

#[test]
fn parsing_twice_gives_equal_trees() {
    let tokens = words("int f ( int a , bool b ) { if a < 3 { return a ; } else { return 0 ; } } f ( 1 , true ) ;");
    let first = Parser::parse(tokens.clone());
    let second = Parser::parse(tokens);
    assert!(first.is_ok());
    assert_eq!(first, second);
}

#[test]
fn variable_declaration_with_value() {
    // int x = 5;
    let program = Parser::parse(words("int x = 5 ;")).unwrap();
    let expected = Program {
        statements: vec![Spanned {
            node: Statement::VariableDeclaration {
                type_: "int".to_string(),
                name: "x".to_string(),
                value: Some(lit(Literal::Integer(5), (1, 4))),
            },
            span: sp((1, 1), (1, 5)),
        }],
    };
    assert_eq!(program, expected);
}

#[test]
fn postfix_chain_parses_left_to_right() {
    // a.b(c).d;
    let program = Parser::parse(words("a . b ( c ) . d ;")).unwrap();
    let ab = Spanned {
        node: Expression::MemberAccess { object: Box::new(ident("a", (1, 1))), member: "b".to_string() },
        span: sp((1, 1), (1, 3)),
    };
    let call = Spanned {
        node: Expression::Call { callee: Box::new(ab), arguments: vec![ident("c", (1, 5))] },
        span: sp((1, 1), (1, 6)),
    };
    let d = Spanned {
        node: Expression::MemberAccess { object: Box::new(call), member: "d".to_string() },
        span: sp((1, 1), (1, 8)),
    };
    let expected = Program { statements: vec![expr_stmt(d, (1, 1), (1, 9))] };
    assert_eq!(program, expected);
}

#[test]
fn member_assignment_through_parentheses_parses() {
    let program = Parser::parse(words("( a + b ) . x = 1 ;")).unwrap();
    match &program.statements[0].node {
        Statement::Assignment { assignee, value } => {
            assert!(matches!(assignee.node, Expression::MemberAccess { .. }));
            assert_eq!(*value, lit(Literal::Integer(1), (1, 9)));
        }
        other => panic!("unexpected statement {other:?}"),
    }
}

#[test]
fn identifier_followed_by_operator_is_refused() {
    let err = Parser::parse(words("x + 1 ;")).err().unwrap();
    assert_eq!(err, ParseError::UnexpectedToken { found: TokenKind::Plus, position: (1, 2) });
}

#[test]
fn class_inside_function_is_refused() {
    let err = Parser::parse(words("void f ( ) { class C { } }")).err().unwrap();
    assert_eq!(err, ParseError::IllegalContextUse { construct: Construct::Class, position: (1, 6) });
}

#[test]
fn nested_function_is_refused() {
    let err = Parser::parse(words("void f ( ) { int g ( ) { } }")).err().unwrap();
    assert_eq!(err, ParseError::IllegalContextUse { construct: Construct::Function, position: (1, 6) });
}

#[test]
fn self_outside_class_is_refused() {
    let err = Parser::parse(words("void f ( ) { self . x = 1 ; }")).err().unwrap();
    assert_eq!(err, ParseError::IllegalContextUse { construct: Construct::SelfValue, position: (1, 6) });
}

#[test]
fn self_in_static_method_is_refused() {
    let err = Parser::parse(words("class C { static void m ( ) { self . x = 1 ; } }")).err().unwrap();
    assert_eq!(err, ParseError::IllegalContextUse { construct: Construct::SelfValue, position: (1, 10) });
}

#[test]
fn static_outside_class_is_refused() {
    let err = Parser::parse(words("static int x ;")).err().unwrap();
    assert_eq!(err, ParseError::IllegalContextUse { construct: Construct::Static, position: (1, 1) });
}

#[test]
fn missing_end_marker_is_end_of_input() {
    let tokens = vec![Token::new(TokenKind::Integer(1), 1, 1), Token::new(TokenKind::Semicolon, 1, 2)];
    assert_eq!(Parser::parse(tokens).err().unwrap(), ParseError::UnexpectedEndOfInput);
}

#[test]
fn empty_program_parses() {
    assert_eq!(Parser::parse(words("")).unwrap(), Program { statements: vec![] });
}

#[test]
fn if_else_chain_and_while_parse() {
    let program = Parser::parse(words("if a { b ; } else if c { d ; } else { e ; } while x { y ; }")).unwrap();
    assert_eq!(program.statements.len(), 2);
    match &program.statements[0].node {
        Statement::If { conditional_branches, else_branch } => {
            assert_eq!(conditional_branches.len(), 2);
            assert_eq!(else_branch.as_ref().map(|b| b.len()), Some(1));
        }
        other => panic!("unexpected statement {other:?}"),
    }
    assert!(matches!(program.statements[1].node, Statement::While { .. }));
    assert_eq!(program.statements[0].span, sp((1, 1), (1, 18)));
}

#[test]
fn class_members_parse() {
    let program = Parser::parse(words("class C { int f ; static int g = 1 ; Self m ( Self o ) { return self ; } }")).unwrap();
    match &program.statements[0].node {
        Statement::ClassDeclaration { name, body } => {
            assert_eq!(name, "C");
            assert_eq!(body.len(), 3);
            assert!(matches!(&body[1].node, Statement::FieldDeclaration { static_: true, .. }));
            match &body[2].node {
                Statement::MethodDeclaration { return_type, parameters, static_, .. } => {
                    assert_eq!(return_type, "Self");
                    assert_eq!(parameters, &vec![("Self".to_string(), "o".to_string())]);
                    assert!(!static_);
                }
                other => panic!("unexpected member {other:?}"),
            }
        }
        other => panic!("unexpected statement {other:?}"),
    }
}

#[test]
fn class_inside_class_is_refused() {
    let err = Parser::parse(words("class A { class B { } }")).err().unwrap();
    assert_eq!(err, ParseError::IllegalContextUse { construct: Construct::Class, position: (1, 4) });
}

#[test]
fn call_cannot_be_assigned() {
    let err = Parser::parse(words("f ( x ) = 1 ;")).err().unwrap();
    assert_eq!(
        err,
        ParseError::ExpectedToken { expected: TokenClass::Semicolon, found: TokenKind::Equals, position: (1, 5) }
    );
    assert!(Parser::parse(words("f ( x ) . y = 1 ;")).is_ok());
}

#[test]
fn chained_comparison_of_compound_operands_is_refused() {
    let err = Parser::parse(words("( 1 ) < x . y < 3 ;")).err().unwrap();
    assert_eq!(err, ParseError::ChainedComparison { position: (1, 8) });
}

#[test]
fn class_inside_if_is_refused() {
    let err = Parser::parse(words("if true { class C { } }")).err().unwrap();
    assert_eq!(err, ParseError::IllegalContextUse { construct: Construct::Class, position: (1, 4) });
}

#[test]
fn function_inside_while_is_refused() {
    let err = Parser::parse(words("while true { int f ( ) { } }")).err().unwrap();
    assert_eq!(err, ParseError::IllegalContextUse { construct: Construct::Function, position: (1, 4) });
}
