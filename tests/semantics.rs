use frontend::analyzer::SemanticAnalyzer;
use frontend::ast::{Expression, Literal, Program, Span, Spanned, Statement};
use frontend::errors::{decimal, SemanticError, SemanticErrorType};
use frontend::parser::Parser;
use frontend::scope::Scope;
use frontend::token::{Keyword, Token, TokenKind};
use frontend::types::{Class, Field, Function, Type};

/// Tokens from space-separated words on line 1, one column per word.
fn lex_words(src: &str) -> Vec<Token> {
    let mut out = Vec::new();
    for (i, w) in src.split_whitespace().enumerate() {
        let kind = match w {
            "+" => TokenKind::Plus,
            "-" => TokenKind::Minus,
            "*" => TokenKind::Asterisk,
            "/" => TokenKind::Slash,
            "(" => TokenKind::LeftParen,
            ")" => TokenKind::RightParen,
            "{" => TokenKind::LeftBrace,
            "}" => TokenKind::RightBrace,
            "," => TokenKind::Comma,
            "." => TokenKind::Dot,
            "=" => TokenKind::Equals,
            "==" => TokenKind::DoubleEquals,
            "!=" => TokenKind::NotEquals,
            "<" => TokenKind::LessThan,
            ">" => TokenKind::GreaterThan,
            "&&" => TokenKind::And,
            "||" => TokenKind::Or,
            "!" => TokenKind::Bang,
            ";" => TokenKind::Semicolon,
            "true" => TokenKind::Boolean(true),
            "false" => TokenKind::Boolean(false),
            "1.5" => TokenKind::Float(1.5f64.to_bits()),
            "if" => TokenKind::Keyword(Keyword::If),
            "else" => TokenKind::Keyword(Keyword::Else),
            "while" => TokenKind::Keyword(Keyword::While),
            "return" => TokenKind::Keyword(Keyword::Return),
            "class" => TokenKind::Keyword(Keyword::Class),
            "static" => TokenKind::Keyword(Keyword::Static),
            "self" => TokenKind::Keyword(Keyword::SelfValue),
            "Self" => TokenKind::Keyword(Keyword::SelfType),
            _ => {
                if let Ok(v) = w.parse::<i64>() {
                    TokenKind::Integer(v)
                } else if w.starts_with('"') {
                    TokenKind::String(w.trim_matches('"').to_string())
                } else {
                    TokenKind::Identifier(w.to_string())
                }
            }
        };
        out.push(Token::new(kind, 1, i + 1));
    }
    let n = out.len();
    out.push(Token::new(TokenKind::EndOfFile, 1, n + 1));
    out
}

fn run(src: &str) -> Result<(), SemanticError> {
    SemanticAnalyzer::analyze(Parser::parse(lex_words(src)).unwrap())
}

fn kind_of(src: &str) -> SemanticErrorType {
    run(src).err().unwrap().error_type
}

fn s(x: &str) -> String {
    x.to_string()
}

#[test]
fn declaration_registers_initialized_variable() {
    let program = Parser::parse(lex_words("int x = 5 ;")).unwrap();
    match &program.statements[0].node {
        Statement::VariableDeclaration { type_, name, value } => {
            assert_eq!(type_, "int");
            assert_eq!(name, "x");
            assert_eq!(
                value,
                &Some(Spanned { node: Expression::Literal(Literal::Integer(5)), span: Span { start: (1, 4), end: (1, 4) } })
            );
        }
        other => panic!("unexpected statement {other:?}"),
    }
    let scope = SemanticAnalyzer::analyze_with_scope(&program).unwrap();
    assert_eq!(scope.get_variable(&s("x"), (0, 0)), Ok(Type::Int));
}

#[test]
fn assignment_to_undeclared_variable_fails() {
    let err = run("x = 5 ;").err().unwrap();
    assert_eq!(err, SemanticError { error_type: SemanticErrorType::VariableNotFound(s("x")), line: 1, column: 1 });
}

#[test]
fn self_field_assignment_in_method() {
    assert_eq!(run("class C { int f ; void m ( ) { self . f = 1 ; } }"), Ok(()));
}

#[test]
fn self_field_assignment_checks_field_type() {
    assert_eq!(
        kind_of("class C { int f ; void m ( ) { self . f = \"s\" ; } }"),
        SemanticErrorType::VariableAssignmentTypeMismatch { expected: s("int"), found: s("string") }
    );
}

#[test]
fn field_assignment_through_expression_fails() {
    assert_eq!(kind_of("( a + b ) . x = 1 ;"), SemanticErrorType::IllegalInstanceFieldAssignment(s("x")));
}

#[test]
fn function_named_like_variable_fails() {
    assert_eq!(
        run("int x = 1 ; int x ( ) { return 1 ; }").err().unwrap(),
        SemanticError { error_type: SemanticErrorType::ShadowingFunction(s("x")), line: 1, column: 6 }
    );
}

#[test]
fn nested_scope_may_shadow_variable() {
    assert_eq!(run("int x = 1 ; void f ( ) { int x = 2 ; x = 3 ; }"), Ok(()));
}

#[test]
fn assignment_to_outer_variable_fails() {
    assert_eq!(
        run("int x = 1 ; void f ( ) { x = 2 ; }").err().unwrap(),
        SemanticError { error_type: SemanticErrorType::VariableNotFound(s("x")), line: 1, column: 11 }
    );
}

#[test]
fn outer_variable_can_be_read() {
    assert_eq!(run("int x = 1 ; int f ( ) { return x + 1 ; }"), Ok(()));
}

#[test]
fn scope_refuses_function_over_variable() {
    let mut scope = Scope::new(None);
    assert_eq!(scope.add_variable(s("x"), Type::Int, (1, 1)), Ok(()));
    let f = Function { parameters: vec![], return_type: Type::Void, is_static: false };
    assert_eq!(
        scope.add_function(s("x"), f, (2, 3)),
        Err(SemanticError { error_type: SemanticErrorType::ShadowingFunction(s("x")), line: 2, column: 3 })
    );
}

#[test]
fn scope_allows_shadowing_in_child() {
    let mut outer = Scope::new(None);
    assert_eq!(outer.add_variable(s("x"), Type::Int, (1, 1)), Ok(()));
    assert_eq!(outer.assign_variable(&s("x"), &Type::Int, (1, 1)), Ok(()));
    let mut inner = Scope::new(Some(Box::new(outer)));
    assert_eq!(inner.get_variable(&s("x"), (0, 0)), Ok(Type::Int));
    assert_eq!(inner.add_variable(s("x"), Type::String, (2, 1)), Ok(()));
    assert_eq!(inner.assign_variable(&s("x"), &Type::String, (2, 1)), Ok(()));
    assert_eq!(inner.get_variable(&s("x"), (0, 0)), Ok(Type::String));
}

#[test]
fn scope_class_lookups() {
    let mut scope = Scope::new(None);
    let class = Class {
        name: s("P"),
        fields: vec![(s("x"), Field { field_type: Type::Int, is_static: false })],
        methods: vec![(s("m"), Function { parameters: vec![Type::Int], return_type: Type::Boolean, is_static: true })],
    };
    assert_eq!(scope.add_class(class, (1, 1)), Ok(()));
    assert_eq!(scope.get_class_field(&s("P"), &s("x"), (0, 0)).unwrap().field_type, Type::Int);
    assert_eq!(scope.get_class_method(&s("P"), &s("m"), (0, 0)).unwrap().return_type, Type::Boolean);
    assert_eq!(
        scope.get_class_field(&s("P"), &s("y"), (4, 5)).err().unwrap().error_type,
        SemanticErrorType::FieldNotFound { class: s("P"), field: s("y") }
    );
    assert_eq!(
        scope.get_class_method(&s("P"), &s("n"), (4, 5)).err().unwrap().error_type,
        SemanticErrorType::MethodNotFound { class: s("P"), method: s("n") }
    );
    assert_eq!(
        scope.get_class(&s("Q"), (4, 5)).err().unwrap().error_type,
        SemanticErrorType::ClassNotFound(s("Q"))
    );
    assert_eq!(scope.assign_field(&s("P"), &s("x"), &Type::Int, (0, 0)), Ok(()));
    assert_eq!(
        scope.assign_field(&s("P"), &s("x"), &Type::Float, (0, 0)).err().unwrap().error_type,
        SemanticErrorType::VariableAssignmentTypeMismatch { expected: s("int"), found: s("float") }
    );
    assert_eq!(
        scope.add_variable(s("P"), Type::Int, (7, 7)).err().unwrap().error_type,
        SemanticErrorType::ShadowingVariable(s("P"))
    );
}

#[test]
fn scope_local_lookup_ignores_parent() {
    let mut outer = Scope::new(None);
    assert_eq!(outer.add_variable(s("x"), Type::Int, (1, 1)), Ok(()));
    let inner = Scope::new(Some(Box::new(outer)));
    assert_eq!(
        inner.get_local_variable(&s("x"), (3, 4)).err().unwrap().error_type,
        SemanticErrorType::VariableNotFound(s("x"))
    );
    assert_eq!(inner.get_function(&s("f"), (3, 4)).err().unwrap().error_type, SemanticErrorType::FunctionNotFound(s("f")));
}

#[test]
fn class_named_like_function_fails() {
    assert_eq!(kind_of("void C ( ) { } class C { }"), SemanticErrorType::ShadowingClass(s("C")));
}

#[test]
fn variable_named_like_class_fails() {
    assert_eq!(kind_of("class C { } int C ;"), SemanticErrorType::ShadowingVariable(s("C")));
}

#[test]
fn reading_uninitialized_variable_fails() {
    assert_eq!(kind_of("int x ; int y = x ;"), SemanticErrorType::VariableUninitialized(s("x")));
}

#[test]
fn declaration_with_wrong_type_fails() {
    assert_eq!(
        kind_of("int x = true ;"),
        SemanticErrorType::VariableAssignmentTypeMismatch { expected: s("int"), found: s("bool") }
    );
}

#[test]
fn calling_unknown_function_fails() {
    assert_eq!(kind_of("f ( ) ;"), SemanticErrorType::FunctionNotFound(s("f")));
}

#[test]
fn member_of_unknown_class_fails() {
    assert_eq!(kind_of("D d ; d = d ;"), SemanticErrorType::VariableUninitialized(s("d")));
    assert_eq!(kind_of("int n = 1 ; n . f = 2 ;"), SemanticErrorType::ClassNotFound(s("int")));
}

#[test]
fn unknown_field_and_method_fail() {
    assert_eq!(
        kind_of("class C { int f ; } C c ; c = C . g ;"),
        SemanticErrorType::FieldNotFound { class: s("C"), field: s("g") }
    );
    assert_eq!(
        kind_of("class C { int f ; } C . m ( ) ;"),
        SemanticErrorType::MethodNotFound { class: s("C"), method: s("m") }
    );
}

#[test]
fn duplicate_field_fails() {
    assert_eq!(kind_of("class C { int f ; bool f ; }"), SemanticErrorType::DuplicateField(s("f")));
}

#[test]
fn field_and_method_name_conflict_fails() {
    assert_eq!(kind_of("class C { int f ; void f ( ) { } }"), SemanticErrorType::FieldMethodNameConflict(s("f")));
    assert_eq!(kind_of("class C { void f ( ) { } int f ; }"), SemanticErrorType::FieldMethodNameConflict(s("f")));
}

#[test]
fn field_initializer_with_wrong_type_fails() {
    assert_eq!(
        kind_of("class C { int f = 1.5 ; }"),
        SemanticErrorType::FieldInitializationTypeMismatch { expected: s("int"), found: s("float") }
    );
}

#[test]
fn assignment_to_literal_fails() {
    let stmt = Spanned {
        node: Statement::Assignment {
            assignee: Box::new(Spanned { node: Expression::Literal(Literal::Integer(1)), span: Span { start: (2, 2), end: (2, 2) } }),
            value: Spanned { node: Expression::Literal(Literal::Integer(2)), span: Span { start: (2, 6), end: (2, 6) } },
        },
        span: Span { start: (2, 2), end: (2, 7) },
    };
    assert_eq!(
        SemanticAnalyzer::analyze(Program { statements: vec![stmt] }),
        Err(SemanticError { error_type: SemanticErrorType::InvalidAssignmentTarget(s("Literal")), line: 2, column: 2 })
    );
}

#[test]
fn condition_must_be_bool() {
    assert_eq!(
        kind_of("while 1 { }"),
        SemanticErrorType::TypeMismatch { expected: s("bool"), found: s("int") }
    );
    assert_eq!(run("if true { } else if false { } else { }"), Ok(()));
}

#[test]
fn return_type_is_checked() {
    assert_eq!(
        kind_of("int f ( ) { return true ; }"),
        SemanticErrorType::TypeMismatch { expected: s("int"), found: s("bool") }
    );
    assert_eq!(
        kind_of("int f ( ) { return ; }"),
        SemanticErrorType::TypeMismatch { expected: s("int"), found: s("void") }
    );
}

#[test]
fn operators_check_operand_types() {
    assert_eq!(
        kind_of("1 + true ;"),
        SemanticErrorType::InvalidOperands { operator: s("+"), left: s("int"), right: s("bool") }
    );
    assert_eq!(kind_of("! 1 ;"), SemanticErrorType::InvalidOperand { operator: s("!"), operand: s("int") });
    assert_eq!(run("\"a\" + \"b\" == \"ab\" ;"), Ok(()));
}

#[test]
fn call_arguments_are_checked() {
    assert_eq!(
        kind_of("int f ( int a ) { return a ; } f ( ) ;"),
        SemanticErrorType::ArgumentCountMismatch { function: s("f"), expected: 1, found: 0 }
    );
    assert_eq!(
        kind_of("int f ( int a ) { return a ; } f ( true ) ;"),
        SemanticErrorType::TypeMismatch { expected: s("int"), found: s("bool") }
    );
    assert_eq!(run("int f ( int a , bool b ) { return a ; } int y = f ( 1 , true ) ;"), Ok(()));
}

#[test]
fn calling_a_literal_fails() {
    assert_eq!(kind_of("( 1 ) ( ) ;"), SemanticErrorType::InvalidCallTarget(s("Literal")));
}

#[test]
fn member_outside_class_fails() {
    let stmt = Spanned {
        node: Statement::FieldDeclaration { type_: s("int"), name: s("f"), static_: false, value: None },
        span: Span { start: (3, 1), end: (3, 6) },
    };
    assert_eq!(
        SemanticAnalyzer::analyze(Program { statements: vec![stmt] }),
        Err(SemanticError { error_type: SemanticErrorType::MisplacedMember(s("FieldDeclaration")), line: 3, column: 1 })
    );
}

#[test]
fn methods_and_static_fields_resolve() {
    let src = "class P { static int count ; int x ; int get ( ) { return self . x ; } Self me ( ) { return self ; } } \
               P p ; P . count = 2 ; int f ( P q ) { q . x = 1 ; return q . get ( ) ; }";
    assert_eq!(run(src), Ok(()));
}

#[test]
fn error_messages_read_well() {
    let e = SemanticError { error_type: SemanticErrorType::VariableNotFound(s("x")), line: 3, column: 14 };
    assert_eq!(
        e.error_message(),
        "SemanticAnalysisError: 'VariableNotFound' at [3:14]: Tried to access variable 'x' which does not exist in the current or any parent scope"
    );
    assert_eq!(e.error_type.error_name(), "VariableNotFound");
    assert_eq!(
        SemanticErrorType::VariableAssignmentTypeMismatch { expected: s("int"), found: s("bool") }.message(),
        "Tried to assign a value of type 'bool' to a variable of type 'int'"
    );
    assert_eq!(
        SemanticErrorType::ArgumentCountMismatch { function: s("f"), expected: 2, found: 10 }.message(),
        "Function 'f' takes 2 arguments but was given '10'"
    );
    assert_eq!(
        SemanticErrorType::ShadowingFunction(s("x")).message(),
        "Cannot declare function 'x' because a variable or class with that name already exists in the current scope"
    );
}

#[test]
fn decimal_writes_digits() {
    assert_eq!(decimal(0), "0");
    assert_eq!(decimal(7), "7");
    assert_eq!(decimal(1090), "1090");
    assert_eq!(decimal(usize::MAX), usize::MAX.to_string());
}

#[test]
fn type_names_round_trip() {
    for name in ["int", "float", "bool", "string", "void"] {
        assert_eq!(Type::from_name(&s(name)).name(), name);
    }
    assert_eq!(Type::from_name(&s("Self")), Type::SelfType);
    assert_eq!(Type::from_name(&s("Point")), Type::Class(s("Point")));
}

#[test]
fn function_body_leaves_enclosing_scope_unchanged() {
    let program = Parser::parse(lex_words("int x = 1 ; void f ( int p ) { int y = 2 ; } ")).unwrap();
    let scope = SemanticAnalyzer::analyze_with_scope(&program).unwrap();
    assert_eq!(scope.get_variable(&s("x"), (0, 0)), Ok(Type::Int));
    assert_eq!(scope.get_variable(&s("y"), (5, 6)).err().unwrap().error_type, SemanticErrorType::VariableNotFound(s("y")));
    assert_eq!(scope.get_variable(&s("p"), (5, 6)).err().unwrap().error_type, SemanticErrorType::VariableNotFound(s("p")));
    assert_eq!(
        scope.get_function(&s("f"), (0, 0)),
        Ok(Function { parameters: vec![Type::Int], return_type: Type::Void, is_static: false })
    );
}

#[test]
fn scope_assigns_variable_of_enclosing_scope() {
    let mut outer = Scope::new(None);
    assert_eq!(outer.add_variable(s("x"), Type::Int, (1, 1)), Ok(()));
    let mut inner = Scope::new(Some(Box::new(outer)));
    assert_eq!(
        inner.get_variable(&s("x"), (2, 2)).err().unwrap().error_type,
        SemanticErrorType::VariableUninitialized(s("x"))
    );
    assert_eq!(
        inner.assign_variable(&s("x"), &Type::Float, (2, 2)).err().unwrap().error_type,
        SemanticErrorType::VariableAssignmentTypeMismatch { expected: s("int"), found: s("float") }
    );
    assert_eq!(inner.assign_variable(&s("x"), &Type::Int, (2, 2)), Ok(()));
    assert_eq!(inner.get_variable(&s("x"), (2, 2)), Ok(Type::Int));
    assert_eq!(inner.get_local_variable(&s("x"), (2, 2)).err().unwrap().error_type, SemanticErrorType::VariableNotFound(s("x")));
    assert_eq!(
        inner.assign_variable(&s("y"), &Type::Int, (3, 3)),
        Err(SemanticError { error_type: SemanticErrorType::VariableNotFound(s("y")), line: 3, column: 3 })
    );
}

#[test]
fn nested_function_in_body_fails() {
    let inner = Parser::parse(lex_words("void g ( ) { }")).unwrap().statements.remove(0);
    let mut program = Parser::parse(lex_words("void f ( ) { }")).unwrap();
    match &mut program.statements[0].node {
        Statement::FunctionDeclaration { body, .. } => body.push(inner),
        other => panic!("unexpected statement {other:?}"),
    }
    assert_eq!(
        SemanticAnalyzer::analyze(program),
        Err(SemanticError { error_type: SemanticErrorType::MisplacedMember(s("FunctionDeclaration")), line: 1, column: 1 })
    );
}

#[test]
fn class_in_body_fails() {
    let inner = Parser::parse(lex_words("class C { }")).unwrap().statements.remove(0);
    let mut program = Parser::parse(lex_words("void f ( ) { }")).unwrap();
    match &mut program.statements[0].node {
        Statement::FunctionDeclaration { body, .. } => body.push(inner),
        other => panic!("unexpected statement {other:?}"),
    }
    assert_eq!(
        SemanticAnalyzer::analyze(program).err().unwrap().error_type,
        SemanticErrorType::MisplacedMember(s("ClassDeclaration"))
    );
}
