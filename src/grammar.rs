//! The language's grammar, as spec functions from a token sequence and a position to the
//! parsed model and the position after it. The executable parser is proved to agree with it.
use vstd::prelude::*;
use crate::ast::{BinaryOperator, ExprM, ExpressionM, LiteralM, Span, StatementM, StmtM, UnaryOperator};
use crate::token::{class_of, Keyword, Token, TokenClass, TokenKind};

verus! {

/// Constructs whose legality depends on where they stand.
#[derive(Debug, Clone, Copy, PartialEq, Eq, Structural)]
pub enum Construct {
    /// `self`: only in bodies of non-static methods.
    SelfValue,
    /// `Self`: only in bodies and signatures of non-static methods.
    SelfType,
    /// `static`: only on members of a class.
    Static,
    /// `class`: only at the top level.
    Class,
    /// A function declaration: only at the top level.
    Function,
}

/// A syntax error with the position of the offending token.
#[derive(Debug, PartialEq)]
pub enum ParseError {
    /// The tokens ran out before the end marker.
    UnexpectedEndOfInput,
    /// A token that cannot stand where it stands.
    UnexpectedToken { found: TokenKind, position: (usize, usize) },
    /// A token other than the one the grammar requires here.
    ExpectedToken { expected: TokenClass, found: TokenKind, position: (usize, usize) },
    /// A second comparison operator in one chain, such as the second `<` of `a < b < c`.
    ChainedComparison { position: (usize, usize) },
    /// `self`, `Self`, `static`, `class` or a function declaration out of its place.
    IllegalContextUse { construct: Construct, position: (usize, usize) },
}

/// Where the parser stands: outside the top level, inside a class method, inside a static
/// member.
#[derive(Debug, Clone, Copy, PartialEq, Eq, Structural)]
pub struct ParseContext {
    /// Not at the top level of the program.
    pub nested: bool,
    /// In the body of a method of a class.
    pub in_class: bool,
    /// In a static member.
    pub in_static: bool,
}

pub open spec fn top_ctx() -> ParseContext {
    ParseContext { nested: false, in_class: false, in_static: false }
}

pub open spec fn function_ctx() -> ParseContext {
    ParseContext { nested: true, in_class: false, in_static: false }
}

pub open spec fn method_ctx(is_static: bool) -> ParseContext {
    ParseContext { nested: true, in_class: true, in_static: is_static }
}

/// The context of a block inside `if` or `while`: no longer the top level.
pub open spec fn nested(c: ParseContext) -> ParseContext {
    ParseContext { nested: true, ..c }
}

/// `self` and `Self` may stand here.
pub open spec fn self_ok(c: ParseContext) -> bool {
    c.in_class && !c.in_static
}

pub open spec fn pos_at(t: Seq<Token>, i: int) -> (usize, usize) {
    (t[i].line, t[i].column)
}

pub open spec fn span_of(t: Seq<Token>, i: int, j: int) -> Span {
    Span { start: pos_at(t, i), end: pos_at(t, j) }
}

pub open spec fn present(t: Seq<Token>, i: int) -> bool {
    0 <= i < t.len()
}

pub open spec fn is_class(t: Seq<Token>, i: int, c: TokenClass) -> bool {
    present(t, i) && class_of(t[i].kind) == c
}

pub open spec fn is_keyword(t: Seq<Token>, i: int, k: Keyword) -> bool {
    present(t, i) && t[i].kind == TokenKind::Keyword(k)
}

/// Positions only move forward; a step that would not is refused.
pub open spec fn advances(t: Seq<Token>, i: int, j: int) -> bool {
    i < j <= t.len()
}

/// The error for a missing token of class `c` at `i`.
pub open spec fn expected_err(t: Seq<Token>, i: int, c: TokenClass) -> ParseError {
    if present(t, i) {
        ParseError::ExpectedToken { expected: c, found: t[i].kind, position: pos_at(t, i) }
    } else {
        ParseError::UnexpectedEndOfInput
    }
}

/// The error for a token at `i` that cannot stand there.
pub open spec fn unexpected_err(t: Seq<Token>, i: int) -> ParseError {
    if present(t, i) {
        ParseError::UnexpectedToken { found: t[i].kind, position: pos_at(t, i) }
    } else {
        ParseError::UnexpectedEndOfInput
    }
}

pub open spec fn binary_op_of(k: TokenKind) -> Option<BinaryOperator> {
    match k {
        TokenKind::Plus => Some(BinaryOperator::Add),
        TokenKind::Minus => Some(BinaryOperator::Subtract),
        TokenKind::Asterisk => Some(BinaryOperator::Multiply),
        TokenKind::Slash => Some(BinaryOperator::Divide),
        TokenKind::DoubleEquals => Some(BinaryOperator::Equals),
        TokenKind::NotEquals => Some(BinaryOperator::NotEquals),
        TokenKind::LessThan => Some(BinaryOperator::LessThan),
        TokenKind::GreaterThan => Some(BinaryOperator::GreaterThan),
        TokenKind::LessThanOrEqual => Some(BinaryOperator::LessThanOrEqual),
        TokenKind::GreaterThanOrEqual => Some(BinaryOperator::GreaterThanOrEqual),
        TokenKind::And => Some(BinaryOperator::And),
        TokenKind::Or => Some(BinaryOperator::Or),
        _ => None,
    }
}

/// Binding strength: `* /` 5, `+ -` 4, comparisons 3, `&&` 2, `||` 1.
pub open spec fn precedence(op: BinaryOperator) -> int {
    match op {
        BinaryOperator::Multiply | BinaryOperator::Divide => 5,
        BinaryOperator::Add | BinaryOperator::Subtract => 4,
        BinaryOperator::And => 2,
        BinaryOperator::Or => 1,
        _ => 3,
    }
}

pub open spec fn is_comparison(op: BinaryOperator) -> bool {
    precedence(op) == 3
}

pub open spec fn literal_of(k: TokenKind) -> Option<LiteralM> {
    match k {
        TokenKind::Integer(v) => Some(LiteralM::Integer(v)),
        TokenKind::Float(v) => Some(LiteralM::Float(v)),
        TokenKind::String(s) => Some(LiteralM::String(s@)),
        TokenKind::Boolean(b) => Some(LiteralM::Boolean(b)),
        _ => None,
    }
}

pub open spec fn ident_of(k: TokenKind) -> Option<Seq<char>> {
    match k {
        TokenKind::Identifier(s) => Some(s@),
        _ => None,
    }
}

pub open spec fn mk_expr(node: ExpressionM, span: Span) -> ExprM {
    ExprM { node, span }
}

pub open spec fn mk_stmt(node: StatementM, span: Span) -> StmtM {
    StmtM { node, span }
}

/// Result of parsing an expression: the model and the position after it.
pub type ExprRes = Result<(ExprM, int), ParseError>;

/// Result of parsing a statement.
pub type StmtRes = Result<(StmtM, int), ParseError>;

/// Result of parsing a list of statements.
pub type StmtsRes = Result<(Seq<StmtM>, int), ParseError>;

// ----------------------------------------------------------------------------- expressions

/// `expression := binary(0)`
pub open spec fn expression_s(t: Seq<Token>, i: int, c: ParseContext) -> ExprRes
    decreases t.len() - i, 9int,
{
    binary_s(t, i, 0, c)
}

/// Precedence climbing: a unary operand, then operators of precedence at least `min`.
pub open spec fn binary_s(t: Seq<Token>, i: int, min: int, c: ParseContext) -> ExprRes
    decreases t.len() - i, 8int,
{
    match unary_s(t, i, c) {
        Err(e) => Err(e),
        Ok((left, j)) => if advances(t, i, j) {
            climb_s(t, j, min, c, left, false)
        } else {
            Err(ParseError::UnexpectedEndOfInput)
        },
    }
}

/// The loop of precedence climbing; `chained` says that the operator just consumed on this
/// level was a comparison.
pub open spec fn climb_s(t: Seq<Token>, i: int, min: int, c: ParseContext, left: ExprM, chained: bool) -> ExprRes
    decreases t.len() - i, 4int,
{
    if !present(t, i) {
        Ok((left, i))
    } else {
        match binary_op_of(t[i].kind) {
            None => Ok((left, i)),
            Some(op) => if precedence(op) < min {
                Ok((left, i))
            } else if is_comparison(op) && chained {
                Err(ParseError::ChainedComparison { position: pos_at(t, i) })
            } else {
                match binary_s(t, i + 1, precedence(op) + 1, c) {
                    Err(e) => Err(e),
                    Ok((right, j)) => if advances(t, i, j) {
                        climb_s(t, j, min, c, mk_expr(
                            ExpressionM::Binary { left: Box::new(left), operator: op, right: Box::new(right) },
                            Span { start: left.span.start, end: right.span.end },
                        ), is_comparison(op))
                    } else {
                        Err(ParseError::UnexpectedEndOfInput)
                    },
                }
            },
        }
    }
}

/// `unary := '!' unary | primary`
pub open spec fn unary_s(t: Seq<Token>, i: int, c: ParseContext) -> ExprRes
    decreases t.len() - i, 7int,
{
    if is_class(t, i, TokenClass::Bang) {
        match unary_s(t, i + 1, c) {
            Err(e) => Err(e),
            Ok((operand, j)) => Ok((mk_expr(
                ExpressionM::Unary { operator: UnaryOperator::Not, operand: Box::new(operand) },
                Span { start: pos_at(t, i), end: operand.span.end },
            ), j)),
        }
    } else {
        primary_s(t, i, c)
    }
}

/// `primary := literal | '(' expression ')' postfix | identifier postfix | 'self' postfix`
pub open spec fn primary_s(t: Seq<Token>, i: int, c: ParseContext) -> ExprRes
    decreases t.len() - i, 6int,
{
    if !present(t, i) {
        Err(ParseError::UnexpectedEndOfInput)
    } else if literal_of(t[i].kind) is Some {
        Ok((mk_expr(ExpressionM::Literal(literal_of(t[i].kind)->0), span_of(t, i, i)), i + 1))
    } else if ident_of(t[i].kind) is Some {
        postfix_s(t, i + 1, c, mk_expr(ExpressionM::Identifier(ident_of(t[i].kind)->0), span_of(t, i, i)))
    } else if t[i].kind == TokenKind::Keyword(Keyword::SelfValue) {
        if self_ok(c) {
            postfix_s(t, i + 1, c, mk_expr(ExpressionM::SelfValue, span_of(t, i, i)))
        } else {
            Err(ParseError::IllegalContextUse { construct: Construct::SelfValue, position: pos_at(t, i) })
        }
    } else if t[i].kind == TokenKind::LeftParen {
        match expression_s(t, i + 1, c) {
            Err(e) => Err(e),
            Ok((inner, j)) => if !advances(t, i, j) {
                Err(ParseError::UnexpectedEndOfInput)
            } else if is_class(t, j, TokenClass::RightParen) {
                postfix_s(t, j + 1, c, mk_expr(inner.node, span_of(t, i, j)))
            } else {
                Err(expected_err(t, j, TokenClass::RightParen))
            },
        }
    } else {
        Err(unexpected_err(t, i))
    }
}

/// `postfix := ('.' identifier | '(' arguments ')')*`, applied left to right to `base`.
pub open spec fn postfix_s(t: Seq<Token>, i: int, c: ParseContext, base: ExprM) -> ExprRes
    decreases t.len() - i, 5int,
{
    if is_class(t, i, TokenClass::Dot) {
        if is_class(t, i + 1, TokenClass::Identifier) {
            postfix_s(t, i + 2, c, mk_expr(
                ExpressionM::MemberAccess { object: Box::new(base), member: ident_of(t[i + 1].kind)->0 },
                Span { start: base.span.start, end: pos_at(t, i + 1) },
            ))
        } else {
            Err(expected_err(t, i + 1, TokenClass::Identifier))
        }
    } else if is_class(t, i, TokenClass::LeftParen) {
        match arguments_s(t, i + 1, c) {
            Err(e) => Err(e),
            Ok((args, j)) => if advances(t, i, j) {
                postfix_s(t, j, c, mk_expr(
                    ExpressionM::Call { callee: Box::new(base), arguments: args },
                    Span { start: base.span.start, end: pos_at(t, j - 1) },
                ))
            } else {
                Err(ParseError::UnexpectedEndOfInput)
            },
        }
    } else {
        Ok((base, i))
    }
}

/// Arguments after `(`: `')'` or `expression (',' expression)* ')'`.
pub open spec fn arguments_s(t: Seq<Token>, i: int, c: ParseContext) -> Result<(Seq<ExprM>, int), ParseError>
    decreases t.len() - i, 11int,
{
    if is_class(t, i, TokenClass::RightParen) {
        Ok((Seq::empty(), i + 1))
    } else {
        more_arguments_s(t, i, c, Seq::empty())
    }
}

pub open spec fn more_arguments_s(t: Seq<Token>, i: int, c: ParseContext, acc: Seq<ExprM>) -> Result<(Seq<ExprM>, int), ParseError>
    decreases t.len() - i, 10int,
{
    match expression_s(t, i, c) {
        Err(e) => Err(e),
        Ok((arg, j)) => if !advances(t, i, j) {
            Err(ParseError::UnexpectedEndOfInput)
        } else if is_class(t, j, TokenClass::Comma) {
            more_arguments_s(t, j + 1, c, acc.push(arg))
        } else if is_class(t, j, TokenClass::RightParen) {
            Ok((acc.push(arg), j + 1))
        } else {
            Err(expected_err(t, j, TokenClass::RightParen))
        },
    }
}

// ------------------------------------------------------------------------------ statements

/// What follows an expression at the start of a statement: `'=' expression ';'` makes an
/// assignment to it, `';'` an expression statement. A call cannot be assigned to: after a
/// chain that ends in a call only `';'` may follow.
pub open spec fn finish_s(t: Seq<Token>, start: int, i: int, c: ParseContext, e: ExprM) -> StmtRes
    decreases t.len() - i, 20int,
{
    if is_class(t, i, TokenClass::Equals) && !(e.node is Call) {
        match expression_s(t, i + 1, c) {
            Err(err) => Err(err),
            Ok((v, j)) => if !advances(t, i, j) {
                Err(ParseError::UnexpectedEndOfInput)
            } else if is_class(t, j, TokenClass::Semicolon) {
                Ok((mk_stmt(StatementM::Assignment { assignee: e, value: v }, span_of(t, start, j)), j + 1))
            } else {
                Err(expected_err(t, j, TokenClass::Semicolon))
            },
        }
    } else if is_class(t, i, TokenClass::Semicolon) {
        Ok((mk_stmt(StatementM::Expression(e), span_of(t, start, i)), i + 1))
    } else {
        Err(expected_err(t, i, TokenClass::Semicolon))
    }
}

/// A statement that starts with an expression: the expression, then `finish`.
pub open spec fn expression_statement_s(t: Seq<Token>, i: int, c: ParseContext) -> StmtRes
    decreases t.len() - i, 21int,
{
    match expression_s(t, i, c) {
        Err(e) => Err(e),
        Ok((e, j)) => if advances(t, i, j) {
            finish_s(t, i, j, c, e)
        } else {
            Err(ParseError::UnexpectedEndOfInput)
        },
    }
}

/// A statement that starts with a postfix chain (`a.b = ..;`, `f(x);`, `self.f = ..;`).
pub open spec fn chain_statement_s(t: Seq<Token>, i: int, c: ParseContext) -> StmtRes
    decreases t.len() - i, 21int,
{
    match primary_s(t, i, c) {
        Err(e) => Err(e),
        Ok((e, j)) => if advances(t, i, j) {
            finish_s(t, i, j, c, e)
        } else {
            Err(ParseError::UnexpectedEndOfInput)
        },
    }
}

/// A variable declaration whose type stands at `i` and name at `i + 1`:
/// `';'` or `'=' expression ';'` follows.
pub open spec fn variable_rest_s(t: Seq<Token>, i: int, c: ParseContext, ty: Seq<char>, name: Seq<char>) -> StmtRes
    decreases t.len() - i, 20int,
{
    if is_class(t, i + 2, TokenClass::Semicolon) {
        Ok((mk_stmt(StatementM::VariableDeclaration { type_: ty, name, value: None }, span_of(t, i, i + 2)), i + 3))
    } else if is_class(t, i + 2, TokenClass::Equals) {
        match expression_s(t, i + 3, c) {
            Err(e) => Err(e),
            Ok((v, j)) => if !advances(t, i + 2, j) {
                Err(ParseError::UnexpectedEndOfInput)
            } else if is_class(t, j, TokenClass::Semicolon) {
                Ok((mk_stmt(StatementM::VariableDeclaration { type_: ty, name, value: Some(v) }, span_of(t, i, j)), j + 1))
            } else {
                Err(expected_err(t, j, TokenClass::Semicolon))
            },
        }
    } else {
        Err(unexpected_err(t, i + 2))
    }
}

/// The type name at `i`: an identifier, or `Self` where `allow_self` holds.
pub open spec fn type_name_s(t: Seq<Token>, i: int, allow_self: bool) -> Result<Seq<char>, ParseError> {
    if is_class(t, i, TokenClass::Identifier) {
        Ok(ident_of(t[i].kind)->0)
    } else if is_keyword(t, i, Keyword::SelfType) {
        if allow_self {
            Ok("Self"@)
        } else {
            Err(ParseError::IllegalContextUse { construct: Construct::SelfType, position: pos_at(t, i) })
        }
    } else {
        Err(expected_err(t, i, TokenClass::Identifier))
    }
}

pub type ParamsRes = Result<(Seq<(Seq<char>, Seq<char>)>, int), ParseError>;

/// Parameters after `(`: `')'` or `type name (',' type name)* ')'`.
pub open spec fn parameters_s(t: Seq<Token>, i: int, allow_self: bool) -> ParamsRes
    decreases t.len() - i, 11int,
{
    if is_class(t, i, TokenClass::RightParen) {
        Ok((Seq::empty(), i + 1))
    } else {
        more_parameters_s(t, i, allow_self, Seq::empty())
    }
}

pub open spec fn more_parameters_s(t: Seq<Token>, i: int, allow_self: bool, acc: Seq<(Seq<char>, Seq<char>)>) -> ParamsRes
    decreases t.len() - i, 10int,
{
    match type_name_s(t, i, allow_self) {
        Err(e) => Err(e),
        Ok(ty) => if !is_class(t, i + 1, TokenClass::Identifier) {
            Err(expected_err(t, i + 1, TokenClass::Identifier))
        } else if is_class(t, i + 2, TokenClass::Comma) {
            more_parameters_s(t, i + 3, allow_self, acc.push((ty, ident_of(t[i + 1].kind)->0)))
        } else if is_class(t, i + 2, TokenClass::RightParen) {
            Ok((acc.push((ty, ident_of(t[i + 1].kind)->0)), i + 3))
        } else {
            Err(expected_err(t, i + 2, TokenClass::RightParen))
        },
    }
}

/// `block := '{' statement* '}'`
pub open spec fn block_s(t: Seq<Token>, i: int, c: ParseContext) -> StmtsRes
    decreases t.len() - i, 26int,
{
    if is_class(t, i, TokenClass::LeftBrace) {
        block_rest_s(t, i + 1, c, Seq::empty())
    } else {
        Err(expected_err(t, i, TokenClass::LeftBrace))
    }
}

pub open spec fn block_rest_s(t: Seq<Token>, i: int, c: ParseContext, acc: Seq<StmtM>) -> StmtsRes
    decreases t.len() - i, 30int,
{
    if !present(t, i) {
        Err(ParseError::UnexpectedEndOfInput)
    } else if t[i].kind == TokenKind::RightBrace {
        Ok((acc, i + 1))
    } else {
        match statement_s(t, i, c) {
            Err(e) => Err(e),
            Ok((s, j)) => if advances(t, i, j) {
                block_rest_s(t, j, c, acc.push(s))
            } else {
                Err(ParseError::UnexpectedEndOfInput)
            },
        }
    }
}

/// A function declaration at `i`: return type, name, `(`, parameters, body.
pub open spec fn function_s(t: Seq<Token>, i: int) -> StmtRes
    decreases t.len() - i, 20int,
{
    match parameters_s(t, i + 3, false) {
        Err(e) => Err(e),
        Ok((params, j)) => if !advances(t, i, j) {
            Err(ParseError::UnexpectedEndOfInput)
        } else {
            match block_s(t, j, function_ctx()) {
                Err(e) => Err(e),
                Ok((body, k)) => if !advances(t, j, k) {
                    Err(ParseError::UnexpectedEndOfInput)
                } else {
                    Ok((mk_stmt(StatementM::FunctionDeclaration {
                        return_type: ident_of(t[i].kind)->0,
                        name: ident_of(t[i + 1].kind)->0,
                        parameters: params,
                        body,
                    }, span_of(t, i, k - 1)), k))
                },
            }
        },
    }
}

/// A statement that starts with an identifier, told apart by the token after it.
pub open spec fn identifier_statement_s(t: Seq<Token>, i: int, c: ParseContext) -> StmtRes
    decreases t.len() - i, 22int,
{
    if !present(t, i + 1) {
        Err(ParseError::UnexpectedEndOfInput)
    } else {
        match t[i + 1].kind {
            TokenKind::Identifier(name) => if is_class(t, i + 2, TokenClass::LeftParen) {
                if c.nested {
                    Err(ParseError::IllegalContextUse { construct: Construct::Function, position: pos_at(t, i) })
                } else {
                    function_s(t, i)
                }
            } else {
                variable_rest_s(t, i, c, ident_of(t[i].kind)->0, name@)
            },
            TokenKind::Dot | TokenKind::LeftParen | TokenKind::Equals | TokenKind::Semicolon =>
                chain_statement_s(t, i, c),
            _ => Err(unexpected_err(t, i + 1)),
        }
    }
}

/// `Self name [= value];` in a non-static method.
pub open spec fn self_type_statement_s(t: Seq<Token>, i: int, c: ParseContext) -> StmtRes
    decreases t.len() - i, 22int,
{
    if !self_ok(c) {
        Err(ParseError::IllegalContextUse { construct: Construct::SelfType, position: pos_at(t, i) })
    } else if is_class(t, i + 1, TokenClass::Identifier) {
        variable_rest_s(t, i, c, "Self"@, ident_of(t[i + 1].kind)->0)
    } else {
        Err(expected_err(t, i + 1, TokenClass::Identifier))
    }
}

/// `return;` or `return expression;`
pub open spec fn return_s(t: Seq<Token>, i: int, c: ParseContext) -> StmtRes
    decreases t.len() - i, 22int,
{
    if is_class(t, i + 1, TokenClass::Semicolon) {
        Ok((mk_stmt(StatementM::Return(None), span_of(t, i, i + 1)), i + 2))
    } else {
        match expression_s(t, i + 1, c) {
            Err(e) => Err(e),
            Ok((v, j)) => if !advances(t, i, j) {
                Err(ParseError::UnexpectedEndOfInput)
            } else if is_class(t, j, TokenClass::Semicolon) {
                Ok((mk_stmt(StatementM::Return(Some(v)), span_of(t, i, j)), j + 1))
            } else {
                Err(expected_err(t, j, TokenClass::Semicolon))
            },
        }
    }
}

/// `while condition block`
pub open spec fn while_s(t: Seq<Token>, i: int, c: ParseContext) -> StmtRes
    decreases t.len() - i, 22int,
{
    match expression_s(t, i + 1, c) {
        Err(e) => Err(e),
        Ok((cond, j)) => if !advances(t, i, j) {
            Err(ParseError::UnexpectedEndOfInput)
        } else {
            match block_s(t, j, nested(c)) {
                Err(e) => Err(e),
                Ok((body, k)) => if !advances(t, j, k) {
                    Err(ParseError::UnexpectedEndOfInput)
                } else {
                    Ok((mk_stmt(StatementM::While { condition: cond, body }, span_of(t, i, k - 1)), k))
                },
            }
        },
    }
}

/// `if condition block (else if condition block)* (else block)?`; `i` is at the `if`.
pub open spec fn if_s(t: Seq<Token>, i: int, c: ParseContext) -> StmtRes
    decreases t.len() - i, 22int,
{
    if_rest_s(t, i, i, c, Seq::empty())
}

/// One `if condition block` at `k`, then what may follow it.
pub open spec fn if_rest_s(t: Seq<Token>, start: int, k: int, c: ParseContext, acc: Seq<(ExprM, Seq<StmtM>)>) -> StmtRes
    decreases t.len() - k, 21int,
{
    match expression_s(t, k + 1, c) {
        Err(e) => Err(e),
        Ok((cond, j)) => if !advances(t, k, j) {
            Err(ParseError::UnexpectedEndOfInput)
        } else {
            match block_s(t, j, nested(c)) {
                Err(e) => Err(e),
                Ok((body, m)) => if !advances(t, j, m) {
                    Err(ParseError::UnexpectedEndOfInput)
                } else {
                    let branches = acc.push((cond, body));
                    if !is_keyword(t, m, Keyword::Else) {
                        Ok((mk_stmt(StatementM::If { conditional_branches: branches, else_branch: None }, span_of(t, start, m - 1)), m))
                    } else if is_keyword(t, m + 1, Keyword::If) {
                        if_rest_s(t, start, m + 1, c, branches)
                    } else {
                        match block_s(t, m + 1, nested(c)) {
                            Err(e) => Err(e),
                            Ok((else_body, n)) => if !advances(t, m, n) {
                                Err(ParseError::UnexpectedEndOfInput)
                            } else {
                                Ok((mk_stmt(StatementM::If { conditional_branches: branches, else_branch: Some(else_body) }, span_of(t, start, n - 1)), n))
                            },
                        }
                    }
                },
            }
        },
    }
}

/// `class name { member* }` at the top level.
pub open spec fn class_s(t: Seq<Token>, i: int) -> StmtRes
    decreases t.len() - i, 22int,
{
    if !is_class(t, i + 1, TokenClass::Identifier) {
        Err(expected_err(t, i + 1, TokenClass::Identifier))
    } else if !is_class(t, i + 2, TokenClass::LeftBrace) {
        Err(expected_err(t, i + 2, TokenClass::LeftBrace))
    } else {
        match members_s(t, i + 3, Seq::empty()) {
            Err(e) => Err(e),
            Ok((body, k)) => if !advances(t, i, k) {
                Err(ParseError::UnexpectedEndOfInput)
            } else {
                Ok((mk_stmt(StatementM::ClassDeclaration { name: ident_of(t[i + 1].kind)->0, body }, span_of(t, i, k - 1)), k))
            },
        }
    }
}

pub open spec fn members_s(t: Seq<Token>, i: int, acc: Seq<StmtM>) -> StmtsRes
    decreases t.len() - i, 30int,
{
    if !present(t, i) {
        Err(ParseError::UnexpectedEndOfInput)
    } else if t[i].kind == TokenKind::RightBrace {
        Ok((acc, i + 1))
    } else {
        match member_s(t, i) {
            Err(e) => Err(e),
            Ok((s, j)) => if advances(t, i, j) {
                members_s(t, j, acc.push(s))
            } else {
                Err(ParseError::UnexpectedEndOfInput)
            },
        }
    }
}

/// A class member at `i`: `[static] type name` then `;`, `= value ;` (a field) or
/// `( parameters ) block` (a method).
pub open spec fn member_s(t: Seq<Token>, i: int) -> StmtRes
    decreases t.len() - i, 25int,
{
    let is_static = is_keyword(t, i, Keyword::Static);
    let p = if is_static { i + 1 } else { i };
    if is_keyword(t, p, Keyword::Class) {
        Err(ParseError::IllegalContextUse { construct: Construct::Class, position: pos_at(t, p) })
    } else {
        match type_name_s(t, p, !is_static) {
            Err(e) => Err(e),
            Ok(ty) => if !is_class(t, p + 1, TokenClass::Identifier) {
                Err(expected_err(t, p + 1, TokenClass::Identifier))
            } else {
                let name = ident_of(t[p + 1].kind)->0;
                if is_class(t, p + 2, TokenClass::Semicolon) {
                    Ok((mk_stmt(StatementM::FieldDeclaration { type_: ty, name, static_: is_static, value: None }, span_of(t, i, p + 2)), p + 3))
                } else if is_class(t, p + 2, TokenClass::Equals) {
                    match expression_s(t, p + 3, function_ctx()) {
                        Err(e) => Err(e),
                        Ok((v, j)) => if !advances(t, p, j) {
                            Err(ParseError::UnexpectedEndOfInput)
                        } else if is_class(t, j, TokenClass::Semicolon) {
                            Ok((mk_stmt(StatementM::FieldDeclaration { type_: ty, name, static_: is_static, value: Some(v) }, span_of(t, i, j)), j + 1))
                        } else {
                            Err(expected_err(t, j, TokenClass::Semicolon))
                        },
                    }
                } else if is_class(t, p + 2, TokenClass::LeftParen) {
                    match parameters_s(t, p + 3, !is_static) {
                        Err(e) => Err(e),
                        Ok((params, j)) => if !advances(t, p, j) {
                            Err(ParseError::UnexpectedEndOfInput)
                        } else {
                            match block_s(t, j, method_ctx(is_static)) {
                                Err(e) => Err(e),
                                Ok((body, k)) => if !advances(t, j, k) {
                                    Err(ParseError::UnexpectedEndOfInput)
                                } else {
                                    Ok((mk_stmt(StatementM::MethodDeclaration {
                                        return_type: ty,
                                        name,
                                        parameters: params,
                                        body,
                                        static_: is_static,
                                    }, span_of(t, i, k - 1)), k))
                                },
                            }
                        },
                    }
                } else {
                    Err(unexpected_err(t, p + 2))
                }
            },
        }
    }
}

/// One statement at `i`: keywords pick their rule; an identifier is told apart by the token
/// after it; anything else starts an expression.
pub open spec fn statement_s(t: Seq<Token>, i: int, c: ParseContext) -> StmtRes
    decreases t.len() - i, 25int,
{
    if !present(t, i) {
        Err(ParseError::UnexpectedEndOfInput)
    } else {
        match t[i].kind {
            TokenKind::Keyword(Keyword::If) => if_s(t, i, c),
            TokenKind::Keyword(Keyword::While) => while_s(t, i, c),
            TokenKind::Keyword(Keyword::Return) => return_s(t, i, c),
            TokenKind::Keyword(Keyword::Class) => if c.nested {
                Err(ParseError::IllegalContextUse { construct: Construct::Class, position: pos_at(t, i) })
            } else {
                class_s(t, i)
            },
            TokenKind::Keyword(Keyword::Static) =>
                Err(ParseError::IllegalContextUse { construct: Construct::Static, position: pos_at(t, i) }),
            TokenKind::Keyword(Keyword::SelfValue) => if self_ok(c) {
                chain_statement_s(t, i, c)
            } else {
                Err(ParseError::IllegalContextUse { construct: Construct::SelfValue, position: pos_at(t, i) })
            },
            TokenKind::Keyword(Keyword::SelfType) => self_type_statement_s(t, i, c),
            TokenKind::Keyword(Keyword::Else) => Err(unexpected_err(t, i)),
            TokenKind::Identifier(_) => identifier_statement_s(t, i, c),
            _ => expression_statement_s(t, i, c),
        }
    }
}

/// The top-level statements from `i` up to the end marker.
pub open spec fn program_rest_s(t: Seq<Token>, i: int, acc: Seq<StmtM>) -> StmtsRes
    decreases t.len() - i, 30int,
{
    if !present(t, i) {
        Err(ParseError::UnexpectedEndOfInput)
    } else if t[i].kind == TokenKind::EndOfFile {
        Ok((acc, i + 1))
    } else {
        match statement_s(t, i, top_ctx()) {
            Err(e) => Err(e),
            Ok((s, j)) => if advances(t, i, j) {
                program_rest_s(t, j, acc.push(s))
            } else {
                Err(ParseError::UnexpectedEndOfInput)
            },
        }
    }
}

/// What parsing the whole token sequence gives: the top-level statements, or the first error.
pub open spec fn parse_s(t: Seq<Token>) -> Result<Seq<StmtM>, ParseError> {
    match program_rest_s(t, 0, Seq::empty()) {
        Ok((stmts, _)) => Ok(stmts),
        Err(e) => Err(e),
    }
}

// ------------------------------------------------------------------------------------ laws

/// A literal or an identifier.
pub open spec fn is_atom(k: TokenKind) -> bool {
    literal_of(k) is Some || ident_of(k) is Some
}

/// A token of one of the six comparison operators.
pub open spec fn is_comparison_token(k: TokenKind) -> bool {
    match binary_op_of(k) {
        Some(op) => is_comparison(op),
        None => false,
    }
}

/// The expression that an atom token stands for.
pub open spec fn atom_expr(t: Seq<Token>, k: int) -> ExprM {
    if literal_of(t[k].kind) is Some {
        mk_expr(ExpressionM::Literal(literal_of(t[k].kind)->0), span_of(t, k, k))
    } else {
        mk_expr(ExpressionM::Identifier(ident_of(t[k].kind)->0), span_of(t, k, k))
    }
}

pub open spec fn mk_binary(l: ExprM, op: BinaryOperator, r: ExprM) -> ExprM {
    mk_expr(ExpressionM::Binary { left: Box::new(l), operator: op, right: Box::new(r) },
        Span { start: l.span.start, end: r.span.end })
}

/// An atom followed by something other than `.` or `(` is a whole operand.
proof fn lemma_atom(t: Seq<Token>, k: int, m: int, c: ParseContext)
    requires
        0 <= k,
        k + 1 < t.len(),
        is_atom(t[k].kind),
        !is_class(t, k + 1, TokenClass::Dot),
        !is_class(t, k + 1, TokenClass::LeftParen),
    ensures
        unary_s(t, k, c) == Ok::<_, ParseError>((atom_expr(t, k), k + 1)),
        binary_s(t, k, m, c) == climb_s(t, k + 1, m, c, atom_expr(t, k), false),
{
    if literal_of(t[k].kind) is None {
        assert(postfix_s(t, k + 1, c, atom_expr(t, k)) == Ok::<_, ParseError>((atom_expr(t, k), k + 1)));
    }
    assert(primary_s(t, k, c) == Ok::<_, ParseError>((atom_expr(t, k), k + 1)));
}

/// Where the two operators of `a op1 b op2 ...` stand, if parsing from `i` meets an operand
/// `a`, a comparison operator, an operand `b` and a second comparison operator. An operand is
/// whatever the unary rule parses: a literal, a name, `self`, a parenthesized expression, a
/// call or member chain, or one of these under `!`.
pub open spec fn comparison_pair(t: Seq<Token>, i: int, c: ParseContext) -> Option<(int, int)> {
    match unary_s(t, i, c) {
        Err(_) => None,
        Ok((_, j1)) => if i < j1 < t.len() && is_comparison_token(t[j1].kind) {
            match unary_s(t, j1 + 1, c) {
                Err(_) => None,
                Ok((_, j2)) => if j1 + 1 < j2 < t.len() && is_comparison_token(t[j2].kind) {
                    Some((j1, j2))
                } else {
                    None
                },
            }
        } else {
            None
        },
    }
}

/// The position of the second operator of a comparison pair.
pub open spec fn second_comparison(t: Seq<Token>, i: int, c: ParseContext) -> int {
    match comparison_pair(t, i, c) {
        Some((_, j2)) => j2,
        None => i,
    }
}

/// Comparisons do not chain: for any operands `a`, `b` and comparison operators, parsing
/// `a op1 b op2 ...` as an expression fails with `ChainedComparison` at `op2`.
pub proof fn lemma_chained_comparison(t: Seq<Token>, i: int, c: ParseContext)
    requires
        0 <= i,
        comparison_pair(t, i, c) is Some,
    ensures
        expression_s(t, i, c) == Err::<(ExprM, int), ParseError>(
            ParseError::ChainedComparison { position: pos_at(t, second_comparison(t, i, c)) }),
{
    let (a, j1) = unary_s(t, i, c)->Ok_0;
    let (b, j2) = unary_s(t, j1 + 1, c)->Ok_0;
    let op1 = binary_op_of(t[j1].kind)->0;
    assert(binary_s(t, i, 0, c) == climb_s(t, j1, 0, c, a, false));
    assert(binary_s(t, j1 + 1, 4, c) == climb_s(t, j2, 4, c, b, false));
    assert(climb_s(t, j2, 4, c, b, false) == Ok::<_, ParseError>((b, j2)));
    assert(climb_s(t, j2, 0, c, mk_binary(a, op1, b), true)
        == Err::<(ExprM, int), ParseError>(ParseError::ChainedComparison { position: pos_at(t, j2) }));
    assert(climb_s(t, j1, 0, c, a, false) == climb_s(t, j2, 0, c, mk_binary(a, op1, b), true));
}

/// A statement that starts with neither a name nor a keyword (a literal, `(` or `!`) and
/// chains two comparisons, such as `1 < 2 < 3;` or `(x) == y != z;`, makes the whole program
/// fail with `ChainedComparison` at the second operator.
pub proof fn lemma_chained_comparison_program(t: Seq<Token>)
    requires
        comparison_pair(t, 0, top_ctx()) is Some,
        !(t[0].kind is Identifier),
        !(t[0].kind is Keyword),
    ensures
        parse_s(t) == Err::<Seq<StmtM>, ParseError>(
            ParseError::ChainedComparison { position: pos_at(t, second_comparison(t, 0, top_ctx())) }),
{
    lemma_chained_comparison(t, 0, top_ctx());
    let e = ParseError::ChainedComparison { position: pos_at(t, second_comparison(t, 0, top_ctx())) };
    assert(expression_statement_s(t, 0, top_ctx()) == Err::<(StmtM, int), ParseError>(e));
    assert(statement_s(t, 0, top_ctx()) == Err::<(StmtM, int), ParseError>(e));
    assert(program_rest_s(t, 0, Seq::empty()) == Err::<(Seq<StmtM>, int), ParseError>(e));
}

/// Precedence and associativity: for atoms `a`, `b`, `c` followed by `;`, and binary
/// operators not both comparisons, `a op1 b op2 c` groups as `(a op1 b) op2 c` when `op1`
/// binds at least as tightly as `op2`, and as `a op1 (b op2 c)` when `op2` binds tighter.
pub proof fn lemma_precedence(t: Seq<Token>, i: int, c: ParseContext)
    requires
        0 <= i,
        i + 5 < t.len(),
        is_atom(t[i].kind),
        is_atom(t[i + 2].kind),
        is_atom(t[i + 4].kind),
        binary_op_of(t[i + 1].kind) is Some,
        binary_op_of(t[i + 3].kind) is Some,
        !(is_comparison_token(t[i + 1].kind) && is_comparison_token(t[i + 3].kind)),
        t[i + 5].kind == TokenKind::Semicolon,
    ensures
        ({
            let op1 = binary_op_of(t[i + 1].kind)->0;
            let op2 = binary_op_of(t[i + 3].kind)->0;
            let a = atom_expr(t, i);
            let b = atom_expr(t, i + 2);
            let e = atom_expr(t, i + 4);
            expression_s(t, i, c) == Ok::<_, ParseError>((
                if precedence(op1) >= precedence(op2) {
                    mk_binary(mk_binary(a, op1, b), op2, e)
                } else {
                    mk_binary(a, op1, mk_binary(b, op2, e))
                },
                i + 5,
            ))
        }),
{
    let op1 = binary_op_of(t[i + 1].kind)->0;
    let op2 = binary_op_of(t[i + 3].kind)->0;
    let p1 = precedence(op1);
    let p2 = precedence(op2);
    let a = atom_expr(t, i);
    let b = atom_expr(t, i + 2);
    let e = atom_expr(t, i + 4);
    lemma_atom(t, i, 0, c);
    lemma_atom(t, i + 2, p1 + 1, c);
    lemma_atom(t, i + 4, p2 + 1, c);
    assert(climb_s(t, i + 5, p2 + 1, c, e, false) == Ok::<_, ParseError>((e, i + 5)));
    if p1 >= p2 {
        assert(climb_s(t, i + 3, p1 + 1, c, b, false) == Ok::<_, ParseError>((b, i + 3)));
        let ab = mk_binary(a, op1, b);
        assert(climb_s(t, i + 5, 0, c, mk_binary(ab, op2, e), is_comparison(op2))
            == Ok::<_, ParseError>((mk_binary(ab, op2, e), i + 5)));
        assert(climb_s(t, i + 3, 0, c, ab, is_comparison(op1))
            == climb_s(t, i + 5, 0, c, mk_binary(ab, op2, e), is_comparison(op2)));
        assert(climb_s(t, i + 1, 0, c, a, false) == climb_s(t, i + 3, 0, c, ab, is_comparison(op1)));
    } else {
        let be = mk_binary(b, op2, e);
        assert(climb_s(t, i + 5, p1 + 1, c, be, is_comparison(op2)) == Ok::<_, ParseError>((be, i + 5)));
        assert(climb_s(t, i + 3, p1 + 1, c, b, false) == climb_s(t, i + 5, p1 + 1, c, be, is_comparison(op2)));
        assert(climb_s(t, i + 5, 0, c, mk_binary(a, op1, be), is_comparison(op1))
            == Ok::<_, ParseError>((mk_binary(a, op1, be), i + 5)));
        assert(climb_s(t, i + 1, 0, c, a, false) == climb_s(t, i + 5, 0, c, mk_binary(a, op1, be), is_comparison(op1)));
    }
}

/// The grouping that the precedence table prescribes: every binary node has precedence at
/// least `min`; its left operand binds at least as tightly as it, its right operand strictly
/// more tightly. Operands that are not binary nodes impose nothing.
pub open spec fn climbed(e: ExprM, min: int) -> bool
    decreases e,
{
    match e.node {
        ExpressionM::Binary { left, operator, right } =>
            precedence(operator) >= min && climbed(*left, precedence(operator))
                && climbed(*right, precedence(operator) + 1),
        _ => true,
    }
}

/// Parsing at level `min` stopped at `j` because no operator of that level follows.
pub open spec fn stops(t: Seq<Token>, j: int, min: int) -> bool {
    !present(t, j) || binary_op_of(t[j].kind) is None || precedence(binary_op_of(t[j].kind)->0) < min
}

/// No `(` from `i` on.
pub open spec fn no_parens_from(t: Seq<Token>, i: int) -> bool {
    forall|k: int| i <= k < t.len() ==> #[trigger] t[k].kind != TokenKind::LeftParen
}

proof fn lemma_postfix_plain(t: Seq<Token>, i: int, c: ParseContext, base: ExprM)
    requires
        0 <= i,
        no_parens_from(t, i),
        !(base.node is Binary),
    ensures
        match postfix_s(t, i, c, base) {
            Ok((e, _)) => !(e.node is Binary),
            Err(_) => true,
        },
    decreases t.len() - i,
{
    if is_class(t, i, TokenClass::Dot) && is_class(t, i + 1, TokenClass::Identifier) {
        lemma_postfix_plain(t, i + 2, c, mk_expr(
            ExpressionM::MemberAccess { object: Box::new(base), member: ident_of(t[i + 1].kind)->0 },
            Span { start: base.span.start, end: pos_at(t, i + 1) },
        ));
    }
}

proof fn lemma_unary_plain(t: Seq<Token>, i: int, c: ParseContext)
    requires
        0 <= i,
        no_parens_from(t, i),
    ensures
        match unary_s(t, i, c) {
            Ok((e, _)) => !(e.node is Binary),
            Err(_) => true,
        },
{
    if !is_class(t, i, TokenClass::Bang) {
        assert(unary_s(t, i, c) == primary_s(t, i, c));
        if present(t, i) && literal_of(t[i].kind) is None {
            if ident_of(t[i].kind) is Some {
                lemma_postfix_plain(t, i + 1, c, mk_expr(ExpressionM::Identifier(ident_of(t[i].kind)->0), span_of(t, i, i)));
            } else if t[i].kind == TokenKind::Keyword(Keyword::SelfValue) {
                lemma_postfix_plain(t, i + 1, c, mk_expr(ExpressionM::SelfValue, span_of(t, i, i)));
            } else {
                assert(t[i].kind != TokenKind::LeftParen);
            }
        }
    }
}

proof fn lemma_binary_climbed(t: Seq<Token>, i: int, m: int, c: ParseContext)
    requires
        0 <= i,
        no_parens_from(t, i),
    ensures
        match binary_s(t, i, m, c) {
            Ok((e, j)) => climbed(e, m) && stops(t, j, m),
            Err(_) => true,
        },
    decreases t.len() - i, 8int,
{
    lemma_unary_plain(t, i, c);
    match unary_s(t, i, c) {
        Ok((a, j)) => if advances(t, i, j) {
            lemma_climb_climbed(t, j, m, c, a, false);
        },
        Err(_) => {},
    }
}

proof fn lemma_climb_climbed(t: Seq<Token>, i: int, m: int, c: ParseContext, left: ExprM, chained: bool)
    requires
        0 <= i,
        no_parens_from(t, i),
        climbed(left, m),
        left.node is Binary ==> stops(t, i, precedence(left.node->Binary_operator) + 1),
    ensures
        match climb_s(t, i, m, c, left, chained) {
            Ok((e, j)) => climbed(e, m) && stops(t, j, m),
            Err(_) => true,
        },
    decreases t.len() - i, 4int,
{
    if present(t, i) {
        match binary_op_of(t[i].kind) {
            Some(op) => if precedence(op) >= m && !(is_comparison(op) && chained) {
                let p = precedence(op);
                lemma_binary_climbed(t, i + 1, p + 1, c);
                match binary_s(t, i + 1, p + 1, c) {
                    Ok((right, j)) => if advances(t, i, j) {
                        assert(climbed(left, p));
                        let e = mk_expr(
                            ExpressionM::Binary { left: Box::new(left), operator: op, right: Box::new(right) },
                            Span { start: left.span.start, end: right.span.end },
                        );
                        assert(climbed(e, m));
                        lemma_climb_climbed(t, j, m, c, e, is_comparison(op));
                    },
                    Err(_) => {},
                }
            },
            None => {},
        }
    }
}

/// Precedence climbing groups by the precedence table: in the tree of an expression without
/// parentheses, each binary node's left operand binds at least as tightly as the node and its
/// right operand strictly more tightly, so `*` `/` bind tighter than `+` `-`, which bind tighter
/// than comparisons, than `&&`, than `||`, and equal precedences group to the left.
pub proof fn lemma_precedence_tree(t: Seq<Token>, i: int, c: ParseContext)
    requires
        0 <= i,
        no_parens_from(t, i),
    ensures
        match expression_s(t, i, c) {
            Ok((e, _)) => climbed(e, 0),
            Err(_) => true,
        },
{
    lemma_binary_climbed(t, i, 0, c);
}

} // verus!
