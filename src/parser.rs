//! The parser: tokens to a spanned syntax tree, proved to follow the grammar in `grammar`.
use vstd::prelude::*;
use crate::ast::{
    exprs_m, expr_m, params_m, stmts_m, stmt_m, branches_m, BinaryOperator, Expr, ExprM,
    Expression, Literal, Program, Span, Spanned, Statement, Stmt, StmtM, UnaryOperator,
};
use crate::grammar::{
    arguments_s, binary_op_of, binary_s, block_rest_s, block_s, chain_statement_s, class_s, climb_s,
    expected_err, expression_s, expression_statement_s, finish_s, function_s,
    ident_of, identifier_statement_s, if_rest_s, if_s, is_class, is_keyword, member_s, members_s,
    more_arguments_s, more_parameters_s, parameters_s, parse_s, pos_at, postfix_s,
    precedence, primary_s, program_rest_s, return_s, self_type_statement_s, span_of, statement_s,
    top_ctx, type_name_s, unary_s, unexpected_err, variable_rest_s, while_s, Construct, ExprRes,
    ParamsRes, ParseContext, ParseError, StmtRes, StmtsRes,
};
use crate::token::{Keyword, Token, TokenClass, TokenKind};

verus! {

/// The parser's input: the whole token sequence, ending with the end marker.
pub struct Parser {
    tokens: Vec<Token>,
}

pub open spec fn expr_ok(t: Seq<Token>, lo: int, r: Result<(Expr, usize), ParseError>, s: ExprRes) -> bool {
    match r {
        Ok((e, j)) => s == Ok::<_, ParseError>((expr_m(e), j as int)) && lo <= j <= t.len(),
        Err(x) => s == Err::<(ExprM, int), ParseError>(x),
    }
}

pub open spec fn exprs_ok(t: Seq<Token>, lo: int, r: Result<(Vec<Expr>, usize), ParseError>, s: Result<(Seq<ExprM>, int), ParseError>) -> bool {
    match r {
        Ok((v, j)) => s == Ok::<_, ParseError>((exprs_m(v@), j as int)) && lo <= j <= t.len(),
        Err(x) => s == Err::<(Seq<ExprM>, int), ParseError>(x),
    }
}

pub open spec fn stmt_ok(t: Seq<Token>, lo: int, r: Result<(Stmt, usize), ParseError>, s: StmtRes) -> bool {
    match r {
        Ok((st, j)) => s == Ok::<_, ParseError>((stmt_m(st), j as int)) && lo <= j <= t.len(),
        Err(x) => s == Err::<(StmtM, int), ParseError>(x),
    }
}

pub open spec fn stmts_ok(t: Seq<Token>, lo: int, r: Result<(Vec<Stmt>, usize), ParseError>, s: StmtsRes) -> bool {
    match r {
        Ok((v, j)) => s == Ok::<_, ParseError>((stmts_m(v@), j as int)) && lo <= j <= t.len(),
        Err(x) => s == Err::<(Seq<StmtM>, int), ParseError>(x),
    }
}

pub open spec fn params_ok(t: Seq<Token>, lo: int, r: Result<(Vec<(String, String)>, usize), ParseError>, s: ParamsRes) -> bool {
    match r {
        Ok((v, j)) => s == Ok::<_, ParseError>((params_m(v@), j as int)) && lo <= j <= t.len(),
        Err(x) => s == Err::<(Seq<(Seq<char>, Seq<char>)>, int), ParseError>(x),
    }
}

proof fn lemma_exprs_push(v: Seq<Expr>, e: Expr)
    ensures
        exprs_m(v.push(e)) == exprs_m(v).push(expr_m(e)),
{
    assert(v.push(e).drop_last() =~= v);
}

proof fn lemma_stmts_push(v: Seq<Stmt>, s: Stmt)
    ensures
        stmts_m(v.push(s)) == stmts_m(v).push(stmt_m(s)),
{
    assert(v.push(s).drop_last() =~= v);
}

proof fn lemma_branches_push(v: Seq<(Expr, Vec<Stmt>)>, b: (Expr, Vec<Stmt>))
    ensures
        branches_m(v.push(b)) == branches_m(v).push((expr_m(b.0), stmts_m(b.1@))),
{
    assert(v.push(b).drop_last() =~= v);
}

proof fn lemma_params_push(v: Seq<(String, String)>, p: (String, String))
    ensures
        params_m(v.push(p)) == params_m(v).push((p.0@, p.1@)),
{
    assert(params_m(v.push(p)) =~= params_m(v).push((p.0@, p.1@)));
}

fn binary_op(k: &TokenKind) -> (r: Option<BinaryOperator>)
    ensures
        r == binary_op_of(*k),
{
    match k {
        TokenKind::Plus => Some(BinaryOperator::Add),
        TokenKind::Minus => Some(BinaryOperator::Subtract),
        TokenKind::Asterisk => Some(BinaryOperator::Multiply),
        TokenKind::Slash => Some(BinaryOperator::Divide),
        TokenKind::DoubleEquals => Some(BinaryOperator::Equals),
        TokenKind::NotEquals => Some(BinaryOperator::NotEquals),
        TokenKind::LessThan => Some(BinaryOperator::LessThan),
        TokenKind::GreaterThan => Some(BinaryOperator::GreaterThan),
        TokenKind::LessThanOrEqual => Some(BinaryOperator::LessThanOrEqual),
        TokenKind::GreaterThanOrEqual => Some(BinaryOperator::GreaterThanOrEqual),
        TokenKind::And => Some(BinaryOperator::And),
        TokenKind::Or => Some(BinaryOperator::Or),
        _ => None,
    }
}

/// The binding strength of a binary operator.
pub fn operator_precedence(op: BinaryOperator) -> (r: u8)
    ensures
        r as int == precedence(op),
{
    match op {
        BinaryOperator::Multiply | BinaryOperator::Divide => 5,
        BinaryOperator::Add | BinaryOperator::Subtract => 4,
        BinaryOperator::And => 2,
        BinaryOperator::Or => 1,
        _ => 3,
    }
}

/// `r` is what parsing the tokens `t` returns.
pub open spec fn parses_to(t: Seq<Token>, r: Result<Program, ParseError>) -> bool {
    match r {
        Ok(p) => parse_s(t) == Ok::<Seq<StmtM>, ParseError>(p@),
        Err(e) => parse_s(t) == Err::<Seq<StmtM>, ParseError>(e),
    }
}

/// Parsing is deterministic: two parses of equal token sequences both succeed with
/// structurally equal programs, or both fail with the same error.
pub proof fn lemma_parse_deterministic(t1: Seq<Token>, t2: Seq<Token>, r1: Result<Program, ParseError>, r2: Result<Program, ParseError>)
    requires
        t1 == t2,
        parses_to(t1, r1),
        parses_to(t2, r2),
    ensures
        r1 is Ok <==> r2 is Ok,
        r1 is Ok ==> r1->Ok_0@ == r2->Ok_0@,
        r1 is Err ==> r1->Err_0 == r2->Err_0,
{
}

impl Parser {
    /// The token count fits the machine's positions.
    pub closed spec fn inv(&self) -> bool {
        self.tokens@.len() <= usize::MAX
    }

    /// Parses a whole token sequence into a program, or returns the first syntax error.
    pub fn parse(tokens: Vec<Token>) -> (r: Result<Program, ParseError>)
        ensures
            parses_to(tokens@, r),
    {
        let parser = Parser { tokens };
        let ghost t = parser.tokens@;
        let _ = parser.tokens.len();
        let mut acc: Vec<Stmt> = Vec::new();
        let mut i: usize = 0;
        let c = ParseContext { nested: false, in_class: false, in_static: false };
        loop
            invariant
                t == parser.tokens@,
                t == tokens@,
                parser.inv(),
                i <= t.len(),
                c == top_ctx(),
                program_rest_s(t, 0, Seq::empty()) == program_rest_s(t, i as int, stmts_m(acc@)),
            decreases t.len() - i,
        {
            if i >= parser.tokens.len() {
                return Err(ParseError::UnexpectedEndOfInput);
            }
            if parser.check(i, TokenClass::EndOfFile) {
                return Ok(Program { statements: acc });
            }
            match parser.statement(i, c) {
                Err(e) => return Err(e),
                Ok((s, j)) => {
                    proof {
                        lemma_stmts_push(acc@, s);
                    }
                    acc.push(s);
                    i = j;
                },
            }
        }
    }

    fn check(&self, i: usize, c: TokenClass) -> (r: bool)
        requires
            self.inv(),
        ensures
            r == is_class(self.tokens@, i as int, c),
    {
        i < self.tokens.len() && self.tokens[i].kind.class() == c
    }

    fn is_keyword_at(&self, i: usize, k: Keyword) -> (r: bool)
        requires
            self.inv(),
        ensures
            r == is_keyword(self.tokens@, i as int, k),
    {
        if i < self.tokens.len() {
            match &self.tokens[i].kind {
                TokenKind::Keyword(x) => *x == k,
                _ => false,
            }
        } else {
            false
        }
    }

    fn pos(&self, i: usize) -> (r: (usize, usize))
        requires
            self.inv(),
            i < self.tokens@.len(),
        ensures
            r == pos_at(self.tokens@, i as int),
    {
        (self.tokens[i].line, self.tokens[i].column)
    }

    fn span(&self, i: usize, j: usize) -> (r: Span)
        requires
            self.inv(),
            i < self.tokens@.len(),
            j < self.tokens@.len(),
        ensures
            r == span_of(self.tokens@, i as int, j as int),
    {
        Span { start: self.pos(i), end: self.pos(j) }
    }

    fn expected(&self, i: usize, c: TokenClass) -> (r: ParseError)
        requires
            self.inv(),
        ensures
            r == expected_err(self.tokens@, i as int, c),
    {
        if i < self.tokens.len() {
            ParseError::ExpectedToken { expected: c, found: self.tokens[i].kind.duplicate(), position: self.pos(i) }
        } else {
            ParseError::UnexpectedEndOfInput
        }
    }

    fn unexpected(&self, i: usize) -> (r: ParseError)
        requires
            self.inv(),
        ensures
            r == unexpected_err(self.tokens@, i as int),
    {
        if i < self.tokens.len() {
            ParseError::UnexpectedToken { found: self.tokens[i].kind.duplicate(), position: self.pos(i) }
        } else {
            ParseError::UnexpectedEndOfInput
        }
    }

    /// The identifier at `i`, which must be there.
    fn ident(&self, i: usize) -> (r: String)
        requires
            self.inv(),
            is_class(self.tokens@, i as int, TokenClass::Identifier),
        ensures
            r@ == ident_of(self.tokens@[i as int].kind)->0,
    {
        match &self.tokens[i].kind {
            TokenKind::Identifier(s) => s.clone(),
            _ => String::new(),
        }
    }

    fn expression(&self, i: usize, c: ParseContext) -> (r: Result<(Expr, usize), ParseError>)
        requires
            self.inv(),
            i <= self.tokens@.len(),
        ensures
            expr_ok(self.tokens@, i + 1, r, expression_s(self.tokens@, i as int, c)),
        decreases self.tokens@.len() - i, 9int,
    {
        self.binary(i, 0, c)
    }

    fn binary(&self, i: usize, min: u8, c: ParseContext) -> (r: Result<(Expr, usize), ParseError>)
        requires
            self.inv(),
            i <= self.tokens@.len(),
            min <= 6,
        ensures
            expr_ok(self.tokens@, i + 1, r, binary_s(self.tokens@, i as int, min as int, c)),
        decreases self.tokens@.len() - i, 8int,
    {
        match self.unary(i, c) {
            Err(e) => Err(e),
            Ok((left, j)) => self.climb(i, j, min, c, left),
        }
    }

    /// The loop of precedence climbing, from `i0` (after the first operand, which began at
    /// `start`).
    fn climb(&self, start: usize, i0: usize, min: u8, c: ParseContext, left0: Expr) -> (r: Result<(Expr, usize), ParseError>)
        requires
            self.inv(),
            start < i0 <= self.tokens@.len(),
            min <= 6,
        ensures
            expr_ok(self.tokens@, i0 as int, r, climb_s(self.tokens@, i0 as int, min as int, c, expr_m(left0), false)),
        decreases self.tokens@.len() - start, 7int,
    {
        let ghost t = self.tokens@;
        let ghost l0 = expr_m(left0);
        let mut i = i0;
        let mut left = left0;
        let mut chained = false;
        loop
            invariant
                t == self.tokens@,
                self.inv(),
                start < i0 <= i <= t.len(),
                min <= 6,
                l0 == expr_m(left0),
                climb_s(t, i0 as int, min as int, c, l0, false) == climb_s(t, i as int, min as int, c, expr_m(left), chained),
            decreases t.len() - i,
        {
            if i >= self.tokens.len() {
                return Ok((left, i));
            }
            let op = match binary_op(&self.tokens[i].kind) {
                None => return Ok((left, i)),
                Some(op) => op,
            };
            let p = operator_precedence(op);
            if p < min {
                return Ok((left, i));
            }
            let cmp = p == 3;
            if cmp && chained {
                return Err(ParseError::ChainedComparison { position: self.pos(i) });
            }
            match self.binary(i + 1, p + 1, c) {
                Err(e) => return Err(e),
                Ok((right, j)) => {
                    let span = Span { start: left.span.start, end: right.span.end };
                    left = Spanned {
                        node: Expression::Binary { left: Box::new(left), operator: op, right: Box::new(right) },
                        span,
                    };
                    chained = cmp;
                    i = j;
                },
            }
        }
    }

    fn unary(&self, i: usize, c: ParseContext) -> (r: Result<(Expr, usize), ParseError>)
        requires
            self.inv(),
            i <= self.tokens@.len(),
        ensures
            expr_ok(self.tokens@, i + 1, r, unary_s(self.tokens@, i as int, c)),
        decreases self.tokens@.len() - i, 7int,
    {
        if self.check(i, TokenClass::Bang) {
            match self.unary(i + 1, c) {
                Err(e) => Err(e),
                Ok((operand, j)) => {
                    let span = Span { start: self.pos(i), end: operand.span.end };
                    Ok((Spanned {
                        node: Expression::Unary { operator: UnaryOperator::Not, operand: Box::new(operand) },
                        span,
                    }, j))
                },
            }
        } else {
            self.primary(i, c)
        }
    }

    fn primary(&self, i: usize, c: ParseContext) -> (r: Result<(Expr, usize), ParseError>)
        requires
            self.inv(),
            i <= self.tokens@.len(),
        ensures
            expr_ok(self.tokens@, i + 1, r, primary_s(self.tokens@, i as int, c)),
        decreases self.tokens@.len() - i, 6int,
    {
        if i >= self.tokens.len() {
            return Err(ParseError::UnexpectedEndOfInput);
        }
        let lit = match &self.tokens[i].kind {
            TokenKind::Integer(v) => Some(Literal::Integer(*v)),
            TokenKind::Float(v) => Some(Literal::Float(*v)),
            TokenKind::String(s) => Some(Literal::String(s.clone())),
            TokenKind::Boolean(b) => Some(Literal::Boolean(*b)),
            _ => None,
        };
        if let Some(l) = lit {
            return Ok((Spanned { node: Expression::Literal(l), span: self.span(i, i) }, i + 1));
        }
        match &self.tokens[i].kind {
            TokenKind::Identifier(s) => {
                let base = Spanned { node: Expression::Identifier(s.clone()), span: self.span(i, i) };
                self.postfix(i, i + 1, c, base)
            },
            TokenKind::Keyword(Keyword::SelfValue) => {
                if c.in_class && !c.in_static {
                    self.postfix(i, i + 1, c, Spanned { node: Expression::Self_, span: self.span(i, i) })
                } else {
                    Err(ParseError::IllegalContextUse { construct: Construct::SelfValue, position: self.pos(i) })
                }
            },
            TokenKind::LeftParen => {
                match self.expression(i + 1, c) {
                    Err(e) => Err(e),
                    Ok((inner, j)) => {
                        if self.check(j, TokenClass::RightParen) {
                            let span = self.span(i, j);
                            self.postfix(i, j + 1, c, Spanned { node: inner.node, span })
                        } else {
                            Err(self.expected(j, TokenClass::RightParen))
                        }
                    },
                }
            },
            _ => Err(self.unexpected(i)),
        }
    }

    /// Applies `.member` and `(arguments)` suffixes from `i0` to `base`, whose primary began at
    /// `start`.
    fn postfix(&self, start: usize, i0: usize, c: ParseContext, base0: Expr) -> (r: Result<(Expr, usize), ParseError>)
        requires
            self.inv(),
            start < i0 <= self.tokens@.len(),
        ensures
            expr_ok(self.tokens@, i0 as int, r, postfix_s(self.tokens@, i0 as int, c, expr_m(base0))),
        decreases self.tokens@.len() - start, 5int,
    {
        let ghost t = self.tokens@;
        let ghost b0 = expr_m(base0);
        let mut i = i0;
        let mut base = base0;
        loop
            invariant
                t == self.tokens@,
                self.inv(),
                start < i0 <= i <= t.len(),
                b0 == expr_m(base0),
                postfix_s(t, i0 as int, c, b0) == postfix_s(t, i as int, c, expr_m(base)),
            decreases t.len() - i,
        {
            if self.check(i, TokenClass::Dot) {
                if self.check(i + 1, TokenClass::Identifier) {
                    let member = self.ident(i + 1);
                    let span = Span { start: base.span.start, end: self.pos(i + 1) };
                    base = Spanned { node: Expression::MemberAccess { object: Box::new(base), member }, span };
                    i = i + 2;
                } else {
                    return Err(self.expected(i + 1, TokenClass::Identifier));
                }
            } else if self.check(i, TokenClass::LeftParen) {
                match self.arguments(i + 1, c) {
                    Err(e) => return Err(e),
                    Ok((arguments, j)) => {
                        let span = Span { start: base.span.start, end: self.pos(j - 1) };
                        base = Spanned { node: Expression::Call { callee: Box::new(base), arguments }, span };
                        i = j;
                    },
                }
            } else {
                return Ok((base, i));
            }
        }
    }

    fn arguments(&self, i0: usize, c: ParseContext) -> (r: Result<(Vec<Expr>, usize), ParseError>)
        requires
            self.inv(),
            0 < i0 <= self.tokens@.len(),
        ensures
            exprs_ok(self.tokens@, i0 + 1, r, arguments_s(self.tokens@, i0 as int, c)),
        decreases self.tokens@.len() - i0, 11int,
    {
        let ghost t = self.tokens@;
        if self.check(i0, TokenClass::RightParen) {
            return Ok((Vec::new(), i0 + 1));
        }
        let mut acc: Vec<Expr> = Vec::new();
        let mut i = i0;
        loop
            invariant
                t == self.tokens@,
                self.inv(),
                i0 <= i <= t.len(),
                arguments_s(t, i0 as int, c) == more_arguments_s(t, i as int, c, exprs_m(acc@)),
            decreases t.len() - i,
        {
            match self.expression(i, c) {
                Err(e) => return Err(e),
                Ok((arg, j)) => {
                    proof {
                        lemma_exprs_push(acc@, arg);
                    }
                    acc.push(arg);
                    if self.check(j, TokenClass::Comma) {
                        i = j + 1;
                    } else if self.check(j, TokenClass::RightParen) {
                        return Ok((acc, j + 1));
                    } else {
                        return Err(self.expected(j, TokenClass::RightParen));
                    }
                },
            }
        }
    }

    // ------------------------------------------------------------------------- statements

    fn finish(&self, start: usize, i: usize, c: ParseContext, e: Expr) -> (r: Result<(Stmt, usize), ParseError>)
        requires
            self.inv(),
            start < i <= self.tokens@.len(),
        ensures
            stmt_ok(self.tokens@, i + 1, r, finish_s(self.tokens@, start as int, i as int, c, expr_m(e))),
        decreases self.tokens@.len() - i, 20int,
    {
        let is_call = match &e.node {
            Expression::Call { .. } => true,
            _ => false,
        };
        if self.check(i, TokenClass::Equals) && !is_call {
            match self.expression(i + 1, c) {
                Err(err) => Err(err),
                Ok((v, j)) => if self.check(j, TokenClass::Semicolon) {
                    let span = self.span(start, j);
                    Ok((Spanned { node: Statement::Assignment { assignee: Box::new(e), value: v }, span }, j + 1))
                } else {
                    Err(self.expected(j, TokenClass::Semicolon))
                },
            }
        } else if self.check(i, TokenClass::Semicolon) {
            let span = self.span(start, i);
            Ok((Spanned { node: Statement::Expression(e), span }, i + 1))
        } else {
            Err(self.expected(i, TokenClass::Semicolon))
        }
    }

    fn expression_statement(&self, i: usize, c: ParseContext) -> (r: Result<(Stmt, usize), ParseError>)
        requires
            self.inv(),
            i < self.tokens@.len(),
        ensures
            stmt_ok(self.tokens@, i + 1, r, expression_statement_s(self.tokens@, i as int, c)),
        decreases self.tokens@.len() - i, 21int,
    {
        match self.expression(i, c) {
            Err(e) => Err(e),
            Ok((e, j)) => self.finish(i, j, c, e),
        }
    }

    fn chain_statement(&self, i: usize, c: ParseContext) -> (r: Result<(Stmt, usize), ParseError>)
        requires
            self.inv(),
            i < self.tokens@.len(),
        ensures
            stmt_ok(self.tokens@, i + 1, r, chain_statement_s(self.tokens@, i as int, c)),
        decreases self.tokens@.len() - i, 21int,
    {
        match self.primary(i, c) {
            Err(e) => Err(e),
            Ok((e, j)) => self.finish(i, j, c, e),
        }
    }

    fn variable_rest(&self, i: usize, c: ParseContext, ty: String, name: String) -> (r: Result<(Stmt, usize), ParseError>)
        requires
            self.inv(),
            i + 1 < self.tokens@.len(),
        ensures
            stmt_ok(self.tokens@, i + 1, r, variable_rest_s(self.tokens@, i as int, c, ty@, name@)),
        decreases self.tokens@.len() - i, 20int,
    {
        if self.check(i + 2, TokenClass::Semicolon) {
            let span = self.span(i, i + 2);
            Ok((Spanned { node: Statement::VariableDeclaration { type_: ty, name, value: None }, span }, i + 3))
        } else if self.check(i + 2, TokenClass::Equals) {
            match self.expression(i + 3, c) {
                Err(e) => Err(e),
                Ok((v, j)) => if self.check(j, TokenClass::Semicolon) {
                    let span = self.span(i, j);
                    Ok((Spanned { node: Statement::VariableDeclaration { type_: ty, name, value: Some(v) }, span }, j + 1))
                } else {
                    Err(self.expected(j, TokenClass::Semicolon))
                },
            }
        } else {
            Err(self.unexpected(i + 2))
        }
    }

    fn type_at(&self, i: usize, allow_self: bool) -> (r: Result<String, ParseError>)
        requires
            self.inv(),
        ensures
            match r {
                Ok(s) => type_name_s(self.tokens@, i as int, allow_self) == Ok::<_, ParseError>(s@),
                Err(e) => type_name_s(self.tokens@, i as int, allow_self) == Err::<Seq<char>, _>(e),
            },
    {
        if self.check(i, TokenClass::Identifier) {
            Ok(self.ident(i))
        } else if self.is_keyword_at(i, Keyword::SelfType) {
            if allow_self {
                let s = String::from_str("Self");
                proof {
                    reveal_strlit("Self");
                }
                Ok(s)
            } else {
                Err(ParseError::IllegalContextUse { construct: Construct::SelfType, position: self.pos(i) })
            }
        } else {
            Err(self.expected(i, TokenClass::Identifier))
        }
    }

    fn parameters(&self, i0: usize, allow_self: bool) -> (r: Result<(Vec<(String, String)>, usize), ParseError>)
        requires
            self.inv(),
            i0 <= self.tokens@.len(),
        ensures
            params_ok(self.tokens@, i0 + 1, r, parameters_s(self.tokens@, i0 as int, allow_self)),
        decreases self.tokens@.len() - i0, 11int,
    {
        let ghost t = self.tokens@;
        if self.check(i0, TokenClass::RightParen) {
            let empty: Vec<(String, String)> = Vec::new();
            proof {
                assert(params_m(empty@) =~= Seq::empty());
            }
            return Ok((empty, i0 + 1));
        }
        let mut acc: Vec<(String, String)> = Vec::new();
        proof {
            assert(params_m(acc@) =~= Seq::empty());
        }
        let mut i = i0;
        loop
            invariant
                t == self.tokens@,
                self.inv(),
                i0 <= i <= t.len(),
                parameters_s(t, i0 as int, allow_self) == more_parameters_s(t, i as int, allow_self, params_m(acc@)),
            decreases t.len() - i,
        {
            let ty = match self.type_at(i, allow_self) {
                Err(e) => return Err(e),
                Ok(ty) => ty,
            };
            if !self.check(i + 1, TokenClass::Identifier) {
                return Err(self.expected(i + 1, TokenClass::Identifier));
            }
            let name = self.ident(i + 1);
            proof {
                lemma_params_push(acc@, (ty, name));
            }
            acc.push((ty, name));
            if self.check(i + 2, TokenClass::Comma) {
                i = i + 3;
            } else if self.check(i + 2, TokenClass::RightParen) {
                return Ok((acc, i + 3));
            } else {
                return Err(self.expected(i + 2, TokenClass::RightParen));
            }
        }
    }

    fn block(&self, i0: usize, c: ParseContext) -> (r: Result<(Vec<Stmt>, usize), ParseError>)
        requires
            self.inv(),
            i0 <= self.tokens@.len(),
        ensures
            stmts_ok(self.tokens@, i0 + 1, r, block_s(self.tokens@, i0 as int, c)),
        decreases self.tokens@.len() - i0, 26int,
    {
        let ghost t = self.tokens@;
        if !self.check(i0, TokenClass::LeftBrace) {
            return Err(self.expected(i0, TokenClass::LeftBrace));
        }
        let mut acc: Vec<Stmt> = Vec::new();
        let mut i = i0 + 1;
        loop
            invariant
                t == self.tokens@,
                self.inv(),
                i0 < i <= t.len(),
                block_s(t, i0 as int, c) == block_rest_s(t, i as int, c, stmts_m(acc@)),
            decreases t.len() - i,
        {
            if i >= self.tokens.len() {
                return Err(ParseError::UnexpectedEndOfInput);
            }
            if self.check(i, TokenClass::RightBrace) {
                return Ok((acc, i + 1));
            }
            match self.statement(i, c) {
                Err(e) => return Err(e),
                Ok((s, j)) => {
                    proof {
                        lemma_stmts_push(acc@, s);
                    }
                    acc.push(s);
                    i = j;
                },
            }
        }
    }

    fn function(&self, i: usize) -> (r: Result<(Stmt, usize), ParseError>)
        requires
            self.inv(),
            is_class(self.tokens@, i as int, TokenClass::Identifier),
            is_class(self.tokens@, i + 1, TokenClass::Identifier),
            is_class(self.tokens@, i + 2, TokenClass::LeftParen),
        ensures
            stmt_ok(self.tokens@, i + 1, r, function_s(self.tokens@, i as int)),
        decreases self.tokens@.len() - i, 20int,
    {
        match self.parameters(i + 3, false) {
            Err(e) => Err(e),
            Ok((parameters, j)) => match self.block(j, ParseContext { nested: true, in_class: false, in_static: false }) {
                Err(e) => Err(e),
                Ok((body, k)) => {
                    let span = self.span(i, k - 1);
                    let return_type = self.ident(i);
                    let name = self.ident(i + 1);
                    Ok((Spanned { node: Statement::FunctionDeclaration { return_type, name, parameters, body }, span }, k))
                },
            },
        }
    }

    fn identifier_statement(&self, i: usize, c: ParseContext) -> (r: Result<(Stmt, usize), ParseError>)
        requires
            self.inv(),
            is_class(self.tokens@, i as int, TokenClass::Identifier),
        ensures
            stmt_ok(self.tokens@, i + 1, r, identifier_statement_s(self.tokens@, i as int, c)),
        decreases self.tokens@.len() - i, 22int,
    {
        if i + 1 >= self.tokens.len() {
            return Err(ParseError::UnexpectedEndOfInput);
        }
        match &self.tokens[i + 1].kind {
            TokenKind::Identifier(name) => {
                if self.check(i + 2, TokenClass::LeftParen) {
                    if c.nested {
                        Err(ParseError::IllegalContextUse { construct: Construct::Function, position: self.pos(i) })
                    } else {
                        self.function(i)
                    }
                } else {
                    let ty = self.ident(i);
                    self.variable_rest(i, c, ty, name.clone())
                }
            },
            TokenKind::Dot | TokenKind::LeftParen | TokenKind::Equals | TokenKind::Semicolon =>
                self.chain_statement(i, c),
            _ => Err(self.unexpected(i + 1)),
        }
    }

    fn self_type_statement(&self, i: usize, c: ParseContext) -> (r: Result<(Stmt, usize), ParseError>)
        requires
            self.inv(),
            i < self.tokens@.len(),
        ensures
            stmt_ok(self.tokens@, i + 1, r, self_type_statement_s(self.tokens@, i as int, c)),
        decreases self.tokens@.len() - i, 22int,
    {
        if !(c.in_class && !c.in_static) {
            Err(ParseError::IllegalContextUse { construct: Construct::SelfType, position: self.pos(i) })
        } else if self.check(i + 1, TokenClass::Identifier) {
            let ty = String::from_str("Self");
            proof {
                reveal_strlit("Self");
            }
            let name = self.ident(i + 1);
            self.variable_rest(i, c, ty, name)
        } else {
            Err(self.expected(i + 1, TokenClass::Identifier))
        }
    }

    fn return_statement(&self, i: usize, c: ParseContext) -> (r: Result<(Stmt, usize), ParseError>)
        requires
            self.inv(),
            i < self.tokens@.len(),
        ensures
            stmt_ok(self.tokens@, i + 1, r, return_s(self.tokens@, i as int, c)),
        decreases self.tokens@.len() - i, 22int,
    {
        if self.check(i + 1, TokenClass::Semicolon) {
            let span = self.span(i, i + 1);
            Ok((Spanned { node: Statement::Return(None), span }, i + 2))
        } else {
            match self.expression(i + 1, c) {
                Err(e) => Err(e),
                Ok((v, j)) => if self.check(j, TokenClass::Semicolon) {
                    let span = self.span(i, j);
                    Ok((Spanned { node: Statement::Return(Some(v)), span }, j + 1))
                } else {
                    Err(self.expected(j, TokenClass::Semicolon))
                },
            }
        }
    }

    fn while_statement(&self, i: usize, c: ParseContext) -> (r: Result<(Stmt, usize), ParseError>)
        requires
            self.inv(),
            i < self.tokens@.len(),
        ensures
            stmt_ok(self.tokens@, i + 1, r, while_s(self.tokens@, i as int, c)),
        decreases self.tokens@.len() - i, 22int,
    {
        match self.expression(i + 1, c) {
            Err(e) => Err(e),
            Ok((condition, j)) => match self.block(j, ParseContext { nested: true, ..c }) {
                Err(e) => Err(e),
                Ok((body, k)) => {
                    let span = self.span(i, k - 1);
                    Ok((Spanned { node: Statement::While { condition, body }, span }, k))
                },
            },
        }
    }

    fn if_statement(&self, i: usize, c: ParseContext) -> (r: Result<(Stmt, usize), ParseError>)
        requires
            self.inv(),
            i < self.tokens@.len(),
        ensures
            stmt_ok(self.tokens@, i + 1, r, if_s(self.tokens@, i as int, c)),
        decreases self.tokens@.len() - i, 22int,
    {
        let ghost t = self.tokens@;
        let mut branches: Vec<(Expr, Vec<Stmt>)> = Vec::new();
        let mut k = i;
        loop
            invariant
                t == self.tokens@,
                self.inv(),
                i <= k < t.len(),
                if_s(t, i as int, c) == if_rest_s(t, i as int, k as int, c, branches_m(branches@)),
            decreases t.len() - k,
        {
            let (condition, j) = match self.expression(k + 1, c) {
                Err(e) => return Err(e),
                Ok(p) => p,
            };
            let (body, m) = match self.block(j, ParseContext { nested: true, ..c }) {
                Err(e) => return Err(e),
                Ok(p) => p,
            };
            proof {
                lemma_branches_push(branches@, (condition, body));
            }
            branches.push((condition, body));
            if !self.is_keyword_at(m, Keyword::Else) {
                let span = self.span(i, m - 1);
                return Ok((Spanned { node: Statement::If { conditional_branches: branches, else_branch: None }, span }, m));
            } else if self.is_keyword_at(m + 1, Keyword::If) {
                k = m + 1;
            } else {
                match self.block(m + 1, ParseContext { nested: true, ..c }) {
                    Err(e) => return Err(e),
                    Ok((else_body, n)) => {
                        let span = self.span(i, n - 1);
                        return Ok((Spanned {
                            node: Statement::If { conditional_branches: branches, else_branch: Some(else_body) },
                            span,
                        }, n));
                    },
                }
            }
        }
    }

    fn class_declaration(&self, i: usize) -> (r: Result<(Stmt, usize), ParseError>)
        requires
            self.inv(),
            i < self.tokens@.len(),
        ensures
            stmt_ok(self.tokens@, i + 1, r, class_s(self.tokens@, i as int)),
        decreases self.tokens@.len() - i, 22int,
    {
        let ghost t = self.tokens@;
        if !self.check(i + 1, TokenClass::Identifier) {
            return Err(self.expected(i + 1, TokenClass::Identifier));
        }
        if !self.check(i + 2, TokenClass::LeftBrace) {
            return Err(self.expected(i + 2, TokenClass::LeftBrace));
        }
        let mut acc: Vec<Stmt> = Vec::new();
        let mut k = i + 3;
        loop
            invariant
                t == self.tokens@,
                self.inv(),
                i + 3 <= k <= t.len(),
                is_class(t, i + 1, TokenClass::Identifier),
                class_s(t, i as int) == match members_s(t, k as int, stmts_m(acc@)) {
                    Err(e) => Err(e),
                    Ok((body, n)) => if !(i < n <= t.len()) {
                        Err(ParseError::UnexpectedEndOfInput)
                    } else {
                        Ok((crate::grammar::mk_stmt(crate::ast::StatementM::ClassDeclaration {
                            name: ident_of(t[i + 1].kind)->0,
                            body,
                        }, span_of(t, i as int, n - 1)), n))
                    },
                },
            decreases t.len() - k,
        {
            if k >= self.tokens.len() {
                return Err(ParseError::UnexpectedEndOfInput);
            }
            if self.check(k, TokenClass::RightBrace) {
                let span = self.span(i, k);
                let name = self.ident(i + 1);
                return Ok((Spanned { node: Statement::ClassDeclaration { name, body: acc }, span }, k + 1));
            }
            match self.member(k) {
                Err(e) => return Err(e),
                Ok((s, j)) => {
                    proof {
                        lemma_stmts_push(acc@, s);
                    }
                    acc.push(s);
                    k = j;
                },
            }
        }
    }

    fn member(&self, i: usize) -> (r: Result<(Stmt, usize), ParseError>)
        requires
            self.inv(),
            i < self.tokens@.len(),
        ensures
            stmt_ok(self.tokens@, i + 1, r, member_s(self.tokens@, i as int)),
        decreases self.tokens@.len() - i, 25int,
    {
        let is_static = self.is_keyword_at(i, Keyword::Static);
        let p = if is_static { i + 1 } else { i };
        if self.is_keyword_at(p, Keyword::Class) {
            return Err(ParseError::IllegalContextUse { construct: Construct::Class, position: self.pos(p) });
        }
        let ty = match self.type_at(p, !is_static) {
            Err(e) => return Err(e),
            Ok(ty) => ty,
        };
        if !self.check(p + 1, TokenClass::Identifier) {
            return Err(self.expected(p + 1, TokenClass::Identifier));
        }
        let name = self.ident(p + 1);
        if self.check(p + 2, TokenClass::Semicolon) {
            let span = self.span(i, p + 2);
            Ok((Spanned { node: Statement::FieldDeclaration { type_: ty, name, static_: is_static, value: None }, span }, p + 3))
        } else if self.check(p + 2, TokenClass::Equals) {
            match self.expression(p + 3, ParseContext { nested: true, in_class: false, in_static: false }) {
                Err(e) => Err(e),
                Ok((v, j)) => if self.check(j, TokenClass::Semicolon) {
                    let span = self.span(i, j);
                    Ok((Spanned { node: Statement::FieldDeclaration { type_: ty, name, static_: is_static, value: Some(v) }, span }, j + 1))
                } else {
                    Err(self.expected(j, TokenClass::Semicolon))
                },
            }
        } else if self.check(p + 2, TokenClass::LeftParen) {
            match self.parameters(p + 3, !is_static) {
                Err(e) => Err(e),
                Ok((parameters, j)) => match self.block(j, ParseContext { nested: true, in_class: true, in_static: is_static }) {
                    Err(e) => Err(e),
                    Ok((body, k)) => {
                        let span = self.span(i, k - 1);
                        Ok((Spanned {
                            node: Statement::MethodDeclaration { return_type: ty, name, parameters, body, static_: is_static },
                            span,
                        }, k))
                    },
                },
            }
        } else {
            Err(self.unexpected(p + 2))
        }
    }

    fn statement(&self, i: usize, c: ParseContext) -> (r: Result<(Stmt, usize), ParseError>)
        requires
            self.inv(),
            i <= self.tokens@.len(),
        ensures
            stmt_ok(self.tokens@, i + 1, r, statement_s(self.tokens@, i as int, c)),
        decreases self.tokens@.len() - i, 25int,
    {
        if i >= self.tokens.len() {
            return Err(ParseError::UnexpectedEndOfInput);
        }
        match &self.tokens[i].kind {
            TokenKind::Keyword(Keyword::If) => self.if_statement(i, c),
            TokenKind::Keyword(Keyword::While) => self.while_statement(i, c),
            TokenKind::Keyword(Keyword::Return) => self.return_statement(i, c),
            TokenKind::Keyword(Keyword::Class) => if c.nested {
                Err(ParseError::IllegalContextUse { construct: Construct::Class, position: self.pos(i) })
            } else {
                self.class_declaration(i)
            },
            TokenKind::Keyword(Keyword::Static) =>
                Err(ParseError::IllegalContextUse { construct: Construct::Static, position: self.pos(i) }),
            TokenKind::Keyword(Keyword::SelfValue) => if c.in_class && !c.in_static {
                self.chain_statement(i, c)
            } else {
                Err(ParseError::IllegalContextUse { construct: Construct::SelfValue, position: self.pos(i) })
            },
            TokenKind::Keyword(Keyword::SelfType) => self.self_type_statement(i, c),
            TokenKind::Keyword(Keyword::Else) => Err(self.unexpected(i)),
            TokenKind::Identifier(_) => self.identifier_statement(i, c),
            _ => self.expression_statement(i, c),
        }
    }
}

} // verus!
