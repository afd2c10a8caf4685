//! The syntax tree built by the parser, and its mathematical model.
use vstd::prelude::*;

verus! {

/// Literal values.
#[derive(Debug, Clone, PartialEq)]
pub enum Literal {
    /// An integer literal.
    Integer(i64),
    /// A float literal, as the bits of an `f64`.
    Float(u64),
    /// A string literal.
    String(String),
    /// A boolean literal.
    Boolean(bool),
}

/// Binary operators.
#[derive(Debug, Clone, Copy, PartialEq, Eq, Structural)]
pub enum BinaryOperator {
    /// `+`
    Add,
    /// `-`
    Subtract,
    /// `*`
    Multiply,
    /// `/`
    Divide,
    /// `==`
    Equals,
    /// `!=`
    NotEquals,
    /// `<`
    LessThan,
    /// `>`
    GreaterThan,
    /// `<=`
    LessThanOrEqual,
    /// `>=`
    GreaterThanOrEqual,
    /// `&&`
    And,
    /// `||`
    Or,
}

/// Unary operators.
#[derive(Debug, Clone, Copy, PartialEq, Eq, Structural)]
pub enum UnaryOperator {
    /// `!`
    Not,
}

/// The start and end of a node in the source, each as (line, column).
///
/// `start` is the position of the node's first token and `end` that of its last token.
#[derive(Debug, Clone, Copy, PartialEq, Eq)]
pub struct Span {
    /// Position of the first token.
    pub start: (usize, usize),
    /// Position of the last token.
    pub end: (usize, usize),
}

/// A node together with its span.
#[derive(Debug, PartialEq)]
pub struct Spanned<T> {
    /// The node.
    pub node: T,
    /// Where it stands in the source.
    pub span: Span,
}

/// A spanned expression.
pub type Expr = Spanned<Expression>;

/// A spanned statement.
pub type Stmt = Spanned<Statement>;

/// Expressions.
#[derive(Debug, PartialEq)]
#[allow(inconsistent_fields)]
pub enum Expression {
    /// A literal.
    Literal(Literal),
    /// A name.
    Identifier(String),
    /// `left operator right`.
    Binary { left: Box<Expr>, operator: BinaryOperator, right: Box<Expr> },
    /// `operator operand`.
    Unary { operator: UnaryOperator, operand: Box<Expr> },
    /// `callee(arguments)`; the callee is any expression.
    Call { callee: Box<Expr>, arguments: Vec<Expr> },
    /// `object.member`.
    MemberAccess { object: Box<Expr>, member: String },
    /// `self`.
    Self_,
}

/// Statements.
#[derive(Debug, PartialEq)]
#[allow(inconsistent_fields)]
pub enum Statement {
    /// `type name;` or `type name = value;`
    VariableDeclaration { type_: String, name: String, value: Option<Expr> },
    /// A field of a class: `[static] type name [= value];`
    FieldDeclaration { type_: String, name: String, static_: bool, value: Option<Expr> },
    /// `assignee = value;`
    Assignment { assignee: Box<Expr>, value: Expr },
    /// `return_type name(type name, ...) { body }`
    FunctionDeclaration {
        return_type: String,
        name: String,
        parameters: Vec<(String, String)>,
        body: Vec<Stmt>,
    },
    /// A method of a class: `[static] return_type name(type name, ...) { body }`
    MethodDeclaration {
        return_type: String,
        name: String,
        parameters: Vec<(String, String)>,
        body: Vec<Stmt>,
        static_: bool,
    },
    /// `class name { body }`
    ClassDeclaration { name: String, body: Vec<Stmt> },
    /// `if c { .. } else if c { .. } else { .. }`
    If { conditional_branches: Vec<(Expr, Vec<Stmt>)>, else_branch: Option<Vec<Stmt>> },
    /// `while condition { body }`
    While { condition: Expr, body: Vec<Stmt> },
    /// `return;` or `return value;`
    Return(Option<Expr>),
    /// `expression;`
    Expression(Expr),
}

/// A whole program: its top-level statements in order.
#[derive(Debug, PartialEq)]
pub struct Program {
    /// The top-level statements.
    pub statements: Vec<Stmt>,
}

// ---------------------------------------------------------------------------
// The model: the same tree with strings as character sequences and lists as
// sequences.
/// Model of a literal.
pub enum LiteralM {
    Integer(i64),
    Float(u64),
    String(Seq<char>),
    Boolean(bool),
}

/// Model of a spanned expression.
pub struct ExprM {
    pub node: ExpressionM,
    pub span: Span,
}

/// Model of an expression.
#[allow(inconsistent_fields)]
pub enum ExpressionM {
    Literal(LiteralM),
    Identifier(Seq<char>),
    Binary { left: Box<ExprM>, operator: BinaryOperator, right: Box<ExprM> },
    Unary { operator: UnaryOperator, operand: Box<ExprM> },
    Call { callee: Box<ExprM>, arguments: Seq<ExprM> },
    MemberAccess { object: Box<ExprM>, member: Seq<char> },
    SelfValue,
}

/// Model of a spanned statement.
pub struct StmtM {
    pub node: StatementM,
    pub span: Span,
}

/// Model of a statement.
#[allow(inconsistent_fields)]
pub enum StatementM {
    VariableDeclaration { type_: Seq<char>, name: Seq<char>, value: Option<ExprM> },
    FieldDeclaration { type_: Seq<char>, name: Seq<char>, static_: bool, value: Option<ExprM> },
    Assignment { assignee: ExprM, value: ExprM },
    FunctionDeclaration {
        return_type: Seq<char>,
        name: Seq<char>,
        parameters: Seq<(Seq<char>, Seq<char>)>,
        body: Seq<StmtM>,
    },
    MethodDeclaration {
        return_type: Seq<char>,
        name: Seq<char>,
        parameters: Seq<(Seq<char>, Seq<char>)>,
        body: Seq<StmtM>,
        static_: bool,
    },
    ClassDeclaration { name: Seq<char>, body: Seq<StmtM> },
    If { conditional_branches: Seq<(ExprM, Seq<StmtM>)>, else_branch: Option<Seq<StmtM>> },
    While { condition: ExprM, body: Seq<StmtM> },
    Return(Option<ExprM>),
    Expression(ExprM),
}

pub open spec fn literal_m(l: Literal) -> LiteralM {
    match l {
        Literal::Integer(v) => LiteralM::Integer(v),
        Literal::Float(v) => LiteralM::Float(v),
        Literal::String(s) => LiteralM::String(s@),
        Literal::Boolean(b) => LiteralM::Boolean(b),
    }
}

pub open spec fn expr_m(e: Expr) -> ExprM
    decreases e,
{
    ExprM {
        node: match e.node {
            Expression::Literal(l) => ExpressionM::Literal(literal_m(l)),
            Expression::Identifier(s) => ExpressionM::Identifier(s@),
            Expression::Binary { left, operator, right } => ExpressionM::Binary {
                left: Box::new(expr_m(*left)),
                operator,
                right: Box::new(expr_m(*right)),
            },
            Expression::Unary { operator, operand } => ExpressionM::Unary {
                operator,
                operand: Box::new(expr_m(*operand)),
            },
            Expression::Call { callee, arguments } => ExpressionM::Call {
                callee: Box::new(expr_m(*callee)),
                arguments: exprs_m(arguments@),
            },
            Expression::MemberAccess { object, member } => ExpressionM::MemberAccess {
                object: Box::new(expr_m(*object)),
                member: member@,
            },
            Expression::Self_ => ExpressionM::SelfValue,
        },
        span: e.span,
    }
}

pub open spec fn exprs_m(v: Seq<Expr>) -> Seq<ExprM>
    decreases v,
{
    if v.len() == 0 {
        Seq::empty()
    } else {
        exprs_m(v.drop_last()).push(expr_m(v.last()))
    }
}

pub open spec fn opt_expr_m(e: Option<Expr>) -> Option<ExprM> {
    match e {
        Some(x) => Some(expr_m(x)),
        None => None,
    }
}

pub open spec fn params_m(v: Seq<(String, String)>) -> Seq<(Seq<char>, Seq<char>)> {
    v.map_values(|p: (String, String)| (p.0@, p.1@))
}

pub open spec fn stmt_m(s: Stmt) -> StmtM
    decreases s,
{
    StmtM {
        node: match s.node {
            Statement::VariableDeclaration { type_, name, value } => StatementM::VariableDeclaration {
                type_: type_@,
                name: name@,
                value: opt_expr_m(value),
            },
            Statement::FieldDeclaration { type_, name, static_, value } => StatementM::FieldDeclaration {
                type_: type_@,
                name: name@,
                static_,
                value: opt_expr_m(value),
            },
            Statement::Assignment { assignee, value } => StatementM::Assignment {
                assignee: expr_m(*assignee),
                value: expr_m(value),
            },
            Statement::FunctionDeclaration { return_type, name, parameters, body } =>
                StatementM::FunctionDeclaration {
                    return_type: return_type@,
                    name: name@,
                    parameters: params_m(parameters@),
                    body: stmts_m(body@),
                },
            Statement::MethodDeclaration { return_type, name, parameters, body, static_ } =>
                StatementM::MethodDeclaration {
                    return_type: return_type@,
                    name: name@,
                    parameters: params_m(parameters@),
                    body: stmts_m(body@),
                    static_,
                },
            Statement::ClassDeclaration { name, body } => StatementM::ClassDeclaration {
                name: name@,
                body: stmts_m(body@),
            },
            Statement::If { conditional_branches, else_branch } => StatementM::If {
                conditional_branches: branches_m(conditional_branches@),
                else_branch: match else_branch {
                    Some(b) => Some(stmts_m(b@)),
                    None => None,
                },
            },
            Statement::While { condition, body } => StatementM::While {
                condition: expr_m(condition),
                body: stmts_m(body@),
            },
            Statement::Return(v) => StatementM::Return(opt_expr_m(v)),
            Statement::Expression(e) => StatementM::Expression(expr_m(e)),
        },
        span: s.span,
    }
}

pub open spec fn stmts_m(v: Seq<Stmt>) -> Seq<StmtM>
    decreases v,
{
    if v.len() == 0 {
        Seq::empty()
    } else {
        stmts_m(v.drop_last()).push(stmt_m(v.last()))
    }
}

pub open spec fn branches_m(v: Seq<(Expr, Vec<Stmt>)>) -> Seq<(ExprM, Seq<StmtM>)>
    decreases v,
{
    if v.len() == 0 {
        Seq::empty()
    } else {
        branches_m(v.drop_last()).push((expr_m(v.last().0), stmts_m(v.last().1@)))
    }
}

impl View for Program {
    type V = Seq<StmtM>;

    open spec fn view(&self) -> Seq<StmtM> {
        stmts_m(self.statements@)
    }
}

pub proof fn lemma_exprs_m(v: Seq<Expr>)
    ensures
        exprs_m(v).len() == v.len(),
        forall|i: int| 0 <= i < v.len() ==> #[trigger] exprs_m(v)[i] == expr_m(v[i]),
    decreases v.len(),
{
    if v.len() > 0 {
        lemma_exprs_m(v.drop_last());
    }
}

pub proof fn lemma_stmts_m(v: Seq<Stmt>)
    ensures
        stmts_m(v).len() == v.len(),
        forall|i: int| 0 <= i < v.len() ==> #[trigger] stmts_m(v)[i] == stmt_m(v[i]),
    decreases v.len(),
{
    if v.len() > 0 {
        lemma_stmts_m(v.drop_last());
    }
}

pub proof fn lemma_branches_m(v: Seq<(Expr, Vec<Stmt>)>)
    ensures
        branches_m(v).len() == v.len(),
        forall|i: int| 0 <= i < v.len() ==> #[trigger] branches_m(v)[i] == (expr_m(v[i].0), stmts_m(v[i].1@)),
    decreases v.len(),
{
    if v.len() > 0 {
        lemma_branches_m(v.drop_last());
    }
}

} // verus!
