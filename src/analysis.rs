//! The semantic rules, as spec functions over the syntax tree's model. The executable
//! analyzer in `analyzer` is proved to agree with them.
use vstd::prelude::*;
use crate::ast::{BinaryOperator, ExprM, ExpressionM, LiteralM, StatementM, StmtM};
use crate::errors::{ErrorM, SemanticErrorM};
use crate::scope::{
    at, empty_frame, find_class, find_function, find_variable, pop_frame, set_top, shadowing, top,
    with_class, with_function, with_variable, FrameM, Namespace, ScopeM,
};
use crate::types::{lookup, name_of_type, type_from_name, ClassM, FieldM, FunctionM, LValueM, TypeM, VariableM};

verus! {

/// What the analysis carries from statement to statement.
pub struct EnvM {
    /// The scopes.
    pub scope: ScopeM,
    /// The return type of the function whose body is analyzed, if any.
    pub ret: Option<TypeM>,
    /// The class whose members are analyzed, as declared so far, if any.
    pub class: Option<ClassM>,
}

/// `Self` stands for the class being analyzed.
pub open spec fn resolve(t: TypeM, cls: Option<ClassM>) -> TypeM {
    match (t, cls) {
        (TypeM::SelfType, Some(c)) => TypeM::Class(c.name),
        _ => t,
    }
}

/// A class by name: the class being analyzed, else one declared in the scopes.
pub open spec fn class_named(env: EnvM, n: Seq<char>) -> Option<ClassM> {
    match env.class {
        Some(c) => if c.name == n { Some(c) } else { find_class(env.scope, n) },
        None => find_class(env.scope, n),
    }
}

/// The class that a value of type `t` is an instance of.
pub open spec fn class_of_type(env: EnvM, t: TypeM) -> Result<ClassM, ErrorM> {
    match t {
        TypeM::Class(n) => match class_named(env, n) {
            Some(c) => Ok(c),
            None => Err(ErrorM::ClassNotFound(n)),
        },
        _ => Err(ErrorM::ClassNotFound(name_of_type(t))),
    }
}

pub open spec fn literal_type(l: LiteralM) -> TypeM {
    match l {
        LiteralM::Integer(_) => TypeM::Int,
        LiteralM::Float(_) => TypeM::Float,
        LiteralM::String(_) => TypeM::String,
        LiteralM::Boolean(_) => TypeM::Boolean,
    }
}

/// The result type of a binary operator on operands of types `l` and `r`, if it takes them:
/// arithmetic on two `int`s or two `float`s (and `+` on two `string`s), equality on two equal
/// non-`void` types, ordering on two `int`s or two `float`s, logic on two `bool`s.
pub open spec fn binary_type(op: BinaryOperator, l: TypeM, r: TypeM) -> Option<TypeM> {
    match op {
        BinaryOperator::Add => match (l, r) {
            (TypeM::Int, TypeM::Int) => Some(TypeM::Int),
            (TypeM::Float, TypeM::Float) => Some(TypeM::Float),
            (TypeM::String, TypeM::String) => Some(TypeM::String),
            _ => None,
        },
        BinaryOperator::Subtract | BinaryOperator::Multiply | BinaryOperator::Divide => match (l, r) {
            (TypeM::Int, TypeM::Int) => Some(TypeM::Int),
            (TypeM::Float, TypeM::Float) => Some(TypeM::Float),
            _ => None,
        },
        BinaryOperator::Equals | BinaryOperator::NotEquals =>
            if l == r && l != TypeM::Void { Some(TypeM::Boolean) } else { None },
        BinaryOperator::And | BinaryOperator::Or => match (l, r) {
            (TypeM::Boolean, TypeM::Boolean) => Some(TypeM::Boolean),
            _ => None,
        },
        _ => match (l, r) {
            (TypeM::Int, TypeM::Int) => Some(TypeM::Boolean),
            (TypeM::Float, TypeM::Float) => Some(TypeM::Boolean),
            _ => None,
        },
    }
}

pub open spec fn operator_text(op: BinaryOperator) -> Seq<char> {
    match op {
        BinaryOperator::Add => "+"@,
        BinaryOperator::Subtract => "-"@,
        BinaryOperator::Multiply => "*"@,
        BinaryOperator::Divide => "/"@,
        BinaryOperator::Equals => "=="@,
        BinaryOperator::NotEquals => "!="@,
        BinaryOperator::LessThan => "<"@,
        BinaryOperator::GreaterThan => ">"@,
        BinaryOperator::LessThanOrEqual => "<="@,
        BinaryOperator::GreaterThanOrEqual => ">="@,
        BinaryOperator::And => "&&"@,
        BinaryOperator::Or => "||"@,
    }
}

pub open spec fn expression_kind_text(e: ExpressionM) -> Seq<char> {
    match e {
        ExpressionM::Literal(_) => "Literal"@,
        ExpressionM::Identifier(_) => "Identifier"@,
        ExpressionM::Binary { .. } => "Binary"@,
        ExpressionM::Unary { .. } => "Unary"@,
        ExpressionM::Call { .. } => "Call"@,
        ExpressionM::MemberAccess { .. } => "MemberAccess"@,
        ExpressionM::SelfValue => "Self"@,
    }
}

pub open spec fn statement_kind_text(s: StatementM) -> Seq<char> {
    match s {
        StatementM::VariableDeclaration { .. } => "VariableDeclaration"@,
        StatementM::FieldDeclaration { .. } => "FieldDeclaration"@,
        StatementM::Assignment { .. } => "Assignment"@,
        StatementM::FunctionDeclaration { .. } => "FunctionDeclaration"@,
        StatementM::MethodDeclaration { .. } => "MethodDeclaration"@,
        StatementM::ClassDeclaration { .. } => "ClassDeclaration"@,
        StatementM::If { .. } => "If"@,
        StatementM::While { .. } => "While"@,
        StatementM::Return(_) => "Return"@,
        StatementM::Expression(_) => "Expression"@,
    }
}

/// The type of an expression, or the first error found in it (operands left to right).
pub open spec fn type_of(e: ExprM, env: EnvM) -> Result<TypeM, ErrorM>
    decreases e,
{
    match e.node {
        ExpressionM::Literal(l) => Ok(literal_type(l)),
        ExpressionM::Identifier(n) => match find_variable(env.scope, n) {
            Some(v) => if v.initialized { Ok(v.var_type) } else { Err(ErrorM::VariableUninitialized(n)) },
            None => if class_named(env, n) is Some { Ok(TypeM::Class(n)) } else { Err(ErrorM::VariableNotFound(n)) },
        },
        ExpressionM::SelfValue => match env.class {
            Some(c) => Ok(TypeM::Class(c.name)),
            None => Err(ErrorM::ClassNotFound("Self"@)),
        },
        ExpressionM::Binary { left, operator, right } => match type_of(*left, env) {
            Err(x) => Err(x),
            Ok(lt) => match type_of(*right, env) {
                Err(x) => Err(x),
                Ok(rt) => match binary_type(operator, lt, rt) {
                    Some(t) => Ok(t),
                    None => Err(ErrorM::InvalidOperands {
                        operator: operator_text(operator),
                        left: name_of_type(lt),
                        right: name_of_type(rt),
                    }),
                },
            },
        },
        ExpressionM::Unary { operator, operand } => match type_of(*operand, env) {
            Err(x) => Err(x),
            Ok(t) => if t == TypeM::Boolean {
                Ok(TypeM::Boolean)
            } else {
                Err(ErrorM::InvalidOperand { operator: "!"@, operand: name_of_type(t) })
            },
        },
        ExpressionM::MemberAccess { object, member } => match type_of(*object, env) {
            Err(x) => Err(x),
            Ok(t) => match class_of_type(env, t) {
                Err(x) => Err(x),
                Ok(c) => match lookup(c.fields, member) {
                    Some(f) => Ok(f.field_type),
                    None => Err(ErrorM::FieldNotFound { class: c.name, field: member }),
                },
            },
        },
        ExpressionM::Call { callee, arguments } => match callee.node {
            ExpressionM::Identifier(f) => match find_function(env.scope, f) {
                None => Err(ErrorM::FunctionNotFound(f)),
                Some(func) => match check_call(arguments, func.parameters, env, f) {
                    Some(x) => Err(x),
                    None => Ok(func.return_type),
                },
            },
            ExpressionM::MemberAccess { object, member } => match type_of(*object, env) {
                Err(x) => Err(x),
                Ok(t) => match class_of_type(env, t) {
                    Err(x) => Err(x),
                    Ok(c) => match lookup(c.methods, member) {
                        None => Err(ErrorM::MethodNotFound { class: c.name, method: member }),
                        Some(m) => match check_call(arguments, m.parameters, env, member) {
                            Some(x) => Err(x),
                            None => Ok(m.return_type),
                        },
                    },
                },
            },
            other => Err(ErrorM::InvalidCallTarget(expression_kind_text(other))),
        },
    }
}

/// The first error of a call with `args` to something taking `params`: a wrong count, else
/// the first argument that fails or has the wrong type.
pub open spec fn check_call(args: Seq<ExprM>, params: Seq<TypeM>, env: EnvM, name: Seq<char>) -> Option<ErrorM>
    decreases args, 1int,
{
    if args.len() != params.len() {
        Some(ErrorM::ArgumentCountMismatch { function: name, expected: params.len(), found: args.len() })
    } else {
        check_arguments(args, params, env)
    }
}

pub open spec fn check_arguments(args: Seq<ExprM>, params: Seq<TypeM>, env: EnvM) -> Option<ErrorM>
    decreases args, 0int,
{
    if args.len() == 0 || params.len() == 0 {
        None
    } else {
        match type_of(args[0], env) {
            Err(x) => Some(x),
            Ok(t) => if t != params[0] {
                Some(ErrorM::TypeMismatch { expected: name_of_type(params[0]), found: name_of_type(t) })
            } else {
                check_arguments(args.drop_first(), params.drop_first(), env)
            },
        }
    }
}

/// The target of an assignment to `e` and its declared type.
pub open spec fn lvalue_of(e: ExprM, env: EnvM) -> Result<(LValueM, TypeM), ErrorM> {
    match e.node {
        ExpressionM::Identifier(n) => match lookup(top(env.scope).variables, n) {
            None => Err(ErrorM::VariableNotFound(n)),
            Some(v) => Ok((LValueM::Variable(n), v.var_type)),
        },
        ExpressionM::MemberAccess { object, member } => {
            let direct = object.node is Identifier || object.node is SelfValue;
            match type_of(*object, env) {
                Err(x) => if direct { Err(x) } else { Err(ErrorM::IllegalInstanceFieldAssignment(member)) },
                Ok(t) => match class_of_type(env, t) {
                    Err(x) => if direct { Err(x) } else { Err(ErrorM::IllegalInstanceFieldAssignment(member)) },
                    Ok(c) => match lookup(c.fields, member) {
                        None => if direct {
                            Err(ErrorM::FieldNotFound { class: c.name, field: member })
                        } else {
                            Err(ErrorM::IllegalInstanceFieldAssignment(member))
                        },
                        Some(f) => if f.is_static {
                            Ok((LValueM::StaticField { class: t, field_name: member }, f.field_type))
                        } else if direct {
                            Ok((LValueM::Field { base: t, field_name: member }, f.field_type))
                        } else {
                            Err(ErrorM::IllegalInstanceFieldAssignment(member))
                        },
                    },
                },
            }
        },
        other => Err(ErrorM::InvalidAssignmentTarget(expression_kind_text(other))),
    }
}

/// The declared types of parameters.
pub open spec fn parameter_types(ps: Seq<(Seq<char>, Seq<char>)>, cls: Option<ClassM>) -> Seq<TypeM> {
    ps.map_values(|p: (Seq<char>, Seq<char>)| resolve(type_from_name(p.0), cls))
}

/// Parameters as initialized variables, in order.
pub open spec fn parameter_variables(ps: Seq<(Seq<char>, Seq<char>)>, cls: Option<ClassM>) -> Seq<(Seq<char>, VariableM)> {
    ps.map_values(|p: (Seq<char>, Seq<char>)| (p.1, VariableM { var_type: resolve(type_from_name(p.0), cls), initialized: true }))
}

/// The scope in which a body with parameters `ps` is analyzed: a child of `s`.
pub open spec fn body_scope(s: ScopeM, ps: Seq<(Seq<char>, Seq<char>)>, cls: Option<ClassM>) -> ScopeM {
    s.push(FrameM { variables: parameter_variables(ps, cls), functions: Seq::empty(), classes: Seq::empty() })
}

pub open spec fn with_scope(env: EnvM, s: ScopeM) -> EnvM {
    EnvM { scope: s, ..env }
}

/// The environment after one statement, or the first error in it.
pub open spec fn statement_a(s: StmtM, env: EnvM) -> Result<EnvM, SemanticErrorM>
    decreases s, 0int,
{
    let loc = s.span.start;
    match s.node {
        StatementM::VariableDeclaration { type_, name, value } => {
            let ty = resolve(type_from_name(type_), env.class);
            match shadowing(top(env.scope), name, Namespace::Variable) {
                Some(x) => Err(at(x, loc)),
                None => {
                    let s1 = set_top(env.scope, with_variable(top(env.scope), name, VariableM { var_type: ty, initialized: false }));
                    match value {
                        None => Ok(with_scope(env, s1)),
                        Some(v) => match type_of(v, with_scope(env, s1)) {
                            Err(x) => Err(at(x, loc)),
                            Ok(vt) => if vt != ty {
                                Err(at(ErrorM::VariableAssignmentTypeMismatch { expected: name_of_type(ty), found: name_of_type(vt) }, loc))
                            } else {
                                Ok(with_scope(env, set_top(s1, with_variable(top(s1), name, VariableM { var_type: ty, initialized: true }))))
                            },
                        },
                    }
                },
            }
        },
        StatementM::Assignment { assignee, value } => match lvalue_of(assignee, env) {
            Err(x) => Err(at(x, loc)),
            Ok((lv, target)) => match type_of(value, env) {
                Err(x) => Err(at(x, loc)),
                Ok(vt) => if vt != target {
                    Err(at(ErrorM::VariableAssignmentTypeMismatch { expected: name_of_type(target), found: name_of_type(vt) }, loc))
                } else {
                    match lv {
                        LValueM::Variable(n) => Ok(with_scope(env, set_top(env.scope, with_variable(top(env.scope), n,
                            VariableM { var_type: vt, initialized: true })))),
                        _ => Ok(env),
                    }
                },
            },
        },
        StatementM::FunctionDeclaration { return_type, name, parameters, body } => if env.ret is Some {
            Err(at(ErrorM::MisplacedMember(statement_kind_text(s.node)), loc))
        } else {
            let rt = resolve(type_from_name(return_type), env.class);
            let inner = EnvM { scope: body_scope(env.scope, parameters, env.class), ret: Some(rt), class: env.class };
            match block_a(body, inner) {
                Err(x) => Err(x),
                Ok(after) => {
                    let outer = pop_frame(after.scope);
                    match shadowing(top(outer), name, Namespace::Function) {
                        Some(x) => Err(at(x, loc)),
                        None => Ok(with_scope(env, set_top(outer, with_function(top(outer), name,
                            FunctionM { parameters: parameter_types(parameters, env.class), return_type: rt, is_static: false })))),
                    }
                },
            }
        },
        StatementM::ClassDeclaration { name, body } => if env.ret is Some {
            Err(at(ErrorM::MisplacedMember(statement_kind_text(s.node)), loc))
        } else {
            let fresh = ClassM { name, fields: Seq::empty(), methods: Seq::empty() };
            match members_a(body, env.scope, env.ret, fresh) {
                Err(x) => Err(x),
                Ok((s1, c)) => match shadowing(top(s1), name, Namespace::Class) {
                    Some(x) => Err(at(x, loc)),
                    None => Ok(with_scope(env, set_top(s1, with_class(top(s1), name, c)))),
                },
            }
        },
        StatementM::If { conditional_branches, else_branch } => match branches_a(conditional_branches, env, loc) {
            Err(x) => Err(x),
            Ok(e1) => match else_branch {
                None => Ok(e1),
                Some(b) => block_a(b, e1),
            },
        },
        StatementM::While { condition, body } => match condition_a(condition, env, loc) {
            Some(x) => Err(x),
            None => block_a(body, env),
        },
        StatementM::Return(value) => match value {
            None => match env.ret {
                Some(rt) => if rt != TypeM::Void {
                    Err(at(ErrorM::TypeMismatch { expected: name_of_type(rt), found: "void"@ }, loc))
                } else {
                    Ok(env)
                },
                None => Ok(env),
            },
            Some(v) => match type_of(v, env) {
                Err(x) => Err(at(x, loc)),
                Ok(t) => match env.ret {
                    Some(rt) => if t != rt {
                        Err(at(ErrorM::TypeMismatch { expected: name_of_type(rt), found: name_of_type(t) }, loc))
                    } else {
                        Ok(env)
                    },
                    None => Ok(env),
                },
            },
        },
        StatementM::Expression(e) => match type_of(e, env) {
            Err(x) => Err(at(x, loc)),
            Ok(_) => Ok(env),
        },
        other => Err(at(ErrorM::MisplacedMember(statement_kind_text(other)), loc)),
    }
}

/// The error of a condition that fails or is not a `bool`.
pub open spec fn condition_a(c: ExprM, env: EnvM, loc: (usize, usize)) -> Option<SemanticErrorM> {
    match type_of(c, env) {
        Err(x) => Some(at(x, loc)),
        Ok(t) => if t != TypeM::Boolean {
            Some(at(ErrorM::TypeMismatch { expected: "bool"@, found: name_of_type(t) }, loc))
        } else {
            None
        },
    }
}

/// Statements in order, each in the environment the previous ones left.
pub open spec fn block_a(v: Seq<StmtM>, env: EnvM) -> Result<EnvM, SemanticErrorM>
    decreases v, 0int,
{
    if v.len() == 0 {
        Ok(env)
    } else {
        match statement_a(v[0], env) {
            Err(x) => Err(x),
            Ok(e1) => block_a(v.drop_first(), e1),
        }
    }
}

/// The branches of an `if`, in order: each condition, then its body.
pub open spec fn branches_a(bs: Seq<(ExprM, Seq<StmtM>)>, env: EnvM, loc: (usize, usize)) -> Result<EnvM, SemanticErrorM>
    decreases bs, 0int,
{
    if bs.len() == 0 {
        Ok(env)
    } else {
        match condition_a(bs[0].0, env, loc) {
            Some(x) => Err(x),
            None => match block_a(bs[0].1, env) {
                Err(x) => Err(x),
                Ok(e1) => branches_a(bs.drop_first(), e1, loc),
            },
        }
    }
}

/// The members of a class in order, building up the class `c`.
pub open spec fn members_a(ms: Seq<StmtM>, s: ScopeM, ret: Option<TypeM>, c: ClassM) -> Result<(ScopeM, ClassM), SemanticErrorM>
    decreases ms, 0int,
{
    if ms.len() == 0 {
        Ok((s, c))
    } else {
        match member_a(ms[0], s, ret, c) {
            Err(x) => Err(x),
            Ok((s1, c1)) => members_a(ms.drop_first(), s1, ret, c1),
        }
    }
}

/// One member of class `c`: a field or a method.
pub open spec fn member_a(m: StmtM, s: ScopeM, ret: Option<TypeM>, c: ClassM) -> Result<(ScopeM, ClassM), SemanticErrorM>
    decreases m, 0int,
{
    let loc = m.span.start;
    let env = EnvM { scope: s, ret, class: Some(c) };
    match m.node {
        StatementM::FieldDeclaration { type_, name, static_, value } =>
            if lookup(c.fields, name) is Some {
                Err(at(ErrorM::DuplicateField(name), loc))
            } else if lookup(c.methods, name) is Some {
                Err(at(ErrorM::FieldMethodNameConflict(name), loc))
            } else {
                let ft = resolve(type_from_name(type_), Some(c));
                let c1 = ClassM { fields: c.fields.push((name, FieldM { field_type: ft, is_static: static_ })), ..c };
                match value {
                    None => Ok((s, c1)),
                    Some(v) => match type_of(v, env) {
                        Err(x) => Err(at(x, loc)),
                        Ok(vt) => if vt != ft {
                            Err(at(ErrorM::FieldInitializationTypeMismatch { expected: name_of_type(ft), found: name_of_type(vt) }, loc))
                        } else {
                            Ok((s, c1))
                        },
                    },
                }
            },
        StatementM::MethodDeclaration { return_type, name, parameters, body, static_ } =>
            if lookup(c.fields, name) is Some {
                Err(at(ErrorM::FieldMethodNameConflict(name), loc))
            } else {
                let rt = resolve(type_from_name(return_type), Some(c));
                let inner = EnvM { scope: body_scope(s, parameters, Some(c)), ret: Some(rt), class: Some(c) };
                match block_a(body, inner) {
                    Err(x) => Err(x),
                    Ok(after) => Ok((pop_frame(after.scope), ClassM {
                        methods: c.methods.push((name, FunctionM {
                            parameters: parameter_types(parameters, Some(c)),
                            return_type: rt,
                            is_static: static_,
                        })),
                        ..c
                    })),
                }
            },
        other => Err(at(ErrorM::MisplacedMember(statement_kind_text(other)), loc)),
    }
}

/// The environment in which a program starts.
pub open spec fn initial_env() -> EnvM {
    EnvM { scope: seq![empty_frame()], ret: None, class: None }
}

/// What analyzing a whole program gives: success, or the first error.
pub open spec fn analyze_s(p: Seq<StmtM>) -> Result<(), SemanticErrorM> {
    match block_a(p, initial_env()) {
        Ok(_) => Ok(()),
        Err(x) => Err(x),
    }
}

/// Only local variables can be assigned: assigning to a name that the current scope does not
/// declare as a variable fails with `VariableNotFound`, whatever enclosing scopes declare.
pub proof fn lemma_assign_needs_local(s: StmtM, env: EnvM, x: Seq<char>, target: ExprM, value: ExprM)
    requires
        s.node == (StatementM::Assignment { assignee: target, value }),
        target.node == ExpressionM::Identifier(x),
        lookup(top(env.scope).variables, x) is None,
    ensures
        statement_a(s, env) == Err::<EnvM, SemanticErrorM>(at(ErrorM::VariableNotFound(x), s.span.start)),
{
}

/// `b` is `a` with, at most, its current frame changed.
pub open spec fn same_outer(a: ScopeM, b: ScopeM) -> bool {
    a.len() == b.len() && a.len() > 0 && a.drop_last() == b.drop_last()
}

pub proof fn lemma_set_top_outer(a: ScopeM, f: FrameM)
    requires
        a.len() > 0,
    ensures
        same_outer(a, set_top(a, f)),
        top(set_top(a, f)) == f,
{
    assert(set_top(a, f).drop_last() =~= a.drop_last());
}

pub proof fn lemma_same_outer_trans(a: ScopeM, b: ScopeM, c: ScopeM)
    requires
        same_outer(a, b),
        same_outer(b, c),
    ensures
        same_outer(a, c),
{
}

/// Analysis never changes an enclosing scope: a statement that analyzes successfully leaves
/// every frame but the current one as it was, and the function and class context too.
pub proof fn lemma_statement_keeps_outer(s: StmtM, env: EnvM)
    requires
        env.scope.len() > 0,
        statement_a(s, env) is Ok,
    ensures
        same_outer(env.scope, statement_a(s, env)->Ok_0.scope),
        statement_a(s, env)->Ok_0.ret == env.ret,
        statement_a(s, env)->Ok_0.class == env.class,
    decreases s, 0int,
{
    match s.node {
        StatementM::VariableDeclaration { type_, name, value } => {
            let ty = resolve(type_from_name(type_), env.class);
            let s1 = set_top(env.scope, with_variable(top(env.scope), name, VariableM { var_type: ty, initialized: false }));
            lemma_set_top_outer(env.scope, with_variable(top(env.scope), name, VariableM { var_type: ty, initialized: false }));
            lemma_set_top_outer(s1, with_variable(top(s1), name, VariableM { var_type: ty, initialized: true }));
        },
        StatementM::Assignment { assignee, value } => {
            match lvalue_of(assignee, env) {
                Ok((LValueM::Variable(n), target)) => {
                    let vt = type_of(value, env)->Ok_0;
                    lemma_set_top_outer(env.scope, with_variable(top(env.scope), n, VariableM { var_type: vt, initialized: true }));
                },
                _ => {},
            }
        },
        StatementM::FunctionDeclaration { return_type, name, parameters, body } => {
            let rt = resolve(type_from_name(return_type), env.class);
            let inner = EnvM { scope: body_scope(env.scope, parameters, env.class), ret: Some(rt), class: env.class };
            lemma_block_keeps_outer(body, inner);
            let after = block_a(body, inner)->Ok_0;
            assert(after.scope.drop_last() == env.scope);
            let outer = pop_frame(after.scope);
            lemma_set_top_outer(outer, with_function(top(outer), name,
                FunctionM { parameters: parameter_types(parameters, env.class), return_type: rt, is_static: false }));
        },
        StatementM::ClassDeclaration { name, body } => {
            let fresh = ClassM { name, fields: Seq::empty(), methods: Seq::empty() };
            lemma_members_keep_outer(body, env.scope, env.ret, fresh);
            let (s1, c) = members_a(body, env.scope, env.ret, fresh)->Ok_0;
            lemma_set_top_outer(s1, with_class(top(s1), name, c));
        },
        StatementM::If { conditional_branches, else_branch } => {
            lemma_branches_keep_outer(conditional_branches, env, loc_of(s));
            let e1 = branches_a(conditional_branches, env, loc_of(s))->Ok_0;
            match else_branch {
                None => {},
                Some(b) => {
                    lemma_block_keeps_outer(b, e1);
                },
            }
        },
        StatementM::While { condition, body } => {
            lemma_block_keeps_outer(body, env);
        },
        _ => {},
    }
}

pub open spec fn loc_of(s: StmtM) -> (usize, usize) {
    s.span.start
}

/// The same, for a sequence of statements.
pub proof fn lemma_block_keeps_outer(v: Seq<StmtM>, env: EnvM)
    requires
        env.scope.len() > 0,
        block_a(v, env) is Ok,
    ensures
        same_outer(env.scope, block_a(v, env)->Ok_0.scope),
        block_a(v, env)->Ok_0.ret == env.ret,
        block_a(v, env)->Ok_0.class == env.class,
    decreases v, 0int,
{
    if v.len() > 0 {
        lemma_statement_keeps_outer(v[0], env);
        let e1 = statement_a(v[0], env)->Ok_0;
        lemma_block_keeps_outer(v.drop_first(), e1);
        lemma_same_outer_trans(env.scope, e1.scope, block_a(v.drop_first(), e1)->Ok_0.scope);
    }
}

pub proof fn lemma_branches_keep_outer(bs: Seq<(ExprM, Seq<StmtM>)>, env: EnvM, loc: (usize, usize))
    requires
        env.scope.len() > 0,
        branches_a(bs, env, loc) is Ok,
    ensures
        same_outer(env.scope, branches_a(bs, env, loc)->Ok_0.scope),
        branches_a(bs, env, loc)->Ok_0.ret == env.ret,
        branches_a(bs, env, loc)->Ok_0.class == env.class,
    decreases bs, 0int,
{
    if bs.len() > 0 {
        lemma_block_keeps_outer(bs[0].1, env);
        let e1 = block_a(bs[0].1, env)->Ok_0;
        lemma_branches_keep_outer(bs.drop_first(), e1, loc);
        lemma_same_outer_trans(env.scope, e1.scope, branches_a(bs.drop_first(), e1, loc)->Ok_0.scope);
    }
}

pub proof fn lemma_members_keep_outer(ms: Seq<StmtM>, s: ScopeM, ret: Option<TypeM>, c: ClassM)
    requires
        s.len() > 0,
        members_a(ms, s, ret, c) is Ok,
    ensures
        same_outer(s, members_a(ms, s, ret, c)->Ok_0.0),
    decreases ms, 0int,
{
    if ms.len() > 0 {
        lemma_member_keeps_outer(ms[0], s, ret, c);
        let (s1, c1) = member_a(ms[0], s, ret, c)->Ok_0;
        lemma_members_keep_outer(ms.drop_first(), s1, ret, c1);
        lemma_same_outer_trans(s, s1, members_a(ms.drop_first(), s1, ret, c1)->Ok_0.0);
    }
}

pub proof fn lemma_member_keeps_outer(m: StmtM, s: ScopeM, ret: Option<TypeM>, c: ClassM)
    requires
        s.len() > 0,
        member_a(m, s, ret, c) is Ok,
    ensures
        member_a(m, s, ret, c)->Ok_0.0 == s,
    decreases m, 0int,
{
    match m.node {
        StatementM::MethodDeclaration { return_type, name, parameters, body, static_ } => {
            let rt = resolve(type_from_name(return_type), Some(c));
            let inner = EnvM { scope: body_scope(s, parameters, Some(c)), ret: Some(rt), class: Some(c) };
            lemma_block_keeps_outer(body, inner);
            assert(inner.scope.drop_last() == s);
        },
        _ => {},
    }
}

/// A function may not take the name of a variable of the same scope: a function declaration
/// whose body analyzes without error, where the current scope declares a variable of its name,
/// fails with `ShadowingFunction` of that name.
pub proof fn lemma_function_over_variable(
    s: StmtM,
    env: EnvM,
    return_type: Seq<char>,
    name: Seq<char>,
    parameters: Seq<(Seq<char>, Seq<char>)>,
    body: Seq<StmtM>,
)
    requires
        env.scope.len() > 0,
        env.ret is None,
        s.node == (StatementM::FunctionDeclaration { return_type, name, parameters, body }),
        lookup(top(env.scope).variables, name) is Some,
        block_a(body, EnvM {
            scope: body_scope(env.scope, parameters, env.class),
            ret: Some(resolve(type_from_name(return_type), env.class)),
            class: env.class,
        }) is Ok,
    ensures
        statement_a(s, env) == Err::<EnvM, SemanticErrorM>(at(ErrorM::ShadowingFunction(name), s.span.start)),
{
    let inner = EnvM {
        scope: body_scope(env.scope, parameters, env.class),
        ret: Some(resolve(type_from_name(return_type), env.class)),
        class: env.class,
    };
    lemma_block_keeps_outer(body, inner);
    assert(inner.scope.drop_last() == env.scope);
    assert(pop_frame(block_a(body, inner)->Ok_0.scope) == env.scope);
}

/// A body's scope may redeclare a variable of an enclosing scope: in a scope that, like a
/// fresh function or method body, declares no function or class, declaring a variable (without
/// a value) succeeds, whatever the enclosing scopes hold.
pub proof fn lemma_nested_variable_declaration(s: StmtM, env: EnvM, type_: Seq<char>, x: Seq<char>)
    requires
        env.scope.len() > 0,
        s.node == (StatementM::VariableDeclaration { type_, name: x, value: None }),
        top(env.scope).functions.len() == 0,
        top(env.scope).classes.len() == 0,
    ensures
        statement_a(s, env) is Ok,
{
}

proof fn lemma_lookup_absent<V>(s: Seq<(Seq<char>, V)>, k: Seq<char>)
    requires
        forall|i: int| 0 <= i < s.len() ==> #[trigger] s[i].0 != k,
    ensures
        lookup(s, k) is None,
    decreases s.len(),
{
    if s.len() > 0 {
        let d = s.drop_last();
        assert forall|i: int| 0 <= i < d.len() implies #[trigger] d[i].0 != k by {
            assert(d[i] == s[i]);
        }
        lemma_lookup_absent(d, k);
    }
}

/// A function body cannot assign to a variable of an enclosing scope: if the body's first
/// statement assigns to a name `x` that is not one of the function's parameters, the
/// declaration fails with `VariableNotFound(x)`, whatever the enclosing scopes declare.
pub proof fn lemma_body_cannot_assign_outer(
    s: StmtM,
    env: EnvM,
    return_type: Seq<char>,
    name: Seq<char>,
    parameters: Seq<(Seq<char>, Seq<char>)>,
    body: Seq<StmtM>,
    x: Seq<char>,
    target: ExprM,
    value: ExprM,
)
    requires
        env.ret is None,
        s.node == (StatementM::FunctionDeclaration { return_type, name, parameters, body }),
        body.len() > 0,
        body[0].node == (StatementM::Assignment { assignee: target, value }),
        target.node == ExpressionM::Identifier(x),
        forall|i: int| 0 <= i < parameters.len() ==> #[trigger] parameters[i].1 != x,
    ensures
        statement_a(s, env) == Err::<EnvM, SemanticErrorM>(at(ErrorM::VariableNotFound(x), body[0].span.start)),
{
    let inner = EnvM {
        scope: body_scope(env.scope, parameters, env.class),
        ret: Some(resolve(type_from_name(return_type), env.class)),
        class: env.class,
    };
    let vars = parameter_variables(parameters, env.class);
    assert forall|i: int| 0 <= i < vars.len() implies #[trigger] vars[i].0 != x by {
        assert(vars[i].0 == parameters[i].1);
    }
    lemma_lookup_absent(vars, x);
    assert(top(inner.scope).variables == vars);
    lemma_assign_needs_local(body[0], inner, x, target, value);
    assert(block_a(body, inner) == Err::<EnvM, SemanticErrorM>(at(ErrorM::VariableNotFound(x), body[0].span.start)));
}

/// `object.member` names a static field of a class.
pub open spec fn is_static_field(env: EnvM, object: ExprM, member: Seq<char>) -> bool {
    match type_of(object, env) {
        Ok(t) => match class_of_type(env, t) {
            Ok(c) => match lookup(c.fields, member) {
                Some(f) => f.is_static,
                None => false,
            },
            Err(_) => false,
        },
        Err(_) => false,
    }
}

/// Instance fields are assigned only through a name or `self`: assigning to `e.f`, where `e`
/// is any other expression and `e.f` is not a static field, fails with
/// `IllegalInstanceFieldAssignment(f)`.
pub proof fn lemma_field_through_expression(s: StmtM, env: EnvM, target: ExprM, value: ExprM, object: ExprM, member: Seq<char>)
    requires
        s.node == (StatementM::Assignment { assignee: target, value }),
        target.node == (ExpressionM::MemberAccess { object: Box::new(object), member }),
        !(object.node is Identifier),
        !(object.node is SelfValue),
        !is_static_field(env, object, member),
    ensures
        statement_a(s, env) == Err::<EnvM, SemanticErrorM>(at(ErrorM::IllegalInstanceFieldAssignment(member), s.span.start)),
{
}

/// A binary expression never has a class type, so assigning to a field of one, as in
/// `(a + b).x = 1;`, always fails with `IllegalInstanceFieldAssignment`.
pub proof fn lemma_binary_has_no_fields(env: EnvM, object: ExprM, member: Seq<char>)
    requires
        object.node is Binary,
    ensures
        !is_static_field(env, object, member),
{
    match type_of(object, env) {
        Ok(t) => {
            assert(!(t is Class));
        },
        Err(_) => {},
    }
}

/// Analyzing `p + q` is analyzing `p`, then `q` in the environment `p` leaves.
pub proof fn lemma_block_append(p: Seq<StmtM>, q: Seq<StmtM>, env: EnvM)
    ensures
        block_a(p + q, env) == match block_a(p, env) {
            Ok(e1) => block_a(q, e1),
            Err(x) => Err(x),
        },
    decreases p.len(),
{
    if p.len() == 0 {
        assert(p + q =~= q);
    } else {
        assert((p + q)[0] == p[0]);
        assert((p + q).drop_first() =~= p.drop_first() + q);
        match statement_a(p[0], env) {
            Ok(e1) => lemma_block_append(p.drop_first(), q, e1),
            Err(_) => {},
        }
    }
}

/// In a whole program, a function whose body first assigns to a name that is not one of its
/// parameters fails with `VariableNotFound`, even when an earlier top-level statement declares
/// that name as a variable. (The statements before it must analyze without error; otherwise
/// the first of their errors is reported.)
pub proof fn lemma_program_body_cannot_assign_outer(
    prefix: Seq<StmtM>,
    s: StmtM,
    rest: Seq<StmtM>,
    return_type: Seq<char>,
    name: Seq<char>,
    parameters: Seq<(Seq<char>, Seq<char>)>,
    body: Seq<StmtM>,
    x: Seq<char>,
    target: ExprM,
    value: ExprM,
)
    requires
        block_a(prefix, initial_env()) is Ok,
        s.node == (StatementM::FunctionDeclaration { return_type, name, parameters, body }),
        body.len() > 0,
        body[0].node == (StatementM::Assignment { assignee: target, value }),
        target.node == ExpressionM::Identifier(x),
        forall|i: int| 0 <= i < parameters.len() ==> #[trigger] parameters[i].1 != x,
    ensures
        analyze_s(prefix.push(s) + rest)
            == Err::<(), SemanticErrorM>(at(ErrorM::VariableNotFound(x), body[0].span.start)),
{
    let tail = seq![s] + rest;
    assert(prefix.push(s) + rest =~= prefix + tail);
    lemma_block_append(prefix, tail, initial_env());
    lemma_block_keeps_outer(prefix, initial_env());
    let e1 = block_a(prefix, initial_env())->Ok_0;
    lemma_body_cannot_assign_outer(s, e1, return_type, name, parameters, body, x, target, value);
    assert(tail[0] == s);
}

/// In a whole program, an assignment to a field of a binary expression, such as
/// `(a + b).x = 1;`, fails with `IllegalInstanceFieldAssignment` of that field. (The statements
/// before it must analyze without error; otherwise the first of their errors is reported.)
pub proof fn lemma_program_field_through_binary(
    prefix: Seq<StmtM>,
    s: StmtM,
    rest: Seq<StmtM>,
    target: ExprM,
    value: ExprM,
    object: ExprM,
    member: Seq<char>,
)
    requires
        block_a(prefix, initial_env()) is Ok,
        s.node == (StatementM::Assignment { assignee: target, value }),
        target.node == (ExpressionM::MemberAccess { object: Box::new(object), member }),
        object.node is Binary,
    ensures
        analyze_s(prefix.push(s) + rest)
            == Err::<(), SemanticErrorM>(at(ErrorM::IllegalInstanceFieldAssignment(member), s.span.start)),
{
    let tail = seq![s] + rest;
    assert(prefix.push(s) + rest =~= prefix + tail);
    lemma_block_append(prefix, tail, initial_env());
    let e1 = block_a(prefix, initial_env())->Ok_0;
    lemma_binary_has_no_fields(e1, object, member);
    lemma_field_through_expression(s, e1, target, value, object, member);
    assert(tail[0] == s);
}

} // verus!
