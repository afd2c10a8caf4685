//! The semantic analyzer: walks a program against nested scopes, proved to follow the rules
//! in `analysis`.
use vstd::prelude::*;
use crate::analysis::{
    lemma_block_keeps_outer, lemma_branches_keep_outer, lemma_member_keeps_outer,
    lemma_members_keep_outer, lemma_same_outer_trans, lemma_set_top_outer, lemma_statement_keeps_outer,
    same_outer, analyze_s, block_a, body_scope, branches_a, check_arguments, check_call, class_named,
    class_of_type, condition_a, expression_kind_text, initial_env, lvalue_of, member_a,
    members_a, operator_text, parameter_types, parameter_variables, resolve, statement_a,
    statement_kind_text, type_of, binary_type, EnvM,
};
use crate::ast::{
    branches_m, expr_m, exprs_m, lemma_branches_m, lemma_exprs_m, lemma_stmts_m, params_m,
    stmt_m, stmts_m, BinaryOperator, Expr, Expression, Literal, Program, Statement, Stmt,
};
use crate::errors::{SemanticError, SemanticErrorType};
use crate::scope::{empty_frame, error_at, pop_frame, top, with_variable, FrameM, Scope};
use crate::types::{
    entries_m, find_entry, lemma_entries_push, text, types_m, Class, Field, Function, Type, TypeM,
    LValue, VariableM,
};

verus! {

/// Analyzes a program for semantic correctness: name resolution, scoping and types.
pub struct SemanticAnalyzer {
    function_return: Option<Type>,
    scope: Scope,
    class: Option<Class>,
}

pub open spec fn opt_type_m(t: Option<Type>) -> Option<TypeM> {
    match t {
        Some(x) => Some(x@),
        None => None,
    }
}

pub open spec fn opt_class_m(c: Option<Class>) -> Option<crate::types::ClassM> {
    match c {
        Some(x) => Some(x@),
        None => None,
    }
}

impl View for SemanticAnalyzer {
    type V = EnvM;

    closed spec fn view(&self) -> EnvM {
        EnvM { scope: self.scope@, ret: opt_type_m(self.function_return), class: opt_class_m(self.class) }
    }
}

pub open spec fn type_res(r: Result<Type, SemanticErrorType>, s: Result<TypeM, crate::errors::ErrorM>) -> bool {
    match s {
        Ok(t) => r is Ok && r->Ok_0@ == t,
        Err(x) => r is Err && r->Err_0@ == x,
    }
}

fn binary_type_of(op: BinaryOperator, l: &Type, r: &Type) -> (res: Option<Type>)
    ensures
        match binary_type(op, l@, r@) {
            Some(t) => res is Some && res->0@ == t,
            None => res is None,
        },
{
    match op {
        BinaryOperator::Add => match (l, r) {
            (Type::Int, Type::Int) => Some(Type::Int),
            (Type::Float, Type::Float) => Some(Type::Float),
            (Type::String, Type::String) => Some(Type::String),
            _ => None,
        },
        BinaryOperator::Subtract | BinaryOperator::Multiply | BinaryOperator::Divide => match (l, r) {
            (Type::Int, Type::Int) => Some(Type::Int),
            (Type::Float, Type::Float) => Some(Type::Float),
            _ => None,
        },
        BinaryOperator::Equals | BinaryOperator::NotEquals => match l {
            Type::Void => None,
            _ => if l.same(r) { Some(Type::Boolean) } else { None },
        },
        BinaryOperator::And | BinaryOperator::Or => match (l, r) {
            (Type::Boolean, Type::Boolean) => Some(Type::Boolean),
            _ => None,
        },
        _ => match (l, r) {
            (Type::Int, Type::Int) => Some(Type::Boolean),
            (Type::Float, Type::Float) => Some(Type::Boolean),
            _ => None,
        },
    }
}

fn operator_name(op: BinaryOperator) -> (r: String)
    ensures
        r@ == operator_text(op),
{
    match op {
        BinaryOperator::Add => text("+"),
        BinaryOperator::Subtract => text("-"),
        BinaryOperator::Multiply => text("*"),
        BinaryOperator::Divide => text("/"),
        BinaryOperator::Equals => text("=="),
        BinaryOperator::NotEquals => text("!="),
        BinaryOperator::LessThan => text("<"),
        BinaryOperator::GreaterThan => text(">"),
        BinaryOperator::LessThanOrEqual => text("<="),
        BinaryOperator::GreaterThanOrEqual => text(">="),
        BinaryOperator::And => text("&&"),
        BinaryOperator::Or => text("||"),
    }
}

fn expression_kind_name(e: &Expr) -> (r: String)
    ensures
        r@ == expression_kind_text(expr_m(*e).node),
{
    match &e.node {
        Expression::Literal(_) => text("Literal"),
        Expression::Identifier(_) => text("Identifier"),
        Expression::Binary { .. } => text("Binary"),
        Expression::Unary { .. } => text("Unary"),
        Expression::Call { .. } => text("Call"),
        Expression::MemberAccess { .. } => text("MemberAccess"),
        Expression::Self_ => text("Self"),
    }
}

fn statement_kind_name(s: &Stmt) -> (r: String)
    ensures
        r@ == statement_kind_text(stmt_m(*s).node),
{
    match &s.node {
        Statement::VariableDeclaration { .. } => text("VariableDeclaration"),
        Statement::FieldDeclaration { .. } => text("FieldDeclaration"),
        Statement::Assignment { .. } => text("Assignment"),
        Statement::FunctionDeclaration { .. } => text("FunctionDeclaration"),
        Statement::MethodDeclaration { .. } => text("MethodDeclaration"),
        Statement::ClassDeclaration { .. } => text("ClassDeclaration"),
        Statement::If { .. } => text("If"),
        Statement::While { .. } => text("While"),
        Statement::Return(_) => text("Return"),
        Statement::Expression(_) => text("Expression"),
    }
}

impl SemanticAnalyzer {
    /// Analyzes a program: success, or the first semantic error.
    pub fn analyze(ast: Program) -> (r: Result<(), SemanticError>)
        ensures
            match analyze_s(ast@) {
                Ok(_) => r is Ok,
                Err(x) => r is Err && r->Err_0@ == x,
            },
    {
        let mut analyzer = SemanticAnalyzer::new();
        analyzer.block(&ast.statements)
    }

    /// Analyzes a program and returns the top-level scope it leaves.
    pub fn analyze_with_scope(ast: &Program) -> (r: Result<Scope, SemanticError>)
        ensures
            match block_a(ast@, initial_env()) {
                Ok(env) => r is Ok && r->Ok_0@ == env.scope,
                Err(x) => r is Err && r->Err_0@ == x,
            },
    {
        let mut analyzer = SemanticAnalyzer::new();
        analyzer.block(&ast.statements)?;
        Ok(analyzer.scope)
    }

    fn new() -> (r: SemanticAnalyzer)
        ensures
            r@ == initial_env(),
    {
        SemanticAnalyzer { function_return: None, scope: Scope::new(None), class: None }
    }

    fn resolve(&self, t: Type) -> (r: Type)
        ensures
            r@ == resolve(t@, self@.class),
    {
        match t {
            Type::SelfType => match &self.class {
                Some(c) => Type::Class(c.name.clone()),
                None => Type::SelfType,
            },
            other => other,
        }
    }

    fn class_copy(&self) -> (r: Option<Class>)
        ensures
            opt_class_m(r) == self@.class,
    {
        match &self.class {
            Some(c) => Some(c.duplicate()),
            None => None,
        }
    }

    fn class_named(&self, n: &String) -> (r: Option<&Class>)
        ensures
            match class_named(self@, n@) {
                Some(c) => r is Some && r->0@ == c,
                None => r is None,
            },
    {
        match &self.class {
            Some(c) => if c.name == *n { Some(c) } else { self.scope.find_class_ref(n) },
            None => self.scope.find_class_ref(n),
        }
    }

    fn class_of_type(&self, t: &Type) -> (r: Result<&Class, SemanticErrorType>)
        ensures
            match class_of_type(self@, t@) {
                Ok(c) => r is Ok && r->Ok_0@ == c,
                Err(x) => r is Err && r->Err_0@ == x,
            },
    {
        match t {
            Type::Class(n) => match self.class_named(n) {
                Some(c) => Ok(c),
                None => Err(SemanticErrorType::ClassNotFound(n.clone())),
            },
            _ => Err(SemanticErrorType::ClassNotFound(t.name())),
        }
    }

    /// The type of an expression.
    fn expression(&self, e: &Expr) -> (r: Result<Type, SemanticErrorType>)
        ensures
            type_res(r, type_of(expr_m(*e), self@)),
        decreases e,
    {
        match &e.node {
            Expression::Literal(l) => Ok(match l {
                Literal::Integer(_) => Type::Int,
                Literal::Float(_) => Type::Float,
                Literal::String(_) => Type::String,
                Literal::Boolean(_) => Type::Boolean,
            }),
            Expression::Identifier(n) => match self.scope.find_variable_ref(n) {
                Some(v) => if v.initialized {
                    Ok(v.var_type.duplicate())
                } else {
                    Err(SemanticErrorType::VariableUninitialized(n.clone()))
                },
                None => if self.class_named(n).is_some() {
                    Ok(Type::Class(n.clone()))
                } else {
                    Err(SemanticErrorType::VariableNotFound(n.clone()))
                },
            },
            Expression::Self_ => match &self.class {
                Some(c) => Ok(Type::Class(c.name.clone())),
                None => Err(SemanticErrorType::ClassNotFound(text("Self"))),
            },
            Expression::Binary { left, operator, right } => {
                let lt = self.expression(left)?;
                let rt = self.expression(right)?;
                match binary_type_of(*operator, &lt, &rt) {
                    Some(t) => Ok(t),
                    None => Err(SemanticErrorType::InvalidOperands {
                        operator: operator_name(*operator),
                        left: lt.name(),
                        right: rt.name(),
                    }),
                }
            },
            Expression::Unary { operator: _, operand } => {
                let t = self.expression(operand)?;
                match t {
                    Type::Boolean => Ok(Type::Boolean),
                    _ => Err(SemanticErrorType::InvalidOperand { operator: text("!"), operand: t.name() }),
                }
            },
            Expression::MemberAccess { object, member } => {
                let t = self.expression(object)?;
                let c = self.class_of_type(&t)?;
                match find_entry(&c.fields, member) {
                    Some(k) => Ok(c.fields[k].1.field_type.duplicate()),
                    None => Err(SemanticErrorType::FieldNotFound { class: c.name.clone(), field: member.clone() }),
                }
            },
            Expression::Call { callee, arguments } => {
                proof {
                    reveal_with_fuel(crate::ast::expr_m, 2);
                }
                match &callee.node {
                Expression::Identifier(f) => match self.scope.find_function_ref(f) {
                    None => Err(SemanticErrorType::FunctionNotFound(f.clone())),
                    Some(func) => match self.check_call(arguments, &func.parameters, f) {
                        Some(x) => Err(x),
                        None => Ok(func.return_type.duplicate()),
                    },
                },
                Expression::MemberAccess { object, member } => {
                    let t = self.expression(object)?;
                    let c = self.class_of_type(&t)?;
                    match find_entry(&c.methods, member) {
                        None => Err(SemanticErrorType::MethodNotFound { class: c.name.clone(), method: member.clone() }),
                        Some(k) => match self.check_call(arguments, &c.methods[k].1.parameters, member) {
                            Some(x) => Err(x),
                            None => Ok(c.methods[k].1.return_type.duplicate()),
                        },
                    }
                },
                    _ => Err(SemanticErrorType::InvalidCallTarget(expression_kind_name(callee))),
                }
            },
        }
    }

    fn check_call(&self, args: &Vec<Expr>, params: &Vec<Type>, name: &String) -> (r: Option<SemanticErrorType>)
        ensures
            match check_call(exprs_m(args@), types_m(params@), self@, name@) {
                Some(x) => r is Some && r->0@ == x,
                None => r is None,
            },
        decreases args, 1int,
    {
        proof {
            lemma_exprs_m(args@);
        }
        let ghost a = exprs_m(args@);
        let ghost p = types_m(params@);
        if args.len() != params.len() {
            return Some(SemanticErrorType::ArgumentCountMismatch {
                function: name.clone(),
                expected: params.len(),
                found: args.len(),
            });
        }
        let mut i: usize = 0;
        proof {
            assert(a.subrange(0, a.len() as int) =~= a);
            assert(p.subrange(0, p.len() as int) =~= p);
        }
        while i < args.len()
            invariant
                i <= args@.len(),
                args@.len() == params@.len(),
                a == exprs_m(args@),
                p == types_m(params@),
                a.len() == args@.len(),
                forall|j: int| 0 <= j < args@.len() ==> #[trigger] a[j] == expr_m(args@[j]),
                check_arguments(a, p, self@) == check_arguments(a.subrange(i as int, a.len() as int), p.subrange(i as int, p.len() as int), self@),
            decreases args@.len() - i,
        {
            proof {
                assert(a.subrange(i as int, a.len() as int).drop_first() =~= a.subrange(i + 1, a.len() as int));
                assert(p.subrange(i as int, p.len() as int).drop_first() =~= p.subrange(i + 1, p.len() as int));
            }
            match self.expression(&args[i]) {
                Err(x) => return Some(x),
                Ok(t) => if !t.same(&params[i]) {
                    return Some(SemanticErrorType::TypeMismatch { expected: params[i].name(), found: t.name() });
                },
            }
            i = i + 1;
        }
        None
    }

    fn lvalue(&self, e: &Expr) -> (r: Result<(LValue, Type), SemanticErrorType>)
        ensures
            match lvalue_of(expr_m(*e), self@) {
                Ok((lv, t)) => r is Ok && r->Ok_0.0@ == lv && r->Ok_0.1@ == t,
                Err(x) => r is Err && r->Err_0@ == x,
            },
    {
        match &e.node {
            Expression::Identifier(n) => match self.scope.get_local_variable(n, (0, 0)) {
                Ok(t) => Ok((LValue::Variable(n.clone()), t)),
                Err(err) => Err(err.error_type),
            },
            Expression::MemberAccess { object, member } => {
                let direct = match &object.node {
                    Expression::Identifier(_) => true,
                    Expression::Self_ => true,
                    _ => false,
                };
                let t = match self.expression(object) {
                    Err(x) => return if direct { Err(x) } else { Err(SemanticErrorType::IllegalInstanceFieldAssignment(member.clone())) },
                    Ok(t) => t,
                };
                let c = match self.class_of_type(&t) {
                    Err(x) => return if direct { Err(x) } else { Err(SemanticErrorType::IllegalInstanceFieldAssignment(member.clone())) },
                    Ok(c) => c,
                };
                match find_entry(&c.fields, member) {
                    None => if direct {
                        Err(SemanticErrorType::FieldNotFound { class: c.name.clone(), field: member.clone() })
                    } else {
                        Err(SemanticErrorType::IllegalInstanceFieldAssignment(member.clone()))
                    },
                    Some(k) => {
                        let f = &c.fields[k].1;
                        if f.is_static {
                            Ok((LValue::StaticField { class: t, field_name: member.clone() }, f.field_type.duplicate()))
                        } else if direct {
                            Ok((LValue::Field { base: t, field_name: member.clone() }, f.field_type.duplicate()))
                        } else {
                            Err(SemanticErrorType::IllegalInstanceFieldAssignment(member.clone()))
                        }
                    },
                }
            },
            _ => Err(SemanticErrorType::InvalidAssignmentTarget(expression_kind_name(e))),
        }
    }

    fn parameter_types(&self, ps: &Vec<(String, String)>) -> (r: Vec<Type>)
        ensures
            types_m(r@) == parameter_types(params_m(ps@), self@.class),
    {
        let ghost want = parameter_types(params_m(ps@), self@.class);
        let mut out: Vec<Type> = Vec::new();
        let mut i: usize = 0;
        while i < ps.len()
            invariant
                i <= ps@.len(),
                want == parameter_types(params_m(ps@), self@.class),
                types_m(out@) == want.subrange(0, i as int),
            decreases ps@.len() - i,
        {
            let t = self.resolve(Type::from_name(&ps[i].0));
            proof {
                assert(types_m(out@.push(t)) =~= types_m(out@).push(t@));
                assert(want.subrange(0, i + 1) =~= want.subrange(0, i as int).push(t@));
            }
            out.push(t);
            i = i + 1;
        }
        proof {
            assert(want.subrange(0, i as int) =~= want);
        }
        out
    }

    /// Opens the scope of a body with parameters `ps`, each an initialized variable.
    fn open_body_scope(&mut self, ps: &Vec<(String, String)>)
        ensures
            final(self)@ == (EnvM { scope: body_scope(old(self)@.scope, params_m(ps@), old(self)@.class), ..old(self)@ }),
    {
        let ghost s0 = self@.scope;
        let ghost cls = self@.class;
        let ghost pm = params_m(ps@);
        self.scope.push_frame();
        let mut i: usize = 0;
        proof {
            assert(parameter_variables(pm, cls).subrange(0, 0) =~= Seq::<(Seq<char>, VariableM)>::empty());
            assert(empty_frame() == (FrameM { variables: parameter_variables(pm, cls).subrange(0, 0), functions: Seq::empty(), classes: Seq::empty() }));
        }
        while i < ps.len()
            invariant
                i <= ps@.len(),
                pm == params_m(ps@),
                self@.class == cls,
                self@ == (EnvM { scope: self@.scope, ..old(self)@ }),
                self@.scope == s0.push(FrameM {
                    variables: parameter_variables(pm, cls).subrange(0, i as int),
                    functions: Seq::empty(),
                    classes: Seq::empty(),
                }),
            decreases ps@.len() - i,
        {
            let t = self.resolve(Type::from_name(&ps[i].0));
            let ghost before = self@.scope;
            self.scope.declare_initialized(ps[i].1.clone(), t);
            proof {
                assert(before.drop_last() =~= s0);
                assert(parameter_variables(pm, cls).subrange(0, i + 1) =~= parameter_variables(pm, cls).subrange(0, i as int).push(
                    (ps@[i as int].1@, VariableM { var_type: t@, initialized: true })));
            }
            i = i + 1;
        }
        proof {
            assert(parameter_variables(pm, cls).subrange(0, i as int) =~= parameter_variables(pm, cls));
        }
    }

    fn condition(&self, c: &Expr, loc: (usize, usize)) -> (r: Option<SemanticError>)
        ensures
            match condition_a(expr_m(*c), self@, loc) {
                Some(x) => r is Some && r->0@ == x,
                None => r is None,
            },
    {
        match self.expression(c) {
            Err(x) => Some(error_at(x, loc)),
            Ok(t) => match t {
                Type::Boolean => None,
                _ => Some(error_at(SemanticErrorType::TypeMismatch { expected: text("bool"), found: t.name() }, loc)),
            },
        }
    }

    fn block(&mut self, v: &Vec<Stmt>) -> (r: Result<(), SemanticError>)
        requires
            old(self)@.scope.len() > 0,
        ensures
            match block_a(stmts_m(v@), old(self)@) {
                Ok(e2) => r is Ok && final(self)@ == e2,
                Err(x) => r is Err && r->Err_0@ == x,
            },
            r is Err ==> same_outer(old(self)@.scope, final(self)@.scope),
        decreases v, 1int,
    {
        proof {
            lemma_stmts_m(v@);
        }
        let ghost m = stmts_m(v@);
        let ghost e0 = self@;
        let mut i: usize = 0;
        proof {
            assert(m.subrange(0, m.len() as int) =~= m);
        }
        while i < v.len()
            invariant
                i <= v@.len(),
                m == stmts_m(v@),
                m.len() == v@.len(),
                forall|j: int| 0 <= j < v@.len() ==> #[trigger] m[j] == stmt_m(v@[j]),
                e0 == old(self)@,
                same_outer(e0.scope, self@.scope),
                block_a(m, e0) == block_a(m.subrange(i as int, m.len() as int), self@),
            decreases v@.len() - i,
        {
            proof {
                assert(m.subrange(i as int, m.len() as int).drop_first() =~= m.subrange(i + 1, m.len() as int));
            }
            let ghost before = self@;
            let res = self.statement(&v[i]);
            proof {
                if res is Ok {
                    lemma_statement_keeps_outer(m[i as int], before);
                }
                lemma_same_outer_trans(e0.scope, before.scope, self@.scope);
            }
            res?;
            i = i + 1;
        }
        Ok(())
    }

    fn branches(&mut self, bs: &Vec<(Expr, Vec<Stmt>)>, loc: (usize, usize)) -> (r: Result<(), SemanticError>)
        requires
            old(self)@.scope.len() > 0,
        ensures
            match branches_a(branches_m(bs@), old(self)@, loc) {
                Ok(e2) => r is Ok && final(self)@ == e2,
                Err(x) => r is Err && r->Err_0@ == x,
            },
            r is Err ==> same_outer(old(self)@.scope, final(self)@.scope),
        decreases bs, 1int,
    {
        proof {
            lemma_branches_m(bs@);
        }
        let ghost m = branches_m(bs@);
        let ghost e0 = self@;
        let mut i: usize = 0;
        proof {
            assert(m.subrange(0, m.len() as int) =~= m);
        }
        while i < bs.len()
            invariant
                i <= bs@.len(),
                m == branches_m(bs@),
                m.len() == bs@.len(),
                forall|j: int| 0 <= j < bs@.len() ==> #[trigger] m[j] == (expr_m(bs@[j].0), stmts_m(bs@[j].1@)),
                e0 == old(self)@,
                same_outer(e0.scope, self@.scope),
                branches_a(m, e0, loc) == branches_a(m.subrange(i as int, m.len() as int), self@, loc),
            decreases bs@.len() - i,
        {
            proof {
                assert(m.subrange(i as int, m.len() as int).drop_first() =~= m.subrange(i + 1, m.len() as int));
            }
            match self.condition(&bs[i].0, loc) {
                Some(x) => return Err(x),
                None => {},
            }
            let ghost before = self@;
            let res = self.block(&bs[i].1);
            proof {
                if res is Ok {
                    lemma_block_keeps_outer(m[i as int].1, before);
                }
                lemma_same_outer_trans(e0.scope, before.scope, self@.scope);
            }
            res?;
            i = i + 1;
        }
        Ok(())
    }

    fn members(&mut self, ms: &Vec<Stmt>, c0: Class) -> (r: Result<Class, SemanticError>)
        requires
            old(self)@.scope.len() > 0,
        ensures
            match members_a(stmts_m(ms@), old(self)@.scope, old(self)@.ret, c0@) {
                Ok((s1, c1)) => r is Ok && r->Ok_0@ == c1 && final(self)@ == (EnvM { scope: s1, ..old(self)@ }),
                Err(x) => r is Err && r->Err_0@ == x,
            },
            r is Ok ==> r->Ok_0.name == c0.name,
            r is Err ==> same_outer(old(self)@.scope, final(self)@.scope),
        decreases ms, 1int,
    {
        proof {
            lemma_stmts_m(ms@);
        }
        let ghost m = stmts_m(ms@);
        let ghost e0 = self@;
        let ghost c0m = c0@;
        let mut c = c0;
        let mut i: usize = 0;
        proof {
            assert(m.subrange(0, m.len() as int) =~= m);
        }
        while i < ms.len()
            invariant
                i <= ms@.len(),
                m == stmts_m(ms@),
                m.len() == ms@.len(),
                forall|j: int| 0 <= j < ms@.len() ==> #[trigger] m[j] == stmt_m(ms@[j]),
                self@ == (EnvM { scope: self@.scope, ..e0 }),
                e0 == old(self)@,
                c0m == c0@,
                c.name == c0.name,
                self@.scope == e0.scope,
                e0.scope.len() > 0,
                members_a(m, e0.scope, e0.ret, c0m) == members_a(m.subrange(i as int, m.len() as int), self@.scope, e0.ret, c@),
            decreases ms@.len() - i,
        {
            proof {
                assert(m.subrange(i as int, m.len() as int).drop_first() =~= m.subrange(i + 1, m.len() as int));
            }
            let ghost cm = c@;
            let res = self.member(&ms[i], c);
            proof {
                if res is Ok {
                    lemma_member_keeps_outer(m[i as int], e0.scope, e0.ret, cm);
                }
            }
            c = res?;
            i = i + 1;
        }
        Ok(c)
    }

    fn member(&mut self, m: &Stmt, c: Class) -> (r: Result<Class, SemanticError>)
        requires
            old(self)@.scope.len() > 0,
        ensures
            match member_a(stmt_m(*m), old(self)@.scope, old(self)@.ret, c@) {
                Ok((s1, c1)) => r is Ok && r->Ok_0@ == c1 && final(self)@ == (EnvM { scope: s1, ..old(self)@ }),
                Err(x) => r is Err && r->Err_0@ == x,
            },
            r is Ok ==> r->Ok_0.name == c.name,
            r is Err ==> final(self)@.scope == old(self)@.scope,
        decreases m, 0int,
    {
        let loc = m.span.start;
        let ghost s0 = self@.scope;
        let saved_class = self.class.take();
        self.class = Some(c.duplicate());
        match &m.node {
            Statement::FieldDeclaration { type_, name, static_, value } => {
                if find_entry(&c.fields, name).is_some() {
                    return Err(error_at(SemanticErrorType::DuplicateField(name.clone()), loc));
                }
                if find_entry(&c.methods, name).is_some() {
                    return Err(error_at(SemanticErrorType::FieldMethodNameConflict(name.clone()), loc));
                }
                let ft = self.resolve(Type::from_name(type_));
                match value {
                    None => {},
                    Some(v) => match self.expression(v) {
                        Err(x) => return Err(error_at(x, loc)),
                        Ok(vt) => if !vt.same(&ft) {
                            return Err(error_at(SemanticErrorType::FieldInitializationTypeMismatch {
                                expected: ft.name(),
                                found: vt.name(),
                            }, loc));
                        },
                    },
                }
                self.class = saved_class;
                let mut c = c;
                let entry = (name.clone(), Field { field_type: ft, is_static: *static_ });
                proof {
                    lemma_entries_push(c.fields@, entry);
                }
                c.fields.push(entry);
                Ok(c)
            },
            Statement::MethodDeclaration { return_type, name, parameters, body, static_ } => {
                if find_entry(&c.fields, name).is_some() {
                    return Err(error_at(SemanticErrorType::FieldMethodNameConflict(name.clone()), loc));
                }
                let rt = self.resolve(Type::from_name(return_type));
                let params = self.parameter_types(parameters);
                let saved_ret = self.function_return.take();
                self.function_return = Some(rt.duplicate());
                self.open_body_scope(parameters);
                let res = self.block(body);
                self.function_return = saved_ret;
                self.class = saved_class;
                proof {
                    assert(body_scope(s0, params_m(parameters@), Some(c@)).drop_last() =~= s0);
                }
                self.scope.pop_frame();
                res?;
                let mut c = c;
                let entry = (name.clone(), Function { parameters: params, return_type: rt, is_static: *static_ });
                proof {
                    lemma_entries_push(c.methods@, entry);
                }
                c.methods.push(entry);
                Ok(c)
            },
            _ => Err(error_at(SemanticErrorType::MisplacedMember(statement_kind_name(m)), loc)),
        }
    }

    fn statement(&mut self, s: &Stmt) -> (r: Result<(), SemanticError>)
        requires
            old(self)@.scope.len() > 0,
        ensures
            match statement_a(stmt_m(*s), old(self)@) {
                Ok(e2) => r is Ok && final(self)@ == e2,
                Err(x) => r is Err && r->Err_0@ == x,
            },
            r is Err ==> same_outer(old(self)@.scope, final(self)@.scope),
            r is Err && s.node is FunctionDeclaration ==> final(self)@.scope == old(self)@.scope,
        decreases s, 0int,
    {
        let loc = s.span.start;
        let ghost s0 = self@.scope;
        match &s.node {
            Statement::VariableDeclaration { type_, name, value } => {
                let ty = self.resolve(Type::from_name(type_));
                self.scope.add_variable(name.clone(), ty.duplicate(), loc)?;
                proof {
                    lemma_set_top_outer(s0, with_variable(top(s0), name@, VariableM { var_type: ty@, initialized: false }));
                }
                match value {
                    None => Ok(()),
                    Some(v) => match self.expression(v) {
                        Err(x) => Err(error_at(x, loc)),
                        Ok(vt) => if !vt.same(&ty) {
                            Err(error_at(SemanticErrorType::VariableAssignmentTypeMismatch {
                                expected: ty.name(),
                                found: vt.name(),
                            }, loc))
                        } else {
                            self.scope.declare_initialized(name.clone(), ty);
                            Ok(())
                        },
                    },
                }
            },
            Statement::Assignment { assignee, value } => {
                let (lv, target) = match self.lvalue(assignee) {
                    Err(x) => return Err(error_at(x, loc)),
                    Ok(p) => p,
                };
                let vt = match self.expression(value) {
                    Err(x) => return Err(error_at(x, loc)),
                    Ok(t) => t,
                };
                if !vt.same(&target) {
                    return Err(error_at(SemanticErrorType::VariableAssignmentTypeMismatch {
                        expected: target.name(),
                        found: vt.name(),
                    }, loc));
                }
                match lv {
                    LValue::Variable(n) => {
                        self.scope.declare_initialized(n, vt);
                        Ok(())
                    },
                    _ => Ok(()),
                }
            },
            Statement::FunctionDeclaration { return_type, name, parameters, body } => {
                if self.function_return.is_some() {
                    return Err(error_at(SemanticErrorType::MisplacedMember(statement_kind_name(s)), loc));
                }
                let rt = self.resolve(Type::from_name(return_type));
                let params = self.parameter_types(parameters);
                let saved_ret = self.function_return.take();
                let saved_class = self.class_copy();
                self.function_return = Some(rt.duplicate());
                let ghost cls = self@.class;
                self.open_body_scope(parameters);
                let ghost inner = self@;
                let res = self.block(body);
                self.function_return = saved_ret;
                self.class = saved_class;
                proof {
                    assert(body_scope(s0, params_m(parameters@), cls).drop_last() =~= s0);
                    if res is Ok {
                        lemma_block_keeps_outer(stmts_m(body@), inner);
                    }
                }
                self.scope.pop_frame();
                res?;
                self.scope.add_function(name.clone(), Function { parameters: params, return_type: rt, is_static: false }, loc)
            },
            Statement::ClassDeclaration { name, body } => {
                if self.function_return.is_some() {
                    return Err(error_at(SemanticErrorType::MisplacedMember(statement_kind_name(s)), loc));
                }
                let fresh = Class { name: name.clone(), fields: Vec::new(), methods: Vec::new() };
                proof {
                    assert(entries_m(fresh.fields@) =~= Seq::empty());
                    assert(entries_m(fresh.methods@) =~= Seq::empty());
                }
                let ghost env0 = self@;
                let c = self.members(body, fresh)?;
                proof {
                    lemma_members_keep_outer(stmts_m(body@), env0.scope, env0.ret, fresh@);
                }
                self.scope.add_class(c, loc)
            },
            Statement::If { conditional_branches, else_branch } => {
                let ghost env0 = self@;
                self.branches(conditional_branches, loc)?;
                proof {
                    lemma_branches_keep_outer(branches_m(conditional_branches@), env0, loc);
                }
                let ghost e1 = self@;
                match else_branch {
                    None => Ok(()),
                    Some(b) => {
                        let res = self.block(b);
                        proof {
                            if res is Err {
                                lemma_same_outer_trans(s0, e1.scope, self@.scope);
                            }
                        }
                        res
                    },
                }
            },
            Statement::While { condition, body } => match self.condition(condition, loc) {
                Some(x) => Err(x),
                None => self.block(body),
            },
            Statement::Return(value) => match value {
                None => match &self.function_return {
                    Some(rt) => match rt {
                        Type::Void => Ok(()),
                        _ => Err(error_at(SemanticErrorType::TypeMismatch { expected: rt.name(), found: text("void") }, loc)),
                    },
                    None => Ok(()),
                },
                Some(v) => match self.expression(v) {
                    Err(x) => Err(error_at(x, loc)),
                    Ok(t) => match &self.function_return {
                        Some(rt) => if !t.same(rt) {
                            Err(error_at(SemanticErrorType::TypeMismatch { expected: rt.name(), found: t.name() }, loc))
                        } else {
                            Ok(())
                        },
                        None => Ok(()),
                    },
                },
            },
            Statement::Expression(e) => match self.expression(e) {
                Err(x) => Err(error_at(x, loc)),
                Ok(_) => Ok(()),
            },
            _ => Err(error_at(SemanticErrorType::MisplacedMember(statement_kind_name(s)), loc)),
        }
    }
}

} // verus!
