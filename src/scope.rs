//! Nested scopes: each frame holds three independent name tables.
use vstd::prelude::*;
use crate::errors::{ErrorM, SemanticError, SemanticErrorType};
use crate::types::{
    entries_m, find_entry, lemma_entries_push, lookup, name_of_type, Class, ClassM, Field, FieldM,
    Function, FunctionM, Type, TypeM, Variable, VariableM,
};

verus! {

/// The names declared in one scope.
#[derive(Debug, Clone, PartialEq)]
pub struct Frame {
    variables: Vec<(String, Variable)>,
    functions: Vec<(String, Function)>,
    classes: Vec<(String, Class)>,
}

pub struct FrameM {
    pub variables: Seq<(Seq<char>, VariableM)>,
    pub functions: Seq<(Seq<char>, FunctionM)>,
    pub classes: Seq<(Seq<char>, ClassM)>,
}

impl View for Frame {
    type V = FrameM;

    closed spec fn view(&self) -> FrameM {
        FrameM {
            variables: entries_m(self.variables@),
            functions: entries_m(self.functions@),
            classes: entries_m(self.classes@),
        }
    }
}

/// A scope and, before it, the scopes that enclose it (outermost first).
///
/// A child scope holds a snapshot of its parent's tables; nothing declared in the child
/// reaches the parent.
#[derive(Debug, Clone, PartialEq)]
pub struct Scope {
    frames: Vec<Frame>,
}

pub type ScopeM = Seq<FrameM>;

impl View for Scope {
    type V = ScopeM;

    closed spec fn view(&self) -> ScopeM {
        self.frames@.map_values(|f: Frame| f@)
    }
}

pub open spec fn empty_frame() -> FrameM {
    FrameM { variables: Seq::empty(), functions: Seq::empty(), classes: Seq::empty() }
}

/// The current (innermost) frame.
pub open spec fn top(s: ScopeM) -> FrameM {
    if s.len() == 0 { empty_frame() } else { s.last() }
}

/// `s` with its current frame replaced by `f`.
pub open spec fn set_top(s: ScopeM, f: FrameM) -> ScopeM {
    if s.len() == 0 { seq![f] } else { s.drop_last().push(f) }
}

/// `s` without its current frame.
pub open spec fn pop_frame(s: ScopeM) -> ScopeM {
    if s.len() == 0 { s } else { s.drop_last() }
}

pub open spec fn find_variable(s: ScopeM, n: Seq<char>) -> Option<VariableM>
    decreases s.len(),
{
    if s.len() == 0 {
        None
    } else {
        match lookup(s.last().variables, n) {
            Some(v) => Some(v),
            None => find_variable(s.drop_last(), n),
        }
    }
}

pub open spec fn find_function(s: ScopeM, n: Seq<char>) -> Option<FunctionM>
    decreases s.len(),
{
    if s.len() == 0 {
        None
    } else {
        match lookup(s.last().functions, n) {
            Some(v) => Some(v),
            None => find_function(s.drop_last(), n),
        }
    }
}

pub open spec fn find_class(s: ScopeM, n: Seq<char>) -> Option<ClassM>
    decreases s.len(),
{
    if s.len() == 0 {
        None
    } else {
        match lookup(s.last().classes, n) {
            Some(v) => Some(v),
            None => find_class(s.drop_last(), n),
        }
    }
}

/// Which table a new name goes into.
#[derive(Debug, Clone, Copy, PartialEq, Eq, Structural)]
pub enum Namespace {
    Variable,
    Function,
    Class,
}

/// The error for declaring `n` in namespace `ns` of frame `f`, if another namespace of the
/// same frame already holds `n`.
pub open spec fn shadowing(f: FrameM, n: Seq<char>, ns: Namespace) -> Option<ErrorM> {
    let in_vars = lookup(f.variables, n) is Some;
    let in_fns = lookup(f.functions, n) is Some;
    let in_classes = lookup(f.classes, n) is Some;
    match ns {
        Namespace::Variable => if in_fns || in_classes { Some(ErrorM::ShadowingVariable(n)) } else { None },
        Namespace::Function => if in_vars || in_classes { Some(ErrorM::ShadowingFunction(n)) } else { None },
        Namespace::Class => if in_vars || in_fns { Some(ErrorM::ShadowingClass(n)) } else { None },
    }
}

pub open spec fn with_variable(f: FrameM, n: Seq<char>, v: VariableM) -> FrameM {
    FrameM { variables: f.variables.push((n, v)), ..f }
}

pub open spec fn with_function(f: FrameM, n: Seq<char>, v: FunctionM) -> FrameM {
    FrameM { functions: f.functions.push((n, v)), ..f }
}

pub open spec fn with_class(f: FrameM, n: Seq<char>, v: ClassM) -> FrameM {
    FrameM { classes: f.classes.push((n, v)), ..f }
}

/// The error value at `loc`.
pub open spec fn at(e: ErrorM, loc: (usize, usize)) -> crate::errors::SemanticErrorM {
    crate::errors::SemanticErrorM { error_type: e, line: loc.0, column: loc.1 }
}

pub fn error_at(e: SemanticErrorType, loc: (usize, usize)) -> (r: SemanticError)
    ensures
        r@ == at(e@, loc),
{
    SemanticError { error_type: e, line: loc.0, column: loc.1 }
}

/// What looking up a variable of the whole scope gives.
pub open spec fn get_variable_s(s: ScopeM, n: Seq<char>) -> Result<TypeM, ErrorM> {
    match find_variable(s, n) {
        None => Err(ErrorM::VariableNotFound(n)),
        Some(v) => if v.initialized { Ok(v.var_type) } else { Err(ErrorM::VariableUninitialized(n)) },
    }
}

/// The index of the innermost frame that declares the variable `n`, or -1.
pub open spec fn nearest_frame(s: ScopeM, n: Seq<char>) -> int
    decreases s.len(),
{
    if s.len() == 0 {
        -1
    } else if lookup(s.last().variables, n) is Some {
        s.len() - 1
    } else {
        nearest_frame(s.drop_last(), n)
    }
}

/// What assigning a value of type `t` to the variable `n` gives: the innermost frame that
/// declares `n` must give it type `t`, and there it becomes initialized.
pub open spec fn assign_variable_s(s: ScopeM, n: Seq<char>, t: TypeM) -> Result<ScopeM, ErrorM> {
    let k = nearest_frame(s, n);
    if k < 0 {
        Err(ErrorM::VariableNotFound(n))
    } else {
        let v = lookup(s[k].variables, n)->0;
        if v.var_type != t {
            Err(ErrorM::VariableAssignmentTypeMismatch { expected: name_of_type(v.var_type), found: name_of_type(t) })
        } else {
            Ok(s.update(k, with_variable(s[k], n, VariableM { var_type: t, initialized: true })))
        }
    }
}

pub open spec fn class_field_s(s: ScopeM, c: Seq<char>, f: Seq<char>) -> Result<FieldM, ErrorM> {
    match find_class(s, c) {
        None => Err(ErrorM::ClassNotFound(c)),
        Some(cl) => match lookup(cl.fields, f) {
            None => Err(ErrorM::FieldNotFound { class: c, field: f }),
            Some(x) => Ok(x),
        },
    }
}

pub open spec fn class_method_s(s: ScopeM, c: Seq<char>, m: Seq<char>) -> Result<FunctionM, ErrorM> {
    match find_class(s, c) {
        None => Err(ErrorM::ClassNotFound(c)),
        Some(cl) => match lookup(cl.methods, m) {
            None => Err(ErrorM::MethodNotFound { class: c, method: m }),
            Some(x) => Ok(x),
        },
    }
}

/// A result of the scope's operations against its model.
pub open spec fn agrees<T: View>(r: Result<T, SemanticError>, s: Result<T::V, ErrorM>, loc: (usize, usize)) -> bool {
    match r {
        Ok(v) => s == Ok::<T::V, ErrorM>(v@),
        Err(e) => s == Err::<T::V, ErrorM>(e.error_type@) && e@ == at(e.error_type@, loc),
    }
}

/// The same, for operations that return nothing.
pub open spec fn agrees_unit(r: Result<(), SemanticError>, s: Option<ErrorM>, loc: (usize, usize)) -> bool {
    match r {
        Ok(_) => s is None,
        Err(e) => s == Some(e.error_type@) && e@ == at(e.error_type@, loc),
    }
}

impl Frame {
    fn new() -> (r: Frame)
        ensures
            r@ == empty_frame(),
    {
        let r = Frame { variables: Vec::new(), functions: Vec::new(), classes: Vec::new() };
        proof {
            assert(r@.variables =~= Seq::empty());
            assert(r@.functions =~= Seq::empty());
            assert(r@.classes =~= Seq::empty());
        }
        r
    }
}

impl Scope {
    /// A new scope: empty, or a child of `parent` whose tables it snapshots.
    pub fn new(parent: Option<Box<Scope>>) -> (r: Scope)
        ensures
            r@ == match parent {
                Some(p) => p@.push(empty_frame()),
                None => seq![empty_frame()],
            },
    {
        let mut frames = match parent {
            Some(p) => p.frames,
            None => Vec::new(),
        };
        let ghost before = frames@;
        let f = Frame::new();
        frames.push(f);
        let r = Scope { frames };
        proof {
            assert(r@ =~= before.map_values(|f: Frame| f@).push(empty_frame()));
        }
        r
    }

    /// Opens a child scope.
    pub fn push_frame(&mut self)
        ensures
            final(self)@ == old(self)@.push(empty_frame()),
    {
        let f = Frame::new();
        self.frames.push(f);
        proof {
            assert(final(self)@ =~= old(self)@.push(empty_frame()));
        }
    }

    /// Closes the current scope.
    pub fn pop_frame(&mut self)
        ensures
            final(self)@ == pop_frame(old(self)@),
    {
        let _ = self.frames.pop();
        proof {
            assert(final(self)@ =~= pop_frame(old(self)@));
        }
    }

    fn take_top(&mut self) -> (r: Frame)
        ensures
            r@ == top(old(self)@),
            final(self)@ == pop_frame(old(self)@),
    {
        match self.frames.pop() {
            Some(f) => {
                proof {
                    assert(final(self)@ =~= pop_frame(old(self)@));
                }
                f
            },
            None => Frame::new(),
        }
    }

    fn put_top(&mut self, f: Frame)
        ensures
            final(self)@ == old(self)@.push(f@),
    {
        self.frames.push(f);
        proof {
            assert(final(self)@ =~= old(self)@.push(f@));
        }
    }

    fn check_shadowing(&self, name: &String, ns: Namespace, loc: (usize, usize)) -> (r: Result<(), SemanticError>)
        ensures
            agrees_unit(r, shadowing(top(self@), name@, ns), loc),
    {
        let n = self.frames.len();
        if n == 0 {
            return Ok(());
        }
        let f = &self.frames[n - 1];
        let in_vars = find_entry(&f.variables, name).is_some();
        let in_fns = find_entry(&f.functions, name).is_some();
        let in_classes = find_entry(&f.classes, name).is_some();
        match ns {
            Namespace::Variable => if in_fns || in_classes {
                Err(error_at(SemanticErrorType::ShadowingVariable(name.clone()), loc))
            } else {
                Ok(())
            },
            Namespace::Function => if in_vars || in_classes {
                Err(error_at(SemanticErrorType::ShadowingFunction(name.clone()), loc))
            } else {
                Ok(())
            },
            Namespace::Class => if in_vars || in_fns {
                Err(error_at(SemanticErrorType::ShadowingClass(name.clone()), loc))
            } else {
                Ok(())
            },
        }
    }

    /// Declares a variable, not yet initialized, in the current scope.
    ///
    /// Fails with `ShadowingVariable` if a function or class of that name exists in the
    /// current scope; the scope is then unchanged.
    pub fn add_variable(&mut self, name: String, var_type: Type, loc: (usize, usize)) -> (r: Result<(), SemanticError>)
        ensures
            agrees_unit(r, shadowing(top(old(self)@), name@, Namespace::Variable), loc),
            r is Ok ==> final(self)@ == set_top(old(self)@, with_variable(top(old(self)@), name@,
                VariableM { var_type: var_type@, initialized: false })),
            r is Err ==> final(self)@ == old(self)@,
    {
        self.check_shadowing(&name, Namespace::Variable, loc)?;
        let mut f = self.take_top();
        let entry = (name, Variable { var_type, initialized: false });
        proof {
            lemma_entries_push(f.variables@, entry);
        }
        f.variables.push(entry);
        self.put_top(f);
        Ok(())
    }

    /// Checks an assignment of a value of type `value_type` to the variable `name`, searched
    /// from the current scope outwards, and marks it initialized in the scope that declares it.
    ///
    /// The assignment statement allows only variables of the current scope; the analyzer checks
    /// that before it gets here.
    pub fn assign_variable(&mut self, name: &String, value_type: &Type, loc: (usize, usize)) -> (r: Result<(), SemanticError>)
        ensures
            match assign_variable_s(old(self)@, name@, value_type@) {
                Ok(s) => r is Ok && final(self)@ == s,
                Err(e) => r is Err && r->Err_0@ == at(e, loc) && final(self)@ == old(self)@,
            },
    {
        let ghost s0 = self@;
        let mut i = self.frames.len();
        proof {
            assert(s0.subrange(0, i as int) =~= s0);
        }
        while i > 0
            invariant
                i <= s0.len(),
                self@ == s0,
                s0 == old(self)@,
                s0.len() == self.frames@.len(),
                nearest_frame(s0, name@) == nearest_frame(s0.subrange(0, i as int), name@),
            decreases i,
        {
            proof {
                assert(s0.subrange(0, i as int).drop_last() =~= s0.subrange(0, i - 1));
                assert(s0[i - 1] == self.frames@[i - 1]@);
            }
            match find_entry(&self.frames[i - 1].variables, name) {
                Some(k) => {
                    proof {
                        assert(s0.subrange(0, i as int).last() == s0[i - 1]);
                        assert(s0[i - 1].variables == entries_m(self.frames@[i - 1].variables@));
                        assert(nearest_frame(s0, name@) == i - 1);
                    }
                    let var_type = self.frames[i - 1].variables[k].1.var_type.duplicate();
                    if !var_type.same(value_type) {
                        return Err(error_at(SemanticErrorType::VariableAssignmentTypeMismatch {
                            expected: var_type.name(),
                            found: value_type.name(),
                        }, loc));
                    }
                    let mut f = self.frames.remove(i - 1);
                    let entry = (name.clone(), Variable { var_type, initialized: true });
                    proof {
                        lemma_entries_push(f.variables@, entry);
                    }
                    f.variables.push(entry);
                    let ghost fm = f@;
                    self.frames.insert(i - 1, f);
                    proof {
                        assert(self@ =~= s0.update(i - 1, fm));
                    }
                    return Ok(());
                },
                None => {},
            }
            i = i - 1;
        }
        Err(error_at(SemanticErrorType::VariableNotFound(name.clone()), loc))
    }

    /// Declares `name` as an initialized variable of type `t` in the current scope.
    pub(crate) fn declare_initialized(&mut self, name: String, t: Type)
        ensures
            final(self)@ == set_top(old(self)@, with_variable(top(old(self)@), name@,
                VariableM { var_type: t@, initialized: true })),
    {
        let mut f = self.take_top();
        let entry = (name, Variable { var_type: t, initialized: true });
        proof {
            lemma_entries_push(f.variables@, entry);
        }
        f.variables.push(entry);
        self.put_top(f);
    }

    pub(crate) fn find_variable_ref(&self, name: &String) -> (r: Option<&Variable>)
        ensures
            match r {
                Some(v) => find_variable(self@, name@) == Some(v@),
                None => find_variable(self@, name@) is None,
            },
    {
        let mut i = self.frames.len();
        proof {
            assert(self@.subrange(0, i as int) =~= self@);
        }
        while i > 0
            invariant
                i <= self@.len(),
                find_variable(self@, name@) == find_variable(self@.subrange(0, i as int), name@),
            decreases i,
        {
            proof {
                assert(self@.subrange(0, i as int).drop_last() =~= self@.subrange(0, i - 1));
            }
            match find_entry(&self.frames[i - 1].variables, name) {
                Some(k) => return Some(&self.frames[i - 1].variables[k].1),
                None => {},
            }
            i = i - 1;
        }
        None
    }

    /// The type of an initialized variable, searched from the current scope outwards.
    pub fn get_variable(&self, name: &String, loc: (usize, usize)) -> (r: Result<Type, SemanticError>)
        ensures
            agrees(r, get_variable_s(self@, name@), loc),
    {
        let mut i = self.frames.len();
        proof {
            assert(self@.subrange(0, i as int) =~= self@);
        }
        while i > 0
            invariant
                i <= self@.len(),
                find_variable(self@, name@) == find_variable(self@.subrange(0, i as int), name@),
            decreases i,
        {
            proof {
                assert(self@.subrange(0, i as int).drop_last() =~= self@.subrange(0, i - 1));
            }
            match find_entry(&self.frames[i - 1].variables, name) {
                Some(k) => {
                    let v = &self.frames[i - 1].variables[k].1;
                    if v.initialized {
                        return Ok(v.var_type.duplicate());
                    } else {
                        return Err(error_at(SemanticErrorType::VariableUninitialized(name.clone()), loc));
                    }
                },
                None => {},
            }
            i = i - 1;
        }
        Err(error_at(SemanticErrorType::VariableNotFound(name.clone()), loc))
    }

    /// The type of a variable of the current scope only, initialized or not.
    pub fn get_local_variable(&self, name: &String, loc: (usize, usize)) -> (r: Result<Type, SemanticError>)
        ensures
            agrees(r, match lookup(top(self@).variables, name@) {
                Some(v) => Ok(v.var_type),
                None => Err(ErrorM::VariableNotFound(name@)),
            }, loc),
    {
        let n = self.frames.len();
        if n > 0 {
            match find_entry(&self.frames[n - 1].variables, name) {
                Some(k) => return Ok(self.frames[n - 1].variables[k].1.var_type.duplicate()),
                None => {},
            }
        }
        Err(error_at(SemanticErrorType::VariableNotFound(name.clone()), loc))
    }

    /// Declares a function in the current scope.
    ///
    /// Fails with `ShadowingFunction` if a variable or class of that name exists in the
    /// current scope; the scope is then unchanged.
    pub fn add_function(&mut self, name: String, function: Function, loc: (usize, usize)) -> (r: Result<(), SemanticError>)
        ensures
            agrees_unit(r, shadowing(top(old(self)@), name@, Namespace::Function), loc),
            r is Ok ==> final(self)@ == set_top(old(self)@, with_function(top(old(self)@), name@, function@)),
            r is Err ==> final(self)@ == old(self)@,
    {
        self.check_shadowing(&name, Namespace::Function, loc)?;
        let mut f = self.take_top();
        let entry = (name, function);
        proof {
            lemma_entries_push(f.functions@, entry);
        }
        f.functions.push(entry);
        self.put_top(f);
        Ok(())
    }

    pub(crate) fn find_function_ref(&self, name: &String) -> (r: Option<&Function>)
        ensures
            match r {
                Some(f) => find_function(self@, name@) == Some(f@),
                None => find_function(self@, name@) is None,
            },
    {
        let mut i = self.frames.len();
        proof {
            assert(self@.subrange(0, i as int) =~= self@);
        }
        while i > 0
            invariant
                i <= self@.len(),
                find_function(self@, name@) == find_function(self@.subrange(0, i as int), name@),
            decreases i,
        {
            proof {
                assert(self@.subrange(0, i as int).drop_last() =~= self@.subrange(0, i - 1));
            }
            match find_entry(&self.frames[i - 1].functions, name) {
                Some(k) => return Some(&self.frames[i - 1].functions[k].1),
                None => {},
            }
            i = i - 1;
        }
        None
    }

    /// A function, searched from the current scope outwards.
    pub fn get_function(&self, name: &String, loc: (usize, usize)) -> (r: Result<Function, SemanticError>)
        ensures
            agrees(r, match find_function(self@, name@) {
                Some(f) => Ok(f),
                None => Err(ErrorM::FunctionNotFound(name@)),
            }, loc),
    {
        match self.find_function_ref(name) {
            Some(f) => Ok(f.duplicate()),
            None => Err(error_at(SemanticErrorType::FunctionNotFound(name.clone()), loc)),
        }
    }

    /// Declares a class in the current scope.
    ///
    /// Fails with `ShadowingClass` if a variable or function of that name exists in the
    /// current scope; the scope is then unchanged.
    pub fn add_class(&mut self, class: Class, loc: (usize, usize)) -> (r: Result<(), SemanticError>)
        ensures
            agrees_unit(r, shadowing(top(old(self)@), class.name@, Namespace::Class), loc),
            r is Ok ==> final(self)@ == set_top(old(self)@, with_class(top(old(self)@), class.name@, class@)),
            r is Err ==> final(self)@ == old(self)@,
    {
        self.check_shadowing(&class.name, Namespace::Class, loc)?;
        let mut f = self.take_top();
        let entry = (class.name.clone(), class);
        proof {
            lemma_entries_push(f.classes@, entry);
        }
        f.classes.push(entry);
        self.put_top(f);
        Ok(())
    }

    pub(crate) fn find_class_ref(&self, name: &String) -> (r: Option<&Class>)
        ensures
            match r {
                Some(c) => find_class(self@, name@) == Some(c@),
                None => find_class(self@, name@) is None,
            },
    {
        let mut i = self.frames.len();
        proof {
            assert(self@.subrange(0, i as int) =~= self@);
        }
        while i > 0
            invariant
                i <= self@.len(),
                find_class(self@, name@) == find_class(self@.subrange(0, i as int), name@),
            decreases i,
        {
            proof {
                assert(self@.subrange(0, i as int).drop_last() =~= self@.subrange(0, i - 1));
            }
            match find_entry(&self.frames[i - 1].classes, name) {
                Some(k) => return Some(&self.frames[i - 1].classes[k].1),
                None => {},
            }
            i = i - 1;
        }
        None
    }

    /// A class, searched from the current scope outwards.
    pub fn get_class(&self, name: &String, loc: (usize, usize)) -> (r: Result<Class, SemanticError>)
        ensures
            agrees(r, match find_class(self@, name@) {
                Some(c) => Ok(c),
                None => Err(ErrorM::ClassNotFound(name@)),
            }, loc),
    {
        match self.find_class_ref(name) {
            Some(c) => Ok(c.duplicate()),
            None => Err(error_at(SemanticErrorType::ClassNotFound(name.clone()), loc)),
        }
    }

    /// A field of a class.
    pub fn get_class_field(&self, class_name: &String, field_name: &String, loc: (usize, usize)) -> (r: Result<Field, SemanticError>)
        ensures
            agrees(r, class_field_s(self@, class_name@, field_name@), loc),
    {
        match self.find_class_ref(class_name) {
            None => Err(error_at(SemanticErrorType::ClassNotFound(class_name.clone()), loc)),
            Some(c) => match find_entry(&c.fields, field_name) {
                Some(k) => Ok(c.fields[k].1.duplicate()),
                None => Err(error_at(SemanticErrorType::FieldNotFound {
                    class: class_name.clone(),
                    field: field_name.clone(),
                }, loc)),
            },
        }
    }

    /// A method of a class.
    pub fn get_class_method(&self, class_name: &String, method_name: &String, loc: (usize, usize)) -> (r: Result<Function, SemanticError>)
        ensures
            agrees(r, class_method_s(self@, class_name@, method_name@), loc),
    {
        match self.find_class_ref(class_name) {
            None => Err(error_at(SemanticErrorType::ClassNotFound(class_name.clone()), loc)),
            Some(c) => match find_entry(&c.methods, method_name) {
                Some(k) => Ok(c.methods[k].1.duplicate()),
                None => Err(error_at(SemanticErrorType::MethodNotFound {
                    class: class_name.clone(),
                    method: method_name.clone(),
                }, loc)),
            },
        }
    }

    /// Checks an assignment of a value of type `value_type` to a field of a class.
    pub fn assign_field(&self, class: &String, field_name: &String, value_type: &Type, loc: (usize, usize)) -> (r: Result<(), SemanticError>)
        ensures
            agrees_unit(r, match class_field_s(self@, class@, field_name@) {
                Err(e) => Some(e),
                Ok(f) => if f.field_type == value_type@ {
                    None
                } else {
                    Some(ErrorM::VariableAssignmentTypeMismatch {
                        expected: name_of_type(f.field_type),
                        found: name_of_type(value_type@),
                    })
                },
            }, loc),
    {
        let field = self.get_class_field(class, field_name, loc)?;
        if field.field_type.same(value_type) {
            Ok(())
        } else {
            Err(error_at(SemanticErrorType::VariableAssignmentTypeMismatch {
                expected: field.field_type.name(),
                found: value_type.name(),
            }, loc))
        }
    }
}

/// In one scope a name is one kind of thing: once `x` is declared as a variable, declaring a
/// function `x` in the same scope fails with `ShadowingFunction(x)`.
pub proof fn lemma_function_after_variable(s: ScopeM, x: Seq<char>, v: VariableM)
    ensures
        shadowing(top(set_top(s, with_variable(top(s), x, v))), x, Namespace::Function)
            == Some(ErrorM::ShadowingFunction(x)),
{
    let f = with_variable(top(s), x, v);
    assert(top(set_top(s, f)) == f);
    assert(f.variables.last() == (x, v));
}

/// A nested scope may redeclare a name of an enclosing one: declaring a variable `x` in a
/// fresh child scope succeeds, and `x` then names the inner variable.
pub proof fn lemma_nested_variable_shadows(s: ScopeM, x: Seq<char>, v: VariableM)
    ensures
        shadowing(top(s.push(empty_frame())), x, Namespace::Variable) is None,
        find_variable(set_top(s.push(empty_frame()), with_variable(top(s.push(empty_frame())), x, v)), x) == Some(v),
{
    let inner = s.push(empty_frame());
    let f = with_variable(empty_frame(), x, v);
    assert(inner.drop_last() =~= s);
    assert(set_top(inner, f).last() == f);
    assert(f.variables.last() == (x, v));
}

} // verus!
