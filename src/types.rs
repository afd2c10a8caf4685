//! The semantic layer's types, variables, functions, classes and their models.
use vstd::prelude::*;

verus! {

/// A type of the language.
#[derive(Debug, Clone, PartialEq, Eq)]
pub enum Type {
    /// `int`
    Int,
    /// `float`
    Float,
    /// `bool`
    Boolean,
    /// `string`
    String,
    /// `void`
    Void,
    /// A user-defined class.
    Class(String),
    /// `Self`: the class being analyzed.
    SelfType,
}

/// Model of a type.
pub enum TypeM {
    Int,
    Float,
    Boolean,
    String,
    Void,
    Class(Seq<char>),
    SelfType,
}

impl View for Type {
    type V = TypeM;

    open spec fn view(&self) -> TypeM {
        match self {
            Type::Int => TypeM::Int,
            Type::Float => TypeM::Float,
            Type::Boolean => TypeM::Boolean,
            Type::String => TypeM::String,
            Type::Void => TypeM::Void,
            Type::Class(s) => TypeM::Class(s@),
            Type::SelfType => TypeM::SelfType,
        }
    }
}

/// The type that a type name in the source denotes.
pub open spec fn type_from_name(s: Seq<char>) -> TypeM {
    if s == "int"@ {
        TypeM::Int
    } else if s == "float"@ {
        TypeM::Float
    } else if s == "bool"@ {
        TypeM::Boolean
    } else if s == "string"@ {
        TypeM::String
    } else if s == "void"@ {
        TypeM::Void
    } else if s == "Self"@ {
        TypeM::SelfType
    } else {
        TypeM::Class(s)
    }
}

/// How a type is written in diagnostics.
pub open spec fn name_of_type(t: TypeM) -> Seq<char> {
    match t {
        TypeM::Int => "int"@,
        TypeM::Float => "float"@,
        TypeM::Boolean => "bool"@,
        TypeM::String => "string"@,
        TypeM::Void => "void"@,
        TypeM::Class(s) => s,
        TypeM::SelfType => "self"@,
    }
}

/// `s` holds the same characters as the literal `lit`.
pub fn same_text(s: &String, lit: &str) -> (r: bool)
    ensures
        r == (s@ == lit@),
{
    *s == String::from_str(lit)
}

/// A string with the characters of `lit`.
pub fn text(lit: &str) -> (r: String)
    ensures
        r@ == lit@,
{
    String::from_str(lit)
}

impl Type {
    /// The type that a type name denotes: the five built-in names, `Self`, or a class.
    pub fn from_name(s: &String) -> (r: Type)
        ensures
            r@ == type_from_name(s@),
    {
        if same_text(s, "int") {
            Type::Int
        } else if same_text(s, "float") {
            Type::Float
        } else if same_text(s, "bool") {
            Type::Boolean
        } else if same_text(s, "string") {
            Type::String
        } else if same_text(s, "void") {
            Type::Void
        } else if same_text(s, "Self") {
            Type::SelfType
        } else {
            Type::Class(s.clone())
        }
    }

    /// How the type is written in diagnostics.
    pub fn name(&self) -> (r: String)
        ensures
            r@ == name_of_type(self@),
    {
        match self {
            Type::Int => text("int"),
            Type::Float => text("float"),
            Type::Boolean => text("bool"),
            Type::String => text("string"),
            Type::Void => text("void"),
            Type::Class(s) => s.clone(),
            Type::SelfType => text("self"),
        }
    }

    /// A copy of this type.
    pub fn duplicate(&self) -> (r: Type)
        ensures
            r@ == self@,
    {
        match self {
            Type::Int => Type::Int,
            Type::Float => Type::Float,
            Type::Boolean => Type::Boolean,
            Type::String => Type::String,
            Type::Void => Type::Void,
            Type::Class(s) => Type::Class(s.clone()),
            Type::SelfType => Type::SelfType,
        }
    }

    /// Whether two types are the same (nominal, exact).
    pub fn same(&self, other: &Type) -> (r: bool)
        ensures
            r == (self@ == other@),
    {
        match (self, other) {
            (Type::Int, Type::Int) => true,
            (Type::Float, Type::Float) => true,
            (Type::Boolean, Type::Boolean) => true,
            (Type::String, Type::String) => true,
            (Type::Void, Type::Void) => true,
            (Type::Class(a), Type::Class(b)) => *a == *b,
            (Type::SelfType, Type::SelfType) => true,
            _ => false,
        }
    }
}

/// A variable's type and whether it has been given a value.
#[derive(Debug, Clone, PartialEq, Eq)]
pub struct Variable {
    /// The declared type.
    pub var_type: Type,
    /// Whether a value has been assigned.
    pub initialized: bool,
}

pub struct VariableM {
    pub var_type: TypeM,
    pub initialized: bool,
}

impl View for Variable {
    type V = VariableM;

    open spec fn view(&self) -> VariableM {
        VariableM { var_type: self.var_type@, initialized: self.initialized }
    }
}

/// A function or method signature.
#[derive(Debug, Clone, PartialEq, Eq)]
pub struct Function {
    /// Parameter types, in order.
    pub parameters: Vec<Type>,
    /// The return type.
    pub return_type: Type,
    /// Whether it is a static method.
    pub is_static: bool,
}

pub struct FunctionM {
    pub parameters: Seq<TypeM>,
    pub return_type: TypeM,
    pub is_static: bool,
}

pub open spec fn types_m(v: Seq<Type>) -> Seq<TypeM> {
    v.map_values(|t: Type| t@)
}

impl View for Function {
    type V = FunctionM;

    open spec fn view(&self) -> FunctionM {
        FunctionM { parameters: types_m(self.parameters@), return_type: self.return_type@, is_static: self.is_static }
    }
}

/// A field of a class.
#[derive(Debug, Clone, PartialEq, Eq)]
pub struct Field {
    /// The declared type.
    pub field_type: Type,
    /// Whether it belongs to the class rather than to an instance.
    pub is_static: bool,
}

pub struct FieldM {
    pub field_type: TypeM,
    pub is_static: bool,
}

impl View for Field {
    type V = FieldM;

    open spec fn view(&self) -> FieldM {
        FieldM { field_type: self.field_type@, is_static: self.is_static }
    }
}

/// A user-defined class: its name, fields and methods.
///
/// In each table a later entry for a name stands over an earlier one.
#[derive(Debug, Clone, PartialEq, Eq)]
pub struct Class {
    /// The class name.
    pub name: String,
    /// Fields by name.
    pub fields: Vec<(String, Field)>,
    /// Methods by name.
    pub methods: Vec<(String, Function)>,
}

pub struct ClassM {
    pub name: Seq<char>,
    pub fields: Seq<(Seq<char>, FieldM)>,
    pub methods: Seq<(Seq<char>, FunctionM)>,
}

/// Model of a table keyed by name.
pub open spec fn entries_m<V: View>(v: Seq<(String, V)>) -> Seq<(Seq<char>, V::V)> {
    v.map_values(|p: (String, V)| (p.0@, p.1@))
}

pub proof fn lemma_entries_push<V: View>(v: Seq<(String, V)>, p: (String, V))
    ensures
        entries_m(v.push(p)) == entries_m(v).push((p.0@, p.1@)),
{
    assert(entries_m(v.push(p)) =~= entries_m(v).push((p.0@, p.1@)));
}

/// The index of the latest entry for `k` in a table, if any.
pub fn find_entry<V: View>(table: &Vec<(String, V)>, k: &String) -> (r: Option<usize>)
    ensures
        match r {
            Some(i) => i < table@.len() && lookup(entries_m(table@), k@) == Some(table@[i as int].1@),
            None => lookup(entries_m(table@), k@) is None,
        },
{
    let ghost e = entries_m(table@);
    let mut i = table.len();
    proof {
        assert(e.subrange(0, i as int) =~= e);
    }
    while i > 0
        invariant
            i <= table@.len(),
            e == entries_m(table@),
            lookup(e, k@) == lookup(e.subrange(0, i as int), k@),
        decreases i,
    {
        proof {
            assert(e.subrange(0, i as int).drop_last() =~= e.subrange(0, i - 1));
        }
        if table[i - 1].0 == *k {
            return Some(i - 1);
        }
        i = i - 1;
    }
    None
}

impl View for Class {
    type V = ClassM;

    open spec fn view(&self) -> ClassM {
        ClassM { name: self.name@, fields: entries_m(self.fields@), methods: entries_m(self.methods@) }
    }
}

/// The latest entry for `k` in a table.
pub open spec fn lookup<V>(s: Seq<(Seq<char>, V)>, k: Seq<char>) -> Option<V>
    decreases s.len(),
{
    if s.len() == 0 {
        None
    } else if s.last().0 == k {
        Some(s.last().1)
    } else {
        lookup(s.drop_last(), k)
    }
}

/// The resolved target of an assignment.
#[derive(Debug, Clone, PartialEq, Eq)]
pub enum LValue {
    /// A variable of the current local scope.
    Variable(String),
    /// An instance field.
    Field { base: Type, field_name: String },
    /// A static field.
    StaticField { class: Type, field_name: String },
}

pub enum LValueM {
    Variable(Seq<char>),
    Field { base: TypeM, field_name: Seq<char> },
    StaticField { class: TypeM, field_name: Seq<char> },
}

impl View for LValue {
    type V = LValueM;

    open spec fn view(&self) -> LValueM {
        match self {
            LValue::Variable(n) => LValueM::Variable(n@),
            LValue::Field { base, field_name } => LValueM::Field { base: base@, field_name: field_name@ },
            LValue::StaticField { class, field_name } => LValueM::StaticField { class: class@, field_name: field_name@ },
        }
    }
}

impl Field {
    /// A copy of this field.
    pub fn duplicate(&self) -> (r: Field)
        ensures
            r@ == self@,
    {
        Field { field_type: self.field_type.duplicate(), is_static: self.is_static }
    }
}

impl Function {
    /// A copy of this signature.
    pub fn duplicate(&self) -> (r: Function)
        ensures
            r@ == self@,
    {
        let mut parameters: Vec<Type> = Vec::new();
        let mut i: usize = 0;
        while i < self.parameters.len()
            invariant
                i <= self.parameters@.len(),
                types_m(parameters@) =~= types_m(self.parameters@).subrange(0, i as int),
            decreases self.parameters@.len() - i,
        {
            let t = self.parameters[i].duplicate();
            proof {
                assert(types_m(parameters@.push(t)) =~= types_m(parameters@).push(t@));
                assert(types_m(self.parameters@).subrange(0, i + 1) =~= types_m(self.parameters@).subrange(0, i as int).push(t@));
            }
            parameters.push(t);
            i = i + 1;
        }
        proof {
            assert(types_m(self.parameters@).subrange(0, i as int) =~= types_m(self.parameters@));
        }
        Function { parameters, return_type: self.return_type.duplicate(), is_static: self.is_static }
    }
}

impl Class {
    /// A copy of this class.
    pub fn duplicate(&self) -> (r: Class)
        ensures
            r@ == self@,
    {
        let mut fields: Vec<(String, Field)> = Vec::new();
        let mut i: usize = 0;
        while i < self.fields.len()
            invariant
                i <= self.fields@.len(),
                entries_m(fields@) =~= entries_m(self.fields@).subrange(0, i as int),
            decreases self.fields@.len() - i,
        {
            let p = (self.fields[i].0.clone(), self.fields[i].1.duplicate());
            proof {
                lemma_entries_push(fields@, p);
                assert(entries_m(self.fields@).subrange(0, i + 1) =~= entries_m(self.fields@).subrange(0, i as int).push((p.0@, p.1@)));
            }
            fields.push(p);
            i = i + 1;
        }
        let mut methods: Vec<(String, Function)> = Vec::new();
        let mut j: usize = 0;
        while j < self.methods.len()
            invariant
                j <= self.methods@.len(),
                entries_m(methods@) =~= entries_m(self.methods@).subrange(0, j as int),
            decreases self.methods@.len() - j,
        {
            let p = (self.methods[j].0.clone(), self.methods[j].1.duplicate());
            proof {
                lemma_entries_push(methods@, p);
                assert(entries_m(self.methods@).subrange(0, j + 1) =~= entries_m(self.methods@).subrange(0, j as int).push((p.0@, p.1@)));
            }
            methods.push(p);
            j = j + 1;
        }
        proof {
            assert(entries_m(self.fields@).subrange(0, i as int) =~= entries_m(self.fields@));
            assert(entries_m(self.methods@).subrange(0, j as int) =~= entries_m(self.methods@));
        }
        Class { name: self.name.clone(), fields, methods }
    }
}

} // verus!
