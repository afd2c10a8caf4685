//! Types and built-in functions of the C back end, with the typing of its operators.
use vstd::prelude::*;
use crate::types::text;

verus! {

/// Whether `s` holds the same characters as `lit`.
pub fn str_is(s: &str, lit: &str) -> (r: bool)
    ensures
        r == (s@ == lit@),
{
    String::from_str(s) == String::from_str(lit)
}

pub open spec fn prefix_s(identifier: Seq<char>) -> Seq<char> {
    "rustmm_user_"@ + identifier
}

/// The name that a user identifier gets in generated C.
pub fn prefix(identifier: &str) -> (r: String)
    ensures
        r@ == prefix_s(identifier@),
{
    let mut s = text("rustmm_user_");
    s.append(identifier);
    s
}

/// A value type of the C back end.
#[derive(Debug, Clone, Copy, PartialEq, Eq)]
pub enum Type {
    Bool,
    Int,
    Float,
    String,
    Void,
}

/// The type that a name denotes, if any.
pub open spec fn type_named(s: Seq<char>) -> Option<Type> {
    if s == "Bool"@ {
        Some(Type::Bool)
    } else if s == "Int"@ {
        Some(Type::Int)
    } else if s == "Float"@ {
        Some(Type::Float)
    } else if s == "String"@ {
        Some(Type::String)
    } else if s == "Void"@ {
        Some(Type::Void)
    } else {
        None
    }
}

/// How a type is written in diagnostics.
pub open spec fn debug_name(t: Type) -> Seq<char> {
    match t {
        Type::Bool => "Bool"@,
        Type::Int => "Int"@,
        Type::Float => "Float"@,
        Type::String => "String"@,
        Type::Void => "Void"@,
    }
}

/// The C type that represents a type.
pub open spec fn c_type_s(t: Type) -> Seq<char> {
    match t {
        Type::Bool => "bool"@,
        Type::Int => "int"@,
        Type::Float => "double"@,
        Type::String => "rustmm_type_string"@,
        Type::Void => "void"@,
    }
}

/// `text t1 and t2`, the message of a refused binary operation.
pub open spec fn pair_message(head: Seq<char>, a: Type, b: Type, tail: Seq<char>) -> Seq<char> {
    head + debug_name(a) + " and "@ + debug_name(b) + tail
}

/// The arithmetic result type: `Int` for two `Int`s, `Float` when both are numeric and one is
/// a `Float`.
pub open spec fn numeric_s(a: Type, b: Type) -> Option<Type> {
    match (a, b) {
        (Type::Int, Type::Int) => Some(Type::Int),
        (Type::Float, Type::Float) | (Type::Int, Type::Float) | (Type::Float, Type::Int) => Some(Type::Float),
        _ => None,
    }
}

pub open spec fn is_numeric(t: Type) -> bool {
    t == Type::Int || t == Type::Float
}

/// The result of an operator's typing against its specification.
pub open spec fn typed(r: Result<Type, String>, ok: Option<Type>, msg: Seq<char>) -> bool {
    match ok {
        Some(t) => r == Ok::<Type, String>(t),
        None => r is Err && r->Err_0@ == msg,
    }
}

fn debug_text(t: Type) -> (r: String)
    ensures
        r@ == debug_name(t),
{
    match t {
        Type::Bool => text("Bool"),
        Type::Int => text("Int"),
        Type::Float => text("Float"),
        Type::String => text("String"),
        Type::Void => text("Void"),
    }
}

fn pair_text(head: &str, a: Type, b: Type, tail: &str) -> (r: String)
    ensures
        r@ == pair_message(head@, a, b, tail@),
{
    let mut s = String::from_str(head);
    s.append(debug_text(a).as_str());
    s.append(" and ");
    s.append(debug_text(b).as_str());
    s.append(tail);
    s
}

impl Type {
    /// The type named by `type_str`.
    pub fn from_str(type_str: &str) -> (r: Result<Type, String>)
        ensures
            typed(r, type_named(type_str@), "Unknown type: "@ + type_str@),
    {
        if str_is(type_str, "Bool") {
            Ok(Type::Bool)
        } else if str_is(type_str, "Int") {
            Ok(Type::Int)
        } else if str_is(type_str, "Float") {
            Ok(Type::Float)
        } else if str_is(type_str, "String") {
            Ok(Type::String)
        } else if str_is(type_str, "Void") {
            Ok(Type::Void)
        } else {
            let mut s = text("Unknown type: ");
            s.append(type_str);
            Err(s)
        }
    }

    /// The C type that represents this type.
    pub fn to_c_type(&self) -> (r: &'static str)
        ensures
            r@ == c_type_s(*self),
    {
        match self {
            Type::Bool => "bool",
            Type::Int => "int",
            Type::Float => "double",
            Type::String => "rustmm_type_string",
            Type::Void => "void",
        }
    }

    /// `+`: numeric, or two `String`s.
    pub fn add(&self, other: &Type) -> (r: Result<Type, String>)
        ensures
            typed(r, if *self == Type::String && *other == Type::String { Some(Type::String) } else { numeric_s(*self, *other) },
                pair_message("Cannot add types "@, *self, *other, ""@)),
    {
        match (self, other) {
            (Type::Int, Type::Int) => Ok(Type::Int),
            (Type::Float, Type::Float) | (Type::Int, Type::Float) | (Type::Float, Type::Int) => Ok(Type::Float),
            (Type::String, Type::String) => Ok(Type::String),
            _ => Err(pair_text("Cannot add types ", *self, *other, "")),
        }
    }

    /// `-`: numeric only.
    pub fn sub(&self, other: &Type) -> (r: Result<Type, String>)
        ensures
            typed(r, numeric_s(*self, *other), pair_message("Cannot subtract types "@, *self, *other, ""@)),
    {
        match (self, other) {
            (Type::Int, Type::Int) => Ok(Type::Int),
            (Type::Float, Type::Float) | (Type::Int, Type::Float) | (Type::Float, Type::Int) => Ok(Type::Float),
            _ => Err(pair_text("Cannot subtract types ", *self, *other, "")),
        }
    }

    /// `*`: numeric only.
    pub fn mul(&self, other: &Type) -> (r: Result<Type, String>)
        ensures
            typed(r, numeric_s(*self, *other), pair_message("Cannot multiply types "@, *self, *other, ""@)),
    {
        match (self, other) {
            (Type::Int, Type::Int) => Ok(Type::Int),
            (Type::Float, Type::Float) | (Type::Int, Type::Float) | (Type::Float, Type::Int) => Ok(Type::Float),
            _ => Err(pair_text("Cannot multiply types ", *self, *other, "")),
        }
    }

    /// `/`: numeric only.
    pub fn div(&self, other: &Type) -> (r: Result<Type, String>)
        ensures
            typed(r, numeric_s(*self, *other), pair_message("Cannot divide types "@, *self, *other, ""@)),
    {
        match (self, other) {
            (Type::Int, Type::Int) => Ok(Type::Int),
            (Type::Float, Type::Float) | (Type::Int, Type::Float) | (Type::Float, Type::Int) => Ok(Type::Float),
            _ => Err(pair_text("Cannot divide types ", *self, *other, "")),
        }
    }

    /// `==`: two numbers, two `Bool`s or two `String`s give `Bool`.
    pub fn eq(&self, other: &Type) -> (r: Result<Type, String>)
        ensures
            typed(r, if (is_numeric(*self) && is_numeric(*other)) || (*self == Type::Bool && *other == Type::Bool)
                || (*self == Type::String && *other == Type::String) { Some(Type::Bool) } else { None },
                pair_message("Cannot compare types "@, *self, *other, " using '==' or '!='"@)),
    {
        match (self, other) {
            (Type::Int | Type::Float, Type::Int | Type::Float) | (Type::Bool, Type::Bool) | (Type::String, Type::String) =>
                Ok(Type::Bool),
            _ => Err(pair_text("Cannot compare types ", *self, *other, " using '==' or '!='")),
        }
    }

    /// `!=`: as `==`.
    pub fn ne(&self, other: &Type) -> (r: Result<Type, String>)
        ensures
            typed(r, if (is_numeric(*self) && is_numeric(*other)) || (*self == Type::Bool && *other == Type::Bool)
                || (*self == Type::String && *other == Type::String) { Some(Type::Bool) } else { None },
                pair_message("Cannot compare types "@, *self, *other, " using '==' or '!='"@)),
    {
        self.eq(other)
    }

    /// `<`: two numbers give `Bool`.
    pub fn lt(&self, other: &Type) -> (r: Result<Type, String>)
        ensures
            typed(r, if is_numeric(*self) && is_numeric(*other) { Some(Type::Bool) } else { None },
                pair_message("Cannot compare types "@, *self, *other, " using '<', '>', '<=' or '>='"@)),
    {
        match (self, other) {
            (Type::Int | Type::Float, Type::Int | Type::Float) => Ok(Type::Bool),
            _ => Err(pair_text("Cannot compare types ", *self, *other, " using '<', '>', '<=' or '>='")),
        }
    }

    /// `>`: as `<`.
    pub fn gt(&self, other: &Type) -> (r: Result<Type, String>)
        ensures
            typed(r, if is_numeric(*self) && is_numeric(*other) { Some(Type::Bool) } else { None },
                pair_message("Cannot compare types "@, *self, *other, " using '<', '>', '<=' or '>='"@)),
    {
        self.lt(other)
    }

    /// `<=`: as `<`.
    pub fn le(&self, other: &Type) -> (r: Result<Type, String>)
        ensures
            typed(r, if is_numeric(*self) && is_numeric(*other) { Some(Type::Bool) } else { None },
                pair_message("Cannot compare types "@, *self, *other, " using '<', '>', '<=' or '>='"@)),
    {
        self.lt(other)
    }

    /// `>=`: as `<`.
    pub fn ge(&self, other: &Type) -> (r: Result<Type, String>)
        ensures
            typed(r, if is_numeric(*self) && is_numeric(*other) { Some(Type::Bool) } else { None },
                pair_message("Cannot compare types "@, *self, *other, " using '<', '>', '<=' or '>='"@)),
    {
        self.lt(other)
    }

    /// `&&`: two `Bool`s give `Bool`.
    pub fn and(&self, other: &Type) -> (r: Result<Type, String>)
        ensures
            typed(r, if *self == Type::Bool && *other == Type::Bool { Some(Type::Bool) } else { None },
                pair_message("Cannot perform logical AND on types "@, *self, *other, ""@)),
    {
        match (self, other) {
            (Type::Bool, Type::Bool) => Ok(Type::Bool),
            _ => Err(pair_text("Cannot perform logical AND on types ", *self, *other, "")),
        }
    }

    /// `||`: as `&&`.
    pub fn or(&self, other: &Type) -> (r: Result<Type, String>)
        ensures
            typed(r, if *self == Type::Bool && *other == Type::Bool { Some(Type::Bool) } else { None },
                pair_message("Cannot perform logical AND on types "@, *self, *other, ""@)),
    {
        self.and(other)
    }

    /// `!`: `Bool` gives `Bool`.
    pub fn not(&self) -> (r: Result<Type, String>)
        ensures
            typed(r, if *self == Type::Bool { Some(Type::Bool) } else { None },
                "Cannot perform logical NOT on type "@ + debug_name(*self)),
    {
        match self {
            Type::Bool => Ok(Type::Bool),
            _ => {
                let mut s = text("Cannot perform logical NOT on type ");
                s.append(debug_text(*self).as_str());
                Err(s)
            },
        }
    }
}

/// Functions that the C runtime provides.
#[derive(Debug, Clone, Copy, PartialEq, Eq)]
pub enum BuiltinFunction {
    Print,
    Println,
    StringToBool,
    StringToInt,
    StringToFloat,
    BoolToString,
    BoolToInt,
    BoolToFloat,
    IntToString,
    IntToBool,
    IntToFloat,
    FloatToString,
    FloatToBool,
    FloatToInt,
}

pub open spec fn c_function_s(f: BuiltinFunction) -> Seq<char> {
    match f {
        BuiltinFunction::Print => "rustmm_builtin_print"@,
        BuiltinFunction::Println => "rustmm_builtin_println"@,
        BuiltinFunction::StringToBool => "rustmm_builtin_stringToBool"@,
        BuiltinFunction::StringToInt => "rustmm_builtin_stringToInt"@,
        BuiltinFunction::StringToFloat => "rustmm_builtin_stringToFloat"@,
        BuiltinFunction::BoolToString => "rustmm_builtin_boolToString"@,
        BuiltinFunction::BoolToInt => "rustmm_builtin_boolToInt"@,
        BuiltinFunction::BoolToFloat => "rustmm_builtin_boolToFloat"@,
        BuiltinFunction::IntToString => "rustmm_builtin_intToString"@,
        BuiltinFunction::IntToBool => "rustmm_builtin_intToBool"@,
        BuiltinFunction::IntToFloat => "rustmm_builtin_intToFloat"@,
        BuiltinFunction::FloatToString => "rustmm_builtin_floatToString"@,
        BuiltinFunction::FloatToBool => "rustmm_builtin_floatToBool"@,
        BuiltinFunction::FloatToInt => "rustmm_builtin_floatToInt"@,
    }
}

impl BuiltinFunction {
    /// The C function that implements this built-in.
    pub fn to_c_function(&self) -> (r: &'static str)
        ensures
            r@ == c_function_s(*self),
    {
        match self {
            BuiltinFunction::Print => "rustmm_builtin_print",
            BuiltinFunction::Println => "rustmm_builtin_println",
            BuiltinFunction::StringToBool => "rustmm_builtin_stringToBool",
            BuiltinFunction::StringToInt => "rustmm_builtin_stringToInt",
            BuiltinFunction::StringToFloat => "rustmm_builtin_stringToFloat",
            BuiltinFunction::BoolToString => "rustmm_builtin_boolToString",
            BuiltinFunction::BoolToInt => "rustmm_builtin_boolToInt",
            BuiltinFunction::BoolToFloat => "rustmm_builtin_boolToFloat",
            BuiltinFunction::IntToString => "rustmm_builtin_intToString",
            BuiltinFunction::IntToBool => "rustmm_builtin_intToBool",
            BuiltinFunction::IntToFloat => "rustmm_builtin_intToFloat",
            BuiltinFunction::FloatToString => "rustmm_builtin_floatToString",
            BuiltinFunction::FloatToBool => "rustmm_builtin_floatToBool",
            BuiltinFunction::FloatToInt => "rustmm_builtin_floatToInt",
        }
    }

    /// The built-in that a source name calls, for the names the language exposes:
    /// `print`, `println`, `boolToString`, `intToString`, `floatToString`.
    pub fn from_str(name: &str) -> (r: Option<BuiltinFunction>)
        ensures
            r == (if name@ == "print"@ {
                Some(BuiltinFunction::Print)
            } else if name@ == "println"@ {
                Some(BuiltinFunction::Println)
            } else if name@ == "boolToString"@ {
                Some(BuiltinFunction::BoolToString)
            } else if name@ == "intToString"@ {
                Some(BuiltinFunction::IntToString)
            } else if name@ == "floatToString"@ {
                Some(BuiltinFunction::FloatToString)
            } else {
                None
            }),
    {
        if str_is(name, "print") {
            Some(BuiltinFunction::Print)
        } else if str_is(name, "println") {
            Some(BuiltinFunction::Println)
        } else if str_is(name, "boolToString") {
            Some(BuiltinFunction::BoolToString)
        } else if str_is(name, "intToString") {
            Some(BuiltinFunction::IntToString)
        } else if str_is(name, "floatToString") {
            Some(BuiltinFunction::FloatToString)
        } else {
            None
        }
    }
}

} // verus!
