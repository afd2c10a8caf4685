//! Names of the C# back end.
use vstd::prelude::*;
use crate::c_types::str_is;
use crate::types::text;

verus! {

pub open spec fn prefix_s(s: Seq<char>) -> Seq<char> {
    "rmm_"@ + s
}

/// The name that a user identifier gets in generated C#.
pub fn prefix(string: &str) -> (r: String)
    ensures
        r@ == prefix_s(string@),
{
    let mut s = text("rmm_");
    s.append(string);
    s
}

/// The C# types that represent the language's types.
pub struct Type;

pub open spec fn csharp_type_s(t: Seq<char>) -> Seq<char> {
    if t == "string"@ {
        "CustomLang.Types.rmm_String"@
    } else if t == "int"@ {
        "CustomLang.Types.rmm_Int"@
    } else if t == "float"@ {
        "CustomLang.Types.rmm_Float"@
    } else if t == "bool"@ {
        "CustomLang.Types.rmm_Bool"@
    } else if t == "void"@ {
        "void"@
    } else {
        "CustomLang.Users."@ + t
    }
}

impl Type {
    /// The C# type for a type name: a runtime type for the built-in names, `void`, or a
    /// user class.
    pub fn from(t: &str) -> (r: String)
        ensures
            r@ == csharp_type_s(t@),
    {
        if str_is(t, "string") {
            text("CustomLang.Types.rmm_String")
        } else if str_is(t, "int") {
            text("CustomLang.Types.rmm_Int")
        } else if str_is(t, "float") {
            text("CustomLang.Types.rmm_Float")
        } else if str_is(t, "bool") {
            text("CustomLang.Types.rmm_Bool")
        } else if str_is(t, "void") {
            text("void")
        } else {
            let mut s = text("CustomLang.Users.");
            s.append(t);
            s
        }
    }
}

} // verus!
