use frontend::c_types::{prefix, BuiltinFunction, Type};
use frontend::csharp;

#[test]
fn c_prefix_and_types() {
    assert_eq!(prefix("main"), "rustmm_user_main");
    assert_eq!(Type::from_str("Float"), Ok(Type::Float));
    assert_eq!(Type::from_str("Bool"), Ok(Type::Bool));
    assert_eq!(Type::from_str("Number"), Err("Unknown type: Number".to_string()));
    assert_eq!(Type::Float.to_c_type(), "double");
    assert_eq!(Type::String.to_c_type(), "rustmm_type_string");
}

#[test]
fn c_arithmetic_typing() {
    assert_eq!(Type::Int.add(&Type::Int), Ok(Type::Int));
    assert_eq!(Type::Int.add(&Type::Float), Ok(Type::Float));
    assert_eq!(Type::String.add(&Type::String), Ok(Type::String));
    assert_eq!(Type::String.sub(&Type::String), Err("Cannot subtract types String and String".to_string()));
    assert_eq!(Type::Float.mul(&Type::Int), Ok(Type::Float));
    assert_eq!(Type::Bool.div(&Type::Int), Err("Cannot divide types Bool and Int".to_string()));
    assert_eq!(Type::Bool.add(&Type::Int), Err("Cannot add types Bool and Int".to_string()));
}

#[test]
fn c_comparison_and_logic_typing() {
    assert_eq!(Type::Int.eq(&Type::Float), Ok(Type::Bool));
    assert_eq!(Type::String.ne(&Type::String), Ok(Type::Bool));
    assert_eq!(
        Type::String.eq(&Type::Int),
        Err("Cannot compare types String and Int using '==' or '!='".to_string())
    );
    assert_eq!(Type::Int.lt(&Type::Float), Ok(Type::Bool));
    assert_eq!(Type::Int.ge(&Type::Int), Ok(Type::Bool));
    assert_eq!(
        Type::Bool.gt(&Type::Bool),
        Err("Cannot compare types Bool and Bool using '<', '>', '<=' or '>='".to_string())
    );
    assert_eq!(Type::Bool.le(&Type::Int).is_err(), true);
    assert_eq!(Type::Bool.and(&Type::Bool), Ok(Type::Bool));
    assert_eq!(Type::Bool.or(&Type::Int), Err("Cannot perform logical AND on types Bool and Int".to_string()));
    assert_eq!(Type::Bool.not(), Ok(Type::Bool));
    assert_eq!(Type::Void.not(), Err("Cannot perform logical NOT on type Void".to_string()));
}

#[test]
fn c_builtins() {
    assert_eq!(BuiltinFunction::from_str("println"), Some(BuiltinFunction::Println));
    assert_eq!(BuiltinFunction::from_str("intToString"), Some(BuiltinFunction::IntToString));
    assert_eq!(BuiltinFunction::from_str("stringToInt"), None);
    assert_eq!(BuiltinFunction::Print.to_c_function(), "rustmm_builtin_print");
    assert_eq!(BuiltinFunction::FloatToInt.to_c_function(), "rustmm_builtin_floatToInt");
}

#[test]
fn csharp_names() {
    assert_eq!(csharp::prefix("x"), "rmm_x");
    assert_eq!(csharp::Type::from("int"), "CustomLang.Types.rmm_Int");
    assert_eq!(csharp::Type::from("string"), "CustomLang.Types.rmm_String");
    assert_eq!(csharp::Type::from("void"), "void");
    assert_eq!(csharp::Type::from("Point"), "CustomLang.Users.Point");
}
