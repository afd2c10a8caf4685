//! Semantic errors: what went wrong, where, and how it reads.
use vstd::prelude::*;
use crate::types::text;

verus! {

/// A semantic error at a (line, column) of the source.
#[derive(Debug, Clone, PartialEq, Eq)]
pub struct SemanticError {
    /// What went wrong.
    pub error_type: SemanticErrorType,
    /// The line of the offending statement.
    pub line: usize,
    /// The column of the offending statement.
    pub column: usize,
}

/// The kinds of semantic error.
///
/// The three shadowing kinds name the declaration that was refused: `ShadowingFunction(x)`
/// is a function `x` declared where a variable or class `x` already exists in the same scope.
#[derive(Debug, Clone, PartialEq, Eq)]
#[allow(inconsistent_fields)]
pub enum SemanticErrorType {
    /// A variable declared where a function or class of that name exists in the same scope.
    ShadowingVariable(String),
    /// A function declared where a variable or class of that name exists in the same scope.
    ShadowingFunction(String),
    /// A class declared where a variable or function of that name exists in the same scope.
    ShadowingClass(String),
    /// A variable that does not exist where it is used.
    VariableNotFound(String),
    /// A variable read before it was given a value.
    VariableUninitialized(String),
    /// A value of type `found` assigned to a target of type `expected`.
    VariableAssignmentTypeMismatch { expected: String, found: String },
    /// A function that does not exist.
    FunctionNotFound(String),
    /// A class that does not exist.
    ClassNotFound(String),
    /// A field that the class does not have.
    FieldNotFound { class: String, field: String },
    /// A method that the class does not have.
    MethodNotFound { class: String, method: String },
    /// A field declared twice in one class.
    DuplicateField(String),
    /// A field and a method of one class with the same name.
    FieldMethodNameConflict(String),
    /// A field initializer of the wrong type.
    FieldInitializationTypeMismatch { expected: String, found: String },
    /// An instance field assigned through something other than a name or `self`.
    IllegalInstanceFieldAssignment(String),
    /// An assignment to an expression of the given kind, which cannot be assigned.
    InvalidAssignmentTarget(String),
    /// A condition, argument or returned value of the wrong type.
    TypeMismatch { expected: String, found: String },
    /// A binary operator applied to operand types it does not take.
    InvalidOperands { operator: String, left: String, right: String },
    /// A unary operator applied to an operand type it does not take.
    InvalidOperand { operator: String, operand: String },
    /// A call with the wrong number of arguments.
    ArgumentCountMismatch { function: String, expected: usize, found: usize },
    /// A call of an expression of the given kind, which names no function or method.
    InvalidCallTarget(String),
    /// A statement of the given kind where it cannot stand: a field or method declaration
    /// outside a class body, another statement inside one, or a function or class
    /// declaration inside a function or method body.
    MisplacedMember(String),
}

/// Model of an error kind.
#[allow(inconsistent_fields)]
pub enum ErrorM {
    ShadowingVariable(Seq<char>),
    ShadowingFunction(Seq<char>),
    ShadowingClass(Seq<char>),
    VariableNotFound(Seq<char>),
    VariableUninitialized(Seq<char>),
    VariableAssignmentTypeMismatch { expected: Seq<char>, found: Seq<char> },
    FunctionNotFound(Seq<char>),
    ClassNotFound(Seq<char>),
    FieldNotFound { class: Seq<char>, field: Seq<char> },
    MethodNotFound { class: Seq<char>, method: Seq<char> },
    DuplicateField(Seq<char>),
    FieldMethodNameConflict(Seq<char>),
    FieldInitializationTypeMismatch { expected: Seq<char>, found: Seq<char> },
    IllegalInstanceFieldAssignment(Seq<char>),
    InvalidAssignmentTarget(Seq<char>),
    TypeMismatch { expected: Seq<char>, found: Seq<char> },
    InvalidOperands { operator: Seq<char>, left: Seq<char>, right: Seq<char> },
    InvalidOperand { operator: Seq<char>, operand: Seq<char> },
    ArgumentCountMismatch { function: Seq<char>, expected: nat, found: nat },
    InvalidCallTarget(Seq<char>),
    MisplacedMember(Seq<char>),
}

impl View for SemanticErrorType {
    type V = ErrorM;

    open spec fn view(&self) -> ErrorM {
        match self {
            SemanticErrorType::ShadowingVariable(a) => ErrorM::ShadowingVariable(a@),
            SemanticErrorType::ShadowingFunction(a) => ErrorM::ShadowingFunction(a@),
            SemanticErrorType::ShadowingClass(a) => ErrorM::ShadowingClass(a@),
            SemanticErrorType::VariableNotFound(a) => ErrorM::VariableNotFound(a@),
            SemanticErrorType::VariableUninitialized(a) => ErrorM::VariableUninitialized(a@),
            SemanticErrorType::VariableAssignmentTypeMismatch { expected, found } =>
                ErrorM::VariableAssignmentTypeMismatch { expected: expected@, found: found@ },
            SemanticErrorType::FunctionNotFound(a) => ErrorM::FunctionNotFound(a@),
            SemanticErrorType::ClassNotFound(a) => ErrorM::ClassNotFound(a@),
            SemanticErrorType::FieldNotFound { class, field } => ErrorM::FieldNotFound { class: class@, field: field@ },
            SemanticErrorType::MethodNotFound { class, method } => ErrorM::MethodNotFound { class: class@, method: method@ },
            SemanticErrorType::DuplicateField(a) => ErrorM::DuplicateField(a@),
            SemanticErrorType::FieldMethodNameConflict(a) => ErrorM::FieldMethodNameConflict(a@),
            SemanticErrorType::FieldInitializationTypeMismatch { expected, found } =>
                ErrorM::FieldInitializationTypeMismatch { expected: expected@, found: found@ },
            SemanticErrorType::IllegalInstanceFieldAssignment(a) => ErrorM::IllegalInstanceFieldAssignment(a@),
            SemanticErrorType::InvalidAssignmentTarget(a) => ErrorM::InvalidAssignmentTarget(a@),
            SemanticErrorType::TypeMismatch { expected, found } => ErrorM::TypeMismatch { expected: expected@, found: found@ },
            SemanticErrorType::InvalidOperands { operator, left, right } =>
                ErrorM::InvalidOperands { operator: operator@, left: left@, right: right@ },
            SemanticErrorType::InvalidOperand { operator, operand } =>
                ErrorM::InvalidOperand { operator: operator@, operand: operand@ },
            SemanticErrorType::ArgumentCountMismatch { function, expected, found } =>
                ErrorM::ArgumentCountMismatch { function: function@, expected: *expected as nat, found: *found as nat },
            SemanticErrorType::InvalidCallTarget(a) => ErrorM::InvalidCallTarget(a@),
            SemanticErrorType::MisplacedMember(a) => ErrorM::MisplacedMember(a@),
        }
    }
}

/// Model of an error with its position.
pub struct SemanticErrorM {
    pub error_type: ErrorM,
    pub line: usize,
    pub column: usize,
}

impl View for SemanticError {
    type V = SemanticErrorM;

    open spec fn view(&self) -> SemanticErrorM {
        SemanticErrorM { error_type: self.error_type@, line: self.line, column: self.column }
    }
}

// ------------------------------------------------------------------------------ messages

pub open spec fn digit_s(d: nat) -> Seq<char> {
    if d == 0 { "0"@ } else if d == 1 { "1"@ } else if d == 2 { "2"@ } else if d == 3 { "3"@ }
    else if d == 4 { "4"@ } else if d == 5 { "5"@ } else if d == 6 { "6"@ } else if d == 7 { "7"@ }
    else if d == 8 { "8"@ } else { "9"@ }
}

/// The decimal digits of `n`, most significant first.
pub open spec fn decimal_s(n: nat) -> Seq<char>
    decreases n,
{
    if n < 10 {
        digit_s(n)
    } else {
        decimal_s(n / 10) + digit_s(n % 10)
    }
}

fn digit(d: usize) -> (r: String)
    requires
        d < 10,
    ensures
        r@ == digit_s(d as nat),
{
    if d == 0 { text("0") } else if d == 1 { text("1") } else if d == 2 { text("2") }
    else if d == 3 { text("3") } else if d == 4 { text("4") } else if d == 5 { text("5") }
    else if d == 6 { text("6") } else if d == 7 { text("7") } else if d == 8 { text("8") }
    else { text("9") }
}

/// `n` written in decimal.
pub fn decimal(n: usize) -> (r: String)
    ensures
        r@ == decimal_s(n as nat),
    decreases n,
{
    if n < 10 {
        digit(n)
    } else {
        let mut s = decimal(n / 10);
        let d = digit(n % 10);
        s.append(d.as_str());
        s
    }
}

/// `part1 'var' part2`
pub open spec fn one_var_s(part1: Seq<char>, var: Seq<char>, part2: Seq<char>) -> Seq<char> {
    part1 + " '"@ + var + "' "@ + part2
}

/// `part1 'var1' part2 'var2'`
pub open spec fn two_var_s(part1: Seq<char>, var1: Seq<char>, part2: Seq<char>, var2: Seq<char>) -> Seq<char> {
    part1 + " '"@ + var1 + "' "@ + part2 + "'"@ + var2 + "'"@
}

/// The message text of an error kind.
pub open spec fn message_s(e: ErrorM) -> Seq<char> {
    match e {
        ErrorM::ShadowingVariable(v) => one_var_s("Cannot declare variable"@, v,
            "because a function or class with that name already exists in the current scope"@),
        ErrorM::ShadowingFunction(v) => one_var_s("Cannot declare function"@, v,
            "because a variable or class with that name already exists in the current scope"@),
        ErrorM::ShadowingClass(v) => one_var_s("Cannot declare class"@, v,
            "because a variable or function with that name already exists in the current scope"@),
        ErrorM::VariableNotFound(v) => one_var_s("Tried to access variable"@, v,
            "which does not exist in the current or any parent scope"@),
        ErrorM::VariableUninitialized(v) => one_var_s("Tried to access variable"@, v,
            "which exists but has not been assigned a value yet"@),
        ErrorM::VariableAssignmentTypeMismatch { expected, found } =>
            two_var_s("Tried to assign a value of type"@, found, "to a variable of type "@, expected),
        ErrorM::FunctionNotFound(v) => one_var_s("Tried to access function"@, v,
            "which does not exist in the current or any parent scope"@),
        ErrorM::ClassNotFound(v) => one_var_s("Tried to access class"@, v,
            "which does not exist in the current or any parent scope"@),
        ErrorM::FieldNotFound { class, field } =>
            two_var_s("Tried to access field"@, field, "which does not exist in class "@, class),
        ErrorM::MethodNotFound { class, method } =>
            two_var_s("Tried to access method"@, method, "which does not exist in class "@, class),
        ErrorM::DuplicateField(v) => one_var_s("Field"@, v, "is declared more than once"@),
        ErrorM::FieldMethodNameConflict(v) => one_var_s("The name"@, v,
            "is used by both a field and a method"@),
        ErrorM::FieldInitializationTypeMismatch { expected, found } =>
            two_var_s("Tried to initialize a field with a value of type"@, found, "instead of type "@, expected),
        ErrorM::IllegalInstanceFieldAssignment(v) => one_var_s("Instance field"@, v,
            "can only be assigned through a variable or self"@),
        ErrorM::InvalidAssignmentTarget(v) => one_var_s("Cannot assign to an expression of kind"@, v, ""@),
        ErrorM::TypeMismatch { expected, found } =>
            two_var_s("Expected a value of type"@, expected, "but found type "@, found),
        ErrorM::InvalidOperands { operator, left, right } =>
            two_var_s("Operator"@, operator, "cannot be applied to types "@, left + "' and '"@ + right),
        ErrorM::InvalidOperand { operator, operand } =>
            two_var_s("Operator"@, operator, "cannot be applied to type "@, operand),
        ErrorM::ArgumentCountMismatch { function, expected, found } =>
            two_var_s("Function"@, function, "takes "@ + decimal_s(expected) + " arguments but was given "@,
                decimal_s(found)),
        ErrorM::InvalidCallTarget(v) => one_var_s("Cannot call an expression of kind"@, v, ""@),
        ErrorM::MisplacedMember(v) => one_var_s("A statement of kind"@, v, "cannot stand here"@),
    }
}

/// The name of an error kind.
pub open spec fn error_name_s(e: ErrorM) -> Seq<char> {
    match e {
        ErrorM::ShadowingVariable(_) => "ShadowingVariable"@,
        ErrorM::ShadowingFunction(_) => "ShadowingFunction"@,
        ErrorM::ShadowingClass(_) => "ShadowingClass"@,
        ErrorM::VariableNotFound(_) => "VariableNotFound"@,
        ErrorM::VariableUninitialized(_) => "VariableUninitialized"@,
        ErrorM::VariableAssignmentTypeMismatch { .. } => "VariableAssignmentTypeMismatch"@,
        ErrorM::FunctionNotFound(_) => "FunctionNotFound"@,
        ErrorM::ClassNotFound(_) => "ClassNotFound"@,
        ErrorM::FieldNotFound { .. } => "FieldNotFound"@,
        ErrorM::MethodNotFound { .. } => "MethodNotFound"@,
        ErrorM::DuplicateField(_) => "DuplicateField"@,
        ErrorM::FieldMethodNameConflict(_) => "FieldMethodNameConflict"@,
        ErrorM::FieldInitializationTypeMismatch { .. } => "FieldInitializationTypeMismatch"@,
        ErrorM::IllegalInstanceFieldAssignment(_) => "IllegalInstanceFieldAssignment"@,
        ErrorM::InvalidAssignmentTarget(_) => "InvalidAssignmentTarget"@,
        ErrorM::TypeMismatch { .. } => "TypeMismatch"@,
        ErrorM::InvalidOperands { .. } => "InvalidOperands"@,
        ErrorM::InvalidOperand { .. } => "InvalidOperand"@,
        ErrorM::ArgumentCountMismatch { .. } => "ArgumentCountMismatch"@,
        ErrorM::InvalidCallTarget(_) => "InvalidCallTarget"@,
        ErrorM::MisplacedMember(_) => "MisplacedMember"@,
    }
}

/// The full diagnostic: `SemanticAnalysisError: 'Name' at [line:column]: message`.
pub open spec fn error_message_s(e: SemanticErrorM) -> Seq<char> {
    "SemanticAnalysisError: '"@ + error_name_s(e.error_type) + "' at ["@ + decimal_s(e.line as nat) + ":"@
        + decimal_s(e.column as nat) + "]: "@ + message_s(e.error_type)
}

impl SemanticErrorType {
    fn one_var_message(part1: &str, var: &str, part2: &str) -> (r: String)
        ensures
            r@ == one_var_s(part1@, var@, part2@),
    {
        let mut s = String::from_str(part1);
        s.append(" '");
        s.append(var);
        s.append("' ");
        s.append(part2);
        proof {
            reveal_strlit(" '");
            reveal_strlit("' ");
        }
        s
    }

    fn two_var_message(part1: &str, var1: &str, part2: &str, var2: &str) -> (r: String)
        ensures
            r@ == two_var_s(part1@, var1@, part2@, var2@),
    {
        let mut s = String::from_str(part1);
        s.append(" '");
        s.append(var1);
        s.append("' ");
        s.append(part2);
        s.append("'");
        s.append(var2);
        s.append("'");
        proof {
            reveal_strlit(" '");
            reveal_strlit("' ");
            reveal_strlit("'");
        }
        s
    }

    /// A human-readable description of the error.
    pub fn message(&self) -> (r: String)
        ensures
            r@ == message_s(self@),
    {
        match self {
            SemanticErrorType::ShadowingVariable(v) => Self::one_var_message("Cannot declare variable", v.as_str(),
                "because a function or class with that name already exists in the current scope"),
            SemanticErrorType::ShadowingFunction(v) => Self::one_var_message("Cannot declare function", v.as_str(),
                "because a variable or class with that name already exists in the current scope"),
            SemanticErrorType::ShadowingClass(v) => Self::one_var_message("Cannot declare class", v.as_str(),
                "because a variable or function with that name already exists in the current scope"),
            SemanticErrorType::VariableNotFound(v) => Self::one_var_message("Tried to access variable", v.as_str(),
                "which does not exist in the current or any parent scope"),
            SemanticErrorType::VariableUninitialized(v) => Self::one_var_message("Tried to access variable", v.as_str(),
                "which exists but has not been assigned a value yet"),
            SemanticErrorType::VariableAssignmentTypeMismatch { expected, found } => Self::two_var_message(
                "Tried to assign a value of type", found.as_str(), "to a variable of type ", expected.as_str()),
            SemanticErrorType::FunctionNotFound(v) => Self::one_var_message("Tried to access function", v.as_str(),
                "which does not exist in the current or any parent scope"),
            SemanticErrorType::ClassNotFound(v) => Self::one_var_message("Tried to access class", v.as_str(),
                "which does not exist in the current or any parent scope"),
            SemanticErrorType::FieldNotFound { class, field } => Self::two_var_message(
                "Tried to access field", field.as_str(), "which does not exist in class ", class.as_str()),
            SemanticErrorType::MethodNotFound { class, method } => Self::two_var_message(
                "Tried to access method", method.as_str(), "which does not exist in class ", class.as_str()),
            SemanticErrorType::DuplicateField(v) => Self::one_var_message("Field", v.as_str(), "is declared more than once"),
            SemanticErrorType::FieldMethodNameConflict(v) => Self::one_var_message("The name", v.as_str(),
                "is used by both a field and a method"),
            SemanticErrorType::FieldInitializationTypeMismatch { expected, found } => Self::two_var_message(
                "Tried to initialize a field with a value of type", found.as_str(), "instead of type ", expected.as_str()),
            SemanticErrorType::IllegalInstanceFieldAssignment(v) => Self::one_var_message("Instance field", v.as_str(),
                "can only be assigned through a variable or self"),
            SemanticErrorType::InvalidAssignmentTarget(v) => Self::one_var_message(
                "Cannot assign to an expression of kind", v.as_str(), ""),
            SemanticErrorType::TypeMismatch { expected, found } => Self::two_var_message(
                "Expected a value of type", expected.as_str(), "but found type ", found.as_str()),
            SemanticErrorType::InvalidOperands { operator, left, right } => {
                let mut both = left.clone();
                both.append("' and '");
                both.append(right.as_str());
                Self::two_var_message("Operator", operator.as_str(), "cannot be applied to types ", both.as_str())
            },
            SemanticErrorType::InvalidOperand { operator, operand } => Self::two_var_message(
                "Operator", operator.as_str(), "cannot be applied to type ", operand.as_str()),
            SemanticErrorType::ArgumentCountMismatch { function, expected, found } => {
                let mut middle = text("takes ");
                middle.append(decimal(*expected).as_str());
                middle.append(" arguments but was given ");
                Self::two_var_message("Function", function.as_str(), middle.as_str(), decimal(*found).as_str())
            },
            SemanticErrorType::InvalidCallTarget(v) => Self::one_var_message(
                "Cannot call an expression of kind", v.as_str(), ""),
            SemanticErrorType::MisplacedMember(v) => Self::one_var_message("A statement of kind", v.as_str(),
                "cannot stand here"),
        }
    }

    /// The name of the error kind.
    pub fn error_name(&self) -> (r: &'static str)
        ensures
            r@ == error_name_s(self@),
    {
        match self {
            SemanticErrorType::ShadowingVariable(_) => "ShadowingVariable",
            SemanticErrorType::ShadowingFunction(_) => "ShadowingFunction",
            SemanticErrorType::ShadowingClass(_) => "ShadowingClass",
            SemanticErrorType::VariableNotFound(_) => "VariableNotFound",
            SemanticErrorType::VariableUninitialized(_) => "VariableUninitialized",
            SemanticErrorType::VariableAssignmentTypeMismatch { .. } => "VariableAssignmentTypeMismatch",
            SemanticErrorType::FunctionNotFound(_) => "FunctionNotFound",
            SemanticErrorType::ClassNotFound(_) => "ClassNotFound",
            SemanticErrorType::FieldNotFound { .. } => "FieldNotFound",
            SemanticErrorType::MethodNotFound { .. } => "MethodNotFound",
            SemanticErrorType::DuplicateField(_) => "DuplicateField",
            SemanticErrorType::FieldMethodNameConflict(_) => "FieldMethodNameConflict",
            SemanticErrorType::FieldInitializationTypeMismatch { .. } => "FieldInitializationTypeMismatch",
            SemanticErrorType::IllegalInstanceFieldAssignment(_) => "IllegalInstanceFieldAssignment",
            SemanticErrorType::InvalidAssignmentTarget(_) => "InvalidAssignmentTarget",
            SemanticErrorType::TypeMismatch { .. } => "TypeMismatch",
            SemanticErrorType::InvalidOperands { .. } => "InvalidOperands",
            SemanticErrorType::InvalidOperand { .. } => "InvalidOperand",
            SemanticErrorType::ArgumentCountMismatch { .. } => "ArgumentCountMismatch",
            SemanticErrorType::InvalidCallTarget(_) => "InvalidCallTarget",
            SemanticErrorType::MisplacedMember(_) => "MisplacedMember",
        }
    }
}

impl SemanticError {
    /// The full diagnostic text, with the error's name and position.
    pub fn error_message(&self) -> (r: String)
        ensures
            r@ == error_message_s(self@),
    {
        let mut message = text("SemanticAnalysisError: '");
        message.append(self.error_type.error_name());
        message.append("' at [");
        message.append(decimal(self.line).as_str());
        message.append(":");
        message.append(decimal(self.column).as_str());
        message.append("]: ");
        message.append(self.error_type.message().as_str());
        message
    }
}

} // verus!
