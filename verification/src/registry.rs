//! The operator registry: the fixed table from token text to display group,
//! usage line and execution action. Lookup is exact-match on the token text;
//! the table is closed, so it is written as a total function over the token
//! rather than as a runtime container.

use vstd::prelude::*;
use crate::text::str_eq;

verus! {

/// A one-operand numeric operation, applied to the stack top in place.
#[derive(Debug, Clone, Copy, PartialEq, Eq, Structural)]
pub enum UnaryOp {
    Sqrt,
    Sin,
    Cos,
    Tan,
    Acos,
    Asin,
    Atan,
    Exp,
    Ceil,
    Floor,
    RadToDeg,
    DegToRad,
}

/// A two-operand numeric operation; the stack holds `a` below `b`, and the
/// token sequence `a b op` computes `op(a, b)`.
#[derive(Debug, Clone, Copy, PartialEq, Eq, Structural)]
pub enum BinaryOp {
    Add,
    Sub,
    Mul,
    Div,
    Pow,
    RemEuclid,
    PercentChange,
    Log,
    Atan2,
}

/// A named mathematical constant.
#[derive(Debug, Clone, Copy, PartialEq, Eq, Structural)]
pub enum Constant {
    Pi,
    E,
}

/// The base in which `hex`, `oct` and `bin` display the stack top.
#[derive(Debug, Clone, Copy, PartialEq, Eq, Structural)]
pub enum Base {
    Hex,
    Oct,
    Bin,
}

/// An operation that needs more than a pure stack-to-stack transform:
/// memory, the last answer, display output, or positional stack access.
#[derive(Debug, Clone, Copy, PartialEq, Eq, Structural)]
pub enum SpecialOp {
    Factorial,
    Permutations,
    Combinations,
    Swap,
    Clear,
    Answer,
    Store,
    Recall,
    DisplayBase(Base),
    Help,
}

/// How a registered token is executed.
#[derive(Debug, Clone, Copy, PartialEq, Eq, Structural)]
pub enum OperatorAction {
    PushConstant(Constant),
    Unary(UnaryOp),
    Binary(BinaryOp),
    Special(SpecialOp),
}

/// The value pushed for each named constant: the bit pattern of the
/// IEEE-754 double nearest the mathematical constant (what the platform's
/// double-precision pi and e constants hold).
pub open spec fn spec_constant_bits(c: Constant) -> u64 {
    match c {
        Constant::Pi => 0x400921FB54442D18,
        Constant::E => 0x4005BF0A8B145769,
    }
}

/// The bit pattern a constant token pushes.
pub fn constant_value(c: Constant) -> (r: u64)
    ensures
        r == spec_constant_bits(c),
{
    match c {
        Constant::Pi => 0x400921FB54442D18,
        Constant::E => 0x4005BF0A8B145769,
    }
}

/// The registry as a function: the action of a token, or `None` when the
/// token is not registered.
pub open spec fn spec_lookup(t: Seq<char>) -> Option<OperatorAction> {
    if t == "+"@ {
        Some(OperatorAction::Binary(BinaryOp::Add))
    } else if t == "-"@ {
        Some(OperatorAction::Binary(BinaryOp::Sub))
    } else if t == "*"@ {
        Some(OperatorAction::Binary(BinaryOp::Mul))
    } else if t == "/"@ {
        Some(OperatorAction::Binary(BinaryOp::Div))
    } else if t == "**"@ {
        Some(OperatorAction::Binary(BinaryOp::Pow))
    } else if t == "%"@ {
        Some(OperatorAction::Binary(BinaryOp::RemEuclid))
    } else if t == "%%"@ {
        Some(OperatorAction::Binary(BinaryOp::PercentChange))
    } else if t == "log"@ {
        Some(OperatorAction::Binary(BinaryOp::Log))
    } else if t == "atan2"@ {
        Some(OperatorAction::Binary(BinaryOp::Atan2))
    } else if t == "pi"@ {
        Some(OperatorAction::PushConstant(Constant::Pi))
    } else if t == "e"@ {
        Some(OperatorAction::PushConstant(Constant::E))
    } else if t == "sqrt"@ {
        Some(OperatorAction::Unary(UnaryOp::Sqrt))
    } else if t == "sin"@ {
        Some(OperatorAction::Unary(UnaryOp::Sin))
    } else if t == "cos"@ {
        Some(OperatorAction::Unary(UnaryOp::Cos))
    } else if t == "tan"@ {
        Some(OperatorAction::Unary(UnaryOp::Tan))
    } else if t == "acos"@ {
        Some(OperatorAction::Unary(UnaryOp::Acos))
    } else if t == "asin"@ {
        Some(OperatorAction::Unary(UnaryOp::Asin))
    } else if t == "atan"@ {
        Some(OperatorAction::Unary(UnaryOp::Atan))
    } else if t == "exp"@ {
        Some(OperatorAction::Unary(UnaryOp::Exp))
    } else if t == "ceil"@ {
        Some(OperatorAction::Unary(UnaryOp::Ceil))
    } else if t == "floor"@ {
        Some(OperatorAction::Unary(UnaryOp::Floor))
    } else if t == "deg"@ {
        Some(OperatorAction::Unary(UnaryOp::RadToDeg))
    } else if t == "rad"@ {
        Some(OperatorAction::Unary(UnaryOp::DegToRad))
    } else if t == "!"@ {
        Some(OperatorAction::Special(SpecialOp::Factorial))
    } else if t == "P"@ {
        Some(OperatorAction::Special(SpecialOp::Permutations))
    } else if t == "C"@ {
        Some(OperatorAction::Special(SpecialOp::Combinations))
    } else if t == "<>"@ {
        Some(OperatorAction::Special(SpecialOp::Swap))
    } else if t == "c"@ {
        Some(OperatorAction::Special(SpecialOp::Clear))
    } else if t == "a"@ {
        Some(OperatorAction::Special(SpecialOp::Answer))
    } else if t == "sto"@ {
        Some(OperatorAction::Special(SpecialOp::Store))
    } else if t == "rcl"@ {
        Some(OperatorAction::Special(SpecialOp::Recall))
    } else if t == "hex"@ {
        Some(OperatorAction::Special(SpecialOp::DisplayBase(Base::Hex)))
    } else if t == "bin"@ {
        Some(OperatorAction::Special(SpecialOp::DisplayBase(Base::Bin)))
    } else if t == "oct"@ {
        Some(OperatorAction::Special(SpecialOp::DisplayBase(Base::Oct)))
    } else if t == "help"@ {
        Some(OperatorAction::Special(SpecialOp::Help))
    } else {
        None
    }
}

/// Resolves a token to its registered action, exactly as `spec_lookup`
/// describes.
pub fn lookup(token: &str) -> (r: Option<OperatorAction>)
    ensures
        r == spec_lookup(token@),
{
    if str_eq(token, "+") {
        Some(OperatorAction::Binary(BinaryOp::Add))
    } else if str_eq(token, "-") {
        Some(OperatorAction::Binary(BinaryOp::Sub))
    } else if str_eq(token, "*") {
        Some(OperatorAction::Binary(BinaryOp::Mul))
    } else if str_eq(token, "/") {
        Some(OperatorAction::Binary(BinaryOp::Div))
    } else if str_eq(token, "**") {
        Some(OperatorAction::Binary(BinaryOp::Pow))
    } else if str_eq(token, "%") {
        Some(OperatorAction::Binary(BinaryOp::RemEuclid))
    } else if str_eq(token, "%%") {
        Some(OperatorAction::Binary(BinaryOp::PercentChange))
    } else if str_eq(token, "log") {
        Some(OperatorAction::Binary(BinaryOp::Log))
    } else if str_eq(token, "atan2") {
        Some(OperatorAction::Binary(BinaryOp::Atan2))
    } else if str_eq(token, "pi") {
        Some(OperatorAction::PushConstant(Constant::Pi))
    } else if str_eq(token, "e") {
        Some(OperatorAction::PushConstant(Constant::E))
    } else if str_eq(token, "sqrt") {
        Some(OperatorAction::Unary(UnaryOp::Sqrt))
    } else if str_eq(token, "sin") {
        Some(OperatorAction::Unary(UnaryOp::Sin))
    } else if str_eq(token, "cos") {
        Some(OperatorAction::Unary(UnaryOp::Cos))
    } else if str_eq(token, "tan") {
        Some(OperatorAction::Unary(UnaryOp::Tan))
    } else if str_eq(token, "acos") {
        Some(OperatorAction::Unary(UnaryOp::Acos))
    } else if str_eq(token, "asin") {
        Some(OperatorAction::Unary(UnaryOp::Asin))
    } else if str_eq(token, "atan") {
        Some(OperatorAction::Unary(UnaryOp::Atan))
    } else if str_eq(token, "exp") {
        Some(OperatorAction::Unary(UnaryOp::Exp))
    } else if str_eq(token, "ceil") {
        Some(OperatorAction::Unary(UnaryOp::Ceil))
    } else if str_eq(token, "floor") {
        Some(OperatorAction::Unary(UnaryOp::Floor))
    } else if str_eq(token, "deg") {
        Some(OperatorAction::Unary(UnaryOp::RadToDeg))
    } else if str_eq(token, "rad") {
        Some(OperatorAction::Unary(UnaryOp::DegToRad))
    } else if str_eq(token, "!") {
        Some(OperatorAction::Special(SpecialOp::Factorial))
    } else if str_eq(token, "P") {
        Some(OperatorAction::Special(SpecialOp::Permutations))
    } else if str_eq(token, "C") {
        Some(OperatorAction::Special(SpecialOp::Combinations))
    } else if str_eq(token, "<>") {
        Some(OperatorAction::Special(SpecialOp::Swap))
    } else if str_eq(token, "c") {
        Some(OperatorAction::Special(SpecialOp::Clear))
    } else if str_eq(token, "a") {
        Some(OperatorAction::Special(SpecialOp::Answer))
    } else if str_eq(token, "sto") {
        Some(OperatorAction::Special(SpecialOp::Store))
    } else if str_eq(token, "rcl") {
        Some(OperatorAction::Special(SpecialOp::Recall))
    } else if str_eq(token, "hex") {
        Some(OperatorAction::Special(SpecialOp::DisplayBase(Base::Hex)))
    } else if str_eq(token, "bin") {
        Some(OperatorAction::Special(SpecialOp::DisplayBase(Base::Bin)))
    } else if str_eq(token, "oct") {
        Some(OperatorAction::Special(SpecialOp::DisplayBase(Base::Oct)))
    } else if str_eq(token, "help") {
        Some(OperatorAction::Special(SpecialOp::Help))
    } else {
        None
    }
}

/// The registered tokens, in the registry's order.
pub open spec fn spec_token_list() -> Seq<Seq<char>> {
    seq![
        "+"@,
        "-"@,
        "*"@,
        "/"@,
        "**"@,
        "%"@,
        "%%"@,
        "log"@,
        "atan2"@,
        "pi"@,
        "e"@,
        "sqrt"@,
        "sin"@,
        "cos"@,
        "tan"@,
        "acos"@,
        "asin"@,
        "atan"@,
        "exp"@,
        "ceil"@,
        "floor"@,
        "deg"@,
        "rad"@,
        "!"@,
        "P"@,
        "C"@,
        "<>"@,
        "c"@,
        "a"@,
        "sto"@,
        "rcl"@,
        "hex"@,
        "bin"@,
        "oct"@,
        "help"@,
    ]
}

/// Every registered token, in the registry's order — the read-only registry
/// view that the help-listing collaborator walks.
pub fn all_tokens() -> (v: Vec<&'static str>)
    ensures
        v@.len() == spec_token_list().len(),
        forall|i: int| 0 <= i < v@.len() ==> v@[i]@ == spec_token_list()[i],
{
    let v: Vec<&'static str> = vec![
        "+",
        "-",
        "*",
        "/",
        "**",
        "%",
        "%%",
        "log",
        "atan2",
        "pi",
        "e",
        "sqrt",
        "sin",
        "cos",
        "tan",
        "acos",
        "asin",
        "atan",
        "exp",
        "ceil",
        "floor",
        "deg",
        "rad",
        "!",
        "P",
        "C",
        "<>",
        "c",
        "a",
        "sto",
        "rcl",
        "hex",
        "bin",
        "oct",
        "help",
    ];
    proof {
        assert(forall|i: int| 0 <= i < v@.len() ==> v@[i]@ == spec_token_list()[i]) by {
            assert(v@.len() == 35);
        }
    }
    v
}

/// The display group and usage line of each registered token, as character
/// sequences; `None` for an unregistered token.
pub open spec fn spec_describe(t: Seq<char>) -> Option<(Seq<char>, Seq<char>)> {
    if t == "+"@ {
        Some(("Binary"@, "a b + | Addition (a + b)"@))
    } else if t == "-"@ {
        Some(("Binary"@, "a b - | Subtraction (a - b)"@))
    } else if t == "*"@ {
        Some(("Binary"@, "a b * | Multiplication (a * b)"@))
    } else if t == "/"@ {
        Some(("Binary"@, "a b / | Division (a / b)"@))
    } else if t == "**"@ {
        Some(("Binary"@, "a b ** | Power (a^b)"@))
    } else if t == "%"@ {
        Some(("Binary"@, "a b % | Euclidean Remainder (a mod b)"@))
    } else if t == "%%"@ {
        Some(("Binary"@, "a b %% | Percent Change ((b - a) / a * 100)"@))
    } else if t == "log"@ {
        Some(("Binary"@, "a b log | Logarithm (log_b(a))"@))
    } else if t == "atan2"@ {
        Some(("Binary"@, "y x atan2 | Arc tangent of y/x (result in radians)"@))
    } else if t == "pi"@ {
        Some(("Constant"@, "pi | Push the value of pi"@))
    } else if t == "e"@ {
        Some(("Constant"@, "e | Push the value of Euler's number (e)"@))
    } else if t == "sqrt"@ {
        Some(("Unary"@, "a sqrt | Square root"@))
    } else if t == "sin"@ {
        Some(("Unary"@, "a sin | Sine (a in radians)"@))
    } else if t == "cos"@ {
        Some(("Unary"@, "a cos | Cosine (a in radians)"@))
    } else if t == "tan"@ {
        Some(("Unary"@, "a tan | Tangent (a in radians)"@))
    } else if t == "acos"@ {
        Some(("Unary"@, "a acos | Arc cosine (result in radians)"@))
    } else if t == "asin"@ {
        Some(("Unary"@, "a asin | Arc sine (result in radians)"@))
    } else if t == "atan"@ {
        Some(("Unary"@, "a atan | Arc tangent (result in radians)"@))
    } else if t == "exp"@ {
        Some(("Unary"@, "a exp | e raised to the power of a (e^a)"@))
    } else if t == "ceil"@ {
        Some(("Rounding"@, "a ceil | Ceiling (rounds up)"@))
    } else if t == "floor"@ {
        Some(("Rounding"@, "a floor | Floor (rounds down)"@))
    } else if t == "deg"@ {
        Some(("Conversions"@, "a deg | Convert angle from radians to degrees"@))
    } else if t == "rad"@ {
        Some(("Conversions"@, "a rad | Convert angle from degrees to radians"@))
    } else if t == "!"@ {
        Some(("Combinatorics"@, "n ! | Factorial (n!)"@))
    } else if t == "P"@ {
        Some(("Combinatorics"@, "n k P | Permutations P(n, k)"@))
    } else if t == "C"@ {
        Some(("Combinatorics"@, "n k C | Combinations C(n, k)"@))
    } else if t == "<>"@ {
        Some(("Stack"@, "a b <> | Swap the top two items"@))
    } else if t == "c"@ {
        Some(("Stack"@, "c | Clear the stack"@))
    } else if t == "a"@ {
        Some(("Stack"@, "a | Recall last successful answer"@))
    } else if t == "sto"@ {
        Some(("Memory"@, "value \"key\" sto | Store value to key"@))
    } else if t == "rcl"@ {
        Some(("Memory"@, "\"key\" rcl | Recall value from key"@))
    } else if t == "hex"@ {
        Some(("Display"@, "a hex | Display a in hexadecimal (i64 cast)"@))
    } else if t == "bin"@ {
        Some(("Display"@, "a bin | Display a in binary (i64 cast)"@))
    } else if t == "oct"@ {
        Some(("Display"@, "a oct | Display a in octal (i64 cast)"@))
    } else if t == "help"@ {
        Some(("Meta"@, "help [func] | List all functions or show usage for [func]"@))
    } else {
        None
    }
}
/// The display group and usage line of a registered token, for the help
/// renderer: exactly the pair `spec_describe` gives it, and `None` exactly
/// when the token is not registered.
pub fn describe(token: &str) -> (r: Option<(&'static str, &'static str)>)
    ensures
        r is Some <==> spec_lookup(token@) is Some,
        (match r {
            Some(p) => spec_describe(token@) == Some((p.0@, p.1@)),
            None => spec_describe(token@) is None,
        }),
{
    if str_eq(token, "+") {
        Some(("Binary", "a b + | Addition (a + b)"))
    } else if str_eq(token, "-") {
        Some(("Binary", "a b - | Subtraction (a - b)"))
    } else if str_eq(token, "*") {
        Some(("Binary", "a b * | Multiplication (a * b)"))
    } else if str_eq(token, "/") {
        Some(("Binary", "a b / | Division (a / b)"))
    } else if str_eq(token, "**") {
        Some(("Binary", "a b ** | Power (a^b)"))
    } else if str_eq(token, "%") {
        Some(("Binary", "a b % | Euclidean Remainder (a mod b)"))
    } else if str_eq(token, "%%") {
        Some(("Binary", "a b %% | Percent Change ((b - a) / a * 100)"))
    } else if str_eq(token, "log") {
        Some(("Binary", "a b log | Logarithm (log_b(a))"))
    } else if str_eq(token, "atan2") {
        Some(("Binary", "y x atan2 | Arc tangent of y/x (result in radians)"))
    } else if str_eq(token, "pi") {
        Some(("Constant", "pi | Push the value of pi"))
    } else if str_eq(token, "e") {
        Some(("Constant", "e | Push the value of Euler's number (e)"))
    } else if str_eq(token, "sqrt") {
        Some(("Unary", "a sqrt | Square root"))
    } else if str_eq(token, "sin") {
        Some(("Unary", "a sin | Sine (a in radians)"))
    } else if str_eq(token, "cos") {
        Some(("Unary", "a cos | Cosine (a in radians)"))
    } else if str_eq(token, "tan") {
        Some(("Unary", "a tan | Tangent (a in radians)"))
    } else if str_eq(token, "acos") {
        Some(("Unary", "a acos | Arc cosine (result in radians)"))
    } else if str_eq(token, "asin") {
        Some(("Unary", "a asin | Arc sine (result in radians)"))
    } else if str_eq(token, "atan") {
        Some(("Unary", "a atan | Arc tangent (result in radians)"))
    } else if str_eq(token, "exp") {
        Some(("Unary", "a exp | e raised to the power of a (e^a)"))
    } else if str_eq(token, "ceil") {
        Some(("Rounding", "a ceil | Ceiling (rounds up)"))
    } else if str_eq(token, "floor") {
        Some(("Rounding", "a floor | Floor (rounds down)"))
    } else if str_eq(token, "deg") {
        Some(("Conversions", "a deg | Convert angle from radians to degrees"))
    } else if str_eq(token, "rad") {
        Some(("Conversions", "a rad | Convert angle from degrees to radians"))
    } else if str_eq(token, "!") {
        Some(("Combinatorics", "n ! | Factorial (n!)"))
    } else if str_eq(token, "P") {
        Some(("Combinatorics", "n k P | Permutations P(n, k)"))
    } else if str_eq(token, "C") {
        Some(("Combinatorics", "n k C | Combinations C(n, k)"))
    } else if str_eq(token, "<>") {
        Some(("Stack", "a b <> | Swap the top two items"))
    } else if str_eq(token, "c") {
        Some(("Stack", "c | Clear the stack"))
    } else if str_eq(token, "a") {
        Some(("Stack", "a | Recall last successful answer"))
    } else if str_eq(token, "sto") {
        Some(("Memory", "value \"key\" sto | Store value to key"))
    } else if str_eq(token, "rcl") {
        Some(("Memory", "\"key\" rcl | Recall value from key"))
    } else if str_eq(token, "hex") {
        Some(("Display", "a hex | Display a in hexadecimal (i64 cast)"))
    } else if str_eq(token, "bin") {
        Some(("Display", "a bin | Display a in binary (i64 cast)"))
    } else if str_eq(token, "oct") {
        Some(("Display", "a oct | Display a in octal (i64 cast)"))
    } else if str_eq(token, "help") {
        Some(("Meta", "help [func] | List all functions or show usage for [func]"))
    } else {
        None
    }
}

} // verus!
