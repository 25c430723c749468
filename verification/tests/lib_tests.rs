//! The evaluator exercised token by token, with a kernel that carries out
//! the IEEE-754 arithmetic on bit patterns.

use kalk::process_token;
use kalk::text::strip_comment;
use kalk::CalcError;
use kalk::NumberKernel;
use kalk::Output;
use kalk::StackItem;
use kalk::registry::BinaryOp;
use kalk::registry::UnaryOp;
use kalk::storage::Storage;
use std::f64::consts;

struct Kernel;

impl NumberKernel for Kernel {
    fn number_value(&self, s: &str) -> u64 {
        s.parse::<f64>().map(f64::to_bits).unwrap_or(f64::NAN.to_bits())
    }
    fn apply_unary(&self, op: UnaryOp, x: u64) -> u64 {
        let v = f64::from_bits(x);
        let r = match op {
            UnaryOp::Sqrt => v.sqrt(),
            UnaryOp::Sin => v.sin(),
            UnaryOp::Cos => v.cos(),
            UnaryOp::Tan => v.tan(),
            UnaryOp::Acos => v.acos(),
            UnaryOp::Asin => v.asin(),
            UnaryOp::Atan => v.atan(),
            UnaryOp::Exp => v.exp(),
            UnaryOp::Ceil => v.ceil(),
            UnaryOp::Floor => v.floor(),
            UnaryOp::RadToDeg => v * 180.0 / consts::PI,
            UnaryOp::DegToRad => v * consts::PI / 180.0,
        };
        r.to_bits()
    }
    fn apply_binary(&self, op: BinaryOp, a: u64, b: u64) -> u64 {
        let x = f64::from_bits(a);
        let y = f64::from_bits(b);
        let r = match op {
            BinaryOp::Add => x + y,
            BinaryOp::Sub => x - y,
            BinaryOp::Mul => x * y,
            BinaryOp::Div => x / y,
            BinaryOp::Pow => x.powf(y),
            BinaryOp::RemEuclid => x.rem_euclid(y),
            BinaryOp::PercentChange => (y - x) / x * 100.0,
            BinaryOp::Log => x.log(y),
            BinaryOp::Atan2 => x.atan2(y),
        };
        r.to_bits()
    }
    fn from_int(&self, n: u64) -> u64 {
        (n as f64).to_bits()
    }
    fn lt(&self, a: u64, b: u64) -> bool {
        f64::from_bits(a) < f64::from_bits(b)
    }
    fn gt(&self, a: u64, b: u64) -> bool {
        f64::from_bits(a) > f64::from_bits(b)
    }
    fn round_to_i64(&self, x: u64) -> i64 {
        f64::from_bits(x).round() as i64
    }
    fn trunc_to_i64(&self, x: u64) -> i64 {
        f64::from_bits(x) as i64
    }
}

fn num(x: f64) -> StackItem {
    StackItem::Number(x.to_bits())
}

fn get_number_at_top(stack: &Vec<StackItem>) -> f64 {
    match stack.last() {
        Some(StackItem::Number(v)) => f64::from_bits(*v),
        _ => panic!("Stack top is not a number or stack is empty"),
    }
}

fn run(
    stack: &mut Vec<StackItem>,
    token: &str,
    last_answer: &mut Option<u64>,
    storage: &mut Storage,
) -> Result<(), CalcError> {
    let mut out: Vec<Output> = Vec::new();
    process_token(stack, token, last_answer, storage, &Kernel, &mut out)
}

#[test]
fn tests_test_exp_function() {
    let mut stack = Vec::new();
    let mut storage = Storage::new();
    let mut last_answer = None;

    // 1 exp = e^1 = e (approx 2.71828)
    stack.push(num(1.0));
    assert!(run(&mut stack, "exp", &mut last_answer, &mut storage).is_ok());
    assert!((get_number_at_top(&stack) - consts::E).abs() < 1e-15);

    // 0 exp = e^0 = 1.0
    stack.push(num(0.0));
    assert!(run(&mut stack, "exp", &mut last_answer, &mut storage).is_ok());
    assert!((get_number_at_top(&stack) - 1.0).abs() < 1e-15);
}

#[test]
fn tests_test_log_function() {
    let mut stack = Vec::new();
    let mut storage = Storage::new();
    let mut last_answer = None;

    // 100 10 log = log_10(100) = 2.0
    stack.push(num(100.0));
    stack.push(num(10.0));
    assert!(run(&mut stack, "log", &mut last_answer, &mut storage).is_ok());
    assert!((get_number_at_top(&stack) - 2.0).abs() < 1e-15);

    // 8 2 log = log_2(8) = 3.0
    stack.push(num(8.0));
    stack.push(num(2.0));
    assert!(run(&mut stack, "log", &mut last_answer, &mut storage).is_ok());
    assert!((get_number_at_top(&stack) - 3.0).abs() < 1e-15);

    // e e log = log_e(e) = 1.0
    stack.push(num(consts::E));
    stack.push(num(consts::E));
    assert!(run(&mut stack, "log", &mut last_answer, &mut storage).is_ok());
    assert!((get_number_at_top(&stack) - 1.0).abs() < 1e-15);
}

#[test]
fn tests_test_basic_arithmetic() {
    let mut stack = vec![num(5.0), num(3.0)];
    let mut storage = Storage::new();
    let mut last_answer = None;

    // 5 3 + = 8
    assert!(run(&mut stack, "+", &mut last_answer, &mut storage).is_ok());
    assert_eq!(get_number_at_top(&stack), 8.0);

    // 8 4 * = 32
    stack.push(num(4.0));
    assert!(run(&mut stack, "*", &mut last_answer, &mut storage).is_ok());
    assert_eq!(get_number_at_top(&stack), 32.0);
}

#[test]
fn tests_test_unary_and_constants() {
    let mut stack = Vec::new();
    let mut storage = Storage::new();
    let mut last_answer = None;

    // sqrt(9) = 3
    stack.push(num(9.0));
    assert!(run(&mut stack, "sqrt", &mut last_answer, &mut storage).is_ok());
    assert_eq!(get_number_at_top(&stack), 3.0);

    // pi
    assert!(run(&mut stack, "pi", &mut last_answer, &mut storage).is_ok());
    assert!((get_number_at_top(&stack) - 3.14159).abs() < 0.0001);
}

#[test]
fn tests_test_trig_functions() {
    let mut stack = Vec::new();
    let mut storage = Storage::new();
    let mut last_answer = None;

    // pi sin should be very close to 0
    stack.push(num(consts::PI));
    assert!(run(&mut stack, "sin", &mut last_answer, &mut storage).is_ok());
    assert!((get_number_at_top(&stack)).abs() < 1e-15);

    // pi cos should be -1
    stack.push(num(consts::PI));
    assert!(run(&mut stack, "cos", &mut last_answer, &mut storage).is_ok());
    assert!((get_number_at_top(&stack) - (-1.0)).abs() < 1e-15);

    // pi 4 / tan should be 1
    stack.clear();
    stack.push(num(consts::PI / 4.0));
    assert!(run(&mut stack, "tan", &mut last_answer, &mut storage).is_ok());
    assert!((get_number_at_top(&stack) - 1.0).abs() < 1e-15);
}

#[test]
fn tests_test_stack_manipulation() {
    let mut stack = vec![num(1.0), num(2.0), num(3.0)];
    let mut storage = Storage::new();
    let mut last_answer = None;

    // 1 2 3 <> -> 1 3 2
    assert!(run(&mut stack, "<>", &mut last_answer, &mut storage).is_ok());
    assert_eq!(stack.len(), 3);

    let swapped_top = match &stack[2] {
        StackItem::Number(v) => f64::from_bits(*v),
        _ => 0.0,
    };
    let swapped_middle = match &stack[1] {
        StackItem::Number(v) => f64::from_bits(*v),
        _ => 0.0,
    };

    assert_eq!(swapped_top, 2.0);
    assert_eq!(swapped_middle, 3.0);

    // Clear stack
    assert!(run(&mut stack, "c", &mut last_answer, &mut storage).is_ok());
    assert!(stack.is_empty());
}

#[test]
fn tests_test_storage_rcl() {
    let mut stack = Vec::new();
    let mut storage = Storage::new();
    let mut last_answer = None;

    // 100 "rate" sto
    stack.push(num(100.0));
    assert!(run(&mut stack, "\"rate\"", &mut last_answer, &mut storage).is_ok());
    assert!(run(&mut stack, "sto", &mut last_answer, &mut storage).is_ok());

    // Check storage map
    assert_eq!(f64::from_bits(storage.get("rate").unwrap()), 100.0);
    assert!(stack.is_empty());

    // "rate" rcl
    assert!(run(&mut stack, "\"rate\"", &mut last_answer, &mut storage).is_ok());
    assert!(run(&mut stack, "rcl", &mut last_answer, &mut storage).is_ok());

    // Check stack after recall
    assert_eq!(get_number_at_top(&stack), 100.0);
}

#[test]
fn tests_test_input_parsing() {
    let mut stack = Vec::new();
    let mut storage = Storage::new();
    let mut last_answer = None;

    // Parse with commas
    assert!(run(&mut stack, "1,234.5", &mut last_answer, &mut storage).is_ok());
    assert_eq!(get_number_at_top(&stack), 1234.5);

    // Parse Persian digits
    assert!(run(&mut stack, "\u{06F1}\u{06F2}\u{06F3}", &mut last_answer, &mut storage).is_ok());
    assert_eq!(get_number_at_top(&stack), 123.0);

    // Parse Persian digits with commas
    assert!(
        run(&mut stack, "\u{06F1},\u{06F2}\u{06F3}\u{06F4}", &mut last_answer, &mut storage)
            .is_ok()
    );
    assert_eq!(get_number_at_top(&stack), 1234.0);
}

#[test]
fn tests_test_input_comment_stripping() {
    let input_with_comment = "10 5 + # This is a comment about the sum";

    let cleaned_input = strip_comment(input_with_comment);

    // The tokens should only contain the calculator input
    assert_eq!(cleaned_input, "10 5 +");

    // Test a line that is only a comment
    let only_comment = "# Ignore this line";
    let cleaned_only_comment = strip_comment(only_comment);

    assert_eq!(cleaned_only_comment, "");
}

#[test]
fn tests_test_standard_arabic_parsing() {
    let mut stack = Vec::new();
    let mut storage = Storage::new();
    let mut last_answer = None;
    let arabic_pi =
        "\u{0663}\u{066B}\u{0661}\u{0664}\u{0661}\u{0665}\u{0669}\u{0662}\u{0666}\u{0665}\u{0663}\u{0665}\u{0668}";

    assert!(run(&mut stack, arabic_pi, &mut last_answer, &mut storage).is_ok());
    assert!((get_number_at_top(&stack) - 3.14159265358).abs() < 1e-10);

    // Test with thousands separator: 1,000.5
    let arabic_thousand = "\u{0661}\u{066C}\u{0660}\u{0660}\u{0660}\u{066B}\u{0665}";

    assert!(run(&mut stack, arabic_thousand, &mut last_answer, &mut storage).is_ok());
    assert_eq!(get_number_at_top(&stack), 1000.5);
}

#[test]
fn tests_test_percent_change() {
    let mut stack = Vec::new();
    let mut storage = Storage::new();
    let mut last_answer = None;

    // 25 50 %% = 100.0% increase
    stack.push(num(25.0));
    stack.push(num(50.0));
    assert!(run(&mut stack, "%%", &mut last_answer, &mut storage).is_ok());
    assert_eq!(get_number_at_top(&stack), 100.0);

    // 100 75 %% = -25.0% decrease
    stack.push(num(100.0));
    stack.push(num(75.0));
    assert!(run(&mut stack, "%%", &mut last_answer, &mut storage).is_ok());
    assert_eq!(get_number_at_top(&stack), -25.0);
}

#[test]
fn tests_test_modulus() {
    let mut stack = Vec::new();
    let mut storage = Storage::new();
    let mut last_answer = None;

    // 10 3 % = 1.0 (10 mod 3)
    stack.push(num(10.0));
    stack.push(num(3.0));
    assert!(run(&mut stack, "%", &mut last_answer, &mut storage).is_ok());
    assert_eq!(get_number_at_top(&stack), 1.0);

    // -10 3 % = 2.0 (Euclidean remainder: -10 = 3*(-4) + 2)
    stack.push(num(-10.0));
    stack.push(num(3.0));
    assert!(run(&mut stack, "%", &mut last_answer, &mut storage).is_ok());
    assert_eq!(get_number_at_top(&stack), 2.0);
}

#[test]
fn tests_test_hex_display() {
    let mut stack = Vec::new();
    let mut storage = Storage::new();
    let mut last_answer = None;

    stack.clear();

    // --- Part 1: Positive Number ---
    // Push 255.99 (should truncate to 255 -> 0xFF)
    stack.push(num(255.99));

    // Execute 'hex'. Stack size should remain 1.
    assert!(run(&mut stack, "hex", &mut last_answer, &mut storage).is_ok());

    // Verify Stack Integrity: The original number should still be on the stack.
    assert_eq!(stack.len(), 1);
    assert_eq!(get_number_at_top(&stack), 255.99);

    // --- Part 2: Negative Number ---
    // Push -42.1
    stack.push(num(-42.1));

    // Execute 'hex'. Stack size should remain 2.
    assert!(run(&mut stack, "hex", &mut last_answer, &mut storage).is_ok());

    // Verify Stack Integrity again.
    assert_eq!(stack.len(), 2);
    assert_eq!(get_number_at_top(&stack), -42.1);
}

#[test]
fn tests_test_acos_function() {
    let mut stack = Vec::new();
    let mut storage = Storage::new();
    let mut last_answer = None;

    // 1 acos = acos(1) = 0
    stack.push(num(1.0));
    assert!(run(&mut stack, "acos", &mut last_answer, &mut storage).is_ok());
    assert!((get_number_at_top(&stack)).abs() < 1e-15);

    // 0 acos = acos(0) = pi/2
    stack.push(num(0.0));
    assert!(run(&mut stack, "acos", &mut last_answer, &mut storage).is_ok());
    assert!((get_number_at_top(&stack) - consts::FRAC_PI_2).abs() < 1e-15);
}

#[test]
fn tests_test_asin_function() {
    let mut stack = Vec::new();
    let mut storage = Storage::new();
    let mut last_answer = None;

    // 1 asin = asin(1) = pi/2
    stack.push(num(1.0));
    assert!(run(&mut stack, "asin", &mut last_answer, &mut storage).is_ok());
    assert!((get_number_at_top(&stack) - consts::FRAC_PI_2).abs() < 1e-15);

    // -1 asin = asin(-1) = -pi/2
    stack.push(num(-1.0));
    assert!(run(&mut stack, "asin", &mut last_answer, &mut storage).is_ok());
    assert!((get_number_at_top(&stack) - (-consts::FRAC_PI_2)).abs() < 1e-15);
}

#[test]
fn tests_test_atan_function() {
    let mut stack = Vec::new();
    let mut storage = Storage::new();
    let mut last_answer = None;

    // 1 atan = atan(1) = pi/4
    stack.push(num(1.0));
    assert!(run(&mut stack, "atan", &mut last_answer, &mut storage).is_ok());
    assert!((get_number_at_top(&stack) - consts::FRAC_PI_4).abs() < 1e-15);
}

#[test]
fn tests_test_atan2_function() {
    let mut stack = Vec::new();
    let mut storage = Storage::new();
    let mut last_answer = None;

    // y=1, x=1: 1 1 atan2 = pi/4 (45 degrees)
    stack.push(num(1.0));
    stack.push(num(1.0));
    assert!(run(&mut stack, "atan2", &mut last_answer, &mut storage).is_ok());
    assert!((get_number_at_top(&stack) - consts::FRAC_PI_4).abs() < 1e-15);
}

#[test]
fn tests_test_factorial() {
    let mut stack = Vec::new();
    let mut storage = Storage::new();
    let mut last_answer = None;

    // 5 ! = 120.0
    stack.push(num(5.0));
    assert!(run(&mut stack, "!", &mut last_answer, &mut storage).is_ok());
    assert_eq!(get_number_at_top(&stack), 120.0);

    // 0 ! = 1.0
    stack.push(num(0.0));
    assert!(run(&mut stack, "!", &mut last_answer, &mut storage).is_ok());
    assert_eq!(get_number_at_top(&stack), 1.0);

    // 4.9 ! = 120.0 (rounds to 5)
    stack.push(num(4.9));
    assert!(run(&mut stack, "!", &mut last_answer, &mut storage).is_ok());
    assert_eq!(get_number_at_top(&stack), 120.0);
}

#[test]
fn tests_test_permutations() {
    let mut stack = Vec::new();
    let mut storage = Storage::new();
    let mut last_answer = None;

    // 5 3 P = P(5, 3) = 60.0 (n=5, k=3)
    stack.push(num(5.0));
    stack.push(num(3.0));
    assert!(run(&mut stack, "P", &mut last_answer, &mut storage).is_ok());
    assert_eq!(get_number_at_top(&stack), 60.0);
    stack.clear();

    // --- Error Tests ---

    // 3 5 P (Error: n < k)
    stack.push(num(3.0));
    stack.push(num(5.0));
    assert!(run(&mut stack, "P", &mut last_answer, &mut storage).is_err());
    // Stack should contain the original [3.0, 5.0]
    assert_eq!(stack.len(), 2);
    assert_eq!(get_number_at_top(&stack), 5.0);
    stack.clear();

    // -5 3 P (Error: n < 0)
    stack.push(num(-5.0));
    stack.push(num(3.0));
    assert!(run(&mut stack, "P", &mut last_answer, &mut storage).is_err());
    // Stack should contain the original [-5.0, 3.0]
    assert_eq!(stack.len(), 2);
    assert_eq!(get_number_at_top(&stack), 3.0);
}

#[test]
fn tests_test_combinations() {
    let mut stack = Vec::new();
    let mut storage = Storage::new();
    let mut last_answer = None;

    // 5 3 C = C(5, 3) = 10.0 (n=5, k=3)
    stack.push(num(5.0));
    stack.push(num(3.0));
    assert!(run(&mut stack, "C", &mut last_answer, &mut storage).is_ok());
    assert_eq!(get_number_at_top(&stack), 10.0);
    stack.clear();

    // --- Error Tests ---

    // 3 5 C (Error: n < k)
    stack.push(num(3.0));
    stack.push(num(5.0));
    assert!(run(&mut stack, "C", &mut last_answer, &mut storage).is_err());
    // Stack should contain the original [3.0, 5.0]
    assert_eq!(stack.len(), 2);
    assert_eq!(get_number_at_top(&stack), 5.0);
}

#[test]
fn tests_test_ceil_floor() {
    let mut stack = Vec::new();
    let mut storage = Storage::new();
    let mut last_answer = None;

    // 1.1 ceil = 2.0
    stack.push(num(1.1));
    assert!(run(&mut stack, "ceil", &mut last_answer, &mut storage).is_ok());
    assert_eq!(get_number_at_top(&stack), 2.0);

    // -1.1 floor = -2.0
    stack.push(num(-1.1));
    assert!(run(&mut stack, "floor", &mut last_answer, &mut storage).is_ok());
    assert_eq!(get_number_at_top(&stack), -2.0);
}

#[test]
fn tests_test_angle_conversions() {
    let mut stack = Vec::new();
    let mut storage = Storage::new();
    let mut last_answer = None;

    // pi rad deg = 180.0
    stack.push(num(consts::PI));
    assert!(run(&mut stack, "deg", &mut last_answer, &mut storage).is_ok());
    assert!((get_number_at_top(&stack) - 180.0).abs() < 1e-10);

    // 180 deg rad = pi
    stack.push(num(180.0));
    assert!(run(&mut stack, "rad", &mut last_answer, &mut storage).is_ok());
    assert!((get_number_at_top(&stack) - consts::PI).abs() < 1e-10);
}
