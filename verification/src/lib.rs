//! An RPN (reverse Polish notation) calculator core: a stack machine that
//! consumes whitespace-delimited tokens (numbers, operators, quoted storage
//! keys) and evaluates them left to right.
//!
//! Numbers are IEEE-754 double-precision values, carried everywhere as their
//! 64-bit pattern (`u64`). The library never interprets those bits itself:
//! every floating-point operation is delegated to a [`NumberKernel`]
//! collaborator supplied by the caller. What the library does own — and what
//! its contracts pin down exactly — is the evaluation discipline: how a token
//! is classified, which operator it resolves to, how many operands each
//! operation consumes, and how the stack is restored when an operation fails.

use vstd::prelude::*;

pub mod binary;
pub mod laws;
pub mod literal;
pub mod registry;
pub mod special;
pub mod storage;
pub mod text;
pub mod unary;

verus! {

/// One slot of the evaluation stack: a number (as its IEEE-754 bit pattern)
/// or a string key for the storage map.
#[derive(Debug, Clone)]
pub enum StackItem {
    Number(u64),
    Key(String),
}

/// The mathematical model of a stack slot: the bit pattern, or the key's
/// character sequence.
pub enum ItemView {
    Number(u64),
    Key(Seq<char>),
}

impl View for StackItem {
    type V = ItemView;

    open spec fn view(&self) -> ItemView {
        match self {
            StackItem::Number(b) => ItemView::Number(*b),
            StackItem::Key(s) => ItemView::Key(s@),
        }
    }
}

/// The model of a whole stack: each slot replaced by its model, bottom first.
pub open spec fn stack_model(s: Seq<StackItem>) -> Seq<ItemView> {
    s.map_values(|it: StackItem| it@)
}

/// Why an operation was refused. Every failure is reported through one of
/// these values; no operation panics.
#[derive(Debug, Clone, Copy, PartialEq, Eq, Structural)]
pub enum CalcError {
    /// Too few operands on the stack.
    StackUnderflow,
    /// An operand is present but of the wrong kind (a key where a number was
    /// needed, or the other way round).
    TypeMismatch,
    /// A numeric input outside an operation's supported range.
    DomainError,
    /// A token that is not a number, not a quoted key and not a registered
    /// operator.
    UnknownToken,
    /// A recall of a key that the storage does not hold.
    KeyNotFound,
    /// A recall of the last answer before any line has produced one.
    StateUnavailable,
}

/// A line of side-channel output: what the display and help operations hand
/// to the rendering collaborator. The core resolves *what* to show; turning
/// it into formatted terminal text is the collaborator's job.
#[derive(Debug, Clone, PartialEq)]
pub enum Output {
    /// The stack top displayed in another base: prefix and digits, such as
    /// `0xFF`.
    BaseDisplay(String),
    /// A request for the full usage listing.
    HelpAll,
    /// A request for the usage of one registered token.
    HelpOne(String),
}

/// The model of an output line.
pub enum OutputView {
    BaseDisplay(Seq<char>),
    HelpAll,
    HelpOne(Seq<char>),
}

impl View for Output {
    type V = OutputView;

    open spec fn view(&self) -> OutputView {
        match self {
            Output::BaseDisplay(s) => OutputView::BaseDisplay(s@),
            Output::HelpAll => OutputView::HelpAll,
            Output::HelpOne(s) => OutputView::HelpOne(s@),
        }
    }
}

/// The model of the output channel.
pub open spec fn out_model(s: Seq<Output>) -> Seq<OutputView> {
    s.map_values(|o: Output| o@)
}

/// The floating-point collaborator. The calculator carries every number as
/// an IEEE-754 double-precision bit pattern and asks an implementation of
/// this trait to do the arithmetic: parsing an accepted numeric token,
/// applying the registered unary and binary functions, producing constants,
/// comparing, rounding and truncating. The library claims nothing about the
/// returned bits; its contracts state the stack and state discipline that
/// holds whatever the kernel replies.
pub trait NumberKernel {
    /// The bit pattern of the double that `s` parses to. Called only for
    /// tokens accepted by the numeric grammar (`literal::is_float_literal`).
    fn number_value(&self, s: &str) -> u64;

    /// `op` applied to `x`.
    fn apply_unary(&self, op: registry::UnaryOp, x: u64) -> u64;

    /// `op` applied to the pair (`a` below, `b` on top).
    fn apply_binary(&self, op: registry::BinaryOp, a: u64, b: u64) -> u64;

    /// `n` converted to a double.
    fn from_int(&self, n: u64) -> u64;

    /// Whether `a < b` as doubles.
    fn lt(&self, a: u64, b: u64) -> bool;

    /// Whether `a > b` as doubles.
    fn gt(&self, a: u64, b: u64) -> bool;

    /// `x` rounded to the nearest integer and cast to `i64`, saturating.
    fn round_to_i64(&self, x: u64) -> i64;

    /// `x` truncated toward zero and cast to `i64`, saturating.
    fn trunc_to_i64(&self, x: u64) -> i64;
}

/// Maps the digit and separator characters that the calculator accepts beyond
/// ASCII — Persian (extended Arabic-Indic) digits, Arabic-Indic digits, the
/// Arabic decimal separator and the Arabic thousands separator — to their
/// ASCII counterparts. Every other character is left unchanged.
pub open spec fn spec_normalize_char(c: char) -> char {
    match c {
        // Persian (extended Arabic-Indic) digits
        '\u{06F0}' => '0',
        '\u{06F1}' => '1',
        '\u{06F2}' => '2',
        '\u{06F3}' => '3',
        '\u{06F4}' => '4',
        '\u{06F5}' => '5',
        '\u{06F6}' => '6',
        '\u{06F7}' => '7',
        '\u{06F8}' => '8',
        '\u{06F9}' => '9',
        // Arabic-Indic digits
        '\u{0660}' => '0',
        '\u{0661}' => '1',
        '\u{0662}' => '2',
        '\u{0663}' => '3',
        '\u{0664}' => '4',
        '\u{0665}' => '5',
        '\u{0666}' => '6',
        '\u{0667}' => '7',
        '\u{0668}' => '8',
        '\u{0669}' => '9',
        // Arabic decimal and thousands separators
        '\u{066B}' => '.',
        '\u{066C}' => ',',
        _ => c,
    }
}

/// Converts one Unicode digit or separator to its ASCII counterpart, leaving
/// every other character unchanged.
#[verifier::when_used_as_spec(spec_normalize_char)]
pub fn unicode_to_ascii(c: char) -> (r: char)
    ensures
        r == spec_normalize_char(c),
{
    match c {
        '\u{06F0}' => '0',
        '\u{06F1}' => '1',
        '\u{06F2}' => '2',
        '\u{06F3}' => '3',
        '\u{06F4}' => '4',
        '\u{06F5}' => '5',
        '\u{06F6}' => '6',
        '\u{06F7}' => '7',
        '\u{06F8}' => '8',
        '\u{06F9}' => '9',
        '\u{0660}' => '0',
        '\u{0661}' => '1',
        '\u{0662}' => '2',
        '\u{0663}' => '3',
        '\u{0664}' => '4',
        '\u{0665}' => '5',
        '\u{0666}' => '6',
        '\u{0667}' => '7',
        '\u{0668}' => '8',
        '\u{0669}' => '9',
        '\u{066B}' => '.',
        '\u{066C}' => ',',
        _ => c,
    }
}

/// A token prepared for numeric parsing: every character normalized through
/// the substitution table, and every comma (a thousands separator, ASCII or
/// converted) removed.
pub open spec fn spec_clean(s: Seq<char>) -> Seq<char>
    decreases s.len(),
{
    if s.len() == 0 {
        Seq::empty()
    } else {
        let rest = spec_clean(s.drop_last());
        let c = spec_normalize_char(s.last());
        if c == ',' {
            rest
        } else {
            rest.push(c)
        }
    }
}

/// Normalizes a raw token into a candidate numeric string: digits and
/// separators mapped to ASCII, thousands separators stripped.
pub fn clean_token(token: &str) -> (r: String)
    ensures
        r@ == spec_clean(token@),
{
    let cs = text::chars_of(token);
    let n = cs.len();
    let mut out = String::new();
    let mut i: usize = 0;
    while i < n
        invariant
            i <= n,
            n == token@.len(),
            cs@ == token@,
            out@ == spec_clean(token@.take(i as int)),
        decreases n - i,
    {
        let c = unicode_to_ascii(cs[i]);
        if c != ',' {
            text::push_char(&mut out, c);
        }
        i = i + 1;
        proof {
            assert(token@.take(i as int).drop_last() =~= token@.take(i - 1));
            assert(token@.take(i as int).last() == token@[i - 1]);
        }
    }
    proof {
        assert(token@.take(n as int) =~= token@);
    }
    out
}

/// A token wrapped in a matching pair of quote characters with content
/// left once the quotes are stripped: pushed as a storage key. Quotes
/// around nothing are no key; such a token falls through to the other
/// classifications.
pub open spec fn is_quoted_key(t: Seq<char>) -> bool {
    &&& t.len() > 1
    &&& t[0] == '"'
    &&& t[t.len() - 1] == '"'
    &&& text::spec_trim_quotes(t).len() > 0
}

/// How one processed token relates the session state before (`s0`, `st0`,
/// `la0`, `o0`: stack, storage, last answer, output) to the state after and
/// to the result. Classification tries, in order: quoted key, numeric
/// literal, registry lookup; an unregistered leftover is refused with the
/// state untouched. The last answer is never written here — it belongs to
/// the caller's end-of-line policy.
pub open spec fn process_post(
    t: Seq<char>,
    s0: Seq<ItemView>,
    st0: Map<Seq<char>, u64>,
    la0: Option<u64>,
    o0: Seq<OutputView>,
    s1: Seq<ItemView>,
    st1: Map<Seq<char>, u64>,
    la1: Option<u64>,
    o1: Seq<OutputView>,
    r: Result<(), CalcError>,
) -> bool {
    if is_quoted_key(t) {
        &&& r == Ok::<(), CalcError>(())
        &&& s1 == s0.push(ItemView::Key(text::spec_trim_quotes(t)))
        &&& st1 == st0 && la1 == la0 && o1 == o0
    } else if literal::is_float_literal(spec_clean(t)) {
        &&& r == Ok::<(), CalcError>(())
        &&& (exists|b: u64| s1 == s0.push(ItemView::Number(b)))
        &&& st1 == st0 && la1 == la0 && o1 == o0
    } else {
        match registry::spec_lookup(t) {
            None => {
                &&& r == Err::<(), CalcError>(CalcError::UnknownToken)
                &&& s1 == s0 && st1 == st0 && la1 == la0 && o1 == o0
            },
            Some(registry::OperatorAction::PushConstant(c)) => {
                &&& r == Ok::<(), CalcError>(())
                &&& s1 == s0.push(ItemView::Number(registry::spec_constant_bits(c)))
                &&& st1 == st0 && la1 == la0 && o1 == o0
            },
            Some(registry::OperatorAction::Unary(_)) => {
                &&& unary::unary_post(s0, s1, r)
                &&& st1 == st0 && la1 == la0 && o1 == o0
            },
            Some(registry::OperatorAction::Binary(_)) => {
                &&& binary::binary_post(s0, s1, r)
                &&& st1 == st0 && la1 == la0 && o1 == o0
            },
            Some(registry::OperatorAction::Special(sp)) => special::special_post(
                sp,
                s0,
                st0,
                la0,
                o0,
                s1,
                st1,
                la1,
                o1,
                r,
            ),
        }
    }
}

/// Processes one whitespace-delimited token against the session state: the
/// sole entry point of the evaluation engine. See `process_post` for the
/// complete statement of what each class of token does.
pub fn process_token<K: NumberKernel>(
    stack: &mut Vec<StackItem>,
    token: &str,
    last_answer: &mut Option<u64>,
    storage: &mut storage::Storage,
    kernel: &K,
    out: &mut Vec<Output>,
) -> (r: Result<(), CalcError>)
    ensures
        process_post(
            token@,
            stack_model(old(stack)@),
            old(storage)@,
            *old(last_answer),
            out_model(old(out)@),
            stack_model(final(stack)@),
            final(storage)@,
            *final(last_answer),
            out_model(final(out)@),
            r,
        ),
{
    let cs = text::chars_of(token);
    let n = cs.len();
    if n > 1 && cs[0] == '"' && cs[n - 1] == '"' {
        let key = text::trim_quotes(token);
        if !key.as_str().is_empty() {
            stack.push(StackItem::Key(key));
            proof {
                assert(stack_model(stack@) =~= stack_model(old(stack)@).push(
                    ItemView::Key(text::spec_trim_quotes(token@)),
                ));
            }
            return Ok(());
        }
        // quotes around nothing: no key; fall through to the numeric and
        // operator classifications
    }
    let cleaned = clean_token(token);
    if literal::is_float_literal_str(cleaned.as_str()) {
        let bits = kernel.number_value(cleaned.as_str());
        stack.push(StackItem::Number(bits));
        proof {
            assert(stack_model(stack@) =~= stack_model(old(stack)@).push(ItemView::Number(bits)));
        }
        return Ok(());
    }
    match registry::lookup(token) {
        None => Err(CalcError::UnknownToken),
        Some(registry::OperatorAction::PushConstant(c)) => {
            let bits = registry::constant_value(c);
            stack.push(StackItem::Number(bits));
            proof {
                assert(stack_model(stack@) =~= stack_model(old(stack)@).push(
                    ItemView::Number(bits),
                ));
            }
            Ok(())
        },
        Some(registry::OperatorAction::Unary(op)) => unary::calculate(stack, op, kernel),
        Some(registry::OperatorAction::Binary(op)) => binary::calculate(stack, op, kernel),
        Some(registry::OperatorAction::Special(sp)) => special::handle_special_operator(
            stack,
            sp,
            last_answer,
            storage,
            kernel,
            out,
        ),
    }
}

/// The last answer after a line ends well: the stack top's value when it is
/// a number, the old answer otherwise.
pub open spec fn spec_updated_last(s: Seq<ItemView>, la: Option<u64>) -> Option<u64> {
    if s.len() > 0 {
        match s.last() {
            ItemView::Number(v) => Some(v),
            ItemView::Key(_) => la,
        }
    } else {
        la
    }
}

/// Records a successfully processed line's final stack-top numeric value as
/// the last answer. A failed line never reaches this call, so the last
/// answer is never overwritten on failure.
pub fn update_last_answer(stack: &Vec<StackItem>, last_answer: &mut Option<u64>)
    ensures
        *final(last_answer) == spec_updated_last(stack_model(stack@), *old(last_answer)),
{
    let n = stack.len();
    if n > 0 {
        proof {
            assert(stack_model(stack@)[n - 1] == stack@[n - 1]@);
        }
        match &stack[n - 1] {
            StackItem::Number(v) => {
                *last_answer = Some(*v);
            },
            _ => {},
        }
    }
}

} // verus!
