//! The special operations: those that need more than a pure stack-to-stack
//! transform. Each follows the recovery discipline of validating before any
//! pop that cannot be undone and restoring every popped item, in its
//! original order, on failure. The storage operation's key loss on a failed
//! value pop is the one deliberate exception, flagged on `store_post`.

use vstd::prelude::*;
use vstd::arithmetic::div_mod::lemma_div_decreases;
use vstd::arithmetic::mul::lemma_mul_inequality;
use vstd::arithmetic::mul::lemma_mul_is_associative;
use vstd::arithmetic::mul::lemma_mul_is_commutative;
use crate::CalcError;
use crate::ItemView;
use crate::NumberKernel;
use crate::Output;
use crate::OutputView;
use crate::StackItem;
use crate::out_model;
use crate::stack_model;
use crate::registry::Base;
use crate::registry::BinaryOp;
use crate::registry::SpecialOp;
use crate::registry::lookup;
use crate::registry::spec_lookup;
use crate::storage::Storage;
use crate::text::lower_of;
use crate::text::push_char;
use crate::text::spec_trim_quotes;
use crate::text::to_lowercase;
use crate::text::trim_quotes;

verus! {

/// n factorial.
pub open spec fn spec_fact(n: nat) -> nat
    decreases n,
{
    if n == 0 {
        1
    } else {
        n * spec_fact((n - 1) as nat)
    }
}

/// The falling product n · (n−1) · … · (n−k+1), with k factors.
pub open spec fn spec_falling(n: nat, k: nat) -> nat
    decreases k,
{
    if k == 0 {
        1
    } else {
        n * spec_falling((n - 1) as nat, (k - 1) as nat)
    }
}

pub proof fn lemma_fact_pos(n: nat)
    ensures
        spec_fact(n) >= 1,
    decreases n,
{
    if n > 0 {
        lemma_fact_pos((n - 1) as nat);
        lemma_mul_inequality(1, n as int, spec_fact((n - 1) as nat) as int);
    }
}

pub proof fn lemma_fact_mono(m: nat, n: nat)
    requires
        m <= n,
    ensures
        spec_fact(m) <= spec_fact(n),
    decreases n,
{
    if m < n {
        lemma_fact_mono(m, (n - 1) as nat);
        lemma_mul_inequality(1, n as int, spec_fact((n - 1) as nat) as int);
    }
}

pub proof fn lemma_fact_20_value()
    ensures
        spec_fact(20) == 2432902008176640000,
{
    reveal_with_fuel(spec_fact, 21);
    assert(spec_fact(0) == 1);
    assert(spec_fact(1) == 1);
    assert(spec_fact(2) == 2);
    assert(spec_fact(3) == 6);
    assert(spec_fact(4) == 24);
    assert(spec_fact(5) == 120);
    assert(spec_fact(6) == 720);
    assert(spec_fact(7) == 5040);
    assert(spec_fact(8) == 40320);
    assert(spec_fact(9) == 362880);
    assert(spec_fact(10) == 3628800);
    assert(spec_fact(11) == 39916800);
    assert(spec_fact(12) == 479001600);
    assert(spec_fact(13) == 6227020800);
    assert(spec_fact(14) == 87178291200);
    assert(spec_fact(15) == 1307674368000);
    assert(spec_fact(16) == 20922789888000);
    assert(spec_fact(17) == 355687428096000);
    assert(spec_fact(18) == 6402373705728000);
    assert(spec_fact(19) == 121645100408832000);
}

/// Appending the next factor extends a falling product by one step.
pub proof fn lemma_falling_step(n: nat, k: nat)
    requires
        k < n,
    ensures
        spec_falling(n, (k + 1) as nat) == spec_falling(n, k) * (n - k),
    decreases k,
{
    if k == 0 {
        assert(spec_falling(n, 1) == n * spec_falling((n - 1) as nat, 0));
        assert(spec_falling((n - 1) as nat, 0) == 1);
        assert(spec_falling(n, 0) == 1);
        vstd::arithmetic::mul::lemma_mul_basics(n - k);
    } else {
        lemma_falling_step((n - 1) as nat, (k - 1) as nat);
        assert(spec_falling(n, (k + 1) as nat) == n * spec_falling((n - 1) as nat, k));
        assert(spec_falling(n, k) == n * spec_falling((n - 1) as nat, (k - 1) as nat));
        assert(spec_falling((n - 1) as nat, k) == spec_falling((n - 1) as nat, (k - 1) as nat) * (
        n - k));
        assert(spec_falling(n, (k + 1) as nat) == spec_falling(n, k) * (n - k))
            by (nonlinear_arith)
            requires
                spec_falling(n, (k + 1) as nat) == n * spec_falling((n - 1) as nat, k),
                spec_falling((n - 1) as nat, k) == spec_falling((n - 1) as nat, (k - 1) as nat) * (
                n - k),
                spec_falling(n, k) == n * spec_falling((n - 1) as nat, (k - 1) as nat),
        {}
    }
}

/// A falling product with at most n factors is bounded by n factorial.
pub proof fn lemma_falling_le_fact(n: nat, k: nat)
    requires
        k <= n,
    ensures
        spec_falling(n, k) <= spec_fact(n),
    decreases k,
{
    if k == 0 {
        lemma_fact_pos(n);
    } else {
        lemma_falling_le_fact((n - 1) as nat, (k - 1) as nat);
        assert(spec_falling(n, k) == n * spec_falling((n - 1) as nat, (k - 1) as nat));
        assert(spec_fact(n) == n * spec_fact((n - 1) as nat));
        lemma_mul_inequality(
            spec_falling((n - 1) as nat, (k - 1) as nat) as int,
            spec_fact((n - 1) as nat) as int,
            n as int,
        );
        lemma_mul_is_commutative(n as int, spec_falling((n - 1) as nat, (k - 1) as nat) as int);
        lemma_mul_is_commutative(n as int, spec_fact((n - 1) as nat) as int);
    }
}

/// n factorial, exactly, for n up to 20 (the largest factorial that fits the
/// calculator's domain bound).
pub fn fact_u64(n: u64) -> (r: u64)
    requires
        n <= 20,
    ensures
        r == spec_fact(n as nat),
{
    let mut acc: u64 = 1;
    let mut i: u64 = 0;
    while i < n
        invariant
            i <= n <= 20,
            acc == spec_fact(i as nat),
        decreases n - i,
    {
        proof {
            assert(spec_fact((i + 1) as nat) == (i + 1) * spec_fact(i as nat));
            lemma_mul_is_commutative((i + 1) as int, spec_fact(i as nat) as int);
            lemma_fact_mono((i + 1) as nat, 20);
            lemma_fact_20_value();
        }
        acc = acc * (i + 1);
        i = i + 1;
    }
    acc
}

/// The falling product n · (n−1) · … · (n−k+1), exactly, within the
/// permutation domain bound.
pub fn falling_product(n: u64, k: u64) -> (r: u64)
    requires
        k <= n <= 20,
    ensures
        r == spec_falling(n as nat, k as nat),
{
    let mut acc: u64 = 1;
    let mut i: u64 = 0;
    while i < k
        invariant
            i <= k <= n <= 20,
            acc == spec_falling(n as nat, i as nat),
        decreases k - i,
    {
        proof {
            lemma_falling_step(n as nat, i as nat);
            lemma_falling_le_fact(n as nat, (i + 1) as nat);
            lemma_fact_mono(n as nat, 20);
            lemma_fact_20_value();
        }
        acc = acc * (n - i);
        i = i + 1;
    }
    acc
}

/// How factorial relates the stack before and after: pop one number, check
/// the domain the kernel reports, push the factorial of the rounded operand.
/// Every failure — underflow, a key on top, or a domain refusal — leaves the
/// stack exactly as it was.
pub open spec fn factorial_post(s0: Seq<ItemView>, s1: Seq<ItemView>, r: Result<
    (),
    CalcError,
>) -> bool {
    if s0.len() == 0 {
        r == Err::<(), CalcError>(CalcError::StackUnderflow) && s1 == s0
    } else if !(s0.last() is Number) {
        r == Err::<(), CalcError>(CalcError::TypeMismatch) && s1 == s0
    } else {
        ||| (r == Err::<(), CalcError>(CalcError::DomainError) && s1 == s0)
        ||| (r == Ok::<(), CalcError>(()) && exists|v: u64|
            s1 == s0.update(s0.len() - 1, ItemView::Number(v)))
    }
}

/// Pops one number n; fails (restoring the operand) when the top is a key
/// or when the kernel reports n below zero or above 20; otherwise rounds n
/// and pushes the factorial, computed as an exact integer product and
/// converted once.
pub fn factorial<K: NumberKernel>(stack: &mut Vec<StackItem>, kernel: &K) -> (r: Result<
    (),
    CalcError,
>)
    ensures
        factorial_post(stack_model(old(stack)@), stack_model(final(stack)@), r),
{
    proof {
        if stack@.len() > 0 {
            assert(stack_model(stack@)[stack@.len() - 1] == stack@[stack@.len() - 1]@);
        }
    }
    let val = match stack.pop() {
        None => {
            return Err(CalcError::StackUnderflow);
        },
        Some(StackItem::Key(k)) => {
            stack.push(StackItem::Key(k));
            proof {
                assert(stack_model(stack@) =~= stack_model(old(stack)@));
            }
            return Err(CalcError::TypeMismatch);
        },
        Some(StackItem::Number(v)) => v,
    };
    let zero = kernel.from_int(0);
    if kernel.lt(val, zero) {
        stack.push(StackItem::Number(val));
        proof {
            assert(stack_model(stack@) =~= stack_model(old(stack)@));
        }
        return Err(CalcError::DomainError);
    }
    let twenty = kernel.from_int(20);
    if kernel.gt(val, twenty) {
        stack.push(StackItem::Number(val));
        proof {
            assert(stack_model(stack@) =~= stack_model(old(stack)@));
        }
        return Err(CalcError::DomainError);
    }
    let rounded = kernel.round_to_i64(val);
    if rounded < 0 || rounded > 20 {
        // rounding a double that passed the two checks lands in 0..=20; this
        // path is reachable only under a kernel that does not round
        stack.push(StackItem::Number(val));
        proof {
            assert(stack_model(stack@) =~= stack_model(old(stack)@));
        }
        return Err(CalcError::DomainError);
    }
    let f = fact_u64(rounded as u64);
    let bits = kernel.from_int(f);
    stack.push(StackItem::Number(bits));
    proof {
        assert(stack_model(stack@) =~= stack_model(old(stack)@).update(
            old(stack)@.len() - 1,
            ItemView::Number(bits),
        ));
    }
    Ok(())
}

/// How the two combinatoric operations relate the stack before and after:
/// pop k, then n (both numbers), validate, and replace both by the result.
/// Every failure restores whatever was popped, in its original order, so the
/// stack is exactly what it was.
pub open spec fn combinatoric_post(s0: Seq<ItemView>, s1: Seq<ItemView>, r: Result<
    (),
    CalcError,
>) -> bool {
    if s0.len() == 0 {
        r == Err::<(), CalcError>(CalcError::StackUnderflow) && s1 == s0
    } else if !(s0.last() is Number) {
        r == Err::<(), CalcError>(CalcError::TypeMismatch) && s1 == s0
    } else if s0.len() == 1 {
        r == Err::<(), CalcError>(CalcError::StackUnderflow) && s1 == s0
    } else if !(s0[s0.len() - 2] is Number) {
        r == Err::<(), CalcError>(CalcError::TypeMismatch) && s1 == s0
    } else {
        ||| (r == Err::<(), CalcError>(CalcError::DomainError) && s1 == s0)
        ||| (r == Ok::<(), CalcError>(()) && exists|v: u64|
            s1 == s0.drop_last().drop_last().push(ItemView::Number(v)))
    }
}

/// P(n, k): pops k then n, validates 0 ≤ k ≤ n ≤ 20 (n and k rounded), and
/// pushes the falling product n · (n−1) · … · (n−k+1), computed exactly in
/// integers and converted once.
pub fn permutations<K: NumberKernel>(stack: &mut Vec<StackItem>, kernel: &K) -> (r: Result<
    (),
    CalcError,
>)
    ensures
        combinatoric_post(stack_model(old(stack)@), stack_model(final(stack)@), r),
{
    proof {
        if stack@.len() > 0 {
            assert(stack_model(stack@)[stack@.len() - 1] == stack@[stack@.len() - 1]@);
        }
    }
    let k_bits = match stack.pop() {
        None => {
            return Err(CalcError::StackUnderflow);
        },
        Some(StackItem::Key(k)) => {
            stack.push(StackItem::Key(k));
            proof {
                assert(stack_model(stack@) =~= stack_model(old(stack)@));
            }
            return Err(CalcError::TypeMismatch);
        },
        Some(StackItem::Number(v)) => v,
    };
    proof {
        if stack@.len() > 0 {
            assert(stack_model(old(stack)@)[stack@.len() - 1] == stack@[stack@.len() - 1]@);
        }
    }
    let n_bits = match stack.pop() {
        None => {
            stack.push(StackItem::Number(k_bits));
            proof {
                assert(stack_model(stack@) =~= stack_model(old(stack)@));
            }
            return Err(CalcError::StackUnderflow);
        },
        Some(StackItem::Key(k)) => {
            stack.push(StackItem::Key(k));
            stack.push(StackItem::Number(k_bits));
            proof {
                assert(stack_model(stack@) =~= stack_model(old(stack)@));
            }
            return Err(CalcError::TypeMismatch);
        },
        Some(StackItem::Number(v)) => v,
    };
    let zero = kernel.from_int(0);
    if kernel.lt(n_bits, zero) || kernel.lt(k_bits, zero) {
        stack.push(StackItem::Number(n_bits));
        stack.push(StackItem::Number(k_bits));
        proof {
            assert(stack_model(stack@) =~= stack_model(old(stack)@));
        }
        return Err(CalcError::DomainError);
    }
    let n = kernel.round_to_i64(n_bits);
    let k = kernel.round_to_i64(k_bits);
    if k > n || n > 20 || k > 20 || n < 0 || k < 0 {
        stack.push(StackItem::Number(n_bits));
        stack.push(StackItem::Number(k_bits));
        proof {
            assert(stack_model(stack@) =~= stack_model(old(stack)@));
        }
        return Err(CalcError::DomainError);
    }
    let prod = falling_product(n as u64, k as u64);
    let bits = kernel.from_int(prod);
    stack.push(StackItem::Number(bits));
    proof {
        assert(stack_model(stack@) =~= stack_model(old(stack)@).drop_last().drop_last().push(
            ItemView::Number(bits),
        ));
    }
    Ok(())
}

/// C(n, k): pops k then n, validates 0 ≤ k ≤ n ≤ 170 (n and k rounded), and
/// pushes the product of (n−i)/(i+1) over i below min(k, n−k), multiplying
/// and dividing alternately to limit the intermediate magnitude.
pub fn combinations<K: NumberKernel>(stack: &mut Vec<StackItem>, kernel: &K) -> (r: Result<
    (),
    CalcError,
>)
    ensures
        combinatoric_post(stack_model(old(stack)@), stack_model(final(stack)@), r),
{
    proof {
        if stack@.len() > 0 {
            assert(stack_model(stack@)[stack@.len() - 1] == stack@[stack@.len() - 1]@);
        }
    }
    let k_bits = match stack.pop() {
        None => {
            return Err(CalcError::StackUnderflow);
        },
        Some(StackItem::Key(k)) => {
            stack.push(StackItem::Key(k));
            proof {
                assert(stack_model(stack@) =~= stack_model(old(stack)@));
            }
            return Err(CalcError::TypeMismatch);
        },
        Some(StackItem::Number(v)) => v,
    };
    proof {
        if stack@.len() > 0 {
            assert(stack_model(old(stack)@)[stack@.len() - 1] == stack@[stack@.len() - 1]@);
        }
    }
    let n_bits = match stack.pop() {
        None => {
            stack.push(StackItem::Number(k_bits));
            proof {
                assert(stack_model(stack@) =~= stack_model(old(stack)@));
            }
            return Err(CalcError::StackUnderflow);
        },
        Some(StackItem::Key(k)) => {
            stack.push(StackItem::Key(k));
            stack.push(StackItem::Number(k_bits));
            proof {
                assert(stack_model(stack@) =~= stack_model(old(stack)@));
            }
            return Err(CalcError::TypeMismatch);
        },
        Some(StackItem::Number(v)) => v,
    };
    let zero = kernel.from_int(0);
    if kernel.lt(n_bits, zero) || kernel.lt(k_bits, zero) {
        stack.push(StackItem::Number(n_bits));
        stack.push(StackItem::Number(k_bits));
        proof {
            assert(stack_model(stack@) =~= stack_model(old(stack)@));
        }
        return Err(CalcError::DomainError);
    }
    let n = kernel.round_to_i64(n_bits);
    let k = kernel.round_to_i64(k_bits);
    if k > n || n > 170 || n < 0 || k < 0 {
        stack.push(StackItem::Number(n_bits));
        stack.push(StackItem::Number(k_bits));
        proof {
            assert(stack_model(stack@) =~= stack_model(old(stack)@));
        }
        return Err(CalcError::DomainError);
    }
    // C(n, k) = C(n, n−k): take the shorter product
    let k_eff = if k < n - k {
        k
    } else {
        n - k
    };
    let mut result = kernel.from_int(1);
    let mut i: i64 = 0;
    while i < k_eff
        invariant
            0 <= i,
            i <= k_eff <= n <= 170,
        decreases k_eff - i,
    {
        let num = kernel.from_int((n - i) as u64);
        let den = kernel.from_int((i + 1) as u64);
        let scaled = kernel.apply_binary(BinaryOp::Mul, result, num);
        result = kernel.apply_binary(BinaryOp::Div, scaled, den);
        i = i + 1;
    }
    stack.push(StackItem::Number(result));
    proof {
        assert(stack_model(stack@) =~= stack_model(old(stack)@).drop_last().drop_last().push(
            ItemView::Number(result),
        ));
    }
    Ok(())
}

/// How swap relates the stack before and after: the top two slots exchanged
/// in place, whatever their kinds; underflow leaves the stack untouched.
pub open spec fn swap_post(s0: Seq<ItemView>, s1: Seq<ItemView>, r: Result<(), CalcError>) -> bool {
    if s0.len() < 2 {
        r == Err::<(), CalcError>(CalcError::StackUnderflow) && s1 == s0
    } else {
        r == Ok::<(), CalcError>(()) && s1 == s0.update(s0.len() - 2, s0.last()).update(
            s0.len() - 1,
            s0[s0.len() - 2],
        )
    }
}

/// Exchanges the two top stack slots in place, of whatever kind.
pub fn swap(stack: &mut Vec<StackItem>) -> (r: Result<(), CalcError>)
    ensures
        swap_post(stack_model(old(stack)@), stack_model(final(stack)@), r),
{
    let n = stack.len();
    if n < 2 {
        return Err(CalcError::StackUnderflow);
    }
    let x = match stack.pop() {
        Some(v) => v,
        None => {
            return Err(CalcError::StackUnderflow);
        },
    };
    let y = match stack.pop() {
        Some(v) => v,
        None => {
            return Err(CalcError::StackUnderflow);
        },
    };
    stack.push(x);
    stack.push(y);
    proof {
        assert(stack_model(stack@) =~= stack_model(old(stack)@).update(
            old(stack)@.len() - 2,
            stack_model(old(stack)@).last(),
        ).update(old(stack)@.len() - 1, stack_model(old(stack)@)[old(stack)@.len() - 2]));
    }
    Ok(())
}

/// How store relates stack and storage: pop the key, pop the value, bind.
/// A non-key top is restored before failing. After the key is consumed, a
/// failing value pop restores nothing — the key is lost. This is the one
/// deliberate departure from the full-restore discipline that the other
/// operations keep, preserved rather than silently mended; the clauses
/// below state it exactly.
pub open spec fn store_post(
    s0: Seq<ItemView>,
    st0: Map<Seq<char>, u64>,
    s1: Seq<ItemView>,
    st1: Map<Seq<char>, u64>,
    r: Result<(), CalcError>,
) -> bool {
    if s0.len() == 0 {
        r == Err::<(), CalcError>(CalcError::StackUnderflow) && s1 == s0 && st1 == st0
    } else if !(s0.last() is Key) {
        r == Err::<(), CalcError>(CalcError::TypeMismatch) && s1 == s0 && st1 == st0
    } else if s0.len() == 1 {
        r == Err::<(), CalcError>(CalcError::StackUnderflow) && s1 == s0.drop_last() && st1 == st0
    } else if !(s0[s0.len() - 2] is Number) {
        r == Err::<(), CalcError>(CalcError::TypeMismatch) && s1 == s0.drop_last().drop_last()
            && st1 == st0
    } else {
        match (s0.last(), s0[s0.len() - 2]) {
            (ItemView::Key(k), ItemView::Number(v)) => {
                r == Ok::<(), CalcError>(()) && s1 == s0.drop_last().drop_last() && st1
                    == st0.insert(k, v)
            },
            _ => false,
        }
    }
}

/// Pops a key, then a number, and binds the key to the number in storage.
/// Expected stack order: value below, key on top.
pub fn store(stack: &mut Vec<StackItem>, storage: &mut Storage) -> (r: Result<(), CalcError>)
    ensures
        store_post(
            stack_model(old(stack)@),
            old(storage)@,
            stack_model(final(stack)@),
            final(storage)@,
            r,
        ),
{
    proof {
        if stack@.len() > 0 {
            assert(stack_model(stack@)[stack@.len() - 1] == stack@[stack@.len() - 1]@);
        }
    }
    let key = match stack.pop() {
        None => {
            return Err(CalcError::StackUnderflow);
        },
        Some(StackItem::Number(v)) => {
            stack.push(StackItem::Number(v));
            proof {
                assert(stack_model(stack@) =~= stack_model(old(stack)@));
            }
            return Err(CalcError::TypeMismatch);
        },
        Some(StackItem::Key(k)) => k,
    };
    proof {
        if stack@.len() > 0 {
            assert(stack_model(old(stack)@)[stack@.len() - 1] == stack@[stack@.len() - 1]@);
        }
        assert(stack_model(stack@) =~= stack_model(old(stack)@).drop_last());
    }
    let value = match stack.pop() {
        None => {
            return Err(CalcError::StackUnderflow);
        },
        Some(StackItem::Key(_)) => {
            proof {
                assert(stack_model(stack@) =~= stack_model(old(stack)@).drop_last().drop_last());
            }
            return Err(CalcError::TypeMismatch);
        },
        Some(StackItem::Number(v)) => v,
    };
    storage.insert(key, value);
    proof {
        assert(stack_model(stack@) =~= stack_model(old(stack)@).drop_last().drop_last());
    }
    Ok(())
}

/// How recall relates the stack to storage: the key on top is replaced by
/// its stored value; a miss or a non-key top restores the stack exactly.
pub open spec fn recall_post(
    s0: Seq<ItemView>,
    st0: Map<Seq<char>, u64>,
    s1: Seq<ItemView>,
    r: Result<(), CalcError>,
) -> bool {
    if s0.len() == 0 {
        r == Err::<(), CalcError>(CalcError::StackUnderflow) && s1 == s0
    } else if !(s0.last() is Key) {
        r == Err::<(), CalcError>(CalcError::TypeMismatch) && s1 == s0
    } else {
        match s0.last() {
            ItemView::Key(k) => {
                if st0.contains_key(k) {
                    r == Ok::<(), CalcError>(()) && s1 == s0.update(
                        s0.len() - 1,
                        ItemView::Number(st0[k]),
                    )
                } else {
                    r == Err::<(), CalcError>(CalcError::KeyNotFound) && s1 == s0
                }
            },
            _ => false,
        }
    }
}

/// Pops a key and pushes the number stored under it; on a miss the key is
/// pushed back and the error reported.
pub fn recall(stack: &mut Vec<StackItem>, storage: &Storage) -> (r: Result<(), CalcError>)
    ensures
        recall_post(stack_model(old(stack)@), storage@, stack_model(final(stack)@), r),
{
    proof {
        if stack@.len() > 0 {
            assert(stack_model(stack@)[stack@.len() - 1] == stack@[stack@.len() - 1]@);
        }
    }
    let key = match stack.pop() {
        None => {
            return Err(CalcError::StackUnderflow);
        },
        Some(StackItem::Number(v)) => {
            stack.push(StackItem::Number(v));
            proof {
                assert(stack_model(stack@) =~= stack_model(old(stack)@));
            }
            return Err(CalcError::TypeMismatch);
        },
        Some(StackItem::Key(k)) => k,
    };
    match storage.get(key.as_str()) {
        Some(v) => {
            stack.push(StackItem::Number(v));
            proof {
                assert(stack_model(stack@) =~= stack_model(old(stack)@).update(
                    old(stack)@.len() - 1,
                    ItemView::Number(v),
                ));
            }
            Ok(())
        },
        None => {
            stack.push(StackItem::Key(key));
            proof {
                assert(stack_model(stack@) =~= stack_model(old(stack)@));
            }
            Err(CalcError::KeyNotFound)
        },
    }
}

/// The digit character for a value below 16, upper case.
pub open spec fn spec_digit_char(d: nat) -> char {
    if d == 0 {
        '0'
    } else if d == 1 {
        '1'
    } else if d == 2 {
        '2'
    } else if d == 3 {
        '3'
    } else if d == 4 {
        '4'
    } else if d == 5 {
        '5'
    } else if d == 6 {
        '6'
    } else if d == 7 {
        '7'
    } else if d == 8 {
        '8'
    } else if d == 9 {
        '9'
    } else if d == 10 {
        'A'
    } else if d == 11 {
        'B'
    } else if d == 12 {
        'C'
    } else if d == 13 {
        'D'
    } else if d == 14 {
        'E'
    } else {
        'F'
    }
}

/// The digits of `v` written in base `r`, most significant first, with no
/// leading zeros (a lone zero for zero).
pub open spec fn radix_digits(v: nat, r: nat) -> Seq<char>
    decreases v,
    when r >= 2
    via radix_digits_decreases
{
    if v < r {
        seq![spec_digit_char(v)]
    } else {
        radix_digits(v / r, r).push(spec_digit_char(v % r))
    }
}

#[via_fn]
proof fn radix_digits_decreases(v: nat, r: nat) {
    if v >= r {
        lemma_div_decreases(v as int, r as int);
    }
}

/// The numeric base a display token selects.
pub open spec fn spec_radix(base: Base) -> nat {
    match base {
        Base::Hex => 16,
        Base::Oct => 8,
        Base::Bin => 2,
    }
}

/// The literal prefix written before the digits.
pub open spec fn spec_base_prefix(base: Base) -> Seq<char> {
    match base {
        Base::Hex => "0x"@,
        Base::Oct => "0o"@,
        Base::Bin => "0b"@,
    }
}

/// The full displayed line for a truncated value `iv`: the base's prefix and
/// the digits of the value's 64-bit two's-complement pattern in that base.
pub open spec fn spec_base_line(base: Base, iv: i64) -> Seq<char> {
    spec_base_prefix(base) + radix_digits((iv as u64) as nat, spec_radix(base))
}

fn digit_char(d: u64) -> (c: char)
    requires
        d < 16,
    ensures
        c == spec_digit_char(d as nat),
{
    if d == 0 {
        '0'
    } else if d == 1 {
        '1'
    } else if d == 2 {
        '2'
    } else if d == 3 {
        '3'
    } else if d == 4 {
        '4'
    } else if d == 5 {
        '5'
    } else if d == 6 {
        '6'
    } else if d == 7 {
        '7'
    } else if d == 8 {
        '8'
    } else if d == 9 {
        '9'
    } else if d == 10 {
        'A'
    } else if d == 11 {
        'B'
    } else if d == 12 {
        'C'
    } else if d == 13 {
        'D'
    } else if d == 14 {
        'E'
    } else {
        'F'
    }
}

/// Appends the base-`radix` digits of `v` to `out`, most significant first.
fn format_radix_into(v: u64, radix: u64, out: &mut String)
    requires
        2 <= radix <= 16,
    ensures
        final(out)@ == old(out)@ + radix_digits(v as nat, radix as nat),
    decreases v,
{
    if v >= radix {
        proof {
            lemma_div_decreases(v as int, radix as int);
        }
        format_radix_into(v / radix, radix, out);
    }
    let d = digit_char(v % radix);
    push_char(out, d);
    proof {
        if v >= radix {
            assert((v / radix) as nat == (v as nat) / (radix as nat));
            assert((v % radix) as nat == (v as nat) % (radix as nat));
            assert(radix_digits(v as nat, radix as nat) == radix_digits(
                (v / radix) as nat,
                radix as nat,
            ).push(spec_digit_char((v % radix) as nat)));
            assert(out@ =~= old(out)@ + radix_digits(v as nat, radix as nat));
        } else {
            vstd::arithmetic::div_mod::lemma_small_mod(v as nat, radix as nat);
            assert(radix_digits(v as nat, radix as nat) == seq![spec_digit_char(v as nat)]);
            assert(out@ =~= old(out)@ + radix_digits(v as nat, radix as nat));
        }
    }
}

/// How base display relates stack and output: the top number, truncated to a
/// 64-bit integer and written in the requested base behind its prefix, goes
/// to the output channel; the stack is never mutated.
pub open spec fn display_base_post(
    base: Base,
    s0: Seq<ItemView>,
    o0: Seq<OutputView>,
    s1: Seq<ItemView>,
    o1: Seq<OutputView>,
    r: Result<(), CalcError>,
) -> bool {
    if s0.len() == 0 {
        r == Err::<(), CalcError>(CalcError::StackUnderflow) && s1 == s0 && o1 == o0
    } else if !(s0.last() is Number) {
        r == Err::<(), CalcError>(CalcError::TypeMismatch) && s1 == s0 && o1 == o0
    } else {
        &&& r == Ok::<(), CalcError>(())
        &&& s1 == s0
        &&& exists|iv: i64| o1 == o0.push(OutputView::BaseDisplay(#[trigger] spec_base_line(base, iv)))
    }
}

/// Reads the top number (without consuming it), truncates it to a 64-bit
/// integer, and emits it written in the requested base with the base's
/// prefix. Negative values show their two's-complement bit pattern, as
/// integer formatting writes them.
pub fn display_base<K: NumberKernel>(
    stack: &mut Vec<StackItem>,
    base: Base,
    kernel: &K,
    out: &mut Vec<Output>,
) -> (r: Result<(), CalcError>)
    ensures
        display_base_post(
            base,
            stack_model(old(stack)@),
            out_model(old(out)@),
            stack_model(final(stack)@),
            out_model(final(out)@),
            r,
        ),
{
    let n = stack.len();
    if n == 0 {
        return Err(CalcError::StackUnderflow);
    }
    proof {
        assert(stack_model(stack@)[n - 1] == stack@[n - 1]@);
    }
    let top: Option<u64> = match &stack[n - 1] {
        StackItem::Number(x) => Some(*x),
        _ => None,
    };
    match top {
        None => Err(CalcError::TypeMismatch),
        Some(bits) => {
            let iv = kernel.trunc_to_i64(bits);
            let u = iv as u64;
            let mut line = match base {
                Base::Hex => String::from_str("0x"),
                Base::Oct => String::from_str("0o"),
                Base::Bin => String::from_str("0b"),
            };
            let radix: u64 = match base {
                Base::Hex => 16,
                Base::Oct => 8,
                Base::Bin => 2,
            };
            format_radix_into(u, radix, &mut line);
            out.push(Output::BaseDisplay(line));
            proof {
                assert(line@ == spec_base_line(base, iv));
                assert(out_model(out@) =~= out_model(old(out)@).push(
                    OutputView::BaseDisplay(spec_base_line(base, iv)),
                ));
            }
            Ok(())
        },
    }
}

/// How help relates the stack to the output channel: a key on top naming a
/// registered token (case-insensitively, quotes trimmed) is consumed and
/// resolves to single-entry help; anything else falls back to the full
/// listing and leaves the stack as it was. Help never fails.
pub open spec fn help_post(
    s0: Seq<ItemView>,
    o0: Seq<OutputView>,
    s1: Seq<ItemView>,
    o1: Seq<OutputView>,
    r: Result<(), CalcError>,
) -> bool {
    if s0.len() == 0 {
        r == Ok::<(), CalcError>(()) && s1 == s0 && o1 == o0.push(OutputView::HelpAll)
    } else {
        match s0.last() {
            ItemView::Number(_) => r == Ok::<(), CalcError>(()) && s1 == s0 && o1 == o0.push(
                OutputView::HelpAll,
            ),
            ItemView::Key(k) => {
                let f = lower_of(spec_trim_quotes(k));
                if spec_lookup(f) is Some {
                    r == Ok::<(), CalcError>(()) && s1 == s0.drop_last() && o1 == o0.push(
                        OutputView::HelpOne(f),
                    )
                } else {
                    r == Ok::<(), CalcError>(()) && s1 == s0 && o1 == o0.push(OutputView::HelpAll)
                }
            },
        }
    }
}

/// Resolves a help request: consumes a key naming a registered token and
/// requests its single entry, or requests the full listing, restoring
/// whatever was inspected.
pub fn help(stack: &mut Vec<StackItem>, out: &mut Vec<Output>) -> (r: Result<(), CalcError>)
    ensures
        help_post(
            stack_model(old(stack)@),
            out_model(old(out)@),
            stack_model(final(stack)@),
            out_model(final(out)@),
            r,
        ),
{
    proof {
        if stack@.len() > 0 {
            assert(stack_model(stack@)[stack@.len() - 1] == stack@[stack@.len() - 1]@);
        }
    }
    match stack.pop() {
        None => {
            out.push(Output::HelpAll);
            proof {
                assert(out_model(out@) =~= out_model(old(out)@).push(OutputView::HelpAll));
            }
            Ok(())
        },
        Some(StackItem::Number(v)) => {
            stack.push(StackItem::Number(v));
            out.push(Output::HelpAll);
            proof {
                assert(stack_model(stack@) =~= stack_model(old(stack)@));
                assert(out_model(out@) =~= out_model(old(out)@).push(OutputView::HelpAll));
            }
            Ok(())
        },
        Some(StackItem::Key(key)) => {
            let trimmed = trim_quotes(key.as_str());
            let lowered = to_lowercase(trimmed.as_str());
            let registered = lookup(lowered.as_str()).is_some();
            if registered {
                out.push(Output::HelpOne(lowered));
                proof {
                    assert(stack_model(stack@) =~= stack_model(old(stack)@).drop_last());
                    assert(out_model(out@) =~= out_model(old(out)@).push(
                        OutputView::HelpOne(lower_of(spec_trim_quotes(key@))),
                    ));
                }
                Ok(())
            } else {
                stack.push(StackItem::Key(key));
                out.push(Output::HelpAll);
                proof {
                    assert(stack_model(stack@) =~= stack_model(old(stack)@));
                    assert(out_model(out@) =~= out_model(old(out)@).push(OutputView::HelpAll));
                }
                Ok(())
            }
        },
    }
}

/// How the answer recall relates the last-answer slot to the stack: a held
/// answer is pushed; an empty slot fails with no mutation.
pub open spec fn answer_post(
    la: Option<u64>,
    s0: Seq<ItemView>,
    s1: Seq<ItemView>,
    r: Result<(), CalcError>,
) -> bool {
    match la {
        Some(v) => r == Ok::<(), CalcError>(()) && s1 == s0.push(ItemView::Number(v)),
        None => r == Err::<(), CalcError>(CalcError::StateUnavailable) && s1 == s0,
    }
}

/// How any special operation relates the whole session state before and
/// after: its own stack relation, with everything it does not touch frozen.
pub open spec fn special_post(
    sp: SpecialOp,
    s0: Seq<ItemView>,
    st0: Map<Seq<char>, u64>,
    la0: Option<u64>,
    o0: Seq<OutputView>,
    s1: Seq<ItemView>,
    st1: Map<Seq<char>, u64>,
    la1: Option<u64>,
    o1: Seq<OutputView>,
    r: Result<(), CalcError>,
) -> bool {
    &&& la1 == la0
    &&& match sp {
        SpecialOp::Factorial => factorial_post(s0, s1, r) && st1 == st0 && o1 == o0,
        SpecialOp::Permutations => combinatoric_post(s0, s1, r) && st1 == st0 && o1 == o0,
        SpecialOp::Combinations => combinatoric_post(s0, s1, r) && st1 == st0 && o1 == o0,
        SpecialOp::Swap => swap_post(s0, s1, r) && st1 == st0 && o1 == o0,
        SpecialOp::Clear => r == Ok::<(), CalcError>(()) && s1 == Seq::<ItemView>::empty() && st1
            == st0 && o1 == o0,
        SpecialOp::Answer => answer_post(la0, s0, s1, r) && st1 == st0 && o1 == o0,
        SpecialOp::Store => store_post(s0, st0, s1, st1, r) && o1 == o0,
        SpecialOp::Recall => recall_post(s0, st0, s1, r) && st1 == st0 && o1 == o0,
        SpecialOp::DisplayBase(base) => display_base_post(base, s0, o0, s1, o1, r) && st1 == st0,
        SpecialOp::Help => help_post(s0, o0, s1, o1, r) && st1 == st0,
    }
}

/// Routes a special operation to its handler, giving it exactly the state it
/// needs: the stack always, storage for memory operations, the last answer
/// for recall, the output channel for display and help.
pub fn handle_special_operator<K: NumberKernel>(
    stack: &mut Vec<StackItem>,
    sp: SpecialOp,
    last_answer: &mut Option<u64>,
    storage: &mut Storage,
    kernel: &K,
    out: &mut Vec<Output>,
) -> (r: Result<(), CalcError>)
    ensures
        special_post(
            sp,
            stack_model(old(stack)@),
            old(storage)@,
            *old(last_answer),
            out_model(old(out)@),
            stack_model(final(stack)@),
            final(storage)@,
            *final(last_answer),
            out_model(final(out)@),
            r,
        ),
{
    match sp {
        SpecialOp::Factorial => factorial(stack, kernel),
        SpecialOp::Permutations => permutations(stack, kernel),
        SpecialOp::Combinations => combinations(stack, kernel),
        SpecialOp::Swap => swap(stack),
        SpecialOp::Clear => {
            stack.clear();
            proof {
                assert(stack_model(stack@) =~= Seq::<ItemView>::empty());
            }
            Ok(())
        },
        SpecialOp::Answer => {
            let la: Option<u64> = *last_answer;
            match la {
                Some(v) => {
                    stack.push(StackItem::Number(v));
                    proof {
                        assert(stack_model(stack@) =~= stack_model(old(stack)@).push(
                            ItemView::Number(v),
                        ));
                    }
                    Ok(())
                },
                None => Err(CalcError::StateUnavailable),
            }
        },
        SpecialOp::Store => store(stack, storage),
        SpecialOp::Recall => recall(stack, storage),
        SpecialOp::DisplayBase(base) => display_base(stack, base, kernel, out),
        SpecialOp::Help => help(stack, out),
    }
}

} // verus!
