//! Two-operand operations. The top of the stack is popped as the right
//! operand `b`, the next item as the left operand `a`, and `op(a, b)` is
//! pushed, for a net length change of minus one. On any failure — too few
//! operands, or an operand that is a key — everything popped is pushed back
//! in its original order, so the stack is exactly what it was before the
//! call.

use vstd::prelude::*;
use crate::CalcError;
use crate::ItemView;
use crate::NumberKernel;
use crate::StackItem;
use crate::stack_model;
use crate::registry::BinaryOp;

verus! {

/// How a binary operation relates the stack before (`s0`) and after (`s1`):
/// it succeeds exactly when the two top slots hold numbers, replacing them
/// with one kernel result; every failure leaves the stack unchanged.
pub open spec fn binary_post(s0: Seq<ItemView>, s1: Seq<ItemView>, r: Result<(), CalcError>) -> bool {
    if s0.len() == 0 {
        r == Err::<(), CalcError>(CalcError::StackUnderflow) && s1 == s0
    } else if !(s0.last() is Number) {
        r == Err::<(), CalcError>(CalcError::TypeMismatch) && s1 == s0
    } else if s0.len() == 1 {
        r == Err::<(), CalcError>(CalcError::StackUnderflow) && s1 == s0
    } else if !(s0[s0.len() - 2] is Number) {
        r == Err::<(), CalcError>(CalcError::TypeMismatch) && s1 == s0
    } else {
        r == Ok::<(), CalcError>(()) && exists|v: u64|
            s1 == s0.drop_last().drop_last().push(ItemView::Number(v))
    }
}

/// Pops `b`, then `a` (both must be numbers), and pushes `op(a, b)`. On
/// failure every popped item is restored, in its original order.
pub fn calculate<K: NumberKernel>(stack: &mut Vec<StackItem>, op: BinaryOp, kernel: &K) -> (r:
    Result<(), CalcError>)
    ensures
        binary_post(stack_model(old(stack)@), stack_model(final(stack)@), r),
{
    proof {
        if stack@.len() > 0 {
            assert(stack_model(stack@)[stack@.len() - 1] == stack@[stack@.len() - 1]@);
        }
    }
    let b = match stack.pop() {
        None => {
            return Err(CalcError::StackUnderflow);
        },
        Some(StackItem::Key(k)) => {
            stack.push(StackItem::Key(k));
            proof {
                assert(stack_model(stack@) =~= stack_model(old(stack)@));
            }
            return Err(CalcError::TypeMismatch);
        },
        Some(StackItem::Number(v)) => v,
    };
    proof {
        if stack@.len() > 0 {
            assert(stack_model(old(stack)@)[stack@.len() - 1] == stack@[stack@.len() - 1]@);
        }
    }
    let a = match stack.pop() {
        None => {
            stack.push(StackItem::Number(b));
            proof {
                assert(stack_model(stack@) =~= stack_model(old(stack)@));
            }
            return Err(CalcError::StackUnderflow);
        },
        Some(StackItem::Key(k)) => {
            stack.push(StackItem::Key(k));
            stack.push(StackItem::Number(b));
            proof {
                assert(stack_model(stack@) =~= stack_model(old(stack)@));
            }
            return Err(CalcError::TypeMismatch);
        },
        Some(StackItem::Number(v)) => v,
    };
    let v = kernel.apply_binary(op, a, b);
    stack.push(StackItem::Number(v));
    proof {
        assert(stack_model(stack@) =~= stack_model(old(stack)@).drop_last().drop_last().push(
            ItemView::Number(v),
        ));
    }
    Ok(())
}

} // verus!
