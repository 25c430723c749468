//! One-operand operations: the registered unary function is applied to the
//! stack top in place. The check is a peek, not a pop, so a failed unary
//! operation leaves the stack completely untouched.

use vstd::prelude::*;
use crate::CalcError;
use crate::ItemView;
use crate::NumberKernel;
use crate::StackItem;
use crate::stack_model;
use crate::registry::UnaryOp;

verus! {

/// How a unary operation relates the stack before (`s0`) and after (`s1`):
/// an empty stack underflows and a key on top mismatches, both without any
/// mutation; otherwise the top is replaced in place by some kernel result.
pub open spec fn unary_post(s0: Seq<ItemView>, s1: Seq<ItemView>, r: Result<(), CalcError>) -> bool {
    if s0.len() == 0 {
        r == Err::<(), CalcError>(CalcError::StackUnderflow) && s1 == s0
    } else if !(s0.last() is Number) {
        r == Err::<(), CalcError>(CalcError::TypeMismatch) && s1 == s0
    } else {
        r == Ok::<(), CalcError>(()) && exists|v: u64|
            s1 == s0.update(s0.len() - 1, ItemView::Number(v))
    }
}

/// Applies a unary operation to the top number on the stack, in place.
/// The stack's length never changes, and on failure nothing changes at all.
pub fn calculate<K: NumberKernel>(stack: &mut Vec<StackItem>, op: UnaryOp, kernel: &K) -> (r:
    Result<(), CalcError>)
    ensures
        unary_post(stack_model(old(stack)@), stack_model(final(stack)@), r),
{
    let n = stack.len();
    if n == 0 {
        return Err(CalcError::StackUnderflow);
    }
    proof {
        assert(stack_model(stack@)[n - 1] == stack@[n - 1]@);
    }
    let top: Option<u64> = match &stack[n - 1] {
        StackItem::Number(x) => Some(*x),
        _ => None,
    };
    match top {
        None => Err(CalcError::TypeMismatch),
        Some(x) => {
            let v = kernel.apply_unary(op, x);
            stack.pop();
            stack.push(StackItem::Number(v));
            proof {
                assert(stack_model(stack@) =~= stack_model(old(stack)@).update(
                    old(stack)@.len() - 1,
                    ItemView::Number(v),
                ));
            }
            Ok(())
        },
    }
}

} // verus!
