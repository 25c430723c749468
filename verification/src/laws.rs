//! The evaluation discipline's laws, stated and proved over the token
//! relation `process_post`: what every caller of `process_token` may rely on
//! without reading any handler.

use vstd::prelude::*;
use crate::CalcError;
use crate::ItemView;
use crate::OutputView;
use crate::is_quoted_key;
use crate::process_post;
use crate::spec_clean;
use crate::spec_normalize_char;
use crate::binary::binary_post;
use crate::literal::is_float_literal;
use crate::literal::is_sign_char;
use crate::literal::is_digit_char;
use crate::literal::lower_ascii_char;
use crate::literal::lemma_not_float_literal;
use crate::registry::BinaryOp;
use crate::registry::OperatorAction;
use crate::registry::SpecialOp;
use crate::registry::UnaryOp;
use crate::registry::spec_lookup;
use crate::special::combinatoric_post;
use crate::special::factorial_post;
use crate::special::recall_post;
use crate::special::store_post;
use crate::special::swap_post;
use crate::unary::unary_post;

verus! {

/// Normalization leaves a token without mapped digits, mapped separators or
/// commas exactly as it is.
pub proof fn lemma_clean_plain(s: Seq<char>)
    requires
        forall|i: int|
            0 <= i < s.len() ==> spec_normalize_char(#[trigger] s[i]) == s[i] && s[i] != ',',
    ensures
        spec_clean(s) == s,
    decreases s.len(),
{
    if s.len() == 0 {
        assert(spec_clean(s) =~= s);
    } else {
        assert(forall|i: int|
            0 <= i < s.drop_last().len() ==> spec_normalize_char(#[trigger] s.drop_last()[i])
                == s.drop_last()[i] && s.drop_last()[i] != ',');
        lemma_clean_plain(s.drop_last());
        assert(spec_normalize_char(s.last()) == s.last());
        assert(spec_clean(s) =~= s);
    }
}

/// A token made of plain characters, not opening like a number, is neither a
/// quoted key nor a numeric literal once cleaned.
proof fn registered_case(t: Seq<char>)
    requires
        t.len() >= 1,
        forall|i: int|
            0 <= i < t.len() ==> spec_normalize_char(#[trigger] t[i]) == t[i] && t[i] != ',',
        t[0] != '"',
        is_sign_char(t[0]) ==> t.len() == 1,
        !is_sign_char(t[0]) ==> !is_digit_char(t[0]) && t[0] != '.' && lower_ascii_char(t[0])
            != 'i' && lower_ascii_char(t[0]) != 'n',
    ensures
        !is_quoted_key(t),
        !is_float_literal(spec_clean(t)),
{
    lemma_clean_plain(t);
    lemma_not_float_literal(t);
}

/// A registered token reaches the registry: it is neither a quoted key nor a
/// numeric literal, so processing it always dispatches its operator.
pub proof fn lemma_registered_token_is_operator(t: Seq<char>)
    requires
        spec_lookup(t) is Some,
    ensures
        !is_quoted_key(t),
        !is_float_literal(spec_clean(t)),
{
    reveal_strlit("+");
    reveal_strlit("-");
    reveal_strlit("*");
    reveal_strlit("/");
    reveal_strlit("**");
    reveal_strlit("%");
    reveal_strlit("%%");
    reveal_strlit("log");
    reveal_strlit("atan2");
    reveal_strlit("pi");
    reveal_strlit("e");
    reveal_strlit("sqrt");
    reveal_strlit("sin");
    reveal_strlit("cos");
    reveal_strlit("tan");
    reveal_strlit("acos");
    reveal_strlit("asin");
    reveal_strlit("atan");
    reveal_strlit("exp");
    reveal_strlit("ceil");
    reveal_strlit("floor");
    reveal_strlit("deg");
    reveal_strlit("rad");
    reveal_strlit("!");
    reveal_strlit("P");
    reveal_strlit("C");
    reveal_strlit("<>");
    reveal_strlit("c");
    reveal_strlit("a");
    reveal_strlit("sto");
    reveal_strlit("rcl");
    reveal_strlit("hex");
    reveal_strlit("bin");
    reveal_strlit("oct");
    reveal_strlit("help");
    if t == "+"@ {
        registered_case(t);
    } else if t == "-"@ {
        registered_case(t);
    } else if t == "*"@ {
        registered_case(t);
    } else if t == "/"@ {
        registered_case(t);
    } else if t == "**"@ {
        registered_case(t);
    } else if t == "%"@ {
        registered_case(t);
    } else if t == "%%"@ {
        registered_case(t);
    } else if t == "log"@ {
        registered_case(t);
    } else if t == "atan2"@ {
        registered_case(t);
    } else if t == "pi"@ {
        registered_case(t);
    } else if t == "e"@ {
        registered_case(t);
    } else if t == "sqrt"@ {
        registered_case(t);
    } else if t == "sin"@ {
        registered_case(t);
    } else if t == "cos"@ {
        registered_case(t);
    } else if t == "tan"@ {
        registered_case(t);
    } else if t == "acos"@ {
        registered_case(t);
    } else if t == "asin"@ {
        registered_case(t);
    } else if t == "atan"@ {
        registered_case(t);
    } else if t == "exp"@ {
        registered_case(t);
    } else if t == "ceil"@ {
        registered_case(t);
    } else if t == "floor"@ {
        registered_case(t);
    } else if t == "deg"@ {
        registered_case(t);
    } else if t == "rad"@ {
        registered_case(t);
    } else if t == "!"@ {
        registered_case(t);
    } else if t == "P"@ {
        registered_case(t);
    } else if t == "C"@ {
        registered_case(t);
    } else if t == "<>"@ {
        registered_case(t);
    } else if t == "c"@ {
        registered_case(t);
    } else if t == "a"@ {
        registered_case(t);
    } else if t == "sto"@ {
        registered_case(t);
    } else if t == "rcl"@ {
        registered_case(t);
    } else if t == "hex"@ {
        registered_case(t);
    } else if t == "bin"@ {
        registered_case(t);
    } else if t == "oct"@ {
        registered_case(t);
    } else if t == "help"@ {
        registered_case(t);
    } else {
        assert(spec_lookup(t) is None);
    }
}

/// Binary-operator restore law: a binary operator invoked on a stack of
/// fewer than two slots fails, and the stack, the storage, the last answer
/// and the output afterwards equal what they were before — length and
/// contents alike.
pub proof fn lemma_binary_restore_on_underflow(
    t: Seq<char>,
    op: BinaryOp,
    s0: Seq<ItemView>,
    st0: Map<Seq<char>, u64>,
    la0: Option<u64>,
    o0: Seq<OutputView>,
    s1: Seq<ItemView>,
    st1: Map<Seq<char>, u64>,
    la1: Option<u64>,
    o1: Seq<OutputView>,
    r: Result<(), CalcError>,
)
    requires
        process_post(t, s0, st0, la0, o0, s1, st1, la1, o1, r),
        spec_lookup(t) == Some(OperatorAction::Binary(op)),
        s0.len() < 2,
    ensures
        r is Err,
        s1 == s0,
        st1 == st0,
        la1 == la0,
        o1 == o0,
{
    lemma_registered_token_is_operator(t);
}

/// Unary-operator non-mutation law: a unary operator invoked on an empty
/// stack or on a stack whose top is a key fails and leaves every part of the
/// session state completely unchanged.
pub proof fn lemma_unary_failure_preserves_state(
    t: Seq<char>,
    op: UnaryOp,
    s0: Seq<ItemView>,
    st0: Map<Seq<char>, u64>,
    la0: Option<u64>,
    o0: Seq<OutputView>,
    s1: Seq<ItemView>,
    st1: Map<Seq<char>, u64>,
    la1: Option<u64>,
    o1: Seq<OutputView>,
    r: Result<(), CalcError>,
)
    requires
        process_post(t, s0, st0, la0, o0, s1, st1, la1, o1, r),
        spec_lookup(t) == Some(OperatorAction::Unary(op)),
        s0.len() == 0 || !(s0.last() is Number),
    ensures
        r is Err,
        s1 == s0,
        st1 == st0,
        la1 == la0,
        o1 == o0,
{
    lemma_registered_token_is_operator(t);
}

/// Length-delta law: on success, a quoted key or a numeric literal or a
/// constant pushes one slot; a unary operator, swap, factorial, recall and
/// the display operations keep the length; a binary operator, permutations
/// and combinations drop one; store drops two; clear empties the stack; and
/// help consumes at most the key it resolves.
pub proof fn lemma_success_length_deltas(
    t: Seq<char>,
    s0: Seq<ItemView>,
    st0: Map<Seq<char>, u64>,
    la0: Option<u64>,
    o0: Seq<OutputView>,
    s1: Seq<ItemView>,
    st1: Map<Seq<char>, u64>,
    la1: Option<u64>,
    o1: Seq<OutputView>,
    r: Result<(), CalcError>,
)
    requires
        process_post(t, s0, st0, la0, o0, s1, st1, la1, o1, r),
        r is Ok,
    ensures
        is_quoted_key(t) ==> s1.len() == s0.len() + 1,
        !is_quoted_key(t) && is_float_literal(spec_clean(t)) ==> s1.len() == s0.len() + 1,
        spec_lookup(t) matches Some(OperatorAction::PushConstant(_)) ==> s1.len() == s0.len() + 1,
        spec_lookup(t) matches Some(OperatorAction::Unary(_)) ==> s1.len() == s0.len(),
        spec_lookup(t) matches Some(OperatorAction::Binary(_)) ==> s1.len() == s0.len() - 1,
        spec_lookup(t) == Some(OperatorAction::Special(SpecialOp::Swap)) ==> s1.len() == s0.len(),
        spec_lookup(t) == Some(OperatorAction::Special(SpecialOp::Clear)) ==> s1.len() == 0,
        spec_lookup(t) == Some(OperatorAction::Special(SpecialOp::Factorial)) ==> s1.len()
            == s0.len(),
        spec_lookup(t) == Some(OperatorAction::Special(SpecialOp::Permutations)) ==> s1.len()
            == s0.len() - 1,
        spec_lookup(t) == Some(OperatorAction::Special(SpecialOp::Combinations)) ==> s1.len()
            == s0.len() - 1,
        spec_lookup(t) == Some(OperatorAction::Special(SpecialOp::Store)) ==> s1.len() == s0.len()
            - 2,
        spec_lookup(t) == Some(OperatorAction::Special(SpecialOp::Recall)) ==> s1.len()
            == s0.len(),
        spec_lookup(t) == Some(OperatorAction::Special(SpecialOp::Answer)) ==> s1.len() == s0.len()
            + 1,
        (spec_lookup(t) matches Some(OperatorAction::Special(SpecialOp::DisplayBase(_)))) ==> s1
            == s0,
{
    if spec_lookup(t) is Some {
        lemma_registered_token_is_operator(t);
    }
}

/// Store/recall round-trip law: storing a value under a key and recalling
/// that key succeeds and leaves the stored value on top of the stack, with
/// the binding recorded in storage.
pub proof fn lemma_store_recall_round_trip(
    s: Seq<ItemView>,
    st: Map<Seq<char>, u64>,
    la: Option<u64>,
    o: Seq<OutputView>,
    v: u64,
    k: Seq<char>,
    s1: Seq<ItemView>,
    st1: Map<Seq<char>, u64>,
    la1: Option<u64>,
    o1: Seq<OutputView>,
    r1: Result<(), CalcError>,
    s2: Seq<ItemView>,
    st2: Map<Seq<char>, u64>,
    la2: Option<u64>,
    o2: Seq<OutputView>,
    r2: Result<(), CalcError>,
)
    requires
        process_post(
            "sto"@,
            s.push(ItemView::Number(v)).push(ItemView::Key(k)),
            st,
            la,
            o,
            s1,
            st1,
            la1,
            o1,
            r1,
        ),
        process_post("rcl"@, s1.push(ItemView::Key(k)), st1, la1, o1, s2, st2, la2, o2, r2),
    ensures
        r1 == Ok::<(), CalcError>(()),
        r2 == Ok::<(), CalcError>(()),
        st1 == st.insert(k, v),
        st2 == st1,
        s2 == s.push(ItemView::Number(v)),
{
    lemma_lookup_memory_tokens();
    lemma_registered_token_is_operator("sto"@);
    lemma_registered_token_is_operator("rcl"@);
    let s0 = s.push(ItemView::Number(v)).push(ItemView::Key(k));
    assert(s0.last() == ItemView::Key(k));
    assert(s0[s0.len() - 2] == ItemView::Number(v));
    assert(s0.drop_last().drop_last() =~= s);
    assert(s1 == s);
    let s0r = s1.push(ItemView::Key(k));
    assert(s0r.last() == ItemView::Key(k));
    assert(st1.contains_key(k) && st1[k] == v);
    assert(s2 == s0r.update(s0r.len() - 1, ItemView::Number(v)));
    assert(s2 =~= s.push(ItemView::Number(v)));
}

/// The memory tokens resolve to the store and recall operations.
pub proof fn lemma_lookup_memory_tokens()
    ensures
        spec_lookup("sto"@) == Some(OperatorAction::Special(SpecialOp::Store)),
        spec_lookup("rcl"@) == Some(OperatorAction::Special(SpecialOp::Recall)),
{
    reveal_strlit("+");
    reveal_strlit("-");
    reveal_strlit("*");
    reveal_strlit("/");
    reveal_strlit("**");
    reveal_strlit("%");
    reveal_strlit("%%");
    reveal_strlit("log");
    reveal_strlit("atan2");
    reveal_strlit("pi");
    reveal_strlit("e");
    reveal_strlit("sqrt");
    reveal_strlit("sin");
    reveal_strlit("cos");
    reveal_strlit("tan");
    reveal_strlit("acos");
    reveal_strlit("asin");
    reveal_strlit("atan");
    reveal_strlit("exp");
    reveal_strlit("ceil");
    reveal_strlit("floor");
    reveal_strlit("deg");
    reveal_strlit("rad");
    reveal_strlit("!");
    reveal_strlit("P");
    reveal_strlit("C");
    reveal_strlit("<>");
    reveal_strlit("c");
    reveal_strlit("a");
    reveal_strlit("sto");
    reveal_strlit("rcl");
    lemma_seq_neq_at("sto"@, "log"@, 0);
    lemma_seq_neq_at("sto"@, "sin"@, 1);
    lemma_seq_neq_at("sto"@, "cos"@, 0);
    lemma_seq_neq_at("sto"@, "tan"@, 0);
    lemma_seq_neq_at("sto"@, "exp"@, 0);
    lemma_seq_neq_at("sto"@, "deg"@, 0);
    lemma_seq_neq_at("sto"@, "rad"@, 0);
    lemma_seq_neq_at("rcl"@, "log"@, 0);
    lemma_seq_neq_at("rcl"@, "sin"@, 0);
    lemma_seq_neq_at("rcl"@, "cos"@, 0);
    lemma_seq_neq_at("rcl"@, "tan"@, 0);
    lemma_seq_neq_at("rcl"@, "exp"@, 0);
    lemma_seq_neq_at("rcl"@, "deg"@, 0);
    lemma_seq_neq_at("rcl"@, "rad"@, 1);
    lemma_seq_neq_at("rcl"@, "sto"@, 0);
    assert("+"@.len() == 1);
    assert("-"@.len() == 1);
    assert("*"@.len() == 1);
    assert("/"@.len() == 1);
    assert("**"@.len() == 2);
    assert("%"@.len() == 1);
    assert("%%"@.len() == 2);
    assert("log"@.len() == 3);
    assert("atan2"@.len() == 5);
    assert("pi"@.len() == 2);
    assert("e"@.len() == 1);
    assert("sqrt"@.len() == 4);
    assert("sin"@.len() == 3);
    assert("cos"@.len() == 3);
    assert("tan"@.len() == 3);
    assert("acos"@.len() == 4);
    assert("asin"@.len() == 4);
    assert("atan"@.len() == 4);
    assert("exp"@.len() == 3);
    assert("ceil"@.len() == 4);
    assert("floor"@.len() == 5);
    assert("deg"@.len() == 3);
    assert("rad"@.len() == 3);
    assert("!"@.len() == 1);
    assert("P"@.len() == 1);
    assert("C"@.len() == 1);
    assert("<>"@.len() == 2);
    assert("c"@.len() == 1);
    assert("a"@.len() == 1);
    assert("sto"@.len() == 3);
    assert("rcl"@.len() == 3);
}

/// Sequences that differ at one index differ.
proof fn lemma_seq_neq_at(a: Seq<char>, b: Seq<char>, i: int)
    requires
        0 <= i < a.len(),
        0 <= i < b.len(),
        a[i] != b[i],
    ensures
        a != b,
{
    if a == b {
        assert(a[i] == b[i]);
    }
}

} // verus!
