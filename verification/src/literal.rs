//! The acceptance grammar for numeric tokens. A normalized token is pushed on
//! the stack as a number exactly when the standard library's `f64` parser
//! accepts it; this module states that format — an optional sign, then either
//! a special word (`inf`, `infinity`, `nan`, case-insensitively) or a decimal
//! mantissa with an optional exponent — and decides it executably. The
//! numeric *value* of an accepted token is the number kernel's business; the
//! library only decides acceptance.

use vstd::prelude::*;
use crate::text::run_from;

verus! {

/// An ASCII decimal digit.
pub open spec fn is_digit_char(c: char) -> bool {
    '0' <= c && c <= '9'
}

/// Whether `c` is an ASCII decimal digit.
#[verifier::when_used_as_spec(is_digit_char)]
pub fn is_digit(c: char) -> (r: bool)
    ensures
        r == is_digit_char(c),
{
    '0' <= c && c <= '9'
}

/// A leading sign character.
pub open spec fn is_sign_char(c: char) -> bool {
    c == '+' || c == '-'
}

/// The digit predicate, for run scanning.
pub open spec fn digit_pred() -> spec_fn(char) -> bool {
    |c: char| is_digit_char(c)
}

/// The ASCII lowercase image of `c`: letters `A`..`Z` map to `a`..`z`,
/// everything else is unchanged.
pub open spec fn lower_ascii_char(c: char) -> char {
    if 'A' <= c && c <= 'Z' {
        ((c as u8) + 32) as char
    } else {
        c
    }
}

/// Lowercases one character, ASCII-only.
#[verifier::when_used_as_spec(lower_ascii_char)]
pub fn lower_ascii(c: char) -> (r: char)
    ensures
        r == lower_ascii_char(c),
{
    if 'A' <= c && c <= 'Z' {
        ((c as u8) + 32) as char
    } else {
        c
    }
}

/// The sequence lowercased character by character, ASCII-only.
pub open spec fn lower_seq(s: Seq<char>) -> Seq<char> {
    Seq::new(s.len(), |i: int| lower_ascii_char(s[i]))
}

/// Whether the unsigned part of a token is one of the special words the
/// `f64` parser accepts: `inf`, `infinity` or `nan`, case-insensitively.
pub open spec fn is_special_body(s: Seq<char>) -> bool {
    ||| lower_seq(s) == seq!['i', 'n', 'f']
    ||| lower_seq(s) == seq!['i', 'n', 'f', 'i', 'n', 'i', 't', 'y']
    ||| lower_seq(s) == seq!['n', 'a', 'n']
}

/// Whether everything from index `j` on is a well-formed exponent suffix:
/// either nothing, or `e`/`E`, an optional sign, and at least one digit
/// reaching the end.
pub open spec fn exponent_ok(s: Seq<char>, j: int) -> bool {
    if j == s.len() {
        true
    } else if 0 <= j < s.len() && (s[j] == 'e' || s[j] == 'E') {
        let k = if j + 1 < s.len() && is_sign_char(s[j + 1]) {
            j + 2
        } else {
            j + 1
        };
        k < s.len() && run_from(s, k, digit_pred()) == s.len()
    } else {
        false
    }
}

/// Whether the unsigned part of a token is a decimal mantissa with an
/// optional exponent: `Digit+ ('.' Digit*)? Exp?` or `'.' Digit+ Exp?`.
pub open spec fn is_decimal_body(s: Seq<char>) -> bool {
    let m = run_from(s, 0, digit_pred());
    if m > 0 {
        if m < s.len() && s[m] == '.' {
            exponent_ok(s, run_from(s, m + 1, digit_pred()))
        } else {
            exponent_ok(s, m)
        }
    } else if s.len() >= 2 && s[0] == '.' {
        let j = run_from(s, 1, digit_pred());
        j > 1 && exponent_ok(s, j)
    } else {
        false
    }
}

/// Whether the `f64` parser accepts `s`: an optional sign followed by a
/// special word or a decimal mantissa with an optional exponent.
pub open spec fn is_float_literal(s: Seq<char>) -> bool {
    let body = if s.len() > 0 && is_sign_char(s[0]) {
        s.skip(1)
    } else {
        s
    };
    is_special_body(body) || is_decimal_body(body)
}

/// A token whose first character (after an optional lone sign) can open
/// neither a mantissa nor a special word is no numeric literal.
pub proof fn lemma_not_float_literal(s: Seq<char>)
    requires
        s.len() > 0,
        is_sign_char(s[0]) ==> s.len() == 1,
        !is_sign_char(s[0]) ==> !is_digit_char(s[0]) && s[0] != '.' && lower_ascii_char(s[0])
            != 'i' && lower_ascii_char(s[0]) != 'n',
    ensures
        !is_float_literal(s),
{
    let body = if s.len() > 0 && is_sign_char(s[0]) {
        s.skip(1)
    } else {
        s
    };
    if is_sign_char(s[0]) {
        assert(body.len() == 0);
        assert(lower_seq(body).len() == 0);
        assert(run_from(body, 0, digit_pred()) == 0);
    } else {
        assert(body == s);
        assert(!digit_pred()(s[0]));
        assert(run_from(body, 0, digit_pred()) == 0);
        assert(lower_seq(body)[0] == lower_ascii_char(s[0]));
        assert(lower_seq(body) != seq!['i', 'n', 'f']);
        assert(lower_seq(body) != seq!['i', 'n', 'f', 'i', 'n', 'i', 't', 'y']);
        assert(lower_seq(body) != seq!['n', 'a', 'n']);
    }
}

/// The first index at or after `i` that holds no digit.
fn digits_end(cs: &Vec<char>, i: usize) -> (r: usize)
    requires
        i <= cs@.len(),
    ensures
        r == run_from(cs@, i as int, digit_pred()),
        i <= r <= cs@.len(),
{
    let n = cs.len();
    let mut j = i;
    while j < n && is_digit(cs[j])
        invariant
            i <= j <= n,
            n == cs@.len(),
            run_from(cs@, i as int, digit_pred()) == run_from(cs@, j as int, digit_pred()),
        decreases n - j,
    {
        proof {
            assert(digit_pred()(cs@[j as int]));
            assert(run_from(cs@, j as int, digit_pred()) == run_from(
                cs@,
                j as int + 1,
                digit_pred(),
            ));
        }
        j = j + 1;
    }
    proof {
        assert(run_from(cs@, j as int, digit_pred()) == j) by {
            if j < n {
                assert(!digit_pred()(cs@[j as int]));
            }
        }
    }
    j
}

/// Decides `exponent_ok` for the character vector `cs` at position `j`.
fn exponent_ok_exec(cs: &Vec<char>, j: usize) -> (r: bool)
    requires
        j <= cs@.len(),
    ensures
        r == exponent_ok(cs@, j as int),
{
    let n = cs.len();
    if j == n {
        return true;
    }
    let c = cs[j];
    if c != 'e' && c != 'E' {
        return false;
    }
    let k = if j + 1 < n && (cs[j + 1] == '+' || cs[j + 1] == '-') {
        j + 2
    } else {
        j + 1
    };
    if k >= n {
        return false;
    }
    let e = digits_end(cs, k);
    e == n
}

/// Decides `is_decimal_body` for the character vector `cs`.
fn is_decimal_body_exec(cs: &Vec<char>) -> (r: bool)
    ensures
        r == is_decimal_body(cs@),
{
    let n = cs.len();
    let m = digits_end(cs, 0);
    if m > 0 {
        if m < n && cs[m] == '.' {
            let j = digits_end(cs, m + 1);
            exponent_ok_exec(cs, j)
        } else {
            exponent_ok_exec(cs, m)
        }
    } else if n >= 2 && cs[0] == '.' {
        let j = digits_end(cs, 1);
        if j > 1 {
            exponent_ok_exec(cs, j)
        } else {
            false
        }
    } else {
        false
    }
}

/// Decides `is_special_body` for the character vector `cs`.
fn is_special_body_exec(cs: &Vec<char>) -> (r: bool)
    ensures
        r == is_special_body(cs@),
{
    let n = cs.len();
    if n == 3 {
        let c0 = lower_ascii(cs[0]);
        let c1 = lower_ascii(cs[1]);
        let c2 = lower_ascii(cs[2]);
        let inf = c0 == 'i' && c1 == 'n' && c2 == 'f';
        let nan = c0 == 'n' && c1 == 'a' && c2 == 'n';
        proof {
            if inf {
                assert(lower_seq(cs@) =~= seq!['i', 'n', 'f']);
            } else {
                assert(lower_seq(cs@) != seq!['i', 'n', 'f']) by {
                    assert(lower_seq(cs@)[0] == c0 && lower_seq(cs@)[1] == c1 && lower_seq(cs@)[2]
                        == c2);
                }
            }
            if nan {
                assert(lower_seq(cs@) =~= seq!['n', 'a', 'n']);
            } else {
                assert(lower_seq(cs@) != seq!['n', 'a', 'n']) by {
                    assert(lower_seq(cs@)[0] == c0 && lower_seq(cs@)[1] == c1 && lower_seq(cs@)[2]
                        == c2);
                }
            }
            assert(lower_seq(cs@).len() == 3);
        }
        inf || nan
    } else if n == 8 {
        let mut ok = true;
        let word: [char; 8] = ['i', 'n', 'f', 'i', 'n', 'i', 't', 'y'];
        let mut i: usize = 0;
        let ghost target = seq!['i', 'n', 'f', 'i', 'n', 'i', 't', 'y'];
        while i < 8
            invariant
                i <= 8,
                cs@.len() == 8,
                word@ == target,
                ok == (forall|m: int| 0 <= m < i ==> lower_seq(cs@)[m] == target[m]),
            decreases 8 - i,
        {
            let wi = word[i];
            let li = lower_ascii(cs[i]);
            proof {
                assert(lower_seq(cs@)[i as int] == lower_ascii_char(cs@[i as int]));
            }
            ok = ok && li == wi;
            i = i + 1;
        }
        proof {
            if ok {
                assert(lower_seq(cs@) =~= target);
            } else {
                assert(lower_seq(cs@) != target);
            }
            assert(lower_seq(cs@).len() == 8);
        }
        ok
    } else {
        proof {
            assert(lower_seq(cs@).len() == cs@.len());
        }
        false
    }
}

/// Decides whether the `f64` parser accepts `s`.
pub fn is_float_literal_str(s: &str) -> (r: bool)
    ensures
        r == is_float_literal(s@),
{
    let cs = crate::text::chars_of(s);
    let n = cs.len();
    let signed = n > 0 && (cs[0] == '+' || cs[0] == '-');
    let mut body: Vec<char> = Vec::new();
    let mut i: usize = if signed {
        1
    } else {
        0
    };
    let ghost start = i as int;
    while i < n
        invariant
            0 <= start <= i <= n,
            start == if signed { 1int } else { 0int },
            n == cs@.len(),
            cs@ == s@,
            body@ == cs@.subrange(start, i as int),
        decreases n - i,
    {
        body.push(cs[i]);
        i = i + 1;
        proof {
            assert(cs@.subrange(start, i as int) =~= cs@.subrange(start, i - 1).push(cs@[i - 1]));
        }
    }
    proof {
        if signed {
            assert(body@ =~= s@.skip(1));
        } else {
            assert(body@ =~= s@);
        }
    }
    let special = is_special_body_exec(&body);
    let decimal = is_decimal_body_exec(&body);
    special || decimal
}

} // verus!
