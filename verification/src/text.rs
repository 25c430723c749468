//! Character-level utilities shared by the tokenizer-facing parts of the
//! calculator: exact string comparison, run trimming (used both for quote
//! stripping and for whitespace trimming), comment stripping, and the one
//! Unicode case-folding call the help handler needs.

use vstd::prelude::*;
use vstd::string::StrSliceExecFns;
use vstd::string::StringExecFns;

verus! {

/// The characters of `s`, in order, as a vector.
pub fn chars_of(s: &str) -> (v: Vec<char>)
    ensures
        v@ == s@,
{
    let n = s.unicode_len();
    let mut v: Vec<char> = Vec::new();
    let mut i: usize = 0;
    while i < n
        invariant
            i <= n,
            n == s@.len(),
            v@ == s@.take(i as int),
        decreases n - i,
    {
        v.push(s.get_char(i));
        i = i + 1;
        assert(s@.take(i as int) =~= s@.take(i - 1).push(s@[i - 1]));
    }
    assert(v@ =~= s@);
    v
}

/// Whether two string slices hold the same characters.
pub fn str_eq(a: &str, b: &str) -> (r: bool)
    ensures
        r == (a@ == b@),
{
    let sa = String::from_str(a);
    let sb = String::from_str(b);
    sa == sb
}

/// Relies on `String::push`: appends one character to the end of the string.
#[verifier::external_body]
pub(crate) fn push_char(s: &mut String, c: char)
    ensures
        final(s)@ == old(s)@.push(c),
{
    s.push(c);
}

/// The first index at or after `i` whose character does not satisfy `p`
/// (or the length of `s` if every remaining character satisfies it).
pub open spec fn run_from(s: Seq<char>, i: int, p: spec_fn(char) -> bool) -> int
    decreases s.len() - i,
{
    if 0 <= i < s.len() && p(s[i]) {
        run_from(s, i + 1, p)
    } else {
        i
    }
}

/// The least index `r <= j` such that every character in `s[r..j]`
/// satisfies `p`.
pub open spec fn run_upto(s: Seq<char>, j: int, p: spec_fn(char) -> bool) -> int
    decreases j,
{
    if 0 < j <= s.len() && p(s[j - 1]) {
        run_upto(s, j - 1, p)
    } else {
        j
    }
}

/// `s` with its longest leading and trailing runs of characters satisfying
/// `p` removed; empty when every character satisfies `p`.
pub open spec fn trim_runs(s: Seq<char>, p: spec_fn(char) -> bool) -> Seq<char> {
    let a = run_from(s, 0, p);
    if a == s.len() {
        Seq::empty()
    } else {
        s.subrange(a, run_upto(s, s.len() as int, p))
    }
}

pub proof fn lemma_run_from(s: Seq<char>, i: int, p: spec_fn(char) -> bool)
    requires
        0 <= i <= s.len(),
    ensures
        i <= run_from(s, i, p) <= s.len(),
        run_from(s, i, p) < s.len() ==> !p(s[run_from(s, i, p)]),
        forall|m: int| i <= m < run_from(s, i, p) ==> p(s[m]),
    decreases s.len() - i,
{
    if 0 <= i < s.len() && p(s[i]) {
        lemma_run_from(s, i + 1, p);
    }
}

pub proof fn lemma_run_upto(s: Seq<char>, j: int, p: spec_fn(char) -> bool)
    requires
        0 <= j <= s.len(),
    ensures
        0 <= run_upto(s, j, p) <= j,
        run_upto(s, j, p) > 0 ==> !p(s[run_upto(s, j, p) - 1]),
        forall|m: int| run_upto(s, j, p) <= m < j ==> p(s[m]),
    decreases j,
{
    if 0 < j <= s.len() && p(s[j - 1]) {
        lemma_run_upto(s, j - 1, p);
    }
}

/// When some character before `j` fails `p`, the trailing run cannot reach
/// below it.
pub proof fn lemma_run_upto_above(s: Seq<char>, j: int, p: spec_fn(char) -> bool, a: int)
    requires
        0 <= a < j <= s.len(),
        !p(s[a]),
    ensures
        run_upto(s, j, p) > a,
{
    lemma_run_upto(s, j, p);
    if run_upto(s, j, p) <= a {
        assert(p(s[a]));
    }
}

/// The predicate trimmed away by quote stripping.
pub open spec fn quote_pred() -> spec_fn(char) -> bool {
    |c: char| c == '"'
}

/// `s` with every leading and trailing quote character removed, as
/// `str::trim_matches('"')` leaves it.
pub open spec fn spec_trim_quotes(s: Seq<char>) -> Seq<char> {
    trim_runs(s, quote_pred())
}

/// Strips all leading and trailing `"` characters from `s`.
pub fn trim_quotes(s: &str) -> (r: String)
    ensures
        r@ == spec_trim_quotes(s@),
{
    let cs = chars_of(s);
    let n = cs.len();
    let mut a: usize = 0;
    while a < n && cs[a] == '"'
        invariant
            0 <= a <= n,
            n == s@.len(),
            cs@ == s@,
            run_from(s@, 0, quote_pred()) == run_from(s@, a as int, quote_pred()),
        decreases n - a,
    {
        proof {
            assert(quote_pred()(s@[a as int]));
            assert(run_from(s@, a as int, quote_pred()) == run_from(
                s@,
                a as int + 1,
                quote_pred(),
            ));
        }
        a = a + 1;
    }
    proof {
        lemma_run_from(s@, a as int, quote_pred());
        assert(run_from(s@, a as int, quote_pred()) == a);
    }
    if a == n {
        let r = String::new();
        proof {
            assert(r@ =~= spec_trim_quotes(s@));
        }
        return r;
    }
    let mut b: usize = n;
    while b > 0 && cs[b - 1] == '"'
        invariant
            0 <= b <= n,
            n == s@.len(),
            cs@ == s@,
            run_upto(s@, n as int, quote_pred()) == run_upto(s@, b as int, quote_pred()),
        decreases b,
    {
        proof {
            assert(quote_pred()(s@[b - 1]));
            assert(run_upto(s@, b as int, quote_pred()) == run_upto(
                s@,
                b as int - 1,
                quote_pred(),
            ));
        }
        b = b - 1;
    }
    proof {
        lemma_run_upto(s@, b as int, quote_pred());
        assert(run_upto(s@, b as int, quote_pred()) == b);
        assert(!quote_pred()(s@[a as int]));
        lemma_run_upto_above(s@, n as int, quote_pred(), a as int);
        assert(a < b);
    }
    let piece = s.substring_char(a, b);
    let r = String::from_str(piece);
    proof {
        assert(r@ =~= spec_trim_quotes(s@));
    }
    r
}

/// The characters with the Unicode `White_Space` property: what
/// `char::is_whitespace` accepts.
pub open spec fn is_space_char(c: char) -> bool {
    ||| c == ' '
    ||| c == '\t'
    ||| c == '\n'
    ||| c == '\u{000B}'
    ||| c == '\u{000C}'
    ||| c == '\r'
    ||| c == '\u{0085}'
    ||| c == '\u{00A0}'
    ||| c == '\u{1680}'
    ||| ('\u{2000}' <= c && c <= '\u{200A}')
    ||| c == '\u{2028}'
    ||| c == '\u{2029}'
    ||| c == '\u{202F}'
    ||| c == '\u{205F}'
    ||| c == '\u{3000}'
}

/// Whether `c` is a whitespace character.
#[verifier::when_used_as_spec(is_space_char)]
pub fn is_space(c: char) -> (r: bool)
    ensures
        r == is_space_char(c),
{
    c == ' ' || c == '\t' || c == '\n' || c == '\u{000B}' || c == '\u{000C}' || c == '\r'
        || c == '\u{0085}' || c == '\u{00A0}' || c == '\u{1680}' || ('\u{2000}' <= c && c
        <= '\u{200A}') || c == '\u{2028}' || c == '\u{2029}' || c == '\u{202F}' || c == '\u{205F}'
        || c == '\u{3000}'
}

/// The whitespace predicate, for run trimming.
pub open spec fn space_pred() -> spec_fn(char) -> bool {
    |c: char| is_space_char(c)
}

/// The predicate satisfied by everything before a comment marker.
pub open spec fn not_hash_pred() -> spec_fn(char) -> bool {
    |c: char| c != '#'
}

/// An input line reduced to its calculator content: everything from the first
/// `#` on is discarded, and surrounding whitespace is trimmed away.
pub open spec fn spec_strip_comment(s: Seq<char>) -> Seq<char> {
    let cut = s.take(run_from(s, 0, not_hash_pred()));
    trim_runs(cut, space_pred())
}

/// Removes a trailing `#`-comment from an input line and trims whitespace
/// from both ends of what is left.
pub fn strip_comment(line: &str) -> (r: String)
    ensures
        r@ == spec_strip_comment(line@),
{
    let cs = chars_of(line);
    let n = cs.len();
    let mut h: usize = 0;
    while h < n && cs[h] != '#'
        invariant
            0 <= h <= n,
            n == line@.len(),
            cs@ == line@,
            run_from(line@, 0, not_hash_pred()) == run_from(line@, h as int, not_hash_pred()),
        decreases n - h,
    {
        proof {
            assert(not_hash_pred()(line@[h as int]));
            assert(run_from(line@, h as int, not_hash_pred()) == run_from(
                line@,
                h as int + 1,
                not_hash_pred(),
            ));
        }
        h = h + 1;
    }
    proof {
        lemma_run_from(line@, h as int, not_hash_pred());
        assert(run_from(line@, h as int, not_hash_pred()) == h);
    }
    let ghost cut = line@.take(h as int);
    let mut a: usize = 0;
    while a < h && is_space(cs[a])
        invariant
            0 <= a <= h <= n,
            n == line@.len(),
            cs@ == line@,
            cut == line@.take(h as int),
            run_from(cut, 0, space_pred()) == run_from(cut, a as int, space_pred()),
        decreases h - a,
    {
        proof {
            assert(space_pred()(cut[a as int]));
            assert(run_from(cut, a as int, space_pred()) == run_from(
                cut,
                a as int + 1,
                space_pred(),
            ));
        }
        a = a + 1;
    }
    proof {
        lemma_run_from(cut, a as int, space_pred());
        assert(run_from(cut, a as int, space_pred()) == a);
    }
    if a == h {
        let r = String::new();
        proof {
            assert(r@ =~= spec_strip_comment(line@));
        }
        return r;
    }
    proof {
        assert(!space_pred()(cut[a as int]));
    }
    let mut b: usize = h;
    while b > 0 && is_space(cs[b - 1])
        invariant
            a < b <= h <= n,
            n == line@.len(),
            cs@ == line@,
            cut == line@.take(h as int),
            a < h,
            !space_pred()(cut[a as int]),
            run_upto(cut, h as int, space_pred()) == run_upto(cut, b as int, space_pred()),
        decreases b,
    {
        proof {
            assert(space_pred()(cut[b - 1]));
            assert(run_upto(cut, b as int, space_pred()) == run_upto(
                cut,
                b as int - 1,
                space_pred(),
            ));
        }
        b = b - 1;
    }
    proof {
        lemma_run_upto(cut, b as int, space_pred());
        assert(run_upto(cut, b as int, space_pred()) == b);
        lemma_run_upto_above(cut, h as int, space_pred(), a as int);
        assert(a < b);
    }
    let piece = line.substring_char(a, b);
    let r = String::from_str(piece);
    proof {
        assert(r@ =~= spec_strip_comment(line@));
    }
    r
}

/// The predicate satisfied inside a token.
pub open spec fn non_space_pred() -> spec_fn(char) -> bool {
    |c: char| !is_space_char(c)
}

/// The whitespace-delimited tokens of `s` from position `i` on: maximal
/// whitespace-free runs, in order.
pub open spec fn tokens_from(s: Seq<char>, i: int) -> Seq<Seq<char>>
    decreases s.len() - i,
    when 0 <= i <= s.len()
    via tokens_from_decreases
{
    let a = run_from(s, i, space_pred());
    if a >= s.len() {
        Seq::empty()
    } else {
        let b = run_from(s, a, non_space_pred());
        seq![s.subrange(a, b)] + tokens_from(s, b)
    }
}

#[via_fn]
proof fn tokens_from_decreases(s: Seq<char>, i: int) {
    lemma_run_from(s, i, space_pred());
    let a = run_from(s, i, space_pred());
    if a < s.len() {
        lemma_run_from(s, a, non_space_pred());
        assert(non_space_pred()(s[a]));
        assert(run_from(s, a, non_space_pred()) == run_from(s, a + 1, non_space_pred()));
        lemma_run_from(s, a + 1, non_space_pred());
    }
}

/// The tokens of a whole line.
pub open spec fn spec_tokens(s: Seq<char>) -> Seq<Seq<char>> {
    tokens_from(s, 0)
}

/// The character sequences of a vector of strings.
pub open spec fn strings_model(v: Seq<String>) -> Seq<Seq<char>> {
    v.map_values(|t: String| t@)
}

/// Splits a line into its whitespace-delimited tokens.
pub fn split_tokens(line: &str) -> (v: Vec<String>)
    ensures
        strings_model(v@) == spec_tokens(line@),
{
    let cs = chars_of(line);
    let n = cs.len();
    let mut v: Vec<String> = Vec::new();
    let mut i: usize = 0;
    while i < n
        invariant
            0 <= i <= n,
            n == line@.len(),
            cs@ == line@,
            strings_model(v@) + tokens_from(line@, i as int) =~= spec_tokens(line@),
        decreases n - i,
    {
        let ghost i0 = i as int;
        let mut a = i;
        while a < n && is_space(cs[a])
            invariant
                i <= a <= n,
                n == line@.len(),
                cs@ == line@,
                run_from(line@, i as int, space_pred()) == run_from(line@, a as int, space_pred()),
            decreases n - a,
        {
            proof {
                assert(space_pred()(line@[a as int]));
                assert(run_from(line@, a as int, space_pred()) == run_from(
                    line@,
                    a as int + 1,
                    space_pred(),
                ));
            }
            a = a + 1;
        }
        proof {
            lemma_run_from(line@, a as int, space_pred());
            assert(run_from(line@, a as int, space_pred()) == a);
        }
        if a == n {
            i = a;
            proof {
                assert(tokens_from(line@, i0) =~= Seq::<Seq<char>>::empty());
                assert(strings_model(v@) + tokens_from(line@, i as int) =~= spec_tokens(line@));
            }
            continue ;
        }
        let mut b = a;
        while b < n && !is_space(cs[b])
            invariant
                a <= b <= n,
                n == line@.len(),
                cs@ == line@,
                run_from(line@, a as int, non_space_pred()) == run_from(
                    line@,
                    b as int,
                    non_space_pred(),
                ),
            decreases n - b,
        {
            proof {
                assert(non_space_pred()(line@[b as int]));
                assert(run_from(line@, b as int, non_space_pred()) == run_from(
                    line@,
                    b as int + 1,
                    non_space_pred(),
                ));
            }
            b = b + 1;
        }
        proof {
            lemma_run_from(line@, b as int, non_space_pred());
            assert(run_from(line@, b as int, non_space_pred()) == b);
            assert(a < b);
        }
        let piece = line.substring_char(a, b);
        v.push(String::from_str(piece));
        i = b;
        proof {
            assert(tokens_from(line@, i0) =~= seq![line@.subrange(a as int, b as int)]
                + tokens_from(line@, b as int));
            assert(strings_model(v@) =~= strings_model(v@.drop_last()).push(
                line@.subrange(a as int, b as int),
            ));
            assert(strings_model(v@) + tokens_from(line@, i as int) =~= spec_tokens(line@));
        }
    }
    proof {
        assert(tokens_from(line@, i as int) =~= Seq::<Seq<char>>::empty());
        assert(strings_model(v@) + tokens_from(line@, i as int) =~= strings_model(v@));
        assert(strings_model(v@) =~= spec_tokens(line@));
    }
    v
}

/// What `str::to_lowercase` returns for a given character sequence. The
/// mapping is fixed by Unicode; it depends on the characters alone.
pub uninterp spec fn lower_of(s: Seq<char>) -> Seq<char>;

/// Relies on `str::to_lowercase`: the Unicode lowercase mapping of `s`,
/// a function of the characters alone.
#[verifier::external_body]
pub(crate) fn to_lowercase(s: &str) -> (r: String)
    ensures
        r@ == lower_of(s@),
{
    s.to_lowercase()
}

} // verus!
