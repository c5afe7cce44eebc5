//! The textual syntax of numbers, as the standard library's integer and
//! float parsers accept it.

use vstd::prelude::*;

verus! {

/// An ASCII decimal digit.
pub open spec fn is_digit(c: char) -> bool {
    '0' <= c && c <= '9'
}

/// The value of a decimal digit.
pub open spec fn digit_value(c: char) -> int {
    (c as int) - ('0' as int)
}

/// Every character is a decimal digit.
pub open spec fn all_digits(s: Seq<char>) -> bool {
    forall|i: int| 0 <= i < s.len() ==> is_digit(#[trigger] s[i])
}

/// The value of a string of decimal digits.
pub open spec fn decimal_value(s: Seq<char>) -> int
    decreases s.len(),
{
    if s.len() == 0 {
        0
    } else {
        decimal_value(s.drop_last()) * 10 + digit_value(s.last())
    }
}

/// Integer syntax accepted by `str::parse::<i64>`: an optional sign
/// followed by one or more decimal digits.
pub open spec fn int_syntax(s: Seq<char>) -> bool {
    if s.len() > 0 && (s[0] == '+' || s[0] == '-') {
        s.len() > 1 && all_digits(s.drop_first())
    } else {
        s.len() > 0 && all_digits(s)
    }
}

/// The mathematical value of text in [int_syntax].
pub open spec fn int_value(s: Seq<char>) -> int {
    if s.len() > 0 && s[0] == '-' {
        -decimal_value(s.drop_first())
    } else if s.len() > 0 && s[0] == '+' {
        decimal_value(s.drop_first())
    } else {
        decimal_value(s)
    }
}

/// Why an integer could not be read.
#[derive(PartialEq, Eq, Structural, Clone, Copy, Debug)]
pub enum IntError {
    /// The text is not in integer syntax.
    Invalid,
    /// The text is an integer that does not fit in 64 bits.
    Overflow,
}

/// Parse a 64-bit integer the way `str::parse::<i64>` does.
pub fn parse_i64(s: &Vec<char>) -> (r: Result<i64, IntError>)
    ensures
        !int_syntax(s@) ==> r == Err::<i64, IntError>(IntError::Invalid),
        int_syntax(s@) && i64::MIN <= int_value(s@) <= i64::MAX ==> r == Ok::<i64, IntError>(int_value(s@) as i64),
        int_syntax(s@) && !(i64::MIN <= int_value(s@) <= i64::MAX) ==> r == Err::<i64, IntError>(IntError::Overflow),
{
    let n = s.len();
    if n == 0 {
        return Err(IntError::Invalid);
    }
    let neg = s[0] == '-';
    let start: usize = if s[0] == '-' || s[0] == '+' { 1 } else { 0 };
    if start == n {
        return Err(IntError::Invalid);
    }
    let ghost digits = s@.skip(start as int);
    assert(start == 1 ==> digits == s@.drop_first());
    assert(start == 0 ==> digits == s@);
    // accumulate the magnitude, up to one past the largest magnitude
    let limit: u64 = 9223372036854775808;
    let mut mag: u64 = 0;
    let mut over = false;
    let mut i: usize = start;
    while i < n
        invariant
            start <= i <= n,
            n == s@.len(),
            n > 0,
            limit == 9223372036854775808u64,
            start <= 1,
            (start == 1) == (s@[0] == '-' || s@[0] == '+'),
            digits == s@.skip(start as int),
            all_digits(s@.subrange(start as int, i as int)),
            !over ==> mag == decimal_value(s@.subrange(start as int, i as int)) && mag <= limit,
            over ==> decimal_value(s@.subrange(start as int, i as int)) > limit,
        decreases n - i,
    {
        let c = s[i];
        if !('0' <= c && c <= '9') {
            proof {
                assert(digits[i - start] == c);
                assert(!is_digit(digits[i - start]));
                assert(!all_digits(digits));
                if start == 1 {
                    assert(s@[0] == '-' || s@[0] == '+');
                } else {
                    assert(!(s@[0] == '-' || s@[0] == '+'));
                }
                assert(!int_syntax(s@));
            }
            return Err(IntError::Invalid);
        }
        let d = ((c as u32) - ('0' as u32)) as u64;
        assert(d <= 9 && d == digit_value(c));
        proof {
            let pre = s@.subrange(start as int, i as int);
            let post = s@.subrange(start as int, i + 1);
            assert(post.drop_last() == pre);
            assert(post.last() == c);
            assert(decimal_value(post) == decimal_value(pre) * 10 + digit_value(c));
            assert(decimal_value(pre) >= 0) by { lemma_decimal_nonneg(pre); }
        }
        if !over {
            if mag > (limit - d) / 10 {
                assert(mag * 10 + d > limit) by (nonlinear_arith)
                    requires mag > (limit - d) / 10, d <= 9, limit == 9223372036854775808u64;
                over = true;
            } else {
                assert(mag * 10 + d <= limit) by (nonlinear_arith)
                    requires mag <= (limit - d) / 10, d <= 9, limit == 9223372036854775808u64;
                mag = mag * 10 + d;
            }
        }
        i += 1;
        proof {
            let post = s@.subrange(start as int, i as int);
            assert forall|k: int| 0 <= k < post.len() implies is_digit(#[trigger] post[k]) by {
                if k < post.len() - 1 {
                    assert(post[k] == s@.subrange(start as int, i - 1)[k]);
                }
            }
        }
    }
    proof {
        assert(s@.subrange(start as int, n as int) == digits);
        assert(start == 1 ==> s@[0] == '-' || s@[0] == '+');
    }
    if over {
        return Err(IntError::Overflow);
    }
    if neg {
        if mag == limit {
            Ok(i64::MIN)
        } else {
            Ok(-(mag as i64))
        }
    } else {
        if mag == limit {
            Err(IntError::Overflow)
        } else {
            Ok(mag as i64)
        }
    }
}

/// Decimal values are never negative.
pub proof fn lemma_decimal_nonneg(s: Seq<char>)
    requires all_digits(s),
    ensures decimal_value(s) >= 0,
    decreases s.len(),
{
    if s.len() > 0 {
        assert(all_digits(s.drop_last())) by {
            assert forall|k: int| 0 <= k < s.drop_last().len() implies is_digit(#[trigger] s.drop_last()[k]) by {
                assert(s.drop_last()[k] == s[k]);
            }
        }
        lemma_decimal_nonneg(s.drop_last());
        assert(is_digit(s.last()));
    }
}

/// The number of decimal digits at the start of `s`.
pub open spec fn lead_digits(s: Seq<char>) -> nat
    decreases s.len(),
{
    if s.len() > 0 && is_digit(s[0]) {
        1 + lead_digits(s.drop_first())
    } else {
        0
    }
}

/// ASCII lower case.
pub open spec fn lower(c: char) -> char {
    if 'A' <= c && c <= 'Z' {
        ((c as int) + 32) as char
    } else {
        c
    }
}

/// `s` spells `word` (given in lower case), ignoring ASCII case.
pub open spec fn spells(s: Seq<char>, word: Seq<char>) -> bool {
    s.len() == word.len() && forall|i: int| 0 <= i < s.len() ==> lower(#[trigger] s[i]) == word[i]
}

/// `s` without a leading `+` or `-`.
pub open spec fn unsigned(s: Seq<char>) -> Seq<char> {
    if s.len() > 0 && (s[0] == '+' || s[0] == '-') {
        s.drop_first()
    } else {
        s
    }
}

/// An exponent part: empty, or `e`/`E`, an optional sign and one or more digits.
pub open spec fn exponent_part(s: Seq<char>) -> bool {
    s.len() == 0 || ((s[0] == 'e' || s[0] == 'E') && unsigned(s.drop_first()).len() > 0
        && all_digits(unsigned(s.drop_first())))
}

/// `Digit+ | Digit+ '.' Digit* | Digit* '.' Digit+`, then an exponent part.
pub open spec fn decimal_number(s: Seq<char>) -> bool {
    let i = lead_digits(s);
    let r = s.skip(i as int);
    if r.len() > 0 && r[0] == '.' {
        let r2 = r.drop_first();
        let j = lead_digits(r2);
        i + j > 0 && exponent_part(r2.skip(j as int))
    } else {
        i > 0 && exponent_part(r)
    }
}

/// Float syntax accepted by `str::parse::<f64>`: an optional sign, then
/// `inf`, `infinity`, `nan` (any case) or a decimal number.
pub open spec fn float_syntax(s: Seq<char>) -> bool {
    let t = unsigned(s);
    spells(t, seq!['i', 'n', 'f']) || spells(t, seq!['i', 'n', 'f', 'i', 'n', 'i', 't', 'y'])
        || spells(t, seq!['n', 'a', 'n']) || decimal_number(t)
}

proof fn lemma_lead_digits_step(s: Seq<char>, p: int)
    requires 0 <= p < s.len(),
    ensures
        is_digit(s[p]) ==> lead_digits(s.skip(p)) == 1 + lead_digits(s.skip(p + 1)),
        !is_digit(s[p]) ==> lead_digits(s.skip(p)) == 0,
{
    assert(s.skip(p).drop_first() == s.skip(p + 1));
    assert(s.skip(p)[0] == s[p]);
}

/// Position just past the run of digits that starts at `p`.
fn skip_digits(s: &Vec<char>, p: usize) -> (q: usize)
    requires p <= s@.len(),
    ensures
        q == p + lead_digits(s@.skip(p as int)),
        q <= s@.len(),
{
    let mut q = p;
    while q < s.len() && '0' <= s[q] && s[q] <= '9'
        invariant
            p <= q <= s@.len(),
            lead_digits(s@.skip(p as int)) == (q - p) + lead_digits(s@.skip(q as int)),
        decreases s@.len() - q,
    {
        proof { lemma_lead_digits_step(s@, q as int); }
        q += 1;
    }
    proof {
        if q < s@.len() {
            lemma_lead_digits_step(s@, q as int);
        } else {
            assert(s@.skip(q as int).len() == 0);
        }
    }
    q
}

/// Whether the characters from `p` on spell `word`, ignoring ASCII case.
fn spells_from(s: &Vec<char>, p: usize, word: &Vec<char>) -> (r: bool)
    requires p <= s@.len(),
    ensures r == spells(s@.skip(p as int), word@),
{
    if s.len() - p != word.len() {
        return false;
    }
    let mut i: usize = 0;
    while i < word.len()
        invariant
            p <= s@.len(),
            s@.len() - p == word@.len(),
            i <= word@.len(),
            forall|k: int| 0 <= k < i ==> lower(#[trigger] s@.skip(p as int)[k]) == word@[k],
        decreases word@.len() - i,
    {
        assert(p + i < s.len());
        let c = s[p + i];
        let lc = if 'A' <= c && c <= 'Z' { ((c as u32) + 32) as u8 as char } else { c };
        assert(s@.skip(p as int)[i as int] == c);
        assert(lc == lower(c)) by {
            if 'A' <= c && c <= 'Z' {
                assert((((c as u32) + 32) as u8 as char) == (((c as int) + 32) as char));
            }
        }
        if lc != word[i] {
            return false;
        }
        i += 1;
    }
    true
}

/// Whether the characters from `p` on form an exponent part.
fn exponent_from(s: &Vec<char>, p: usize) -> (r: bool)
    requires p <= s@.len(),
    ensures r == exponent_part(s@.skip(p as int)),
{
    let n = s.len();
    if p == n {
        return true;
    }
    let ghost t = s@.skip(p as int);
    assert(t[0] == s@[p as int]);
    if !(s[p] == 'e' || s[p] == 'E') {
        return false;
    }
    let mut q = p + 1;
    assert(t.drop_first() == s@.skip(q as int));
    if q < n && (s[q] == '+' || s[q] == '-') {
        assert(s@.skip(q as int).drop_first() == s@.skip(q + 1));
        q += 1;
    }
    let ghost u = s@.skip(q as int);
    assert(u == unsigned(t.drop_first()));
    if q == n {
        return false;
    }
    let e = skip_digits(s, q);
    proof {
        lemma_lead_digits_all(u);
    }
    e == n
}

/// A digit run covers the whole sequence exactly when it is all digits.
proof fn lemma_lead_digits_all(u: Seq<char>)
    ensures (lead_digits(u) == u.len()) == all_digits(u),
    decreases u.len(),
{
    if u.len() > 0 {
        lemma_lead_digits_all(u.drop_first());
        if is_digit(u[0]) {
            if all_digits(u.drop_first()) {
                assert forall|k: int| 0 <= k < u.len() implies is_digit(#[trigger] u[k]) by {
                    if k > 0 { assert(u[k] == u.drop_first()[k - 1]); }
                }
            } else {
                let k = choose|k: int| 0 <= k < u.drop_first().len() && !is_digit(#[trigger] u.drop_first()[k]);
                assert(u[k + 1] == u.drop_first()[k]);
            }
        } else {
            lemma_lead_digits_le(u.drop_first());
        }
    }
}

proof fn lemma_lead_digits_le(u: Seq<char>)
    ensures lead_digits(u) <= u.len(),
    decreases u.len(),
{
    if u.len() > 0 {
        lemma_lead_digits_le(u.drop_first());
    }
}

/// Whether `s` is text that `str::parse::<f64>` accepts.
pub fn is_float_syntax(s: &Vec<char>) -> (r: bool)
    ensures r == float_syntax(s@),
{
    let n = s.len();
    let p: usize = if n > 0 && (s[0] == '+' || s[0] == '-') { 1 } else { 0 };
    let ghost t = unsigned(s@);
    assert(t == s@.skip(p as int));
    let inf: Vec<char> = vec!['i', 'n', 'f'];
    let infinity: Vec<char> = vec!['i', 'n', 'f', 'i', 'n', 'i', 't', 'y'];
    let nan: Vec<char> = vec!['n', 'a', 'n'];
    if spells_from(s, p, &inf) || spells_from(s, p, &infinity) || spells_from(s, p, &nan) {
        return true;
    }
    let i = skip_digits(s, p);
    let ghost r = t.skip((i - p) as int);
    assert(r == s@.skip(i as int));
    if i < n && s[i] == '.' {
        assert(r[0] == s@[i as int]);
        assert(r.drop_first() == s@.skip(i + 1));
        let j = skip_digits(s, i + 1);
        assert(r.drop_first().skip((j - (i + 1)) as int) == s@.skip(j as int));
        (i - p) + (j - (i + 1)) > 0 && exponent_from(s, j)
    } else {
        i > p && exponent_from(s, i)
    }
}

} // verus!
