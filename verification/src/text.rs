//! Verified text utilities: decimal rendering of numbers, substring search,
//! and small trusted bridges to `std`'s string primitives.

use vstd::prelude::*;
use vstd::string::StringExecFns;
use vstd::string::StrSliceExecFns;

verus! {

// ---------------------------------------------------------------------------
// Trusted bridges to std
// ---------------------------------------------------------------------------

/// Relies on `str`'s `PartialEq`: two string slices are equal exactly when
/// their character sequences are.
#[verifier::external_body]
pub fn str_eq(a: &str, b: &str) -> (r: bool)
    ensures
        r == (a@ == b@),
{
    a == b
}

/// Relies on `String::push`: appends one character at the end of the string.
#[verifier::external_body]
pub fn push_char(s: &mut String, c: char)
    ensures
        final(s)@ == old(s)@.push(c),
{
    s.push(c)
}

/// Whether `char::is_alphanumeric` holds of the character.  The full Unicode
/// category tables are not restated here; the result depends on the
/// character alone.
pub uninterp spec fn spec_char_is_alphanumeric(c: char) -> bool;

/// Relies on `char::is_alphanumeric`: true when the character belongs to one
/// of Unicode's letter or number categories; a function of the character
/// alone.
#[verifier::external_body]
pub fn char_is_alphanumeric(c: char) -> (r: bool)
    ensures
        r == spec_char_is_alphanumeric(c),
{
    c.is_alphanumeric()
}

// ---------------------------------------------------------------------------
// Decimal digits
// ---------------------------------------------------------------------------

/// The character for one decimal digit.
pub open spec fn spec_digit(d: int) -> char
    recommends
        0 <= d < 10,
{
    if d == 0 {
        '0'
    } else if d == 1 {
        '1'
    } else if d == 2 {
        '2'
    } else if d == 3 {
        '3'
    } else if d == 4 {
        '4'
    } else if d == 5 {
        '5'
    } else if d == 6 {
        '6'
    } else if d == 7 {
        '7'
    } else if d == 8 {
        '8'
    } else {
        '9'
    }
}

/// Whether a character is a decimal digit.
pub open spec fn spec_is_digit(c: char) -> bool {
    c == '0' || c == '1' || c == '2' || c == '3' || c == '4' || c == '5' || c == '6' || c == '7'
        || c == '8' || c == '9'
}

/// The value of one decimal digit character.
pub open spec fn spec_digit_val(c: char) -> int
    recommends
        spec_is_digit(c),
{
    if c == '0' {
        0
    } else if c == '1' {
        1
    } else if c == '2' {
        2
    } else if c == '3' {
        3
    } else if c == '4' {
        4
    } else if c == '5' {
        5
    } else if c == '6' {
        6
    } else if c == '7' {
        7
    } else if c == '8' {
        8
    } else {
        9
    }
}

/// The decimal rendering of a natural number, most significant digit first,
/// without leading zeroes (`0` renders as `"0"`).
pub open spec fn spec_dec(n: nat) -> Seq<char>
    decreases n,
{
    if n < 10 {
        seq![spec_digit(n as int)]
    } else {
        spec_dec(n / 10).push(spec_digit((n % 10) as int))
    }
}

/// The numeric value of a digit string, most significant digit first.
pub open spec fn spec_val(s: Seq<char>) -> int
    decreases s.len(),
{
    if s.len() == 0 {
        0
    } else {
        spec_val(s.drop_last()) * 10 + spec_digit_val(s.last())
    }
}

/// A decimal rendering is never empty and consists of digit characters only.
pub proof fn lemma_dec_digits(n: nat)
    ensures
        spec_dec(n).len() >= 1,
        forall|i: int| 0 <= i < spec_dec(n).len() ==> spec_is_digit(#[trigger] spec_dec(n)[i]),
    decreases n,
{
    if n >= 10 {
        lemma_dec_digits(n / 10);
    }
}

/// The digit character of a value below ten reads back as that value.
pub proof fn lemma_digit_val_of_digit(d: int)
    requires
        0 <= d < 10,
    ensures
        spec_digit_val(spec_digit(d)) == d,
{
}

/// Reading a decimal rendering back gives the number it renders.
pub proof fn lemma_val_dec(n: nat)
    ensures
        spec_val(spec_dec(n)) == n,
    decreases n,
{
    lemma_digit_val_of_digit((n % 10) as int);
    if n < 10 {
        assert(spec_dec(n) == seq![spec_digit(n as int)]);
        assert(spec_dec(n).last() == spec_digit(n as int));
        assert(spec_dec(n).drop_last() =~= Seq::<char>::empty());
        assert(spec_val(spec_dec(n)) == spec_val(Seq::<char>::empty()) * 10 + spec_digit_val(
            spec_digit(n as int),
        ));
    } else {
        lemma_val_dec(n / 10);
        assert(spec_dec(n) == spec_dec(n / 10).push(spec_digit((n % 10) as int)));
        assert(spec_dec(n).last() == spec_digit((n % 10) as int));
        assert(spec_dec(n).drop_last() =~= spec_dec(n / 10));
        assert(spec_val(spec_dec(n)) == spec_val(spec_dec(n / 10)) * 10 + spec_digit_val(
            spec_digit((n % 10) as int),
        ));
    }
}

/// Digit characters are pairwise distinct.
pub proof fn lemma_digit_injective(a: int, b: int)
    requires
        0 <= a < 10,
        0 <= b < 10,
        spec_digit(a) == spec_digit(b),
    ensures
        a == b,
{
}

/// Decimal renderings are injective: distinct numbers render differently.
pub proof fn lemma_dec_injective(m: nat, n: nat)
    requires
        spec_dec(m) == spec_dec(n),
    ensures
        m == n,
    decreases m,
{
    lemma_dec_digits(m);
    lemma_dec_digits(n);
    if m < 10 && n < 10 {
        assert(spec_digit(m as int) == spec_digit(n as int)) by {
            assert(spec_dec(m) == seq![spec_digit(m as int)]);
            assert(spec_dec(n) == seq![spec_digit(n as int)]);
            assert(seq![spec_digit(m as int)][0] == spec_digit(m as int));
            assert(seq![spec_digit(n as int)][0] == spec_digit(n as int));
        }
        lemma_digit_injective(m as int, n as int);
    } else if m < 10 && n >= 10 {
        lemma_dec_digits(n / 10);
        assert(spec_dec(n).len() >= 2);
    } else if m >= 10 && n < 10 {
        lemma_dec_digits(m / 10);
        assert(spec_dec(m).len() >= 2);
    } else {
        assert(spec_dec(m).drop_last() =~= spec_dec(m / 10));
        assert(spec_dec(n).drop_last() =~= spec_dec(n / 10));
        lemma_dec_injective(m / 10, n / 10);
        assert(spec_digit((m % 10) as int) == spec_digit((n % 10) as int)) by {
            assert(spec_dec(m) == spec_dec(m / 10).push(spec_digit((m % 10) as int)));
            assert(spec_dec(n) == spec_dec(n / 10).push(spec_digit((n % 10) as int)));
            assert(spec_dec(m / 10).push(spec_digit((m % 10) as int)).last() == spec_digit(
                (m % 10) as int,
            ));
            assert(spec_dec(n / 10).push(spec_digit((n % 10) as int)).last() == spec_digit(
                (n % 10) as int,
            ));
        }
        lemma_digit_injective((m % 10) as int, (n % 10) as int);
    }
}

/// The digit character for a value below ten.
pub fn char_of_digit(d: u64) -> (c: char)
    requires
        d < 10,
    ensures
        c == spec_digit(d as int),
{
    if d == 0 {
        '0'
    } else if d == 1 {
        '1'
    } else if d == 2 {
        '2'
    } else if d == 3 {
        '3'
    } else if d == 4 {
        '4'
    } else if d == 5 {
        '5'
    } else if d == 6 {
        '6'
    } else if d == 7 {
        '7'
    } else if d == 8 {
        '8'
    } else {
        '9'
    }
}

/// Renders a number in decimal.
pub fn u64_to_string(n: u64) -> (s: String)
    ensures
        s@ == spec_dec(n as nat),
{
    let mut digits: Vec<char> = Vec::new();
    let mut m: u64 = n;
    loop
        invariant_except_break
            spec_dec(n as nat) =~= spec_dec(m as nat) + digits@.reverse(),
        ensures
            spec_dec(n as nat) =~= digits@.reverse(),
        decreases m,
    {
        let ghost m_old = m as nat;
        let ghost rev_old = digits@.reverse();
        let d = m % 10;
        digits.push(char_of_digit(d));
        m = m / 10;
        proof {
            assert(digits@.reverse() =~= seq![spec_digit(d as int)] + rev_old);
            if m_old >= 10 {
                assert(spec_dec(m_old) == spec_dec(m_old / 10).push(
                    spec_digit((m_old % 10) as int),
                ));
                assert(spec_dec(m as nat) + digits@.reverse() =~= spec_dec(m_old) + rev_old);
            }
        }
        if m == 0 {
            proof {
                assert(spec_dec(m_old) =~= seq![spec_digit(m_old as int)]);
                assert(spec_dec(n as nat) =~= digits@.reverse());
            }
            break;
        }
    }
    let mut s = String::new();
    let mut i = digits.len();
    while i > 0
        invariant
            i <= digits@.len(),
            s@ =~= digits@.reverse().take(digits@.len() - i),
        decreases i,
    {
        i = i - 1;
        push_char(&mut s, digits[i]);
        proof {
            assert(s@ =~= digits@.reverse().take(digits@.len() - i));
        }
    }
    proof {
        assert(s@ =~= digits@.reverse());
    }
    s
}

// ---------------------------------------------------------------------------
// Substring search
// ---------------------------------------------------------------------------

/// Whether `sub` occurs contiguously inside `s`.
pub open spec fn spec_has_substring(s: Seq<char>, sub: Seq<char>) -> bool {
    exists|i: int| 0 <= i && i + sub.len() <= s.len() && #[trigger] s.subrange(i, i + sub.len()) == sub
}

/// Substring search: whether `sub` occurs contiguously inside `s`.
pub fn contains_substring(s: &str, sub: &str) -> (b: bool)
    ensures
        b == spec_has_substring(s@, sub@),
{
    let n = s.unicode_len();
    let m = sub.unicode_len();
    if m == 0 {
        proof {
            assert(s@.subrange(0, 0 + sub@.len() as int) =~= sub@);
        }
        return true;
    }
    if m > n {
        return false;
    }
    let mut i: usize = 0;
    while i <= n - m
        invariant
            1 <= m <= n,
            n == s@.len(),
            m == sub@.len(),
            i <= n - m + 1,
            forall|j: int|
                0 <= j < i ==> #[trigger] s@.subrange(j, j + sub@.len()) != sub@,
        decreases n - i,
    {
        let mut k: usize = 0;
        let mut eq = true;
        while k < m
            invariant
                m <= n,
                n == s@.len(),
                m == sub@.len(),
                i + m <= n,
                k <= m,
                eq ==> forall|l: int| 0 <= l < k ==> s@[i + l] == sub@[l],
                !eq ==> s@.subrange(i as int, i + sub@.len()) != sub@,
            decreases m - k,
        {
            let sc = s.get_char(i + k);
            let bc = sub.get_char(k);
            if sc != bc {
                proof {
                    assert(s@.subrange(i as int, i + sub@.len())[k as int] == s@[i + k]);
                }
                eq = false;
            }
            k = k + 1;
        }
        if eq {
            proof {
                assert(s@.subrange(i as int, i + sub@.len()) =~= sub@);
            }
            return true;
        }
        i = i + 1;
    }
    proof {
        assert(forall|j: int|
            0 <= j && j + sub@.len() <= s@.len() ==> #[trigger] s@.subrange(j, j + sub@.len())
                != sub@);
    }
    false
}

/// Joins two pieces with a separating character: `a`, `sep`, `b`.
pub fn join_with(a: &str, sep: &str, b: &str) -> (r: String)
    ensures
        r@ == a@ + sep@ + b@,
{
    let s = a.to_owned();
    let s = s.concat(sep);
    let s = s.concat(b);
    proof {
        assert(s@ =~= a@ + sep@ + b@);
    }
    s
}

} // verus!
