//! Text helpers: decimal rendering and reading of unsigned integers, and
//! comparison of owned strings against literal text.
use vstd::prelude::*;
use vstd::string::StrSliceExecFns;
use vstd::string::StringExecFns;

verus! {

/// The character of a decimal digit.
pub open spec fn digit_char(d: nat) -> char {
    if d == 0 {
        '0'
    } else if d == 1 {
        '1'
    } else if d == 2 {
        '2'
    } else if d == 3 {
        '3'
    } else if d == 4 {
        '4'
    } else if d == 5 {
        '5'
    } else if d == 6 {
        '6'
    } else if d == 7 {
        '7'
    } else if d == 8 {
        '8'
    } else {
        '9'
    }
}

/// Whether a character is an ASCII decimal digit.
pub open spec fn is_digit(c: char) -> bool {
    '0' <= c && c <= '9'
}

/// The value of a decimal digit character.
pub open spec fn digit_value(c: char) -> nat {
    (c as int - '0' as int) as nat
}

/// The shortest decimal text of a natural number, without sign or leading zeros.
pub open spec fn decimal_text(n: nat) -> Seq<char>
    decreases n,
{
    if n < 10 {
        seq![digit_char(n)]
    } else {
        decimal_text(n / 10).push(digit_char(n % 10))
    }
}

/// Every character of `s` is a decimal digit.
pub open spec fn all_digits(s: Seq<char>) -> bool {
    forall|i: int| 0 <= i < s.len() ==> is_digit(#[trigger] s[i])
}

/// The number that a sequence of decimal digits denotes (most significant first).
pub open spec fn digits_value(s: Seq<char>) -> nat
    decreases s.len(),
{
    if s.len() == 0 {
        0
    } else {
        digits_value(s.drop_last()) * 10 + digit_value(s.last())
    }
}

/// Why a text is not the decimal form of a `u64`.
#[derive(Debug, Clone, Copy, PartialEq, Eq)]
pub enum IntTextError {
    /// The text is empty.
    Empty,
    /// The text holds a character that is not a decimal digit.
    InvalidDigit,
    /// The digits denote a number above `u64::MAX`.
    Overflow,
}

/// What reading `s` as a decimal `u64` gives.
pub open spec fn read_u64_spec(s: Seq<char>) -> Result<u64, IntTextError> {
    if s.len() == 0 {
        Err(IntTextError::Empty)
    } else if !all_digits(s) {
        Err(IntTextError::InvalidDigit)
    } else if digits_value(s) > u64::MAX {
        Err(IntTextError::Overflow)
    } else {
        Ok(digits_value(s) as u64)
    }
}

/// Appends one character to a string (std's `String::push`).
#[verifier::external_body]
pub(crate) fn string_push(s: &mut String, c: char)
    ensures
        final(s)@ == old(s)@.push(c),
{
    s.push(c);
}

/// Whether the owned string holds exactly the text of `lit`.
pub fn text_is(s: &String, lit: &str) -> (b: bool)
    ensures
        b == (s@ == lit@),
{
    let t = lit.to_owned();
    *s == t
}

/// Appends the text of `t` to `s`.
pub fn append_string(s: &mut String, t: &String)
    ensures
        final(s)@ == old(s)@ + t@,
{
    s.append(t.as_str());
}

/// A copy of a string.
pub fn copy_string(s: &String) -> (r: String)
    ensures
        r@ == s@,
{
    s.clone()
}

/// The character of the decimal digit `d`.
pub fn digit_to_char(d: u64) -> (c: char)
    requires
        d < 10,
    ensures
        c == digit_char(d as nat),
{
    if d == 0 {
        '0'
    } else if d == 1 {
        '1'
    } else if d == 2 {
        '2'
    } else if d == 3 {
        '3'
    } else if d == 4 {
        '4'
    } else if d == 5 {
        '5'
    } else if d == 6 {
        '6'
    } else if d == 7 {
        '7'
    } else if d == 8 {
        '8'
    } else {
        '9'
    }
}

/// Appends the decimal text of `n` to `out`.
pub fn push_decimal(n: u64, out: &mut String)
    ensures
        final(out)@ == old(out)@ + decimal_text(n as nat),
    decreases n,
{
    let ghost start = out@;
    if n >= 10 {
        push_decimal(n / 10, out);
    }
    let c = digit_to_char(n % 10);
    string_push(out, c);
    proof {
        if n >= 10 {
            assert(start + decimal_text(n as nat) =~= (start + decimal_text((n / 10) as nat)).push(
                c,
            ));
        } else {
            assert(start + decimal_text(n as nat) =~= start.push(c));
        }
    }
}

/// The decimal text of `n`.
pub fn u64_to_text(n: u64) -> (r: String)
    ensures
        r@ == decimal_text(n as nat),
{
    let mut s = String::new();
    push_decimal(n, &mut s);
    assert(s@ =~= decimal_text(n as nat));
    s
}

/// A decimal text is never empty, and it ends in the digit of `n % 10`.
pub proof fn lemma_decimal_text_shape(n: nat)
    ensures
        decimal_text(n).len() >= 1,
        decimal_text(n).last() == digit_char(n % 10),
        n < 10 <==> decimal_text(n).len() == 1,
    decreases n,
{
    if n >= 10 {
        lemma_decimal_text_shape(n / 10);
    }
}

proof fn lemma_digit_char_injective(a: nat, b: nat)
    requires
        a < 10,
        b < 10,
        digit_char(a) == digit_char(b),
    ensures
        a == b,
{
}

/// Different numbers have different decimal texts.
pub proof fn lemma_decimal_text_injective(a: nat, b: nat)
    requires
        decimal_text(a) == decimal_text(b),
    ensures
        a == b,
    decreases a,
{
    lemma_decimal_text_shape(a);
    lemma_decimal_text_shape(b);
    lemma_digit_char_injective(a % 10, b % 10);
    if a >= 10 && b >= 10 {
        assert(decimal_text(a / 10) =~= decimal_text(a).drop_last());
        assert(decimal_text(b / 10) =~= decimal_text(b).drop_last());
        lemma_decimal_text_injective(a / 10, b / 10);
    }
}

proof fn lemma_digits_value_push(s: Seq<char>, c: char)
    ensures
        digits_value(s.push(c)) == digits_value(s) * 10 + digit_value(c),
{
    assert(s.push(c).drop_last() =~= s);
}

/// Reads `s` as the decimal text of a `u64`.
pub fn read_u64(s: &String) -> (r: Result<u64, IntTextError>)
    ensures
        r == read_u64_spec(s@),
{
    let text = s.as_str();
    let n = text.unicode_len();
    if n == 0 {
        return Err(IntTextError::Empty);
    }
    let mut i: usize = 0;
    while i < n
        invariant
            n == s@.len(),
            text@ == s@,
            0 <= i <= n,
            forall|j: int| 0 <= j < i ==> is_digit(#[trigger] s@[j]),
        decreases n - i,
    {
        let c = text.get_char(i);
        if !('0' <= c && c <= '9') {
            assert(!all_digits(s@));
            return Err(IntTextError::InvalidDigit);
        }
        i = i + 1;
    }
    assert(all_digits(s@));
    let mut value: u64 = 0;
    let mut overflow: bool = false;
    let mut k: usize = 0;
    while k < n
        invariant
            n == s@.len(),
            text@ == s@,
            0 <= k <= n,
            all_digits(s@),
            !overflow ==> value as nat == digits_value(s@.take(k as int)),
            overflow ==> digits_value(s@.take(k as int)) > u64::MAX,
        decreases n - k,
    {
        let c = text.get_char(k);
        proof {
            assert(s@.take(k + 1) =~= s@.take(k as int).push(c));
            lemma_digits_value_push(s@.take(k as int), c);
            assert(is_digit(s@[k as int]));
        }
        if !overflow {
            let d: u64 = ((c as u32) - ('0' as u32)) as u64;
            if value > (u64::MAX - d) / 10 {
                overflow = true;
                assert(value * 10 + d > u64::MAX) by (nonlinear_arith)
                    requires
                        value > (u64::MAX - d) / 10,
                        d <= 9,
                ;
            } else {
                assert(value * 10 + d <= u64::MAX) by (nonlinear_arith)
                    requires
                        value <= (u64::MAX - d) / 10,
                        d <= 9,
                ;
                value = value * 10 + d;
            }
        } else {
            assert(digits_value(s@.take(k as int)) * 10 + digit_value(c) >= digits_value(
                s@.take(k as int),
            )) by (nonlinear_arith);
        }
        k = k + 1;
    }
    assert(s@.take(n as int) =~= s@);
    if overflow {
        Err(IntTextError::Overflow)
    } else {
        Ok(value)
    }
}

} // verus!
