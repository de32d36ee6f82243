//! String operations of std that the library calls, with what their
//! documentation states of them.
use vstd::prelude::*;

verus! {

/// What `str::to_lowercase` returns for a string: its Unicode lowercase
/// mapping (which does not depend on the locale).
pub uninterp spec fn lowercase(s: Seq<char>) -> Seq<char>;

/// Calls `str::to_lowercase`; the contract claims only that the result is the
/// one named by `lowercase` for the characters of `s`.
#[verifier::external_body]
pub fn to_lowercase(s: &str) -> (res: String)
    ensures
        res@ == lowercase(s@),
{
    s.to_lowercase()
}

/// Compares two string slices with `==`; its documentation states that they
/// are equal when their contents are, that is, when they hold the same
/// characters.
#[verifier::external_body]
pub fn str_equals(a: &str, b: &str) -> (res: bool)
    ensures
        res == (a@ == b@),
{
    a == b
}

/// What `char::is_whitespace` returns for a character: whether it has the
/// Unicode `White_Space` property.
pub uninterp spec fn white_space(c: char) -> bool;

/// Calls `char::is_whitespace`; the contract claims only that the result is
/// the one named by `white_space` for `c`.
#[verifier::external_body]
pub fn is_whitespace(c: char) -> (res: bool)
    ensures
        res == white_space(c),
{
    c.is_whitespace()
}

/// Calls `String::push`, which appends the character to the end of the string.
#[verifier::external_body]
pub fn push_char(s: &mut String, c: char)
    ensures
        final(s)@ == old(s)@.push(c),
{
    s.push(c)
}

/// The characters of a string slice, in order.
pub fn chars_of(s: &str) -> (res: Vec<char>)
    ensures
        res@ == s@,
{
    let mut res: Vec<char> = Vec::new();
    let ghost mut n: int = 0;
    for c in it: s.chars()
        invariant
            it.seq() == s@,
            n == it.index(),
            res@ == s@.take(n),
    {
        let ghost before = res@;
        res.push(c);
        proof {
            assert(s@.take(n + 1) =~= before.push(c));
            n = n + 1;
        }
    }
    proof {
        assert(s@.take(n) =~= s@);
    }
    res
}

/// The digit character of `d` (below 16), lower-case for hexadecimal digits.
pub open spec fn digit_char(d: nat) -> char {
    if d < 10 {
        (d + 48) as char
    } else {
        (d + 87) as char
    }
}

/// `n` in decimal, without leading zeros.
pub open spec fn decimal(n: nat) -> Seq<char>
    decreases n,
{
    if n < 10 {
        seq![digit_char(n)]
    } else {
        decimal(n / 10).push(digit_char(n % 10))
    }
}

/// `n` in lower-case hexadecimal, without leading zeros.
pub open spec fn hexadecimal(n: nat) -> Seq<char>
    decreases n,
{
    if n < 16 {
        seq![digit_char(n)]
    } else {
        hexadecimal(n / 16).push(digit_char(n % 16))
    }
}

/// The digit character of `d` (below 16).
pub fn digit(d: u32) -> (res: char)
    requires
        d < 16,
    ensures
        res == digit_char(d as nat),
{
    if d < 10 {
        ((d + 48) as u8) as char
    } else {
        ((d + 87) as u8) as char
    }
}

/// Appends a string slice.
pub fn push_str(out: &mut String, s: &str)
    ensures
        final(out)@ == old(out)@ + s@,
{
    out.append(s);
}

/// Appends `n` in decimal.
pub fn push_decimal(out: &mut String, n: usize)
    ensures
        final(out)@ == old(out)@ + decimal(n as nat),
    decreases n,
{
    if n >= 10 {
        push_decimal(out, n / 10);
    }
    push_char(out, digit((n % 10) as u32));
    proof {
        if n < 10 {
            assert(decimal(n as nat) =~= seq![digit_char(n as nat)]);
        }
    }
}

/// Appends `n` in lower-case hexadecimal.
pub fn push_hexadecimal(out: &mut String, n: u32)
    ensures
        final(out)@ == old(out)@ + hexadecimal(n as nat),
    decreases n,
{
    if n >= 16 {
        push_hexadecimal(out, n / 16);
    }
    push_char(out, digit(n % 16));
    proof {
        if n < 16 {
            assert(hexadecimal(n as nat) =~= seq![digit_char(n as nat)]);
        }
    }
}

/// The number a string of digits (`0`-`9`, `a`-`f`) stands for in base
/// `base`, most significant digit first.
pub open spec fn digits_value(s: Seq<char>, base: int) -> int
    decreases s.len(),
{
    if s.len() == 0 {
        0
    } else {
        let c = s.last() as int;
        let d = if c <= 57 { c - 48 } else { c - 87 };
        digits_value(s.drop_last(), base) * base + d
    }
}

/// Whether a character is a digit of base `base` (at most 16), written with
/// `0`-`9` and lower-case `a`-`f`.
pub open spec fn is_digit_of(c: char, base: int) -> bool {
    ||| 48 <= c as int <= 57 && c as int - 48 < base
    ||| 97 <= c as int <= 102 && c as int - 87 < base
}

proof fn lemma_digit_char(d: nat)
    requires
        d < 16,
    ensures
        d < 10 ==> digit_char(d) as int == d + 48,
        d >= 10 ==> digit_char(d) as int == d + 87,
{
}

/// Law: `decimal(n)` is the base-10 numeral of `n`: digits only, no leading
/// zero, and standing for `n`.
pub proof fn law_decimal_is_the_numeral(n: nat)
    ensures
        digits_value(decimal(n), 10) == n,
        decimal(n).len() >= 1,
        forall|i: int| 0 <= i < decimal(n).len() ==> is_digit_of(#[trigger] decimal(n)[i], 10),
        n > 0 ==> decimal(n)[0] != '0',
    decreases n,
{
    lemma_digit_char(n % 10);
    if n < 10 {
        assert(decimal(n) =~= seq![digit_char(n)]);
        assert(decimal(n).drop_last() =~= Seq::<char>::empty());
        assert(decimal(n).last() == digit_char(n));
        assert(digits_value(decimal(n).drop_last(), 10) == 0);
        assert(digits_value(decimal(n), 10) == 0 * 10 + n) by (nonlinear_arith)
            requires
                digits_value(decimal(n), 10) == digits_value(decimal(n).drop_last(), 10) * 10 + n,
                digits_value(decimal(n).drop_last(), 10) == 0;
    } else {
        law_decimal_is_the_numeral(n / 10);
        let s = decimal(n);
        assert(s.drop_last() == decimal(n / 10));
        assert(s.last() == digit_char(n % 10));
        assert(n == (n / 10) * 10 + n % 10);
        assert(digits_value(s, 10) == digits_value(s.drop_last(), 10) * 10 + (n % 10) as int);
        assert forall|i: int| 0 <= i < s.len() implies is_digit_of(#[trigger] s[i], 10) by {
            if i < s.len() - 1 {
                assert(s[i] == decimal(n / 10)[i]);
            }
        }
        assert(s[0] == decimal(n / 10)[0]);
    }
}

/// Law: `hexadecimal(n)` is the base-16 numeral of `n` in lower-case digits:
/// digits only, no leading zero, and standing for `n`.
pub proof fn law_hexadecimal_is_the_numeral(n: nat)
    ensures
        digits_value(hexadecimal(n), 16) == n,
        hexadecimal(n).len() >= 1,
        forall|i: int| 0 <= i < hexadecimal(n).len() ==> is_digit_of(#[trigger] hexadecimal(n)[i], 16),
        n > 0 ==> hexadecimal(n)[0] != '0',
    decreases n,
{
    lemma_digit_char(n % 16);
    if n < 16 {
        assert(hexadecimal(n) =~= seq![digit_char(n)]);
        assert(hexadecimal(n).drop_last() =~= Seq::<char>::empty());
        assert(hexadecimal(n).last() == digit_char(n));
        assert(digits_value(hexadecimal(n).drop_last(), 16) == 0);
        assert(digits_value(hexadecimal(n), 16) == 0 * 16 + n) by (nonlinear_arith)
            requires
                digits_value(hexadecimal(n), 16) == digits_value(hexadecimal(n).drop_last(), 16) * 16 + n,
                digits_value(hexadecimal(n).drop_last(), 16) == 0;
    } else {
        law_hexadecimal_is_the_numeral(n / 16);
        let s = hexadecimal(n);
        assert(s.drop_last() == hexadecimal(n / 16));
        assert(s.last() == digit_char(n % 16));
        assert(n == (n / 16) * 16 + n % 16);
        assert(digits_value(s, 16) == digits_value(s.drop_last(), 16) * 16 + (n % 16) as int);
        assert forall|i: int| 0 <= i < s.len() implies is_digit_of(#[trigger] s[i], 16) by {
            if i < s.len() - 1 {
                assert(s[i] == hexadecimal(n / 16)[i]);
            }
        }
        assert(s[0] == hexadecimal(n / 16)[0]);
    }
}

} // verus!
