//! Small text-building helpers with exact contracts: decimal and hexadecimal
//! digits, and appending characters to a `String`.

use vstd::prelude::*;

verus! {

/// The ASCII character of a decimal digit.
pub open spec fn decimal_digit(d: int) -> char {
    ((48 + d) as u8) as char
}

/// The lowercase ASCII character of a hexadecimal digit.
pub open spec fn hex_digit(d: int) -> char {
    if d < 10 {
        ((48 + d) as u8) as char
    } else {
        ((87 + d) as u8) as char
    }
}

/// The decimal representation of `n`, without leading zeros ("0" for zero).
pub open spec fn decimal(n: nat) -> Seq<char>
    decreases n,
{
    if n < 10 {
        seq![decimal_digit(n as int)]
    } else {
        decimal(n / 10).push(decimal_digit((n % 10) as int))
    }
}

/// The value of a lowercase hexadecimal digit character (`0`-`9`, `a`-`f`),
/// or -1 for any other character.
pub open spec fn hex_value(c: char) -> int {
    if '0' as int <= c as int <= '9' as int {
        c as int - '0' as int
    } else if 'a' as int <= c as int <= 'f' as int {
        c as int - 'a' as int + 10
    } else {
        -1
    }
}

/// The value of a decimal digit character, or -1 for any other character.
pub open spec fn decimal_value(c: char) -> int {
    if '0' as int <= c as int <= '9' as int {
        c as int - '0' as int
    } else {
        -1
    }
}

/// A hexadecimal digit is written as one of `0`-`9` below ten and one of
/// `a`-`f` (lowercase) from ten on, and reading the character back gives the
/// digit.
pub proof fn law_hex_digit_lowercase(d: int)
    requires
        0 <= d < 16,
    ensures
        d < 10 ==> '0' as int <= hex_digit(d) as int <= '9' as int,
        d >= 10 ==> 'a' as int <= hex_digit(d) as int <= 'f' as int,
        hex_value(hex_digit(d)) == d,
{
    let x: u8 = if d < 10 { (48 + d) as u8 } else { (87 + d) as u8 };
    assert(hex_digit(d) == x as char);
    assert((x as char) as int == x as int);
}

/// A decimal digit is written as one of `0`-`9`, and reading the character
/// back gives the digit.
pub proof fn law_decimal_digit(d: int)
    requires
        0 <= d < 10,
    ensures
        '0' as int <= decimal_digit(d) as int <= '9' as int,
        decimal_value(decimal_digit(d)) == d,
{
    let x: u8 = (48 + d) as u8;
    assert(decimal_digit(d) == x as char);
    assert((x as char) as int == x as int);
}

/// Appends one character to a `String` (`String::push`).
#[verifier::external_body]
pub(crate) fn push_char(s: &mut String, c: char)
    ensures
        final(s)@ == old(s)@.push(c),
{
    s.push(c);
}

/// Returns the character of the decimal digit `d`.
pub fn decimal_digit_char(d: u64) -> (c: char)
    requires
        d < 10,
    ensures
        c == decimal_digit(d as int),
{
    let b: u8 = 48u8 + d as u8;
    b as char
}

/// Returns the lowercase character of the hexadecimal digit `d`.
pub fn hex_digit_char(d: u64) -> (c: char)
    requires
        d < 16,
    ensures
        c == hex_digit(d as int),
{
    if d < 10 {
        let b: u8 = 48u8 + d as u8;
        b as char
    } else {
        let b: u8 = 87u8 + d as u8;
        b as char
    }
}

/// Appends the decimal representation of `n` to `s`.
pub fn push_decimal(s: &mut String, n: u64)
    ensures
        final(s)@ == old(s)@ + decimal(n as nat),
    decreases n,
{
    if n >= 10 {
        push_decimal(s, n / 10);
    }
    let c = decimal_digit_char(n % 10);
    push_char(s, c);
    assert(s@ =~= old(s)@ + decimal(n as nat));
}

} // verus!
