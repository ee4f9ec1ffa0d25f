//! Numbers in decimal and hexadecimal.

use vstd::prelude::*;

verus! {

/// The digit for a value below sixteen, in lower case.
pub open spec fn digit(value: int) -> char {
    if value < 10 {
        ('0' as u32 + value) as char
    } else {
        ('a' as u32 + value - 10) as char
    }
}

/// A number written in the given base, without leading zeros.
pub open spec fn in_base(value: nat, base: nat) -> Seq<char>
    decreases value,
    when base > 1
{
    if value < base {
        seq![digit(value as int)]
    } else {
        proof {
            assert(value / base < value) by (nonlinear_arith)
                requires
                    value >= base,
                    base > 1,
            ;
        }
        in_base(value / base, base).push(digit((value % base) as int))
    }
}

/// A number in decimal.
pub open spec fn decimal(value: nat) -> Seq<char> {
    in_base(value, 10)
}

/// A number in hexadecimal behind the prefix `0x`.
pub open spec fn hex(value: nat) -> Seq<char> {
    "0x"@ + in_base(value, 16)
}

/// An integer in decimal, with a minus sign where it is negative.
pub open spec fn signed_decimal(value: int) -> Seq<char> {
    if value < 0 {
        "-"@ + decimal((-value) as nat)
    } else {
        decimal(value as nat)
    }
}

fn digit_char(value: u8) -> (c: char)
    requires
        value < 16,
    ensures
        c == digit(value as int),
{
    if value < 10 {
        (48 + value) as char
    } else {
        (97 + (value - 10)) as char
    }
}

fn push_in_base(text: &mut String, value: u64, base: u64)
    requires
        1 < base <= 16,
    ensures
        final(text)@ == old(text)@ + in_base(value as nat, base as nat),
    decreases value,
{
    if value < base {
        text.push(digit_char(value as u8));
    } else {
        proof {
            assert(value / base < value) by (nonlinear_arith)
                requires
                    value >= base,
                    base > 1,
            ;
            assert(value % base < base) by (nonlinear_arith)
                requires
                    base > 1,
            ;
        }
        push_in_base(text, value / base, base);
        text.push(digit_char((value % base) as u8));
    }
    assert(text@ =~= old(text)@ + in_base(value as nat, base as nat));
}

/// The number in decimal.
pub fn to_decimal(value: u64) -> (text: String)
    ensures
        text@ == decimal(value as nat),
{
    let mut text = String::new();
    push_in_base(&mut text, value, 10);
    assert(text@ =~= decimal(value as nat));
    text
}

/// The integer in decimal.
pub fn to_signed_decimal(value: i64) -> (text: String)
    ensures
        text@ == signed_decimal(value as int),
{
    if value < 0 {
        let mut text = "-".to_owned();
        let magnitude: u64 = if value == i64::MIN {
            9223372036854775808
        } else {
            (-value) as u64
        };
        push_in_base(&mut text, magnitude, 10);
        text
    } else {
        to_decimal(value as u64)
    }
}

/// The number in hexadecimal behind the prefix `0x`.
pub fn to_hex(value: u64) -> (text: String)
    ensures
        text@ == hex(value as nat),
{
    let mut text = "0x".to_owned();
    push_in_base(&mut text, value, 16);
    text
}

/// The value that a sequence of digits below ten denotes.
pub open spec fn decimal_value(digits: Seq<char>) -> nat
    decreases digits.len(),
{
    if digits.len() == 0 {
        0
    } else {
        (decimal_value(digits.drop_last()) * 10 + (digits.last() as u32 - '0' as u32)) as nat
    }
}

/// Reading back a number in decimal gives the number.
pub proof fn decimal_reads_back(value: nat)
    ensures
        decimal_value(decimal(value)) == value,
        decimal(value).len() > 0,
        forall|i: int|
            0 <= i < decimal(value).len() ==> super::ascii::ascii_digit(
                #[trigger] decimal(value)[i],
            ),
    decreases value,
{
    if value >= 10 {
        decimal_reads_back(value / 10);
        assert(decimal(value).drop_last() =~= decimal(value / 10));
        assert(value / 10 * 10 + value % 10 == value);
    } else {
        assert(decimal(value).drop_last() =~= Seq::<char>::empty());
        assert(decimal_value(Seq::<char>::empty()) == 0);
    }
}

/// Different numbers look different in decimal.
pub proof fn decimal_is_injective(left: nat, right: nat)
    requires
        decimal(left) == decimal(right),
    ensures
        left == right,
{
    decimal_reads_back(left);
    decimal_reads_back(right);
}

/// The value of a digit below sixteen.
pub open spec fn digit_value(c: char) -> int {
    if c <= '9' {
        c as u32 - '0' as u32
    } else {
        c as u32 - 'a' as u32 + 10
    }
}

/// The value that a sequence of digits denotes in the given base.
pub open spec fn base_value(digits: Seq<char>, base: int) -> int
    decreases digits.len(),
{
    if digits.len() == 0 {
        0
    } else {
        base_value(digits.drop_last(), base) * base + digit_value(digits.last())
    }
}

proof fn numbers_read_back(value: nat, base: nat)
    requires
        1 < base <= 16,
    ensures
        base_value(in_base(value, base), base as int) == value,
        in_base(value, base).len() > 0,
        value > 0 ==> in_base(value, base)[0] != '0',
    decreases value,
{
    reveal_with_fuel(base_value, 2);
    if value >= base {
        assert(value / base < value && 0 < value / base) by (nonlinear_arith)
            requires
                value >= base,
                base > 1,
        ;
        numbers_read_back(value / base, base);
        let rest = in_base(value / base, base);
        let last = digit((value % base) as int);
        assert(in_base(value, base) == rest.push(last));
        assert(rest.push(last).drop_last() =~= rest);
        vstd::arithmetic::div_mod::lemma_fundamental_div_mod(value as int, base as int);
        vstd::arithmetic::div_mod::lemma_mod_bound(value as int, base as int);
        assert(base * (value / base) == (value / base) * base) by (nonlinear_arith);
        assert(digit_value(last) == value % base);
        assert(rest.push(last)[0] == rest[0]);
    } else {
        let single = seq![digit(value as int)];
        assert(single.drop_last() =~= Seq::<char>::empty());
    }
}

/// A number in hexadecimal begins with `0x`, and what follows reads back as the number, without
/// leading zeros.
pub proof fn hex_reads_back(value: u64, text: String)
    requires
        call_ensures(to_hex, (value,), text),
    ensures
        text@.len() > 2,
        text@[0] == '0' && text@[1] == 'x',
        base_value(text@.skip(2), 16) == value,
        value > 0 ==> text@[2] != '0',
{
    reveal_strlit("0x");
    numbers_read_back(value as nat, 16);
    assert(text@.skip(2) =~= in_base(value as nat, 16));
}

/// An integer in decimal has a minus sign exactly where it is negative, and what follows reads back
/// as its amount, without leading zeros.
pub proof fn signed_decimal_reads_back(value: i64, text: String)
    requires
        call_ensures(to_signed_decimal, (value,), text),
    ensures
        text@.len() > 0,
        text@[0] == '-' <==> value < 0,
        value >= 0 ==> base_value(text@, 10) == value,
        value < 0 ==> text@.len() > 1 && base_value(text@.skip(1), 10) == -value,
        value > 0 ==> text@[0] != '0',
{
    reveal_strlit("-");
    if value < 0 {
        numbers_read_back((-value) as nat, 10);
        assert(text@.skip(1) =~= decimal((-value) as nat));
    } else {
        numbers_read_back(value as nat, 10);
        decimal_reads_back(value as nat);
        assert(super::ascii::ascii_digit(decimal(value as nat)[0]));
    }
}

}
