//! Numbers in decimal and hexadecimal notation.

use vstd::prelude::*;

use crate::text;

verus! {

/// Whether `c` is one of `0` to `9`.
pub open spec fn is_digit(c: char) -> bool {
    '0' <= c && c <= '9'
}

/// The digit that stands for `value`, which is below ten.
pub open spec fn digit(value: int) -> char {
    (value + '0' as int) as char
}

/// The number written by `digits`, most significant digit first.
pub open spec fn digits_value(digits: Seq<char>) -> int
    decreases digits.len(),
{
    if digits.len() == 0 {
        0
    } else {
        10 * digits_value(digits.drop_last()) + (digits.last() as int - '0' as int)
    }
}

/// Whether `text` is made of one digit or more.
pub open spec fn is_digits(text: Seq<char>) -> bool {
    text.len() > 0 && forall|i: int| 0 <= i < text.len() ==> is_digit(#[trigger] text[i])
}

/// `text` without the `+` that it may begin with.
pub open spec fn without_sign(text: Seq<char>) -> Seq<char> {
    if text.len() > 0 && text[0] == '+' {
        text.drop_first()
    } else {
        text
    }
}

/// The number that `text` writes: digits, with a `+` before them or not, whose
/// value fits in 32 bits.
pub open spec fn u32_of(text: Seq<char>) -> Option<u32> {
    let digits = without_sign(text);
    if is_digits(digits) && digits_value(digits) <= u32::MAX {
        Some(digits_value(digits) as u32)
    } else {
        None
    }
}

/// `value` in decimal notation, without leading zeros.
pub open spec fn decimal(value: nat) -> Seq<char>
    decreases value,
{
    if value < 10 {
        seq![digit(value as int)]
    } else {
        decimal(value / 10).push(digit((value % 10) as int))
    }
}

/// `value` in decimal notation, with a `-` before it where it is negative.
pub open spec fn signed_decimal(value: int) -> Seq<char> {
    if value < 0 {
        "-"@ + decimal((-value) as nat)
    } else {
        decimal(value as nat)
    }
}

/// The hexadecimal digit that stands for `value`, which is below sixteen.
pub open spec fn hex_digit(value: int) -> char {
    if value < 10 {
        digit(value)
    } else {
        (value - 10 + 'A' as int) as char
    }
}

/// The last `width` digits of `value` in hexadecimal notation.
pub open spec fn hex(value: nat, width: nat) -> Seq<char>
    decreases width,
{
    if width == 0 {
        Seq::empty()
    } else {
        hex(value / 16, (width - 1) as nat).push(hex_digit((value % 16) as int))
    }
}

/// Reads an unsigned number of 32 bits in decimal notation.
pub fn parse_u32(text: &[char]) -> (r: Option<u32>)
    ensures
        r == u32_of(text@),
{
    let start: usize = if text.len() > 0 && text[0] == '+' {
        1
    } else {
        0
    };
    let ghost digits = without_sign(text@);
    assert(digits == text@.skip(start as int));
    if start == text.len() {
        return None;
    }
    let mut value: u32 = 0;
    let mut i: usize = start;
    while i < text.len()
        invariant
            start <= i <= text.len(),
            start < text.len(),
            digits == text@.skip(start as int),
            digits == without_sign(text@),
            forall|k: int| 0 <= k < i - start ==> is_digit(#[trigger] digits[k]),
            value == digits_value(digits.take(i - start)),
        decreases text.len() - i,
    {
        let c = text[i];
        let ghost at = i - start;
        assert(digits[at] == c);
        if c < '0' || c > '9' {
            return None;
        }
        let wide: u64 = value as u64 * 10 + (c as u32 - '0' as u32) as u64;
        assert(digits.take(at + 1).drop_last() == digits.take(at));
        assert(wide == digits_value(digits.take(at + 1)));
        if wide > u32::MAX as u64 {
            proof {
                if is_digits(digits) {
                    digits_value_grows(digits, at + 1);
                }
            }
            return None;
        }
        value = wide as u32;
        i = i + 1;
    }
    assert(digits.take(i - start) == digits);
    Some(value)
}

/// More digits write no smaller number.
proof fn digits_value_grows(digits: Seq<char>, n: int)
    requires
        is_digits(digits),
        0 <= n <= digits.len(),
    ensures
        0 <= digits_value(digits.take(n)) <= digits_value(digits),
    decreases digits.len(),
{
    if n == digits.len() {
        assert(digits.take(n) == digits);
        if n > 0 {
            let before = digits.drop_last();
            if before.len() > 0 {
                digits_value_grows(before, before.len() as int);
                assert(before.take(before.len() as int) == before);
            }
        }
    } else {
        let before = digits.drop_last();
        if before.len() > 0 {
            digits_value_grows(before, n);
            assert(before.take(n) == digits.take(n));
        } else {
            assert(digits.take(n).len() == 0);
            assert(before.len() == 0);
        }
        assert(is_digit(digits.last()));
    }
}

/// Writes a number in decimal notation.
pub fn decimal_u32(value: u32) -> (r: String)
    ensures
        r@ == decimal(value as nat),
{
    let mut reversed: Vec<char> = Vec::new();
    let mut rest: u32 = value;
    assert(reversed@.reverse() =~= Seq::<char>::empty());
    while rest >= 10
        invariant
            decimal(value as nat) == decimal(rest as nat) + reversed@.reverse(),
        decreases rest,
    {
        let low: u8 = (rest % 10) as u8;
        let ghost before = reversed@;
        reversed.push((low + 48) as char);
        proof {
            assert(reversed@.reverse() == seq![digit((rest % 10) as int)] + before.reverse());
            assert(decimal((rest / 10) as nat) + reversed@.reverse() == decimal(rest as nat)
                + before.reverse());
        }
        rest = rest / 10;
    }
    let ghost before = reversed@;
    reversed.push((rest as u8 + 48) as char);
    assert(reversed@.reverse() =~= decimal(rest as nat) + before.reverse());
    backwards(&reversed)
}

/// The text that `chars` make from the last of them to the first.
fn backwards(chars: &[char]) -> (r: String)
    ensures
        r@ == chars@.reverse(),
{
    let mut r = String::new();
    let mut i: usize = chars.len();
    while i > 0
        invariant
            i <= chars.len(),
            r@ == chars@.reverse().take(chars.len() - i),
        decreases i,
    {
        i = i - 1;
        r.push(chars[i]);
    }
    assert(chars@.reverse().take(chars.len() as int) == chars@.reverse());
    r
}

/// Writes a signed number in decimal notation.
pub fn decimal_i32(value: i32) -> (r: String)
    ensures
        r@ == signed_decimal(value as int),
{
    if value < 0 {
        let magnitude: u32 = (-(value as i64)) as u32;
        text::join("-", &decimal_u32(magnitude))
    } else {
        decimal_u32(value as u32)
    }
}

/// Writes a number of 32 bits in hexadecimal notation.
pub fn hex_u32(value: u32) -> (r: String)
    ensures
        r@ == hex(value as nat, 8),
{
    let mut reversed: Vec<char> = Vec::new();
    let mut rest: u32 = value;
    let mut left: usize = 8;
    assert(reversed@.reverse() =~= Seq::<char>::empty());
    while left > 0
        invariant
            left <= 8,
            hex(value as nat, 8) == hex(rest as nat, left as nat) + reversed@.reverse(),
        decreases left,
    {
        let low: u8 = (rest % 16) as u8;
        let ghost before = reversed@;
        reversed.push(
            if low < 10 {
                (low + 48) as char
            } else {
                (low + 55) as char
            },
        );
        proof {
            let written = hex_digit((rest % 16) as int);
            assert(reversed@.reverse() == seq![written] + before.reverse());
            assert(hex((rest / 16) as nat, (left - 1) as nat) + reversed@.reverse() == hex(
                rest as nat,
                left as nat,
            ) + before.reverse());
        }
        rest = rest / 16;
        left = left - 1;
    }
    backwards(&reversed)
}

/// Reading a number that was written in decimal notation gives the number back.
pub proof fn decimal_reads_back(value: u32)
    ensures
        u32_of(decimal(value as nat)) == Some(value),
{
    decimal_is_digits(value as nat);
}

/// What [`decimal`] writes is digits, and their value is the number written.
pub proof fn decimal_is_digits(value: nat)
    ensures
        is_digits(decimal(value)),
        without_sign(decimal(value)) == decimal(value),
        digits_value(decimal(value)) == value,
    decreases value,
{
    if value < 10 {
        let written = decimal(value);
        assert(written.drop_last().len() == 0);
        assert(digits_value(written.drop_last()) == 0);
    } else {
        decimal_is_digits(value / 10);
        let written = decimal(value);
        assert(written.drop_last() == decimal(value / 10));
        assert forall|i: int| 0 <= i < written.len() implies is_digit(#[trigger] written[i]) by {
            if i < written.len() - 1 {
                assert(written[i] == decimal(value / 10)[i]);
            }
        }
    }
    assert(is_digit(decimal(value)[0]));
}

/// A number is read digit by digit: a digit alone is its value, one more digit
/// behind a number makes ten times the number and the digit, as long as that fits
/// in 32 bits, and a `+` before a number changes nothing. Nothing else is read.
pub proof fn numbers_are_read_by_digit(text: Seq<char>, c: char)
    ensures
        u32_of(Seq::empty()) is None,
        u32_of(seq![c]) == (if 48 <= c as int <= 57 {
            Some((c as int - 48) as u32)
        } else {
            None
        }),
        text.len() > 0 && text != seq!['+'] ==> u32_of(text.push(c)) == (match u32_of(text) {
            Some(before) if 48 <= c as int <= 57 && 10 * before + (c as int - 48) <= 0xFFFF_FFFF
                => Some((10 * before + (c as int - 48)) as u32),
            _ => None,
        }),
        text.len() > 0 && text[0] != '+' ==> u32_of(seq!['+'] + text) == u32_of(text),
        text.len() > 0 && text[0] == '+' ==> u32_of(seq!['+'] + text) is None,
{
    assert(seq![c].drop_last() == Seq::<char>::empty());
    assert(seq![c].drop_first() == Seq::<char>::empty());
    assert(digits_value(Seq::empty()) == 0);
    assert(digits_value(seq![c]) == c as int - '0' as int);
    if 48 <= c as int <= 57 {
        assert(is_digits(seq![c]));
    } else if is_digits(seq![c]) {
        assert(is_digit(seq![c][0]));
    }
    if text.len() > 0 && text != seq!['+'] {
        let longer = text.push(c);
        let digits = without_sign(text);
        assert(without_sign(longer) == digits.push(c)) by {
            if text[0] == '+' {
                assert(longer.drop_first() == digits.push(c));
            }
        }
        assert(digits.len() > 0) by {
            if text[0] == '+' && text.len() == 1 {
                assert(text == seq!['+']);
            }
        }
        let more = digits.push(c);
        assert(more.drop_last() == digits);
        assert(is_digits(more) <==> is_digits(digits) && is_digit(c)) by {
            if is_digits(more) {
                assert forall|i: int| 0 <= i < digits.len() implies is_digit(
                    #[trigger] digits[i],
                ) by {
                    assert(more[i] == digits[i]);
                }
                assert(is_digit(more[digits.len() as int]));
            }
        }
        if is_digits(digits) {
            digits_value_grows(digits, 0);
            assert(digits_value(digits.take(0)) >= 0);
        }
    }
    if text.len() > 0 {
        let signed = seq!['+'] + text;
        assert(signed.drop_first() == text);
        if text[0] == '+' {
            assert(!is_digit(text[0]));
        }
    }
}

/// A number is written with digits only, and without a zero before others, so
/// there is one way only to write it.
pub proof fn decimal_has_no_leading_zero(value: nat)
    ensures
        decimal(value).len() > 0,
        decimal(value)[0] == '0' ==> value == 0 && decimal(value).len() == 1,
        forall|i: int| 0 <= i < decimal(value).len() ==> 48 <= (#[trigger] decimal(value)[i]) as int
            <= 57,
    decreases value,
{
    decimal_is_digits(value);
    assert forall|i: int| 0 <= i < decimal(value).len() implies 48 <= (#[trigger] decimal(
        value,
    )[i]) as int <= 57 by {
        assert(is_digit(decimal(value)[i]));
    }
    if value >= 10 {
        decimal_has_no_leading_zero(value / 10);
        assert(decimal(value)[0] == decimal(value / 10)[0]);
    }
}

/// A negative number is a `-` before the number without its sign; any other is
/// written as it is.
pub proof fn signed_numbers_read_back(value: i32)
    ensures
        value >= 0 ==> u32_of(signed_decimal(value as int)) == Some(value as u32),
        value >= 0 ==> signed_decimal(value as int) == decimal(value as nat),
        value < 0 ==> {
            let text = signed_decimal(value as int);
            &&& text.len() > 0
            &&& text[0] == '-'
            &&& text.drop_first() == decimal((-value) as nat)
            &&& u32_of(text.drop_first()) == Some((-value) as u32)
        },
{
    if value >= 0 {
        decimal_reads_back(value as u32);
    } else {
        let magnitude = (-value) as u32;
        decimal_reads_back(magnitude);
        reveal_strlit("-");
        assert(signed_decimal(value as int).drop_first() == decimal((-value) as nat));
    }
}

/// Digit `k` of a number in hexadecimal notation is the one that counts the
/// power of sixteen at its place: `0` to `9` and, from ten on, `A` to `F`.
pub proof fn hex_digits_count_powers_of_sixteen(value: nat, width: nat, k: int)
    requires
        0 <= k < width,
    ensures
        hex(value, width).len() == width,
        ({
            let counted = (value / vstd::arithmetic::power::pow(16, (width - 1 - k) as nat) as nat)
                % 16;
            hex(value, width)[k] as int == if counted < 10 {
                48 + counted
            } else {
                55 + counted
            }
        }),
    decreases width,
{
    hex_has_its_width(value, width);
    let rest = (width - 1) as nat;
    hex_has_its_width(value / 16, rest);
    if k == width - 1 {
        vstd::arithmetic::power::lemma_pow0(16);
        assert(value / 1 == value) by (nonlinear_arith);
    } else {
        hex_digits_count_powers_of_sixteen(value / 16, rest, k);
        let low = vstd::arithmetic::power::pow(16, (rest - 1 - k) as nat);
        let high = vstd::arithmetic::power::pow(16, (width - 1 - k) as nat);
        vstd::arithmetic::power::lemma_pow_adds(16, 1, (rest - 1 - k) as nat);
        vstd::arithmetic::power::lemma_pow1(16);
        vstd::arithmetic::power::lemma_pow_positive(16, (rest - 1 - k) as nat);
        assert(high == 16 * low);
        vstd::arithmetic::div_mod::lemma_div_denominator(value as int, 16, low);
        assert(value / high as nat == (value / 16) / low as nat);
        assert(hex(value, width)[k] == hex(value / 16, rest)[k]);
    }
}

/// A number in hexadecimal notation has as many digits as are asked for.
proof fn hex_has_its_width(value: nat, width: nat)
    ensures
        hex(value, width).len() == width,
    decreases width,
{
    if width > 0 {
        hex_has_its_width(value / 16, (width - 1) as nat);
    }
}

} // verus!
