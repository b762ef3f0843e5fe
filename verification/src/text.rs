//! Text the machine exchanges with its callers: words printed as
//! binary or decimal digits, numbers parsed back from digit strings,
//! and the fixed-format register dump.

use vstd::prelude::*;

verus! {

/// The character of one bit of a word: bit `position`, counted from
/// the least significant end.
pub open spec fn bit_char(value: u16, position: u16) -> char {
    if (value >> position) & 1 == 1 {
        '1'
    } else {
        '0'
    }
}

/// A word as sixteen binary digits, most significant first.
pub open spec fn binary_chars(value: u16) -> Seq<char> {
    Seq::new(16, |i: int| bit_char(value, (15 - i) as u16))
}

/// The character of one decimal digit.
pub open spec fn digit_char(digit: u16) -> char {
    if digit == 0 {
        '0'
    } else if digit == 1 {
        '1'
    } else if digit == 2 {
        '2'
    } else if digit == 3 {
        '3'
    } else if digit == 4 {
        '4'
    } else if digit == 5 {
        '5'
    } else if digit == 6 {
        '6'
    } else if digit == 7 {
        '7'
    } else if digit == 8 {
        '8'
    } else {
        '9'
    }
}

/// A word as decimal digits, without leading zeroes (a single zero
/// for the word zero).
pub open spec fn decimal_chars(value: u16) -> Seq<char>
    decreases value,
{
    if value < 10 {
        seq![digit_char(value)]
    } else {
        decimal_chars(value / 10).push(digit_char(value % 10))
    }
}

/// Whether the character is a decimal digit.
pub open spec fn is_decimal_digit(c: char) -> bool {
    48 <= c as u32 <= 57
}

/// Whether the character is a binary digit.
pub open spec fn is_binary_digit(c: char) -> bool {
    48 <= c as u32 <= 49
}

/// The number a string of decimal digits names.
pub open spec fn decimal_value(digits: Seq<char>) -> int
    decreases digits.len(),
{
    if digits.len() == 0 {
        0
    } else {
        decimal_value(digits.drop_last()) * 10 + (digits.last() as u32 - 48)
    }
}

/// The number a string of binary digits names.
pub open spec fn binary_value(digits: Seq<char>) -> int
    decreases digits.len(),
{
    if digits.len() == 0 {
        0
    } else {
        binary_value(digits.drop_last()) * 2 + (digits.last() as u32 - 48)
    }
}

/// The digits after an optional leading plus sign.
pub open spec fn after_sign(text: Seq<char>) -> Seq<char> {
    if text.len() > 0 && text[0] == '+' {
        text.subrange(1, text.len() as int)
    } else {
        text
    }
}

/// What parsing an unsigned decimal number yields: after an optional
/// plus sign, at least one digit and nothing else, naming a number
/// that fits in a word; anything else is rejected.
pub open spec fn parse_u16_decimal_spec(text: Seq<char>) -> Option<u16> {
    let digits = after_sign(text);
    if digits.len() == 0 || !(forall|i: int| 0 <= i < digits.len() ==> is_decimal_digit(#[trigger] digits[i])) {
        None
    } else if decimal_value(digits) > 0xFFFF {
        None
    } else {
        Some(decimal_value(digits) as u16)
    }
}

/// What parsing an unsigned binary number yields, in the same way.
pub open spec fn parse_u16_binary_spec(text: Seq<char>) -> Option<u16> {
    let digits = after_sign(text);
    if digits.len() == 0 || !(forall|i: int| 0 <= i < digits.len() ==> is_binary_digit(#[trigger] digits[i])) {
        None
    } else if binary_value(digits) > 0xFFFF {
        None
    } else {
        Some(binary_value(digits) as u16)
    }
}

/// A digit string names a number at least as large as any of its
/// prefixes.
proof fn lemma_decimal_prefix_bound(digits: Seq<char>, count: int)
    requires
        0 <= count <= digits.len(),
        forall|i: int| 0 <= i < digits.len() ==> is_decimal_digit(#[trigger] digits[i]),
    ensures
        decimal_value(digits) >= decimal_value(digits.subrange(0, count)),
        decimal_value(digits.subrange(0, count)) >= 0,
    decreases digits.len(),
{
    assert(digits.subrange(0, digits.len() as int) =~= digits);
    if digits.len() == 0 {
    } else if count == digits.len() {
        lemma_decimal_prefix_bound(digits.drop_last(), count - 1);
        assert(digits.drop_last().subrange(0, count - 1) =~= digits.subrange(0, count).drop_last());
    } else {
        lemma_decimal_prefix_bound(digits.drop_last(), count);
        assert(digits.drop_last().subrange(0, count) =~= digits.subrange(0, count));
    }
}

/// As above, for binary digit strings.
proof fn lemma_binary_prefix_bound(digits: Seq<char>, count: int)
    requires
        0 <= count <= digits.len(),
        forall|i: int| 0 <= i < digits.len() ==> is_binary_digit(#[trigger] digits[i]),
    ensures
        binary_value(digits) >= binary_value(digits.subrange(0, count)),
        binary_value(digits.subrange(0, count)) >= 0,
    decreases digits.len(),
{
    assert(digits.subrange(0, digits.len() as int) =~= digits);
    if digits.len() == 0 {
    } else if count == digits.len() {
        lemma_binary_prefix_bound(digits.drop_last(), count - 1);
        assert(digits.drop_last().subrange(0, count - 1) =~= digits.subrange(0, count).drop_last());
    } else {
        lemma_binary_prefix_bound(digits.drop_last(), count);
        assert(digits.drop_last().subrange(0, count) =~= digits.subrange(0, count));
    }
}

/// Parse an unsigned decimal number as the debug channel accepts it:
/// an optional plus sign, then decimal digits naming a number that
/// fits in a word.
pub fn parse_u16_decimal(text: &str) -> (r: Option<u16>)
    ensures
        r == parse_u16_decimal_spec(text@),
{
    let length = text.unicode_len();
    if length == 0 {
        return None;
    }
    let start: usize = if text.get_char(0) == '+' {
        1
    } else {
        0
    };
    let ghost digits = after_sign(text@);
    proof {
        assert(digits =~= text@.subrange(start as int, length as int));
    }
    if start == length {
        return None;
    }
    let mut value: u32 = 0;
    let mut index: usize = start;
    while index < length
        invariant
            start <= index <= length,
            length == text@.len(),
            digits == text@.subrange(start as int, length as int),
            digits == after_sign(text@),
            forall|i: int| 0 <= i < index - start ==> is_decimal_digit(#[trigger] digits[i]),
            value == decimal_value(digits.subrange(0, index - start)),
            value <= 0xFFFF,
        decreases length - index,
    {
        let c = text.get_char(index);
        let code = c as u32;
        if code < 48 || code > 57 {
            assert(!is_decimal_digit(digits[index - start]));
            return None;
        }
        value = value * 10 + (code - 48);
        proof {
            assert(digits.subrange(0, index - start + 1).drop_last() =~= digits.subrange(
                0,
                index - start,
            ));
        }
        if value > 0xFFFF {
            proof {
                if forall|i: int| 0 <= i < digits.len() ==> is_decimal_digit(#[trigger] digits[i]) {
                    lemma_decimal_prefix_bound(digits, index - start + 1);
                }
            }
            return None;
        }
        index = index + 1;
    }
    proof {
        assert(digits.subrange(0, length - start) =~= digits);
    }
    Some(value as u16)
}

/// Parse an unsigned binary number as the interactive console accepts
/// it: an optional plus sign, then binary digits naming a number that
/// fits in a word.
pub fn parse_u16_binary(text: &str) -> (r: Option<u16>)
    ensures
        r == parse_u16_binary_spec(text@),
{
    let length = text.unicode_len();
    if length == 0 {
        return None;
    }
    let start: usize = if text.get_char(0) == '+' {
        1
    } else {
        0
    };
    let ghost digits = after_sign(text@);
    proof {
        assert(digits =~= text@.subrange(start as int, length as int));
    }
    if start == length {
        return None;
    }
    let mut value: u32 = 0;
    let mut index: usize = start;
    while index < length
        invariant
            start <= index <= length,
            length == text@.len(),
            digits == text@.subrange(start as int, length as int),
            digits == after_sign(text@),
            forall|i: int| 0 <= i < index - start ==> is_binary_digit(#[trigger] digits[i]),
            value == binary_value(digits.subrange(0, index - start)),
            value <= 0xFFFF,
        decreases length - index,
    {
        let c = text.get_char(index);
        let code = c as u32;
        if code < 48 || code > 49 {
            assert(!is_binary_digit(digits[index - start]));
            return None;
        }
        value = value * 2 + (code - 48);
        proof {
            assert(digits.subrange(0, index - start + 1).drop_last() =~= digits.subrange(
                0,
                index - start,
            ));
        }
        if value > 0xFFFF {
            proof {
                if forall|i: int| 0 <= i < digits.len() ==> is_binary_digit(#[trigger] digits[i]) {
                    lemma_binary_prefix_bound(digits, index - start + 1);
                }
            }
            return None;
        }
        index = index + 1;
    }
    proof {
        assert(digits.subrange(0, length - start) =~= digits);
    }
    Some(value as u16)
}

/// The one-character string of a decimal digit.
fn digit_str(digit: u16) -> (r: &'static str)
    requires
        digit < 10,
    ensures
        r@ == seq![digit_char(digit)],
{
    proof {
        reveal_strlit("0");
        reveal_strlit("1");
        reveal_strlit("2");
        reveal_strlit("3");
        reveal_strlit("4");
        reveal_strlit("5");
        reveal_strlit("6");
        reveal_strlit("7");
        reveal_strlit("8");
        reveal_strlit("9");
    }
    let r = match digit {
        0 => "0",
        1 => "1",
        2 => "2",
        3 => "3",
        4 => "4",
        5 => "5",
        6 => "6",
        7 => "7",
        8 => "8",
        _ => "9",
    };
    proof {
        assert(r@ =~= seq![digit_char(digit)]);
    }
    r
}

/// Append a word's sixteen binary digits, most significant first.
pub fn push_binary(target: &mut String, value: u16)
    ensures
        final(target)@ == old(target)@ + binary_chars(value),
{
    proof {
        reveal_strlit("0");
        reveal_strlit("1");
    }
    let mut remaining: u16 = 16;
    while remaining > 0
        invariant
            remaining <= 16,
            target@ == old(target)@ + binary_chars(value).subrange(0, 16 - remaining),
        decreases remaining,
    {
        proof {
            reveal_strlit("0");
            reveal_strlit("1");
        }
        remaining = remaining - 1;
        let bit = (value >> remaining) & 1;
        if bit == 1 {
            target.append("1");
        } else {
            target.append("0");
        }
        proof {
            assert(binary_chars(value).subrange(0, 16 - remaining) =~= binary_chars(
                value,
            ).subrange(0, 15 - remaining).push(bit_char(value, remaining)));
            assert(target@ =~= old(target)@ + binary_chars(value).subrange(0, 16 - remaining));
        }
    }
    proof {
        assert(binary_chars(value).subrange(0, 16) =~= binary_chars(value));
    }
}

/// One register's piece of the dump: "0b", the sixteen binary
/// digits, and the "::" separator.
pub open spec fn word_dump_chars(value: u16) -> Seq<char> {
    seq!['0', 'b'] + binary_chars(value) + seq![':', ':']
}

/// The pieces of the first `count` registers, in file order.
pub open spec fn dump_prefix_chars(regs: Seq<u16>, count: int) -> Seq<char>
    decreases count,
{
    if count <= 0 {
        Seq::empty()
    } else {
        dump_prefix_chars(regs, count - 1) + word_dump_chars(regs[count - 1])
    }
}

/// The register dump: one piece per register, each value as "0b" and
/// sixteen binary digits, each followed by the "::" separator.
pub open spec fn register_dump_chars(regs: Seq<u16>) -> Seq<char> {
    dump_prefix_chars(regs, regs.len() as int)
}

/// Append a word's decimal digits, without leading zeroes.
pub fn push_decimal(target: &mut String, value: u16)
    ensures
        final(target)@ == old(target)@ + decimal_chars(value),
    decreases value,
{
    if value >= 10 {
        push_decimal(target, value / 10);
    }
    target.append(digit_str(value % 10));
    proof {
        assert(target@ =~= old(target)@ + decimal_chars(value));
    }
}

} // verus!
