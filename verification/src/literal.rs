//! Number literals of the assembly dialect: hexadecimal with a `0x`
//! prefix, and plain decimal. Either must fit in a word.

use vstd::prelude::*;
use crate::text::{push_char, Span};

verus! {

/// Why a token is not a number literal.
#[derive(Clone, Copy, Debug, PartialEq, Eq)]
pub enum LiteralError {
    /// The token is empty, lacks its prefix or holds a character that is
    /// no digit.
    Malformed,
    /// The digits are fine, but the number is above 65,535.
    TooBig,
}

/// The value of `c` as a digit in the given radix, 10 or 16.
pub open spec fn digit_value(c: char, radix: u32) -> Option<u32> {
    if '0' <= c <= '9' {
        Some((c as u32 - '0' as u32) as u32)
    } else if radix == 16 && 'A' <= c <= 'F' {
        Some((c as u32 - 'A' as u32 + 10) as u32)
    } else if radix == 16 && 'a' <= c <= 'f' {
        Some((c as u32 - 'a' as u32 + 10) as u32)
    } else {
        None
    }
}

/// Every character of `digits` is a digit in the given radix.
pub open spec fn all_digits(digits: Seq<char>, radix: u32) -> bool {
    forall|i: int| 0 <= i < digits.len() ==> digit_value(#[trigger] digits[i], radix) is Some
}

/// The number that `digits` spell in the given radix, most significant
/// digit first.
pub open spec fn digits_value(digits: Seq<char>, radix: u32) -> nat
    decreases digits.len(),
{
    if digits.len() == 0 {
        0
    } else {
        let last: nat = match digit_value(digits.last(), radix) {
            Some(d) => d as nat,
            None => 0,
        };
        digits_value(digits.drop_last(), radix) * (radix as nat) + last
    }
}

/// The word that `digits` spell in the given radix.
pub open spec fn number(digits: Seq<char>, radix: u32) -> Result<u16, LiteralError> {
    if digits.len() == 0 || !all_digits(digits, radix) {
        Err(LiteralError::Malformed)
    } else if digits_value(digits, radix) > 0xFFFF {
        Err(LiteralError::TooBig)
    } else {
        Ok(digits_value(digits, radix) as u16)
    }
}

/// The word that a hexadecimal literal spells: `0x`, then one or more
/// hexadecimal digits in either case.
pub open spec fn hex_literal(token: Seq<char>) -> Result<u16, LiteralError> {
    if token.len() >= 2 && token[0] == '0' && token[1] == 'x' {
        number(token.subrange(2, token.len() as int), 16)
    } else {
        Err(LiteralError::Malformed)
    }
}

/// The word that a decimal literal spells: one or more decimal digits.
pub open spec fn dec_literal(token: Seq<char>) -> Result<u16, LiteralError> {
    number(token, 10)
}

/// The low sixteen bits of a character's code point.
pub open spec fn char_word(c: char) -> u16 {
    (c as u32 % 0x1_0000) as u16
}

/// The low sixteen bits of a character's code point.
pub fn char_to_word(c: char) -> (word: u16)
    ensures
        word == char_word(c),
{
    ((c as u32) % 0x1_0000) as u16
}

/// Reads one digit.
pub fn digit_of(c: char, radix: u32) -> (digit: Option<u32>)
    requires
        radix == 10 || radix == 16,
    ensures
        digit == digit_value(c, radix),
        digit matches Some(d) ==> d < radix,
{
    if '0' <= c && c <= '9' {
        Some(c as u32 - '0' as u32)
    } else if radix == 16 && 'A' <= c && c <= 'F' {
        Some(c as u32 - 'A' as u32 + 10)
    } else if radix == 16 && 'a' <= c && c <= 'f' {
        Some(c as u32 - 'a' as u32 + 10)
    } else {
        None
    }
}

/// Reads the digits that `span` covers as a word.
pub fn parse_number(src: &Vec<char>, span: Span, radix: u32) -> (result: Result<u16, LiteralError>)
    requires
        span.within(src@.len()),
        radix == 10 || radix == 16,
    ensures
        result == number(span.text(src@), radix),
{
    let ghost digits = span.text(src@);
    if span.start == span.end {
        return Err(LiteralError::Malformed);
    }
    let mut value: u32 = 0;
    let mut too_big: bool = false;
    let mut pos: usize = span.start;
    while pos < span.end
        invariant
            span.within(src@.len()),
            radix == 10 || radix == 16,
            digits == span.text(src@),
            span.start <= pos <= span.end,
            all_digits(digits.take(pos - span.start), radix),
            !too_big ==> value == digits_value(digits.take(pos - span.start), radix) && value
                <= 0xFFFF,
            too_big ==> digits_value(digits.take(pos - span.start), radix) > 0xFFFF,
        decreases span.end - pos,
    {
        let ghost seen = digits.take(pos - span.start);
        let ghost more = digits.take(pos - span.start + 1);
        proof {
            assert(more.drop_last() =~= seen);
            assert(more.last() == src@[pos as int]);
        }
        match digit_of(src[pos], radix) {
            None => {
                assert(digit_value(digits[pos - span.start], radix) is None);
                return Err(LiteralError::Malformed);
            },
            Some(d) => {
                proof {
                    assert forall|i: int| 0 <= i < more.len() implies digit_value(
                        #[trigger] more[i],
                        radix,
                    ) is Some by {
                        if i < seen.len() {
                            assert(more[i] == seen[i]);
                        }
                    }
                    assert(digits_value(more, radix) == digits_value(seen, radix) * (radix as nat)
                        + d);
                    if too_big {
                        assert(digits_value(seen, radix) * (radix as nat) >= digits_value(
                            seen,
                            radix,
                        )) by (nonlinear_arith)
                            requires
                                radix >= 1,
                        ;
                    }
                }
                if !too_big {
                    value = value * radix + d;
                    if value > 0xFFFF {
                        too_big = true;
                    }
                }
            },
        }
        pos += 1;
    }
    assert(digits.take(pos - span.start) =~= digits);
    if too_big {
        Err(LiteralError::TooBig)
    } else {
        Ok(value as u16)
    }
}

/// Reads a hexadecimal literal.
pub fn parse_hex_lit(src: &Vec<char>, token: Span) -> (result: Result<u16, LiteralError>)
    requires
        token.within(src@.len()),
    ensures
        result == hex_literal(token.text(src@)),
{
    if token.end - token.start >= 2 && src[token.start] == '0' && src[token.start + 1] == 'x' {
        let digits = Span { start: token.start + 2, end: token.end };
        assert(digits.text(src@) =~= token.text(src@).subrange(2, token.text(src@).len() as int));
        parse_number(src, digits, 16)
    } else {
        Err(LiteralError::Malformed)
    }
}

/// Reads a decimal literal.
pub fn parse_dec_lit(src: &Vec<char>, token: Span) -> (result: Result<u16, LiteralError>)
    requires
        token.within(src@.len()),
    ensures
        result == dec_literal(token.text(src@)),
{
    parse_number(src, token, 10)
}

/// The character of the decimal digit `digit`.
pub open spec fn digit_char(digit: nat) -> char {
    (('0' as u8 + digit) as u8) as char
}

/// The decimal digits of `n`, most significant first, without leading
/// zeros.
pub open spec fn decimal(n: nat) -> Seq<char>
    decreases n,
{
    if n < 10 {
        seq![digit_char(n)]
    } else {
        decimal(n / 10).push(digit_char(n % 10))
    }
}

/// The characters of `digits` in reverse order.
pub open spec fn backwards(digits: Seq<char>) -> Seq<char> {
    Seq::new(digits.len(), |i: int| digits[digits.len() - 1 - i])
}

/// The character of a decimal digit has the value of the digit.
pub proof fn lemma_digit_char(digit: nat)
    requires
        digit < 10,
    ensures
        digit_value(digit_char(digit), 10) == Some(digit as u32),
        digit_value(digit_char(digit), 16) == Some(digit as u32),
{
    let c = digit_char(digit);
    assert(c as u32 == '0' as u32 + digit);
}

/// The decimal digits of a number spell that number.
pub proof fn lemma_decimal_reads_back(n: nat)
    ensures
        decimal(n).len() > 0,
        all_digits(decimal(n), 10),
        digits_value(decimal(n), 10) == n,
    decreases n,
{
    let all = decimal(n);
    lemma_digit_char(n % 10);
    if n >= 10 {
        lemma_decimal_reads_back(n / 10);
        let front = decimal(n / 10);
        assert(all.drop_last() =~= front);
        assert(all.last() == digit_char(n % 10));
        assert forall|i: int| 0 <= i < all.len() implies digit_value(#[trigger] all[i], 10)
            is Some by {
            if i < front.len() {
                assert(all[i] == front[i]);
            }
        }
        assert(digits_value(all, 10) == digits_value(front, 10) * 10 + n % 10);
    } else {
        assert(all.drop_last() =~= Seq::<char>::empty());
        assert(all.last() == digit_char(n));
        assert(digits_value(all.drop_last(), 10) == 0);
        assert(digits_value(all, 10) == n);
    }
}

/// A word that is written in decimal and read as a decimal literal is the
/// same word.
pub proof fn lemma_decimal_literal_roundtrip(word: u16)
    ensures
        dec_literal(decimal(word as nat)) == Ok::<u16, LiteralError>(word),
{
    lemma_decimal_reads_back(word as nat);
}

/// Appends the decimal digits of `n` to `text`.
pub fn push_decimal(text: &mut String, n: usize)
    ensures
        final(text)@ == old(text)@ + decimal(n as nat),
{
    let mut digits: Vec<char> = Vec::new();
    digits.push((('0' as u8) + (n % 10) as u8) as char);
    let mut rest: usize = n / 10;
    assert(backwards(digits@) =~= seq![digit_char((n % 10) as nat)]);
    while rest > 0
        invariant
            decimal(n as nat) == if rest > 0 {
                decimal(rest as nat) + backwards(digits@)
            } else {
                backwards(digits@)
            },
        decreases rest,
    {
        let ghost before = digits@;
        let ghost digit = digit_char((rest % 10) as nat);
        digits.push((('0' as u8) + (rest % 10) as u8) as char);
        proof {
            assert(backwards(digits@) =~= seq![digit] + backwards(before));
            if rest >= 10 {
                assert(decimal(rest as nat) == decimal((rest / 10) as nat).push(digit));
                assert(decimal((rest / 10) as nat).push(digit) + backwards(before) =~= decimal(
                    (rest / 10) as nat,
                ) + (seq![digit] + backwards(before)));
            } else {
                assert(decimal(rest as nat) == seq![digit]);
            }
        }
        rest = rest / 10;
    }
    let ghost all = backwards(digits@);
    let mut left: usize = digits.len();
    assert(text@ =~= old(text)@ + all.take(0));
    while left > 0
        invariant
            left <= digits@.len(),
            all == backwards(digits@),
            text@ == old(text)@ + all.take(digits@.len() - left),
        decreases left,
    {
        left -= 1;
        let ghost done = digits@.len() - left - 1;
        proof {
            assert(all[done] == digits@[left as int]);
            assert(all.take(done + 1) =~= all.take(done).push(all[done]));
            assert(old(text)@ + all.take(done).push(all[done]) =~= (old(text)@ + all.take(
                done,
            )).push(all[done]));
        }
        push_char(text, digits[left]);
    }
    assert(all.take(digits@.len() as int) =~= all);
}

} // verus!
