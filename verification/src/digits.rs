//! Numbers as text: digits in a radix, and decimal numbers padded with
//! zeros to a width.

use vstd::prelude::*;
use vstd::arithmetic::div_mod::{lemma_div_decreases, lemma_mod_bound, lemma_small_mod};
use crate::trusted::push_char;

verus! {

/// The character of the digit `d`: `0` to `9`, then `a` to `f`.
pub open spec fn digit_char(d: nat) -> char {
    if d < 10 {
        (48 + d) as char
    } else {
        (87 + d) as char
    }
}

/// The digits of `n` in the given radix, the most significant first,
/// without leading zeros; the single digit `0` for zero.
pub open spec fn radix_digits(n: nat, radix: nat) -> Seq<char>
    decreases n,
    via radix_digits_decreases
{
    if radix < 2 || n < radix {
        seq![digit_char(n)]
    } else {
        radix_digits(n / radix, radix).push(digit_char(n % radix))
    }
}

#[via_fn]
proof fn radix_digits_decreases(n: nat, radix: nat) {
    if radix >= 2 && n >= radix {
        lemma_div_decreases(n as int, radix as int);
    }
}

/// `digits` with zeros put in front until it is at least `width` long.
pub open spec fn zero_padded(digits: Seq<char>, width: nat) -> Seq<char>
    decreases width - digits.len(),
{
    if digits.len() >= width {
        digits
    } else {
        zero_padded(seq!['0'] + digits, width)
    }
}

/// The decimal form of `value`, padded with zeros to `width` characters. A
/// negative number starts with `-`, which counts towards the width.
pub open spec fn padded_decimal(value: int, width: nat) -> Seq<char> {
    if value >= 0 {
        zero_padded(radix_digits(value as nat, 10), width)
    } else if width >= 1 {
        seq!['-'] + zero_padded(radix_digits((-value) as nat, 10), (width - 1) as nat)
    } else {
        seq!['-'] + radix_digits((-value) as nat, 10)
    }
}

/// The character of the digit `d`.
fn digit(d: u64) -> (c: char)
    requires
        d < 16,
    ensures
        c == digit_char(d as nat),
{
    if d < 10 {
        ((48 + d) as u8) as char
    } else {
        ((87 + d) as u8) as char
    }
}

/// Appends the characters of `tail`, last one first, to `text`.
fn push_reversed(text: &mut String, tail: &Vec<char>)
    ensures
        final(text)@ == old(text)@ + tail@.reverse(),
{
    let ghost start = text@;
    let mut i: usize = tail.len();
    assert(start + tail@.reverse().take(0) =~= start);
    while i > 0
        invariant
            i <= tail.len(),
            text@ == start + tail@.reverse().take(tail.len() - i),
        decreases i,
    {
        i -= 1;
        push_char(text, tail[i]);
        proof {
            let r = tail@.reverse();
            let done = tail.len() - i;
            assert(r.take(done) =~= r.take(done - 1).push(tail@[i as int]));
            assert(text@ =~= start + r.take(done));
        }
    }
    assert(tail@.reverse().take(tail.len() as int) =~= tail@.reverse());
}

/// The digits of `value`, least significant first.
fn digits_reversed(value: u64, radix: u64) -> (digits: Vec<char>)
    requires
        2 <= radix <= 16,
    ensures
        digits@.reverse() == radix_digits(value as nat, radix as nat),
        digits.len() >= 1,
{
    let mut digits: Vec<char> = Vec::new();
    proof {
        lemma_mod_bound(value as int, radix as int);
    }
    digits.push(digit(value % radix));
    let mut rest = value / radix;
    proof {
        if value >= radix {
            lemma_div_decreases(value as int, radix as int);
        } else {
            lemma_small_mod(value as nat, radix as nat);
        }
        assert(value < radix ==> rest == 0) by (nonlinear_arith)
            requires
                rest == value / radix,
                radix >= 2,
        ;
        assert(value >= radix ==> rest > 0) by (nonlinear_arith)
            requires
                rest == value / radix,
                radix >= 2,
        ;
        assert(digits@.reverse() =~= seq![digit_char((value % radix) as nat)]);
        if rest > 0 {
            assert(radix_digits(value as nat, radix as nat) =~= radix_digits(
                rest as nat,
                radix as nat,
            ) + digits@.reverse());
        }
    }
    while rest > 0
        invariant
            2 <= radix <= 16,
            digits.len() >= 1,
            rest > 0 ==> radix_digits(value as nat, radix as nat) == radix_digits(
                rest as nat,
                radix as nat,
            ) + digits@.reverse(),
            rest == 0 ==> radix_digits(value as nat, radix as nat) == digits@.reverse(),
        decreases rest,
    {
        let ghost before = digits@;
        proof {
            lemma_mod_bound(rest as int, radix as int);
            lemma_div_decreases(rest as int, radix as int);
            if rest < radix {
                lemma_small_mod(rest as nat, radix as nat);
            }
        }
        let d = digit(rest % radix);
        digits.push(d);
        let next = rest / radix;
        proof {
            assert(rest < radix ==> next == 0) by (nonlinear_arith)
                requires
                    next == rest / radix,
                    radix >= 2,
            ;
            assert(rest >= radix ==> next > 0) by (nonlinear_arith)
                requires
                    next == rest / radix,
                    radix >= 2,
            ;
            assert(digits@.reverse() =~= seq![d] + before.reverse());
            if next > 0 {
                assert(radix_digits(rest as nat, radix as nat) == radix_digits(
                    next as nat,
                    radix as nat,
                ).push(d));
                assert(radix_digits(value as nat, radix as nat) =~= radix_digits(
                    next as nat,
                    radix as nat,
                ) + digits@.reverse());
            } else {
                assert(radix_digits(rest as nat, radix as nat) =~= seq![d]);
                assert(radix_digits(value as nat, radix as nat) =~= digits@.reverse());
            }
        }
        rest = next;
    }
    digits
}

/// The digits of `value` in hexadecimal, lower case, without leading zeros.
pub fn hex_string(value: u64) -> (text: String)
    ensures
        text@ == radix_digits(value as nat, 16),
{
    let digits = digits_reversed(value, 16);
    let mut text = String::new();
    push_reversed(&mut text, &digits);
    assert(text@ =~= digits@.reverse());
    text
}

/// The decimal form of `value`, padded with zeros to `width` characters;
/// the sign of a negative number counts towards the width.
pub fn padded_decimal_string(value: i32, width: usize) -> (text: String)
    ensures
        text@ == padded_decimal(value as int, width as nat),
{
    let magnitude: u64 = if value >= 0 {
        value as u64
    } else {
        (-(value as i64)) as u64
    };
    let mut digits = digits_reversed(magnitude, 10);
    let ghost bare = digits@.reverse();
    let mut text = String::new();
    let mut room = width;
    if value < 0 {
        push_char(&mut text, '-');
        if room >= 1 {
            room -= 1;
        }
    }
    while digits.len() < room
        invariant
            zero_padded(digits@.reverse(), room as nat) == zero_padded(bare, room as nat),
        decreases room - digits.len(),
    {
        let ghost before = digits@;
        digits.push('0');
        assert(digits@.reverse() =~= seq!['0'] + before.reverse());
    }
    let ghost sign = text@;
    push_reversed(&mut text, &digits);
    proof {
        assert(zero_padded(digits@.reverse(), room as nat) == digits@.reverse());
        if value < 0 && width == 0 {
            assert(zero_padded(bare, 0) == bare);
        }
        assert(sign + digits@.reverse() =~= padded_decimal(value as int, width as nat));
    }
    text
}

} // verus!
