//! What the texts of numbers, bytes and lists look like, character by character.

use crate::text::{
    big_endian, decimal, digit, hex, hex_byte, joined, lines, lower, trim_zeros,
};
use vstd::arithmetic::power::pow;
use vstd::prelude::*;

verus! {

/// The hexadecimal digit of a number below sixteen.
pub open spec fn hexit(n: int) -> char {
    "0123456789abcdef"@[n]
}

/// Whether `text` writes `bytes` with two hexadecimal digits each, in order, from offset `from` on.
pub open spec fn writes_bytes(text: Seq<char>, from: int, bytes: Seq<u8>) -> bool {
    &&& text.len() == from + 2 * bytes.len()
    &&& forall|k: int|
        0 <= k < bytes.len() ==> text[from + 2 * k] == hexit((#[trigger] bytes[k]) as int / 16)
            && text[from + 2 * k + 1] == hexit(bytes[k] as int % 16)
}

/// Whether `text` is `0x` and the hexadecimal digits of `bytes`.
pub open spec fn writes_prefixed(text: Seq<char>, bytes: Seq<u8>) -> bool {
    &&& text.len() >= 2 && text[0] == '0' && text[1] == 'x'
    &&& writes_bytes(text, 2, bytes)
}

/// The number that decimal digits stand for.
pub open spec fn numeral_value(text: Seq<char>) -> int
    decreases text.len(),
{
    if text.len() == 0 {
        0
    } else {
        10 * numeral_value(text.drop_last()) + (text.last() as int - '0' as int)
    }
}

/// Whether `text` writes `n` in decimal digits, without a zero in front.
pub open spec fn writes_number(text: Seq<char>, n: int) -> bool {
    &&& text.len() >= 1
    &&& text.len() > 1 ==> text[0] != '0'
    &&& forall|i: int| 0 <= i < text.len() ==> '0' <= #[trigger] text[i] <= '9'
    &&& numeral_value(text) == n
}

/// The digits are the characters from `0` to `9` and from `a` to `f`.
pub proof fn law_digit(d: int)
    requires
        0 <= d < 16,
    ensures
        digit(d) == hexit(d),
        d < 10 ==> '0' <= digit(d) <= '9' && digit(d) as int - '0' as int == d,
{
    reveal_strlit("0123456789abcdef");
}

/// Bytes are written with two digits each, the high one first.
pub proof fn law_hex(bytes: Seq<u8>)
    ensures
        writes_bytes(hex(bytes), 0, bytes),
{
    assert forall|k: int| 0 <= k < bytes.len() implies hex(bytes)[0 + 2 * k] == hexit(
        (#[trigger] bytes[k]) as int / 16,
    ) && hex(bytes)[0 + 2 * k + 1] == hexit(bytes[k] as int % 16) by {
        assert((2 * k) / 2 == k && (2 * k) % 2 == 0);
        assert((2 * k + 1) / 2 == k && (2 * k + 1) % 2 == 1);
        law_digit(bytes[k] as int / 16);
        law_digit(bytes[k] as int % 16);
    }
}

/// A byte is written with one digit or two: the high digit is left out if it is zero.
pub proof fn law_hex_byte(b: u8)
    ensures
        hex_byte(b).last() == hexit(b as int % 16),
        b < 16 ==> hex_byte(b).len() == 1,
        b >= 16 ==> hex_byte(b).len() == 2 && hex_byte(b)[0] == hexit(b as int / 16),
{
    law_digit(b as int / 16);
    law_digit(b as int % 16);
}

/// A number is written in decimal, without a zero in front.
pub proof fn law_decimal(n: nat)
    ensures
        writes_number(decimal(n), n as int),
        n > 0 ==> decimal(n)[0] != '0',
    decreases n,
{
    law_digit((n % 10) as int);
    if n < 10 {
        assert(decimal(n).drop_last() =~= seq![]);
        assert(numeral_value(seq![]) == 0);
    } else {
        law_decimal(n / 10);
        assert(decimal(n).drop_last() =~= decimal(n / 10));
        assert forall|i: int| 0 <= i < decimal(n).len() implies '0' <= #[trigger] decimal(n)[i]
            <= '9' by {
            if i < decimal(n / 10).len() {
                assert(decimal(n)[i] == decimal(n / 10)[i]);
            }
        }
        assert(decimal(n)[0] == decimal(n / 10)[0]);
    }
}

/// The first byte of a number counts most: as often as there are numbers of the other bytes.
pub proof fn law_big_endian(bytes: Seq<u8>)
    ensures
        bytes.len() == 0 ==> big_endian(bytes) == 0,
        bytes.len() > 0 ==> big_endian(bytes) == bytes[0] * pow(256, (bytes.len() - 1) as nat)
            + big_endian(bytes.skip(1)),
    decreases bytes.len(),
{
    reveal(pow);
    if bytes.len() == 1 {
        assert(bytes.drop_last() =~= seq![]);
        assert(bytes.skip(1) =~= seq![]);
        assert(pow(256, 0) == 1);
    } else if bytes.len() > 1 {
        let front = bytes.drop_last();
        law_big_endian(front);
        assert(bytes.skip(1).drop_last() =~= front.skip(1));
        assert(bytes.skip(1).last() == bytes.last());
        let p = pow(256, (bytes.len() - 2) as nat);
        assert(pow(256, (bytes.len() - 1) as nat) == 256 * p);
        let b = bytes[0] as int;
        assert(256 * (b * p) == b * (256 * p)) by (nonlinear_arith);
    }
}

/// A number of more bytes is that of the first ones, moved up by the others, and that of the
/// others.
pub proof fn law_big_endian_parts(high: Seq<u8>, low: Seq<u8>)
    ensures
        big_endian(high + low) == big_endian(high) * pow(256, low.len()) + big_endian(low),
    decreases low.len(),
{
    reveal(pow);
    if low.len() == 0 {
        assert(high + low =~= high);
        assert(pow(256, 0) == 1);
    } else {
        assert((high + low).drop_last() =~= high + low.drop_last());
        law_big_endian_parts(high, low.drop_last());
        let h = big_endian(high) as int;
        let p = pow(256, (low.len() - 1) as nat);
        assert(pow(256, low.len()) == 256 * p);
        assert(256 * (h * p) == h * (256 * p)) by (nonlinear_arith);
    }
}

/// Only zeros are dropped, and only in front; no zero stays in front.
pub proof fn law_trim_zeros(s: Seq<char>)
    ensures
        trim_zeros(s).len() <= s.len(),
        s.skip(s.len() - trim_zeros(s).len()) == trim_zeros(s),
        forall|i: int| 0 <= i < s.len() - trim_zeros(s).len() ==> #[trigger] s[i] == '0',
        trim_zeros(s).len() > 0 ==> trim_zeros(s)[0] != '0',
    decreases s.len(),
{
    if s.len() > 0 && s[0] == '0' {
        let rest = s.skip(1);
        law_trim_zeros(rest);
        let n = rest.len() - trim_zeros(rest).len();
        assert(s.skip(n + 1) =~= rest.skip(n));
        assert forall|i: int| 0 <= i < n + 1 implies #[trigger] s[i] == '0' by {
            if i > 0 {
                assert(s[i] == rest[i - 1]);
            }
        }
    } else {
        assert(s.skip(0) =~= s);
    }
}

/// The first item stands first; the separator and the others follow it, if there are others.
pub proof fn law_joined(items: Seq<Seq<char>>, separator: Seq<char>)
    ensures
        items.len() == 0 ==> joined(items, separator) == Seq::<char>::empty(),
        items.len() == 1 ==> joined(items, separator) == items[0],
        items.len() > 1 ==> joined(items, separator) == items[0] + separator + joined(
            items.skip(1),
            separator,
        ),
    decreases items.len(),
{
    if items.len() > 1 {
        let front = items.drop_last();
        law_joined(front, separator);
        let rest = items.skip(1);
        assert(rest.last() == items.last());
        assert(rest.drop_last() =~= front.skip(1));
        if items.len() == 2 {
            assert(joined(rest, separator) == items[1]);
            assert(joined(items, separator) =~= items[0] + separator + items[1]);
        } else {
            assert(joined(items, separator) =~= items[0] + separator + (joined(
                front.skip(1),
                separator,
            ) + separator + items.last()));
        }
    }
}

/// The lines of a list of strings are the strings, in order.
pub proof fn law_lines(strings: Seq<String>)
    ensures
        lines(strings).len() == strings.len(),
        forall|i: int| 0 <= i < strings.len() ==> #[trigger] lines(strings)[i] == strings[i]@,
{
}

/// Capital letters become small ones, and every other character stays.
pub proof fn law_lower(c: char)
    ensures
        'A' <= c <= 'Z' ==> 'a' <= lower(c) <= 'z' && lower(c) as int - 'a' as int == c as int
            - 'A' as int,
        !('A' <= c <= 'Z') ==> lower(c) == c,
{
}

} // verus!
