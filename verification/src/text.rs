//! Text and byte-string vocabulary: decimal and hexadecimal numerals, joining and trimming.

use substreams::Hex;
use vstd::prelude::*;

verus! {

/// The numeral of a single digit, in base ten or sixteen, with lower-case letters.
pub open spec fn digit(d: int) -> char {
    if d < 10 {
        (48 + d) as char
    } else {
        (87 + d) as char
    }
}

/// The decimal numeral of `n`, without leading zeros.
pub open spec fn decimal(n: nat) -> Seq<char>
    decreases n,
{
    if n < 10 {
        seq![digit(n as int)]
    } else {
        decimal(n / 10).push(digit((n % 10) as int))
    }
}

/// The hexadecimal numeral of a byte, without leading zeros.
pub open spec fn hex_byte(b: u8) -> Seq<char> {
    if b < 16 {
        seq![digit(b as int)]
    } else {
        seq![digit(b as int / 16), digit(b as int % 16)]
    }
}

/// Two lower-case hexadecimal digits for each byte, in order.
pub open spec fn hex(bytes: Seq<u8>) -> Seq<char> {
    Seq::new(
        2 * bytes.len(),
        |i: int|
            if i % 2 == 0 {
                digit(bytes[i / 2] as int / 16)
            } else {
                digit(bytes[i / 2] as int % 16)
            },
    )
}

/// The number that `bytes` writes in base 256, most significant byte first.
pub open spec fn big_endian(bytes: Seq<u8>) -> nat
    decreases bytes.len(),
{
    if bytes.len() == 0 {
        0
    } else {
        big_endian(bytes.drop_last()) * 256 + bytes.last() as nat
    }
}

/// `s` without the zeros that it starts with.
pub open spec fn trim_zeros(s: Seq<char>) -> Seq<char>
    decreases s.len(),
{
    if s.len() > 0 && s[0] == '0' {
        trim_zeros(s.skip(1))
    } else {
        s
    }
}

/// The items one after the other, with `separator` between neighbours.
pub open spec fn joined(items: Seq<Seq<char>>, separator: Seq<char>) -> Seq<char>
    decreases items.len(),
{
    if items.len() == 0 {
        seq![]
    } else if items.len() == 1 {
        items[0]
    } else {
        joined(items.drop_last(), separator) + separator + items.last()
    }
}

/// The views of a list of strings.
pub open spec fn lines(strings: Seq<String>) -> Seq<Seq<char>> {
    strings.map_values(|s: String| s@)
}

/// The ASCII lower-case form of a character.
pub open spec fn lower(c: char) -> char {
    if 'A' <= c <= 'Z' {
        (c as int + 32) as char
    } else {
        c
    }
}

/// The text of one digit.
pub fn digit_text(d: u8) -> (r: &'static str)
    requires
        d < 16,
    ensures
        r@ == seq![digit(d as int)],
{
    proof {
        reveal_strlit("0");
        reveal_strlit("1");
        reveal_strlit("2");
        reveal_strlit("3");
        reveal_strlit("4");
        reveal_strlit("5");
        reveal_strlit("6");
        reveal_strlit("7");
        reveal_strlit("8");
        reveal_strlit("9");
        reveal_strlit("a");
        reveal_strlit("b");
        reveal_strlit("c");
        reveal_strlit("d");
        reveal_strlit("e");
        reveal_strlit("f");
    }
    let r = match d {
        0 => "0",
        1 => "1",
        2 => "2",
        3 => "3",
        4 => "4",
        5 => "5",
        6 => "6",
        7 => "7",
        8 => "8",
        9 => "9",
        10 => "a",
        11 => "b",
        12 => "c",
        13 => "d",
        14 => "e",
        _ => "f",
    };
    assert(r@ =~= seq![digit(d as int)]);
    r
}

/// Writes `n` in decimal.
pub fn decimal_text(n: u64) -> (r: String)
    ensures
        r@ == decimal(n as nat),
    decreases n,
{
    if n < 10 {
        digit_text(n as u8).to_owned()
    } else {
        let mut r = decimal_text(n / 10);
        r.append(digit_text((n % 10) as u8));
        assert(r@ =~= decimal(n as nat));
        r
    }
}

/// Writes `b` in hexadecimal, without leading zeros.
pub fn hex_byte_text(b: u8) -> (r: String)
    ensures
        r@ == hex_byte(b),
{
    let mut r = String::new();
    if b >= 16 {
        r.append(digit_text(b / 16));
    }
    r.append(digit_text(b % 16));
    assert(r@ =~= hex_byte(b));
    r
}

/// Drops the zeros at the start of `s`.
pub fn trim_leading_zeros(s: &str) -> (r: String)
    ensures
        r@ == trim_zeros(s@),
{
    let length: usize = s.unicode_len();
    let mut start: usize = 0;
    assert(s@.skip(0) =~= s@);
    while start < length && s.get_char(start) == '0'
        invariant
            start <= length,
            length == s@.len(),
            trim_zeros(s@.skip(start as int)) == trim_zeros(s@),
        decreases length - start,
    {
        assert(s@.skip(start as int).skip(1) =~= s@.skip(start + 1));
        start = start + 1;
    }
    let r = s.substring_char(start, length).to_owned();
    assert(r@ =~= s@.skip(start as int));
    r
}

/// Joins `items` with `separator` between neighbours.
pub fn join(items: &Vec<String>, separator: &str) -> (r: String)
    ensures
        r@ == joined(lines(items@), separator@),
{
    let mut r = String::new();
    let mut i: usize = 0;
    assert(r@ =~= joined(lines(items@).take(0), separator@));
    while i < items.len()
        invariant
            i <= items.len(),
            r@ == joined(lines(items@).take(i as int), separator@),
        decreases items.len() - i,
    {
        let ghost before = r@;
        if i > 0 {
            r.append(separator);
        }
        r.append(items[i].as_str());
        proof {
            let next = lines(items@).take(i + 1);
            assert(next.drop_last() =~= lines(items@).take(i as int));
            assert(next.last() == items@[i as int]@);
            assert(r@ =~= joined(next, separator@));
        }
        i = i + 1;
    }
    assert(lines(items@).take(items.len() as int) =~= lines(items@));
    r
}

/// Appends a line to a log.
pub fn log_line(log: &mut Vec<String>, line: String)
    ensures
        lines(final(log)@) == lines(old(log)@).push(line@),
{
    log.push(line);
    assert(lines(log@) =~= lines(old(log)@).push(line@));
}

/// Compares two byte strings.
pub fn same_bytes(a: &[u8], b: &[u8]) -> (r: bool)
    ensures
        r == (a@ == b@),
{
    if a.len() != b.len() {
        return false;
    }
    let mut i: usize = 0;
    while i < a.len()
        invariant
            i <= a.len(),
            a.len() == b.len(),
            forall|j: int| 0 <= j < i ==> a@[j] == b@[j],
        decreases a.len() - i,
    {
        if a[i] != b[i] {
            return false;
        }
        i = i + 1;
    }
    assert(a@ =~= b@);
    true
}

/// `Hex::to_string`: two lower-case hexadecimal digits for each byte.
#[verifier::external_body]
pub(crate) fn hex_text(bytes: &[u8]) -> (r: String)
    ensures
        r@ == hex(bytes@),
{
    Hex(bytes).to_string()
}

/// More digits do not make a number smaller.
proof fn lemma_big_endian_prefix(bytes: Seq<u8>, n: int)
    requires
        0 <= n <= bytes.len(),
    ensures
        big_endian(bytes.take(n)) <= big_endian(bytes),
    decreases bytes.len(),
{
    if n == bytes.len() {
        assert(bytes.take(n) =~= bytes);
    } else {
        lemma_big_endian_prefix(bytes.drop_last(), n);
        assert(bytes.drop_last().take(n) =~= bytes.take(n));
    }
}

/// Reads a big-endian number, if it is not above `limit`.
pub fn read_big_endian(bytes: &[u8], limit: u64) -> (r: Option<u64>)
    ensures
        match r {
            Some(n) => n == big_endian(bytes@) && n <= limit,
            None => big_endian(bytes@) > limit,
        },
{
    let mut n: u64 = 0;
    let mut i: usize = 0;
    while i < bytes.len()
        invariant
            i <= bytes.len(),
            n == big_endian(bytes@.take(i as int)),
            n <= limit,
        decreases bytes.len() - i,
    {
        let next: u128 = n as u128 * 256 + bytes[i] as u128;
        proof {
            let longer = bytes@.take(i + 1);
            assert(longer.drop_last() =~= bytes@.take(i as int));
            assert(next == big_endian(longer));
            lemma_big_endian_prefix(bytes@, i + 1);
        }
        if next > limit as u128 {
            return None;
        }
        n = next as u64;
        i = i + 1;
    }
    assert(bytes@.take(i as int) =~= bytes@);
    Some(n)
}

/// Different digits have different numerals.
proof fn lemma_digit_injective(a: int, b: int)
    requires
        0 <= a < 16,
        0 <= b < 16,
        digit(a) == digit(b),
    ensures
        a == b,
{
}

/// Different byte strings have different hexadecimal texts.
pub proof fn law_hex_injective(a: Seq<u8>, b: Seq<u8>)
    requires
        hex(a) == hex(b),
    ensures
        a == b,
{
    assert(hex(a).len() == 2 * a.len());
    assert(hex(b).len() == 2 * b.len());
    assert forall|i: int| 0 <= i < a.len() implies a[i] == b[i] by {
        assert(hex(a)[2 * i] == hex(b)[2 * i]);
        assert(hex(a)[2 * i + 1] == hex(b)[2 * i + 1]);
        assert((2 * i) / 2 == i && (2 * i) % 2 == 0);
        assert((2 * i + 1) / 2 == i && (2 * i + 1) % 2 == 1);
        assert(hex(a)[2 * i] == digit(a[i] as int / 16));
        assert(hex(b)[2 * i] == digit(b[i] as int / 16));
        assert(hex(a)[2 * i + 1] == digit(a[i] as int % 16));
        assert(hex(b)[2 * i + 1] == digit(b[i] as int % 16));
        lemma_digit_injective(a[i] as int / 16, b[i] as int / 16);
        lemma_digit_injective(a[i] as int % 16, b[i] as int % 16);
    }
    assert(a =~= b);
}

/// Different numbers have different decimal numerals.
pub proof fn law_decimal_injective(a: nat, b: nat)
    requires
        decimal(a) == decimal(b),
    ensures
        a == b,
    decreases a,
{
    if a < 10 && b < 10 {
        assert(decimal(a)[0] == digit(a as int));
        assert(decimal(b)[0] == digit(b as int));
    } else if a >= 10 && b >= 10 {
        assert(decimal(a).drop_last() =~= decimal(a / 10));
        assert(decimal(b).drop_last() =~= decimal(b / 10));
        law_decimal_injective(a / 10, b / 10);
        assert(decimal(a).last() == digit((a % 10) as int));
        assert(decimal(b).last() == digit((b % 10) as int));
        lemma_digit_injective((a % 10) as int, (b % 10) as int);
    } else {
        lemma_decimal_len(a);
        lemma_decimal_len(b);
    }
}

/// A numeral has a digit, and more than one from ten on.
proof fn lemma_decimal_len(n: nat)
    ensures
        decimal(n).len() >= 1,
        n >= 10 ==> decimal(n).len() >= 2,
    decreases n,
{
    if n >= 10 {
        lemma_decimal_len(n / 10);
    }
}

/// Different bytes have different hexadecimal numerals.
pub proof fn law_hex_byte_injective(a: u8, b: u8)
    requires
        hex_byte(a) == hex_byte(b),
    ensures
        a == b,
{
    assert(hex_byte(a).len() == if a < 16 { 1nat } else { 2 });
    assert(hex_byte(b).len() == if b < 16 { 1nat } else { 2 });
    if a < 16 {
        assert(hex_byte(a)[0] == digit(a as int));
        assert(hex_byte(b)[0] == digit(b as int));
        lemma_digit_injective(a as int, b as int);
    } else {
        assert(hex_byte(a)[0] == digit(a as int / 16));
        assert(hex_byte(b)[0] == digit(b as int / 16));
        assert(hex_byte(a)[1] == digit(a as int % 16));
        assert(hex_byte(b)[1] == digit(b as int % 16));
        lemma_digit_injective(a as int / 16, b as int / 16);
        lemma_digit_injective(a as int % 16, b as int % 16);
    }
}

} // verus!
