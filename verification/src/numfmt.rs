//! Rendering of integers as decimal and hexadecimal text, and little-endian byte values.
use vstd::prelude::*;
use crate::text::concat2;

verus! {

/// The character of a hexadecimal digit, upper case (`0`..`9`, `A`..`F`).
pub open spec fn hex_char(d: nat) -> char {
    if d < 10 {
        ((48 + d) as u32) as char
    } else {
        ((55 + d) as u32) as char
    }
}

/// Decimal digits of `n`, most significant first, without leading zeros (`0` for zero).
pub open spec fn nat_decimal(n: nat) -> Seq<char>
    decreases n,
{
    if n < 10 {
        seq![hex_char(n)]
    } else {
        nat_decimal(n / 10) + seq![hex_char(n % 10)]
    }
}

/// Decimal rendering of a signed integer, with a leading `-` for negative values.
pub open spec fn int_decimal(x: int) -> Seq<char> {
    if x < 0 {
        seq!['-'] + nat_decimal((-x) as nat)
    } else {
        nat_decimal(x as nat)
    }
}

/// Two upper-case hexadecimal digits of a byte (as `{:02X}` renders it).
pub open spec fn hex2(b: u8) -> Seq<char> {
    seq![hex_char((b / 16) as nat), hex_char((b % 16) as nat)]
}

/// Unsigned value of little-endian bytes `s[i..]`.
pub open spec fn le_from(s: Seq<u8>, i: int) -> nat
    decreases s.len() - i,
{
    if i < 0 || i >= s.len() {
        0
    } else {
        s[i] as nat + 256 * le_from(s, i + 1)
    }
}

/// Unsigned value of a little-endian byte sequence.
pub open spec fn le_value(s: Seq<u8>) -> nat {
    le_from(s, 0)
}

/// Two's-complement reading of 4 little-endian bytes.
pub open spec fn le_i32(s: Seq<u8>) -> int {
    let u = le_value(s);
    if u >= 0x8000_0000 { u - 0x1_0000_0000 } else { u as int }
}

/// Two's-complement reading of 8 little-endian bytes.
pub open spec fn le_i64(s: Seq<u8>) -> int {
    let u = le_value(s);
    if u >= 0x8000_0000_0000_0000 { u - 0x1_0000_0000_0000_0000 } else { u as int }
}

/// The one-character string of a hexadecimal digit.
pub fn hex_digit_str(d: u64) -> (r: &'static str)
    requires
        d < 16,
    ensures
        r@ == seq![hex_char(d as nat)],
{
    proof {
    reveal_strlit("0");
    reveal_strlit("1");
    reveal_strlit("2");
    reveal_strlit("3");
    reveal_strlit("4");
    reveal_strlit("5");
    reveal_strlit("6");
    reveal_strlit("7");
    reveal_strlit("8");
    reveal_strlit("9");
    reveal_strlit("A");
    reveal_strlit("B");
    reveal_strlit("C");
    reveal_strlit("D");
    reveal_strlit("E");
    reveal_strlit("F");
    }
    let r = match d {
        0 => "0",
        1 => "1",
        2 => "2",
        3 => "3",
        4 => "4",
        5 => "5",
        6 => "6",
        7 => "7",
        8 => "8",
        9 => "9",
        10 => "A",
        11 => "B",
        12 => "C",
        13 => "D",
        14 => "E",
        _ => "F",
    };
    assert(r@ =~= seq![hex_char(d as nat)]);
    r
}

/// Decimal rendering of an unsigned integer (what `u64::to_string` gives).
pub fn u64_to_decimal(n: u64) -> (r: String)
    ensures
        r@ == nat_decimal(n as nat),
{
    let mut m = n;
    let mut acc = String::new();
    while m >= 10
        invariant
            nat_decimal(n as nat) == nat_decimal(m as nat) + acc@,
        decreases m,
    {
        let d = hex_digit_str(m % 10);
        let ghost old_acc = acc@;
        acc = concat2(d, acc.as_str());
        assert(nat_decimal(m as nat) == nat_decimal((m / 10) as nat) + seq![hex_char((m % 10) as nat)]);
        assert(nat_decimal(m as nat) + old_acc =~= nat_decimal((m / 10) as nat) + acc@);
        m = m / 10;
    }
    let d = hex_digit_str(m);
    let r = concat2(d, acc.as_str());
    assert(nat_decimal(m as nat) == seq![hex_char(m as nat)]);
    r
}

/// Decimal rendering of a signed integer (what `i64::to_string` gives).
pub fn i64_to_decimal(x: i64) -> (r: String)
    ensures
        r@ == int_decimal(x as int),
{
    if x < 0 {
        let mag: u64 = (-(x as i128)) as u64;
        let digits = u64_to_decimal(mag);
        proof { reveal_strlit("-"); }
        let r = concat2("-", digits.as_str());
        assert(r@ =~= int_decimal(x as int));
        r
    } else {
        u64_to_decimal(x as u64)
    }
}

/// Two upper-case hexadecimal digits of a byte.
pub fn byte_hex2(b: u8) -> (r: String)
    ensures
        r@ == hex2(b),
{
    let hi = hex_digit_str((b / 16) as u64);
    let lo = hex_digit_str((b % 16) as u64);
    let r = concat2(hi, lo);
    assert(r@ =~= hex2(b));
    r
}

/// Little-endian unsigned value of exactly 4 bytes.
pub fn le_u32_value(d: &[u8]) -> (r: u64)
    requires
        d@.len() == 4,
    ensures
        r == le_value(d@),
        r < 0x1_0000_0000,
{
    reveal_with_fuel(le_from, 5);
    (d[0] as u64) + (d[1] as u64) * 256 + (d[2] as u64) * 65536 + (d[3] as u64) * 16777216
}

/// Little-endian unsigned value of exactly 8 bytes.
pub fn le_u64_value(d: &[u8]) -> (r: u64)
    requires
        d@.len() == 8,
    ensures
        r == le_value(d@),
{
    reveal_with_fuel(le_from, 9);
    (d[0] as u64) + (d[1] as u64) * 0x100 + (d[2] as u64) * 0x1_0000 + (d[3] as u64) * 0x100_0000
        + (d[4] as u64) * 0x1_0000_0000 + (d[5] as u64) * 0x100_0000_0000 + (d[6] as u64)
        * 0x1_0000_0000_0000 + (d[7] as u64) * 0x100_0000_0000_0000
}

} // verus!
