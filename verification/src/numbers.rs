//! Reading and writing unsigned numbers as text.

use vstd::prelude::*;

verus! {

/// Value of `c` as a digit in `radix` (10 or 16), if it is one.
pub open spec fn digit_value(c: char, radix: int) -> Option<int> {
    if '0' <= c <= '9' {
        Some(c as u32 - '0' as u32)
    } else if radix == 16 && 'a' <= c <= 'f' {
        Some(c as u32 - 'a' as u32 + 10)
    } else if radix == 16 && 'A' <= c <= 'F' {
        Some(c as u32 - 'A' as u32 + 10)
    } else {
        None
    }
}

pub open spec fn all_digits(s: Seq<char>, radix: int) -> bool {
    forall|i: int| 0 <= i < s.len() ==> digit_value(#[trigger] s[i], radix) is Some
}

/// Value of the digit string `s` in `radix`, most significant digit first.
pub open spec fn digits_value(s: Seq<char>, radix: int) -> int
    decreases s.len(),
{
    if s.len() == 0 {
        0
    } else {
        digits_value(s.drop_last(), radix) * radix + digit_value(s.last(), radix).unwrap()
    }
}

/// What stands behind an optional leading `+`.
pub open spec fn unsigned_digits(s: Seq<char>) -> Seq<char> {
    if s.len() > 0 && s[0] == '+' {
        s.drop_first()
    } else {
        s
    }
}

/// The number that `s` denotes in `radix`: an optional `+`, then one or
/// more digits and nothing else, with a value of at most `max`.
pub open spec fn parse_unsigned(s: Seq<char>, radix: int, max: int) -> Option<int> {
    let d = unsigned_digits(s);
    if d.len() > 0 && all_digits(d, radix) && digits_value(d, radix) <= max {
        Some(digits_value(d, radix))
    } else {
        None
    }
}

pub(crate) proof fn lemma_digits_value_push(s: Seq<char>, c: char, radix: int)
    ensures
        digits_value(s.push(c), radix) == digits_value(s, radix) * radix + digit_value(
            c,
            radix,
        ).unwrap(),
{
    assert(s.push(c).drop_last() =~= s);
}

pub(crate) proof fn lemma_digits_value_monotone(s: Seq<char>, n: int, radix: int)
    requires
        radix == 10 || radix == 16,
        0 <= n <= s.len(),
        all_digits(s, radix),
    ensures
        0 <= digits_value(s.take(n), radix) <= digits_value(s, radix),
    decreases s.len() - n,
{
    lemma_digits_value_nonnegative(s.take(n), radix);
    if n < s.len() {
        lemma_digits_value_monotone(s, n + 1, radix);
        assert(s.take(n + 1).drop_last() =~= s.take(n));
        let v = digits_value(s.take(n), radix);
        assert(v * radix >= v) by (nonlinear_arith)
            requires
                v >= 0,
                radix >= 1,
        ;
    } else {
        assert(s.take(n) =~= s);
    }
}

pub(crate) proof fn lemma_digits_value_nonnegative(s: Seq<char>, radix: int)
    requires
        radix == 10 || radix == 16,
        all_digits(s, radix),
    ensures
        0 <= digits_value(s, radix),
    decreases s.len(),
{
    if s.len() > 0 {
        lemma_digits_value_nonnegative(s.drop_last(), radix);
        let v = digits_value(s.drop_last(), radix);
        assert(v * radix >= 0) by (nonlinear_arith)
            requires
                v >= 0,
                radix >= 1,
        ;
    }
}

/// Value of `c` as a digit in `radix`.
fn char_digit(c: char, radix: u32) -> (r: Option<u32>)
    requires
        radix == 10 || radix == 16,
    ensures
        r is Some <==> digit_value(c, radix as int) is Some,
        r matches Some(d) ==> digit_value(c, radix as int) == Some(d as int) && d < radix,
{
    let n: u32 = c as u32;
    if 0x30 <= n && n <= 0x39 {
        Some(n - 0x30)
    } else if radix == 16 && 0x61 <= n && n <= 0x66 {
        Some(n - 0x61 + 10)
    } else if radix == 16 && 0x41 <= n && n <= 0x46 {
        Some(n - 0x41 + 10)
    } else {
        None
    }
}

/// Reads `s` as an unsigned number in `radix` that does not exceed `max`.
pub(crate) fn read_unsigned(s: &[char], radix: u32, max: u64) -> (r: Option<u64>)
    requires
        radix == 10 || radix == 16,
    ensures
        r is Some <==> parse_unsigned(s@, radix as int, max as int) is Some,
        r matches Some(v) ==> parse_unsigned(s@, radix as int, max as int) == Some(v as int),
{
    let start: usize = if s.len() > 0 && s[0] == '+' {
        1
    } else {
        0
    };
    let ghost d = unsigned_digits(s@);
    assert(d =~= s@.skip(start as int));
    if start == s.len() {
        return None;
    }
    let mut acc: u64 = 0;
    let mut i: usize = start;
    while i < s.len()
        invariant
            radix == 10 || radix == 16,
            start <= i <= s@.len(),
            d == s@.skip(start as int),
            d == unsigned_digits(s@),
            all_digits(d.take(i - start), radix as int),
            acc == digits_value(d.take(i - start), radix as int),
            acc <= max,
        decreases s@.len() - i,
    {
        let ghost k = i - start;
        match char_digit(s[i], radix) {
            None => {
                assert(d[k] == s@[i as int]);
                return None;
            },
            Some(digit) => {
                proof {
                    assert(d.take(k + 1) =~= d.take(k).push(d[k]));
                    lemma_digits_value_push(d.take(k), d[k], radix as int);
                    assert forall|j: int| 0 <= j < k + 1 implies digit_value(
                        #[trigger] d.take(k + 1)[j],
                        radix as int,
                    ) is Some by {
                        if j < k {
                            assert(d.take(k + 1)[j] == d.take(k)[j]);
                        }
                    }
                }
                let next: Option<u64> = match acc.checked_mul(radix as u64) {
                    Some(m) => m.checked_add(digit as u64),
                    None => None,
                };
                match next {
                    Some(v) if v <= max => {
                        acc = v;
                    },
                    _ => {
                        proof {
                            let full = digits_value(d.take(k + 1), radix as int);
                            assert(full == acc * radix + digit);
                            assert(full > max);
                            if all_digits(d, radix as int) {
                                lemma_digits_value_monotone(d, k + 1, radix as int);
                            }
                        }
                        return None;
                    },
                }
            },
        }
        i += 1;
    }
    assert(d.take(i - start) =~= d);
    Some(acc)
}

/// The digit `0` to `9` that stands for `d`.
pub open spec fn decimal_digit(d: int) -> char {
    (d + '0' as u32) as char
}

/// Decimal text of `n`, without sign or leading zeros.
pub open spec fn decimal_text(n: nat) -> Seq<char>
    decreases n,
{
    if n < 10 {
        seq![decimal_digit(n as int)]
    } else {
        decimal_text(n / 10).push(decimal_digit((n % 10) as int))
    }
}

/// Writes `n` in decimal.
pub fn write_decimal(n: u64) -> (r: Vec<char>)
    ensures
        r@ == decimal_text(n as nat),
    decreases n,
{
    if n < 10 {
        let d: u8 = n as u8;
        let mut out: Vec<char> = Vec::new();
        out.push((d + 0x30) as char);
        assert(out@ =~= decimal_text(n as nat));
        out
    } else {
        let mut out = write_decimal(n / 10);
        let d: u8 = (n % 10) as u8;
        out.push((d + 0x30) as char);
        out
    }
}


pub(crate) proof fn lemma_decimal_text(n: nat)
    ensures
        decimal_text(n).len() > 0,
        all_digits(decimal_text(n), 10),
        digits_value(decimal_text(n), 10) == n,
    decreases n,
{
    if n < 10 {
        let s = decimal_text(n);
        assert(s.drop_last() =~= Seq::<char>::empty());
        assert(digits_value(s.drop_last(), 10) == 0);
    } else {
        lemma_decimal_text(n / 10);
        let head = decimal_text(n / 10);
        let c = decimal_digit((n % 10) as int);
        lemma_digits_value_push(head, c, 10);
        assert forall|i: int| 0 <= i < head.push(c).len() implies digit_value(
            #[trigger] head.push(c)[i],
            10,
        ) is Some by {
            if i < head.len() {
                assert(head.push(c)[i] == head[i]);
            }
        }
    }
}

/// Reading the decimal text of a number gives the number back.
pub proof fn lemma_parse_decimal_text(n: nat, max: int)
    requires
        n <= max,
    ensures
        parse_unsigned(decimal_text(n), 10, max) == Some(n as int),
{
    lemma_decimal_text(n);
    let s = decimal_text(n);
    assert(digit_value(s[0], 10) is Some);
    assert(s[0] != '+');
}


/// The lowercase hexadecimal digit that stands for `d`.
pub open spec fn hex_digit(d: int) -> char {
    if d < 10 {
        (d + '0' as u32) as char
    } else {
        (d - 10 + 'a' as u32) as char
    }
}

/// The two lowercase hexadecimal digits of `b`.
pub open spec fn hex_byte_text(b: u8) -> Seq<char> {
    seq![hex_digit(b as int / 16), hex_digit(b as int % 16)]
}

fn write_hex_digit(d: u8) -> (c: char)
    requires
        d < 16,
    ensures
        c == hex_digit(d as int),
{
    if d < 10 {
        (d + 0x30) as char
    } else {
        (d - 10 + 0x61) as char
    }
}

/// Writes `b` as two lowercase hexadecimal digits.
pub fn write_hex_byte(b: u8) -> (r: Vec<char>)
    ensures
        r@ == hex_byte_text(b),
{
    let mut out: Vec<char> = Vec::new();
    out.push(write_hex_digit(b / 16));
    out.push(write_hex_digit(b % 16));
    assert(out@ =~= hex_byte_text(b));
    out
}

} // verus!
