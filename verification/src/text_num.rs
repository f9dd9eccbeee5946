//! Numbers as text: decimal and hexadecimal digits in a run of bytes.
use vstd::prelude::*;

verus! {

/// The value of the character `b` as a digit of the radix, if it is one.
/// The radix is 16 where `hex` holds, and 10 otherwise.
pub open spec fn digit_of(b: u8, hex: bool) -> Option<nat> {
    if 48 <= b <= 57 {
        Some((b - 48) as nat)
    } else if hex && 97 <= b <= 102 {
        Some((b - 87) as nat)
    } else if hex && 65 <= b <= 70 {
        Some((b - 55) as nat)
    } else {
        None
    }
}

/// Every byte is a digit.
pub open spec fn all_digits(s: Seq<u8>, hex: bool) -> bool {
    forall|i: int| 0 <= i < s.len() ==> digit_of(#[trigger] s[i], hex) is Some
}

/// `value` with one more digit `digit` behind it.
pub open spec fn shifted(value: nat, digit: nat, hex: bool) -> nat {
    if hex {
        value * 16 + digit
    } else {
        value * 10 + digit
    }
}

/// The number that a run of digits stands for.
pub open spec fn num_value(s: Seq<u8>, hex: bool) -> nat
    decreases s.len(),
{
    if s.len() == 0 {
        0
    } else {
        shifted(
            num_value(s.drop_last(), hex),
            match digit_of(s.last(), hex) {
                Some(d) => d,
                None => 0,
            },
            hex,
        )
    }
}

/// The number that `s` stands for: one or more digits whose value does
/// not exceed `max`.
pub open spec fn parse_num(s: Seq<u8>, hex: bool, max: nat) -> Option<nat> {
    if s.len() > 0 && all_digits(s, hex) && num_value(s, hex) <= max {
        Some(num_value(s, hex))
    } else {
        None
    }
}

/// A decimal number up to `max`, with or without a `+` in front.
pub open spec fn parse_plus_num(s: Seq<u8>, max: nat) -> Option<nat> {
    if s.len() > 0 && s[0] == 43 {
        parse_num(s.skip(1), false, max)
    } else {
        parse_num(s, false, max)
    }
}

/// The character for the digit `d`; letters are lower case.
pub open spec fn digit_char(d: nat) -> u8 {
    if d < 10 {
        (48 + d) as u8
    } else {
        (87 + d) as u8
    }
}

/// The digits of `n`, without leading zeros.
pub open spec fn num_digits(n: nat, hex: bool) -> Seq<u8>
    decreases n,
{
    if hex {
        if n < 16 {
            seq![digit_char(n)]
        } else {
            num_digits(n / 16, hex).push(digit_char(n % 16))
        }
    } else {
        if n < 10 {
            seq![digit_char(n)]
        } else {
            num_digits(n / 10, hex).push(digit_char(n % 10))
        }
    }
}

/// The digits of a number begin with a zero only where the number is
/// zero, which is one digit.
pub proof fn lemma_num_digits_lead(n: nat, hex: bool)
    ensures
        num_digits(n, hex).len() >= 1,
        n == 0 ==> num_digits(n, hex).len() == 1,
        n > 0 ==> num_digits(n, hex)[0] != 48,
    decreases n,
{
    if hex {
        if n >= 16 {
            lemma_num_digits_lead(n / 16, hex);
            assert(num_digits(n, hex)[0] == num_digits(n / 16, hex)[0]);
        }
    } else {
        if n >= 10 {
            lemma_num_digits_lead(n / 10, hex);
            assert(num_digits(n, hex)[0] == num_digits(n / 10, hex)[0]);
        }
    }
}

/// A number that sixteen bits hold is written in up to four
/// hexadecimal digits.
pub proof fn lemma_hex_digits_len(n: nat)
    requires
        n <= 0xffff,
    ensures
        num_digits(n, true).len() <= 4,
{
    reveal_with_fuel(num_digits, 5);
}

/// What is written for a number is read back as that number.
pub proof fn lemma_num_round_trip(n: nat, hex: bool)
    ensures
        num_digits(n, hex).len() > 0,
        all_digits(num_digits(n, hex), hex),
        num_value(num_digits(n, hex), hex) == n,
    decreases n,
{
    let s = num_digits(n, hex);
    if hex {
        if n < 16 {
            assert(s.drop_last() =~= Seq::<u8>::empty());
            assert(digit_of(s.last(), hex) == Some(n));
            assert(num_value(s.drop_last(), hex) == 0);
        } else {
            lemma_num_round_trip(n / 16, hex);
            assert(s.drop_last() =~= num_digits(n / 16, hex));
            assert(digit_of(s.last(), hex) == Some(n % 16));
            assert forall|i: int| 0 <= i < s.len() implies digit_of(#[trigger] s[i], hex)
                is Some by {
                if i < s.len() - 1 {
                    assert(s[i] == num_digits(n / 16, hex)[i]);
                }
            }
        }
    } else {
        if n < 10 {
            assert(s.drop_last() =~= Seq::<u8>::empty());
            assert(digit_of(s.last(), hex) == Some(n));
            assert(num_value(s.drop_last(), hex) == 0);
        } else {
            lemma_num_round_trip(n / 10, hex);
            assert(s.drop_last() =~= num_digits(n / 10, hex));
            assert(digit_of(s.last(), hex) == Some(n % 10));
            assert forall|i: int| 0 <= i < s.len() implies digit_of(#[trigger] s[i], hex)
                is Some by {
                if i < s.len() - 1 {
                    assert(s[i] == num_digits(n / 10, hex)[i]);
                }
            }
        }
    }
}

/// A number that is read under a smaller bound is read as the same
/// number under a larger one, and one that is read under the larger
/// bound and fits the smaller is read under the smaller.
pub proof fn lemma_parse_num_max(s: Seq<u8>, small: nat, large: nat)
    requires
        small <= large,
    ensures
        parse_num(s, false, small) == match parse_num(s, false, large) {
            Some(n) => if n <= small {
                Some(n)
            } else {
                None
            },
            None => None,
        },
{
}

/// A run of digits stands for at least as much as any of its beginnings.
pub proof fn lemma_num_value_grows(s: Seq<u8>, hex: bool, k: int)
    requires
        0 <= k <= s.len(),
    ensures
        num_value(s.take(k), hex) <= num_value(s, hex),
    decreases s.len(),
{
    if k == s.len() {
        assert(s.take(k) =~= s);
    } else {
        lemma_num_value_grows(s.drop_last(), hex, k);
        assert(s.drop_last().take(k) =~= s.take(k));
    }
}

/// Decides [`digit_of`].
pub fn digit_value(b: u8, hex: bool) -> (r: Option<u8>)
    ensures
        match r {
            Some(d) => digit_of(b, hex) == Some(d as nat) && d < 16,
            None => digit_of(b, hex) is None,
        },
{
    if 48 <= b && b <= 57 {
        Some(b - 48)
    } else if hex && 97 <= b && b <= 102 {
        Some(b - 87)
    } else if hex && 65 <= b && b <= 70 {
        Some(b - 55)
    } else {
        None
    }
}

/// Reads the number that the bytes from `start` up to `end` stand for.
pub fn parse_number(bytes: &[u8], start: usize, end: usize, hex: bool, max: u32) -> (r: Option<
    u32,
>)
    requires
        start <= end <= bytes@.len(),
    ensures
        match r {
            Some(n) => parse_num(bytes@.subrange(start as int, end as int), hex, max as nat)
                == Some(n as nat),
            None => parse_num(bytes@.subrange(start as int, end as int), hex, max as nat) is None,
        },
{
    let ghost s = bytes@.subrange(start as int, end as int);
    if start == end {
        return None;
    }
    let mut acc: u32 = 0;
    let mut i: usize = start;
    proof {
        assert(s.take(0) =~= Seq::<u8>::empty());
    }
    while i < end
        invariant
            start <= i <= end <= bytes@.len(),
            s == bytes@.subrange(start as int, end as int),
            all_digits(s.take(i - start), hex),
            acc == num_value(s.take(i - start), hex),
            acc <= max,
        decreases end - i,
    {
        let ghost k = i - start;
        proof {
            assert(s[k] == bytes@[i as int]);
            assert(s.take(k + 1).drop_last() =~= s.take(k));
            assert(s.take(k + 1).last() == s[k]);
        }
        let d = match digit_value(bytes[i], hex) {
            Some(d) => d,
            None => {
                return None;
            },
        };
        let wide: u64 = if hex {
            acc as u64 * 16 + d as u64
        } else {
            acc as u64 * 10 + d as u64
        };
        if wide > max as u64 {
            proof {
                lemma_num_value_grows(s, hex, k + 1);
            }
            return None;
        }
        acc = wide as u32;
        proof {
            assert forall|j: int| 0 <= j < s.take(k + 1).len() implies digit_of(
                #[trigger] s.take(k + 1)[j],
                hex,
            ) is Some by {
                if j < k {
                    assert(s.take(k + 1)[j] == s.take(k)[j]);
                }
            }
        }
        i += 1;
    }
    proof {
        assert(s.take(end - start) =~= s);
    }
    Some(acc)
}

/// Reads the decimal number, with or without a `+` in front, that the
/// bytes from `start` up to `end` stand for.
pub fn parse_plus_number(bytes: &[u8], start: usize, end: usize, max: u32) -> (r: Option<u32>)
    requires
        start <= end <= bytes@.len(),
    ensures
        match r {
            Some(n) => parse_plus_num(bytes@.subrange(start as int, end as int), max as nat)
                == Some(n as nat),
            None => parse_plus_num(bytes@.subrange(start as int, end as int), max as nat)
                is None,
        },
{
    let ghost s = bytes@.subrange(start as int, end as int);
    if start < end && bytes[start] == 43 {
        proof {
            assert(s.skip(1) =~= bytes@.subrange(start + 1, end as int));
        }
        parse_number(bytes, start + 1, end, false, max)
    } else {
        parse_number(bytes, start, end, false, max)
    }
}

/// Appends the digits of `n` to `out`.
pub fn push_number(out: &mut Vec<u8>, n: u32, hex: bool)
    ensures
        final(out)@ == old(out)@ + num_digits(n as nat, hex),
    decreases n,
{
    let radix: u32 = if hex {
        16
    } else {
        10
    };
    if n >= radix {
        push_number(out, n / radix, hex);
    }
    let d = (n % radix) as u8;
    let c = if d < 10 {
        48 + d
    } else {
        87 + d
    };
    out.push(c);
    proof {
        if n >= radix {
            assert(final(out)@ =~= old(out)@ + num_digits(n as nat, hex));
        } else {
            assert(final(out)@ =~= old(out)@ + num_digits(n as nat, hex));
        }
    }
}

/// Reads the decimal number that the bytes from `start` up to `end`
/// stand for, up to the largest that 64 bits hold.
pub fn parse_decimal_u64(bytes: &[u8], start: usize, end: usize) -> (r: Option<u64>)
    requires
        start <= end <= bytes@.len(),
    ensures
        match r {
            Some(n) => parse_num(
                bytes@.subrange(start as int, end as int),
                false,
                0xffff_ffff_ffff_ffff,
            ) == Some(n as nat),
            None => parse_num(
                bytes@.subrange(start as int, end as int),
                false,
                0xffff_ffff_ffff_ffff,
            ) is None,
        },
{
    let ghost s = bytes@.subrange(start as int, end as int);
    if start == end {
        return None;
    }
    let mut acc: u64 = 0;
    let mut i: usize = start;
    proof {
        assert(s.take(0) =~= Seq::<u8>::empty());
    }
    while i < end
        invariant
            start <= i <= end <= bytes@.len(),
            s == bytes@.subrange(start as int, end as int),
            all_digits(s.take(i - start), false),
            acc == num_value(s.take(i - start), false),
        decreases end - i,
    {
        let ghost k = i - start;
        proof {
            assert(s[k] == bytes@[i as int]);
            assert(s.take(k + 1).drop_last() =~= s.take(k));
            assert(s.take(k + 1).last() == s[k]);
        }
        let d = match digit_value(bytes[i], false) {
            Some(d) => d,
            None => {
                return None;
            },
        };
        let wide: u128 = acc as u128 * 10 + d as u128;
        if wide > 0xffff_ffff_ffff_ffff {
            proof {
                lemma_num_value_grows(s, false, k + 1);
            }
            return None;
        }
        acc = wide as u64;
        proof {
            assert forall|j: int| 0 <= j < s.take(k + 1).len() implies digit_of(
                #[trigger] s.take(k + 1)[j],
                false,
            ) is Some by {
                if j < k {
                    assert(s.take(k + 1)[j] == s.take(k)[j]);
                }
            }
        }
        i += 1;
    }
    proof {
        assert(s.take(end - start) =~= s);
    }
    Some(acc)
}

/// Appends the decimal digits of `n` to `out`.
pub fn push_decimal_u64(out: &mut Vec<u8>, n: u64)
    ensures
        final(out)@ == old(out)@ + num_digits(n as nat, false),
    decreases n,
{
    if n >= 10 {
        push_decimal_u64(out, n / 10);
    }
    let d = (n % 10) as u8;
    out.push(48 + d);
    proof {
        assert(final(out)@ =~= old(out)@ + num_digits(n as nat, false));
    }
}

} // verus!
