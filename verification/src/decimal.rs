//! Decimal numerals as byte strings: what a numeral denotes, the canonical
//! numeral of a number, and executable reading and writing of both.

use vstd::prelude::*;

verus! {

/// The byte is one of the ASCII digits `0` to `9`.
pub open spec fn is_digit(b: u8) -> bool {
    48 <= b <= 57
}

/// Every byte of `s` is an ASCII digit.
pub open spec fn all_digits(s: Seq<u8>) -> bool {
    forall|i: int| 0 <= i < s.len() ==> is_digit(#[trigger] s[i])
}

/// The number a single digit stands for (0 for any other byte).
pub open spec fn digit_value(b: u8) -> nat {
    if is_digit(b) {
        (b - 48) as nat
    } else {
        0
    }
}

/// The number denoted by a string of digits, most significant digit first.
pub open spec fn decimal_value(s: Seq<u8>) -> nat
    decreases s.len(),
{
    if s.len() == 0 {
        0
    } else {
        decimal_value(s.drop_last()) * 10 + digit_value(s.last())
    }
}

/// The canonical numeral of `n`: no sign, no leading zero, `"0"` for zero.
pub open spec fn decimal_digits(n: nat) -> Seq<u8>
    decreases n,
{
    if n < 10 {
        seq![(n + 48) as u8]
    } else {
        decimal_digits(n / 10).push((n % 10 + 48) as u8)
    }
}

/// The canonical numeral of `n` as characters.
pub open spec fn decimal_chars(n: nat) -> Seq<char> {
    Seq::new(decimal_digits(n).len(), |i: int| decimal_digits(n)[i] as char)
}

/// The digits of an unsigned numeral: the string itself, less one leading `+`.
pub open spec fn unsigned_digits(s: Seq<u8>) -> Seq<u8> {
    if s.len() > 0 && s[0] == 43 {
        s.skip(1)
    } else {
        s
    }
}

/// `s` is an unsigned numeral: an optional `+` followed by at least one
/// digit and nothing else.
pub open spec fn is_unsigned(s: Seq<u8>) -> bool {
    unsigned_digits(s).len() > 0 && all_digits(unsigned_digits(s))
}

/// The `usize` that `s` denotes, if `s` is an unsigned numeral whose value
/// fits the type.
pub open spec fn parse_unsigned_spec(s: Seq<u8>) -> Option<usize> {
    if is_unsigned(s) && decimal_value(unsigned_digits(s)) <= usize::MAX {
        Some(decimal_value(unsigned_digits(s)) as usize)
    } else {
        None
    }
}

/// A prefix of a numeral never denotes more than the whole numeral.
pub proof fn lemma_prefix_value_le(s: Seq<u8>, k: int)
    requires
        0 <= k <= s.len(),
    ensures
        decimal_value(s.take(k)) <= decimal_value(s),
    decreases s.len() - k,
{
    if k == s.len() {
        assert(s.take(k) =~= s);
    } else {
        lemma_prefix_value_le(s.drop_last(), k);
        assert(s.drop_last().take(k) =~= s.take(k));
    }
}

/// The canonical numeral of `n` is a non-empty digit string that denotes `n`.
pub proof fn lemma_decimal_digits(n: nat)
    ensures
        decimal_digits(n).len() >= 1,
        all_digits(decimal_digits(n)),
        decimal_value(decimal_digits(n)) == n,
    decreases n,
{
    if n < 10 {
        let s = decimal_digits(n);
        assert(s.drop_last() =~= Seq::<u8>::empty());
        assert(decimal_value(s.drop_last()) == 0);
    } else {
        lemma_decimal_digits(n / 10);
        let p = decimal_digits(n / 10);
        let d = (n % 10 + 48) as u8;
        let s = p.push(d);
        assert(s.drop_last() =~= p);
        assert(forall|i: int| 0 <= i < s.len() ==> is_digit(#[trigger] s[i])) by {
            assert forall|i: int| 0 <= i < s.len() implies is_digit(#[trigger] s[i]) by {
                if i < p.len() {
                    assert(s[i] == p[i]);
                }
            }
        }
    }
}

/// The canonical numeral reads back as the number it was written from.
pub proof fn lemma_parse_decimal_digits(n: nat)
    requires
        n <= usize::MAX,
    ensures
        is_unsigned(decimal_digits(n)),
        parse_unsigned_spec(decimal_digits(n)) == Some(n as usize),
{
    lemma_decimal_digits(n);
    let s = decimal_digits(n);
    assert(is_digit(s[0]));
    assert(unsigned_digits(s) == s);
}

/// Reads the unsigned numeral in `bytes[from..to]`, if it is one and fits.
pub fn parse_unsigned(bytes: &[u8], from: usize, to: usize) -> (r: Option<usize>)
    requires
        from <= to <= bytes@.len(),
    ensures
        r == parse_unsigned_spec(bytes@.subrange(from as int, to as int)),
{
    let ghost token = bytes@.subrange(from as int, to as int);
    let start: usize = if from < to && bytes[from] == 43 {
        from + 1
    } else {
        from
    };
    let ghost digits = unsigned_digits(token);
    assert(digits =~= bytes@.subrange(start as int, to as int));
    if start == to {
        return None;
    }
    let mut acc: usize = 0;
    let mut i: usize = start;
    assert(digits.take(0) =~= Seq::<u8>::empty());
    while i < to
        invariant
            from <= start <= i <= to <= bytes@.len(),
            digits == bytes@.subrange(start as int, to as int),
            digits == unsigned_digits(bytes@.subrange(from as int, to as int)),
            acc == decimal_value(digits.take(i - start)),
            all_digits(digits.take(i - start)),
        decreases to - i,
    {
        let b = bytes[i];
        let ghost k = i - start;
        assert(digits[k] == b);
        if b < 48 || b > 57 {
            assert(!is_digit(digits[k]));
            return None;
        }
        let wide: u128 = acc as u128 * 10 + (b - 48) as u128;
        proof {
            assert(digits.take(k + 1).drop_last() =~= digits.take(k));
            assert(digits.take(k + 1).last() == b);
            assert(decimal_value(digits.take(k + 1)) == wide);
            assert forall|j: int| 0 <= j < k + 1 implies is_digit(
                #[trigger] digits.take(k + 1)[j],
            ) by {
                if j < k {
                    assert(digits.take(k + 1)[j] == digits.take(k)[j]);
                }
            }
        }
        if wide > usize::MAX as u128 {
            proof {
                lemma_prefix_value_le(digits, k + 1);
            }
            return None;
        }
        acc = wide as usize;
        i = i + 1;
    }
    assert(digits.take(to - start) =~= digits);
    Some(acc)
}

/// The one-character string of the digit `d`.
fn digit_str(d: u8) -> (r: &'static str)
    requires
        d < 10,
    ensures
        r@ == seq![(d + 48) as u8 as char],
{
    proof {
        reveal_strlit("0");
        reveal_strlit("1");
        reveal_strlit("2");
        reveal_strlit("3");
        reveal_strlit("4");
        reveal_strlit("5");
        reveal_strlit("6");
        reveal_strlit("7");
        reveal_strlit("8");
        reveal_strlit("9");
    }
    let r = match d {
        0 => "0",
        1 => "1",
        2 => "2",
        3 => "3",
        4 => "4",
        5 => "5",
        6 => "6",
        7 => "7",
        8 => "8",
        _ => "9",
    };
    assert(r@ =~= seq![(d + 48) as u8 as char]);
    r
}

/// Appends the canonical numeral of `n` to `out`.
pub fn push_decimal(out: &mut String, n: u64)
    ensures
        final(out)@ == old(out)@ + decimal_chars(n as nat),
    decreases n,
{
    if n >= 10 {
        push_decimal(out, n / 10);
    }
    let ghost before = out@;
    out.append(digit_str((n % 10) as u8));
    proof {
        let digits = decimal_digits(n as nat);
        let d = ((n % 10) + 48) as u8;
        if n < 10 {
            assert(decimal_chars(n as nat) =~= seq![d as char]);
        } else {
            let p = decimal_digits((n / 10) as nat);
            assert(digits == p.push(d));
            assert(decimal_chars(n as nat) =~= decimal_chars((n / 10) as nat) + seq![d as char]);
        }
    }
}

} // verus!
