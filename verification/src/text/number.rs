//! Decimal and hexadecimal numbers in texts.
use vstd::prelude::*;
use super::chars::push_all;

verus! {

/// The value of a digit in the given radix, at most 16.
pub open spec fn digit_value(c: char, radix: int) -> Option<int> {
    let v = if '0' <= c <= '9' {
        c as int - '0' as int
    } else if 'a' <= c <= 'f' {
        c as int - 'a' as int + 10
    } else if 'A' <= c <= 'F' {
        c as int - 'A' as int + 10
    } else {
        radix
    };
    if v < radix {
        Some(v)
    } else {
        None
    }
}

/// The number that the digits spell, where all of them are digits.
pub open spec fn digits_value(s: Seq<char>, radix: int) -> Option<int>
    decreases s.len(),
{
    if s.len() == 0 {
        Some(0)
    } else {
        match (digits_value(s.drop_last(), radix), digit_value(s.last(), radix)) {
            (Some(high), Some(low)) => Some(high * radix + low),
            _ => None,
        }
    }
}

/// The digits of an unsigned number without its plus sign.
pub open spec fn unsigned_digits(s: Seq<char>) -> Seq<char> {
    if s.len() > 0 && s[0] == '+' {
        s.skip(1)
    } else {
        s
    }
}

/// The unsigned number that a text spells: an optional plus sign and at least
/// one digit, with a value of at most `max`.
pub open spec fn unsigned_value(s: Seq<char>, radix: int, max: int) -> Option<int> {
    let digits = unsigned_digits(s);
    match digits_value(digits, radix) {
        Some(v) if digits.len() > 0 && v <= max => Some(v),
        _ => None,
    }
}

/// The value of a digit.
fn digit_of(c: char, radix: u32) -> (r: Option<u32>)
    requires
        radix <= 16,
    ensures
        match r {
            Some(v) => digit_value(c, radix as int) == Some(v as int) && v < radix,
            None => digit_value(c, radix as int) is None,
        },
{
    let v: u32 = if '0' <= c && c <= '9' {
        c as u32 - '0' as u32
    } else if 'a' <= c && c <= 'f' {
        c as u32 - 'a' as u32 + 10
    } else if 'A' <= c && c <= 'F' {
        c as u32 - 'A' as u32 + 10
    } else {
        radix
    };
    if v < radix {
        Some(v)
    } else {
        None
    }
}

proof fn lemma_prefix_value(s: Seq<char>, radix: int, n: int)
    requires
        2 <= radix,
        0 <= n <= s.len(),
        digits_value(s, radix) is Some,
    ensures
        digits_value(s.take(n), radix) is Some,
        0 <= digits_value(s.take(n), radix)->0 <= digits_value(s, radix)->0,
    decreases s.len(),
{
    if n == s.len() {
        assert(s.take(n) == s);
        if s.len() > 0 {
            lemma_prefix_value(s.drop_last(), radix, s.len() - 1);
            assert(s.drop_last().take(s.len() - 1) == s.drop_last());
            let high = digits_value(s.drop_last(), radix)->0;
            assert(0 <= high * radix) by (nonlinear_arith)
                requires
                    0 <= high,
                    2 <= radix,
            ;
        }
    } else {
        lemma_prefix_value(s.drop_last(), radix, n);
        assert(s.drop_last().take(n) == s.take(n));
        let high = digits_value(s.drop_last(), radix)->0;
        assert(high <= high * radix) by (nonlinear_arith)
            requires
                0 <= high,
                2 <= radix,
        ;
    }
}

/// Reads an unsigned number.
pub fn parse_unsigned(s: &[char], radix: u32, max: u32) -> (r: Option<u32>)
    requires
        2 <= radix <= 16,
    ensures
        match r {
            Some(v) => unsigned_value(s@, radix as int, max as int) == Some(v as int),
            None => unsigned_value(s@, radix as int, max as int) is None,
        },
{
    let digits: &[char] = if s.len() > 0 && s[0] == '+' {
        &s[1..s.len()]
    } else {
        s
    };
    assert(digits@ == unsigned_digits(s@));
    if digits.len() == 0 {
        return None;
    }
    let mut value: u64 = 0;
    let mut i: usize = 0;
    while i < digits.len()
        invariant
            2 <= radix <= 16,
            digits@ == unsigned_digits(s@),
            i <= digits@.len(),
            value <= max,
            digits_value(digits@.take(i as int), radix as int) == Some(value as int),
        decreases digits@.len() - i,
    {
        let ghost next = digits@.take(i + 1);
        assert(next.drop_last() == digits@.take(i as int));
        assert(next.last() == digits@[i as int]);
        match digit_of(digits[i], radix) {
            None => {
                proof {
                    if digits_value(digits@, radix as int) is Some {
                        lemma_prefix_value(digits@, radix as int, i + 1);
                    }
                }
                return None;
            },
            Some(d) => {
                assert(value * radix <= max * 16) by (nonlinear_arith)
                    requires
                        0 <= value <= max,
                        0 <= radix <= 16,
                ;
                value = value * (radix as u64) + d as u64;
                if value > max as u64 {
                    proof {
                        if digits_value(digits@, radix as int) is Some {
                            lemma_prefix_value(digits@, radix as int, i + 1);
                        }
                    }
                    return None;
                }
            },
        }
        i += 1;
    }
    assert(digits@.take(i as int) == digits@);
    Some(value as u32)
}

/// The decimal digit of a value below ten.
pub open spec fn digit_char(d: nat) -> char {
    (('0' as u8 + d) as u8) as char
}

/// The decimal notation of a number.
pub open spec fn decimal(n: nat) -> Seq<char>
    decreases n,
{
    if n < 10 {
        seq![digit_char(n)]
    } else {
        decimal(n / 10).push(digit_char(n % 10))
    }
}

/// Writes a number in decimal notation.
pub fn to_decimal(n: u64) -> (r: Vec<char>)
    ensures
        r@ == decimal(n as nat),
    decreases n,
{
    let d = ('0' as u8 + (n % 10) as u8) as char;
    if n < 10 {
        let mut r: Vec<char> = Vec::new();
        r.push(d);
        assert(r@ == seq![digit_char(n as nat)]);
        r
    } else {
        let mut r = to_decimal(n / 10);
        r.push(d);
        r
    }
}

/// Appends a number in decimal notation.
pub fn push_decimal(out: &mut Vec<char>, n: u64)
    ensures
        final(out)@ == old(out)@ + decimal(n as nat),
{
    let digits = to_decimal(n);
    push_all(out, &digits);
}

proof fn lemma_digit_char(d: nat)
    requires
        d < 10,
    ensures
        digit_value(digit_char(d), 10) == Some(d as int),
        digit_char(d) == '0' <==> d == 0,
{
    let v = ('0' as u8 + d) as u8;
    assert(v == 48 + d);
    assert(v as char as int == v);
}

/// The decimal notation of a number is read back as that number, has no sign, and
/// begins with a zero only where it is nothing but that zero.
pub proof fn law_decimal_is_read_back(n: nat, max: int)
    ensures
        digits_value(decimal(n), 10) == Some(n as int),
        decimal(n).len() > 0,
        decimal(n)[0] == '0' <==> n == 0,
        n <= max ==> unsigned_value(decimal(n), 10, max) == Some(n as int),
        n > max ==> unsigned_value(decimal(n), 10, max) is None,
    decreases n,
{
    reveal_with_fuel(digits_value, 2);
    lemma_digit_char(n % 10);
    if n < 10 {
        assert(decimal(n).drop_last() =~= Seq::<char>::empty());
    } else {
        law_decimal_is_read_back(n / 10, max);
        assert(decimal(n).drop_last() =~= decimal(n / 10));
        assert(decimal(n)[0] == decimal(n / 10)[0]);
    }
    lemma_decimal_digits(n);
}

/// Decimal notation is made of decimal digits.
pub proof fn lemma_decimal_digits(n: nat)
    ensures
        decimal(n).len() > 0,
        forall|i: int| 0 <= i < decimal(n).len() ==> '0' <= #[trigger] decimal(n)[i] <= '9',
    decreases n,
{
    lemma_digit_char(n % 10);
    if n >= 10 {
        lemma_decimal_digits(n / 10);
    }
}

/// A plus sign before the digits of a number does not matter, and a text with a
/// character that is no digit, or with no digit at all, is no number.
pub proof fn law_only_digits_make_a_number(s: Seq<char>, radix: int, max: int, i: int)
    requires
        2 <= radix <= 16,
    ensures
        s.len() > 0 && s[0] != '+' ==> unsigned_value(seq!['+'] + s, radix, max) == unsigned_value(
            s,
            radix,
            max,
        ),
        s.len() == 0 ==> unsigned_value(s, radix, max) is None,
        0 <= i < s.len() && !(i == 0 && s[0] == '+') && digit_value(s[i], radix) is None
            ==> unsigned_value(s, radix, max) is None,
        unsigned_value(s, radix, max) matches Some(v) ==> 0 <= v <= max,
{
    assert((seq!['+'] + s).skip(1) =~= s);
    let digits = unsigned_digits(s);
    if digits_value(digits, radix) is Some {
        lemma_prefix_value(digits, radix, 0);
        if 0 <= i < s.len() && !(i == 0 && s[0] == '+') {
            let at = if s[0] == '+' {
                i - 1
            } else {
                i
            };
            assert(digits[at] == s[i]);
            lemma_prefix_value(digits, radix, at + 1);
            assert(digits.take(at + 1).last() == s[i]);
        }
    }
}

/// The digits count by their places: a digit behind a number multiplies it by the
/// radix and adds its own value, which is below the radix.
pub proof fn law_digits_count_by_place(s: Seq<char>, c: char, radix: int)
    requires
        2 <= radix <= 16,
        digits_value(s, radix) is Some,
        digit_value(c, radix) is Some,
    ensures
        digits_value(s.push(c), radix) == Some(
            digits_value(s, radix)->0 * radix + digit_value(c, radix)->0,
        ),
        0 <= digit_value(c, radix)->0 < radix,
{
    assert(s.push(c).drop_last() =~= s);
}

} // verus!
