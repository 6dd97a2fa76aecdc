use vstd::prelude::*;

verus! {

/// Whether `c` is one of the ten decimal digits.
pub open spec fn is_digit(c: char) -> bool {
    '0' <= c <= '9'
}

/// The number that the digit `c` stands for.
pub open spec fn digit_value(c: char) -> int {
    c as int - 48
}

/// The digit that stands for `d`, for `d` from `0` to `9`.
pub open spec fn digit_char(d: int) -> char {
    (d + 48) as char
}

/// Whether `text` holds decimal digits and nothing else.
pub open spec fn all_digits(text: Seq<char>) -> bool {
    forall|i: int| 0 <= i < text.len() ==> is_digit(#[trigger] text[i])
}

/// The number that a run of digits stands for, read in base ten.
pub open spec fn digits_value(digits: Seq<char>) -> int
    decreases digits.len(),
{
    if digits.len() == 0 {
        0
    } else {
        digits_value(digits.drop_last()) * 10 + digit_value(digits.last())
    }
}

/// Whether `text` starts with a sign.
pub open spec fn has_sign(text: Seq<char>) -> bool {
    text.len() > 0 && (text[0] == '-' || text[0] == '+')
}

/// What follows the sign of `text`, or all of `text` where it has no sign.
pub open spec fn unsigned_part(text: Seq<char>) -> Seq<char> {
    if has_sign(text) {
        text.subrange(1, text.len() as int)
    } else {
        text
    }
}

/// The integer that `text` is the decimal numeral of: an optional `+` or `-`
/// and then one or more digits, with nothing before, between or after.
/// `None` where `text` is no such numeral.
pub open spec fn number_of(text: Seq<char>) -> Option<int> {
    let digits = unsigned_part(text);
    if digits.len() == 0 || !all_digits(digits) {
        None
    } else if has_sign(text) && text[0] == '-' {
        Some(-digits_value(digits))
    } else {
        Some(digits_value(digits))
    }
}

/// The value of `text` as a numeral that fits 32 bits, or `None`.
pub open spec fn parsed(text: Seq<char>) -> Option<i32> {
    match number_of(text) {
        Some(n) => if i32::MIN <= n <= i32::MAX {
            Some(n as i32)
        } else {
            None
        },
        None => None,
    }
}

/// The digits of `n` in base ten, the most significant first, without
/// leading zeros.
pub open spec fn digits_of(n: nat) -> Seq<char>
    decreases n,
{
    if n < 10 {
        seq![digit_char(n as int)]
    } else {
        digits_of(n / 10).push(digit_char((n % 10) as int))
    }
}

/// The decimal numeral of `value`: its digits, after a `-` where it is negative.
pub open spec fn decimal(value: int) -> Seq<char> {
    if value < 0 {
        seq!['-'] + digits_of((-value) as nat)
    } else {
        digits_of(value as nat)
    }
}

/// Appends the digits of `n` to `out`.
fn push_digits(n: u32, out: &mut Vec<char>)
    ensures
        final(out)@ == old(out)@ + digits_of(n as nat),
    decreases n,
{
    if n >= 10 {
        push_digits(n / 10, out);
    }
    let digit: u8 = (n % 10) as u8;
    out.push((digit + 48) as char);
    assert(out@ =~= old(out)@ + digits_of(n as nat));
}

/// Appends the decimal numeral of `value` to `out`.
pub fn write_decimal(value: i32, out: &mut Vec<char>)
    ensures
        final(out)@ == old(out)@ + decimal(value as int),
{
    if value < 0 {
        out.push('-');
        let magnitude: u32 = (-(value as i64)) as u32;
        push_digits(magnitude, out);
        assert(out@ =~= old(out)@ + decimal(value as int));
    } else {
        push_digits(value as u32, out);
    }
}

/// Reads `text` as a decimal numeral. The whole of `text` must be the
/// numeral, and its value must fit 32 bits.
pub fn parse_decimal(text: &Vec<char>) -> (r: Option<i32>)
    ensures
        r == parsed(text@),
{
    let n: usize = text.len();
    let mut negative: bool = false;
    let mut start: usize = 0;
    if n > 0 && (text[0] == '-' || text[0] == '+') {
        negative = text[0] == '-';
        start = 1;
    }
    if start == n {
        return None;
    }
    let ghost digits = unsigned_part(text@);
    let mut i: usize = start;
    let mut total: i64 = 0;
    while i < n
        invariant
            start <= i <= n,
            n == text@.len(),
            start == (if has_sign(text@) { 1int } else { 0int }),
            digits == unsigned_part(text@),
            digits.len() == n - start,
            all_digits(digits.subrange(0, i - start)),
            total == digits_value(digits.subrange(0, i - start)),
            0 <= total <= 2147483648,
        decreases n - i,
    {
        let c: char = text[i];
        let ghost seen = digits.subrange(0, i - start);
        let ghost next = digits.subrange(0, i - start + 1);
        assert(digits[i - start] == c);
        if !(c >= '0' && c <= '9') {
            assert(!is_digit(digits[i - start]));
            return None;
        }
        total = total * 10 + (c as i64 - 48);
        proof {
            assert(next.drop_last() =~= seen);
            assert(next.last() == c);
            assert forall|k: int| 0 <= k < next.len() implies is_digit(#[trigger] next[k]) by {
                if k < seen.len() {
                    assert(next[k] == seen[k]);
                }
            }
        }
        if total > 2147483648 {
            proof {
                if all_digits(digits) {
                    lemma_prefix_value(digits, i - start + 1);
                }
            }
            return None;
        }
        i = i + 1;
    }
    assert(digits.subrange(0, n - start) =~= digits);
    if negative {
        Some((-total) as i32)
    } else if total <= 2147483647 {
        Some(total as i32)
    } else {
        None
    }
}

/// A run of digits stands for no less than any run it starts with.
pub proof fn lemma_prefix_value(digits: Seq<char>, length: int)
    requires
        all_digits(digits),
        0 <= length <= digits.len(),
    ensures
        0 <= digits_value(digits.subrange(0, length)) <= digits_value(digits),
    decreases digits.len() - length,
{
    lemma_value_bounds(digits.subrange(0, length));
    if length < digits.len() {
        lemma_prefix_value(digits, length + 1);
        let longer = digits.subrange(0, length + 1);
        assert(longer.drop_last() =~= digits.subrange(0, length));
        assert(is_digit(digits[length]));
        assert(longer.last() == digits[length]);
    } else {
        assert(digits.subrange(0, length) =~= digits);
    }
}

/// A run of digits stands for a number that is not negative.
pub proof fn lemma_value_bounds(digits: Seq<char>)
    requires
        all_digits(digits),
    ensures
        0 <= digits_value(digits),
    decreases digits.len(),
{
    if digits.len() > 0 {
        assert(is_digit(digits[digits.len() - 1]));
        lemma_value_bounds(digits.drop_last());
    }
}

/// The digits of a number are digits, at least one, and stand for that number.
pub proof fn lemma_digits_of(n: nat)
    ensures
        digits_of(n).len() > 0,
        all_digits(digits_of(n)),
        digits_value(digits_of(n)) == n,
    decreases n,
{
    if n < 10 {
        assert(digits_of(n).drop_last() =~= Seq::<char>::empty());
        assert(digits_value(digits_of(n).drop_last()) == 0);
    } else {
        lemma_digits_of(n / 10);
        assert(digits_of(n).drop_last() =~= digits_of(n / 10));
    }
}

/// A number written as a decimal numeral and read again is the same number:
/// what a program prints of a value, another can take in.
pub proof fn lemma_decimal_round_trip(value: i32)
    ensures
        number_of(decimal(value as int)) == Some(value as int),
        parsed(decimal(value as int)) == Some(value),
{
    let text = decimal(value as int);
    if value < 0 {
        let n = (-value) as nat;
        lemma_digits_of(n);
        assert(text[0] == '-');
        assert(unsigned_part(text) =~= digits_of(n));
    } else {
        let n = value as nat;
        lemma_digits_of(n);
        assert(is_digit(text[0]));
        assert(unsigned_part(text) == text);
    }
}

} // verus!
