use vstd::prelude::*;
use crate::text::chars_to_string;

verus! {

/// Decimal digits `0` to `9`.
pub open spec fn is_digit(c: char) -> bool {
    '0' <= c <= '9'
}

/// The number a decimal digit stands for.
pub open spec fn digit_value(c: char) -> nat
    recommends
        is_digit(c),
{
    (c as u32 - '0' as u32) as nat
}

/// The decimal digit that stands for `d`.
pub open spec fn digit_char(d: nat) -> char
    recommends
        d < 10,
{
    (d + 48) as u8 as char
}

/// Every character of `s` is a decimal digit.
pub open spec fn all_digits(s: Seq<char>) -> bool {
    forall|i: int| 0 <= i < s.len() ==> is_digit(#[trigger] s[i])
}

/// The number that a string of decimal digits denotes; leading zeros are allowed
/// and the empty string denotes zero.
pub open spec fn decimal_value(s: Seq<char>) -> nat
    decreases s.len(),
{
    if s.len() == 0 {
        0
    } else {
        decimal_value(s.drop_last()) * 10 + digit_value(s.last())
    }
}

/// The shortest decimal notation of `n`.
pub open spec fn decimal_text(n: nat) -> Seq<char>
    decreases n,
{
    if n < 10 {
        seq![digit_char(n)]
    } else {
        decimal_text(n / 10).push(digit_char(n % 10))
    }
}

/// The decimal notation of an integer: a minus sign before negative numbers.
pub open spec fn signed_text(n: int) -> Seq<char> {
    if n < 0 {
        seq!['-'] + decimal_text((-n) as nat)
    } else {
        decimal_text(n as nat)
    }
}

/// The digits of a number are digits, and there is at least one.
pub proof fn lemma_decimal_text_digits(n: nat)
    ensures
        all_digits(decimal_text(n)),
        decimal_text(n).len() >= 1,
    decreases n,
{
    if n >= 10 {
        lemma_decimal_text_digits(n / 10);
    }
}

/// Reading the decimal notation of a number gives the number back.
pub proof fn lemma_decimal_round_trip(n: nat)
    ensures
        decimal_value(decimal_text(n)) == n,
    decreases n,
{
    if n < 10 {
        assert(decimal_text(n).drop_last() =~= Seq::<char>::empty());
        assert(decimal_value(Seq::<char>::empty()) == 0);
    } else {
        lemma_decimal_round_trip(n / 10);
        assert(decimal_text(n).drop_last() =~= decimal_text(n / 10));
    }
}

/// A longer string of digits denotes no smaller a number than its prefix.
pub proof fn lemma_decimal_value_prefix(s: Seq<char>, k: int)
    requires
        0 <= k <= s.len(),
    ensures
        decimal_value(s.take(k)) <= decimal_value(s),
    decreases s.len() - k,
{
    if k == s.len() {
        assert(s.take(k) =~= s);
    } else {
        lemma_decimal_value_prefix(s.drop_last(), k);
        assert(s.drop_last().take(k) =~= s.take(k));
    }
}

/// Writes `n` in decimal.
pub fn render_unsigned(n: u64) -> (text: String)
    ensures
        text@ == decimal_text(n as nat),
{
    let mut reversed: Vec<char> = Vec::new();
    let mut rest: u64 = n;
    while rest >= 10
        invariant
            decimal_text(n as nat) == decimal_text(rest as nat) + reversed@.reverse(),
        decreases rest,
    {
        let d: u8 = (rest % 10) as u8;
        let c: char = (d + 48) as char;
        proof {
            let prev = reversed@;
        }
        reversed.push(c);
        rest = rest / 10;
    }
    let first: char = ((rest as u8) + 48) as char;
    let mut forward: Vec<char> = Vec::new();
    forward.push(first);
    let mut i: usize = reversed.len();
    while i > 0
        invariant
            i <= reversed.len(),
            forward@ == seq![first] + reversed@.reverse().take(reversed.len() - i),
        decreases i,
    {
        i -= 1;
        forward.push(reversed[i]);
        proof {
            let r = reversed@.reverse();
            let k = reversed.len() - i;
        }
    }
    proof {
        let r = reversed@.reverse();
    }
    chars_to_string(&forward, 0, forward.len())
}

/// Writes `n` in decimal, with a minus sign if it is negative.
pub fn render_signed(n: i64) -> (text: String)
    ensures
        text@ == signed_text(n as int),
{
    if n < 0 {
        let magnitude: u64 = ((-(n + 1)) as u64) + 1;
        let digits = render_unsigned(magnitude);
        let mut text = String::new();
        text.push('-');
        text.append(digits.as_str());
        text
    } else {
        render_unsigned(n as u64)
    }
}

/// The number that the digits `d` denote, where there is at least one digit,
/// nothing but digits, and the number is at most `limit`.
pub open spec fn bounded_value(d: Seq<char>, limit: nat) -> Option<nat> {
    if d.len() > 0 && all_digits(d) && decimal_value(d) <= limit {
        Some(decimal_value(d))
    } else {
        None
    }
}

/// Whether `s` starts with a plus or minus sign.
pub open spec fn has_sign(s: Seq<char>) -> bool {
    s.len() > 0 && (s[0] == '+' || s[0] == '-')
}

/// What follows the sign, or all of `s` if it has none.
pub open spec fn unsigned_part(s: Seq<char>) -> Seq<char> {
    if has_sign(s) {
        s.skip(1)
    } else {
        s
    }
}

/// The integer that `s` denotes: an optional sign and then at least one digit.
/// `None` if `s` has another form or the integer lies outside `min..=max`.
pub open spec fn signed_in_range(s: Seq<char>, min: int, max: int) -> Option<int> {
    let d = unsigned_part(s);
    if d.len() == 0 || !all_digits(d) {
        None
    } else {
        let v = if s[0] == '-' {
            -(decimal_value(d) as int)
        } else {
            decimal_value(d) as int
        };
        if min <= v <= max {
            Some(v)
        } else {
            None
        }
    }
}

/// The natural number that `s` denotes: an optional plus sign and then at
/// least one digit. `None` if `s` has another form (a minus sign included) or
/// the number is above `max`.
pub open spec fn unsigned_in_range(s: Seq<char>, max: nat) -> Option<nat> {
    if s.len() > 0 && s[0] == '-' {
        None
    } else {
        bounded_value(unsigned_part(s), max)
    }
}

/// Reads the digits `digits[from..]` as a number of at most `limit`.
pub fn read_magnitude(digits: &Vec<char>, from: usize, limit: u64) -> (r: Option<u64>)
    requires
        from <= digits.len(),
    ensures
        r matches Some(v) ==> bounded_value(digits@.skip(from as int), limit as nat) == Some(
            v as nat,
        ),
        r is None ==> bounded_value(digits@.skip(from as int), limit as nat) is None,
{
    let ghost d = digits@.skip(from as int);
    if from == digits.len() {
        return None;
    }
    let mut acc: u64 = 0;
    let mut i: usize = from;
    while i < digits.len()
        invariant
            from <= i <= digits.len(),
            d == digits@.skip(from as int),
            all_digits(d.take(i - from)),
            acc == decimal_value(d.take(i - from)),
            acc <= limit,
        decreases digits.len() - i,
    {
        let c: char = digits[i];
        assert(c == d[i - from]);
        if !('0' <= c && c <= '9') {
            return None;
        }
        let digit: u64 = (c as u32 - '0' as u32) as u64;
        let next: u128 = (acc as u128) * 10 + (digit as u128);
        proof {
            assert(d.take(i - from + 1).drop_last() =~= d.take(i - from));
        }
        if next > limit as u128 {
            proof {
                lemma_decimal_value_prefix(d, i - from + 1);
            }
            return None;
        }
        acc = next as u64;
        i += 1;
    }
    assert(d.take(i - from) =~= d);
    Some(acc)
}

/// Reads `lexeme` as a signed integer within `min..=max`.
pub fn read_signed(lexeme: &Vec<char>, min: i64, max: i64) -> (r: Option<i64>)
    requires
        min <= 0 <= max,
    ensures
        r matches Some(v) ==> signed_in_range(lexeme@, min as int, max as int) == Some(v as int),
        r is None ==> signed_in_range(lexeme@, min as int, max as int) is None,
{
    let signed: bool = lexeme.len() > 0 && (lexeme[0] == '+' || lexeme[0] == '-');
    let negative: bool = lexeme.len() > 0 && lexeme[0] == '-';
    let from: usize = if signed {
        1
    } else {
        0
    };
    assert(lexeme@.skip(0) =~= lexeme@);
    if negative {
        let limit: u64 = if min == 0 {
            0
        } else {
            ((-(min + 1)) as u64) + 1
        };
        match read_magnitude(lexeme, from, limit) {
            Some(m) => {
                if m == 0 {
                    Some(0)
                } else {
                    Some(-((m - 1) as i64) - 1)
                }
            },
            None => {
                proof {
                    let d = lexeme@.skip(1);
                    if d.len() > 0 && all_digits(d) {
                    }
                }
                None
            },
        }
    } else {
        match read_magnitude(lexeme, from, max as u64) {
            Some(m) => Some(m as i64),
            None => None,
        }
    }
}

/// Reads `lexeme` as an unsigned integer of at most `max`.
pub fn read_unsigned(lexeme: &Vec<char>, max: u64) -> (r: Option<u64>)
    ensures
        r matches Some(v) ==> unsigned_in_range(lexeme@, max as nat) == Some(v as nat),
        r is None ==> unsigned_in_range(lexeme@, max as nat) is None,
{
    assert(lexeme@.skip(0) =~= lexeme@);
    if lexeme.len() > 0 && lexeme[0] == '-' {
        None
    } else if lexeme.len() > 0 && lexeme[0] == '+' {
        read_magnitude(lexeme, 1, max)
    } else {
        read_magnitude(lexeme, 0, max)
    }
}

} // verus!
