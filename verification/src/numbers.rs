//! Decimal digit strings: the integer readings that the protocol relies on.

use vstd::prelude::*;

verus! {

/// An ASCII decimal digit.
pub open spec fn is_digit(c: char) -> bool {
    '0' <= c && c <= '9'
}

/// Every character of `s` is an ASCII decimal digit.
pub open spec fn all_digits(s: Seq<char>) -> bool {
    forall|i: int| 0 <= i < s.len() ==> is_digit(#[trigger] s[i])
}

/// The value of the digit `c`.
pub open spec fn digit_value(c: char) -> nat {
    (c as int - '0' as int) as nat
}

/// The value of the decimal numeral `s`, read left to right.
pub open spec fn digits_value(s: Seq<char>) -> nat
    decreases s.len(),
{
    if s.len() == 0 {
        0
    } else {
        digits_value(s.drop_last()) * 10 + digit_value(s.last())
    }
}

/// What `serde_json::Number::as_u64` gives for a number that `serde_json`
/// prints as `text`: a value only for non-negative integers, which it prints
/// as bare digits.
pub open spec fn spec_number_as_u64(text: Seq<char>) -> Option<u64> {
    if text.len() > 0 && all_digits(text) && digits_value(text) <= u64::MAX {
        Some(digits_value(text) as u64)
    } else {
        None
    }
}

/// What `str::parse::<u32>` gives: an optional `+`, then one or more ASCII
/// digits whose value fits in 32 bits.
pub open spec fn spec_parse_u32(text: Seq<char>) -> Option<u32> {
    let body = if text.len() > 0 && text[0] == '+' { text.drop_first() } else { text };
    if body.len() > 0 && all_digits(body) && digits_value(body) <= u32::MAX {
        Some(digits_value(body) as u32)
    } else {
        None
    }
}

proof fn lemma_digits_value_take(s: Seq<char>, i: int)
    requires
        0 <= i < s.len(),
        all_digits(s),
    ensures
        digits_value(s.take(i + 1)) == digits_value(s.take(i)) * 10 + digit_value(s[i]),
{
    assert(s.take(i + 1).drop_last() =~= s.take(i));
}

proof fn lemma_digits_value_monotone(s: Seq<char>, i: int)
    requires
        0 <= i <= s.len(),
        all_digits(s),
    ensures
        digits_value(s.take(i)) <= digits_value(s),
    decreases s.len() - i,
{
    if i < s.len() {
        lemma_digits_value_take(s, i);
        lemma_digits_value_monotone(s, i + 1);
    } else {
        assert(s.take(i) =~= s);
    }
}

/// Reads `s[from..]` as a decimal numeral no greater than `bound`.
fn read_digits(s: &[char], from: usize, bound: u64) -> (r: Option<u64>)
    requires
        from <= s.len(),
        bound >= 9,
    ensures
        ({
            let body = s@.skip(from as int);
            match r {
                Some(v) => body.len() > 0 && all_digits(body) && digits_value(body) <= bound && v == digits_value(body),
                None => !(body.len() > 0 && all_digits(body) && digits_value(body) <= bound),
            }
        }),
{
    let ghost body = s@.skip(from as int);
    if from == s.len() {
        return None;
    }
    let mut acc: u64 = 0;
    let mut i: usize = from;
    while i < s.len()
        invariant
            from <= i <= s.len(),
            body == s@.skip(from as int),
            forall|j: int| 0 <= j < i - from ==> is_digit(#[trigger] body[j]),
            acc as nat == digits_value(body.take(i - from)),
            acc <= bound,
            bound >= 9,
        decreases s.len() - i,
    {
        let c = s[i];
        if !('0' <= c && c <= '9') {
            assert(!is_digit(body[i - from]));
            return None;
        }
        let d = (c as u32 - '0' as u32) as u64;
        assert(d <= 9 && d == digit_value(c));
        proof {
            assert(body[i - from] == c);
            assert(body.take(i - from + 1).drop_last() =~= body.take(i - from));
        }
        if acc > (bound - d) / 10 {
            proof {
                let q = (bound - d) / 10;
                assert(acc * 10 + d > bound) by (nonlinear_arith)
                    requires acc > q, q == (bound - d) / 10, d <= 9, d <= bound;
                if all_digits(body) {
                    lemma_digits_value_monotone(body, i - from + 1);
                }
            }
            return None;
        }
        acc = acc * 10 + d;
        i = i + 1;
    }
    assert(body.take(i - from) =~= body);
    Some(acc)
}

/// The unsigned integer that a JSON number printed as `text` holds, as
/// `serde_json::Number::as_u64` reads it.
pub fn number_as_u64(text: &[char]) -> (r: Option<u64>)
    ensures
        r == spec_number_as_u64(text@),
{
    assert(text@.skip(0) =~= text@);
    read_digits(text, 0, u64::MAX)
}

/// `str::parse::<u32>` on the characters `text`.
pub fn parse_u32(text: &[char]) -> (r: Option<u32>)
    ensures
        r == spec_parse_u32(text@),
{
    let from: usize = if text.len() > 0 && text[0] == '+' { 1 } else { 0 };
    proof {
        if from == 1 {
            assert(text@.skip(1) =~= text@.drop_first());
        } else {
            assert(text@.skip(0) =~= text@);
        }
    }
    match read_digits(text, from, 0xffff_ffff) {
        Some(v) => Some(v as u32),
        None => None,
    }
}

/// The ASCII digit of `d`, for `0 <= d < 10`.
pub open spec fn digit_char(d: nat) -> char {
    (('0' as int) + d) as char
}

/// The decimal numeral of `n`, without leading zeros, as `u32`'s
/// `Display` prints it.
pub open spec fn decimal_text(n: nat) -> Seq<char>
    decreases n,
{
    if n < 10 {
        seq![digit_char(n)]
    } else {
        decimal_text(n / 10).push(digit_char(n % 10))
    }
}

/// The decimal numeral of `n`.
pub fn u32_text(n: u32) -> (r: String)
    ensures
        r@ == decimal_text(n as nat),
{
    u64_text(n as u64)
}

/// The decimal numeral of `n`, as `u64`'s `Display` prints it.
pub fn u64_text(n: u64) -> (r: String)
    ensures
        r@ == decimal_text(n as nat),
{
    let mut m: u64 = n;
    let mut acc: Vec<char> = Vec::new();
    while m >= 10
        invariant
            decimal_text(n as nat) == decimal_text(m as nat) + acc@,
        decreases m,
    {
        let d: u8 = (m % 10) as u8;
        let c: char = (48u8 + d) as char;
        assert(c == digit_char((m % 10) as nat));
        let ghost before = acc@;
        acc.insert(0, c);
        proof {
            assert(acc@ =~= seq![c] + before);
            assert(decimal_text(m as nat) == decimal_text((m / 10) as nat).push(c));
            assert(decimal_text((m / 10) as nat).push(c) + before =~= decimal_text((m / 10) as nat) + (seq![c] + before));
        }
        m = m / 10;
    }
    let c: char = (48u8 + (m as u8)) as char;
    assert(c == digit_char(m as nat));
    let ghost before = acc@;
    acc.insert(0, c);
    assert(acc@ =~= seq![c] + before);
    assert(decimal_text(m as nat) == seq![c]);
    crate::text::string_of(acc.as_slice())
}

} // verus!
