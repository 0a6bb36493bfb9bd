//! Decimal formatting and parsing of integers, as `to_string` and `parse` do it.

use vstd::prelude::*;

verus! {

/// The ASCII digit for `d` (`0 <= d < 10`).
pub open spec fn digit_char(d: int) -> char {
    (d + 48) as char
}

/// `c` is an ASCII decimal digit.
pub open spec fn is_digit(c: char) -> bool {
    '0' <= c && c <= '9'
}

/// Every character of `s` is an ASCII decimal digit.
pub open spec fn all_digits(s: Seq<char>) -> bool {
    forall|i: int| 0 <= i < s.len() ==> #[trigger] is_digit(s[i])
}

/// The decimal notation of `n`, without leading zeros.
pub open spec fn decimal(n: nat) -> Seq<char>
    decreases n,
{
    if n < 10 {
        seq![digit_char(n as int)]
    } else {
        decimal(n / 10).push(digit_char((n % 10) as int))
    }
}

/// The decimal notation of `x`, with a leading `-` when negative.
pub open spec fn signed_decimal(x: int) -> Seq<char> {
    if x < 0 {
        seq!['-'] + decimal((-x) as nat)
    } else {
        decimal(x as nat)
    }
}

/// The number that the digit string `s` denotes.
pub open spec fn digits_value(s: Seq<char>) -> int
    decreases s.len(),
{
    if s.len() == 0 {
        0
    } else {
        digits_value(s.drop_last()) * 10 + ((s.last() as int) - 48)
    }
}

/// The optional sign of a number: `(negative, digits)`.
pub open spec fn split_sign(s: Seq<char>) -> (bool, Seq<char>) {
    if s.len() > 0 && s[0] == '-' {
        (true, s.skip(1))
    } else if s.len() > 0 && s[0] == '+' {
        (false, s.skip(1))
    } else {
        (false, s)
    }
}

/// What `s.parse::<i32>()` gives: an optional sign, then at least one digit,
/// and a value in range.
pub open spec fn parse_i32_spec(s: Seq<char>) -> Option<i32> {
    let (neg, body) = split_sign(s);
    if body.len() == 0 || !all_digits(body) {
        None
    } else {
        let v = if neg { -digits_value(body) } else { digits_value(body) };
        if i32::MIN <= v <= i32::MAX {
            Some(v as i32)
        } else {
            None
        }
    }
}

/// What `s.parse::<u32>()` gives: an optional `+`, then at least one digit,
/// and a value in range.
pub open spec fn parse_u32_spec(s: Seq<char>) -> Option<u32> {
    let body = if s.len() > 0 && s[0] == '+' { s.skip(1) } else { s };
    if body.len() == 0 || !all_digits(body) {
        None
    } else if digits_value(body) <= u32::MAX {
        Some(digits_value(body) as u32)
    } else {
        None
    }
}

proof fn lemma_digits_value_nonneg(s: Seq<char>)
    requires
        all_digits(s),
    ensures
        digits_value(s) >= 0,
    decreases s.len(),
{
    if s.len() > 0 {
        assert(is_digit(s[s.len() - 1]));
        lemma_digits_value_nonneg(s.drop_last());
    }
}

proof fn lemma_digits_value_prefix(s: Seq<char>, k: int)
    requires
        all_digits(s),
        0 <= k <= s.len(),
    ensures
        digits_value(s.take(k)) <= digits_value(s),
    decreases s.len() - k,
{
    if k < s.len() {
        lemma_digits_value_prefix(s, k + 1);
        let t = s.take(k + 1);
        assert(t.drop_last() == s.take(k));
        assert(is_digit(s[k]));
        assert(all_digits(s.take(k)));
        lemma_digits_value_nonneg(s.take(k));
    } else {
        assert(s.take(k) == s);
    }
}

fn digit_of(d: u64) -> (c: char)
    requires
        d < 10,
    ensures
        c == digit_char(d as int),
{
    let b: u8 = (d as u8) + 48;
    b as char
}

/// The decimal notation of `n`.
pub fn u64_decimal(n: u64) -> (res: Vec<char>)
    ensures
        res@ == decimal(n as nat),
    decreases n,
{
    if n < 10 {
        let mut v = Vec::new();
        v.push(digit_of(n));
        assert(v@ == seq![digit_char(n as int)]);
        v
    } else {
        let mut v = u64_decimal(n / 10);
        v.push(digit_of(n % 10));
        v
    }
}

/// `n.to_string()`.
pub fn u32_to_string(n: u32) -> (res: String)
    ensures
        res@ == decimal(n as nat),
{
    crate::text::string_of(&u64_decimal(n as u64))
}

/// `x.to_string()`.
pub fn i32_to_string(x: i32) -> (res: String)
    ensures
        res@ == signed_decimal(x as int),
{
    if x < 0 {
        let m: u64 = (-(x as i64)) as u64;
        let d = u64_decimal(m);
        let mut v: Vec<char> = Vec::new();
        v.push('-');
        let mut i: usize = 0;
        while i < d.len()
            invariant
                i <= d.len(),
                v@ == seq!['-'] + d@.take(i as int),
            decreases d.len() - i,
        {
            v.push(d[i]);
            assert(d@.take(i + 1) == d@.take(i as int).push(d@[i as int]));
            i = i + 1;
        }
        assert(d@.take(d.len() as int) == d@);
        crate::text::string_of(&v)
    } else {
        crate::text::string_of(&u64_decimal(x as u64))
    }
}

/// The value of the digits `v[start..]` if they are all digits and the value is at most `limit`.
fn digits_up_to(v: &Vec<char>, start: usize, limit: u64) -> (res: Option<u64>)
    requires
        start <= v.len(),
        limit <= u32::MAX + 1,
    ensures
        res == (if all_digits(v@.skip(start as int)) && digits_value(v@.skip(start as int)) <= limit {
            Some(digits_value(v@.skip(start as int)) as u64)
        } else {
            None::<u64>
        }),
        res matches Some(m) ==> m <= limit,
{
    let ghost body = v@.skip(start as int);
    let mut acc: u64 = 0;
    let mut i: usize = start;
    assert(body.take(0) =~= Seq::<char>::empty());
    while i < v.len()
        invariant
            start <= i <= v.len(),
            body == v@.skip(start as int),
            limit <= u32::MAX + 1,
            acc <= limit,
            all_digits(body.take(i - start)),
            acc == digits_value(body.take(i - start)),
        decreases v.len() - i,
    {
        let c = v[i];
        if !('0' <= c && c <= '9') {
            assert(body[i - start] == c);
            assert(!is_digit(body[i - start]));
            return None;
        }
        let d: u64 = ((c as u32) - 48) as u64;
        let next = acc * 10 + d;
        let ghost t = body.take(i + 1 - start);
        assert(t.drop_last() == body.take(i - start));
        assert(t.last() == c);
        assert(all_digits(t)) by {
            assert forall|j: int| 0 <= j < t.len() implies #[trigger] is_digit(t[j]) by {
                if j < t.len() - 1 {
                    assert(t[j] == body.take(i - start)[j]);
                }
            }
        }
        if next > limit {
            proof {
                if all_digits(body) {
                    lemma_digits_value_prefix(body, i + 1 - start);
                }
            }
            return None;
        }
        acc = next;
        i = i + 1;
    }
    assert(body.take(i - start) == body);
    proof {
        lemma_digits_value_nonneg(body);
    }
    Some(acc)
}

/// `s.parse::<i32>().ok()`.
pub fn parse_i32(s: &str) -> (res: Option<i32>)
    ensures
        res == parse_i32_spec(s@),
{
    let v = crate::text::chars_of(s);
    let ghost (neg, body) = split_sign(s@);
    let mut start: usize = 0;
    let mut negative = false;
    if v.len() > 0 && v[0] == '-' {
        start = 1;
        negative = true;
    } else if v.len() > 0 && v[0] == '+' {
        start = 1;
    }
    assert(body == v@.skip(start as int));
    if start == v.len() {
        return None;
    }
    let limit: u64 = if negative { 2147483648 } else { 2147483647 };
    proof {
        if all_digits(body) {
            lemma_digits_value_nonneg(body);
        }
    }
    match digits_up_to(&v, start, limit) {
        None => None,
        Some(m) => {
            if negative {
                Some((-(m as i64)) as i32)
            } else {
                Some(m as i32)
            }
        },
    }
}

/// `s.parse::<u32>().ok()`.
pub fn parse_u32(s: &str) -> (res: Option<u32>)
    ensures
        res == parse_u32_spec(s@),
{
    let v = crate::text::chars_of(s);
    let mut start: usize = 0;
    if v.len() > 0 && v[0] == '+' {
        start = 1;
    }
    assert(v@.skip(0) == v@);
    if start == v.len() {
        return None;
    }
    proof {
        let body = v@.skip(start as int);
        if all_digits(body) {
            lemma_digits_value_nonneg(body);
        }
    }
    match digits_up_to(&v, start, 4294967295) {
        None => None,
        Some(m) => Some(m as u32),
    }
}

} // verus!
