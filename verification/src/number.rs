//! Decimal integer parsing, as `str::parse` does for the integer types.

use vstd::prelude::*;
use crate::text::chars_of;

verus! {

pub open spec fn is_digit(c: char) -> bool {
    '0' <= c && c <= '9'
}

pub open spec fn all_digits(s: Seq<char>) -> bool {
    forall|i: int| 0 <= i < s.len() ==> is_digit(#[trigger] s[i])
}

/// The value of a string of decimal digits.
pub open spec fn digits_value(s: Seq<char>) -> nat
    decreases s.len(),
{
    if s.len() == 0 {
        0
    } else {
        (digits_value(s.drop_last()) * 10 + (s.last() as nat - '0' as nat)) as nat
    }
}

/// The magnitude of an unsigned decimal with an optional `+`: at least one digit, nothing else.
pub open spec fn spec_parse_nat(s: Seq<char>) -> Option<nat> {
    let body = if s.len() > 0 && s[0] == '+' { s.subrange(1, s.len() as int) } else { s };
    if body.len() > 0 && all_digits(body) { Some(digits_value(body)) } else { None }
}

/// The value of a signed decimal with an optional `+` or `-`.
pub open spec fn spec_parse_int(s: Seq<char>) -> Option<int> {
    if s.len() > 0 && s[0] == '-' {
        let body = s.subrange(1, s.len() as int);
        if body.len() > 0 && all_digits(body) { Some(-(digits_value(body) as int)) } else { None }
    } else {
        match spec_parse_nat(s) {
            Some(n) => Some(n as int),
            None => None,
        }
    }
}

proof fn lemma_digits_monotone(s: Seq<char>, j: int, k: int)
    requires
        0 <= j <= k <= s.len(),
        all_digits(s),
    ensures
        digits_value(s.subrange(0, j)) <= digits_value(s.subrange(0, k)),
    decreases k - j,
{
    if j < k {
        lemma_digits_monotone(s, j, k - 1);
        let t = s.subrange(0, k);
        assert(t.drop_last() == s.subrange(0, k - 1));
        assert(is_digit(s[k - 1]));
    }
}

/// Parses the digits of `s[from..]`, all of which must be digits and at least one,
/// giving `None` as soon as the value passes `bound`.
fn parse_digits(s: &Vec<char>, from: usize, bound: u128) -> (r: Option<u128>)
    requires
        from <= s.len(),
        bound <= u64::MAX,
    ensures
        ({
            let body = s@.subrange(from as int, s.len() as int);
            match r {
                Some(v) => body.len() > 0 && all_digits(body) && v == digits_value(body) && v <= bound,
                None => !(body.len() > 0 && all_digits(body) && digits_value(body) <= bound),
            }
        }),
{
    let ghost body = s@.subrange(from as int, s.len() as int);
    if from == s.len() {
        return None;
    }
    let mut acc: u128 = 0;
    let mut i: usize = from;
    while i < s.len()
        invariant
            from <= i <= s.len(),
            body == s@.subrange(from as int, s.len() as int),
            all_digits(s@.subrange(from as int, i as int)),
            acc == digits_value(s@.subrange(from as int, i as int)),
            acc <= bound,
            bound <= u64::MAX,
        decreases s.len() - i,
    {
        let c = s[i];
        let ghost pre = s@.subrange(from as int, i + 1);
        assert(pre.drop_last() == s@.subrange(from as int, i as int));
        if !('0' <= c && c <= '9') {
            assert(body[i - from] == c);
            return None;
        }
        let d = (c as u32 - '0' as u32) as u128;
        assert(d <= 9);
        assert(acc * 10 <= 0xffff_ffff_ffff_ffffu128 * 10) by (nonlinear_arith)
            requires
                acc <= 0xffff_ffff_ffff_ffffu128,
        ;
        acc = acc * 10 + d;
        assert(acc == digits_value(pre));
        assert(all_digits(pre)) by {
            assert forall|k: int| 0 <= k < pre.len() implies is_digit(#[trigger] pre[k]) by {
                if k < pre.len() - 1 {
                    assert(pre[k] == s@.subrange(from as int, i as int)[k]);
                }
            }
        }
        i = i + 1;
        if acc > bound {
            proof {
                if all_digits(body) {
                    lemma_digits_monotone(body, (i - from) as int, body.len() as int);
                    assert(body.subrange(0, (i - from) as int) == s@.subrange(from as int, i as int));
                    assert(body.subrange(0, body.len() as int) == body);
                }
            }
            return None;
        }
    }
    assert(s@.subrange(from as int, s.len() as int) == body);
    Some(acc)
}

/// The value of an unsigned decimal that fits under `bound`.
fn parse_bounded_nat(s: &str, bound: u128) -> (r: Option<u128>)
    requires
        bound <= u64::MAX,
    ensures
        match r {
            Some(v) => spec_parse_nat(s@) == Some(v as nat) && v <= bound,
            None => !(spec_parse_nat(s@) matches Some(n) && n <= bound),
        },
{
    let v = chars_of(s);
    let from: usize = if v.len() > 0 && v[0] == '+' { 1 } else { 0 };
    assert(from == 0 ==> v@.subrange(0, v@.len() as int) == v@);
    parse_digits(&v, from, bound)
}

/// `s` parsed as a `u8`.
pub fn parse_u8(s: &str) -> (r: Option<u8>)
    ensures
        r == (match spec_parse_nat(s@) {
            Some(n) => if n <= u8::MAX { Some(n as u8) } else { None },
            None => None,
        }),
{
    match parse_bounded_nat(s, u8::MAX as u128) {
        Some(v) => Some(v as u8),
        None => None,
    }
}

/// `s` parsed as a `u32`.
pub fn parse_u32(s: &str) -> (r: Option<u32>)
    ensures
        r == (match spec_parse_nat(s@) {
            Some(n) => if n <= u32::MAX { Some(n as u32) } else { None },
            None => None,
        }),
{
    match parse_bounded_nat(s, u32::MAX as u128) {
        Some(v) => Some(v as u32),
        None => None,
    }
}

/// `s` parsed as a `u64`.
pub fn parse_u64(s: &str) -> (r: Option<u64>)
    ensures
        r == (match spec_parse_nat(s@) {
            Some(n) => if n <= u64::MAX { Some(n as u64) } else { None },
            None => None,
        }),
{
    match parse_bounded_nat(s, u64::MAX as u128) {
        Some(v) => Some(v as u64),
        None => None,
    }
}

/// `s` parsed as a `usize`.
pub fn parse_usize(s: &str) -> (r: Option<usize>)
    ensures
        r == (match spec_parse_nat(s@) {
            Some(n) => if n <= usize::MAX { Some(n as usize) } else { None },
            None => None,
        }),
{
    match parse_bounded_nat(s, usize::MAX as u128) {
        Some(v) => Some(v as usize),
        None => None,
    }
}

/// `s` parsed as an `i32`.
pub fn parse_i32(s: &str) -> (r: Option<i32>)
    ensures
        r == (match spec_parse_int(s@) {
            Some(n) => if i32::MIN <= n <= i32::MAX { Some(n as i32) } else { None },
            None => None,
        }),
{
    let v = chars_of(s);
    if v.len() > 0 && v[0] == '-' {
        match parse_digits(&v, 1, 2147483648u128) {
            Some(m) => Some((0 - (m as i64)) as i32),
            None => None,
        }
    } else {
        match parse_bounded_nat(s, i32::MAX as u128) {
            Some(m) => Some(m as i32),
            None => None,
        }
    }
}

/// The character of a decimal digit.
pub open spec fn digit_char(d: nat) -> char {
    if d == 0 { '0' }
    else if d == 1 { '1' }
    else if d == 2 { '2' }
    else if d == 3 { '3' }
    else if d == 4 { '4' }
    else if d == 5 { '5' }
    else if d == 6 { '6' }
    else if d == 7 { '7' }
    else if d == 8 { '8' }
    else { '9' }
}

/// The decimal digits of `n`, without leading zeros.
pub open spec fn spec_decimal(n: nat) -> Seq<char>
    decreases n,
{
    if n < 10 {
        seq![digit_char(n)]
    } else {
        spec_decimal(n / 10).push(digit_char(n % 10))
    }
}

fn digit_of(d: u64) -> (c: char)
    requires
        d < 10,
    ensures
        c == digit_char(d as nat),
{
    match d {
        0 => '0',
        1 => '1',
        2 => '2',
        3 => '3',
        4 => '4',
        5 => '5',
        6 => '6',
        7 => '7',
        8 => '8',
        _ => '9',
    }
}

fn decimal_chars(n: u64) -> (v: Vec<char>)
    ensures
        v@ == spec_decimal(n as nat),
    decreases n,
{
    if n < 10 {
        let mut v: Vec<char> = Vec::new();
        v.push(digit_of(n));
        v
    } else {
        let mut v = decimal_chars(n / 10);
        v.push(digit_of(n % 10));
        v
    }
}

/// `n` written in decimal, as `to_string` writes an unsigned integer.
pub fn decimal(n: u64) -> (s: String)
    ensures
        s@ == spec_decimal(n as nat),
{
    crate::text::string_of(&decimal_chars(n))
}

/// A signed integer in decimal: a `-` before the digits of a negative one.
pub open spec fn spec_signed_decimal(n: int) -> Seq<char> {
    if n >= 0 { spec_decimal(n as nat) } else { "-"@ + spec_decimal((-n) as nat) }
}

/// `n` written in decimal, as `to_string` writes a signed integer.
pub fn signed_decimal(n: i64) -> (s: String)
    ensures
        s@ == spec_signed_decimal(n as int),
{
    if n >= 0 {
        decimal(n as u64)
    } else {
        let m: u64 = if n == i64::MIN { 9223372036854775808u64 } else { (-n) as u64 };
        let v = crate::text::concat(&crate::text::chars_of("-"), &decimal_chars(m));
        crate::text::string_of(&v)
    }
}

/// Writing a number in decimal and parsing it back gives the number.
pub proof fn law_decimal_parses_back(n: nat)
    ensures
        spec_parse_nat(spec_decimal(n)) == Some(n),
    decreases n,
{
    lemma_decimal_digits(n);
}

pub(crate) proof fn lemma_decimal_digits(n: nat)
    ensures
        spec_decimal(n).len() > 0,
        all_digits(spec_decimal(n)),
        digits_value(spec_decimal(n)) == n,
        spec_decimal(n)[0] != '+',
    decreases n,
{
    if n >= 10 {
        lemma_decimal_digits(n / 10);
        let s = spec_decimal(n);
        assert(s.drop_last() == spec_decimal(n / 10));
        assert(s.last() == digit_char(n % 10));
        lemma_digit_char_value(n % 10);
        assert(n == (n / 10) * 10 + n % 10);
        assert(digits_value(s) == digits_value(s.drop_last()) * 10 + (s.last() as nat - '0' as nat));
        assert(digits_value(s) == n);
        assert forall|i: int| 0 <= i < s.len() implies is_digit(#[trigger] s[i]) by {
            if i < s.len() - 1 {
                assert(s[i] == spec_decimal(n / 10)[i]);
            }
        }
    } else {
        let s = spec_decimal(n);
        assert(s.drop_last() =~= Seq::<char>::empty());
        lemma_digit_char_value(n);
        assert(digits_value(s.drop_last()) == 0);
        assert(digits_value(s) == n);
    }
}

proof fn lemma_digit_char_value(d: nat)
    requires
        d < 10,
    ensures
        is_digit(digit_char(d)),
        digit_char(d) as nat - '0' as nat == d,
{
}

} // verus!
