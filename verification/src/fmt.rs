//! Decimal rendering and reading of integers, as `{}` and `str::parse` do it.

use vstd::prelude::*;

verus! {

/// The ASCII digit for `d`, which is below ten.
pub open spec fn digit_char(d: nat) -> char {
    ((d + 48) as u32) as char
}

/// The decimal digits of `n`, most significant first, without leading zeros.
pub open spec fn spec_decimal(n: nat) -> Seq<char>
    decreases n,
{
    if n < 10 {
        seq![digit_char(n)]
    } else {
        spec_decimal(n / 10).push(digit_char(n % 10))
    }
}

/// `n` as `{}` renders it.
pub open spec fn spec_signed_decimal(n: int) -> Seq<char> {
    if n < 0 {
        seq!['-'] + spec_decimal((-n) as nat)
    } else {
        spec_decimal(n as nat)
    }
}

fn digit(d: u64) -> (c: char)
    requires
        d < 10,
    ensures
        c == digit_char(d as nat),
{
    let c: char = match d {
        0 => '0',
        1 => '1',
        2 => '2',
        3 => '3',
        4 => '4',
        5 => '5',
        6 => '6',
        7 => '7',
        8 => '8',
        _ => '9',
    };
    assert(c == digit_char(d as nat)) by {
        assert(('0' as u32) == 48);
    }
    c
}

/// The decimal digits of `n`.
pub fn decimal(n: u64) -> (s: String)
    ensures
        s@ == spec_decimal(n as nat),
{
    let mut rev: Vec<char> = Vec::new();
    let mut m: u64 = n;
    let ghost mut low: Seq<char> = Seq::empty();
    while m >= 10
        invariant
            spec_decimal(n as nat) == spec_decimal(m as nat) + low,
            rev@ == low.reverse(),
        decreases m,
    {
        let d = digit(m % 10);
        rev.push(d);
        proof {
            assert(spec_decimal(m as nat) == spec_decimal((m / 10) as nat).push(d));
            assert(spec_decimal((m / 10) as nat) + (seq![d] + low) =~= spec_decimal(m as nat) + low);
            low = seq![d] + low;
        }
        assert(rev@ =~= low.reverse());
        m = m / 10;
    }
    rev.push(digit(m));
    proof {
        assert(spec_decimal(m as nat) == seq![digit_char(m as nat)]);
        low = seq![digit_char(m as nat)] + low;
    }
    assert(rev@ =~= low.reverse());
    assert(spec_decimal(n as nat) =~= low);
    let mut s = String::new();
    let mut i: usize = rev.len();
    while i > 0
        invariant
            i <= rev@.len(),
            rev@ == low.reverse(),
            s@ == low.subrange(0, (rev@.len() - i) as int),
        decreases i,
    {
        i = i - 1;
        s.push(rev[i]);
        assert(s@ =~= low.subrange(0, (rev@.len() - i) as int));
    }
    assert(low.subrange(0, rev@.len() as int) =~= low);
    s
}

/// `n` as `{}` renders it.
pub fn signed_decimal(n: i64) -> (s: String)
    ensures
        s@ == spec_signed_decimal(n as int),
{
    if n < 0 {
        let m: u64 = if n == i64::MIN {
            9223372036854775808u64
        } else {
            (-n) as u64
        };
        let d = decimal(m);
        let mut s = String::new();
        s.push('-');
        s.append(d.as_str());
        s
    } else {
        decimal(n as u64)
    }
}

/// `n`, below one hundred, as two digits with a leading zero, as `{:02}` renders it.
pub open spec fn spec_two_digits(n: nat) -> Seq<char> {
    seq![digit_char(n / 10), digit_char(n % 10)]
}

/// `n`, below one hundred, as two digits.
pub fn two_digits(n: u64) -> (s: String)
    requires
        n < 100,
    ensures
        s@ == spec_two_digits(n as nat),
{
    let mut s = String::new();
    s.push(digit(n / 10));
    s.push(digit(n % 10));
    assert(s@ =~= spec_two_digits(n as nat));
    s
}

/// The value of a sequence of decimal digits.
pub open spec fn digits_value(s: Seq<char>) -> nat
    decreases s.len(),
{
    if s.len() == 0 {
        0
    } else {
        digits_value(s.drop_last()) * 10 + ((s.last() as u32) - 48) as nat
    }
}

/// Every character is an ASCII digit.
pub open spec fn all_digits(s: Seq<char>) -> bool {
    forall|i: int| 0 <= i < s.len() ==> '0' <= #[trigger] s[i] <= '9'
}

/// The value `str::parse::<u32>` reads: an optional '+', then one or more
/// ASCII digits whose value fits in a `u32`; anything else is an error.
pub open spec fn spec_parse_u32(s: Seq<char>) -> Option<u32> {
    let digits = if s.len() > 0 && s[0] == '+' {
        s.drop_first()
    } else {
        s
    };
    if digits.len() == 0 || !all_digits(digits) || digits_value(digits) > u32::MAX {
        None
    } else {
        Some(digits_value(digits) as u32)
    }
}

proof fn lemma_digits_value_prefix(s: Seq<char>, k: int)
    requires
        0 <= k <= s.len(),
        all_digits(s),
    ensures
        digits_value(s.subrange(0, k)) <= digits_value(s),
    decreases s.len() - k,
{
    if k < s.len() {
        lemma_digits_value_prefix(s, k + 1);
        let p = s.subrange(0, k + 1);
        assert(p.drop_last() =~= s.subrange(0, k));
        assert('0' <= s[k] <= '9');
        assert(digits_value(p) == digits_value(s.subrange(0, k)) * 10 + ((s[k] as u32) - 48) as nat);
        assert(digits_value(s.subrange(0, k)) <= digits_value(s.subrange(0, k)) * 10) by (nonlinear_arith);
    } else {
        assert(s.subrange(0, k) =~= s);
    }
}

/// Reads a `u32` as `str::parse::<u32>` does.
pub fn parse_u32(s: &[char]) -> (r: Option<u32>)
    ensures
        r == spec_parse_u32(s@),
{
    let start: usize = if s.len() > 0 && s[0] == '+' {
        1
    } else {
        0
    };
    let ghost digits = if s@.len() > 0 && s@[0] == '+' {
        s@.drop_first()
    } else {
        s@
    };
    assert(digits =~= s@.subrange(start as int, s@.len() as int));
    if start == s.len() {
        return None;
    }
    let mut value: u64 = 0;
    let mut i: usize = start;
    while i < s.len()
        invariant
            start <= i <= s@.len(),
            digits == s@.subrange(start as int, s@.len() as int),
            digits == (if s@.len() > 0 && s@[0] == '+' {
                s@.drop_first()
            } else {
                s@
            }),
            forall|j: int| start <= j < i ==> '0' <= #[trigger] s@[j] <= '9',
            value as nat == digits_value(s@.subrange(start as int, i as int)),
            value <= u32::MAX,
        decreases s@.len() - i,
    {
        let c = s[i];
        if !('0' <= c && c <= '9') {
            assert(digits[i - start] == c);
            return None;
        }
        let d = (c as u32 - 48) as u64;
        let next = value * 10 + d;
        assert(s@.subrange(start as int, i + 1).drop_last() =~= s@.subrange(start as int, i as int));
        if next > 4294967295u64 {
            proof {
                if all_digits(digits) {
                    let k = (i + 1 - start) as int;
                    lemma_digits_value_prefix(digits, k);
                    assert(digits.subrange(0, k) =~= s@.subrange(start as int, i + 1));
                }
            }
            return None;
        }
        value = next;
        i = i + 1;
    }
    assert(s@.subrange(start as int, s@.len() as int) =~= digits);
    Some(value as u32)
}

/// The value `str::parse::<i64>` reads: an optional '+' or '-', then one or
/// more ASCII digits whose signed value fits in an `i64`; anything else is an
/// error.
pub open spec fn spec_parse_i64(s: Seq<char>) -> Option<i64> {
    let neg = s.len() > 0 && s[0] == '-';
    let digits = if s.len() > 0 && (s[0] == '+' || s[0] == '-') {
        s.drop_first()
    } else {
        s
    };
    if digits.len() == 0 || !all_digits(digits) {
        None
    } else if neg {
        if digits_value(digits) > 9223372036854775808 {
            None
        } else {
            Some((0 - digits_value(digits)) as i64)
        }
    } else if digits_value(digits) > 9223372036854775807 {
        None
    } else {
        Some(digits_value(digits) as i64)
    }
}

/// Reads an `i64` as `str::parse::<i64>` does.
pub fn parse_i64(s: &[char]) -> (r: Option<i64>)
    ensures
        r == spec_parse_i64(s@),
{
    let neg = s.len() > 0 && s[0] == '-';
    let start: usize = if s.len() > 0 && (s[0] == '+' || s[0] == '-') {
        1
    } else {
        0
    };
    let ghost digits = if s@.len() > 0 && (s@[0] == '+' || s@[0] == '-') {
        s@.drop_first()
    } else {
        s@
    };
    assert(digits =~= s@.subrange(start as int, s@.len() as int));
    if start == s.len() {
        return None;
    }
    let limit: u128 = if neg {
        9223372036854775808u128
    } else {
        9223372036854775807u128
    };
    let mut value: u128 = 0;
    let mut i: usize = start;
    let mut too_big = false;
    while i < s.len()
        invariant
            start <= i <= s@.len(),
            digits == s@.subrange(start as int, s@.len() as int),
            digits == (if s@.len() > 0 && (s@[0] == '+' || s@[0] == '-') {
                s@.drop_first()
            } else {
                s@
            }),
            forall|j: int| start <= j < i ==> '0' <= #[trigger] s@[j] <= '9',
            !too_big ==> value as nat == digits_value(s@.subrange(start as int, i as int)),
            !too_big ==> value <= limit,
            too_big ==> digits_value(s@.subrange(start as int, i as int)) > limit,
            limit == (if neg {
                9223372036854775808u128
            } else {
                9223372036854775807u128
            }),
        decreases s@.len() - i,
    {
        let c = s[i];
        if !('0' <= c && c <= '9') {
            assert(digits[i - start] == c);
            return None;
        }
        let d = (c as u32 - 48) as u128;
        let ghost prev = s@.subrange(start as int, i as int);
        assert(s@.subrange(start as int, i + 1).drop_last() =~= prev);
        if !too_big {
            let next = value * 10 + d;
            if next > limit {
                too_big = true;
            } else {
                value = next;
            }
        } else {
            assert(digits_value(prev) <= digits_value(prev) * 10) by (nonlinear_arith);
        }
        i = i + 1;
    }
    assert(s@.subrange(start as int, s@.len() as int) =~= digits);
    if too_big {
        return None;
    }
    if neg {
        if value == 9223372036854775808u128 {
            Some(i64::MIN)
        } else {
            let v = value as i64;
            Some(-v)
        }
    } else {
        Some(value as i64)
    }
}

} // verus!
