//! Numbers in decimal and hexadecimal text.

use vstd::prelude::*;
use crate::text::{chars_of, is_digit, rest};

verus! {

/// The decimal digit of `d`.
pub open spec fn digit_char(d: nat) -> char {
    ((48 + d) as u8) as char
}

/// `n` in decimal.
pub open spec fn decimal(n: nat) -> Seq<char>
    decreases n,
{
    if n < 10 {
        seq![digit_char(n)]
    } else {
        decimal(n / 10).push(digit_char(n % 10))
    }
}

/// A signed number in decimal.
pub open spec fn decimal_int(n: int) -> Seq<char> {
    if n < 0 {
        seq!['-'] + decimal((-n) as nat)
    } else {
        decimal(n as nat)
    }
}

/// `n` in decimal, filled up with a zero to two digits.
pub open spec fn two_digits(n: nat) -> Seq<char> {
    if n < 10 {
        seq!['0'] + decimal(n)
    } else {
        decimal(n)
    }
}

pub open spec fn all_digits(s: Seq<char>) -> bool {
    forall|i: int| 0 <= i < s.len() ==> is_digit(#[trigger] s[i])
}

/// The number that the digits of `s` stand for.
pub open spec fn digits_value(s: Seq<char>) -> nat
    decreases s.len(),
{
    if s.len() == 0 {
        0
    } else {
        digits_value(s.drop_last()) * 10 + (s.last() as nat - 48) as nat
    }
}

/// `s` without one leading plus sign.
pub open spec fn without_plus(s: Seq<char>) -> Seq<char> {
    if s.len() > 0 && s[0] == '+' {
        rest(s, 1)
    } else {
        s
    }
}

/// The number of at most `max` that `s` writes in decimal, with or without a
/// leading plus sign.
pub open spec fn parsed_unsigned(s: Seq<char>, max: nat) -> Option<nat> {
    let d = without_plus(s);
    if d.len() > 0 && all_digits(d) && digits_value(d) <= max {
        Some(digits_value(d))
    } else {
        None
    }
}

/// The signed 64-bit number that `s` writes in decimal.
pub open spec fn parsed_i64(s: Seq<char>) -> Option<int> {
    if s.len() > 0 && s[0] == '-' {
        let d = rest(s, 1);
        if d.len() > 0 && all_digits(d) && digits_value(d) <= 0x8000_0000_0000_0000 {
            Some(-(digits_value(d) as int))
        } else {
            None
        }
    } else {
        match parsed_unsigned(s, 0x7fff_ffff_ffff_ffff) {
            Some(n) => Some(n as int),
            None => None,
        }
    }
}

// ---------------------------------------------------------------------------
// Facts
// ---------------------------------------------------------------------------

pub proof fn lemma_decimal_digits(n: nat)
    ensures
        all_digits(decimal(n)),
        decimal(n).len() > 0,
        digits_value(decimal(n)) == n,
    decreases n,
{
    if n < 10 {
        assert(decimal(n).drop_last() =~= Seq::empty());
        assert(digits_value(Seq::<char>::empty()) == 0);
    } else {
        lemma_decimal_digits(n / 10);
        let d = decimal(n / 10);
        assert(decimal(n).drop_last() =~= d);
        assert forall|i: int| 0 <= i < decimal(n).len() implies is_digit(#[trigger] decimal(n)[i]) by {
            if i < d.len() {
                assert(decimal(n)[i] == d[i]);
            }
        }
    }
}

/// A number that is written in decimal is read back.
pub proof fn decimal_reads_back(n: nat, max: nat)
    requires
        n <= max,
    ensures
        parsed_unsigned(decimal(n), max) == Some(n),
{
    lemma_decimal_digits(n);
    assert(is_digit(decimal(n)[0]));
}

/// A signed number that is written in decimal is read back.
pub proof fn decimal_int_reads_back(n: int)
    requires
        i64::MIN <= n <= i64::MAX,
    ensures
        parsed_i64(decimal_int(n)) == Some(n),
{
    if n < 0 {
        lemma_decimal_digits((-n) as nat);
        assert(rest(decimal_int(n), 1) =~= decimal((-n) as nat));
    } else {
        decimal_reads_back(n as nat, 0x7fff_ffff_ffff_ffff);
        lemma_decimal_digits(n as nat);
        assert(is_digit(decimal(n as nat)[0]));
    }
}

/// More digits never make a smaller number.
proof fn lemma_value_grows(s: Seq<char>, i: int)
    requires
        0 <= i <= s.len(),
    ensures
        digits_value(s.subrange(0, i)) <= digits_value(s),
    decreases s.len(),
{
    if i == s.len() {
        assert(s.subrange(0, i) =~= s);
    } else {
        lemma_value_grows(s.drop_last(), i);
        assert(s.drop_last().subrange(0, i) =~= s.subrange(0, i));
    }
}

/// Two digits are enough for what is below a hundred.
pub proof fn lemma_two_digits_len(n: nat)
    requires
        n < 100,
    ensures
        two_digits(n).len() == 2,
        two_digits(n)[0] == digit_char(n / 10),
        two_digits(n)[1] == digit_char(n % 10),
        all_digits(two_digits(n)),
{
    reveal_with_fuel(decimal, 2);
}

// ---------------------------------------------------------------------------
// The operations
// ---------------------------------------------------------------------------

fn to_digit(d: u64) -> (r: char)
    requires
        d < 10,
    ensures
        r == digit_char(d as nat),
{
    (48 + d as u8) as char
}

pub fn decimal_text(n: u64) -> (r: String)
    ensures
        r@ == decimal(n as nat),
    decreases n,
{
    if n < 10 {
        let mut r = String::new();
        r.push(to_digit(n));
        assert(r@ =~= decimal(n as nat));
        r
    } else {
        let mut r = decimal_text(n / 10);
        r.push(to_digit(n % 10));
        r
    }
}

pub fn decimal_int_text(n: i64) -> (r: String)
    ensures
        r@ == decimal_int(n as int),
{
    if n < 0 {
        let m: u64 = if n == i64::MIN {
            0x8000_0000_0000_0000
        } else {
            (-n) as u64
        };
        let mut r = String::new();
        r.push('-');
        assert(r@ =~= seq!['-']);
        let d = decimal_text(m);
        r.append(d.as_str());
        r
    } else {
        decimal_text(n as u64)
    }
}

pub fn two_digit_text(n: u64) -> (r: String)
    ensures
        r@ == two_digits(n as nat),
{
    let d = decimal_text(n);
    if n < 10 {
        let mut r = String::new();
        r.push('0');
        assert(r@ =~= seq!['0']);
        r.append(d.as_str());
        r
    } else {
        d
    }
}

/// The number that the digits from `from` on stand for, where it is at most `max`.
fn read_digits(cs: &Vec<char>, from: usize, max: u64) -> (r: Option<u64>)
    requires
        from <= cs@.len(),
    ensures
        match r {
            Some(v) => rest(cs@, from as int).len() > 0 && all_digits(rest(cs@, from as int)) && v
                == digits_value(rest(cs@, from as int)) && v <= max,
            None => rest(cs@, from as int).len() == 0 || !all_digits(rest(cs@, from as int))
                || digits_value(rest(cs@, from as int)) > max,
        },
{
    let ghost d = rest(cs@, from as int);
    if from == cs.len() {
        return None;
    }
    let mut v: u64 = 0;
    let mut i: usize = from;
    assert(d.subrange(0, 0) =~= Seq::empty());
    while i < cs.len()
        invariant
            from <= i <= cs@.len(),
            d == rest(cs@, from as int),
            forall|k: int| 0 <= k < i - from ==> is_digit(#[trigger] d[k]),
            v == digits_value(d.subrange(0, i - from)),
            v <= max,
        decreases cs@.len() - i,
    {
        let c = cs[i];
        assert(c == d[i - from]);
        if !('0' <= c && c <= '9') {
            assert(!is_digit(d[i - from]));
            return None;
        }
        let ghost next = d.subrange(0, i - from + 1);
        proof {
            assert(next.drop_last() =~= d.subrange(0, i - from));
            assert(next.last() == c);
            lemma_value_grows(d, i - from + 1);
        }
        let w: u128 = v as u128 * 10 + (c as u128 - 48);
        assert(w == digits_value(next));
        if w > max as u128 {
            return None;
        }
        v = w as u64;
        i += 1;
    }
    assert(d.subrange(0, d.len() as int) =~= d);
    Some(v)
}

/// Reads a number of at most `max`.
pub fn parse_unsigned(s: &str, max: u64) -> (r: Option<u64>)
    ensures
        match r {
            Some(v) => parsed_unsigned(s@, max as nat) == Some(v as nat),
            None => parsed_unsigned(s@, max as nat) is None,
        },
{
    let cs = chars_of(s);
    if cs.len() > 0 && cs[0] == '+' {
        read_digits(&cs, 1, max)
    } else {
        assert(rest(s@, 0) =~= s@);
        read_digits(&cs, 0, max)
    }
}

pub fn parse_i64(s: &str) -> (r: Option<i64>)
    ensures
        match r {
            Some(v) => parsed_i64(s@) == Some(v as int),
            None => parsed_i64(s@) is None,
        },
{
    let cs = chars_of(s);
    if cs.len() > 0 && cs[0] == '-' {
        match read_digits(&cs, 1, 0x8000_0000_0000_0000) {
            Some(v) => {
                if v == 0x8000_0000_0000_0000 {
                    Some(i64::MIN)
                } else {
                    Some(-(v as i64))
                }
            },
            None => None,
        }
    } else {
        match parse_unsigned(s, 0x7fff_ffff_ffff_ffff) {
            Some(v) => Some(v as i64),
            None => None,
        }
    }
}

/// Decimal text is in base ten, the highest digit first and without a zero in front.
pub proof fn decimal_is_in_base_ten(n: nat, d: nat)
    requires
        d < 10,
    ensures
        decimal(d).len() == 1,
        decimal(d)[0] as int == '0' as int + d,
        n > 0 ==> decimal(10 * n + d) == decimal(n) + decimal(d),
        n > 0 ==> decimal(n)[0] != '0',
    decreases n,
{
    if n > 0 {
        assert((10 * n + d) / 10 == n && (10 * n + d) % 10 == d);
        assert(decimal(10 * n + d) =~= decimal(n) + decimal(d));
        if n >= 10 {
            decimal_is_in_base_ten(n / 10, 0);
            lemma_decimal_digits(n / 10);
        }
    }
}

/// A number that is read is the one that is written: its digits in base ten, after a plus sign
/// or none. Anything else is no number.
pub proof fn read_numbers_are_in_base_ten(s: Seq<char>, c: char, max: nat)
    ensures
        parsed_unsigned(s, max) matches Some(n) ==> n <= max && (forall|i: int|
            0 < i < s.len() ==> '0' <= #[trigger] s[i] <= '9') && s.len() > 0 && (s[0] == '+'
            || '0' <= s[0] <= '9'),
        parsed_unsigned(s, max) matches Some(n) ==> ('0' <= c <= '9' && 10 * n + (c as int
            - '0' as int) <= max ==> parsed_unsigned(s.push(c), max) == Some(
            (10 * n + (c as int - '0' as int)) as nat,
        )),
        '0' <= c <= '9' && c as int - '0' as int <= max ==> parsed_unsigned(seq![c], max) == Some(
            (c as int - '0' as int) as nat,
        ),
        !('0' <= c <= '9') ==> parsed_unsigned(s.push(c), max) is None,
        parsed_unsigned(seq!['+', '+'] + s, max) is None,
{
    let d = without_plus(s);
    let e = without_plus(s.push(c));
    if s.len() > 0 {
        assert(e =~= d.push(c));
        assert(e.drop_last() =~= d);
        assert(e.last() == c);
        if parsed_unsigned(s, max) is Some {
            assert forall|i: int| 0 < i < s.len() implies '0' <= #[trigger] s[i] <= '9' by {
                if s[0] == '+' {
                    assert(d[i - 1] == s[i]);
                } else {
                    assert(d[i] == s[i]);
                }
            }
            if s[0] != '+' {
                assert(is_digit(d[0]));
            }
        }
        if all_digits(d) && is_digit(c) {
            assert(all_digits(e));
        }
    }
    if !is_digit(c) {
        if e.len() > 0 {
            assert(e.last() == c);
        }
    }
    let one = seq![c];
    if is_digit(c) {
        assert(without_plus(one) =~= one);
        assert(one.drop_last() =~= Seq::empty());
        assert(all_digits(one));
        reveal_with_fuel(digits_value, 2);
    }
    let two = seq!['+', '+'] + s;
    assert(without_plus(two)[0] == '+');
}

} // verus!
