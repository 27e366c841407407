//! Decimal numbers as text.
use vstd::prelude::*;

use crate::text::chars_of;

verus! {

/// The digit for a number below ten.
pub open spec fn digit(d: nat) -> char {
    if d == 0 {
        '0'
    } else if d == 1 {
        '1'
    } else if d == 2 {
        '2'
    } else if d == 3 {
        '3'
    } else if d == 4 {
        '4'
    } else if d == 5 {
        '5'
    } else if d == 6 {
        '6'
    } else if d == 7 {
        '7'
    } else if d == 8 {
        '8'
    } else {
        '9'
    }
}

/// The number that a character stands for, if it is a digit.
pub open spec fn digit_value(c: char) -> Option<nat> {
    let n = c as u32;
    if 48 <= n <= 57 {
        Some((n - 48) as nat)
    } else {
        None
    }
}

/// `n` in decimal, without leading zeros.
pub open spec fn decimal(n: nat) -> Seq<char>
    decreases n,
{
    if n < 10 {
        seq![digit(n)]
    } else {
        decimal(n / 10).push(digit(n % 10))
    }
}

fn digit_of(d: u64) -> (c: char)
    requires
        d < 10,
    ensures
        c == digit(d as nat),
{
    if d == 0 {
        '0'
    } else if d == 1 {
        '1'
    } else if d == 2 {
        '2'
    } else if d == 3 {
        '3'
    } else if d == 4 {
        '4'
    } else if d == 5 {
        '5'
    } else if d == 6 {
        '6'
    } else if d == 7 {
        '7'
    } else if d == 8 {
        '8'
    } else {
        '9'
    }
}

/// `n` in decimal.
pub fn decimal_of(n: u64) -> (s: String)
    ensures
        s@ == decimal(n as nat),
    decreases n,
{
    if n < 10 {
        let mut s = String::new();
        s.push(digit_of(n));
        assert(s@ =~= seq![digit(n as nat)]);
        s
    } else {
        let mut s = decimal_of(n / 10);
        s.push(digit_of(n % 10));
        s
    }
}

/// Whether `s` is made of digits, and there is at least one.
pub open spec fn is_digits(s: Seq<char>) -> bool {
    s.len() > 0 && forall|i: int| 0 <= i < s.len() ==> digit_value(#[trigger] s[i]) is Some
}

/// The number that a run of digits stands for.
pub open spec fn value(s: Seq<char>) -> nat
    decreases s.len(),
{
    if s.len() == 0 {
        0
    } else {
        10 * value(s.drop_last()) + (match digit_value(s.last()) {
            Some(d) => d,
            None => 0,
        })
    }
}

pub proof fn lemma_value_grows(s: Seq<char>, n: int)
    requires
        0 <= n <= s.len(),
    ensures
        value(s.take(n)) <= value(s),
    decreases s.len() - n,
{
    if n == s.len() {
        assert(s.take(n) =~= s);
    } else {
        let t = s.take(n + 1);
        assert(t.drop_last() =~= s.take(n));
        lemma_value_grows(s, n + 1);
    }
}

/// A run of digits below a bound, as a number: `None` for anything else.
pub open spec fn digits_number(s: Seq<char>) -> Option<nat> {
    if is_digits(s) && value(s) <= usize::MAX {
        Some(value(s))
    } else {
        None
    }
}

/// What `s` stands for as an unsigned machine number: digits, after one plus
/// sign at most.
pub open spec fn unsigned(s: Seq<char>) -> Option<nat> {
    if s.len() > 0 && s[0] == '+' {
        digits_number(s.drop_first())
    } else {
        digits_number(s)
    }
}

fn value_of_digit(c: char) -> (r: Option<usize>)
    ensures
        r is Some <==> digit_value(c) is Some,
        r matches Some(d) ==> digit_value(c) == Some(d as nat) && d < 10,
{
    let n = c as u32;
    if 48 <= n && n <= 57 {
        Some((n - 48) as usize)
    } else {
        None
    }
}

/// The number that the digits `v[from..to]` stand for.
pub fn parse_digits(v: &Vec<char>, from: usize, to: usize) -> (r: Option<usize>)
    requires
        from <= to <= v@.len(),
    ensures
        r is Some <==> digits_number(v@.subrange(from as int, to as int)) is Some,
        r matches Some(n) ==> digits_number(v@.subrange(from as int, to as int)) == Some(n as nat),
{
    let ghost s = v@.subrange(from as int, to as int);
    if from == to {
        return None;
    }
    let mut total: usize = 0;
    let mut i: usize = from;
    assert(s.take(0).len() == 0);
    while i < to
        invariant
            from <= i <= to <= v@.len(),
            from < to,
            s == v@.subrange(from as int, to as int),
            total == value(s.take(i - from)),
            forall|k: int| 0 <= k < i - from ==> digit_value(#[trigger] s[k]) is Some,
        decreases to - i,
    {
        let ghost at = i - from;
        assert(s[at] == v@[i as int]);
        let d = match value_of_digit(v[i]) {
            Some(d) => d,
            None => {
                return None;
            },
        };
        assert(s.take(at + 1).drop_last() =~= s.take(at));
        assert(value(s.take(at + 1)) == 10 * total + d);
        proof {
            lemma_value_grows(s, at + 1);
        }
        if total > usize::MAX / 10 {
            assert(10 * total > usize::MAX);
            return None;
        }
        if total * 10 > usize::MAX - d {
            return None;
        }
        total = total * 10 + d;
        i += 1;
    }
    assert(s.take(to - from) =~= s);
    Some(total)
}

/// What `s` stands for as an unsigned machine number.
pub fn parse_unsigned(s: &str) -> (r: Option<usize>)
    ensures
        r is Some <==> unsigned(s@) is Some,
        r matches Some(n) ==> unsigned(s@) == Some(n as nat),
{
    let v = chars_of(s);
    if v.len() > 0 && v[0] == '+' {
        assert(v@.subrange(1, v@.len() as int) =~= s@.drop_first());
        parse_digits(&v, 1, v.len())
    } else {
        assert(v@.subrange(0, v@.len() as int) =~= s@);
        parse_digits(&v, 0, v.len())
    }
}

proof fn lemma_digit_value(d: nat)
    requires
        d < 10,
    ensures
        digit_value(digit(d)) == Some(d),
{
}

/// Reading a number back from its decimal text gives the number.
pub proof fn law_decimal_reads_back(n: nat)
    ensures
        is_digits(decimal(n)),
        value(decimal(n)) == n,
    decreases n,
{
    reveal_with_fuel(value, 2);
    if n < 10 {
        lemma_digit_value(n);
        assert(decimal(n).drop_last().len() == 0);
    } else {
        law_decimal_reads_back(n / 10);
        lemma_digit_value(n % 10);
        let front = decimal(n / 10);
        let whole = front.push(digit(n % 10));
        assert(whole.drop_last() =~= front);
        assert forall|i: int| 0 <= i < whole.len() implies digit_value(#[trigger] whole[i]) is Some by {
            if i < front.len() {
                assert(whole[i] == front[i]);
            }
        }
    }
}

/// `s`, with blanks before it up to a width.
pub open spec fn pad_start(s: Seq<char>, width: nat) -> Seq<char> {
    if s.len() < width {
        Seq::new((width - s.len()) as nat, |i: int| ' ') + s
    } else {
        s
    }
}

/// `n` blanks.
pub fn blanks(n: usize) -> (r: String)
    ensures
        r@ == Seq::new(n as nat, |i: int| ' '),
{
    let mut r = String::new();
    let mut i: usize = 0;
    while i < n
        invariant
            i <= n,
            r@ == Seq::new(i as nat, |k: int| ' '),
        decreases n - i,
    {
        r.push(' ');
        i += 1;
    }
    r
}

/// `s`, with blanks before it up to a width.
pub fn padded(s: &str, width: usize) -> (r: String)
    ensures
        r@ == pad_start(s@, width as nat),
{
    let n = chars_of(s).len();
    if n < width {
        let mut r = blanks(width - n);
        r.append(s);
        r
    } else {
        s.to_owned()
    }
}

/// The decimal numeral of `n`, with a minus sign where it is negative.
pub open spec fn signed(n: int) -> Seq<char> {
    if n < 0 {
        "-"@ + decimal((-n) as nat)
    } else {
        decimal(n as nat)
    }
}

/// The decimal numeral of `n`, with a minus sign where it is negative.
pub fn signed_of(n: i32) -> (r: String)
    ensures
        r@ == signed(n as int),
{
    let wide = n as i64;
    if wide < 0 {
        crate::text::cat2("-", &decimal_of((-wide) as u64))
    } else {
        decimal_of(wide as u64)
    }
}

} // verus!
