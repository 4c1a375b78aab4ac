//! Decimal integers in form fields: parsing as `str::parse` does for the
//! integer types, and printing as `to_string` does.

use vstd::prelude::*;
use crate::text::chars_of;

verus! {

/// `c` is one of the ASCII digits `0` to `9`.
pub open spec fn is_digit(c: char) -> bool {
    '0' <= c && c <= '9'
}

/// The value of the ASCII digit `c`.
pub open spec fn digit_value(c: char) -> nat {
    (c as int - '0' as int) as nat
}

/// Every character of `s` is an ASCII digit.
pub open spec fn all_digits(s: Seq<char>) -> bool {
    forall|i: int| 0 <= i < s.len() ==> #[trigger] is_digit(s[i])
}

/// The number that the digits `s` spell in base ten.
pub open spec fn decimal_value(s: Seq<char>) -> nat
    decreases s.len(),
{
    if s.len() == 0 {
        0
    } else {
        decimal_value(s.drop_last()) * 10 + digit_value(s.last())
    }
}

/// `s` without one leading `+`.
pub open spec fn without_plus(s: Seq<char>) -> Seq<char> {
    if s.len() > 0 && s[0] == '+' {
        s.drop_first()
    } else {
        s
    }
}

/// What `parse` gives for an unsigned integer type whose largest value is
/// `max`: an optional `+`, then one or more digits whose value fits.
pub open spec fn parse_unsigned_spec(s: Seq<char>, max: nat) -> Option<nat> {
    let body = without_plus(s);
    if body.len() > 0 && all_digits(body) && decimal_value(body) <= max {
        Some(decimal_value(body))
    } else {
        None
    }
}

/// What `parse` gives for a signed integer type with range `min..=max`:
/// an optional `+` or `-`, then one or more digits whose value fits.
pub open spec fn parse_signed_spec(s: Seq<char>, min: int, max: int) -> Option<int> {
    if s.len() > 0 && s[0] == '-' {
        let body = s.drop_first();
        if body.len() > 0 && all_digits(body) && min <= -decimal_value(body) {
            Some(-decimal_value(body))
        } else {
            None
        }
    } else {
        let body = without_plus(s);
        if body.len() > 0 && all_digits(body) && decimal_value(body) <= max {
            Some(decimal_value(body) as int)
        } else {
            None
        }
    }
}

/// The digit character for `d` (a value below ten).
pub open spec fn digit_char(d: nat) -> char {
    if d == 0 { '0' }
    else if d == 1 { '1' }
    else if d == 2 { '2' }
    else if d == 3 { '3' }
    else if d == 4 { '4' }
    else if d == 5 { '5' }
    else if d == 6 { '6' }
    else if d == 7 { '7' }
    else if d == 8 { '8' }
    else { '9' }
}

/// The base-ten digits of `n`, most significant first, without leading zeros.
pub open spec fn decimal_digits(n: nat) -> Seq<char>
    decreases n,
{
    if n < 10 {
        seq![digit_char(n)]
    } else {
        decimal_digits(n / 10).push(digit_char(n % 10))
    }
}

/// A prefix of a run of digits is worth no more than the run.
pub proof fn lemma_prefix_value_le(s: Seq<char>, k: int)
    requires
        0 <= k <= s.len(),
    ensures
        decimal_value(s.take(k)) <= decimal_value(s),
    decreases s.len() - k,
{
    if k < s.len() {
        lemma_prefix_value_le(s.drop_last(), k);
        assert(s.drop_last().take(k) =~= s.take(k));
    } else {
        assert(s.take(k) =~= s);
    }
}

/// The digit character for `d` is a digit worth `d`.
pub proof fn lemma_digit_char(d: nat)
    requires
        d < 10,
    ensures
        is_digit(digit_char(d)),
        digit_value(digit_char(d)) == d,
{
}

/// The digits of `n` are digits, spell `n`, and do not start with a sign.
pub proof fn lemma_decimal_digits(n: nat)
    ensures
        decimal_digits(n).len() > 0,
        all_digits(decimal_digits(n)),
        decimal_value(decimal_digits(n)) == n,
        decimal_digits(n)[0] != '+',
        decimal_digits(n)[0] != '-',
    decreases n,
{
    lemma_digit_char(n % 10);
    let d = decimal_digits(n);
    if n < 10 {
        assert(d.drop_last() =~= Seq::<char>::empty());
        assert(decimal_value(Seq::<char>::empty()) == 0);
        assert(decimal_value(d) == decimal_value(d.drop_last()) * 10 + digit_value(d.last()));
    } else {
        lemma_decimal_digits(n / 10);
        assert(d.drop_last() =~= decimal_digits(n / 10));
        assert(d.last() == digit_char(n % 10));
        assert(decimal_value(d) == decimal_value(d.drop_last()) * 10 + digit_value(d.last()));
        assert(d[0] == decimal_digits(n / 10)[0]);
    }
}

/// Printing an unsigned number and parsing it back gives the number.
pub proof fn law_parse_unsigned_of_digits(n: nat, max: nat)
    requires
        n <= max,
    ensures
        parse_unsigned_spec(decimal_digits(n), max) == Some(n),
{
    lemma_decimal_digits(n);
}

/// How unsigned parsing treats its input: empty text and a lone `+` are
/// refused, as is any character other than a digit (past one leading `+`);
/// one leading `+` changes nothing; the number of a run of digits is
/// accepted exactly when it is at most `max`; and a printed number is
/// accepted back exactly when it fits.
pub proof fn law_parse_unsigned_shape(s: Seq<char>, max: nat, n: nat)
    ensures
        parse_unsigned_spec(Seq::<char>::empty(), max) is None,
        parse_unsigned_spec(seq!['+'], max) is None,
        (s.len() == 0 || s[0] != '+') ==> parse_unsigned_spec(seq!['+'] + s, max) == parse_unsigned_spec(s, max),
        (exists|i: int| 0 <= i < s.len() && !is_digit(s[i]) && (i > 0 || s[i] != '+'))
            ==> parse_unsigned_spec(s, max) is None,
        parse_unsigned_spec(s, max) matches Some(v) ==> v <= max,
        parse_unsigned_spec(decimal_digits(n), max) == if n <= max { Some(n) } else { None::<nat> },
{
    assert(without_plus(seq!['+']) =~= Seq::<char>::empty());
    assert((seq!['+'] + s)[0] == '+');
    assert((seq!['+'] + s).drop_first() =~= s);
    lemma_decimal_digits(n);
    if exists|i: int| 0 <= i < s.len() && !is_digit(s[i]) && (i > 0 || s[i] != '+') {
        let i = choose|i: int| 0 <= i < s.len() && !is_digit(s[i]) && (i > 0 || s[i] != '+');
        let body = without_plus(s);
        if s.len() > 0 && s[0] == '+' {
            assert(body[i - 1] == s[i]);
            assert(!is_digit(body[i - 1]));
        } else {
            assert(!is_digit(body[i]));
        }
    }
}

/// How signed parsing treats its input: a leading `-` negates the digits
/// after it, a leading `+` or none keeps them; each is accepted exactly
/// when the value lies in `min..=max`.
pub proof fn law_parse_signed_of_digits(n: nat, min: int, max: int)
    ensures
        parse_signed_spec(decimal_digits(n), min, max) == if n <= max { Some(n as int) } else { None::<int> },
        parse_signed_spec(seq!['-'] + decimal_digits(n), min, max) == if min <= -n { Some(-n) } else { None::<int> },
        parse_signed_spec(seq!['+'] + decimal_digits(n), min, max) == if n <= max { Some(n as int) } else { None::<int> },
{
    lemma_decimal_digits(n);
    assert((seq!['-'] + decimal_digits(n))[0] == '-');
    assert((seq!['-'] + decimal_digits(n)).drop_first() =~= decimal_digits(n));
    assert((seq!['+'] + decimal_digits(n))[0] == '+');
    assert((seq!['+'] + decimal_digits(n)).drop_first() =~= decimal_digits(n));
}

/// The value of the digit `c`.
fn digit_of(c: char) -> (d: u64)
    requires
        is_digit(c),
    ensures
        d == digit_value(c),
        d < 10,
{
    if c == '0' { 0 }
    else if c == '1' { 1 }
    else if c == '2' { 2 }
    else if c == '3' { 3 }
    else if c == '4' { 4 }
    else if c == '5' { 5 }
    else if c == '6' { 6 }
    else if c == '7' { 7 }
    else if c == '8' { 8 }
    else { 9 }
}

/// The value of the digits `v[start..]`, if they are all digits, at least one,
/// and worth at most `max`.
fn digits_value(v: &Vec<char>, start: usize, max: u64) -> (r: Option<u64>)
    requires
        start <= v.len(),
    ensures
        ({
            let body = v@.subrange(start as int, v@.len() as int);
            match r {
                Some(x) => body.len() > 0 && all_digits(body) && decimal_value(body) == x
                    && x <= max,
                None => !(body.len() > 0 && all_digits(body) && decimal_value(body) <= max),
            }
        }),
{
    let n = v.len();
    if start == n {
        return None;
    }
    let ghost body = v@.subrange(start as int, n as int);
    let mut acc: u64 = 0;
    let mut i: usize = start;
    while i < n
        invariant
            start <= i <= n == v@.len(),
            body == v@.subrange(start as int, n as int),
            body.take(i - start) =~= v@.subrange(start as int, i as int),
            all_digits(v@.subrange(start as int, i as int)),
            decimal_value(v@.subrange(start as int, i as int)) == acc,
            acc <= max,
        decreases n - i,
    {
        let c = v[i];
        let ghost prefix = v@.subrange(start as int, i + 1);
        assert(prefix.drop_last() =~= v@.subrange(start as int, i as int));
        assert(body.take(i + 1 - start) =~= prefix);
        if !('0' <= c && c <= '9') {
            assert(!is_digit(body[i - start]));
            return None;
        }
        let d = digit_of(c);
        let next: u128 = (acc as u128) * 10 + (d as u128);
        if next > (max as u128) {
            proof {
                lemma_prefix_value_le(body, i + 1 - start);
            }
            return None;
        }
        acc = next as u64;
        i = i + 1;
    }
    assert(body.take(n - start) =~= body);
    Some(acc)
}

/// `s` parsed as an unsigned integer no larger than `max`, as `str::parse`
/// does for the unsigned type whose largest value is `max`.
pub fn parse_unsigned(s: &str, max: u64) -> (r: Option<u64>)
    ensures
        match r {
            Some(x) => parse_unsigned_spec(s@, max as nat) == Some(x as nat),
            None => parse_unsigned_spec(s@, max as nat) is None,
        },
{
    let v = chars_of(s);
    let start: usize = if v.len() > 0 && v[0] == '+' { 1 } else { 0 };
    assert(without_plus(s@) =~= v@.subrange(start as int, v@.len() as int));
    digits_value(&v, start, max)
}

/// `s` parsed as a `usize`, as `s.parse::<usize>().ok()`.
pub fn parse_usize(s: &str) -> (r: Option<usize>)
    ensures
        match r {
            Some(x) => parse_unsigned_spec(s@, usize::MAX as nat) == Some(x as nat),
            None => parse_unsigned_spec(s@, usize::MAX as nat) is None,
        },
{
    match parse_unsigned(s, usize::MAX as u64) {
        Some(x) => Some(x as usize),
        None => None,
    }
}

/// `s` parsed as a `u32`, as `s.parse::<u32>().ok()`.
pub fn parse_u32(s: &str) -> (r: Option<u32>)
    ensures
        match r {
            Some(x) => parse_unsigned_spec(s@, u32::MAX as nat) == Some(x as nat),
            None => parse_unsigned_spec(s@, u32::MAX as nat) is None,
        },
{
    match parse_unsigned(s, u32::MAX as u64) {
        Some(x) => Some(x as u32),
        None => None,
    }
}

/// `s` parsed as an `i32`, as `s.parse::<i32>().ok()`.
pub fn parse_i32(s: &str) -> (r: Option<i32>)
    ensures
        match r {
            Some(x) => parse_signed_spec(s@, i32::MIN as int, i32::MAX as int) == Some(x as int),
            None => parse_signed_spec(s@, i32::MIN as int, i32::MAX as int) is None,
        },
{
    let v = chars_of(s);
    if v.len() > 0 && v[0] == '-' {
        assert(s@.drop_first() =~= v@.subrange(1, v@.len() as int));
        match digits_value(&v, 1, 2147483648) {
            Some(x) => {
                if x == 2147483648 {
                    Some(i32::MIN)
                } else {
                    Some(-(x as i32))
                }
            },
            None => None,
        }
    } else {
        let start: usize = if v.len() > 0 && v[0] == '+' { 1 } else { 0 };
        assert(without_plus(s@) =~= v@.subrange(start as int, v@.len() as int));
        match digits_value(&v, start, 2147483647) {
            Some(x) => Some(x as i32),
            None => None,
        }
    }
}

/// The digit character for `d`.
fn digit_char_of(d: u64) -> (c: char)
    requires
        d < 10,
    ensures
        c == digit_char(d as nat),
{
    if d == 0 { '0' }
    else if d == 1 { '1' }
    else if d == 2 { '2' }
    else if d == 3 { '3' }
    else if d == 4 { '4' }
    else if d == 5 { '5' }
    else if d == 6 { '6' }
    else if d == 7 { '7' }
    else if d == 8 { '8' }
    else { '9' }
}

/// Appends the base-ten digits of `n` to `s`.
pub fn push_decimal(s: &mut String, n: u64)
    ensures
        final(s)@ == old(s)@ + decimal_digits(n as nat),
    decreases n,
{
    if n >= 10 {
        push_decimal(s, n / 10);
    }
    s.push(digit_char_of(n % 10));
    proof {
        if n >= 10 {
            assert(old(s)@ + decimal_digits(n as nat) =~= old(s)@ + decimal_digits((n / 10) as nat) + seq![digit_char((n % 10) as nat)]);
        } else {
            assert(old(s)@ + decimal_digits(n as nat) =~= old(s)@.push(digit_char((n % 10) as nat)));
        }
    }
}

/// `n` in base ten, as `n.to_string()`.
pub fn format_decimal(n: u64) -> (s: String)
    ensures
        s@ == decimal_digits(n as nat),
{
    let mut s = String::new();
    push_decimal(&mut s, n);
    assert(Seq::<char>::empty() + decimal_digits(n as nat) =~= decimal_digits(n as nat));
    s
}

} // verus!
