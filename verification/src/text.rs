//! Decimal numbers and whitespace, as the standard library reads and writes them.

use vstd::prelude::*;

verus! {

/// The character of a decimal digit.
pub open spec fn digit_char(d: nat) -> char {
    if d == 0 { '0' }
    else if d == 1 { '1' }
    else if d == 2 { '2' }
    else if d == 3 { '3' }
    else if d == 4 { '4' }
    else if d == 5 { '5' }
    else if d == 6 { '6' }
    else if d == 7 { '7' }
    else if d == 8 { '8' }
    else { '9' }
}

/// The decimal text of a natural number, without sign or leading zeros.
pub open spec fn decimal(n: nat) -> Seq<char>
    decreases n,
{
    if n < 10 {
        seq![digit_char(n)]
    } else {
        decimal(n / 10).push(digit_char(n % 10))
    }
}

/// The decimal text of an integer: a minus sign before negative ones.
pub open spec fn signed_decimal(i: int) -> Seq<char> {
    if i < 0 {
        seq!['-'] + decimal((-i) as nat)
    } else {
        decimal(i as nat)
    }
}

fn digit_str(d: u128) -> (s: &'static str)
    requires
        d < 10,
    ensures
        s@ == seq![digit_char(d as nat)],
{
    if d == 0 {
        proof { reveal_strlit("0"); }
        "0"
    } else if d == 1 {
        proof { reveal_strlit("1"); }
        "1"
    } else if d == 2 {
        proof { reveal_strlit("2"); }
        "2"
    } else if d == 3 {
        proof { reveal_strlit("3"); }
        "3"
    } else if d == 4 {
        proof { reveal_strlit("4"); }
        "4"
    } else if d == 5 {
        proof { reveal_strlit("5"); }
        "5"
    } else if d == 6 {
        proof { reveal_strlit("6"); }
        "6"
    } else if d == 7 {
        proof { reveal_strlit("7"); }
        "7"
    } else if d == 8 {
        proof { reveal_strlit("8"); }
        "8"
    } else {
        proof { reveal_strlit("9"); }
        "9"
    }
}

/// Writes `n` in decimal, as `n.to_string()` does.
pub fn u128_to_decimal(n: u128) -> (s: String)
    ensures
        s@ == decimal(n as nat),
    decreases n,
{
    if n < 10 {
        String::from_str(digit_str(n))
    } else {
        let mut s = u128_to_decimal(n / 10);
        s.append(digit_str(n % 10));
        s
    }
}

/// Writes `i` in decimal, as `i.to_string()` does.
pub fn i64_to_decimal(i: i64) -> (s: String)
    ensures
        s@ == signed_decimal(i as int),
{
    if i < 0 {
        let magnitude: u128 = (0i128 - (i as i128)) as u128;
        let digits = u128_to_decimal(magnitude);
        proof { reveal_strlit("-"); }
        let mut s = String::from_str("-");
        s.append(digits.as_str());
        s
    } else {
        u128_to_decimal(i as u128)
    }
}


/// A decimal digit character.
pub open spec fn is_digit(c: char) -> bool {
    48 <= (c as u32) <= 57
}

/// The value of a decimal digit character.
pub open spec fn digit_value(c: char) -> nat {
    ((c as u32) - 48) as nat
}

/// Every character of `s` is a decimal digit.
pub open spec fn all_digits(s: Seq<char>) -> bool {
    forall|i: int| 0 <= i < s.len() ==> is_digit(#[trigger] s[i])
}

/// The number that a run of decimal digits denotes.
pub open spec fn digits_value(s: Seq<char>) -> nat
    decreases s.len(),
{
    if s.len() == 0 {
        0
    } else {
        digits_value(s.drop_last()) * 10 + digit_value(s.last())
    }
}

/// What an unsigned `from_str` reads from `s` before the range check: an
/// optional `+`, then one or more decimal digits.
pub open spec fn unsigned_text_value(s: Seq<char>) -> Option<nat> {
    let d = if s.len() > 0 && s[0] == '+' { s.drop_first() } else { s };
    if d.len() > 0 && all_digits(d) {
        Some(digits_value(d))
    } else {
        None
    }
}

/// What `u128::from_str` (that is, `s.parse::<u128>()`) returns on `s`, as `Option`.
pub open spec fn parse_u128_spec(s: Seq<char>) -> Option<u128> {
    match unsigned_text_value(s) {
        Some(v) => if v <= u128::MAX { Some(v as u128) } else { None },
        None => None,
    }
}

/// What `i64::from_str` returns on `s`, as `Option`: an optional sign, then
/// one or more decimal digits, in range.
pub open spec fn parse_i64_spec(s: Seq<char>) -> Option<i64> {
    if s.len() > 1 && s[0] == '-' {
        let d = s.drop_first();
        if all_digits(d) && digits_value(d) <= 0x8000_0000_0000_0000 {
            Some((-(digits_value(d) as int)) as i64)
        } else {
            None
        }
    } else {
        match unsigned_text_value(s) {
            Some(v) => if v <= i64::MAX { Some(v as i64) } else { None },
            None => None,
        }
    }
}

proof fn lemma_digits_value_prefix(s: Seq<char>, k: int)
    requires
        all_digits(s),
        0 <= k <= s.len(),
    ensures
        digits_value(s.take(k)) <= digits_value(s),
    decreases s.len() - k,
{
    if k < s.len() {
        lemma_digits_value_prefix(s, k + 1);
        assert(s.take(k + 1).drop_last() =~= s.take(k));
    } else {
        assert(s.take(k) =~= s);
    }
}

/// Reads the characters of `s` from index `from` to its end as a run of
/// decimal digits: `None` unless there is at least one, all are digits and
/// the value fits in a `u128`.
fn parse_digit_run(s: &str, from: usize) -> (r: Option<u128>)
    requires
        from <= s@.len(),
    ensures
        ({
            let d = s@.subrange(from as int, s@.len() as int);
            match r {
                Some(v) => d.len() > 0 && all_digits(d) && v == digits_value(d),
                None => !(d.len() > 0 && all_digits(d) && digits_value(d) <= u128::MAX),
            }
        }),
{
    let n = s.unicode_len();
    let ghost d = s@.subrange(from as int, n as int);
    if from >= n {
        return None;
    }
    let mut acc: u128 = 0;
    let mut i = from;
    while i < n
        invariant
            from <= i <= n,
            n == s@.len(),
            d == s@.subrange(from as int, n as int),
            all_digits(d.take(i - from)),
            acc == digits_value(d.take(i - from)),
        decreases n - i,
    {
        let c = s.get_char(i);
        let code = c as u32;
        if code < 48 || code > 57 {
            assert(d[i - from] == c);
            return None;
        }
        let digit = (code - 48) as u128;
        assert(d.take(i - from + 1).drop_last() =~= d.take(i - from));
        assert(d.take(i - from + 1).last() == c);
        assert(all_digits(d.take(i - from + 1)));
        match acc.checked_mul(10) {
            None => {
                proof {
                    if all_digits(d) {
                        lemma_digits_value_prefix(d, i - from + 1);
                    }
                }
                return None;
            },
            Some(m) => match m.checked_add(digit) {
                None => {
                    proof {
                        if all_digits(d) {
                            lemma_digits_value_prefix(d, i - from + 1);
                        }
                    }
                    return None;
                },
                Some(v) => {
                    acc = v;
                },
            },
        }
        i = i + 1;
    }
    assert(d.take(n - from) =~= d);
    Some(acc)
}

/// Reads `s` as `s.parse::<u128>()` does; `None` where that returns an error.
pub fn parse_u128(s: &str) -> (r: Option<u128>)
    ensures
        r == parse_u128_spec(s@),
{
    let n = s.unicode_len();
    let from: usize = if n > 0 && s.get_char(0) == '+' { 1 } else { 0 };
    proof {
        let d = if s@.len() > 0 && s@[0] == '+' { s@.drop_first() } else { s@ };
        assert(d =~= s@.subrange(from as int, n as int));
    }
    parse_digit_run(s, from)
}

/// Reads `s` as `s.parse::<i64>()` does; `None` where that returns an error.
pub fn parse_i64(s: &str) -> (r: Option<i64>)
    ensures
        r == parse_i64_spec(s@),
{
    let n = s.unicode_len();
    if n > 1 && s.get_char(0) == '-' {
        assert(s@.drop_first() =~= s@.subrange(1, n as int));
        match parse_digit_run(s, 1) {
            Some(v) => {
                if v <= 0x8000_0000_0000_0000u128 {
                    let magnitude = v as i128;
                    Some((0i128 - magnitude) as i64)
                } else {
                    None
                }
            },
            None => None,
        }
    } else {
        let from: usize = if n > 0 && s.get_char(0) == '+' { 1 } else { 0 };
        proof {
            let d = if s@.len() > 0 && s@[0] == '+' { s@.drop_first() } else { s@ };
            assert(d =~= s@.subrange(from as int, n as int));
        }
        match parse_digit_run(s, from) {
            Some(v) => {
                if v <= 0x7fff_ffff_ffff_ffffu128 {
                    Some(v as i64)
                } else {
                    None
                }
            },
            None => None,
        }
    }
}


/// A character with the Unicode `White_Space` property, as `char::is_whitespace`
/// tests it.
pub open spec fn is_whitespace(c: char) -> bool {
    let u = c as u32;
    ||| 0x09 <= u <= 0x0d
    ||| u == 0x20
    ||| u == 0x85
    ||| u == 0xa0
    ||| u == 0x1680
    ||| 0x2000 <= u <= 0x200a
    ||| u == 0x2028
    ||| u == 0x2029
    ||| u == 0x202f
    ||| u == 0x205f
    ||| u == 0x3000
}

/// `s` without its leading whitespace.
pub open spec fn trim_start_spec(s: Seq<char>) -> Seq<char>
    decreases s.len(),
{
    if s.len() > 0 && is_whitespace(s[0]) {
        trim_start_spec(s.drop_first())
    } else {
        s
    }
}

/// `s` without its trailing whitespace.
pub open spec fn trim_end_spec(s: Seq<char>) -> Seq<char>
    decreases s.len(),
{
    if s.len() > 0 && is_whitespace(s.last()) {
        trim_end_spec(s.drop_last())
    } else {
        s
    }
}

/// `s` without leading and trailing whitespace, as `str::trim` gives it.
pub open spec fn trim_spec(s: Seq<char>) -> Seq<char> {
    trim_end_spec(trim_start_spec(s))
}

fn char_is_whitespace(c: char) -> (b: bool)
    ensures
        b == is_whitespace(c),
{
    let u = c as u32;
    (0x09 <= u && u <= 0x0d) || u == 0x20 || u == 0x85 || u == 0xa0 || u == 0x1680
        || (0x2000 <= u && u <= 0x200a) || u == 0x2028 || u == 0x2029 || u == 0x202f
        || u == 0x205f || u == 0x3000
}

/// Removes leading and trailing whitespace, as `str::trim` does.
pub fn trim_whitespace(s: &str) -> (t: &str)
    ensures
        t@ == trim_spec(s@),
{
    let n = s.unicode_len();
    let mut lo: usize = 0;
    assert(s@.subrange(0, n as int) =~= s@);
    while lo < n && char_is_whitespace(s.get_char(lo))
        invariant
            lo <= n,
            n == s@.len(),
            trim_start_spec(s@) == trim_start_spec(s@.subrange(lo as int, n as int)),
        decreases n - lo,
    {
        assert(s@.subrange(lo as int, n as int).drop_first() =~= s@.subrange(lo + 1, n as int));
        lo = lo + 1;
    }
    let ghost rest = s@.subrange(lo as int, n as int);
    assert(trim_start_spec(rest) == rest);
    let mut hi: usize = n;
    while hi > lo && char_is_whitespace(s.get_char(hi - 1))
        invariant
            lo <= hi <= n,
            n == s@.len(),
            rest == s@.subrange(lo as int, n as int),
            trim_end_spec(rest) == trim_end_spec(s@.subrange(lo as int, hi as int)),
        decreases hi - lo,
    {
        assert(s@.subrange(lo as int, hi as int).drop_last() =~= s@.subrange(lo as int, hi - 1));
        hi = hi - 1;
    }
    s.substring_char(lo, hi)
}


proof fn lemma_digit_char(d: nat)
    requires
        d < 10,
    ensures
        is_digit(digit_char(d)),
        digit_value(digit_char(d)) == d,
        !is_whitespace(digit_char(d)),
        digit_char(d) != '+',
        digit_char(d) != '-',
{
}

/// The decimal text of `n` is a nonempty run of digits denoting `n`.
pub proof fn lemma_decimal_digits(n: nat)
    ensures
        decimal(n).len() > 0,
        all_digits(decimal(n)),
        digits_value(decimal(n)) == n,
    decreases n,
{
    if n < 10 {
        lemma_digit_char(n);
        assert(decimal(n).drop_last() =~= Seq::<char>::empty());
        assert(digits_value(Seq::<char>::empty()) == 0);
        assert(decimal(n).last() == digit_char(n));
    } else {
        lemma_decimal_digits(n / 10);
        lemma_digit_char(n % 10);
        let s = decimal(n);
        assert(s.drop_last() =~= decimal(n / 10));
        assert(s.last() == digit_char(n % 10));
        assert(digits_value(s) == digits_value(decimal(n / 10)) * 10 + digit_value(s.last()));
        assert((n / 10) * 10 + n % 10 == n) by (nonlinear_arith);
        assert forall|i: int| 0 <= i < s.len() implies is_digit(#[trigger] s[i]) by {
            if i < s.len() - 1 {
                assert(s[i] == decimal(n / 10)[i]);
            }
        }
    }
}

/// Reading back the decimal text of `n` gives `n`: `n.to_string().parse::<u128>()`.
pub proof fn lemma_parse_u128_decimal(n: u128)
    ensures
        parse_u128_spec(decimal(n as nat)) == Some(n),
{
    lemma_decimal_digits(n as nat);
    let s = decimal(n as nat);
    assert(is_digit(s[0]));
}

/// The decimal text of `i` has no whitespace to trim, and reading it back
/// gives `i`: `i.to_string().trim().parse::<i64>()`.
pub proof fn lemma_parse_i64_decimal(i: i64)
    ensures
        trim_spec(signed_decimal(i as int)) == signed_decimal(i as int),
        parse_i64_spec(signed_decimal(i as int)) == Some(i),
{
    let s = signed_decimal(i as int);
    if i < 0 {
        let m = (-(i as int)) as nat;
        lemma_decimal_digits(m);
        let d = decimal(m);
        assert(s[0] == '-');
        assert(s.drop_first() =~= d);
        assert(is_digit(d[0]));
        assert(is_digit(d.last()));
        assert(s.last() == d.last());
        assert(!is_whitespace(s[0]));
        assert(!is_whitespace(s.last()));
    } else {
        lemma_decimal_digits(i as nat);
        assert(is_digit(s[0]));
        assert(is_digit(s.last()));
    }
}

} // verus!
