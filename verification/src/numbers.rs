//! Decimal text: rendering a count as the digits of an argument string,
//! and reading the numeric text that the commit-count query returns.

use vstd::prelude::*;

verus! {

/// The digit character for a value below ten.
pub open spec fn digit_char(d: int) -> char {
    if d == 0 {
        '0'
    } else if d == 1 {
        '1'
    } else if d == 2 {
        '2'
    } else if d == 3 {
        '3'
    } else if d == 4 {
        '4'
    } else if d == 5 {
        '5'
    } else if d == 6 {
        '6'
    } else if d == 7 {
        '7'
    } else if d == 8 {
        '8'
    } else {
        '9'
    }
}

/// Whether `c` is a decimal digit.
pub open spec fn is_digit(c: char) -> bool {
    c == '0' || c == '1' || c == '2' || c == '3' || c == '4' || c == '5' || c == '6' || c == '7'
        || c == '8' || c == '9'
}

/// The value of a digit character; zero for any other character.
pub open spec fn digit_val(c: char) -> int {
    if c == '1' {
        1
    } else if c == '2' {
        2
    } else if c == '3' {
        3
    } else if c == '4' {
        4
    } else if c == '5' {
        5
    } else if c == '6' {
        6
    } else if c == '7' {
        7
    } else if c == '8' {
        8
    } else if c == '9' {
        9
    } else {
        0
    }
}

/// The decimal rendering of a non-negative value, without sign or leading
/// zeros (the value zero renders as the single digit zero).
pub open spec fn dec_digits(n: int) -> Seq<char>
    recommends
        n >= 0,
    decreases n,
{
    if n < 10 {
        seq![digit_char(n)]
    } else {
        dec_digits(n / 10).push(digit_char(n % 10))
    }
}

/// The value of a digit string read in base ten.
pub open spec fn digits_val(s: Seq<char>) -> int
    decreases s.len(),
{
    if s.len() == 0 {
        0
    } else {
        digits_val(s.drop_last()) * 10 + digit_val(s.last())
    }
}

pub open spec fn all_digits(s: Seq<char>) -> bool {
    forall|i: int| 0 <= i < s.len() ==> is_digit(s[i])
}

/// The digits of a numeric text, one optional leading plus sign removed.
pub open spec fn numeric_body(s: Seq<char>) -> Seq<char> {
    if s.len() > 0 && s[0] == '+' {
        s.drop_first()
    } else {
        s
    }
}

/// What reading a text as an unsigned machine integer yields: its value,
/// when the text is an optional plus sign followed by one or more digits
/// and the value fits the type; nothing otherwise.
pub open spec fn parse_usize_spec(s: Seq<char>) -> Option<int> {
    let body = numeric_body(s);
    if body.len() > 0 && all_digits(body) && digits_val(body) <= usize::MAX as int {
        Some(digits_val(body))
    } else {
        None
    }
}

proof fn lemma_digits_val_nonneg(s: Seq<char>)
    ensures
        digits_val(s) >= 0,
    decreases s.len(),
{
    if s.len() != 0 {
        lemma_digits_val_nonneg(s.drop_last());
    }
}

/// A digit string is worth at least any of its prefixes.
proof fn lemma_digits_val_prefix(s: Seq<char>, k: int)
    requires
        0 <= k <= s.len(),
    ensures
        digits_val(s.take(k)) <= digits_val(s),
    decreases s.len(),
{
    if k < s.len() {
        let t = s.drop_last();
        assert(t.take(k) =~= s.take(k));
        lemma_digits_val_prefix(t, k);
        lemma_digits_val_nonneg(t);
    } else {
        assert(s.take(k) =~= s);
    }
}

/// The digit character for a value below ten.
fn digit_str(d: usize) -> (s: &'static str)
    requires
        d < 10,
    ensures
        s@ == seq![digit_char(d as int)],
{
    proof {
        reveal_strlit("0");
        reveal_strlit("1");
        reveal_strlit("2");
        reveal_strlit("3");
        reveal_strlit("4");
        reveal_strlit("5");
        reveal_strlit("6");
        reveal_strlit("7");
        reveal_strlit("8");
        reveal_strlit("9");
    }
    if d == 0 {
        "0"
    } else if d == 1 {
        "1"
    } else if d == 2 {
        "2"
    } else if d == 3 {
        "3"
    } else if d == 4 {
        "4"
    } else if d == 5 {
        "5"
    } else if d == 6 {
        "6"
    } else if d == 7 {
        "7"
    } else if d == 8 {
        "8"
    } else {
        "9"
    }
}

/// Renders a value in decimal.
pub fn format_usize(x: usize) -> (r: String)
    ensures
        r@ == dec_digits(x as int),
{
    let mut n = x;
    let mut acc = String::new();
    proof {
        assert(dec_digits(x as int) =~= dec_digits(n as int) + acc@);
    }
    while n >= 10
        invariant
            dec_digits(x as int) == dec_digits(n as int) + acc@,
        decreases n,
    {
        let d = n % 10;
        let tail = acc;
        acc = String::from_str(digit_str(d)).concat(tail.as_str());
        proof {
            assert(dec_digits(n as int) == dec_digits(n as int / 10).push(digit_char(
                n as int % 10,
            )));
            assert(dec_digits(n as int / 10) + acc@ =~= dec_digits(n as int) + tail@);
        }
        n = n / 10;
    }
    let r = String::from_str(digit_str(n)).concat(acc.as_str());
    proof {
        assert(dec_digits(n as int) =~= seq![digit_char(n as int)]);
        assert(r@ =~= dec_digits(n as int) + acc@);
    }
    r
}

/// Whether `c` is a decimal digit.
fn digit_test(c: char) -> (b: bool)
    ensures
        b == is_digit(c),
{
    c == '0' || c == '1' || c == '2' || c == '3' || c == '4' || c == '5' || c == '6' || c == '7'
        || c == '8' || c == '9'
}

/// The value of a digit character.
fn digit_value(c: char) -> (d: usize)
    requires
        is_digit(c),
    ensures
        d as int == digit_val(c),
        d <= 9,
{
    if c == '1' {
        1
    } else if c == '2' {
        2
    } else if c == '3' {
        3
    } else if c == '4' {
        4
    } else if c == '5' {
        5
    } else if c == '6' {
        6
    } else if c == '7' {
        7
    } else if c == '8' {
        8
    } else if c == '9' {
        9
    } else {
        0
    }
}

/// Reads a text as an unsigned machine integer: an optional plus sign,
/// then digits; any other shape, or a value too large for the type,
/// yields nothing.
pub fn parse_usize(s: &str) -> (r: Option<usize>)
    ensures
        r is Some <==> parse_usize_spec(s@) is Some,
        r matches Some(u) ==> parse_usize_spec(s@) == Some(u as int),
{
    let n = s.unicode_len();
    let mut i: usize = 0;
    if n > 0 && s.get_char(0) == '+' {
        i = 1;
    }
    let ghost start = i as int;
    let ghost body = numeric_body(s@);
    proof {
        assert(body =~= s@.subrange(start, n as int));
    }
    if i == n {
        return None;
    }
    let mut acc: usize = 0;
    let mut j = i;
    while j < n
        invariant
            0 <= start <= j <= n == s@.len(),
            start < n,
            body == numeric_body(s@),
            body == s@.subrange(start, n as int),
            forall|k: int| start <= k < j ==> is_digit(s@[k]),
            acc as int == digits_val(body.take(j - start)),
        decreases n - j,
    {
        let c = s.get_char(j);
        if !digit_test(c) {
            proof {
                assert(body.len() == n - start);
                assert(body[j - start] == s@[j as int]);
                assert(!all_digits(body));
            }
            return None;
        }
        let d = digit_value(c);
        let next = match acc.checked_mul(10) {
            Some(m) => m.checked_add(d),
            None => None,
        };
        match next {
            Some(v) => {
                acc = v;
            },
            None => {
                proof {
                    assert(body.take(j + 1 - start).drop_last() =~= body.take(j - start));
                    assert(body.take(j + 1 - start).last() == s@[j as int]);
                    assert(digits_val(body.take(j + 1 - start)) > usize::MAX as int);
                    lemma_digits_val_prefix(body, j + 1 - start);
                }
                return None;
            },
        }
        proof {
            assert(body.take(j + 1 - start).drop_last() =~= body.take(j - start));
            assert(body.take(j + 1 - start).last() == s@[j as int]);
        }
        j += 1;
    }
    proof {
        assert(body.take(n - start) =~= body);
    }
    Some(acc)
}

} // verus!
