//! Small text helpers shared by the other modules.

use vstd::prelude::*;
use vstd::string::*;

verus! {

/// Whether two pieces of text hold the same characters.
pub fn same_text(a: &str, b: &str) -> (r: bool)
    ensures
        r == (a@ == b@),
{
    let left: String = a.to_owned();
    let right: String = b.to_owned();
    left == right
}

/// Whether `a` comes before `b`, comparing character by character.
pub open spec fn text_before(a: Seq<char>, b: Seq<char>) -> bool
    decreases a.len(),
{
    if b.len() == 0 {
        false
    } else if a.len() == 0 {
        true
    } else if a[0] != b[0] {
        (a[0] as int) < (b[0] as int)
    } else {
        text_before(a.drop_first(), b.drop_first())
    }
}

/// Decides [`text_before`].
pub fn is_text_before(a: &str, b: &str) -> (r: bool)
    ensures
        r == text_before(a@, b@),
{
    let n: usize = a.unicode_len();
    let m: usize = b.unicode_len();
    let mut i: usize = 0;
    assert(a@.skip(0) =~= a@);
    assert(b@.skip(0) =~= b@);
    while i < n && i < m
        invariant
            n == a@.len(),
            m == b@.len(),
            i <= n,
            i <= m,
            text_before(a@, b@) == text_before(a@.skip(i as int), b@.skip(i as int)),
        decreases n - i,
    {
        let x: char = a.get_char(i);
        let y: char = b.get_char(i);
        assert(a@.skip(i as int).drop_first() =~= a@.skip(i + 1));
        assert(b@.skip(i as int).drop_first() =~= b@.skip(i + 1));
        if x != y {
            return (x as u32) < (y as u32);
        }
        i = i + 1;
    }
    i < m
}

/// No text comes before itself.
pub proof fn text_before_irreflexive(a: Seq<char>)
    ensures
        !text_before(a, a),
    decreases a.len(),
{
    if a.len() > 0 {
        text_before_irreflexive(a.drop_first());
    }
}

/// Of two different texts exactly one comes before the other.
pub proof fn text_before_total(a: Seq<char>, b: Seq<char>)
    requires
        a != b,
    ensures
        text_before(a, b) != text_before(b, a),
    decreases a.len(),
{
    if a.len() > 0 && b.len() > 0 {
        if a[0] == b[0] {
            if a.drop_first() == b.drop_first() {
                assert(a =~= seq![a[0]] + a.drop_first());
                assert(b =~= seq![b[0]] + b.drop_first());
            }
            text_before_total(a.drop_first(), b.drop_first());
        }
    } else {
        assert(a.len() == 0 && b.len() == 0 ==> a =~= b);
    }
}

/// The order of texts is transitive.
pub proof fn text_before_transitive(a: Seq<char>, b: Seq<char>, c: Seq<char>)
    requires
        text_before(a, b),
        text_before(b, c),
    ensures
        text_before(a, c),
    decreases a.len(),
{
    if a.len() > 0 && b.len() > 0 && c.len() > 0 && a[0] == b[0] && b[0] == c[0] {
        text_before_transitive(a.drop_first(), b.drop_first(), c.drop_first());
    }
}

/// `String::push`: appends one character.
#[verifier::external_body]
pub(crate) fn push_char(text: &mut String, c: char)
    ensures
        final(text)@ == old(text)@.push(c),
{
    text.push(c)
}

/// The character of a decimal digit.
pub open spec fn digit_char(d: nat) -> char {
    if d == 0 {
        '0'
    } else if d == 1 {
        '1'
    } else if d == 2 {
        '2'
    } else if d == 3 {
        '3'
    } else if d == 4 {
        '4'
    } else if d == 5 {
        '5'
    } else if d == 6 {
        '6'
    } else if d == 7 {
        '7'
    } else if d == 8 {
        '8'
    } else {
        '9'
    }
}

/// The decimal digits of a natural number, without leading zeros.
pub open spec fn digits(n: nat) -> Seq<char>
    decreases n,
{
    if n < 10 {
        seq![digit_char(n)]
    } else {
        digits(n / 10).push(digit_char(n % 10))
    }
}

/// An integer in decimal notation, with a `-` before a negative one.
pub open spec fn decimal(n: int) -> Seq<char> {
    if n < 0 {
        seq!['-'] + digits((-n) as nat)
    } else {
        digits(n as nat)
    }
}

fn digit_text(d: u128) -> (r: &'static str)
    requires
        d < 10,
    ensures
        r@ == seq![digit_char(d as nat)],
{
    proof {
        reveal_strlit("0");
        reveal_strlit("1");
        reveal_strlit("2");
        reveal_strlit("3");
        reveal_strlit("4");
        reveal_strlit("5");
        reveal_strlit("6");
        reveal_strlit("7");
        reveal_strlit("8");
        reveal_strlit("9");
    }
    let r: &'static str = if d == 0 {
        "0"
    } else if d == 1 {
        "1"
    } else if d == 2 {
        "2"
    } else if d == 3 {
        "3"
    } else if d == 4 {
        "4"
    } else if d == 5 {
        "5"
    } else if d == 6 {
        "6"
    } else if d == 7 {
        "7"
    } else if d == 8 {
        "8"
    } else {
        "9"
    };
    assert(r@ =~= seq![digit_char(d as nat)]);
    r
}

fn digits_text(n: u128) -> (r: String)
    ensures
        r@ == digits(n as nat),
    decreases n,
{
    if n < 10 {
        digit_text(n).to_owned()
    } else {
        let mut r: String = digits_text(n / 10);
        r.append(digit_text(n % 10));
        assert(r@ =~= digits(n as nat));
        r
    }
}

/// Writes an integer in decimal notation.
pub fn decimal_text(n: i128) -> (r: String)
    ensures
        r@ == decimal(n as int),
{
    if n < 0 {
        let magnitude: u128 = (-(n + 1)) as u128 + 1;
        let mut r: String = "-".to_owned();
        r.append(digits_text(magnitude).as_str());
        proof {
            reveal_strlit("-");
        }
        assert(r@ =~= decimal(n as int));
        r
    } else {
        digits_text(n as u128)
    }
}

/// The value of a decimal digit.
pub open spec fn digit_value(c: char) -> Option<nat> {
    if '0' <= c && c <= '9' {
        Some((c as int - '0' as int) as nat)
    } else {
        None
    }
}

/// The value of a sequence of decimal digits.
pub open spec fn digits_value(text: Seq<char>) -> Option<nat>
    decreases text.len(),
{
    if text.len() == 0 {
        Some(0)
    } else {
        match (digits_value(text.drop_last()), digit_value(text.last())) {
            (Some(before), Some(d)) => Some(before * 10 + d),
            _ => None,
        }
    }
}

/// The integer that a text denotes: at least one decimal digit, with a `+`
/// before it or, where `signed` is set, a `-`.
pub open spec fn integer_value(text: Seq<char>, signed: bool) -> Option<int> {
    if text.len() == 0 {
        None
    } else if text[0] == '+' || (signed && text[0] == '-') {
        if text.len() == 1 {
            None
        } else {
            match digits_value(text.drop_first()) {
                Some(n) => Some(
                    if text[0] == '-' {
                        -(n as int)
                    } else {
                        n as int
                    },
                ),
                None => None,
            }
        }
    } else {
        match digits_value(text) {
            Some(n) => Some(n as int),
            None => None,
        }
    }
}

/// Digits before others make the value no smaller.
proof fn digits_value_grows(text: Seq<char>, n: int)
    requires
        0 <= n <= text.len(),
        digits_value(text) is Some,
    ensures
        digits_value(text.take(n)) is Some,
        digits_value(text.take(n))->0 <= digits_value(text)->0,
    decreases text.len(),
{
    if n == text.len() {
        assert(text.take(n) =~= text);
    } else {
        assert(text.drop_last().take(n) =~= text.take(n));
        digits_value_grows(text.drop_last(), n);
    }
}

/// A text whose first characters are no number is none.
proof fn digits_value_fails(text: Seq<char>, n: int)
    requires
        0 <= n <= text.len(),
        digits_value(text.take(n)) is None,
    ensures
        digits_value(text) is None,
    decreases text.len(),
{
    if n == text.len() {
        assert(text.take(n) =~= text);
    } else {
        assert(text.drop_last().take(n) =~= text.take(n));
        digits_value_fails(text.drop_last(), n);
    }
}

/// The value of the digits from `from` on, unless it is beyond `limit`.
fn parse_digits(text: &str, from: usize, limit: u64) -> (r: Option<u64>)
    requires
        from <= text@.len(),
    ensures
        r == match digits_value(text@.skip(from as int)) {
            Some(n) => if n <= limit {
                Some(n as u64)
            } else {
                None
            },
            None => None,
        },
{
    let n: usize = text.unicode_len();
    let ghost digits = text@.skip(from as int);
    let mut value: u64 = 0;
    let mut i: usize = from;
    assert(digits.take(0) =~= Seq::empty());
    while i < n
        invariant
            n == text@.len(),
            from <= i <= n,
            digits == text@.skip(from as int),
            digits_value(digits.take(i - from)) == Some(value as nat),
            value <= limit,
        decreases n - i,
    {
        let c: char = text.get_char(i);
        proof {
            assert(digits.take(i - from + 1).drop_last() =~= digits.take(i - from));
            assert(digits.take(i - from + 1).last() == c);
        }
        if !('0' <= c && c <= '9') {
            proof {
                digits_value_fails(digits, i - from + 1);
            }
            return None;
        }
        let d: u64 = (c as u32 - '0' as u32) as u64;
        if value > (u64::MAX - d) / 10 || value * 10 + d > limit {
            proof {
                let next = digits_value(digits.take(i - from + 1));
                assert(next == Some((value * 10 + d) as nat));
                assert(value * 10 + d > limit);
                if digits_value(digits) is Some {
                    digits_value_grows(digits, i - from + 1);
                }
            }
            return None;
        }
        value = value * 10 + d;
        i = i + 1;
    }
    assert(digits.take(i - from) =~= digits);
    Some(value)
}

/// Reads a signed integer of the given range.
pub fn parse_signed(text: &str, low: i64, high: i64) -> (r: Option<i64>)
    requires
        low <= 0,
        0 <= high,
    ensures
        r == match integer_value(text@, true) {
            Some(n) => if low <= n <= high {
                Some(n as i64)
            } else {
                None
            },
            None => None,
        },
{
    let n: usize = text.unicode_len();
    if n == 0 {
        return None;
    }
    let first: char = text.get_char(0);
    assert(text@.skip(1) =~= text@.drop_first());
    assert(text@.skip(0) =~= text@);
    if first == '-' {
        if n == 1 {
            return None;
        }
        let magnitude: u64 = (-(low as i128)) as u64;
        match parse_digits(text, 1, magnitude) {
            Some(value) => Some((-(value as i128)) as i64),
            None => None,
        }
    } else {
        if first == '+' && n == 1 {
            return None;
        }
        let from: usize = if first == '+' {
            1
        } else {
            0
        };
        match parse_digits(text, from, high as u64) {
            Some(value) => Some(value as i64),
            None => None,
        }
    }
}

/// Reads an unsigned integer of the given range.
pub fn parse_unsigned(text: &str, high: u64) -> (r: Option<u64>)
    ensures
        r == match integer_value(text@, false) {
            Some(n) => if n <= high {
                Some(n as u64)
            } else {
                None
            },
            None => None,
        },
{
    let n: usize = text.unicode_len();
    if n == 0 {
        return None;
    }
    let first: char = text.get_char(0);
    assert(text@.skip(1) =~= text@.drop_first());
    assert(text@.skip(0) =~= text@);
    if first == '+' {
        if n == 1 {
            return None;
        }
        parse_digits(text, 1, high)
    } else {
        parse_digits(text, 0, high)
    }
}

/// Reading the digits of a number gives the number.
pub proof fn digits_read_back(n: nat)
    ensures
        digits_value(digits(n)) == Some(n),
        digits(n).len() > 0,
        digit_value(digits(n)[0]) is Some,
    decreases n,
{
    reveal_with_fuel(digits_value, 2);
    if n < 10 {
        assert(digits(n).drop_last() =~= Seq::empty());
    } else {
        digits_read_back(n / 10);
        assert(digits(n).drop_last() =~= digits(n / 10));
    }
}

/// Reading an integer in decimal notation gives the integer.
pub proof fn decimal_reads_back(n: int, signed: bool)
    requires
        signed || n >= 0,
    ensures
        integer_value(decimal(n), signed) == Some(n),
{
    if n < 0 {
        digits_read_back((-n) as nat);
        assert(decimal(n).drop_first() =~= digits((-n) as nat));
    } else {
        digits_read_back(n as nat);
    }
}

} // verus!
