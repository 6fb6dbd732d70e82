//! Natural numbers in decimal notation.
//!
//! The request for a catalog page and the id column of an output row hold a
//! number in decimal digits, and the catalog's next-page token is read from
//! them. The notation is the usual one: digits `0` to `9`, most significant
//! first, no sign, and no leading zero but for the number zero itself.

use vstd::prelude::*;
use vstd::string::StringExecFns;

verus! {

/// The digit that stands for `d`, for `d` below ten.
pub open spec fn digit_char(d: nat) -> char {
    if d == 0 {
        '0'
    } else if d == 1 {
        '1'
    } else if d == 2 {
        '2'
    } else if d == 3 {
        '3'
    } else if d == 4 {
        '4'
    } else if d == 5 {
        '5'
    } else if d == 6 {
        '6'
    } else if d == 7 {
        '7'
    } else if d == 8 {
        '8'
    } else {
        '9'
    }
}

/// Whether `c` is one of the ten digits.
pub open spec fn is_digit(c: char) -> bool {
    exists|d: nat| d < 10 && c == #[trigger] digit_char(d)
}

/// The decimal notation of `n`.
pub open spec fn decimal(n: nat) -> Seq<char>
    decreases n,
{
    if n < 10 {
        seq![digit_char(n)]
    } else {
        decimal(n / 10).push(digit_char(n % 10))
    }
}

/// Whether `text` is the decimal notation of a number that fits in 64 bits.
pub open spec fn is_decimal_u64(text: Seq<char>) -> bool {
    exists|n: nat| n <= u64::MAX && text == #[trigger] decimal(n)
}

/// What reading `text` as a decimal notation yields: the number, where
/// `text` is the notation of one that fits in 64 bits.
pub open spec fn parsed_decimal(text: Seq<char>) -> Option<u64> {
    if is_decimal_u64(text) {
        Some(choose|n: u64| text == decimal(n as nat))
    } else {
        None
    }
}

/// Reading the notation of a number yields that number.
pub proof fn lemma_parsed_decimal(n: u64)
    ensures
        parsed_decimal(decimal(n as nat)) == Some(n),
{
    let text = decimal(n as nat);
    assert(is_decimal_u64(text));
    let chosen = choose|m: u64| text == decimal(m as nat);
    lemma_decimal_injective(chosen as nat, n as nat);
}

/// The digits `0` to `9` are ten different characters.
pub proof fn lemma_digit_char_injective(a: nat, b: nat)
    requires
        a < 10,
        b < 10,
        digit_char(a) == digit_char(b),
    ensures
        a == b,
{
}

/// A decimal notation is not empty, holds digits only, and starts with a
/// zero only if it is the notation of zero.
pub proof fn lemma_decimal_shape(n: nat)
    ensures
        decimal(n).len() >= 1,
        forall|i: int| 0 <= i < decimal(n).len() ==> is_digit(#[trigger] decimal(n)[i]),
        decimal(n)[0] == '0' ==> n == 0,
        n < 10 <==> decimal(n).len() == 1,
    decreases n,
{
    if n < 10 {
        assert(is_digit(digit_char(n)));
    } else {
        lemma_decimal_shape(n / 10);
        assert(is_digit(digit_char(n % 10)));
        assert(n / 10 != 0);
    }
}

/// Different numbers have different decimal notations.
pub proof fn lemma_decimal_injective(a: nat, b: nat)
    requires
        decimal(a) == decimal(b),
    ensures
        a == b,
    decreases a,
{
    lemma_decimal_shape(a);
    lemma_decimal_shape(b);
    if a < 10 {
        assert(decimal(a)[0] == digit_char(a));
        assert(decimal(b)[0] == digit_char(b));
        lemma_digit_char_injective(a, b);
    } else {
        let front_a = decimal(a / 10);
        let front_b = decimal(b / 10);
        assert(decimal(a).last() == digit_char(a % 10));
        assert(decimal(b).last() == digit_char(b % 10));
        lemma_digit_char_injective(a % 10, b % 10);
        assert(front_a == decimal(a).drop_last());
        assert(front_b == decimal(b).drop_last());
        lemma_decimal_injective(a / 10, b / 10);
    }
}

/// Every non-empty prefix of a decimal notation is the decimal notation of a
/// number that is no larger.
pub proof fn lemma_decimal_prefix(n: nat, len: int) -> (m: nat)
    requires
        1 <= len <= decimal(n).len(),
    ensures
        m <= n,
        decimal(n).take(len) == decimal(m),
    decreases n,
{
    lemma_decimal_shape(n);
    if len == decimal(n).len() {
        assert(decimal(n).take(len) == decimal(n));
        n
    } else {
        let m = lemma_decimal_prefix(n / 10, len);
        assert(decimal(n).take(len) == decimal(n / 10).take(len));
        m
    }
}

/// Appending a digit to the notation of a number other than zero gives the
/// notation of ten times the number plus the digit.
pub proof fn lemma_decimal_push(n: nat, d: nat)
    requires
        n > 0,
        d < 10,
    ensures
        decimal(n).push(digit_char(d)) == decimal(10 * n + d),
{
    assert((10 * n + d) / 10 == n);
    assert((10 * n + d) % 10 == d);
}

/// The text of one digit.
fn digit_text(d: u64) -> (text: &'static str)
    requires
        d < 10,
    ensures
        text@ == seq![digit_char(d as nat)],
{
    proof {
        reveal_strlit("0");
        reveal_strlit("1");
        reveal_strlit("2");
        reveal_strlit("3");
        reveal_strlit("4");
        reveal_strlit("5");
        reveal_strlit("6");
        reveal_strlit("7");
        reveal_strlit("8");
        reveal_strlit("9");
    }
    let text = match d {
        0 => "0",
        1 => "1",
        2 => "2",
        3 => "3",
        4 => "4",
        5 => "5",
        6 => "6",
        7 => "7",
        8 => "8",
        _ => "9",
    };
    assert(text@ =~= seq![digit_char(d as nat)]);
    text
}

/// Appends the decimal notation of `n` to `out`.
pub fn append_decimal(out: &mut String, n: u64)
    ensures
        final(out)@ == old(out)@ + decimal(n as nat),
    decreases n,
{
    if n >= 10 {
        append_decimal(out, n / 10);
    }
    out.append(digit_text(n % 10));
    proof {
        if n >= 10 {
            assert(old(out)@ + decimal((n / 10) as nat) + seq![digit_char((n % 10) as nat)]
                =~= old(out)@ + decimal(n as nat));
        }
    }
}

/// Returns the decimal notation of `n`.
pub fn decimal_string(n: u64) -> (text: String)
    ensures
        text@ == decimal(n as nat),
{
    let mut text = String::new();
    append_decimal(&mut text, n);
    assert(Seq::<char>::empty() + decimal(n as nat) =~= decimal(n as nat));
    text
}

/// The value of the digit `c`, if it is one.
fn digit_value(c: char) -> (value: Option<u64>)
    ensures
        match value {
            Some(d) => d < 10 && c == digit_char(d as nat),
            None => !is_digit(c),
        },
{
    match c {
        '0' => Some(0),
        '1' => Some(1),
        '2' => Some(2),
        '3' => Some(3),
        '4' => Some(4),
        '5' => Some(5),
        '6' => Some(6),
        '7' => Some(7),
        '8' => Some(8),
        '9' => Some(9),
        _ => None,
    }
}

/// Reads a number from its decimal notation. Returns the number if `text` is
/// the decimal notation of one that fits in 64 bits, and nothing otherwise:
/// a sign, a leading zero, a blank or an empty text are all refused.
pub fn parse_decimal(text: &str) -> (parsed: Option<u64>)
    ensures
        parsed == parsed_decimal(text@),
        match parsed {
            Some(n) => text@ == decimal(n as nat),
            None => !is_decimal_u64(text@),
        },
{
    let mut value: u64 = 0;
    let mut started = false;
    for c in it: text.chars()
        invariant
            it.seq() == text@,
            started == (it.index() > 0),
            !started ==> value == 0,
            started ==> text@.take(it.index()) == decimal(value as nat),
    {
        let ghost seen = text@.take(it.index());
        let ghost next = text@.take(it.index() + 1);
        assert(next == seen.push(c));
        let d = match digit_value(c) {
            Some(d) => d,
            None => {
                proof {
                    lemma_not_decimal_with_other_char(text@, it.index());
                }
                return None;
            },
        };
        if started && value == 0 {
            proof {
                lemma_not_decimal_behind_zero(text@);
            }
            return None;
        }
        if value > (u64::MAX - d) / 10 {
            proof {
                if started {
                    lemma_decimal_push(value as nat, d as nat);
                } else {
                    assert(next == decimal(d as nat));
                }
                lemma_not_decimal_past_prefix(text@, it.index() + 1, 10 * (value as nat) + (d as nat));
            }
            return None;
        }
        proof {
            if started {
                lemma_decimal_push(value as nat, d as nat);
            } else {
                assert(next == decimal(d as nat));
            }
        }
        value = value * 10 + d;
        started = true;
    }
    if !started {
        proof {
            assert(text@.len() == 0);
            assert forall|n: nat| text@ != #[trigger] decimal(n) by {
                lemma_decimal_shape(n);
            }
        }
        return None;
    }
    assert(text@.take(text@.len() as int) == text@);
    proof {
        lemma_parsed_decimal(value);
    }
    Some(value)
}

/// A text with a character that is no digit is no decimal notation.
proof fn lemma_not_decimal_with_other_char(text: Seq<char>, at: int)
    requires
        0 <= at < text.len(),
        !is_digit(text[at]),
    ensures
        !is_decimal_u64(text),
{
    assert forall|n: nat| text != #[trigger] decimal(n) by {
        lemma_decimal_shape(n);
    }
}

/// A text of two or more characters that starts with a zero is no decimal
/// notation.
proof fn lemma_not_decimal_behind_zero(text: Seq<char>)
    requires
        text.len() >= 2,
        text.take(1) == decimal(0),
    ensures
        !is_decimal_u64(text),
{
    assert(text[0] == text.take(1)[0]);
    assert forall|n: nat| text != #[trigger] decimal(n) by {
        lemma_decimal_shape(n);
    }
}

/// A text with a prefix that is the notation of a number beyond 64 bits is
/// not the notation of a number within them.
proof fn lemma_not_decimal_past_prefix(text: Seq<char>, len: int, m: nat)
    requires
        1 <= len <= text.len(),
        text.take(len) == decimal(m),
        m > u64::MAX,
    ensures
        !is_decimal_u64(text),
{
    assert forall|n: nat| n <= u64::MAX implies text != #[trigger] decimal(n) by {
        if text == decimal(n) {
            let smaller = lemma_decimal_prefix(n, len);
            lemma_decimal_injective(smaller, m);
        }
    }
}

} // verus!
