//! Unsigned decimal numerals: what a string of digits denotes, how a number
//! is written, and the two executable conversions between `u64` and text.

use vstd::prelude::*;
use vstd::std_specs::iter::IteratorSpec;
use vstd::string::StringExecFns;

verus! {

/// Why a text is not the decimal numeral of a `u64`.
#[derive(Clone, Copy, Debug, PartialEq, Eq, Structural)]
pub enum IntParseError {
    /// The text has no characters.
    Empty,
    /// A character other than `0` to `9` stands in the text.
    InvalidDigit,
    /// The digits denote a number above `u64::MAX`.
    PosOverflow,
}

/// `c` is one of the ten ASCII digits.
pub open spec fn is_digit(c: char) -> bool {
    '0' <= c <= '9'
}

/// The number that the digit `c` stands for.
pub open spec fn digit_value(c: char) -> nat
    recommends
        is_digit(c),
{
    (c as int - '0' as int) as nat
}

/// Every character of `s` is a digit.
pub open spec fn all_digits(s: Seq<char>) -> bool {
    forall|i: int| 0 <= i < s.len() ==> is_digit(#[trigger] s[i])
}

/// The number that the digits of `s` denote in base ten, the first digit
/// being the most significant. Leading zeros count for nothing.
pub open spec fn decimal_value(s: Seq<char>) -> nat
    decreases s.len(),
{
    if s.len() == 0 {
        0
    } else {
        10 * decimal_value(s.drop_last()) + digit_value(s.last())
    }
}

/// The length of the longest prefix of `s` that holds digits only.
pub open spec fn digit_prefix_len(s: Seq<char>) -> nat
    decreases s.len(),
{
    if s.len() == 0 || !is_digit(s[0]) {
        0
    } else {
        1 + digit_prefix_len(s.drop_first())
    }
}

/// The character that writes the digit `d`.
pub open spec fn digit_char(d: nat) -> char
    recommends
        d < 10,
{
    (d + '0' as nat) as char
}

/// How `n` is written in base ten: at least one digit, and no leading zero
/// but for zero itself.
pub open spec fn decimal_digits(n: nat) -> Seq<char>
    decreases n,
{
    if n < 10 {
        seq![digit_char(n)]
    } else {
        decimal_digits(n / 10).push(digit_char(n % 10))
    }
}

/// What reading `s` as the decimal numeral of a `u64` gives. The text is read
/// from the left and the first obstacle decides: digits that already exceed
/// `u64::MAX` are an overflow even where a stray character follows them.
pub open spec fn parse_u64_spec(s: Seq<char>) -> Result<u64, IntParseError> {
    let digits = s.take(digit_prefix_len(s) as int);
    if s.len() == 0 {
        Err(IntParseError::Empty)
    } else if decimal_value(digits) > u64::MAX {
        Err(IntParseError::PosOverflow)
    } else if digits.len() < s.len() {
        Err(IntParseError::InvalidDigit)
    } else {
        Ok(decimal_value(s) as u64)
    }
}

/// The longest prefix of digits ends within the text, holds digits only, and
/// is followed by no digit.
pub proof fn lemma_digit_prefix(s: Seq<char>)
    ensures
        digit_prefix_len(s) <= s.len(),
        all_digits(s.take(digit_prefix_len(s) as int)),
        digit_prefix_len(s) < s.len() ==> !is_digit(s[digit_prefix_len(s) as int]),
    decreases s.len(),
{
    if s.len() > 0 && is_digit(s[0]) {
        let rest = s.drop_first();
        lemma_digit_prefix(rest);
        let k = digit_prefix_len(rest) as int;
        assert forall|i: int| 0 <= i < s.take(k + 1).len() implies is_digit(
            #[trigger] s.take(k + 1)[i],
        ) by {
            if i > 0 {
                assert(s.take(k + 1)[i] == rest.take(k)[i - 1]);
            }
        }
    }
}

/// Any prefix of digits is at most as long as the longest one.
pub proof fn lemma_digit_prefix_reach(s: Seq<char>, k: int)
    requires
        0 <= k <= s.len(),
        all_digits(s.take(k)),
    ensures
        k <= digit_prefix_len(s) <= s.len(),
{
    lemma_digit_prefix(s);
    let p = digit_prefix_len(s) as int;
    if p < k {
        assert(s.take(k)[p] == s[p]);
    }
}

/// A prefix of digits that ends at the text's end or before a character that
/// is no digit is the longest one.
pub proof fn lemma_digit_prefix_len(s: Seq<char>, k: int)
    requires
        0 <= k <= s.len(),
        all_digits(s.take(k)),
        k < s.len() ==> !is_digit(s[k]),
    ensures
        digit_prefix_len(s) == k,
    decreases s.len(),
{
    if k > 0 {
        assert(s.take(k)[0] == s[0]);
        let rest = s.drop_first();
        assert forall|i: int| 0 <= i < rest.take(k - 1).len() implies is_digit(
            #[trigger] rest.take(k - 1)[i],
        ) by {
            assert(rest.take(k - 1)[i] == s.take(k)[i + 1]);
        }
        lemma_digit_prefix_len(rest, k - 1);
    }
}

/// Digits that are added at the end never make the number smaller.
pub proof fn lemma_decimal_value_grows(s: Seq<char>, j: int, k: int)
    requires
        0 <= j <= k <= s.len(),
    ensures
        decimal_value(s.take(j)) <= decimal_value(s.take(k)),
    decreases k - j,
{
    if j < k {
        lemma_decimal_value_grows(s, j, k - 1);
        assert(s.take(k).drop_last() =~= s.take(k - 1));
    }
}

/// Reads `text` as the decimal numeral of a `u64`: digits only, at least one,
/// with no sign and no blank.
pub fn parse_u64(text: &str) -> (r: Result<u64, IntParseError>)
    ensures
        r == parse_u64_spec(text@),
{
    broadcast use vstd::string::group_string_axioms;

    if text.is_empty() {
        return Err(IntParseError::Empty);
    }
    let ghost s = text@;
    let ghost mut seen: int = 0;
    let mut rest = text.chars();
    let mut acc: u64 = 0;
    assert(s.skip(0) =~= s);
    assert(s.take(0) =~= Seq::<char>::empty());
    loop
        invariant
            s == text@,
            0 < s.len(),
            0 <= seen <= s.len(),
            rest.remaining() == s.skip(seen),
            all_digits(s.take(seen)),
            acc == decimal_value(s.take(seen)),
        decreases s.len() - seen,
    {
        let c = match rest.next() {
            Some(c) => c,
            None => {
                proof {
                    assert(s.take(seen) =~= s);
                    lemma_digit_prefix_len(s, seen);
                }
                return Ok(acc);
            },
        };
        assert(c == s[seen]);
        if c < '0' || c > '9' {
            proof {
                lemma_digit_prefix_len(s, seen);
            }
            return Err(IntParseError::InvalidDigit);
        }
        let digit: u64 = (c as u32 - '0' as u32) as u64;
        proof {
            let longer = s.take(seen + 1);
            assert(longer.drop_last() =~= s.take(seen));
            assert forall|i: int| 0 <= i < longer.len() implies is_digit(#[trigger] longer[i]) by {
                if i < seen {
                    assert(longer[i] == s.take(seen)[i]);
                }
            }
            assert(s.skip(seen).drop_first() =~= s.skip(seen + 1));
        }
        let grown = match acc.checked_mul(10) {
            Some(tens) => tens.checked_add(digit),
            None => None,
        };
        match grown {
            Some(value) => {
                acc = value;
                proof {
                    seen = seen + 1;
                }
            },
            None => {
                proof {
                    lemma_digit_prefix_reach(s, seen + 1);
                    lemma_decimal_value_grows(s, seen + 1, digit_prefix_len(s) as int);
                }
                return Err(IntParseError::PosOverflow);
            },
        }
    }
}

/// What is written for a number is a numeral, and it denotes that number.
pub proof fn lemma_decimal_digits_denote(n: nat)
    ensures
        decimal_digits(n).len() >= 1,
        all_digits(decimal_digits(n)),
        decimal_value(decimal_digits(n)) == n,
    decreases n,
{
    if n < 10 {
        let one = seq![digit_char(n)];
        assert(one.drop_last() =~= Seq::<char>::empty());
        assert(decimal_value(one.drop_last()) == 0);
    } else {
        lemma_decimal_digits_denote(n / 10);
        let front = decimal_digits(n / 10);
        let whole = front.push(digit_char(n % 10));
        assert(whole.drop_last() =~= front);
        assert forall|i: int| 0 <= i < whole.len() implies is_digit(#[trigger] whole[i]) by {
            if i < front.len() {
                assert(whole[i] == front[i]);
            }
        }
    }
}

/// A number that is written and then read comes back unchanged.
pub proof fn lemma_written_then_read(n: u64)
    ensures
        parse_u64_spec(decimal_digits(n as nat)) == Ok::<u64, IntParseError>(n),
{
    let s = decimal_digits(n as nat);
    lemma_decimal_digits_denote(n as nat);
    assert(s.take(s.len() as int) =~= s);
    lemma_digit_prefix_len(s, s.len() as int);
}

/// The text of one digit.
fn digit_text(d: u64) -> (r: &'static str)
    requires
        d < 10,
    ensures
        r@ == seq![digit_char(d as nat)],
{
    proof {
        reveal_strlit("0");
        reveal_strlit("1");
        reveal_strlit("2");
        reveal_strlit("3");
        reveal_strlit("4");
        reveal_strlit("5");
        reveal_strlit("6");
        reveal_strlit("7");
        reveal_strlit("8");
        reveal_strlit("9");
    }
    let r = if d == 0 {
        "0"
    } else if d == 1 {
        "1"
    } else if d == 2 {
        "2"
    } else if d == 3 {
        "3"
    } else if d == 4 {
        "4"
    } else if d == 5 {
        "5"
    } else if d == 6 {
        "6"
    } else if d == 7 {
        "7"
    } else if d == 8 {
        "8"
    } else {
        "9"
    };
    assert(r@ =~= seq![digit_char(d as nat)]);
    r
}

/// Writes `n` in base ten.
pub fn render_u64(n: u64) -> (r: String)
    ensures
        r@ == decimal_digits(n as nat),
    decreases n,
{
    if n < 10 {
        digit_text(n).to_owned()
    } else {
        let mut text = render_u64(n / 10);
        text.append(digit_text(n % 10));
        proof {
            let front = decimal_digits((n / 10) as nat);
            let last = seq![digit_char((n % 10) as nat)];
            assert(front + last =~= front.push(digit_char((n % 10) as nat)));
        }
        text
    }
}

} // verus!
