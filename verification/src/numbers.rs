//! Decimal text: digit classification, numeric value of digit runs, and
//! formatting of integers as decimal strings.

use crate::errors::InputError;
use vstd::prelude::*;
use vstd::string::StrSliceExecFns;
use vstd::string::StringExecFns;

verus! {

/// True for the ASCII digits '0' through '9'.
pub open spec fn is_digit_char(c: char) -> bool {
    '0' as u32 <= c as u32 && c as u32 <= '9' as u32
}

/// Numeric value of a single decimal digit character.
pub open spec fn digit_val(c: char) -> int
    recommends
        is_digit_char(c),
{
    c as u32 - '0' as u32
}

/// The character for a single decimal digit value.
pub open spec fn digit_char(d: int) -> char
    recommends
        0 <= d <= 9,
{
    if d == 0 {
        '0'
    } else if d == 1 {
        '1'
    } else if d == 2 {
        '2'
    } else if d == 3 {
        '3'
    } else if d == 4 {
        '4'
    } else if d == 5 {
        '5'
    } else if d == 6 {
        '6'
    } else if d == 7 {
        '7'
    } else if d == 8 {
        '8'
    } else {
        '9'
    }
}

/// Value of a big-endian run of decimal digit characters.
pub open spec fn digits_val(s: Seq<char>) -> int
    recommends
        forall|i: int| 0 <= i < s.len() ==> is_digit_char(s[i]),
    decreases s.len(),
{
    if s.len() == 0 {
        0
    } else {
        digits_val(s.drop_last()) * 10 + digit_val(s.last())
    }
}

/// Decimal representation of a non-negative integer, most significant digit
/// first, without a sign and without leading zeros (zero itself is "0").
pub open spec fn dec_digits(n: int) -> Seq<char>
    recommends
        n >= 0,
    decreases n,
{
    if n < 10 {
        seq![digit_char(n)]
    } else {
        dec_digits(n / 10).push(digit_char(n % 10))
    }
}

/// Decimal string of an integer, with a leading '-' when negative.
pub open spec fn dec_str(n: int) -> Seq<char> {
    if n < 0 {
        seq!['-'] + dec_digits(-n)
    } else {
        dec_digits(n)
    }
}

/// The one-character string for a single decimal digit value.
fn digit_str(d: u128) -> (r: &'static str)
    requires
        d <= 9,
    ensures
        r@ == seq![digit_char(d as int)],
{
    proof {
        reveal_strlit("0");
        reveal_strlit("1");
        reveal_strlit("2");
        reveal_strlit("3");
        reveal_strlit("4");
        reveal_strlit("5");
        reveal_strlit("6");
        reveal_strlit("7");
        reveal_strlit("8");
        reveal_strlit("9");
    }
    let r: &'static str = if d == 0 {
        "0"
    } else if d == 1 {
        "1"
    } else if d == 2 {
        "2"
    } else if d == 3 {
        "3"
    } else if d == 4 {
        "4"
    } else if d == 5 {
        "5"
    } else if d == 6 {
        "6"
    } else if d == 7 {
        "7"
    } else {
        "8"
    };
    let r: &'static str = if d == 9 {
        "9"
    } else {
        r
    };
    proof {
        assert(r@ =~= seq![digit_char(d as int)]);
    }
    r
}

/// Renders a non-negative integer as its decimal string.
pub fn u128_to_string(n: u128) -> (r: String)
    ensures
        r@ == dec_digits(n as int),
    decreases n,
{
    if n < 10 {
        let r = digit_str(n).to_owned();
        r
    } else {
        let mut s = u128_to_string(n / 10);
        s.append(digit_str(n % 10));
        proof {
            assert(s@ =~= dec_digits(n as int));
        }
        s
    }
}

/// Renders a `u64` as its decimal string.
pub fn u64_to_string(n: u64) -> (r: String)
    ensures
        r@ == dec_digits(n as int),
{
    u128_to_string(n as u128)
}

/// A nonempty run of decimal digit characters and nothing else.
pub open spec fn is_digit_run(s: Seq<char>) -> bool {
    s.len() > 0 && forall|i: int| 0 <= i < s.len() ==> is_digit_char(s[i])
}

/// Text that a block-number or entity-count field must hold: a nonempty
/// run of decimal digits whose value fits the signed 64-bit range.
pub open spec fn valid_block_number(s: Seq<char>) -> bool {
    is_digit_run(s) && digits_val(s) <= i64::MAX
}

/// A run of digits never has a negative value.
pub proof fn lemma_digits_val_nonneg(s: Seq<char>)
    requires
        forall|i: int| 0 <= i < s.len() ==> is_digit_char(s[i]),
    ensures
        digits_val(s) >= 0,
    decreases s.len(),
{
    if s.len() > 0 {
        lemma_digits_val_nonneg(s.drop_last());
    }
}

/// Parses the decimal number a block field holds. Every input that is not
/// a pure digit run in the signed 64-bit range is rejected, never coerced.
pub fn parse_block_number(s: &str) -> (r: Result<i64, InputError>)
    ensures
        valid_block_number(s@) ==> r == Ok::<i64, InputError>(digits_val(s@) as i64),
        !valid_block_number(s@) ==> r == Err::<i64, InputError>(InputError::NotANumber),
{
    let n = s.unicode_len();
    if n == 0 {
        return Err(InputError::NotANumber);
    }
    let mut i: usize = 0;
    let mut acc: u64 = 0;
    let mut overflow: bool = false;
    while i < n
        invariant
            0 < n == s@.len(),
            i <= n,
            forall|k: int| 0 <= k < i ==> is_digit_char(s@[k]),
            !overflow ==> acc == digits_val(s@.subrange(0, i as int)),
            overflow ==> digits_val(s@.subrange(0, i as int)) > u64::MAX,
        decreases n - i,
    {
        let c = s.get_char(i);
        let cv = c as u32;
        if cv < 48 || cv > 57 {
            return Err(InputError::NotANumber);
        }
        let d: u64 = (cv - 48) as u64;
        proof {
            assert(s@.subrange(0, i + 1).drop_last() =~= s@.subrange(0, i as int));
            assert(digits_val(s@.subrange(0, i + 1)) == digits_val(s@.subrange(0, i as int)) * 10
                + d);
        }
        if overflow {
            assert(digits_val(s@.subrange(0, i + 1)) > u64::MAX);
        } else {
            match acc.checked_mul(10) {
                Some(m) => match m.checked_add(d) {
                    Some(v) => {
                        acc = v;
                    },
                    None => {
                        overflow = true;
                    },
                },
                None => {
                    overflow = true;
                },
            }
        }
        i = i + 1;
    }
    proof {
        assert(s@.subrange(0, n as int) =~= s@);
    }
    if overflow {
        return Err(InputError::NotANumber);
    }
    if acc > 0x7fff_ffff_ffff_ffff {
        return Err(InputError::NotANumber);
    }
    Ok(acc as i64)
}

/// Renders a signed integer as its decimal string, `-` first when negative.
pub fn i128_to_string(n: i128) -> (r: String)
    requires
        n > i128::MIN,
    ensures
        r@ == dec_str(n as int),
{
    if n < 0 {
        let mut s = String::from_str("-");
        let digits = u128_to_string((-n) as u128);
        s.append(digits.as_str());
        proof {
            reveal_strlit("-");
            assert(s@ =~= dec_str(n as int));
        }
        s
    } else {
        u128_to_string(n as u128)
    }
}

} // verus!
