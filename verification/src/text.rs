//! Numbers as decimal text, and the comparison of texts.

use vstd::prelude::*;
use vstd::string::StrSliceExecFns;
use vstd::string::StringExecFns;

verus! {

/// The character of a digit.
pub open spec fn digit(d: nat) -> char {
    if d == 0 {
        '0'
    } else if d == 1 {
        '1'
    } else if d == 2 {
        '2'
    } else if d == 3 {
        '3'
    } else if d == 4 {
        '4'
    } else if d == 5 {
        '5'
    } else if d == 6 {
        '6'
    } else if d == 7 {
        '7'
    } else if d == 8 {
        '8'
    } else {
        '9'
    }
}

/// The decimal digits of a number, the highest first.
pub open spec fn decimal(n: nat) -> Seq<char>
    decreases n,
{
    if n < 10 {
        seq![digit(n)]
    } else {
        decimal(n / 10).push(digit(n % 10))
    }
}

/// The decimal digits of a number, after a minus sign where it is negative.
pub open spec fn signed_decimal(n: int) -> Seq<char> {
    if n < 0 {
        seq!['-'] + decimal((-n) as nat)
    } else {
        decimal(n as nat)
    }
}

/// The characters of digits that were collected from the lowest upwards.
spec fn upwards(digits: Seq<u8>) -> Seq<char> {
    Seq::new(digits.len(), |i: int| digit(digits[digits.len() - 1 - i] as nat))
}

/// The text of one digit.
fn digit_text(d: u8) -> (text: &'static str)
    requires
        d < 10,
    ensures
        text@ == seq![digit(d as nat)],
{
    let text = if d == 0 {
        "0"
    } else if d == 1 {
        "1"
    } else if d == 2 {
        "2"
    } else if d == 3 {
        "3"
    } else if d == 4 {
        "4"
    } else if d == 5 {
        "5"
    } else if d == 6 {
        "6"
    } else if d == 7 {
        "7"
    } else if d == 8 {
        "8"
    } else {
        "9"
    };
    proof {
        reveal_strlit("0");
        reveal_strlit("1");
        reveal_strlit("2");
        reveal_strlit("3");
        reveal_strlit("4");
        reveal_strlit("5");
        reveal_strlit("6");
        reveal_strlit("7");
        reveal_strlit("8");
        reveal_strlit("9");
        assert(text@ =~= seq![digit(d as nat)]);
    }
    text
}

/// Appends the decimal digits of `n` to `text`.
pub fn push_decimal(text: &mut String, n: u128)
    ensures
        final(text)@ == old(text)@ + decimal(n as nat),
{
    let mut digits: Vec<u8> = Vec::new();
    let mut rest: u128 = n;
    while rest >= 10
        invariant
            decimal(n as nat) == decimal(rest as nat) + upwards(digits@),
            forall|i: int| 0 <= i < digits@.len() ==> digits@[i] < 10,
        decreases rest,
    {
        let lowest: u8 = (rest % 10) as u8;
        proof {
            assert(decimal(rest as nat) == decimal((rest / 10) as nat).push(digit(lowest as nat)));
            assert(upwards(digits@.push(lowest)) =~= seq![digit(lowest as nat)] + upwards(digits@));
            assert(decimal((rest / 10) as nat).push(digit(lowest as nat)) + upwards(digits@)
                =~= decimal((rest / 10) as nat) + upwards(digits@.push(lowest)));
        }
        digits.push(lowest);
        rest = rest / 10;
    }
    proof {
        assert(decimal(rest as nat) == seq![digit(rest as nat)]);
        assert(upwards(digits@.push(rest as u8)) =~= seq![digit(rest as nat)] + upwards(digits@));
    }
    digits.push(rest as u8);
    let count: usize = digits.len();
    let mut written: usize = 0;
    while written < count
        invariant
            count == digits@.len(),
            written <= count,
            decimal(n as nat) == upwards(digits@),
            forall|i: int| 0 <= i < digits@.len() ==> digits@[i] < 10,
            text@ == old(text)@ + upwards(digits@).take(written as int),
        decreases count - written,
    {
        let next = digit_text(digits[count - 1 - written]);
        proof {
            assert(upwards(digits@).take(written + 1) =~= upwards(digits@).take(written as int)
                + next@);
        }
        text.append(next);
        written += 1;
    }
    proof {
        assert(upwards(digits@).take(count as int) =~= upwards(digits@));
    }
}

/// Appends the decimal digits of `n` to `text`, after a minus sign where `n`
/// is negative.
pub fn push_signed_decimal(text: &mut String, n: i64)
    ensures
        final(text)@ == old(text)@ + signed_decimal(n as int),
{
    if n < 0 {
        proof {
            reveal_strlit("-");
            assert("-"@ =~= seq!['-']);
        }
        text.append("-");
        let magnitude: u128 = if n == i64::MIN {
            0x8000_0000_0000_0000
        } else {
            (-n) as u128
        };
        push_decimal(text, magnitude);
        proof {
            assert(text@ =~= old(text)@ + signed_decimal(n as int));
        }
    } else {
        push_decimal(text, n as u128);
    }
}

/// Whether two texts are the same.
pub fn same_text(a: &str, b: &str) -> (same: bool)
    ensures
        same == (a@ == b@),
{
    let length = a.unicode_len();
    if length != b.unicode_len() {
        return false;
    }
    let mut i: usize = 0;
    while i < length
        invariant
            length == a@.len(),
            length == b@.len(),
            i <= length,
            forall|j: int| 0 <= j < i ==> a@[j] == b@[j],
        decreases length - i,
    {
        if a.get_char(i) != b.get_char(i) {
            return false;
        }
        i += 1;
    }
    proof {
        assert(a@ =~= b@);
    }
    true
}

} // verus!
