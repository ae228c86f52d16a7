//! Numbers written out as text.

use vstd::prelude::*;
use vstd::string::StringExecFns;

verus! {

/// The character of a decimal digit.
pub open spec fn digit_char(d: int) -> char {
    if d == 0 {
        '0'
    } else if d == 1 {
        '1'
    } else if d == 2 {
        '2'
    } else if d == 3 {
        '3'
    } else if d == 4 {
        '4'
    } else if d == 5 {
        '5'
    } else if d == 6 {
        '6'
    } else if d == 7 {
        '7'
    } else if d == 8 {
        '8'
    } else {
        '9'
    }
}

/// A natural number in decimal digits, without leading zeros.
pub open spec fn decimal_natural(n: nat) -> Seq<char>
    decreases n,
{
    if n < 10 {
        seq![digit_char(n as int)]
    } else {
        decimal_natural(n / 10).push(digit_char((n % 10) as int))
    }
}

/// An integer in decimal digits, with a minus sign before a negative one.
pub open spec fn decimal(n: int) -> Seq<char> {
    if n < 0 {
        seq!['-'] + decimal_natural((-n) as nat)
    } else {
        decimal_natural(n as nat)
    }
}

/// A number of seconds written as minutes with two decimal places, rounded
/// to the nearest hundredth of a minute.
pub open spec fn minutes_text(seconds: int) -> Seq<char> {
    let size = if seconds < 0 {
        -seconds
    } else {
        seconds
    };
    let hundredths = (10 * size + 3) / 6;
    (if seconds < 0 {
        seq!['-']
    } else {
        Seq::<char>::empty()
    }) + decimal_natural((hundredths / 100) as nat) + seq![
        '.',
        digit_char(hundredths / 10 % 10),
        digit_char(hundredths % 10),
    ]
}

/// The text of one decimal digit.
fn digit_str(d: u128) -> (r: &'static str)
    requires
        d < 10,
    ensures
        r@ == seq![digit_char(d as int)],
{
    proof {
        reveal_strlit("0");
        reveal_strlit("1");
        reveal_strlit("2");
        reveal_strlit("3");
        reveal_strlit("4");
        reveal_strlit("5");
        reveal_strlit("6");
        reveal_strlit("7");
        reveal_strlit("8");
        reveal_strlit("9");
    }
    let r = if d == 0 {
        "0"
    } else if d == 1 {
        "1"
    } else if d == 2 {
        "2"
    } else if d == 3 {
        "3"
    } else if d == 4 {
        "4"
    } else if d == 5 {
        "5"
    } else if d == 6 {
        "6"
    } else if d == 7 {
        "7"
    } else if d == 8 {
        "8"
    } else {
        "9"
    };
    assert(r@ =~= seq![digit_char(d as int)]);
    r
}

/// Appends a natural number in decimal digits.
pub fn push_natural(text: &mut String, n: u128)
    ensures
        final(text)@ == old(text)@ + decimal_natural(n as nat),
    decreases n,
{
    if n < 10 {
        text.append(digit_str(n));
    } else {
        let ghost before = text@;
        push_natural(text, n / 10);
        text.append(digit_str(n % 10));
        assert(text@ =~= before + decimal_natural(n as nat));
    }
}

/// Appends an integer in decimal digits.
pub fn push_decimal(text: &mut String, n: i64)
    ensures
        final(text)@ == old(text)@ + decimal(n as int),
{
    let ghost before = text@;
    if n < 0 {
        proof {
            reveal_strlit("-");
        }
        text.append("-");
        let size: u128 = (-(n as i128)) as u128;
        push_natural(text, size);
        assert(text@ =~= before + decimal(n as int));
    } else {
        push_natural(text, n as u128);
    }
}

/// Appends a number of seconds written as minutes with two decimal places.
pub fn push_minutes(text: &mut String, seconds: i64)
    ensures
        final(text)@ == old(text)@ + minutes_text(seconds as int),
{
    let ghost before = text@;
    let size: u128 = if seconds < 0 {
        (-(seconds as i128)) as u128
    } else {
        seconds as u128
    };
    let hundredths: u128 = (10 * size + 3) / 6;
    if seconds < 0 {
        proof {
            reveal_strlit("-");
        }
        text.append("-");
    }
    push_natural(text, hundredths / 100);
    proof {
        reveal_strlit(".");
    }
    text.append(".");
    text.append(digit_str(hundredths / 10 % 10));
    text.append(digit_str(hundredths % 10));
    assert(text@ =~= before + minutes_text(seconds as int));
}

/// An integer in decimal digits.
pub fn decimal_string(n: i64) -> (r: String)
    ensures
        r@ == decimal(n as int),
{
    let mut text = String::new();
    push_decimal(&mut text, n);
    assert(text@ =~= decimal(n as int));
    text
}

} // verus!
