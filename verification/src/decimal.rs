//! Whole numbers written out in decimal digits.

use vstd::prelude::*;
use vstd::string::StringExecFns;

verus! {

/// The character for a single decimal digit.
pub open spec fn digit(value: nat) -> char {
    if value == 0 {
        '0'
    } else if value == 1 {
        '1'
    } else if value == 2 {
        '2'
    } else if value == 3 {
        '3'
    } else if value == 4 {
        '4'
    } else if value == 5 {
        '5'
    } else if value == 6 {
        '6'
    } else if value == 7 {
        '7'
    } else if value == 8 {
        '8'
    } else {
        '9'
    }
}

/// The decimal digits of `value`, most significant first, without leading
/// zeros.
pub open spec fn decimal(value: nat) -> Seq<char>
    decreases value,
{
    if value < 10 {
        seq![digit(value)]
    } else {
        decimal(value / 10).push(digit(value % 10))
    }
}

/// The text of a single decimal digit.
fn digit_text(value: u32) -> (text: &'static str)
    requires
        value < 10,
    ensures
        text@ == seq![digit(value as nat)],
{
    proof {
        reveal_strlit("0");
        reveal_strlit("1");
        reveal_strlit("2");
        reveal_strlit("3");
        reveal_strlit("4");
        reveal_strlit("5");
        reveal_strlit("6");
        reveal_strlit("7");
        reveal_strlit("8");
        reveal_strlit("9");
    }
    let text = if value == 0 {
        "0"
    } else if value == 1 {
        "1"
    } else if value == 2 {
        "2"
    } else if value == 3 {
        "3"
    } else if value == 4 {
        "4"
    } else if value == 5 {
        "5"
    } else if value == 6 {
        "6"
    } else if value == 7 {
        "7"
    } else if value == 8 {
        "8"
    } else {
        "9"
    };
    assert(text@ =~= seq![digit(value as nat)]);
    text
}

/// Writes `value` in decimal digits at the end of `text`.
pub fn append_decimal(text: &mut String, value: u32)
    ensures
        final(text)@ == old(text)@ + decimal(value as nat),
    decreases value,
{
    if value >= 10 {
        append_decimal(text, value / 10);
    }
    text.append(digit_text(value % 10));
    proof {
        if value >= 10 {
            assert(old(text)@ + decimal(value as nat) =~= (old(text)@ + decimal(
                (value / 10) as nat,
            )) + seq![digit((value % 10) as nat)]);
        }
    }
}

/// `value` in decimal digits.
pub fn to_decimal(value: u32) -> (text: String)
    ensures
        text@ == decimal(value as nat),
{
    let mut text = String::new();
    append_decimal(&mut text, value);
    assert(Seq::<char>::empty() + decimal(value as nat) =~= decimal(value as nat));
    text
}

} // verus!
