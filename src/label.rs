//! Display labels of the week axis.

use vstd::prelude::*;
use vstd::string::*;

verus! {

/// The decimal digit for `d` (below ten).
pub open spec fn digit_char(d: nat) -> char {
    if d == 0 {
        '0'
    } else if d == 1 {
        '1'
    } else if d == 2 {
        '2'
    } else if d == 3 {
        '3'
    } else if d == 4 {
        '4'
    } else if d == 5 {
        '5'
    } else if d == 6 {
        '6'
    } else if d == 7 {
        '7'
    } else if d == 8 {
        '8'
    } else {
        '9'
    }
}

/// `n` written in decimal, without leading zeros.
pub open spec fn decimal(n: nat) -> Seq<char>
    decreases n,
{
    if n < 10 {
        seq![digit_char(n)]
    } else {
        decimal(n / 10).push(digit_char(n % 10))
    }
}

/// The label of the week `weeks_ago` weeks before the current one: the two
/// most recent weeks are named, and an earlier one gets its ordinal position
/// counting back from the present (the third most recent is "3").
pub open spec fn week_label(weeks_ago: nat) -> Seq<char> {
    if weeks_ago == 0 {
        "This week"@
    } else if weeks_ago == 1 {
        "Last week"@
    } else {
        decimal(weeks_ago + 1)
    }
}

fn digit_text(d: u64) -> (r: &'static str)
    requires
        d < 10,
    ensures
        r@ == seq![digit_char(d as nat)],
{
    proof {
        reveal_strlit("0");
        reveal_strlit("1");
        reveal_strlit("2");
        reveal_strlit("3");
        reveal_strlit("4");
        reveal_strlit("5");
        reveal_strlit("6");
        reveal_strlit("7");
        reveal_strlit("8");
        reveal_strlit("9");
    }
    if d == 0 {
        "0"
    } else if d == 1 {
        "1"
    } else if d == 2 {
        "2"
    } else if d == 3 {
        "3"
    } else if d == 4 {
        "4"
    } else if d == 5 {
        "5"
    } else if d == 6 {
        "6"
    } else if d == 7 {
        "7"
    } else if d == 8 {
        "8"
    } else {
        "9"
    }
}

/// `n` in decimal.
pub fn decimal_text(n: u64) -> (r: String)
    ensures
        r@ == decimal(n as nat),
    decreases n,
{
    if n < 10 {
        digit_text(n).to_owned()
    } else {
        let mut s = decimal_text(n / 10);
        s.append(digit_text(n % 10));
        s
    }
}

/// The label of the week `weeks_ago` weeks before the current one.
pub fn week_label_text(weeks_ago: u64) -> (r: String)
    requires
        weeks_ago < u64::MAX,
    ensures
        r@ == week_label(weeks_ago as nat),
{
    if weeks_ago == 0 {
        "This week".to_owned()
    } else if weeks_ago == 1 {
        "Last week".to_owned()
    } else {
        decimal_text(weeks_ago + 1)
    }
}

} // verus!
