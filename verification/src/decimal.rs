//! Numbers written in decimal.

use vstd::prelude::*;

verus! {

/// The character of a decimal digit.
pub open spec fn digit(d: int) -> char {
    (('0' as u8) + d) as u8 as char
}

/// A number in decimal.
pub open spec fn digits(n: nat) -> Seq<char>
    decreases n,
{
    if n < 10 {
        seq![digit(n as int)]
    } else {
        digits(n / 10).push(digit((n % 10) as int))
    }
}

/// A number in decimal.
pub fn decimal(n: u64) -> (text: String)
    ensures
        text@ == digits(n as nat),
    decreases n,
{
    let mut text = if n < 10 {
        String::new()
    } else {
        decimal(n / 10)
    };
    let low: u8 = (n % 10) as u8;
    let ghost before = text@;
    text.push((48u8 + low) as char);
    assert(before.push(digit((n % 10) as int)) =~= text@);
    if n < 10 {
        assert(text@ =~= seq![digit(n as int)]);
    }
    text
}

} // verus!
