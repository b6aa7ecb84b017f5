//! Numbers as text.

use vstd::prelude::*;

verus! {

/// The character of a decimal digit.
pub open spec fn digit(d: nat) -> char {
    ('0' as u8 + d) as char
}

/// A number written in decimal digits, without sign and without leading zeros.
pub open spec fn decimal(n: nat) -> Seq<char>
    decreases n,
{
    if n < 10 {
        seq![digit(n)]
    } else {
        decimal(n / 10).push(digit(n % 10))
    }
}

/// A number written in decimal digits, with a minus sign in front where it is
/// below 0.
pub open spec fn signed_decimal(n: int) -> Seq<char> {
    if n < 0 {
        seq!['-'] + decimal((-n) as nat)
    } else {
        decimal(n as nat)
    }
}

/// `ToString::to_string` of the standard library on a `u128`: the number in
/// decimal digits.
#[verifier::external_body]
pub(crate) fn decimal_text(n: u128) -> (text: String)
    ensures
        text@ == decimal(n as nat),
{
    n.to_string()
}

/// `ToString::to_string` of the standard library on an `i64`: the number in
/// decimal digits, after a minus sign where it is below 0.
#[verifier::external_body]
pub(crate) fn signed_decimal_text(n: i64) -> (text: String)
    ensures
        text@ == signed_decimal(n as int),
{
    n.to_string()
}

} // verus!
