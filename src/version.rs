//! Dotted rendering of a four-part package version.
use vstd::prelude::*;
use crate::text::push_char;

verus! {

/// A package version as the registry reports it.
#[derive(Clone, Copy, Debug, PartialEq, Eq, Structural)]
pub struct PackageVersion {
    pub major: u16,
    pub minor: u16,
    pub build: u16,
    pub revision: u16,
}

pub open spec fn digit_spec(d: nat) -> char {
    if d == 0 {
        '0'
    } else if d == 1 {
        '1'
    } else if d == 2 {
        '2'
    } else if d == 3 {
        '3'
    } else if d == 4 {
        '4'
    } else if d == 5 {
        '5'
    } else if d == 6 {
        '6'
    } else if d == 7 {
        '7'
    } else if d == 8 {
        '8'
    } else {
        '9'
    }
}

/// The decimal digits of `n`, without leading zeros.
pub open spec fn decimal(n: nat) -> Seq<char>
    decreases n,
{
    if n < 10 {
        seq![digit_spec(n)]
    } else {
        decimal(n / 10).push(digit_spec(n % 10))
    }
}

/// `major.minor.build.revision` in decimal.
pub open spec fn dotted_spec(v: PackageVersion) -> Seq<char> {
    decimal(v.major as nat) + "."@ + decimal(v.minor as nat) + "."@ + decimal(v.build as nat) + "."@
        + decimal(v.revision as nat)
}

fn digit_char(d: u64) -> (r: char)
    requires
        d < 10,
    ensures
        r == digit_spec(d as nat),
{
    if d == 0 {
        '0'
    } else if d == 1 {
        '1'
    } else if d == 2 {
        '2'
    } else if d == 3 {
        '3'
    } else if d == 4 {
        '4'
    } else if d == 5 {
        '5'
    } else if d == 6 {
        '6'
    } else if d == 7 {
        '7'
    } else if d == 8 {
        '8'
    } else {
        '9'
    }
}

/// Appends the decimal digits of `n`.
pub fn push_decimal(s: &mut String, n: u64)
    ensures
        final(s)@ == old(s)@ + decimal(n as nat),
    decreases n,
{
    if n >= 10 {
        push_decimal(s, n / 10);
    }
    push_char(s, digit_char(n % 10));
}

impl PackageVersion {
    /// The version as `major.minor.build.revision`.
    pub fn to_dotted_string(&self) -> (r: String)
        ensures
            r@ == dotted_spec(*self),
    {
        let mut s = String::new();
        push_decimal(&mut s, self.major as u64);
        s.append(".");
        push_decimal(&mut s, self.minor as u64);
        s.append(".");
        push_decimal(&mut s, self.build as u64);
        s.append(".");
        push_decimal(&mut s, self.revision as u64);
        s
    }
}

} // verus!
