//! Small helpers on integers used when numbers are shown to people.

use vstd::prelude::*;

verus! {

/// How a number is shortened when it is shown.
#[derive(Clone, Copy, Debug, PartialEq, Eq, Structural)]
pub enum Abbreviation {
    /// In millions, with one decimal and the suffix `m`.
    Millions,
    /// In thousands, with one decimal and the suffix `k`.
    Thousands,
    /// As it is.
    Whole,
}

/// How `decimal` is shortened: a number of at least a million, either way
/// from zero, in millions; one of at least a thousand in thousands; a
/// smaller one not at all.
pub open spec fn spec_abbreviate(decimal: int) -> Abbreviation {
    if decimal <= -1_000_000 || decimal >= 1_000_000 {
        Abbreviation::Millions
    } else if decimal <= -1_000 || decimal >= 1_000 {
        Abbreviation::Thousands
    } else {
        Abbreviation::Whole
    }
}

/// How `decimal` is shortened when it is shown.
pub fn abbreviate(decimal: i64) -> (abbreviation: Abbreviation)
    ensures
        abbreviation == spec_abbreviate(decimal as int),
{
    if decimal <= -1_000_000 || decimal >= 1_000_000 {
        Abbreviation::Millions
    } else if decimal <= -1_000 || decimal >= 1_000 {
        Abbreviation::Thousands
    } else {
        Abbreviation::Whole
    }
}

/// The remainder of `a` by `n`, always in `0..n`.
pub fn modulo(a: usize, n: usize) -> (r: usize)
    requires
        n > 0,
    ensures
        r == a % n,
        r < n,
{
    a % n
}

} // verus!
