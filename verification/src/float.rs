//! Double-precision arithmetic, which the host supplies.
//!
//! The library carries a double as its IEEE-754 bit pattern and orders such
//! patterns itself; producing new ones is left to an implementation of
//! [`FloatArith`]. Each operation has a twin that names its result in
//! contracts, so that what the library computes from a host's answers can
//! be stated exactly.

use vstd::prelude::*;

verus! {

/// The text of a literal, as contracts see it.
pub type Literal = Seq<char>;

/// The operations on doubles that evaluation needs from its host. Every
/// double is passed and returned as its bit pattern.
///
/// Each operation must be a function of its arguments: it returns what its
/// twin names. Nothing else is asked of a host, and nothing is proved of
/// one that is not verified itself. A twin is never run; in an
/// implementation outside verified code it is an ordinary method, and any
/// body will do.
pub trait FloatArith {
    /// What [`FloatArith::from_decimal`] returns for a literal.
    spec fn decimal_of(&self, literal: Literal) -> u64;

    /// What [`FloatArith::sum`] returns.
    spec fn sum_of(&self, a: u64, b: u64) -> u64;

    /// What [`FloatArith::difference`] returns.
    spec fn difference_of(&self, a: u64, b: u64) -> u64;

    /// What [`FloatArith::product`] returns.
    spec fn product_of(&self, a: u64, b: u64) -> u64;

    /// What [`FloatArith::quotient`] returns.
    spec fn quotient_of(&self, a: u64, b: u64) -> u64;

    /// What [`FloatArith::to_text`] returns.
    spec fn shown_as(&self, bits: u64) -> String;

    /// The double that a literal of the form `-?[0-9]+\.[0-9]*` denotes.
    fn from_decimal(&self, literal: &str) -> (r: u64)
        ensures
            r == self.decimal_of(literal@),
    ;

    /// `a + b`.
    fn sum(&self, a: u64, b: u64) -> (r: u64)
        ensures
            r == self.sum_of(a, b),
    ;

    /// `a - b`.
    fn difference(&self, a: u64, b: u64) -> (r: u64)
        ensures
            r == self.difference_of(a, b),
    ;

    /// `a * b`.
    fn product(&self, a: u64, b: u64) -> (r: u64)
        ensures
            r == self.product_of(a, b),
    ;

    /// `a / b`.
    fn quotient(&self, a: u64, b: u64) -> (r: u64)
        ensures
            r == self.quotient_of(a, b),
    ;

    /// The text that stands for a double when it is shown.
    fn to_text(&self, bits: u64) -> (r: String)
        ensures
            r@ == self.shown_as(bits)@,
    ;
}

} // verus!
