//! What the floating-point side of the monitor has to work out.
//!
//! Readings are kept exact: as the text the kernel or the firmware wrote, or
//! as whole counters. A [`Formula`] says how one displayed value comes about
//! from them; whoever draws the value evaluates it in single precision and
//! hands the result back as a [`crate::single::Single`].

use vstd::prelude::*;

verus! {

/// One value still to be evaluated.
#[derive(Debug)]
pub enum Formula {
    /// The number that the text writes down. A text that is no number has no
    /// value; every other formula has one.
    Number { text: String },
    /// The number that the text writes down, divided by a thousand. A text that
    /// is no number has no value.
    Thousandth { text: String },
    /// A count, divided by a million.
    Millionth { count: u64 },
    /// A part of a whole, between zero and one.
    Share { part: u64, whole: u64 },
    /// The mean of several shares, each a part and its whole.
    MeanShare { shares: Vec<(u64, u64)> },
    /// A part of a whole in percent, at most a hundred.
    Percent { part: u64, whole: u64 },
    /// A count of KiB in MiB.
    Mebibytes { kibibytes: u64 },
    /// 512-byte sectors within a time, in MiB per second.
    SectorRate { sectors: u64, nanos: u128 },
    /// Bytes within a time, in KiB per second.
    ByteRate { bytes: u64, nanos: u128 },
}

/// The mathematical form of a [`Formula`].
pub enum Term {
    Number(Seq<char>),
    Thousandth(Seq<char>),
    Millionth(u64),
    Share(u64, u64),
    MeanShare(Seq<(u64, u64)>),
    Percent(u64, u64),
    Mebibytes(u64),
    SectorRate(u64, u128),
    ByteRate(u64, u128),
}

impl View for Formula {
    type V = Term;

    open spec fn view(&self) -> Term {
        match *self {
            Formula::Number { text } => Term::Number(text@),
            Formula::Thousandth { text } => Term::Thousandth(text@),
            Formula::Millionth { count } => Term::Millionth(count),
            Formula::Share { part, whole } => Term::Share(part, whole),
            Formula::MeanShare { shares } => Term::MeanShare(shares@),
            Formula::Percent { part, whole } => Term::Percent(part, whole),
            Formula::Mebibytes { kibibytes } => Term::Mebibytes(kibibytes),
            Formula::SectorRate { sectors, nanos } => Term::SectorRate(sectors, nanos),
            Formula::ByteRate { bytes, nanos } => Term::ByteRate(bytes, nanos),
        }
    }
}

/// The terms of a list of formulas.
pub open spec fn terms(list: Seq<Formula>) -> Seq<Term> {
    Seq::new(list.len(), |i: int| list[i]@)
}

/// The term of a formula that may be missing.
pub open spec fn term(formula: Option<Formula>) -> Option<Term> {
    match formula {
        Some(f) => Some(f@),
        None => None,
    }
}

/// The texts as numbers, in their order.
pub open spec fn numbers(texts: Seq<Seq<char>>) -> Seq<Term> {
    Seq::new(texts.len(), |i: int| Term::Number(texts[i]))
}

} // verus!
