//! The length units a width can be given in.
use vstd::prelude::*;

use crate::text::same_text;

verus! {

/// A length unit; widths are converted to points before use.
#[derive(Clone, Copy, Debug, PartialEq, Eq, Structural)]
pub enum Unit {
    Points,
    Picas,
    Millimeters,
    Centimeters,
    Inches,
}

/// The unit a settings string names. `Milimiters` is accepted beside
/// `Millimeters`; an unknown name means points.
pub open spec fn unit_named(name: Seq<char>) -> Unit {
    if name == "Picas"@ {
        Unit::Picas
    } else if name == "Milimiters"@ || name == "Millimeters"@ {
        Unit::Millimeters
    } else if name == "Centimeters"@ {
        Unit::Centimeters
    } else if name == "Inches"@ {
        Unit::Inches
    } else {
        Unit::Points
    }
}

/// Reads a unit name (see [`unit_named`]).
pub fn unit_of(name: &str) -> (r: Unit)
    ensures
        r == unit_named(name@),
{
    if same_text(name, "Picas") {
        Unit::Picas
    } else if same_text(name, "Milimiters") || same_text(name, "Millimeters") {
        Unit::Millimeters
    } else if same_text(name, "Centimeters") {
        Unit::Centimeters
    } else if same_text(name, "Inches") {
        Unit::Inches
    } else {
        Unit::Points
    }
}

} // verus!
