//! What a single rule reports when it does not accept a token.

use vstd::prelude::*;

verus! {

/// The token does not start with the rule's sigil.
pub const NO_ENTITY: &'static str = "error parsing entity";

/// The text after the sigil is not made of three parts.
pub const NO_DATE: &'static str = "error parsing date";

/// The first part of a date is not a year.
pub const NO_YEAR: &'static str = "error parsing year";

/// The second part of a date is not a month.
pub const NO_MONTH: &'static str = "error parsing month";

/// The third part of a date is not a day.
pub const NO_DAY: &'static str = "error parsing day";

/// A recurrence does not end in one of the unit letters.
pub const NO_UNIT: &'static str = "error parsing unit";

/// The count of a recurrence is not a number.
pub const NO_COUNT: &'static str = "error parsing count";

/// Why a rule did not accept a token.
#[derive(Debug)]
pub struct ParsingError {
    pub message: &'static str,
}

} // verus!
