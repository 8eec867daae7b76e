//! The ways an operation on cards can fail.
use vstd::prelude::*;

verus! {

#[derive(Debug, Clone)]
pub enum Error {
    /// No card has the given identifier or a title that contains the given text.
    CantFindCard(String),
    /// More than one card has a title that contains the given text.
    AmbiguousName(String),
    /// The card's file is missing or cannot be read.
    CantAccessCard,
    /// The card's file does not hold a JSON object.
    CantReadFormatOfCard,
    /// A property of the card is missing or cannot be read as its type; holds its key.
    CantReadProperty(String),
    /// A request or a stored reference is malformed, or the index refused a statement.
    DatabaseError(String),
}

} // verus!
