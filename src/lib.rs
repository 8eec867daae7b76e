//! An index over card documents kept as JSON files in one directory per card
//! type: the record model, the statements that keep a relational index in step
//! with the files, and the queries that answer list and lookup requests.
use vstd::prelude::*;

pub mod text;
pub mod registry;
pub mod error;
pub mod ident;
pub mod document;
pub mod record;
pub mod cards;
pub mod index;
pub mod watch;
pub mod query;
pub mod report;

verus! {

} // verus!
