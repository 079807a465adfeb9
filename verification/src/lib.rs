//! Core of an educational-content backend: a spaced-repetition flashcard
//! scheduler built on a retention-based forgetting-curve model, with a
//! persistent card-state store, a due-set selector and a review processor,
//! together with the lesson content model and small text utilities.

pub mod auth;
pub mod dictionary;
pub mod due;
pub mod lesson;
pub mod model;
pub mod review;
pub mod store;
pub mod text;

use vstd::prelude::*;

verus! {

/// Greatest number of cards a due-set query hands back when the caller
/// names no limit of its own.
pub const DEFAULT_LIMIT: usize = 30;

} // verus!
