//! Trade analyst: deterministic analytics for trading journals.

pub mod behavior;
pub mod charts;
pub mod config;
pub mod dashboard;
pub mod exchange;
pub mod order;
pub mod parser;
pub mod reports;
pub mod shared;
pub mod streaks;
pub mod text;

use vstd::prelude::*;

verus! {
} // verus!
