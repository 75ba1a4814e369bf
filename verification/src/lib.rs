//! Decision logic of the MT5 trading panel backend.
use vstd::prelude::*;

pub mod accounts;
pub mod bridge;
pub mod clock;
pub mod clones;
pub mod draw;
pub mod history;
pub mod json;
pub mod orders;
pub mod orphan;
pub mod pairs;
pub mod positions;
pub mod requests;
pub mod settings;
pub mod sync;
pub mod lexorder;
pub mod telegram;
pub mod text;
pub mod tickets;
pub mod worker;

verus! {
} // verus!
