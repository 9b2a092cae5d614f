//! What the library's operations come to, stated on plain fields and characters.
//!
//! The laws that stand with a module say how its functions relate. Those here say of each
//! operation what its result is, in terms of what went in.
use vstd::prelude::*;

pub mod badges;
pub mod colors;
pub mod commands;
pub mod grid;
pub mod listings;
pub mod picking;
pub mod readings;
pub mod reports;
pub mod search;
pub mod states;
pub mod texts;

verus! {

}
